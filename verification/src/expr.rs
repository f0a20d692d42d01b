//! The typed expression IR.
//!
//! A tree of nodes: constants, arithmetic/relational binary operators, the
//! lazy `If`, context accessors (`GlobalVars::Height`, `GetVar`). Each node
//! has a deterministically computable result type, and smart constructors
//! reject type-mismatched children.

use vstd::prelude::*;

use crate::stype::{SType, STypeV};
use crate::value::{conforms, Constant, ConstantV, TypeError};

verus! {

/// Operations for numerical types.
#[derive(Debug, PartialEq, Eq, Clone, Copy)]
pub enum ArithOp {
    /// Addition.
    Plus,
    /// Subtraction.
    Minus,
    /// Multiplication.
    Multiply,
    /// Division.
    Divide,
    /// Max of two values.
    Max,
    /// Min of two values.
    Min,
}

/// Relational operations.
#[derive(Debug, PartialEq, Eq, Clone, Copy)]
pub enum RelationOp {
    /// Equality.
    Eq,
    /// Non-equality.
    NEq,
    /// Greater or equal.
    GE,
    /// Greater than.
    GT,
    /// Less or equal.
    LE,
    /// Less than.
    LT,
    /// Logical AND (lazy in its right operand).
    And,
    /// Logical OR (lazy in its right operand).
    Or,
}

/// Binary operation kinds.
#[derive(Debug, PartialEq, Eq, Clone, Copy)]
pub enum BinOpKind {
    /// Arithmetic operations.
    Arith(ArithOp),
    /// Relation operations (equality, comparison, logical connectives).
    Relation(RelationOp),
}

/// Context accessors that take no arguments.
#[derive(Debug, PartialEq, Eq, Clone, Copy)]
pub enum GlobalVars {
    /// Current block height.
    Height,
}

/// A binary operation node.
#[derive(Debug, PartialEq, Eq)]
pub struct BinOp {
    /// Operation kind.
    pub kind: BinOpKind,
    /// Left operand.
    pub left: Box<Expr>,
    /// Right operand.
    pub right: Box<Expr>,
}

/// The lazy conditional node: exactly one branch is ever evaluated.
#[derive(Debug, PartialEq, Eq)]
pub struct If {
    /// Boolean condition.
    pub condition: Box<Expr>,
    /// Branch taken when the condition is true.
    pub true_branch: Box<Expr>,
    /// Branch taken when the condition is false.
    pub false_branch: Box<Expr>,
}

/// Reads an entry of the per-input context extension; absent keys probe to
/// an empty option rather than an error.
#[derive(Debug, PartialEq, Eq)]
pub struct GetVar {
    /// Extension key.
    pub var_id: u8,
    /// Expected type of the entry.
    pub var_tpe: SType,
}

/// An expression node.
#[derive(Debug, PartialEq, Eq)]
pub enum Expr {
    /// Ground literal; its type is the constant's declared type.
    Const(Constant),
    /// Binary operation.
    BinOp(BinOp),
    /// Lazy conditional.
    If(If),
    /// Nullary context accessor.
    GlobalVars(GlobalVars),
    /// Context extension accessor.
    GetVar(GetVar),
}

/// Mathematical model of [`BinOp`].
#[verifier::ext_equal]
pub struct BinOpV {
    /// Operation kind.
    pub kind: BinOpKind,
    /// Left operand.
    pub left: Box<ExprV>,
    /// Right operand.
    pub right: Box<ExprV>,
}

/// Mathematical model of [`If`].
#[verifier::ext_equal]
pub struct IfV {
    /// Boolean condition.
    pub condition: Box<ExprV>,
    /// Branch taken when the condition is true.
    pub true_branch: Box<ExprV>,
    /// Branch taken when the condition is false.
    pub false_branch: Box<ExprV>,
}

/// Mathematical model of [`GetVar`].
#[verifier::ext_equal]
pub struct GetVarV {
    /// Extension key.
    pub var_id: u8,
    /// Expected type of the entry.
    pub var_tpe: STypeV,
}

/// Mathematical model of [`Expr`]. Contracts and proofs speak of this model.
#[verifier::ext_equal]
pub enum ExprV {
    /// Ground literal.
    Const(ConstantV),
    /// Binary operation.
    BinOp(BinOpV),
    /// Lazy conditional.
    If(IfV),
    /// Nullary context accessor.
    GlobalVars(GlobalVars),
    /// Context extension accessor.
    GetVar(GetVarV),
}

/// Model of one exec expression.
pub open spec fn expr_view(e: Expr) -> ExprV
    decreases e,
{
    match e {
        Expr::Const(c) => ExprV::Const(c@),
        Expr::BinOp(b) => ExprV::BinOp(BinOpV {
            kind: b.kind,
            left: Box::new(expr_view(*b.left)),
            right: Box::new(expr_view(*b.right)),
        }),
        Expr::If(i) => ExprV::If(IfV {
            condition: Box::new(expr_view(*i.condition)),
            true_branch: Box::new(expr_view(*i.true_branch)),
            false_branch: Box::new(expr_view(*i.false_branch)),
        }),
        Expr::GlobalVars(g) => ExprV::GlobalVars(g),
        Expr::GetVar(g) => ExprV::GetVar(GetVarV { var_id: g.var_id, var_tpe: g.var_tpe@ }),
    }
}

impl View for Expr {
    type V = ExprV;

    open spec fn view(&self) -> ExprV {
        expr_view(*self)
    }
}

impl View for BinOp {
    type V = BinOpV;

    open spec fn view(&self) -> BinOpV {
        BinOpV {
            kind: self.kind,
            left: Box::new(expr_view(*self.left)),
            right: Box::new(expr_view(*self.right)),
        }
    }
}

impl View for If {
    type V = IfV;

    open spec fn view(&self) -> IfV {
        IfV {
            condition: Box::new(expr_view(*self.condition)),
            true_branch: Box::new(expr_view(*self.true_branch)),
            false_branch: Box::new(expr_view(*self.false_branch)),
        }
    }
}

/// Whether `t` is one of the fixed-width integer types on which arithmetic
/// and ordering are defined.
pub open spec fn is_numeric(t: STypeV) -> bool {
    t is SByte || t is SShort || t is SInt || t is SLong
}

/// The deterministically computed result type of an expression.
///
/// Relations return `SBoolean`; arithmetic returns the left operand's type;
/// `If` returns its true branch's type; `Height` is `SInt`; `GetVar` is an
/// option of its declared type.
pub open spec fn expr_tpe(e: ExprV) -> STypeV
    decreases e,
{
    match e {
        ExprV::Const(c) => c.tpe,
        ExprV::BinOp(b) => match b.kind {
            BinOpKind::Relation(_) => STypeV::SBoolean,
            BinOpKind::Arith(_) => expr_tpe(*b.left),
        },
        ExprV::If(i) => expr_tpe(*i.true_branch),
        ExprV::GlobalVars(g) => match g {
            GlobalVars::Height => STypeV::SInt,
        },
        ExprV::GetVar(g) => STypeV::SOption(Box::new(g.var_tpe)),
    }
}

/// The local typing rule of one binary operator over its operand types.
///
/// Arithmetic requires both operands to share one numeric type; `And`/`Or`
/// require booleans; `Eq`/`NEq` require any matching pair; ordering is
/// defined only on numeric types.
pub open spec fn binop_types_ok(kind: BinOpKind, lt: STypeV, rt: STypeV) -> bool {
    match kind {
        BinOpKind::Arith(_) => lt == rt && is_numeric(lt),
        BinOpKind::Relation(op) => match op {
            RelationOp::Eq | RelationOp::NEq => lt == rt,
            RelationOp::GE | RelationOp::GT | RelationOp::LE | RelationOp::LT => lt == rt
                && is_numeric(lt),
            RelationOp::And | RelationOp::Or => lt is SBoolean && rt is SBoolean,
        },
    }
}

/// Whether every interior node's operand types satisfy its operator's
/// signature, and every constant's payload inhabits its declared type.
pub open spec fn well_typed(e: ExprV) -> bool
    decreases e,
{
    match e {
        ExprV::Const(c) => conforms(c.v, c.tpe),
        ExprV::BinOp(b) => {
            &&& well_typed(*b.left)
            &&& well_typed(*b.right)
            &&& binop_types_ok(b.kind, expr_tpe(*b.left), expr_tpe(*b.right))
        },
        ExprV::If(i) => {
            &&& well_typed(*i.condition)
            &&& well_typed(*i.true_branch)
            &&& well_typed(*i.false_branch)
            &&& expr_tpe(*i.condition) is SBoolean
            &&& expr_tpe(*i.true_branch) == expr_tpe(*i.false_branch)
        },
        ExprV::GlobalVars(_) => true,
        ExprV::GetVar(_) => true,
    }
}

impl GlobalVars {
    /// The type of this accessor's value.
    pub fn tpe(&self) -> (r: SType)
        ensures
            r@ == expr_tpe(ExprV::GlobalVars(*self)),
            r@ == STypeV::SInt,
    {
        match self {
            GlobalVars::Height => SType::SInt,
        }
    }
}

impl BinOp {
    /// The result type of this node.
    pub fn tpe(&self) -> (r: SType)
        ensures
            r@ == expr_tpe(ExprV::BinOp(self@)),
        decreases self,
    {
        match self.kind {
            BinOpKind::Relation(_) => SType::SBoolean,
            BinOpKind::Arith(_) => self.left.tpe(),
        }
    }

    /// Builds a binary operation, rejecting operand types that do not
    /// satisfy the operator's signature.
    pub fn new(kind: BinOpKind, left: Expr, right: Expr) -> (r: Result<BinOp, TypeError>)
        ensures
            binop_types_ok(kind, expr_tpe(left@), expr_tpe(right@)) ==> (r matches Ok(b) && b@
                == BinOpV {
                kind,
                left: Box::new(left@),
                right: Box::new(right@),
            }),
            !binop_types_ok(kind, expr_tpe(left@), expr_tpe(right@)) ==> (r matches Err(e) && e
                == TypeError),
            well_typed(left@) && well_typed(right@) ==> (r matches Ok(b) ==> well_typed(
                ExprV::BinOp(b@),
            )),
    {
        let lt = left.tpe();
        let rt = right.tpe();
        let ok = match kind {
            BinOpKind::Arith(_) => lt.st_eq(&rt) && is_numeric_type(&lt),
            BinOpKind::Relation(op) => match op {
                RelationOp::Eq | RelationOp::NEq => lt.st_eq(&rt),
                RelationOp::GE | RelationOp::GT | RelationOp::LE | RelationOp::LT => lt.st_eq(
                    &rt,
                ) && is_numeric_type(&lt),
                RelationOp::And | RelationOp::Or => matches!(lt, SType::SBoolean) && matches!(
                    rt,
                    SType::SBoolean,
                ),
            },
        };
        if ok {
            Ok(BinOp { kind, left: Box::new(left), right: Box::new(right) })
        } else {
            Err(TypeError)
        }
    }
}

impl If {
    /// The result type of this node: the shared type of its branches.
    pub fn tpe(&self) -> (r: SType)
        ensures
            r@ == expr_tpe(ExprV::If(self@)),
        decreases self,
    {
        self.true_branch.tpe()
    }

    /// Builds a conditional, rejecting a non-boolean condition or branches
    /// whose types do not match exactly (no implicit widening).
    pub fn new(condition: Expr, true_branch: Expr, false_branch: Expr) -> (r: Result<
        If,
        TypeError,
    >)
        ensures
            expr_tpe(condition@) is SBoolean && expr_tpe(true_branch@) == expr_tpe(false_branch@)
                ==> (r matches Ok(i) && i@ == IfV {
                condition: Box::new(condition@),
                true_branch: Box::new(true_branch@),
                false_branch: Box::new(false_branch@),
            }),
            !(expr_tpe(condition@) is SBoolean && expr_tpe(true_branch@) == expr_tpe(
                false_branch@,
            )) ==> (r matches Err(e) && e == TypeError),
            well_typed(condition@) && well_typed(true_branch@) && well_typed(false_branch@)
                ==> (r matches Ok(i) ==> well_typed(ExprV::If(i@))),
    {
        let ct = condition.tpe();
        let tt = true_branch.tpe();
        let ft = false_branch.tpe();
        if matches!(ct, SType::SBoolean) && tt.st_eq(&ft) {
            Ok(If {
                condition: Box::new(condition),
                true_branch: Box::new(true_branch),
                false_branch: Box::new(false_branch),
            })
        } else {
            Err(TypeError)
        }
    }
}

impl Expr {
    /// The deterministically computed result type of this expression.
    pub fn tpe(&self) -> (r: SType)
        ensures
            r@ == expr_tpe(self@),
        decreases self,
    {
        match self {
            Expr::Const(c) => c.tpe.clone(),
            Expr::BinOp(b) => b.tpe(),
            Expr::If(i) => i.tpe(),
            Expr::GlobalVars(g) => g.tpe(),
            Expr::GetVar(g) => SType::SOption(Box::new(g.var_tpe.clone())),
        }
    }
}

/// Decides whether `t` is a fixed-width integer type.
pub fn is_numeric_type(t: &SType) -> (r: bool)
    ensures
        r == is_numeric(t@),
{
    matches!(t, SType::SByte | SType::SShort | SType::SInt | SType::SLong)
}

/// Serialization op code of `Const` nodes.
pub const OP_CONST: u8 = 1;

/// Serialization op code of `GlobalVars::Height`.
pub const OP_HEIGHT: u8 = 2;

/// Serialization op code of `GetVar` nodes.
pub const OP_GET_VAR: u8 = 3;

/// Serialization op code of `If` nodes.
pub const OP_IF: u8 = 4;

/// Serialization op code of addition.
pub const OP_PLUS: u8 = 16;

/// Serialization op code of subtraction.
pub const OP_MINUS: u8 = 17;

/// Serialization op code of multiplication.
pub const OP_MULTIPLY: u8 = 18;

/// Serialization op code of division.
pub const OP_DIVISION: u8 = 19;

/// Serialization op code of binary max.
pub const OP_MAX: u8 = 20;

/// Serialization op code of binary min.
pub const OP_MIN: u8 = 21;

/// Serialization op code of equality.
pub const OP_EQ: u8 = 32;

/// Serialization op code of non-equality.
pub const OP_NEQ: u8 = 33;

/// Serialization op code of greater-or-equal.
pub const OP_GE: u8 = 34;

/// Serialization op code of greater-than.
pub const OP_GT: u8 = 35;

/// Serialization op code of less-or-equal.
pub const OP_LE: u8 = 36;

/// Serialization op code of less-than.
pub const OP_LT: u8 = 37;

/// Serialization op code of logical AND.
pub const OP_BIN_AND: u8 = 38;

/// Serialization op code of logical OR.
pub const OP_BIN_OR: u8 = 39;

/// The op code that serializes an arithmetic operator.
pub open spec fn arith_op_code(op: ArithOp) -> u8 {
    match op {
        ArithOp::Plus => OP_PLUS,
        ArithOp::Minus => OP_MINUS,
        ArithOp::Multiply => OP_MULTIPLY,
        ArithOp::Divide => OP_DIVISION,
        ArithOp::Max => OP_MAX,
        ArithOp::Min => OP_MIN,
    }
}

/// The op code that serializes a relational operator.
pub open spec fn relation_op_code(op: RelationOp) -> u8 {
    match op {
        RelationOp::Eq => OP_EQ,
        RelationOp::NEq => OP_NEQ,
        RelationOp::GE => OP_GE,
        RelationOp::GT => OP_GT,
        RelationOp::LE => OP_LE,
        RelationOp::LT => OP_LT,
        RelationOp::And => OP_BIN_AND,
        RelationOp::Or => OP_BIN_OR,
    }
}

/// The op code that serializes a binary operator.
pub open spec fn binop_op_code(kind: BinOpKind) -> u8 {
    match kind {
        BinOpKind::Arith(op) => arith_op_code(op),
        BinOpKind::Relation(op) => relation_op_code(op),
    }
}

impl ArithOp {
    /// Op code used by the serializer for this operator.
    pub fn op_code(&self) -> (r: u8)
        ensures
            r == arith_op_code(*self),
    {
        match self {
            ArithOp::Plus => OP_PLUS,
            ArithOp::Minus => OP_MINUS,
            ArithOp::Multiply => OP_MULTIPLY,
            ArithOp::Divide => OP_DIVISION,
            ArithOp::Max => OP_MAX,
            ArithOp::Min => OP_MIN,
        }
    }
}

impl RelationOp {
    /// Op code used by the serializer for this operator.
    pub fn op_code(&self) -> (r: u8)
        ensures
            r == relation_op_code(*self),
    {
        match self {
            RelationOp::Eq => OP_EQ,
            RelationOp::NEq => OP_NEQ,
            RelationOp::GE => OP_GE,
            RelationOp::GT => OP_GT,
            RelationOp::LE => OP_LE,
            RelationOp::LT => OP_LT,
            RelationOp::And => OP_BIN_AND,
            RelationOp::Or => OP_BIN_OR,
        }
    }
}

impl BinOp {
    /// Op code used by the serializer for this node.
    pub fn op_code(&self) -> (r: u8)
        ensures
            r == binop_op_code(self.kind),
    {
        match self.kind {
            BinOpKind::Arith(op) => op.op_code(),
            BinOpKind::Relation(op) => op.op_code(),
        }
    }
}

impl If {
    /// Op code used by the serializer for this node.
    pub fn op_code(&self) -> (r: u8)
        ensures
            r == OP_IF,
    {
        OP_IF
    }
}

} // verus!
