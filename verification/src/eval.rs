//! The evaluator: a single-threaded, deterministic, recursive tree walker.
//!
//! Evaluation takes an expression, an immutable environment and a read-only
//! context, charges a per-node cost against a configurable ceiling before
//! recursing, and produces a value or a classified error. Arithmetic on
//! fixed-width integers is checked: overflow and division by zero fail with
//! [`EvalError::ArithmeticException`] and never wrap. `And`/`Or` and `If`
//! are lazy: operands and branches that are not needed are never evaluated
//! and never charged.
//!
//! The whole semantics is the spec function [`eval_spec`]; the executable
//! walker is proved to return exactly its result and its cost.

use vstd::prelude::*;

use crate::expr::{ArithOp, BinOp, BinOpKind, BinOpV, Expr, ExprV, GlobalVars, If, IfV, RelationOp};
use crate::stype::STypeV;
use crate::value::{val_eq, Constant, ConstantV, Value, ValueV};

verus! {

/// A classified evaluation failure.
#[derive(Debug, PartialEq, Eq, Clone, Copy)]
pub enum EvalError {
    /// Integer overflow or division by zero.
    ArithmeticException,
    /// A node received a value of a variant it does not support.
    UnexpectedValue,
    /// The cost accumulator reached its ceiling.
    CostExceeded,
}

impl EvalError {
    /// Human-readable classification of this error.
    pub fn description(&self) -> &'static str {
        match self {
            EvalError::ArithmeticException => "arithmetic exception: overflow or division by zero",
            EvalError::UnexpectedValue => "unexpected value: unsupported operand variant",
            EvalError::CostExceeded => "cost limit exceeded",
        }
    }
}

/// The immutable variable environment for bound identifiers. Lambda
/// application would shadow entries in a child environment; the node kinds
/// evaluated here never write to it.
#[derive(Debug, PartialEq, Eq)]
pub struct Env {
    /// Ordered `(identifier index, value)` entries.
    pub entries: Vec<(u32, Value)>,
}

/// Mathematical model of [`Env`].
#[verifier::ext_equal]
pub struct EnvV {
    /// Ordered `(identifier index, value)` entries.
    pub entries: Seq<(u32, ValueV)>,
}

/// Models of a sequence of environment entries, element-wise.
pub open spec fn env_entry_views(s: Seq<(u32, Value)>) -> Seq<(u32, ValueV)>
    decreases s,
{
    if s.len() == 0 {
        Seq::empty()
    } else {
        seq![(s[0].0, s[0].1@)] + env_entry_views(s.drop_first())
    }
}

impl View for Env {
    type V = EnvV;

    open spec fn view(&self) -> EnvV {
        EnvV { entries: env_entry_views(self.entries@) }
    }
}

/// `env_entry_views` maps element-wise: it keeps the length and models each
/// slot.
pub proof fn lemma_env_entry_views_index(s: Seq<(u32, Value)>)
    ensures
        env_entry_views(s).len() == s.len(),
        forall|i: int| 0 <= i < s.len() ==> env_entry_views(s)[i] == (s[i].0, s[i].1@),
    decreases s,
{
    if s.len() > 0 {
        lemma_env_entry_views_index(s.drop_first());
    }
}

/// The first environment entry bound to the given index, if any.
pub open spec fn env_lookup(entries: Seq<(u32, ValueV)>, idx: u32) -> Option<ValueV>
    decreases entries.len(),
{
    if entries.len() == 0 {
        Option::None
    } else if entries[0].0 == idx {
        Option::Some(entries[0].1)
    } else {
        env_lookup(entries.drop_first(), idx)
    }
}

impl Env {
    /// The empty environment.
    pub fn empty() -> (r: Env)
        ensures
            r@.entries.len() == 0,
    {
        Env { entries: Vec::new() }
    }

    /// An environment over the given bindings, in order; the first binding
    /// of an index shadows later ones.
    pub fn new(entries: Vec<(u32, Value)>) -> (r: Env)
        ensures
            r@.entries == env_entry_views(entries@),
    {
        Env { entries }
    }

    /// Looks up the value bound to an identifier index.
    pub fn get<'a>(&'a self, idx: u32) -> (r: Option<&'a Value>)
        ensures
            match r {
                Option::Some(v) => env_lookup(self@.entries, idx) == Option::Some(v@),
                Option::None => env_lookup(self@.entries, idx) is None,
            },
    {
        proof {
            lemma_env_entry_views_index(self.entries@);
            assert(self@.entries.skip(0) =~= self@.entries);
        }
        let n = self.entries.len();
        let mut i: usize = 0;
        while i < n
            invariant
                n == self.entries.len(),
                0 <= i <= n,
                env_entry_views(self.entries@).len() == n,
                forall|k: int|
                    0 <= k < n ==> env_entry_views(self.entries@)[k] == (
                        self.entries@[k].0,
                        self.entries@[k].1@,
                    ),
                env_lookup(self@.entries, idx) == env_lookup(self@.entries.skip(i as int), idx),
            decreases n - i,
        {
            proof {
                assert(self@.entries.skip(i as int)[0] == self@.entries[i as int]);
                assert(self@.entries.skip(i as int).drop_first() =~= self@.entries.skip(
                    i as int + 1,
                ));
            }
            if self.entries[i].0 == idx {
                return Some(&self.entries[i].1);
            }
            i += 1;
        }
        proof {
            assert(self@.entries.skip(n as int).len() == 0);
        }
        None
    }
}

/// Per-input context extension: a small map from variable id to constant,
/// readable by scripts through `GetVar`.
#[derive(Debug, PartialEq, Eq)]
pub struct ContextExtension {
    /// Ordered `(variable id, constant)` entries; the first entry with a
    /// given id wins.
    pub values: Vec<(u8, Constant)>,
}

/// Models of a sequence of extension entries, element-wise.
pub open spec fn ext_entry_views(s: Seq<(u8, Constant)>) -> Seq<(u8, ConstantV)>
    decreases s,
{
    if s.len() == 0 {
        Seq::empty()
    } else {
        seq![(s[0].0, s[0].1@)] + ext_entry_views(s.drop_first())
    }
}

/// `ext_entry_views` maps element-wise: it keeps the length and models each
/// slot.
pub proof fn lemma_ext_entry_views_index(s: Seq<(u8, Constant)>)
    ensures
        ext_entry_views(s).len() == s.len(),
        forall|i: int|
            0 <= i < s.len() ==> ext_entry_views(s)[i] == (s[i].0, s[i].1@),
    decreases s,
{
    if s.len() > 0 {
        lemma_ext_entry_views_index(s.drop_first());
    }
}

impl View for ContextExtension {
    type V = Seq<(u8, ConstantV)>;

    open spec fn view(&self) -> Seq<(u8, ConstantV)> {
        ext_entry_views(self.values@)
    }
}

/// The first entry with the given id, if any.
pub open spec fn ext_lookup(entries: Seq<(u8, ConstantV)>, id: u8) -> Option<ConstantV>
    decreases entries.len(),
{
    if entries.len() == 0 {
        Option::None
    } else if entries[0].0 == id {
        Option::Some(entries[0].1)
    } else {
        ext_lookup(entries.drop_first(), id)
    }
}

/// The read-only blockchain context, pinned for the duration of one
/// evaluation.
#[derive(Debug, PartialEq, Eq)]
pub struct Context {
    /// Current block height.
    pub height: i32,
    /// Context extension of the input being evaluated.
    pub extension: ContextExtension,
}

/// Mathematical model of [`Context`].
#[verifier::ext_equal]
pub struct ContextV {
    /// Current block height.
    pub height: i32,
    /// Context extension of the input being evaluated.
    pub extension: Seq<(u8, ConstantV)>,
}

impl View for Context {
    type V = ContextV;

    open spec fn view(&self) -> ContextV {
        ContextV { height: self.height, extension: self.extension@ }
    }
}

/// Cost charged for a constant node.
pub const COST_CONST: u64 = 1;

/// Cost charged for a nullary context accessor.
pub const COST_GLOBAL_VARS: u64 = 1;

/// Cost charged for a context extension read.
pub const COST_GET_VAR: u64 = 2;

/// Cost charged for a conditional node.
pub const COST_IF: u64 = 2;

/// Cost charged for a binary operation node.
pub const COST_BINOP: u64 = 10;

/// The cost charged for one node before its children are visited. The
/// table is configuration of the evaluator, not part of the tree.
pub open spec fn node_cost(e: ExprV) -> u64 {
    match e {
        ExprV::Const(_) => COST_CONST,
        ExprV::GlobalVars(_) => COST_GLOBAL_VARS,
        ExprV::GetVar(_) => COST_GET_VAR,
        ExprV::If(_) => COST_IF,
        ExprV::BinOp(_) => COST_BINOP,
    }
}

/// Adding `c` to an accumulated cost under a ceiling: the new total, or
/// nothing when the ceiling would be crossed.
pub open spec fn cost_add(cost: u64, limit: u64, c: u64) -> Option<u64> {
    if cost + c <= limit {
        Option::Some((cost + c) as u64)
    } else {
        Option::None
    }
}

/// The monotonically increasing cost accumulator, bounded by a ceiling.
#[derive(Debug, PartialEq, Eq, Clone, Copy)]
pub struct CostAccum {
    /// Cost accumulated so far.
    pub cost: u64,
    /// The configured ceiling.
    pub limit: u64,
}

impl CostAccum {
    /// A fresh accumulator with the given ceiling.
    pub fn new(limit: u64) -> (r: CostAccum)
        ensures
            r.cost == 0,
            r.limit == limit,
    {
        CostAccum { cost: 0, limit }
    }

    /// Charges `c`, failing with [`EvalError::CostExceeded`] and leaving the
    /// total unchanged when the ceiling would be crossed.
    pub fn add(&mut self, c: u64) -> (r: Result<(), EvalError>)
        ensures
            match cost_add(old(self).cost, old(self).limit, c) {
                Option::Some(nc) => r == Ok::<(), EvalError>(()) && final(self).cost == nc,
                Option::None => r == Err::<(), EvalError>(EvalError::CostExceeded) && *final(self)
                    == *old(self),
            },
            final(self).limit == old(self).limit,
    {
        if self.cost <= self.limit && c <= self.limit - self.cost {
            self.cost = self.cost + c;
            Ok(())
        } else {
            Err(EvalError::CostExceeded)
        }
    }
}

/// Everything one evaluation owns: the borrowed-in context snapshot and the
/// uniquely owned cost accumulator.
#[derive(Debug, PartialEq, Eq)]
pub struct EvalContext {
    /// The read-only context.
    pub ctx: Context,
    /// The cost accumulator.
    pub cost_accum: CostAccum,
}

impl EvalContext {
    /// A fresh evaluation context with the given cost ceiling.
    pub fn new(ctx: Context, limit: u64) -> (r: EvalContext)
        ensures
            r.ctx == ctx,
            r.cost_accum.cost == 0,
            r.cost_accum.limit == limit,
    {
        EvalContext { ctx, cost_accum: CostAccum::new(limit) }
    }
}

/// Checked addition on same-width operands; anything else is
/// [`EvalError::UnexpectedValue`].
pub open spec fn spec_plus(l: ValueV, r: ValueV) -> Result<ValueV, EvalError> {
    match (l, r) {
        (ValueV::Byte(x), ValueV::Byte(y)) => match x.checked_add(y) {
            Option::Some(s) => Ok(ValueV::Byte(s)),
            Option::None => Err(EvalError::ArithmeticException),
        },
        (ValueV::Short(x), ValueV::Short(y)) => match x.checked_add(y) {
            Option::Some(s) => Ok(ValueV::Short(s)),
            Option::None => Err(EvalError::ArithmeticException),
        },
        (ValueV::Int(x), ValueV::Int(y)) => match x.checked_add(y) {
            Option::Some(s) => Ok(ValueV::Int(s)),
            Option::None => Err(EvalError::ArithmeticException),
        },
        (ValueV::Long(x), ValueV::Long(y)) => match x.checked_add(y) {
            Option::Some(s) => Ok(ValueV::Long(s)),
            Option::None => Err(EvalError::ArithmeticException),
        },
        _ => Err(EvalError::UnexpectedValue),
    }
}

/// Checked subtraction on same-width operands.
pub open spec fn spec_minus(l: ValueV, r: ValueV) -> Result<ValueV, EvalError> {
    match (l, r) {
        (ValueV::Byte(x), ValueV::Byte(y)) => match x.checked_sub(y) {
            Option::Some(s) => Ok(ValueV::Byte(s)),
            Option::None => Err(EvalError::ArithmeticException),
        },
        (ValueV::Short(x), ValueV::Short(y)) => match x.checked_sub(y) {
            Option::Some(s) => Ok(ValueV::Short(s)),
            Option::None => Err(EvalError::ArithmeticException),
        },
        (ValueV::Int(x), ValueV::Int(y)) => match x.checked_sub(y) {
            Option::Some(s) => Ok(ValueV::Int(s)),
            Option::None => Err(EvalError::ArithmeticException),
        },
        (ValueV::Long(x), ValueV::Long(y)) => match x.checked_sub(y) {
            Option::Some(s) => Ok(ValueV::Long(s)),
            Option::None => Err(EvalError::ArithmeticException),
        },
        _ => Err(EvalError::UnexpectedValue),
    }
}

/// Checked multiplication on same-width operands.
pub open spec fn spec_mul(l: ValueV, r: ValueV) -> Result<ValueV, EvalError> {
    match (l, r) {
        (ValueV::Byte(x), ValueV::Byte(y)) => match x.checked_mul(y) {
            Option::Some(s) => Ok(ValueV::Byte(s)),
            Option::None => Err(EvalError::ArithmeticException),
        },
        (ValueV::Short(x), ValueV::Short(y)) => match x.checked_mul(y) {
            Option::Some(s) => Ok(ValueV::Short(s)),
            Option::None => Err(EvalError::ArithmeticException),
        },
        (ValueV::Int(x), ValueV::Int(y)) => match x.checked_mul(y) {
            Option::Some(s) => Ok(ValueV::Int(s)),
            Option::None => Err(EvalError::ArithmeticException),
        },
        (ValueV::Long(x), ValueV::Long(y)) => match x.checked_mul(y) {
            Option::Some(s) => Ok(ValueV::Long(s)),
            Option::None => Err(EvalError::ArithmeticException),
        },
        _ => Err(EvalError::UnexpectedValue),
    }
}

/// Checked division on same-width operands: division by zero (and the one
/// overflowing quotient, `MIN / -1`) is an arithmetic exception.
pub open spec fn spec_div(l: ValueV, r: ValueV) -> Result<ValueV, EvalError> {
    match (l, r) {
        (ValueV::Byte(x), ValueV::Byte(y)) => match x.checked_div(y) {
            Option::Some(s) => Ok(ValueV::Byte(s)),
            Option::None => Err(EvalError::ArithmeticException),
        },
        (ValueV::Short(x), ValueV::Short(y)) => match x.checked_div(y) {
            Option::Some(s) => Ok(ValueV::Short(s)),
            Option::None => Err(EvalError::ArithmeticException),
        },
        (ValueV::Int(x), ValueV::Int(y)) => match x.checked_div(y) {
            Option::Some(s) => Ok(ValueV::Int(s)),
            Option::None => Err(EvalError::ArithmeticException),
        },
        (ValueV::Long(x), ValueV::Long(y)) => match x.checked_div(y) {
            Option::Some(s) => Ok(ValueV::Long(s)),
            Option::None => Err(EvalError::ArithmeticException),
        },
        _ => Err(EvalError::UnexpectedValue),
    }
}

/// Total maximum of same-width operands.
pub open spec fn spec_max(l: ValueV, r: ValueV) -> Result<ValueV, EvalError> {
    match (l, r) {
        (ValueV::Byte(x), ValueV::Byte(y)) => Ok(ValueV::Byte(if x >= y { x } else { y })),
        (ValueV::Short(x), ValueV::Short(y)) => Ok(ValueV::Short(if x >= y { x } else { y })),
        (ValueV::Int(x), ValueV::Int(y)) => Ok(ValueV::Int(if x >= y { x } else { y })),
        (ValueV::Long(x), ValueV::Long(y)) => Ok(ValueV::Long(if x >= y { x } else { y })),
        _ => Err(EvalError::UnexpectedValue),
    }
}

/// Total minimum of same-width operands.
pub open spec fn spec_min(l: ValueV, r: ValueV) -> Result<ValueV, EvalError> {
    match (l, r) {
        (ValueV::Byte(x), ValueV::Byte(y)) => Ok(ValueV::Byte(if x <= y { x } else { y })),
        (ValueV::Short(x), ValueV::Short(y)) => Ok(ValueV::Short(if x <= y { x } else { y })),
        (ValueV::Int(x), ValueV::Int(y)) => Ok(ValueV::Int(if x <= y { x } else { y })),
        (ValueV::Long(x), ValueV::Long(y)) => Ok(ValueV::Long(if x <= y { x } else { y })),
        _ => Err(EvalError::UnexpectedValue),
    }
}

/// Ordering on same-width operands; anything else is
/// [`EvalError::UnexpectedValue`]. `op` is one of `GE`, `GT`, `LE`, `LT`.
pub open spec fn spec_cmp(op: RelationOp, l: ValueV, r: ValueV) -> Result<ValueV, EvalError> {
    match (l, r) {
        (ValueV::Byte(x), ValueV::Byte(y)) => Ok(ValueV::Boolean(cmp_holds(op, x as int, y as int))),
        (ValueV::Short(x), ValueV::Short(y)) => Ok(
            ValueV::Boolean(cmp_holds(op, x as int, y as int)),
        ),
        (ValueV::Int(x), ValueV::Int(y)) => Ok(ValueV::Boolean(cmp_holds(op, x as int, y as int))),
        (ValueV::Long(x), ValueV::Long(y)) => Ok(ValueV::Boolean(cmp_holds(op, x as int, y as int))),
        _ => Err(EvalError::UnexpectedValue),
    }
}

/// Whether the ordering `op` holds between two mathematical integers.
pub open spec fn cmp_holds(op: RelationOp, x: int, y: int) -> bool {
    match op {
        RelationOp::GE => x >= y,
        RelationOp::GT => x > y,
        RelationOp::LE => x <= y,
        RelationOp::LT => x < y,
        _ => false,
    }
}

/// The result of one strict (non-lazy) binary operator on two operand
/// values.
pub open spec fn apply_strict_binop(kind: BinOpKind, l: ValueV, r: ValueV) -> Result<
    ValueV,
    EvalError,
> {
    match kind {
        BinOpKind::Arith(op) => match op {
            ArithOp::Plus => spec_plus(l, r),
            ArithOp::Minus => spec_minus(l, r),
            ArithOp::Multiply => spec_mul(l, r),
            ArithOp::Divide => spec_div(l, r),
            ArithOp::Max => spec_max(l, r),
            ArithOp::Min => spec_min(l, r),
        },
        BinOpKind::Relation(op) => match op {
            RelationOp::Eq => Ok(ValueV::Boolean(val_eq(l, r))),
            RelationOp::NEq => Ok(ValueV::Boolean(!val_eq(l, r))),
            RelationOp::GE | RelationOp::GT | RelationOp::LE | RelationOp::LT => spec_cmp(
                op,
                l,
                r,
            ),
            // And/Or are lazy and never reach this function.
            RelationOp::And | RelationOp::Or => Err(EvalError::UnexpectedValue),
        },
    }
}

/// The semantics of evaluation: the result and the final accumulated cost.
///
/// Each node charges its per-node cost before recursion; a crossed ceiling
/// stops evaluation with [`EvalError::CostExceeded`] and leaves the total
/// as it was. Operand evaluation is strictly left-to-right. `And` with a
/// false left operand and `Or` with a true one return without touching the
/// right operand; `If` evaluates its condition and then exactly one branch.
/// The final cost is therefore the sum of the per-node costs of exactly the
/// nodes actually visited, on top of the starting total.
pub open spec fn eval_spec(e: ExprV, env: EnvV, ctx: ContextV, cost: u64, limit: u64) -> (Result<
    ValueV,
    EvalError,
>, u64)
    decreases e, 0int,
{
    match cost_add(cost, limit, node_cost(e)) {
        Option::None => (Err(EvalError::CostExceeded), cost),
        Option::Some(c1) => match e {
            ExprV::Const(c) => (Ok(c.v), c1),
            ExprV::GlobalVars(g) => match g {
                GlobalVars::Height => (Ok(ValueV::Int(ctx.height)), c1),
            },
            ExprV::GetVar(g) => match ext_lookup(ctx.extension, g.var_id) {
                Option::None => (Ok(ValueV::Opt(Option::None)), c1),
                Option::Some(c) => if c.tpe == g.var_tpe {
                    (Ok(ValueV::Opt(Option::Some(Box::new(c.v)))), c1)
                } else {
                    (Err(EvalError::UnexpectedValue), c1)
                },
            },
            ExprV::If(i) => {
                let (cv, c2) = eval_spec(*i.condition, env, ctx, c1, limit);
                match cv {
                    Err(err) => (Err(err), c2),
                    Ok(v) => match v {
                        ValueV::Boolean(true) => eval_spec(*i.true_branch, env, ctx, c2, limit),
                        ValueV::Boolean(false) => eval_spec(*i.false_branch, env, ctx, c2, limit),
                        _ => (Err(EvalError::UnexpectedValue), c2),
                    },
                }
            },
            ExprV::BinOp(b) => {
                let (lv, c2) = eval_spec(*b.left, env, ctx, c1, limit);
                match lv {
                    Err(err) => (Err(err), c2),
                    Ok(l) => match b.kind {
                        BinOpKind::Relation(RelationOp::And) => match l {
                            ValueV::Boolean(false) => (Ok(ValueV::Boolean(false)), c2),
                            ValueV::Boolean(true) => eval_spec_bool_right(
                                *b.right,
                                env,
                                ctx,
                                c2,
                                limit,
                            ),
                            _ => (Err(EvalError::UnexpectedValue), c2),
                        },
                        BinOpKind::Relation(RelationOp::Or) => match l {
                            ValueV::Boolean(true) => (Ok(ValueV::Boolean(true)), c2),
                            ValueV::Boolean(false) => eval_spec_bool_right(
                                *b.right,
                                env,
                                ctx,
                                c2,
                                limit,
                            ),
                            _ => (Err(EvalError::UnexpectedValue), c2),
                        },
                        _ => {
                            let (rv, c3) = eval_spec(*b.right, env, ctx, c2, limit);
                            match rv {
                                Err(err) => (Err(err), c3),
                                Ok(r) => (apply_strict_binop(b.kind, l, r), c3),
                            }
                        },
                    },
                }
            },
        },
    }
}

/// Evaluates the right operand of a lazy connective and requires it to be a
/// boolean.
pub open spec fn eval_spec_bool_right(e: ExprV, env: EnvV, ctx: ContextV, cost: u64, limit: u64) -> (
    Result<ValueV, EvalError>,
    u64,
)
    decreases e, 1int,
{
    let (rv, c) = eval_spec(e, env, ctx, cost, limit);
    match rv {
        Err(err) => (Err(err), c),
        Ok(v) => match v {
            ValueV::Boolean(rb) => (Ok(ValueV::Boolean(rb)), c),
            _ => (Err(EvalError::UnexpectedValue), c),
        },
    }
}

/// The model of one exec result.
pub open spec fn res_view(r: Result<Value, EvalError>) -> Result<ValueV, EvalError> {
    match r {
        Ok(v) => Ok(v@),
        Err(e) => Err(e),
    }
}

/// What every evaluation entry point ensures: the context snapshot and the
/// ceiling are untouched, and the result and final cost are exactly those
/// of [`eval_spec`].
pub open spec fn eval_post(
    e: ExprV,
    env: EnvV,
    before: EvalContext,
    after: EvalContext,
    r: Result<Value, EvalError>,
) -> bool {
    let (sr, sc) = eval_spec(e, env, before.ctx@, before.cost_accum.cost, before.cost_accum.limit);
    &&& after.ctx == before.ctx
    &&& after.cost_accum.limit == before.cost_accum.limit
    &&& after.cost_accum.cost == sc
    &&& res_view(r) == sr
}

/// Checked addition on operand values (same result as the host's
/// `checked_add` on each width).
pub fn eval_plus(lv: Value, rv: Value) -> (r: Result<Value, EvalError>)
    ensures
        res_view(r) == spec_plus(lv@, rv@),
{
    match (lv, rv) {
        (Value::Byte(x), Value::Byte(y)) => match x.checked_add(y) {
            Option::Some(s) => Ok(Value::Byte(s)),
            Option::None => Err(EvalError::ArithmeticException),
        },
        (Value::Short(x), Value::Short(y)) => match x.checked_add(y) {
            Option::Some(s) => Ok(Value::Short(s)),
            Option::None => Err(EvalError::ArithmeticException),
        },
        (Value::Int(x), Value::Int(y)) => match x.checked_add(y) {
            Option::Some(s) => Ok(Value::Int(s)),
            Option::None => Err(EvalError::ArithmeticException),
        },
        (Value::Long(x), Value::Long(y)) => match x.checked_add(y) {
            Option::Some(s) => Ok(Value::Long(s)),
            Option::None => Err(EvalError::ArithmeticException),
        },
        _ => Err(EvalError::UnexpectedValue),
    }
}

/// Checked subtraction on operand values.
pub fn eval_minus(lv: Value, rv: Value) -> (r: Result<Value, EvalError>)
    ensures
        res_view(r) == spec_minus(lv@, rv@),
{
    match (lv, rv) {
        (Value::Byte(x), Value::Byte(y)) => match x.checked_sub(y) {
            Option::Some(s) => Ok(Value::Byte(s)),
            Option::None => Err(EvalError::ArithmeticException),
        },
        (Value::Short(x), Value::Short(y)) => match x.checked_sub(y) {
            Option::Some(s) => Ok(Value::Short(s)),
            Option::None => Err(EvalError::ArithmeticException),
        },
        (Value::Int(x), Value::Int(y)) => match x.checked_sub(y) {
            Option::Some(s) => Ok(Value::Int(s)),
            Option::None => Err(EvalError::ArithmeticException),
        },
        (Value::Long(x), Value::Long(y)) => match x.checked_sub(y) {
            Option::Some(s) => Ok(Value::Long(s)),
            Option::None => Err(EvalError::ArithmeticException),
        },
        _ => Err(EvalError::UnexpectedValue),
    }
}

/// Checked multiplication on operand values.
pub fn eval_mul(lv: Value, rv: Value) -> (r: Result<Value, EvalError>)
    ensures
        res_view(r) == spec_mul(lv@, rv@),
{
    match (lv, rv) {
        (Value::Byte(x), Value::Byte(y)) => match x.checked_mul(y) {
            Option::Some(s) => Ok(Value::Byte(s)),
            Option::None => Err(EvalError::ArithmeticException),
        },
        (Value::Short(x), Value::Short(y)) => match x.checked_mul(y) {
            Option::Some(s) => Ok(Value::Short(s)),
            Option::None => Err(EvalError::ArithmeticException),
        },
        (Value::Int(x), Value::Int(y)) => match x.checked_mul(y) {
            Option::Some(s) => Ok(Value::Int(s)),
            Option::None => Err(EvalError::ArithmeticException),
        },
        (Value::Long(x), Value::Long(y)) => match x.checked_mul(y) {
            Option::Some(s) => Ok(Value::Long(s)),
            Option::None => Err(EvalError::ArithmeticException),
        },
        _ => Err(EvalError::UnexpectedValue),
    }
}

/// Checked division on operand values.
pub fn eval_div(lv: Value, rv: Value) -> (r: Result<Value, EvalError>)
    ensures
        res_view(r) == spec_div(lv@, rv@),
{
    match (lv, rv) {
        (Value::Byte(x), Value::Byte(y)) => match x.checked_div(y) {
            Option::Some(s) => Ok(Value::Byte(s)),
            Option::None => Err(EvalError::ArithmeticException),
        },
        (Value::Short(x), Value::Short(y)) => match x.checked_div(y) {
            Option::Some(s) => Ok(Value::Short(s)),
            Option::None => Err(EvalError::ArithmeticException),
        },
        (Value::Int(x), Value::Int(y)) => match x.checked_div(y) {
            Option::Some(s) => Ok(Value::Int(s)),
            Option::None => Err(EvalError::ArithmeticException),
        },
        (Value::Long(x), Value::Long(y)) => match x.checked_div(y) {
            Option::Some(s) => Ok(Value::Long(s)),
            Option::None => Err(EvalError::ArithmeticException),
        },
        _ => Err(EvalError::UnexpectedValue),
    }
}

/// Total maximum of operand values.
pub fn eval_max(lv: Value, rv: Value) -> (r: Result<Value, EvalError>)
    ensures
        res_view(r) == spec_max(lv@, rv@),
{
    match (lv, rv) {
        (Value::Byte(x), Value::Byte(y)) => Ok(Value::Byte(if x >= y { x } else { y })),
        (Value::Short(x), Value::Short(y)) => Ok(Value::Short(if x >= y { x } else { y })),
        (Value::Int(x), Value::Int(y)) => Ok(Value::Int(if x >= y { x } else { y })),
        (Value::Long(x), Value::Long(y)) => Ok(Value::Long(if x >= y { x } else { y })),
        _ => Err(EvalError::UnexpectedValue),
    }
}

/// Total minimum of operand values.
pub fn eval_min(lv: Value, rv: Value) -> (r: Result<Value, EvalError>)
    ensures
        res_view(r) == spec_min(lv@, rv@),
{
    match (lv, rv) {
        (Value::Byte(x), Value::Byte(y)) => Ok(Value::Byte(if x <= y { x } else { y })),
        (Value::Short(x), Value::Short(y)) => Ok(Value::Short(if x <= y { x } else { y })),
        (Value::Int(x), Value::Int(y)) => Ok(Value::Int(if x <= y { x } else { y })),
        (Value::Long(x), Value::Long(y)) => Ok(Value::Long(if x <= y { x } else { y })),
        _ => Err(EvalError::UnexpectedValue),
    }
}

/// Greater-or-equal on operand values.
pub fn eval_ge(lv: Value, rv: Value) -> (r: Result<Value, EvalError>)
    ensures
        res_view(r) == spec_cmp(RelationOp::GE, lv@, rv@),
{
    match (lv, rv) {
        (Value::Byte(x), Value::Byte(y)) => Ok(Value::Boolean(x >= y)),
        (Value::Short(x), Value::Short(y)) => Ok(Value::Boolean(x >= y)),
        (Value::Int(x), Value::Int(y)) => Ok(Value::Boolean(x >= y)),
        (Value::Long(x), Value::Long(y)) => Ok(Value::Boolean(x >= y)),
        _ => Err(EvalError::UnexpectedValue),
    }
}

/// Greater-than on operand values.
pub fn eval_gt(lv: Value, rv: Value) -> (r: Result<Value, EvalError>)
    ensures
        res_view(r) == spec_cmp(RelationOp::GT, lv@, rv@),
{
    match (lv, rv) {
        (Value::Byte(x), Value::Byte(y)) => Ok(Value::Boolean(x > y)),
        (Value::Short(x), Value::Short(y)) => Ok(Value::Boolean(x > y)),
        (Value::Int(x), Value::Int(y)) => Ok(Value::Boolean(x > y)),
        (Value::Long(x), Value::Long(y)) => Ok(Value::Boolean(x > y)),
        _ => Err(EvalError::UnexpectedValue),
    }
}

/// Less-or-equal on operand values.
pub fn eval_le(lv: Value, rv: Value) -> (r: Result<Value, EvalError>)
    ensures
        res_view(r) == spec_cmp(RelationOp::LE, lv@, rv@),
{
    match (lv, rv) {
        (Value::Byte(x), Value::Byte(y)) => Ok(Value::Boolean(x <= y)),
        (Value::Short(x), Value::Short(y)) => Ok(Value::Boolean(x <= y)),
        (Value::Int(x), Value::Int(y)) => Ok(Value::Boolean(x <= y)),
        (Value::Long(x), Value::Long(y)) => Ok(Value::Boolean(x <= y)),
        _ => Err(EvalError::UnexpectedValue),
    }
}

/// Less-than on operand values.
pub fn eval_lt(lv: Value, rv: Value) -> (r: Result<Value, EvalError>)
    ensures
        res_view(r) == spec_cmp(RelationOp::LT, lv@, rv@),
{
    match (lv, rv) {
        (Value::Byte(x), Value::Byte(y)) => Ok(Value::Boolean(x < y)),
        (Value::Short(x), Value::Short(y)) => Ok(Value::Boolean(x < y)),
        (Value::Int(x), Value::Int(y)) => Ok(Value::Boolean(x < y)),
        (Value::Long(x), Value::Long(y)) => Ok(Value::Boolean(x < y)),
        _ => Err(EvalError::UnexpectedValue),
    }
}

impl Expr {
    /// Evaluates this expression against an environment and an evaluation
    /// context, charging costs as it goes. Returns exactly what
    /// [`eval_spec`] prescribes, with the context snapshot untouched.
    pub fn eval(&self, env: &Env, ec: &mut EvalContext) -> (r: Result<Value, EvalError>)
        ensures
            eval_post(self@, env@, *old(ec), *final(ec), r),
        decreases self, 0int,
    {
        match self {
            Expr::Const(c) => {
                match ec.cost_accum.add(COST_CONST) {
                    Err(e) => Err(e),
                    Ok(()) => Ok(c.v.clone()),
                }
            },
            Expr::GlobalVars(g) => {
                match ec.cost_accum.add(COST_GLOBAL_VARS) {
                    Err(e) => Err(e),
                    Ok(()) => match g {
                        GlobalVars::Height => Ok(Value::Int(ec.ctx.height)),
                    },
                }
            },
            Expr::GetVar(g) => {
                match ec.cost_accum.add(COST_GET_VAR) {
                    Err(e) => Err(e),
                    Ok(()) => {
                        match lookup_extension(&ec.ctx.extension, g.var_id) {
                            Option::None => Ok(Value::Opt(Option::None)),
                            Option::Some(c) => {
                                if c.tpe.st_eq(&g.var_tpe) {
                                    Ok(Value::Opt(Option::Some(Box::new(c.v.clone()))))
                                } else {
                                    Err(EvalError::UnexpectedValue)
                                }
                            },
                        }
                    },
                }
            },
            Expr::If(i) => i.eval(env, ec),
            Expr::BinOp(b) => b.eval(env, ec),
        }
    }
}

/// Finds the first extension entry with the given id.
fn lookup_extension<'a>(ext: &'a ContextExtension, id: u8) -> (r: Option<&'a Constant>)
    ensures
        match r {
            Option::Some(c) => ext_lookup(ext@, id) == Option::Some(c@),
            Option::None => ext_lookup(ext@, id) is None,
        },
{
    proof {
        lemma_ext_entry_views_index(ext.values@);
        assert(ext@.skip(0) =~= ext@);
    }
    let n = ext.values.len();
    let mut i: usize = 0;
    while i < n
        invariant
            n == ext.values.len(),
            0 <= i <= n,
            ext_entry_views(ext.values@).len() == n,
            forall|k: int|
                0 <= k < n ==> ext_entry_views(ext.values@)[k] == (
                    ext.values@[k].0,
                    ext.values@[k].1@,
                ),
            ext_lookup(ext@, id) == ext_lookup(ext@.skip(i as int), id),
        decreases n - i,
    {
        proof {
            assert(ext@.skip(i as int)[0] == ext@[i as int]);
            assert(ext@.skip(i as int).drop_first() =~= ext@.skip(i as int + 1));
        }
        if ext.values[i].0 == id {
            return Some(&ext.values[i].1);
        }
        i += 1;
    }
    proof {
        assert(ext@.skip(n as int).len() == 0);
    }
    None
}

impl If {
    /// Evaluates the condition, then exactly one branch; the untaken branch
    /// is never touched, so a division by zero there cannot raise.
    pub fn eval(&self, env: &Env, ec: &mut EvalContext) -> (r: Result<Value, EvalError>)
        ensures
            eval_post(ExprV::If(self@), env@, *old(ec), *final(ec), r),
        decreases self, 0int,
    {
        match ec.cost_accum.add(COST_IF) {
            Err(e) => Err(e),
            Ok(()) => {
                let cond = self.condition.eval(env, ec);
                match cond {
                    Err(e) => Err(e),
                    Ok(v) => match v {
                        Value::Boolean(true) => self.true_branch.eval(env, ec),
                        Value::Boolean(false) => self.false_branch.eval(env, ec),
                        _ => Err(EvalError::UnexpectedValue),
                    },
                }
            },
        }
    }
}

impl BinOp {
    /// Evaluates the left operand, then dispatches on the operator: the
    /// lazy connectives may return without evaluating the right operand;
    /// every other operator evaluates both, left to right.
    pub fn eval(&self, env: &Env, ec: &mut EvalContext) -> (r: Result<Value, EvalError>)
        ensures
            eval_post(ExprV::BinOp(self@), env@, *old(ec), *final(ec), r),
        decreases self, 0int,
    {
        match ec.cost_accum.add(COST_BINOP) {
            Err(e) => Err(e),
            Ok(()) => {
                let lv = match self.left.eval(env, ec) {
                    Err(e) => {
                        return Err(e);
                    },
                    Ok(v) => v,
                };
                match self.kind {
                    BinOpKind::Relation(RelationOp::And) => match lv {
                        Value::Boolean(false) => Ok(Value::Boolean(false)),
                        Value::Boolean(true) => eval_bool_operand(&self.right, env, ec),
                        _ => Err(EvalError::UnexpectedValue),
                    },
                    BinOpKind::Relation(RelationOp::Or) => match lv {
                        Value::Boolean(true) => Ok(Value::Boolean(true)),
                        Value::Boolean(false) => eval_bool_operand(&self.right, env, ec),
                        _ => Err(EvalError::UnexpectedValue),
                    },
                    _ => {
                        let rv = match self.right.eval(env, ec) {
                            Err(e) => {
                                return Err(e);
                            },
                            Ok(v) => v,
                        };
                        match self.kind {
                            BinOpKind::Arith(op) => match op {
                                ArithOp::Plus => eval_plus(lv, rv),
                                ArithOp::Minus => eval_minus(lv, rv),
                                ArithOp::Multiply => eval_mul(lv, rv),
                                ArithOp::Divide => eval_div(lv, rv),
                                ArithOp::Max => eval_max(lv, rv),
                                ArithOp::Min => eval_min(lv, rv),
                            },
                            BinOpKind::Relation(op) => match op {
                                RelationOp::Eq => Ok(Value::Boolean(lv.v_eq(&rv))),
                                RelationOp::NEq => Ok(Value::Boolean(!lv.v_eq(&rv))),
                                RelationOp::GE => eval_ge(lv, rv),
                                RelationOp::GT => eval_gt(lv, rv),
                                RelationOp::LE => eval_le(lv, rv),
                                RelationOp::LT => eval_lt(lv, rv),
                                // And/Or were handled lazily above.
                                RelationOp::And | RelationOp::Or => Err(
                                    EvalError::UnexpectedValue,
                                ),
                            },
                        }
                    },
                }
            },
        }
    }
}

/// Evaluates the right operand of a lazy connective and requires it to be
/// a boolean.
fn eval_bool_operand(e: &Expr, env: &Env, ec: &mut EvalContext) -> (r: Result<Value, EvalError>)
    ensures
        ({
            let (sr, sc) = eval_spec_bool_right(
                e@,
                env@,
                old(ec).ctx@,
                old(ec).cost_accum.cost,
                old(ec).cost_accum.limit,
            );
            &&& final(ec).ctx == old(ec).ctx
            &&& final(ec).cost_accum.limit == old(ec).cost_accum.limit
            &&& final(ec).cost_accum.cost == sc
            &&& res_view(r) == sr
        }),
    decreases e, 1int,
{
    let rv = match e.eval(env, ec) {
        Err(err) => {
            return Err(err);
        },
        Ok(v) => v,
    };
    match rv {
        Value::Boolean(rb) => Ok(Value::Boolean(rb)),
        _ => Err(EvalError::UnexpectedValue),
    }
}


/// A strict binary operator over two constants applies the operator to the
/// payloads, and the final cost is the sum of the three visited nodes'
/// costs: the operator node and both constant operands.
pub proof fn lemma_eval_strict_binop_on_consts(
    kind: BinOpKind,
    ca: ConstantV,
    cb: ConstantV,
    env: EnvV,
    ctx: ContextV,
    cost: u64,
    limit: u64,
)
    requires
        kind != BinOpKind::Relation(RelationOp::And),
        kind != BinOpKind::Relation(RelationOp::Or),
        cost + COST_BINOP + 2 * COST_CONST <= limit,
    ensures
        eval_spec(
            ExprV::BinOp(
                BinOpV {
                    kind,
                    left: Box::new(ExprV::Const(ca)),
                    right: Box::new(ExprV::Const(cb)),
                },
            ),
            env,
            ctx,
            cost,
            limit,
        ) == (apply_strict_binop(kind, ca.v, cb.v), (cost + COST_BINOP + 2 * COST_CONST) as u64),
{
    reveal_with_fuel(eval_spec, 3);
}

/// Arithmetic correctness (addition): evaluating `BinOp(Plus, Const(l),
/// Const(r))` on 64-bit operands returns exactly what the host's checked
/// addition returns, and fails with an arithmetic exception exactly when it
/// overflows.
pub proof fn lemma_eval_plus_matches_checked_long(
    l: i64,
    r: i64,
    env: EnvV,
    ctx: ContextV,
    cost: u64,
    limit: u64,
)
    requires
        cost + COST_BINOP + 2 * COST_CONST <= limit,
    ensures
        eval_spec(
            ExprV::BinOp(
                BinOpV {
                    kind: BinOpKind::Arith(ArithOp::Plus),
                    left: Box::new(
                        ExprV::Const(ConstantV { tpe: STypeV::SLong, v: ValueV::Long(l) }),
                    ),
                    right: Box::new(
                        ExprV::Const(ConstantV { tpe: STypeV::SLong, v: ValueV::Long(r) }),
                    ),
                },
            ),
            env,
            ctx,
            cost,
            limit,
        ).0 == (match l.checked_add(r) {
            Option::Some(s) => Ok::<ValueV, EvalError>(ValueV::Long(s)),
            Option::None => Err::<ValueV, EvalError>(EvalError::ArithmeticException),
        }),
{
    lemma_eval_strict_binop_on_consts(
        BinOpKind::Arith(ArithOp::Plus),
        ConstantV { tpe: STypeV::SLong, v: ValueV::Long(l) },
        ConstantV { tpe: STypeV::SLong, v: ValueV::Long(r) },
        env,
        ctx,
        cost,
        limit,
    );
}

/// Arithmetic correctness (addition, 32-bit operands).
pub proof fn lemma_eval_plus_matches_checked_int(
    l: i32,
    r: i32,
    env: EnvV,
    ctx: ContextV,
    cost: u64,
    limit: u64,
)
    requires
        cost + COST_BINOP + 2 * COST_CONST <= limit,
    ensures
        eval_spec(
            ExprV::BinOp(
                BinOpV {
                    kind: BinOpKind::Arith(ArithOp::Plus),
                    left: Box::new(
                        ExprV::Const(ConstantV { tpe: STypeV::SInt, v: ValueV::Int(l) }),
                    ),
                    right: Box::new(
                        ExprV::Const(ConstantV { tpe: STypeV::SInt, v: ValueV::Int(r) }),
                    ),
                },
            ),
            env,
            ctx,
            cost,
            limit,
        ).0 == (match l.checked_add(r) {
            Option::Some(s) => Ok::<ValueV, EvalError>(ValueV::Int(s)),
            Option::None => Err::<ValueV, EvalError>(EvalError::ArithmeticException),
        }),
{
    lemma_eval_strict_binop_on_consts(
        BinOpKind::Arith(ArithOp::Plus),
        ConstantV { tpe: STypeV::SInt, v: ValueV::Int(l) },
        ConstantV { tpe: STypeV::SInt, v: ValueV::Int(r) },
        env,
        ctx,
        cost,
        limit,
    );
}

/// Relational agreement on 64-bit operands: `GT`, `LT`, `GE` and `LE`
/// return exactly the host's ordering of the payloads.
pub proof fn lemma_eval_cmp_agrees_long(
    op: RelationOp,
    l: i64,
    r: i64,
    env: EnvV,
    ctx: ContextV,
    cost: u64,
    limit: u64,
)
    requires
        op == RelationOp::GE || op == RelationOp::GT || op == RelationOp::LE || op
            == RelationOp::LT,
        cost + COST_BINOP + 2 * COST_CONST <= limit,
    ensures
        eval_spec(
            ExprV::BinOp(
                BinOpV {
                    kind: BinOpKind::Relation(op),
                    left: Box::new(
                        ExprV::Const(ConstantV { tpe: STypeV::SLong, v: ValueV::Long(l) }),
                    ),
                    right: Box::new(
                        ExprV::Const(ConstantV { tpe: STypeV::SLong, v: ValueV::Long(r) }),
                    ),
                },
            ),
            env,
            ctx,
            cost,
            limit,
        ).0 == Ok::<ValueV, EvalError>(ValueV::Boolean(cmp_holds(op, l as int, r as int))),
{
    lemma_eval_strict_binop_on_consts(
        BinOpKind::Relation(op),
        ConstantV { tpe: STypeV::SLong, v: ValueV::Long(l) },
        ConstantV { tpe: STypeV::SLong, v: ValueV::Long(r) },
        env,
        ctx,
        cost,
        limit,
    );
}

/// Equality is reflexive: comparing any constant with itself evaluates to
/// true.
pub proof fn lemma_eval_eq_reflexive(
    c: ConstantV,
    env: EnvV,
    ctx: ContextV,
    cost: u64,
    limit: u64,
)
    requires
        cost + COST_BINOP + 2 * COST_CONST <= limit,
    ensures
        eval_spec(
            ExprV::BinOp(
                BinOpV {
                    kind: BinOpKind::Relation(RelationOp::Eq),
                    left: Box::new(ExprV::Const(c)),
                    right: Box::new(ExprV::Const(c)),
                },
            ),
            env,
            ctx,
            cost,
            limit,
        ).0 == Ok::<ValueV, EvalError>(ValueV::Boolean(true)),
{
    lemma_eval_strict_binop_on_consts(
        BinOpKind::Relation(RelationOp::Eq),
        c,
        c,
        env,
        ctx,
        cost,
        limit,
    );
    crate::value::lemma_val_eq_reflexive(c.v);
}

/// Laziness of `If`: when the condition evaluates to true, the false
/// branch is irrelevant — it may be any expression, however divergent —
/// and the whole conditional evaluates exactly as its true branch does.
pub proof fn lemma_if_true_ignores_false_branch(
    cond: ExprV,
    tb: ExprV,
    fb1: ExprV,
    fb2: ExprV,
    env: EnvV,
    ctx: ContextV,
    cost: u64,
    limit: u64,
)
    requires
        cost_add(cost, limit, COST_IF) matches Option::Some(c1) && eval_spec(
            cond,
            env,
            ctx,
            c1,
            limit,
        ).0 == Ok::<ValueV, EvalError>(ValueV::Boolean(true)),
    ensures
        eval_spec(
            ExprV::If(
                IfV {
                    condition: Box::new(cond),
                    true_branch: Box::new(tb),
                    false_branch: Box::new(fb1),
                },
            ),
            env,
            ctx,
            cost,
            limit,
        ) == eval_spec(
            ExprV::If(
                IfV {
                    condition: Box::new(cond),
                    true_branch: Box::new(tb),
                    false_branch: Box::new(fb2),
                },
            ),
            env,
            ctx,
            cost,
            limit,
        ),
        eval_spec(
            ExprV::If(
                IfV {
                    condition: Box::new(cond),
                    true_branch: Box::new(tb),
                    false_branch: Box::new(fb1),
                },
            ),
            env,
            ctx,
            cost,
            limit,
        ) == eval_spec(
            tb,
            env,
            ctx,
            eval_spec(cond, env, ctx, (cost + COST_IF) as u64, limit).1,
            limit,
        ),
{
}

/// Laziness of `If`, symmetric case: when the condition evaluates to
/// false, the true branch is irrelevant and the conditional evaluates
/// exactly as its false branch does.
pub proof fn lemma_if_false_ignores_true_branch(
    cond: ExprV,
    tb1: ExprV,
    tb2: ExprV,
    fb: ExprV,
    env: EnvV,
    ctx: ContextV,
    cost: u64,
    limit: u64,
)
    requires
        cost_add(cost, limit, COST_IF) matches Option::Some(c1) && eval_spec(
            cond,
            env,
            ctx,
            c1,
            limit,
        ).0 == Ok::<ValueV, EvalError>(ValueV::Boolean(false)),
    ensures
        eval_spec(
            ExprV::If(
                IfV {
                    condition: Box::new(cond),
                    true_branch: Box::new(tb1),
                    false_branch: Box::new(fb),
                },
            ),
            env,
            ctx,
            cost,
            limit,
        ) == eval_spec(
            ExprV::If(
                IfV {
                    condition: Box::new(cond),
                    true_branch: Box::new(tb2),
                    false_branch: Box::new(fb),
                },
            ),
            env,
            ctx,
            cost,
            limit,
        ),
        eval_spec(
            ExprV::If(
                IfV {
                    condition: Box::new(cond),
                    true_branch: Box::new(tb1),
                    false_branch: Box::new(fb),
                },
            ),
            env,
            ctx,
            cost,
            limit,
        ) == eval_spec(
            fb,
            env,
            ctx,
            eval_spec(cond, env, ctx, (cost + COST_IF) as u64, limit).1,
            limit,
        ),
{
}

/// Laziness of `And`: a false left operand decides the result without the
/// right operand ever being evaluated — the right operand may be any
/// expression, however divergent — and the final cost charges only the
/// operator node and the nodes the left operand visited.
pub proof fn lemma_and_short_circuit(
    left: ExprV,
    r1: ExprV,
    r2: ExprV,
    env: EnvV,
    ctx: ContextV,
    cost: u64,
    limit: u64,
)
    requires
        cost_add(cost, limit, COST_BINOP) matches Option::Some(c1) && eval_spec(
            left,
            env,
            ctx,
            c1,
            limit,
        ).0 == Ok::<ValueV, EvalError>(ValueV::Boolean(false)),
    ensures
        eval_spec(
            ExprV::BinOp(
                BinOpV {
                    kind: BinOpKind::Relation(RelationOp::And),
                    left: Box::new(left),
                    right: Box::new(r1),
                },
            ),
            env,
            ctx,
            cost,
            limit,
        ) == (Ok::<ValueV, EvalError>(ValueV::Boolean(false)), eval_spec(
            left,
            env,
            ctx,
            (cost + COST_BINOP) as u64,
            limit,
        ).1),
        eval_spec(
            ExprV::BinOp(
                BinOpV {
                    kind: BinOpKind::Relation(RelationOp::And),
                    left: Box::new(left),
                    right: Box::new(r1),
                },
            ),
            env,
            ctx,
            cost,
            limit,
        ) == eval_spec(
            ExprV::BinOp(
                BinOpV {
                    kind: BinOpKind::Relation(RelationOp::And),
                    left: Box::new(left),
                    right: Box::new(r2),
                },
            ),
            env,
            ctx,
            cost,
            limit,
        ),
{
}

/// Laziness of `Or`: a true left operand decides the result without the
/// right operand ever being evaluated.
pub proof fn lemma_or_short_circuit(
    left: ExprV,
    r1: ExprV,
    r2: ExprV,
    env: EnvV,
    ctx: ContextV,
    cost: u64,
    limit: u64,
)
    requires
        cost_add(cost, limit, COST_BINOP) matches Option::Some(c1) && eval_spec(
            left,
            env,
            ctx,
            c1,
            limit,
        ).0 == Ok::<ValueV, EvalError>(ValueV::Boolean(true)),
    ensures
        eval_spec(
            ExprV::BinOp(
                BinOpV {
                    kind: BinOpKind::Relation(RelationOp::Or),
                    left: Box::new(left),
                    right: Box::new(r1),
                },
            ),
            env,
            ctx,
            cost,
            limit,
        ) == (Ok::<ValueV, EvalError>(ValueV::Boolean(true)), eval_spec(
            left,
            env,
            ctx,
            (cost + COST_BINOP) as u64,
            limit,
        ).1),
        eval_spec(
            ExprV::BinOp(
                BinOpV {
                    kind: BinOpKind::Relation(RelationOp::Or),
                    left: Box::new(left),
                    right: Box::new(r1),
                },
            ),
            env,
            ctx,
            cost,
            limit,
        ) == eval_spec(
            ExprV::BinOp(
                BinOpV {
                    kind: BinOpKind::Relation(RelationOp::Or),
                    left: Box::new(left),
                    right: Box::new(r2),
                },
            ),
            env,
            ctx,
            cost,
            limit,
        ),
{
}


/// Arithmetic correctness (addition, 8-bit operands).
pub proof fn lemma_eval_plus_matches_checked_byte(
    l: i8,
    r: i8,
    env: EnvV,
    ctx: ContextV,
    cost: u64,
    limit: u64,
)
    requires
        cost + COST_BINOP + 2 * COST_CONST <= limit,
    ensures
        eval_spec(
            ExprV::BinOp(
                BinOpV {
                    kind: BinOpKind::Arith(ArithOp::Plus),
                    left: Box::new(
                        ExprV::Const(ConstantV { tpe: STypeV::SByte, v: ValueV::Byte(l) }),
                    ),
                    right: Box::new(
                        ExprV::Const(ConstantV { tpe: STypeV::SByte, v: ValueV::Byte(r) }),
                    ),
                },
            ),
            env,
            ctx,
            cost,
            limit,
        ).0 == (match l.checked_add(r) {
            Option::Some(s) => Ok::<ValueV, EvalError>(ValueV::Byte(s)),
            Option::None => Err::<ValueV, EvalError>(EvalError::ArithmeticException),
        }),
{
    lemma_eval_strict_binop_on_consts(
        BinOpKind::Arith(ArithOp::Plus),
        ConstantV { tpe: STypeV::SByte, v: ValueV::Byte(l) },
        ConstantV { tpe: STypeV::SByte, v: ValueV::Byte(r) },
        env,
        ctx,
        cost,
        limit,
    );
}

/// Arithmetic correctness (addition, 16-bit operands).
pub proof fn lemma_eval_plus_matches_checked_short(
    l: i16,
    r: i16,
    env: EnvV,
    ctx: ContextV,
    cost: u64,
    limit: u64,
)
    requires
        cost + COST_BINOP + 2 * COST_CONST <= limit,
    ensures
        eval_spec(
            ExprV::BinOp(
                BinOpV {
                    kind: BinOpKind::Arith(ArithOp::Plus),
                    left: Box::new(
                        ExprV::Const(ConstantV { tpe: STypeV::SShort, v: ValueV::Short(l) }),
                    ),
                    right: Box::new(
                        ExprV::Const(ConstantV { tpe: STypeV::SShort, v: ValueV::Short(r) }),
                    ),
                },
            ),
            env,
            ctx,
            cost,
            limit,
        ).0 == (match l.checked_add(r) {
            Option::Some(s) => Ok::<ValueV, EvalError>(ValueV::Short(s)),
            Option::None => Err::<ValueV, EvalError>(EvalError::ArithmeticException),
        }),
{
    lemma_eval_strict_binop_on_consts(
        BinOpKind::Arith(ArithOp::Plus),
        ConstantV { tpe: STypeV::SShort, v: ValueV::Short(l) },
        ConstantV { tpe: STypeV::SShort, v: ValueV::Short(r) },
        env,
        ctx,
        cost,
        limit,
    );
}

/// Division correctness (64-bit operands): the evaluator agrees with the
/// host's checked division, so division by zero fails with an arithmetic
/// exception and never traps.
pub proof fn lemma_eval_div_matches_checked_long(
    l: i64,
    r: i64,
    env: EnvV,
    ctx: ContextV,
    cost: u64,
    limit: u64,
)
    requires
        cost + COST_BINOP + 2 * COST_CONST <= limit,
    ensures
        eval_spec(
            ExprV::BinOp(
                BinOpV {
                    kind: BinOpKind::Arith(ArithOp::Divide),
                    left: Box::new(
                        ExprV::Const(ConstantV { tpe: STypeV::SLong, v: ValueV::Long(l) }),
                    ),
                    right: Box::new(
                        ExprV::Const(ConstantV { tpe: STypeV::SLong, v: ValueV::Long(r) }),
                    ),
                },
            ),
            env,
            ctx,
            cost,
            limit,
        ).0 == (match l.checked_div(r) {
            Option::Some(s) => Ok::<ValueV, EvalError>(ValueV::Long(s)),
            Option::None => Err::<ValueV, EvalError>(EvalError::ArithmeticException),
        }),
{
    lemma_eval_strict_binop_on_consts(
        BinOpKind::Arith(ArithOp::Divide),
        ConstantV { tpe: STypeV::SLong, v: ValueV::Long(l) },
        ConstantV { tpe: STypeV::SLong, v: ValueV::Long(r) },
        env,
        ctx,
        cost,
        limit,
    );
}


/// Relational agreement on 32-bit operands.
pub proof fn lemma_eval_cmp_agrees_int(
    op: RelationOp,
    l: i32,
    r: i32,
    env: EnvV,
    ctx: ContextV,
    cost: u64,
    limit: u64,
)
    requires
        op == RelationOp::GE || op == RelationOp::GT || op == RelationOp::LE || op
            == RelationOp::LT,
        cost + COST_BINOP + 2 * COST_CONST <= limit,
    ensures
        eval_spec(
            ExprV::BinOp(
                BinOpV {
                    kind: BinOpKind::Relation(op),
                    left: Box::new(
                        ExprV::Const(ConstantV { tpe: STypeV::SInt, v: ValueV::Int(l) }),
                    ),
                    right: Box::new(
                        ExprV::Const(ConstantV { tpe: STypeV::SInt, v: ValueV::Int(r) }),
                    ),
                },
            ),
            env,
            ctx,
            cost,
            limit,
        ).0 == Ok::<ValueV, EvalError>(ValueV::Boolean(cmp_holds(op, l as int, r as int))),
{
    lemma_eval_strict_binop_on_consts(
        BinOpKind::Relation(op),
        ConstantV { tpe: STypeV::SInt, v: ValueV::Int(l) },
        ConstantV { tpe: STypeV::SInt, v: ValueV::Int(r) },
        env,
        ctx,
        cost,
        limit,
    );
}

} // verus!
