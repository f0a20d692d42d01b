//! High-level intermediate representation lowered from the front end's
//! surface syntax.
//!
//! Only the output shape of the front end matters here: a root holding
//! expression nodes whose operator tokens, operands and identifier names
//! may each be missing or unsupported. Lowering turns exactly the
//! well-formed shapes into HIR nodes and reports a diagnostic for every
//! other input: a missing operator or operand, an unknown operator token,
//! a nameless identifier, an unsupported node, or a root that does not
//! hold exactly one expression.

use vstd::prelude::*;

use crate::stype::SType;

pub use crate::expr::GlobalVars;

verus! {

/// A half-open source range.
#[derive(Debug, PartialEq, Eq, Clone, Copy)]
pub struct Span {
    /// Offset of the first character.
    pub start: u32,
    /// Offset one past the last character.
    pub end: u32,
}

/// The token kinds the lowerer inspects.
#[derive(Debug, PartialEq, Eq, Clone, Copy)]
pub enum SyntaxKind {
    /// `+`
    Plus,
    /// `-`
    Minus,
    /// `*`
    Star,
    /// `/`
    Slash,
    /// An identifier token (not an operator).
    Ident,
}

/// A token with its source range.
#[derive(Debug, PartialEq, Eq, Clone, Copy)]
pub struct AstToken {
    /// The token's kind.
    pub kind: SyntaxKind,
    /// The token's source range.
    pub span: Span,
}

/// A surface binary expression; any part may be missing in a malformed
/// parse.
#[derive(Debug, PartialEq, Eq)]
pub struct AstBinary {
    /// The operator token, if the parser found one.
    pub op: Option<AstToken>,
    /// The left operand, if present.
    pub lhs: Option<Box<AstExpr>>,
    /// The right operand, if present.
    pub rhs: Option<Box<AstExpr>>,
    /// The whole expression's source range.
    pub span: Span,
}

/// A surface identifier; its name may be missing in a malformed parse.
#[derive(Debug, PartialEq, Eq)]
pub struct AstIdent {
    /// The identifier's text, if present.
    pub name: Option<String>,
    /// The identifier's source range.
    pub span: Span,
}

/// A surface expression as the front end hands it over.
#[derive(Debug, PartialEq, Eq)]
pub enum AstExpr {
    /// A binary expression.
    BinaryExpr(AstBinary),
    /// An identifier.
    Ident(AstIdent),
    /// A surface form the lowerer does not support.
    Unsupported(Span),
}

/// The root of a parse: its top-level expressions.
#[derive(Debug, PartialEq, Eq)]
pub struct Root {
    /// The root's children.
    pub children: Vec<AstExpr>,
}

/// A lowered expression: its kind, its source range, and its type once
/// inference has filled it in.
#[derive(Debug, PartialEq)]
pub struct Expr {
    /// The node kind.
    pub kind: ExprKind,
    /// The source range.
    pub span: Span,
    /// The inferred type, absent right after lowering.
    pub tpe: Option<SType>,
}

/// A node together with its source range.
#[derive(Debug, PartialEq, Clone)]
pub struct Spanned<T: Clone> {
    /// The node.
    pub node: T,
    /// Its source range.
    pub span: Span,
}

/// A lowered binary expression.
#[derive(Debug, PartialEq)]
pub struct Binary {
    /// The operator with its source range.
    pub op: Spanned<BinaryOp>,
    /// The left operand.
    pub lhs: Box<Expr>,
    /// The right operand.
    pub rhs: Box<Expr>,
}

/// The kinds of lowered expressions.
#[derive(Debug, PartialEq)]
pub enum ExprKind {
    /// A named reference.
    Ident(String),
    /// A binary expression.
    Binary(Binary),
    /// A nullary context accessor.
    GlobalVars(GlobalVars),
}

/// The binary operators of the surface language.
#[derive(Debug, PartialEq, Eq, Clone, Copy)]
pub enum BinaryOp {
    /// Addition.
    Plus,
    /// Subtraction.
    Minus,
    /// Multiplication.
    Multiply,
    /// Division.
    Divide,
}

/// A lowering diagnostic.
#[derive(Debug, PartialEq, Eq)]
pub struct HirLoweringError(pub String);

/// The binary operator a token kind denotes, if any.
pub open spec fn syntax_op(k: SyntaxKind) -> Option<BinaryOp> {
    match k {
        SyntaxKind::Plus => Option::Some(BinaryOp::Plus),
        SyntaxKind::Minus => Option::Some(BinaryOp::Minus),
        SyntaxKind::Star => Option::Some(BinaryOp::Multiply),
        SyntaxKind::Slash => Option::Some(BinaryOp::Divide),
        _ => Option::None,
    }
}

/// Whether a surface expression lowers without a diagnostic: every binary
/// node has an operator token that denotes an operator and both operands,
/// every identifier has a name, and no unsupported node occurs.
pub open spec fn lowerable(e: AstExpr) -> bool
    decreases e,
{
    match e {
        AstExpr::BinaryExpr(b) => {
            &&& b.op matches Option::Some(t) && syntax_op(t.kind) is Some
            &&& b.lhs matches Option::Some(l) && lowerable(*l)
            &&& b.rhs matches Option::Some(r) && lowerable(*r)
        },
        AstExpr::Ident(i) => i.name is Some,
        AstExpr::Unsupported(_) => false,
    }
}

/// Whether `h` is exactly the lowering of the surface expression `e`:
/// kinds correspond, operator tokens map to their operators, spans are
/// carried over, and the type slot is still empty.
pub open spec fn lowered_matches(e: AstExpr, h: Expr) -> bool
    decreases e,
{
    match e {
        AstExpr::BinaryExpr(b) => {
            &&& h.span == b.span
            &&& h.tpe is None
            &&& h.kind matches ExprKind::Binary(hb) && (b.op matches Option::Some(t) && syntax_op(
                t.kind,
            ) == Option::Some(hb.op.node) && hb.op.span == t.span) && (b.lhs matches Option::Some(
                l,
            ) && lowered_matches(*l, *hb.lhs)) && (b.rhs matches Option::Some(r)
                && lowered_matches(*r, *hb.rhs))
        },
        AstExpr::Ident(i) => {
            &&& h.span == i.span
            &&& h.tpe is None
            &&& h.kind matches ExprKind::Ident(s) && (i.name matches Option::Some(n) && s@ == n@)
        },
        AstExpr::Unsupported(_) => false,
    }
}

/// Lowers a whole parse: a root must hold exactly one expression —
/// anything else is rejected rather than guessed at.
pub fn lower(ast: Root) -> (r: Result<Expr, HirLoweringError>)
    ensures
        ast.children@.len() == 1 && lowerable(ast.children@[0]) <==> r is Ok,
        r matches Ok(h) ==> lowered_matches(ast.children@[0], h),
{
    if ast.children.len() != 1 {
        return Err(HirLoweringError(String::from_str("expected exactly one root expression")));
    }
    Expr::lower(&ast.children[0])
}

impl Expr {
    /// Lowers one surface expression, reporting a diagnostic for every
    /// malformed or unsupported shape.
    pub fn lower(expr: &AstExpr) -> (r: Result<Expr, HirLoweringError>)
        ensures
            lowerable(*expr) <==> r is Ok,
            r matches Ok(h) ==> lowered_matches(*expr, h),
        decreases expr, 1int,
    {
        match expr {
            AstExpr::BinaryExpr(ast) => match Binary::lower(ast) {
                Err(e) => Err(e),
                Ok(binary) => Ok(Expr {
                    kind: ExprKind::Binary(binary),
                    span: ast.span,
                    tpe: Option::None,
                }),
            },
            AstExpr::Ident(ast) => match &ast.name {
                Option::Some(node) => Ok(Expr {
                    kind: ExprKind::Ident(clone_string(node)),
                    span: ast.span,
                    tpe: Option::None,
                }),
                Option::None => Err(HirLoweringError(String::from_str("identifier without a name"))),
            },
            AstExpr::Unsupported(_) => Err(
                HirLoweringError(String::from_str("unsupported expression kind")),
            ),
        }
    }
}

impl Binary {
    /// Lowers a surface binary expression: the operator token must denote
    /// an operator and both operands must be present and lowerable.
    fn lower(ast: &AstBinary) -> (r: Result<Binary, HirLoweringError>)
        ensures
            ((ast.op matches Option::Some(t) && syntax_op(t.kind) is Some) && (
            ast.lhs matches Option::Some(l) && lowerable(*l)) && (ast.rhs matches Option::Some(r2)
                && lowerable(*r2))) <==> r is Ok,
            r matches Ok(binary) ==> ((ast.op matches Option::Some(t) && syntax_op(t.kind)
                == Option::Some(binary.op.node) && binary.op.span == t.span) && (
            ast.lhs matches Option::Some(l) && lowered_matches(*l, *binary.lhs)) && (
            ast.rhs matches Option::Some(r2) && lowered_matches(*r2, *binary.rhs))),
        decreases ast, 0int,
    {
        let op_token = match &ast.op {
            Option::Some(t) => t,
            Option::None => {
                return Err(HirLoweringError(String::from_str("missing operator token")));
            },
        };
        let op = match op_token.kind {
            SyntaxKind::Plus => BinaryOp::Plus,
            SyntaxKind::Minus => BinaryOp::Minus,
            SyntaxKind::Star => BinaryOp::Multiply,
            SyntaxKind::Slash => BinaryOp::Divide,
            _ => {
                return Err(HirLoweringError(String::from_str("unknown operator token")));
            },
        };
        let lhs_ast = match &ast.lhs {
            Option::Some(l) => l,
            Option::None => {
                return Err(HirLoweringError(String::from_str("missing left operand")));
            },
        };
        let rhs_ast = match &ast.rhs {
            Option::Some(r) => r,
            Option::None => {
                return Err(HirLoweringError(String::from_str("missing right operand")));
            },
        };
        let lhs = match Expr::lower(lhs_ast) {
            Ok(l) => l,
            Err(e) => {
                return Err(e);
            },
        };
        let rhs = match Expr::lower(rhs_ast) {
            Ok(r) => r,
            Err(e) => {
                return Err(e);
            },
        };
        Ok(Binary {
            op: Spanned { node: op, span: op_token.span },
            lhs: Box::new(lhs),
            rhs: Box::new(rhs),
        })
    }
}

impl Expr {
    /// Relies on the derived `Debug` formatting of std: a multi-line
    /// rendering of this tree for diagnostics.
    #[verifier::external_body]
    pub fn debug_tree(&self) -> String {
        let tree = format!("{:#?}", self);
        tree
    }
}

/// Character-for-character copy of a string.
fn clone_string(s: &String) -> (r: String)
    ensures
        r@ == s@,
{
    s.clone()
}

} // verus!
