//! The canonical binary form of expressions.
//!
//! Each node is one op-code byte followed by node-specific payload.
//! Variable-length integers use VLQ with zig-zag for signed values; byte
//! arrays are length-prefixed; a constant is its type followed by a payload
//! read at that type; composite types prefix a tag and recurse.
//!
//! Serialization is deterministic and, on well-typed trees, a total
//! injection: parsing the serialized form gives the tree back
//! ([`lemma_expr_roundtrip`]). Parsing consumes a strictly positive number
//! of bytes per node, fails rather than loops on truncated input, and
//! bounds its recursion depth, failing with
//! [`ParseError::DepthExceeded`] before the host stack is exhausted.

use vstd::prelude::*;

use crate::expr::{
    arith_op_code, binop_op_code, relation_op_code, ArithOp, BinOp, BinOpKind, BinOpV, Expr,
    ExprV, GetVar, GetVarV, GlobalVars, If, IfV, RelationOp, binop_types_ok, expr_tpe,
    is_numeric_type, well_typed,
    OP_BIN_AND, OP_BIN_OR, OP_CONST, OP_DIVISION, OP_EQ, OP_GET_VAR, OP_GE, OP_GT, OP_HEIGHT,
    OP_IF, OP_LE, OP_LT, OP_MAX, OP_MIN, OP_MINUS, OP_MULTIPLY, OP_NEQ, OP_PLUS,
};
use crate::stype::{lemma_stype_views_index, stype_view, stype_views, SType, STypeV};
use crate::value::{conforms, conforms_elems, conforms_slots, lemma_value_views_index, value_view, value_views, Constant, ConstantV, Value, ValueV};
use crate::vlq::{lemma_vlq_roundtrip, parse_vlq, unzigzag, vlq_bytes, zigzag};

verus! {

/// A classified parse failure.
#[derive(Debug, PartialEq, Eq, Clone, Copy)]
pub enum ParseError {
    /// The input ended before the node's payload did.
    TruncatedInput,
    /// An op code that no node kind uses.
    UnknownOpCode,
    /// A type tag that no type uses.
    UnknownTypeCode,
    /// A malformed or overflowing variable-length integer.
    InvalidVlq,
    /// A type mismatch while reconstructing the tree.
    TypeMismatch,
    /// The nesting of the input exceeds the configured recursion limit.
    DepthExceeded,
}

impl ParseError {
    /// Human-readable classification of this error.
    pub fn description(&self) -> &'static str {
        match self {
            ParseError::TruncatedInput => "truncated input",
            ParseError::UnknownOpCode => "unknown op code",
            ParseError::UnknownTypeCode => "unknown type tag",
            ParseError::InvalidVlq => "invalid variable-length integer",
            ParseError::TypeMismatch => "type mismatch during tree reconstruction",
            ParseError::DepthExceeded => "recursion depth limit exceeded",
        }
    }
}

/// Type tag of `SAny`.
pub const TYPE_ANY: u8 = 0;

/// Type tag of `SBoolean`.
pub const TYPE_BOOLEAN: u8 = 1;

/// Type tag of `SByte`.
pub const TYPE_BYTE: u8 = 2;

/// Type tag of `SShort`.
pub const TYPE_SHORT: u8 = 3;

/// Type tag of `SInt`.
pub const TYPE_INT: u8 = 4;

/// Type tag of `SLong`.
pub const TYPE_LONG: u8 = 5;

/// Type tag of `SBigInt`.
pub const TYPE_BIGINT: u8 = 6;

/// Type tag of `SByteArray`.
pub const TYPE_BYTE_ARRAY: u8 = 7;

/// Type tag of `SGroupElement`.
pub const TYPE_GROUP_ELEMENT: u8 = 8;

/// Type tag of `SSigmaProp`.
pub const TYPE_SIGMA_PROP: u8 = 9;

/// Type tag of `SBox`.
pub const TYPE_BOX: u8 = 10;

/// Type tag of `SAvlTree`.
pub const TYPE_AVL_TREE: u8 = 11;

/// Type tag of `SOption`.
pub const TYPE_OPTION: u8 = 12;

/// Type tag of `SColl`.
pub const TYPE_COLL: u8 = 13;

/// Type tag of `STuple`.
pub const TYPE_TUPLE: u8 = 14;

/// Type tag of `SFunc`.
pub const TYPE_FUNC: u8 = 15;

/// The default recursion depth limit of the parser.
pub const MAX_PARSE_DEPTH: u64 = 64;

/// The canonical encoding of a type.
pub open spec fn ser_type(t: STypeV) -> Seq<u8>
    decreases t, 0int,
{
    match t {
        STypeV::SAny => seq![TYPE_ANY],
        STypeV::SBoolean => seq![TYPE_BOOLEAN],
        STypeV::SByte => seq![TYPE_BYTE],
        STypeV::SShort => seq![TYPE_SHORT],
        STypeV::SInt => seq![TYPE_INT],
        STypeV::SLong => seq![TYPE_LONG],
        STypeV::SBigInt => seq![TYPE_BIGINT],
        STypeV::SByteArray => seq![TYPE_BYTE_ARRAY],
        STypeV::SGroupElement => seq![TYPE_GROUP_ELEMENT],
        STypeV::SSigmaProp => seq![TYPE_SIGMA_PROP],
        STypeV::SBox => seq![TYPE_BOX],
        STypeV::SAvlTree => seq![TYPE_AVL_TREE],
        STypeV::SOption(e) => seq![TYPE_OPTION] + ser_type(*e),
        STypeV::SColl(e) => seq![TYPE_COLL] + ser_type(*e),
        STypeV::STuple(slots) => seq![TYPE_TUPLE] + vlq_bytes(slots.len() as u64) + ser_types(
            slots,
        ),
        STypeV::SFunc(args, res) => seq![TYPE_FUNC] + vlq_bytes(args.len() as u64) + ser_types(
            args,
        ) + ser_type(*res),
    }
}

/// The encodings of a list of types, concatenated.
pub open spec fn ser_types(ts: Seq<STypeV>) -> Seq<u8>
    decreases ts, 1int,
{
    if ts.len() == 0 {
        Seq::empty()
    } else {
        ser_type(ts[0]) + ser_types(ts.drop_first())
    }
}

/// Whether every arity inside `t` fits the wire's unsigned 64-bit length
/// fields (a machine limit; every type built from exec data satisfies it).
pub open spec fn type_bounded(t: STypeV) -> bool
    decreases t, 0int,
{
    match t {
        STypeV::SOption(e) => type_bounded(*e),
        STypeV::SColl(e) => type_bounded(*e),
        STypeV::STuple(slots) => slots.len() <= u64::MAX && types_bounded(slots),
        STypeV::SFunc(args, res) => args.len() <= u64::MAX && types_bounded(args) && type_bounded(
            *res,
        ),
        _ => true,
    }
}

/// [`type_bounded`] over a list.
pub open spec fn types_bounded(ts: Seq<STypeV>) -> bool
    decreases ts, 1int,
{
    if ts.len() == 0 {
        true
    } else {
        type_bounded(ts[0]) && types_bounded(ts.drop_first())
    }
}

/// The nesting depth of a type: what the parser's recursion limit must
/// cover to read it back.
pub open spec fn type_depth(t: STypeV) -> nat
    decreases t, 0int,
{
    match t {
        STypeV::SOption(e) => 1 + type_depth(*e),
        STypeV::SColl(e) => 1 + type_depth(*e),
        STypeV::STuple(slots) => 1 + types_depth(slots),
        STypeV::SFunc(args, res) => 1 + if types_depth(args) >= type_depth(*res) {
            types_depth(args)
        } else {
            type_depth(*res)
        },
        _ => 1,
    }
}

/// The maximal depth over a list of types.
pub open spec fn types_depth(ts: Seq<STypeV>) -> nat
    decreases ts, 1int,
{
    if ts.len() == 0 {
        0
    } else {
        if type_depth(ts[0]) >= types_depth(ts.drop_first()) {
            type_depth(ts[0])
        } else {
            types_depth(ts.drop_first())
        }
    }
}

/// Parsing a type from `b` at `pos` with a recursion budget.
pub open spec fn parse_type(b: Seq<u8>, pos: int, depth: nat) -> Result<(STypeV, int), ParseError>
    decreases depth, 0int,
{
    if depth == 0 {
        Err(ParseError::DepthExceeded)
    } else if pos < 0 || pos >= b.len() {
        Err(ParseError::TruncatedInput)
    } else {
        let tag = b[pos];
        if tag == TYPE_ANY {
            Ok((STypeV::SAny, pos + 1))
        } else if tag == TYPE_BOOLEAN {
            Ok((STypeV::SBoolean, pos + 1))
        } else if tag == TYPE_BYTE {
            Ok((STypeV::SByte, pos + 1))
        } else if tag == TYPE_SHORT {
            Ok((STypeV::SShort, pos + 1))
        } else if tag == TYPE_INT {
            Ok((STypeV::SInt, pos + 1))
        } else if tag == TYPE_LONG {
            Ok((STypeV::SLong, pos + 1))
        } else if tag == TYPE_BIGINT {
            Ok((STypeV::SBigInt, pos + 1))
        } else if tag == TYPE_BYTE_ARRAY {
            Ok((STypeV::SByteArray, pos + 1))
        } else if tag == TYPE_GROUP_ELEMENT {
            Ok((STypeV::SGroupElement, pos + 1))
        } else if tag == TYPE_SIGMA_PROP {
            Ok((STypeV::SSigmaProp, pos + 1))
        } else if tag == TYPE_BOX {
            Ok((STypeV::SBox, pos + 1))
        } else if tag == TYPE_AVL_TREE {
            Ok((STypeV::SAvlTree, pos + 1))
        } else if tag == TYPE_OPTION {
            match parse_type(b, pos + 1, (depth - 1) as nat) {
                Err(e) => Err(e),
                Ok((elem, p2)) => Ok((STypeV::SOption(Box::new(elem)), p2)),
            }
        } else if tag == TYPE_COLL {
            match parse_type(b, pos + 1, (depth - 1) as nat) {
                Err(e) => Err(e),
                Ok((elem, p2)) => Ok((STypeV::SColl(Box::new(elem)), p2)),
            }
        } else if tag == TYPE_TUPLE {
            match parse_vlq(b, pos + 1) {
                Option::None => Err(ParseError::InvalidVlq),
                Option::Some((n, p2)) => match parse_types(b, p2, n, (depth - 1) as nat) {
                    Err(e) => Err(e),
                    Ok((slots, p3)) => Ok((STypeV::STuple(slots), p3)),
                },
            }
        } else if tag == TYPE_FUNC {
            match parse_vlq(b, pos + 1) {
                Option::None => Err(ParseError::InvalidVlq),
                Option::Some((n, p2)) => match parse_types(b, p2, n, (depth - 1) as nat) {
                    Err(e) => Err(e),
                    Ok((args, p3)) => match parse_type(b, p3, (depth - 1) as nat) {
                        Err(e) => Err(e),
                        Ok((res, p4)) => Ok((STypeV::SFunc(args, Box::new(res)), p4)),
                    },
                },
            }
        } else {
            Err(ParseError::UnknownTypeCode)
        }
    }
}

/// Parsing `count` types in sequence, each within the given budget.
pub open spec fn parse_types(b: Seq<u8>, pos: int, count: u64, depth: nat) -> Result<
    (Seq<STypeV>, int),
    ParseError,
>
    decreases depth, count + 1,
{
    if count == 0 {
        Ok((Seq::empty(), pos))
    } else {
        match parse_type(b, pos, depth) {
            Err(e) => Err(e),
            Ok((head, p2)) => match parse_types(b, p2, (count - 1) as u64, depth) {
                Err(e) => Err(e),
                Ok((rest, p3)) => Ok((seq![head] + rest, p3)),
            },
        }
    }
}

/// A subrange of a matched window is the window's subrange: if the bytes of
/// `w` stand in `b` at `pos`, every slice of `w` stands in `b` at its
/// offset.
pub proof fn lemma_subrange_of_match(b: Seq<u8>, pos: int, w: Seq<u8>, lo: int, hi: int)
    requires
        0 <= pos,
        pos + w.len() <= b.len(),
        b.subrange(pos, pos + w.len() as int) == w,
        0 <= lo <= hi <= w.len(),
    ensures
        b.subrange(pos + lo, pos + hi) == w.subrange(lo, hi),
{
    assert(b.subrange(pos + lo, pos + hi) =~= w.subrange(lo, hi)) by {
        assert(forall|i: int|
            0 <= i < hi - lo ==> #[trigger] b.subrange(pos + lo, pos + hi)[i] == b.subrange(
                pos,
                pos + w.len() as int,
            )[lo + i]);
    }
}

/// Parsing a serialized type gives the type back and stops right after it.
pub proof fn lemma_type_roundtrip(b: Seq<u8>, pos: int, t: STypeV, depth: nat)
    requires
        0 <= pos,
        pos + ser_type(t).len() <= b.len(),
        b.subrange(pos, pos + ser_type(t).len() as int) == ser_type(t),
        type_bounded(t),
        depth >= type_depth(t),
    ensures
        parse_type(b, pos, depth) == Ok::<(STypeV, int), ParseError>(
            (t, pos + ser_type(t).len() as int),
        ),
    decreases t, 0int,
{
    let w = ser_type(t);
    assert(b[pos] == w[0]);
    match t {
        STypeV::SOption(e) => {
            lemma_subrange_of_match(b, pos, w, 1, w.len() as int);
            assert(w.subrange(1, w.len() as int) =~= ser_type(*e));
            lemma_type_roundtrip(b, pos + 1, *e, (depth - 1) as nat);
        },
        STypeV::SColl(e) => {
            lemma_subrange_of_match(b, pos, w, 1, w.len() as int);
            assert(w.subrange(1, w.len() as int) =~= ser_type(*e));
            lemma_type_roundtrip(b, pos + 1, *e, (depth - 1) as nat);
        },
        STypeV::STuple(slots) => {
            let lenb = vlq_bytes(slots.len() as u64);
            lemma_subrange_of_match(b, pos, w, 1, 1 + lenb.len() as int);
            assert(w.subrange(1, 1 + lenb.len() as int) =~= lenb);
            lemma_vlq_roundtrip(b, pos + 1, slots.len() as u64);
            lemma_subrange_of_match(b, pos, w, 1 + lenb.len() as int, w.len() as int);
            assert(w.subrange(1 + lenb.len() as int, w.len() as int) =~= ser_types(slots));
            lemma_types_roundtrip(b, pos + 1 + lenb.len() as int, slots, (depth - 1) as nat);
        },
        STypeV::SFunc(args, res) => {
            let lenb = vlq_bytes(args.len() as u64);
            let argsb = ser_types(args);
            lemma_subrange_of_match(b, pos, w, 1, 1 + lenb.len() as int);
            assert(w.subrange(1, 1 + lenb.len() as int) =~= lenb);
            lemma_vlq_roundtrip(b, pos + 1, args.len() as u64);
            lemma_subrange_of_match(
                b,
                pos,
                w,
                1 + lenb.len() as int,
                1 + lenb.len() + argsb.len() as int,
            );
            assert(w.subrange(1 + lenb.len() as int, 1 + lenb.len() + argsb.len() as int)
                =~= argsb);
            lemma_types_roundtrip(b, pos + 1 + lenb.len() as int, args, (depth - 1) as nat);
            lemma_subrange_of_match(
                b,
                pos,
                w,
                1 + lenb.len() + argsb.len() as int,
                w.len() as int,
            );
            assert(w.subrange(1 + lenb.len() + argsb.len() as int, w.len() as int) =~= ser_type(
                *res,
            ));
            lemma_type_roundtrip(
                b,
                pos + 1 + lenb.len() + argsb.len() as int,
                *res,
                (depth - 1) as nat,
            );
        },
        _ => {},
    }
}

/// Parsing a serialized list of types gives the list back.
pub proof fn lemma_types_roundtrip(b: Seq<u8>, pos: int, ts: Seq<STypeV>, depth: nat)
    requires
        0 <= pos,
        ts.len() <= u64::MAX,
        pos + ser_types(ts).len() <= b.len(),
        b.subrange(pos, pos + ser_types(ts).len() as int) == ser_types(ts),
        types_bounded(ts),
        depth >= types_depth(ts),
    ensures
        parse_types(b, pos, ts.len() as u64, depth) == Ok::<(Seq<STypeV>, int), ParseError>(
            (ts, pos + ser_types(ts).len() as int),
        ),
    decreases ts, 1int,
{
    if ts.len() == 0 {
        assert(Seq::<STypeV>::empty() =~= ts);
    } else {
        let w = ser_types(ts);
        let headb = ser_type(ts[0]);
        lemma_subrange_of_match(b, pos, w, 0, headb.len() as int);
        assert(w.subrange(0, headb.len() as int) =~= headb);
        lemma_type_roundtrip(b, pos, ts[0], depth);
        lemma_subrange_of_match(b, pos, w, headb.len() as int, w.len() as int);
        assert(w.subrange(headb.len() as int, w.len() as int) =~= ser_types(ts.drop_first()));
        lemma_types_roundtrip(b, pos + headb.len() as int, ts.drop_first(), depth);
        assert(seq![ts[0]] + ts.drop_first() =~= ts);
    }
}


/// The canonical encoding of a value read at type `t`. Only conforming
/// values are ever serialized; the function is total regardless.
pub open spec fn ser_value(v: ValueV, t: STypeV) -> Seq<u8>
    decreases t, 0int,
{
    match t {
        STypeV::SBoolean => match v {
            ValueV::Boolean(x) => seq![if x { 1u8 } else { 0u8 }],
            _ => Seq::empty(),
        },
        STypeV::SByte => match v {
            ValueV::Byte(x) => seq![x as u8],
            _ => Seq::empty(),
        },
        STypeV::SShort => match v {
            ValueV::Short(x) => vlq_bytes(zigzag(x as i64)),
            _ => Seq::empty(),
        },
        STypeV::SInt => match v {
            ValueV::Int(x) => vlq_bytes(zigzag(x as i64)),
            _ => Seq::empty(),
        },
        STypeV::SLong => match v {
            ValueV::Long(x) => vlq_bytes(zigzag(x)),
            _ => Seq::empty(),
        },
        STypeV::SByteArray => match v {
            ValueV::ByteArray(bs) => vlq_bytes(bs.len() as u64) + bs,
            _ => Seq::empty(),
        },
        STypeV::SOption(elem) => match v {
            ValueV::Opt(o) => match o {
                Option::None => seq![0u8],
                Option::Some(inner) => seq![1u8] + ser_value(*inner, *elem),
            },
            _ => Seq::empty(),
        },
        STypeV::SColl(elem) => match v {
            ValueV::Coll { elem_tpe, items } => vlq_bytes(items.len() as u64) + ser_value_elems(
                items,
                *elem,
            ),
            _ => Seq::empty(),
        },
        STypeV::STuple(slots) => match v {
            ValueV::Tuple(items) => ser_value_slots(items, slots),
            _ => Seq::empty(),
        },
        _ => Seq::empty(),
    }
}

/// The encodings of a collection's items, concatenated.
pub open spec fn ser_value_elems(items: Seq<ValueV>, elem: STypeV) -> Seq<u8>
    decreases elem, items.len() + 1,
{
    if items.len() == 0 {
        Seq::empty()
    } else {
        ser_value(items[0], elem) + ser_value_elems(items.drop_first(), elem)
    }
}

/// The encodings of a tuple's items at their slot types, concatenated.
pub open spec fn ser_value_slots(items: Seq<ValueV>, slots: Seq<STypeV>) -> Seq<u8>
    decreases slots, 0int,
{
    if items.len() == 0 || slots.len() == 0 {
        Seq::empty()
    } else {
        ser_value(items[0], slots[0]) + ser_value_slots(items.drop_first(), slots.drop_first())
    }
}

/// Whether every length inside `v` fits the wire's unsigned 64-bit length
/// fields (a machine limit; every value built from exec data satisfies it).
pub open spec fn value_bounded(v: ValueV) -> bool
    decreases v, 0int,
{
    match v {
        ValueV::ByteArray(bs) => bs.len() <= u64::MAX,
        ValueV::Opt(o) => match o {
            Option::None => true,
            Option::Some(inner) => value_bounded(*inner),
        },
        ValueV::Coll { elem_tpe, items } => items.len() <= u64::MAX && values_bounded(items),
        ValueV::Tuple(items) => items.len() <= u64::MAX && values_bounded(items),
        _ => true,
    }
}

/// [`value_bounded`] over a list.
pub open spec fn values_bounded(items: Seq<ValueV>) -> bool
    decreases items, 1int,
{
    if items.len() == 0 {
        true
    } else {
        value_bounded(items[0]) && values_bounded(items.drop_first())
    }
}

/// Parsing a value payload from `b` at `pos`, read at type `t`.
pub open spec fn parse_value(b: Seq<u8>, pos: int, t: STypeV) -> Result<(ValueV, int), ParseError>
    decreases t, 0int,
{
    match t {
        STypeV::SBoolean => if pos < 0 || pos >= b.len() {
            Err(ParseError::TruncatedInput)
        } else if b[pos] == 0 {
            Ok((ValueV::Boolean(false), pos + 1))
        } else if b[pos] == 1 {
            Ok((ValueV::Boolean(true), pos + 1))
        } else {
            Err(ParseError::TypeMismatch)
        },
        STypeV::SByte => if pos < 0 || pos >= b.len() {
            Err(ParseError::TruncatedInput)
        } else {
            Ok((ValueV::Byte(b[pos] as i8), pos + 1))
        },
        STypeV::SShort => match parse_vlq(b, pos) {
            Option::None => Err(ParseError::InvalidVlq),
            Option::Some((u, p2)) => if i16::MIN <= unzigzag(u) <= i16::MAX {
                Ok((ValueV::Short(unzigzag(u) as i16), p2))
            } else {
                Err(ParseError::TypeMismatch)
            },
        },
        STypeV::SInt => match parse_vlq(b, pos) {
            Option::None => Err(ParseError::InvalidVlq),
            Option::Some((u, p2)) => if i32::MIN <= unzigzag(u) <= i32::MAX {
                Ok((ValueV::Int(unzigzag(u) as i32), p2))
            } else {
                Err(ParseError::TypeMismatch)
            },
        },
        STypeV::SLong => match parse_vlq(b, pos) {
            Option::None => Err(ParseError::InvalidVlq),
            Option::Some((u, p2)) => Ok((ValueV::Long(unzigzag(u)), p2)),
        },
        STypeV::SByteArray => match parse_vlq(b, pos) {
            Option::None => Err(ParseError::InvalidVlq),
            Option::Some((n, p2)) => if p2 + n <= b.len() {
                Ok((ValueV::ByteArray(b.subrange(p2, p2 + n)), p2 + n))
            } else {
                Err(ParseError::TruncatedInput)
            },
        },
        STypeV::SOption(elem) => if pos < 0 || pos >= b.len() {
            Err(ParseError::TruncatedInput)
        } else if b[pos] == 0 {
            Ok((ValueV::Opt(Option::None), pos + 1))
        } else if b[pos] == 1 {
            match parse_value(b, pos + 1, *elem) {
                Err(e) => Err(e),
                Ok((inner, p2)) => Ok((ValueV::Opt(Option::Some(Box::new(inner))), p2)),
            }
        } else {
            Err(ParseError::TypeMismatch)
        },
        STypeV::SColl(elem) => match parse_vlq(b, pos) {
            Option::None => Err(ParseError::InvalidVlq),
            Option::Some((n, p2)) => match parse_value_elems(b, p2, n, *elem) {
                Err(e) => Err(e),
                Ok((items, p3)) => Ok((ValueV::Coll { elem_tpe: *elem, items }, p3)),
            },
        },
        STypeV::STuple(slots) => match parse_value_slots(b, pos, slots) {
            Err(e) => Err(e),
            Ok((items, p2)) => Ok((ValueV::Tuple(items), p2)),
        },
        _ => Err(ParseError::TypeMismatch),
    }
}

/// Parsing `count` collection items in sequence.
pub open spec fn parse_value_elems(b: Seq<u8>, pos: int, count: u64, elem: STypeV) -> Result<
    (Seq<ValueV>, int),
    ParseError,
>
    decreases elem, count + 1,
{
    if count == 0 {
        Ok((Seq::empty(), pos))
    } else {
        match parse_value(b, pos, elem) {
            Err(e) => Err(e),
            Ok((head, p2)) => match parse_value_elems(b, p2, (count - 1) as u64, elem) {
                Err(e) => Err(e),
                Ok((rest, p3)) => Ok((seq![head] + rest, p3)),
            },
        }
    }
}

/// Parsing a tuple's items, one per slot type.
pub open spec fn parse_value_slots(b: Seq<u8>, pos: int, slots: Seq<STypeV>) -> Result<
    (Seq<ValueV>, int),
    ParseError,
>
    decreases slots, 0int,
{
    if slots.len() == 0 {
        Ok((Seq::empty(), pos))
    } else {
        match parse_value(b, pos, slots[0]) {
            Err(e) => Err(e),
            Ok((head, p2)) => match parse_value_slots(b, p2, slots.drop_first()) {
                Err(e) => Err(e),
                Ok((rest, p3)) => Ok((seq![head] + rest, p3)),
            },
        }
    }
}

/// Parsing a serialized value payload at its type gives the value back.
pub proof fn lemma_value_roundtrip(b: Seq<u8>, pos: int, v: ValueV, t: STypeV)
    requires
        0 <= pos,
        pos + ser_value(v, t).len() <= b.len(),
        b.subrange(pos, pos + ser_value(v, t).len() as int) == ser_value(v, t),
        conforms(v, t),
        value_bounded(v),
    ensures
        parse_value(b, pos, t) == Ok::<(ValueV, int), ParseError>(
            (v, pos + ser_value(v, t).len() as int),
        ),
    decreases t, 0int,
{
    let w = ser_value(v, t);
    match t {
        STypeV::SBoolean => {
            assert(b[pos] == w[0]);
        },
        STypeV::SByte => {
            assert(b[pos] == w[0]);
            if let ValueV::Byte(x) = v {
                assert((x as u8) as i8 == x) by (bit_vector);
            }
        },
        STypeV::SShort => {
            if let ValueV::Short(x) = v {
                lemma_vlq_roundtrip(b, pos, zigzag(x as i64));
                crate::vlq::lemma_zigzag_roundtrip(x as i64);
                }
        },
        STypeV::SInt => {
            if let ValueV::Int(x) = v {
                lemma_vlq_roundtrip(b, pos, zigzag(x as i64));
                crate::vlq::lemma_zigzag_roundtrip(x as i64);
                }
        },
        STypeV::SLong => {
            if let ValueV::Long(x) = v {
                lemma_vlq_roundtrip(b, pos, zigzag(x));
                crate::vlq::lemma_zigzag_roundtrip(x);
                }
        },
        STypeV::SByteArray => {
            if let ValueV::ByteArray(bs) = v {
                let lenb = vlq_bytes(bs.len() as u64);
                lemma_subrange_of_match(b, pos, w, 0, lenb.len() as int);
                assert(w.subrange(0, lenb.len() as int) =~= lenb);
                lemma_vlq_roundtrip(b, pos, bs.len() as u64);
                lemma_subrange_of_match(b, pos, w, lenb.len() as int, w.len() as int);
                assert(w.subrange(lenb.len() as int, w.len() as int) =~= bs);
                }
        },
        STypeV::SOption(elem) => {
            if let ValueV::Opt(o) = v {
                assert(b[pos] == w[0]);
                match o {
                    Option::None => {},
                    Option::Some(inner) => {
                        lemma_subrange_of_match(b, pos, w, 1, w.len() as int);
                        assert(w.subrange(1, w.len() as int) =~= ser_value(*inner, *elem));
                        lemma_value_roundtrip(b, pos + 1, *inner, *elem);
                    },
                }
                }
        },
        STypeV::SColl(elem) => {
            if let ValueV::Coll { elem_tpe, items } = v {
                let lenb = vlq_bytes(items.len() as u64);
                lemma_subrange_of_match(b, pos, w, 0, lenb.len() as int);
                assert(w.subrange(0, lenb.len() as int) =~= lenb);
                lemma_vlq_roundtrip(b, pos, items.len() as u64);
                lemma_subrange_of_match(b, pos, w, lenb.len() as int, w.len() as int);
                assert(w.subrange(lenb.len() as int, w.len() as int) =~= ser_value_elems(
                    items,
                    *elem,
                ));
                lemma_value_elems_roundtrip(b, pos + lenb.len() as int, items, *elem);
                }
        },
        STypeV::STuple(slots) => {
            if let ValueV::Tuple(items) = v {
                lemma_value_slots_roundtrip(b, pos, items, slots);
                }
        },
        _ => {},
    }
}

/// Parsing serialized collection items gives the items back.
pub proof fn lemma_value_elems_roundtrip(b: Seq<u8>, pos: int, items: Seq<ValueV>, elem: STypeV)
    requires
        0 <= pos,
        items.len() <= u64::MAX,
        pos + ser_value_elems(items, elem).len() <= b.len(),
        b.subrange(pos, pos + ser_value_elems(items, elem).len() as int) == ser_value_elems(
            items,
            elem,
        ),
        conforms_elems(items, elem),
        values_bounded(items),
    ensures
        parse_value_elems(b, pos, items.len() as u64, elem) == Ok::<(Seq<ValueV>, int), ParseError>(
            (items, pos + ser_value_elems(items, elem).len() as int),
        ),
    decreases elem, items.len() + 1,
{
    if items.len() == 0 {
        assert(Seq::<ValueV>::empty() =~= items);
    } else {
        let w = ser_value_elems(items, elem);
        let headb = ser_value(items[0], elem);
        lemma_subrange_of_match(b, pos, w, 0, headb.len() as int);
        assert(w.subrange(0, headb.len() as int) =~= headb);
        lemma_value_roundtrip(b, pos, items[0], elem);
        lemma_subrange_of_match(b, pos, w, headb.len() as int, w.len() as int);
        assert(w.subrange(headb.len() as int, w.len() as int) =~= ser_value_elems(
            items.drop_first(),
            elem,
        ));
        lemma_value_elems_roundtrip(b, pos + headb.len() as int, items.drop_first(), elem);
        assert(seq![items[0]] + items.drop_first() =~= items);
    }
}

/// Parsing a serialized tuple payload gives the items back.
pub proof fn lemma_value_slots_roundtrip(b: Seq<u8>, pos: int, items: Seq<ValueV>, slots: Seq<STypeV>)
    requires
        0 <= pos,
        pos + ser_value_slots(items, slots).len() <= b.len(),
        b.subrange(pos, pos + ser_value_slots(items, slots).len() as int) == ser_value_slots(
            items,
            slots,
        ),
        conforms_slots(items, slots),
        values_bounded(items),
    ensures
        parse_value_slots(b, pos, slots) == Ok::<(Seq<ValueV>, int), ParseError>(
            (items, pos + ser_value_slots(items, slots).len() as int),
        ),
    decreases slots, 0int,
{
    if slots.len() == 0 {
        assert(Seq::<ValueV>::empty() =~= items);
    } else {
        let w = ser_value_slots(items, slots);
        let headb = ser_value(items[0], slots[0]);
        lemma_subrange_of_match(b, pos, w, 0, headb.len() as int);
        assert(w.subrange(0, headb.len() as int) =~= headb);
        lemma_value_roundtrip(b, pos, items[0], slots[0]);
        lemma_subrange_of_match(b, pos, w, headb.len() as int, w.len() as int);
        assert(w.subrange(headb.len() as int, w.len() as int) =~= ser_value_slots(
            items.drop_first(),
            slots.drop_first(),
        ));
        lemma_value_slots_roundtrip(b, pos + headb.len() as int, items.drop_first(), slots.drop_first());
        assert(seq![items[0]] + items.drop_first() =~= items);
    }
}


/// The canonical encoding of an expression: one op code, then the node's
/// payload, then its children.
pub open spec fn ser_expr(e: ExprV) -> Seq<u8>
    decreases e,
{
    match e {
        ExprV::Const(c) => seq![OP_CONST] + ser_type(c.tpe) + ser_value(c.v, c.tpe),
        ExprV::GlobalVars(g) => match g {
            GlobalVars::Height => seq![OP_HEIGHT],
        },
        ExprV::GetVar(g) => seq![OP_GET_VAR, g.var_id] + ser_type(g.var_tpe),
        ExprV::If(i) => seq![OP_IF] + ser_expr(*i.condition) + ser_expr(*i.true_branch) + ser_expr(
            *i.false_branch,
        ),
        ExprV::BinOp(b) => seq![binop_op_code(b.kind)] + ser_expr(*b.left) + ser_expr(*b.right),
    }
}

/// Whether every arity and length inside `e` fits the wire's length fields
/// (a machine limit; every tree built from exec data satisfies it).
pub open spec fn expr_bounded(e: ExprV) -> bool
    decreases e,
{
    match e {
        ExprV::Const(c) => type_bounded(c.tpe) && value_bounded(c.v),
        ExprV::GlobalVars(_) => true,
        ExprV::GetVar(g) => type_bounded(g.var_tpe),
        ExprV::If(i) => expr_bounded(*i.condition) && expr_bounded(*i.true_branch) && expr_bounded(
            *i.false_branch,
        ),
        ExprV::BinOp(b) => expr_bounded(*b.left) && expr_bounded(*b.right),
    }
}

/// The nesting depth of an expression: what the parser's recursion limit
/// must cover to read it back. Constants carry their type's depth, since
/// types parse under the same budget.
pub open spec fn expr_depth(e: ExprV) -> nat
    decreases e,
{
    match e {
        ExprV::Const(c) => 1 + type_depth(c.tpe),
        ExprV::GlobalVars(_) => 1,
        ExprV::GetVar(g) => 1 + type_depth(g.var_tpe),
        ExprV::If(i) => {
            let dc = expr_depth(*i.condition);
            let dt = expr_depth(*i.true_branch);
            let df = expr_depth(*i.false_branch);
            1 + if dc >= dt && dc >= df {
                dc
            } else if dt >= df {
                dt
            } else {
                df
            }
        },
        ExprV::BinOp(b) => {
            let dl = expr_depth(*b.left);
            let dr = expr_depth(*b.right);
            1 + if dl >= dr {
                dl
            } else {
                dr
            }
        },
    }
}

/// The binary operator kind that an op code denotes, if any.
pub open spec fn binop_kind_of(code: u8) -> Option<BinOpKind> {
    if code == OP_PLUS {
        Option::Some(BinOpKind::Arith(ArithOp::Plus))
    } else if code == OP_MINUS {
        Option::Some(BinOpKind::Arith(ArithOp::Minus))
    } else if code == OP_MULTIPLY {
        Option::Some(BinOpKind::Arith(ArithOp::Multiply))
    } else if code == OP_DIVISION {
        Option::Some(BinOpKind::Arith(ArithOp::Divide))
    } else if code == OP_MAX {
        Option::Some(BinOpKind::Arith(ArithOp::Max))
    } else if code == OP_MIN {
        Option::Some(BinOpKind::Arith(ArithOp::Min))
    } else if code == OP_EQ {
        Option::Some(BinOpKind::Relation(RelationOp::Eq))
    } else if code == OP_NEQ {
        Option::Some(BinOpKind::Relation(RelationOp::NEq))
    } else if code == OP_GE {
        Option::Some(BinOpKind::Relation(RelationOp::GE))
    } else if code == OP_GT {
        Option::Some(BinOpKind::Relation(RelationOp::GT))
    } else if code == OP_LE {
        Option::Some(BinOpKind::Relation(RelationOp::LE))
    } else if code == OP_LT {
        Option::Some(BinOpKind::Relation(RelationOp::LT))
    } else if code == OP_BIN_AND {
        Option::Some(BinOpKind::Relation(RelationOp::And))
    } else if code == OP_BIN_OR {
        Option::Some(BinOpKind::Relation(RelationOp::Or))
    } else {
        Option::None
    }
}

/// Parsing an expression from `b` at `pos` with a recursion budget. Every
/// interior node's operand types are checked during reconstruction:
/// type-checking is a precondition of success.
pub open spec fn parse_expr(b: Seq<u8>, pos: int, depth: nat) -> Result<(ExprV, int), ParseError>
    decreases depth,
{
    if depth == 0 {
        Err(ParseError::DepthExceeded)
    } else if pos < 0 || pos >= b.len() {
        Err(ParseError::TruncatedInput)
    } else {
        let op = b[pos];
        if op == OP_CONST {
            match parse_type(b, pos + 1, (depth - 1) as nat) {
                Err(e) => Err(e),
                Ok((t, p2)) => match parse_value(b, p2, t) {
                    Err(e) => Err(e),
                    Ok((v, p3)) => Ok((ExprV::Const(ConstantV { tpe: t, v }), p3)),
                },
            }
        } else if op == OP_HEIGHT {
            Ok((ExprV::GlobalVars(GlobalVars::Height), pos + 1))
        } else if op == OP_GET_VAR {
            if pos + 1 >= b.len() {
                Err(ParseError::TruncatedInput)
            } else {
                match parse_type(b, pos + 2, (depth - 1) as nat) {
                    Err(e) => Err(e),
                    Ok((t, p2)) => Ok(
                        (ExprV::GetVar(GetVarV { var_id: b[pos + 1], var_tpe: t }), p2),
                    ),
                }
            }
        } else if op == OP_IF {
            match parse_expr(b, pos + 1, (depth - 1) as nat) {
                Err(e) => Err(e),
                Ok((cond, p2)) => match parse_expr(b, p2, (depth - 1) as nat) {
                    Err(e) => Err(e),
                    Ok((tb, p3)) => match parse_expr(b, p3, (depth - 1) as nat) {
                        Err(e) => Err(e),
                        Ok((fb, p4)) => if expr_tpe(cond) is SBoolean && expr_tpe(tb) == expr_tpe(
                            fb,
                        ) {
                            Ok(
                                (
                                    ExprV::If(
                                        IfV {
                                            condition: Box::new(cond),
                                            true_branch: Box::new(tb),
                                            false_branch: Box::new(fb),
                                        },
                                    ),
                                    p4,
                                ),
                            )
                        } else {
                            Err(ParseError::TypeMismatch)
                        },
                    },
                },
            }
        } else {
            match binop_kind_of(op) {
                Option::None => Err(ParseError::UnknownOpCode),
                Option::Some(kind) => match parse_expr(b, pos + 1, (depth - 1) as nat) {
                    Err(e) => Err(e),
                    Ok((l, p2)) => match parse_expr(b, p2, (depth - 1) as nat) {
                        Err(e) => Err(e),
                        Ok((r, p3)) => if binop_types_ok(kind, expr_tpe(l), expr_tpe(r)) {
                            Ok(
                                (
                                    ExprV::BinOp(
                                        BinOpV {
                                            kind,
                                            left: Box::new(l),
                                            right: Box::new(r),
                                        },
                                    ),
                                    p3,
                                ),
                            )
                        } else {
                            Err(ParseError::TypeMismatch)
                        },
                    },
                },
            }
        }
    }
}

/// Op codes of binary operators invert back to the operator.
pub proof fn lemma_binop_code_inverts(kind: BinOpKind)
    ensures
        binop_kind_of(binop_op_code(kind)) == Option::Some(kind),
        binop_op_code(kind) != OP_CONST,
        binop_op_code(kind) != OP_HEIGHT,
        binop_op_code(kind) != OP_GET_VAR,
        binop_op_code(kind) != OP_IF,
{
    match kind {
        BinOpKind::Arith(op) => match op {
            ArithOp::Plus => {},
            ArithOp::Minus => {},
            ArithOp::Multiply => {},
            ArithOp::Divide => {},
            ArithOp::Max => {},
            ArithOp::Min => {},
        },
        BinOpKind::Relation(op) => match op {
            RelationOp::Eq => {},
            RelationOp::NEq => {},
            RelationOp::GE => {},
            RelationOp::GT => {},
            RelationOp::LE => {},
            RelationOp::LT => {},
            RelationOp::And => {},
            RelationOp::Or => {},
        },
    }
}

/// Serialization round-trip: wherever the bytes of a well-typed tree stand
/// in `b`, parsing at their start, with any depth budget that covers the
/// tree, reconstructs exactly that tree.
#[verifier::rlimit(100)]
pub proof fn lemma_expr_roundtrip(b: Seq<u8>, pos: int, e: ExprV, depth: nat)
    requires
        0 <= pos,
        pos + ser_expr(e).len() <= b.len(),
        b.subrange(pos, pos + ser_expr(e).len() as int) == ser_expr(e),
        well_typed(e),
        expr_bounded(e),
        depth >= expr_depth(e),
    ensures
        parse_expr(b, pos, depth) == Ok::<(ExprV, int), ParseError>(
            (e, pos + ser_expr(e).len() as int),
        ),
    decreases e,
{
    let w = ser_expr(e);
    assert(b[pos] == w[0]);
    match e {
        ExprV::Const(c) => {
            let tb = ser_type(c.tpe);
            lemma_subrange_of_match(b, pos, w, 1, 1 + tb.len() as int);
            assert(w.subrange(1, 1 + tb.len() as int) =~= tb);
            lemma_type_roundtrip(b, pos + 1, c.tpe, (depth - 1) as nat);
            lemma_subrange_of_match(b, pos, w, 1 + tb.len() as int, w.len() as int);
            assert(w.subrange(1 + tb.len() as int, w.len() as int) =~= ser_value(c.v, c.tpe));
            lemma_value_roundtrip(b, pos + 1 + tb.len() as int, c.v, c.tpe);
        },
        ExprV::GlobalVars(_) => {},
        ExprV::GetVar(g) => {
            assert(b[pos + 1] == w[1]);
            lemma_subrange_of_match(b, pos, w, 2, w.len() as int);
            assert(w.subrange(2, w.len() as int) =~= ser_type(g.var_tpe));
            lemma_type_roundtrip(b, pos + 2, g.var_tpe, (depth - 1) as nat);
        },
        ExprV::If(i) => {
            let cb = ser_expr(*i.condition);
            let tb = ser_expr(*i.true_branch);
            let fb = ser_expr(*i.false_branch);
            lemma_subrange_of_match(b, pos, w, 1, 1 + cb.len() as int);
            assert(w.subrange(1, 1 + cb.len() as int) =~= cb);
            lemma_expr_roundtrip(b, pos + 1, *i.condition, (depth - 1) as nat);
            lemma_subrange_of_match(b, pos, w, 1 + cb.len() as int, 1 + cb.len() + tb.len() as int);
            assert(w.subrange(1 + cb.len() as int, 1 + cb.len() + tb.len() as int) =~= tb);
            lemma_expr_roundtrip(b, pos + 1 + cb.len() as int, *i.true_branch, (depth - 1) as nat);
            lemma_subrange_of_match(b, pos, w, 1 + cb.len() + tb.len() as int, w.len() as int);
            assert(w.subrange(1 + cb.len() + tb.len() as int, w.len() as int) =~= fb);
            lemma_expr_roundtrip(
                b,
                pos + 1 + cb.len() + tb.len() as int,
                *i.false_branch,
                (depth - 1) as nat,
            );
        },
        ExprV::BinOp(bb) => {
            lemma_binop_code_inverts(bb.kind);
            let lb = ser_expr(*bb.left);
            let rb = ser_expr(*bb.right);
            lemma_subrange_of_match(b, pos, w, 1, 1 + lb.len() as int);
            assert(w.subrange(1, 1 + lb.len() as int) =~= lb);
            lemma_expr_roundtrip(b, pos + 1, *bb.left, (depth - 1) as nat);
            lemma_subrange_of_match(b, pos, w, 1 + lb.len() as int, w.len() as int);
            assert(w.subrange(1 + lb.len() as int, w.len() as int) =~= rb);
            lemma_expr_roundtrip(b, pos + 1 + lb.len() as int, *bb.right, (depth - 1) as nat);
        },
    }
}

/// Serialization round-trip at the crate's entry points: for every
/// well-typed tree within the machine's length limits and the default
/// recursion budget, `parse(serialize(e)) == e`, consuming all the bytes.
pub proof fn lemma_serialize_roundtrip(e: ExprV)
    requires
        well_typed(e),
        expr_bounded(e),
        expr_depth(e) <= MAX_PARSE_DEPTH,
    ensures
        parse_expr(ser_expr(e), 0, MAX_PARSE_DEPTH as nat) == Ok::<(ExprV, int), ParseError>(
            (e, ser_expr(e).len() as int),
        ),
{
    assert(ser_expr(e).subrange(0, ser_expr(e).len() as int) =~= ser_expr(e));
    lemma_expr_roundtrip(ser_expr(e), 0, e, MAX_PARSE_DEPTH as nat);
}


/// Appends the canonical encoding of a type.
pub fn write_type(out: &mut Vec<u8>, t: &SType)
    ensures
        final(out)@ == old(out)@ + ser_type(t@),
    decreases t, 0int,
{
    match t {
        SType::SAny => out.push(TYPE_ANY),
        SType::SBoolean => out.push(TYPE_BOOLEAN),
        SType::SByte => out.push(TYPE_BYTE),
        SType::SShort => out.push(TYPE_SHORT),
        SType::SInt => out.push(TYPE_INT),
        SType::SLong => out.push(TYPE_LONG),
        SType::SBigInt => out.push(TYPE_BIGINT),
        SType::SByteArray => out.push(TYPE_BYTE_ARRAY),
        SType::SGroupElement => out.push(TYPE_GROUP_ELEMENT),
        SType::SSigmaProp => out.push(TYPE_SIGMA_PROP),
        SType::SBox => out.push(TYPE_BOX),
        SType::SAvlTree => out.push(TYPE_AVL_TREE),
        SType::SOption(e) => {
            out.push(TYPE_OPTION);
            write_type(out, e);
        },
        SType::SColl(e) => {
            out.push(TYPE_COLL);
            write_type(out, e);
        },
        SType::STuple(slots) => {
            proof {
                lemma_stype_views_index(slots@);
            }
            out.push(TYPE_TUPLE);
            crate::vlq::write_vlq(out, slots.len() as u64);
            write_types(out, slots, 0);
            proof {
                assert(stype_views(slots@).skip(0) =~= stype_views(slots@));
            }
        },
        SType::SFunc(args, res) => {
            proof {
                lemma_stype_views_index(args@);
            }
            out.push(TYPE_FUNC);
            crate::vlq::write_vlq(out, args.len() as u64);
            write_types(out, args, 0);
            proof {
                assert(stype_views(args@).skip(0) =~= stype_views(args@));
            }
            write_type(out, res);
        },
    }
    proof {
        assert(final(out)@ =~= old(out)@ + ser_type(t@));
    }
}

/// Appends the encodings of `ts[i..]`.
fn write_types(out: &mut Vec<u8>, ts: &Vec<SType>, i: usize)
    requires
        i <= ts@.len(),
    ensures
        final(out)@ == old(out)@ + ser_types(stype_views(ts@).skip(i as int)),
    decreases ts@, ts@.len() - i,
{
    proof {
        lemma_stype_views_index(ts@);
    }
    if i < ts.len() {
        write_type(out, &ts[i]);
        write_types(out, ts, i + 1);
        proof {
            let views = stype_views(ts@);
            assert(views.skip(i as int)[0] == views[i as int]);
            assert(views.skip(i as int).drop_first() =~= views.skip(i as int + 1));
            assert(final(out)@ =~= old(out)@ + ser_types(views.skip(i as int)));
        }
    } else {
        proof {
            assert(stype_views(ts@).skip(i as int).len() == 0);
            assert(final(out)@ =~= old(out)@ + ser_types(stype_views(ts@).skip(i as int)));
        }
    }
}

/// Appends the canonical encoding of a value read at type `t`.
pub fn write_value(out: &mut Vec<u8>, v: &Value, t: &SType)
    ensures
        final(out)@ == old(out)@ + ser_value(v@, t@),
    decreases t, 0int,
{
    match (t, v) {
        (SType::SBoolean, Value::Boolean(x)) => out.push(if *x {
            1u8
        } else {
            0u8
        }),
        (SType::SByte, Value::Byte(x)) => out.push(*x as u8),
        (SType::SShort, Value::Short(x)) => {
            crate::vlq::write_vlq(out, crate::vlq::zigzag_encode(*x as i64));
        },
        (SType::SInt, Value::Int(x)) => {
            crate::vlq::write_vlq(out, crate::vlq::zigzag_encode(*x as i64));
        },
        (SType::SLong, Value::Long(x)) => {
            crate::vlq::write_vlq(out, crate::vlq::zigzag_encode(*x));
        },
        (SType::SByteArray, Value::ByteArray(bs)) => {
            crate::vlq::write_vlq(out, bs.len() as u64);
            let n = bs.len();
            let mut j: usize = 0;
            while j < n
                invariant
                    n == bs.len(),
                    0 <= j <= n,
                    out@ =~= old(out)@ + vlq_bytes(bs@.len() as u64) + bs@.take(j as int),
                decreases n - j,
            {
                out.push(bs[j]);
                j += 1;
            }
            proof {
                assert(bs@.take(n as int) =~= bs@);
            }
        },
        (SType::SOption(elem), Value::Opt(o)) => match o {
            Option::None => out.push(0u8),
            Option::Some(inner) => {
                out.push(1u8);
                write_value(out, inner, elem);
            },
        },
        (SType::SColl(elem), Value::Coll { elem_tpe, items }) => {
            proof {
                lemma_value_views_index(items@);
            }
            crate::vlq::write_vlq(out, items.len() as u64);
            write_value_elems(out, items, elem, 0);
            proof {
                assert(value_views(items@).skip(0) =~= value_views(items@));
            }
        },
        (SType::STuple(slots), Value::Tuple(items)) => {
            proof {
                lemma_value_views_index(items@);
                lemma_stype_views_index(slots@);
                assert(value_views(items@).skip(0) =~= value_views(items@));
                assert(stype_views(slots@).skip(0) =~= stype_views(slots@));
            }
            write_value_slots(out, items, slots, 0);
        },
        _ => {},
    }
    proof {
        assert(final(out)@ =~= old(out)@ + ser_value(v@, t@));
    }
}

/// Appends the encodings of `items[i..]`, each at the element type.
fn write_value_elems(out: &mut Vec<u8>, items: &Vec<Value>, elem: &SType, i: usize)
    requires
        i <= items@.len(),
    ensures
        final(out)@ == old(out)@ + ser_value_elems(value_views(items@).skip(i as int), elem@),
    decreases elem, items@.len() - i,
{
    proof {
        lemma_value_views_index(items@);
    }
    if i < items.len() {
        write_value(out, &items[i], elem);
        write_value_elems(out, items, elem, i + 1);
        proof {
            let views = value_views(items@);
            assert(views.skip(i as int)[0] == views[i as int]);
            assert(views.skip(i as int).drop_first() =~= views.skip(i as int + 1));
            assert(final(out)@ =~= old(out)@ + ser_value_elems(views.skip(i as int), elem@));
        }
    } else {
        proof {
            assert(value_views(items@).skip(i as int).len() == 0);
            assert(final(out)@ =~= old(out)@ + ser_value_elems(
                value_views(items@).skip(i as int),
                elem@,
            ));
        }
    }
}

/// Appends the encodings of `items[i..]` at the slot types `slots[i..]`.
fn write_value_slots(out: &mut Vec<u8>, items: &Vec<Value>, slots: &Vec<SType>, i: usize)
    requires
        i <= items@.len(),
        i <= slots@.len(),
    ensures
        final(out)@ == old(out)@ + ser_value_slots(
            value_views(items@).skip(i as int),
            stype_views(slots@).skip(i as int),
        ),
    decreases slots@, slots@.len() - i,
{
    proof {
        lemma_value_views_index(items@);
        lemma_stype_views_index(slots@);
    }
    if i < items.len() && i < slots.len() {
        write_value(out, &items[i], &slots[i]);
        write_value_slots(out, items, slots, i + 1);
        proof {
            let iv = value_views(items@);
            let sv = stype_views(slots@);
            assert(iv.skip(i as int)[0] == iv[i as int]);
            assert(sv.skip(i as int)[0] == sv[i as int]);
            assert(iv.skip(i as int).drop_first() =~= iv.skip(i as int + 1));
            assert(sv.skip(i as int).drop_first() =~= sv.skip(i as int + 1));
            assert(final(out)@ =~= old(out)@ + ser_value_slots(
                iv.skip(i as int),
                sv.skip(i as int),
            ));
        }
    } else {
        proof {
            assert(final(out)@ =~= old(out)@ + ser_value_slots(
                value_views(items@).skip(i as int),
                stype_views(slots@).skip(i as int),
            ));
        }
    }
}

/// Appends the canonical encoding of an expression.
pub fn write_expr(out: &mut Vec<u8>, e: &Expr)
    ensures
        final(out)@ == old(out)@ + ser_expr(e@),
    decreases e,
{
    match e {
        Expr::Const(c) => {
            out.push(OP_CONST);
            write_type(out, &c.tpe);
            write_value(out, &c.v, &c.tpe);
        },
        Expr::GlobalVars(g) => match g {
            GlobalVars::Height => out.push(OP_HEIGHT),
        },
        Expr::GetVar(g) => {
            out.push(OP_GET_VAR);
            out.push(g.var_id);
            write_type(out, &g.var_tpe);
        },
        Expr::If(i) => {
            out.push(OP_IF);
            write_expr(out, &i.condition);
            write_expr(out, &i.true_branch);
            write_expr(out, &i.false_branch);
        },
        Expr::BinOp(b) => {
            out.push(b.op_code());
            write_expr(out, &b.left);
            write_expr(out, &b.right);
        },
    }
    proof {
        assert(final(out)@ =~= old(out)@ + ser_expr(e@));
    }
}


/// Reads a type, advancing `*pos`; mirrors [`parse_type`] exactly.
pub fn read_type(b: &Vec<u8>, pos: &mut usize, depth: u64) -> (r: Result<SType, ParseError>)
    requires
        *old(pos) <= b@.len(),
    ensures
        *final(pos) <= b@.len(),
        match parse_type(b@, *old(pos) as int, depth as nat) {
            Ok(sp) => (r matches Ok(t) && t@ == sp.0 && *final(pos) == sp.1),
            Err(e) => r == Err::<SType, ParseError>(e),
        },
    decreases depth, 0int,
{
    if depth == 0 {
        return Err(ParseError::DepthExceeded);
    }
    if *pos >= b.len() {
        return Err(ParseError::TruncatedInput);
    }
    let tag = b[*pos];
    *pos = *pos + 1;
    if tag == TYPE_ANY {
        Ok(SType::SAny)
    } else if tag == TYPE_BOOLEAN {
        Ok(SType::SBoolean)
    } else if tag == TYPE_BYTE {
        Ok(SType::SByte)
    } else if tag == TYPE_SHORT {
        Ok(SType::SShort)
    } else if tag == TYPE_INT {
        Ok(SType::SInt)
    } else if tag == TYPE_LONG {
        Ok(SType::SLong)
    } else if tag == TYPE_BIGINT {
        Ok(SType::SBigInt)
    } else if tag == TYPE_BYTE_ARRAY {
        Ok(SType::SByteArray)
    } else if tag == TYPE_GROUP_ELEMENT {
        Ok(SType::SGroupElement)
    } else if tag == TYPE_SIGMA_PROP {
        Ok(SType::SSigmaProp)
    } else if tag == TYPE_BOX {
        Ok(SType::SBox)
    } else if tag == TYPE_AVL_TREE {
        Ok(SType::SAvlTree)
    } else if tag == TYPE_OPTION {
        match read_type(b, pos, depth - 1) {
            Err(e) => Err(e),
            Ok(elem) => Ok(SType::SOption(Box::new(elem))),
        }
    } else if tag == TYPE_COLL {
        match read_type(b, pos, depth - 1) {
            Err(e) => Err(e),
            Ok(elem) => Ok(SType::SColl(Box::new(elem))),
        }
    } else if tag == TYPE_TUPLE {
        match crate::vlq::read_vlq(b, pos) {
            Option::None => Err(ParseError::InvalidVlq),
            Option::Some(n) => match read_types(b, pos, n, depth - 1) {
                Err(e) => Err(e),
                Ok(slots) => Ok(SType::STuple(slots)),
            },
        }
    } else if tag == TYPE_FUNC {
        match crate::vlq::read_vlq(b, pos) {
            Option::None => Err(ParseError::InvalidVlq),
            Option::Some(n) => match read_types(b, pos, n, depth - 1) {
                Err(e) => Err(e),
                Ok(args) => match read_type(b, pos, depth - 1) {
                    Err(e) => Err(e),
                    Ok(res) => Ok(SType::SFunc(args, Box::new(res))),
                },
            },
        }
    } else {
        Err(ParseError::UnknownTypeCode)
    }
}

/// Reads `count` types in sequence; mirrors [`parse_types`] exactly.
fn read_types(b: &Vec<u8>, pos: &mut usize, count: u64, depth: u64) -> (r: Result<
    Vec<SType>,
    ParseError,
>)
    requires
        *old(pos) <= b@.len(),
    ensures
        *final(pos) <= b@.len(),
        match parse_types(b@, *old(pos) as int, count, depth as nat) {
            Ok(sp) => (r matches Ok(ts) && stype_views(ts@) == sp.0 && *final(pos) == sp.1),
            Err(e) => r == Err::<Vec<SType>, ParseError>(e),
        },
    decreases depth, count + 1,
{
    if count == 0 {
        let out: Vec<SType> = Vec::new();
        proof {
            assert(stype_views(out@) =~= Seq::<STypeV>::empty());
        }
        return Ok(out);
    }
    match read_type(b, pos, depth) {
        Err(e) => Err(e),
        Ok(head) => match read_types(b, pos, count - 1, depth) {
            Err(e) => Err(e),
            Ok(rest) => {
                let ghost head_snap = head;
                let ghost rest_seq = rest@;
                let mut out = rest;
                out.insert(0, head);
                proof {
                    lemma_stype_views_index(out@);
                    lemma_stype_views_index(rest_seq);
                    assert(out@.len() == rest_seq.len() + 1);
                    assert(out@[0] == head_snap);
                    assert(forall|k: int|
                        1 <= k < out@.len() ==> #[trigger] out@[k] == rest_seq[k - 1]);
                    assert(stype_views(out@) =~= seq![stype_view(head_snap)] + stype_views(
                        rest_seq,
                    ));
                }
                Ok(out)
            },
        },
    }
}


/// Reads a value payload at type `t`, advancing `*pos`; mirrors
/// [`parse_value`] exactly.
pub fn read_value(b: &Vec<u8>, pos: &mut usize, t: &SType) -> (r: Result<Value, ParseError>)
    requires
        *old(pos) <= b@.len(),
    ensures
        *final(pos) <= b@.len(),
        match parse_value(b@, *old(pos) as int, t@) {
            Ok(sp) => (r matches Ok(v) && v@ == sp.0 && *final(pos) == sp.1),
            Err(e) => r == Err::<Value, ParseError>(e),
        },
    decreases t, 0int,
{
    match t {
        SType::SBoolean => {
            if *pos >= b.len() {
                return Err(ParseError::TruncatedInput);
            }
            let byte = b[*pos];
            if byte == 0 {
                *pos = *pos + 1;
                Ok(Value::Boolean(false))
            } else if byte == 1 {
                *pos = *pos + 1;
                Ok(Value::Boolean(true))
            } else {
                Err(ParseError::TypeMismatch)
            }
        },
        SType::SByte => {
            if *pos >= b.len() {
                return Err(ParseError::TruncatedInput);
            }
            let byte = b[*pos];
            *pos = *pos + 1;
            Ok(Value::Byte(#[verifier::truncate] (byte as i8)))
        },
        SType::SShort => {
            match crate::vlq::read_vlq(b, pos) {
                Option::None => Err(ParseError::InvalidVlq),
                Option::Some(u) => {
                    let sv = crate::vlq::zigzag_decode(u);
                    if i16::MIN as i64 <= sv && sv <= i16::MAX as i64 {
                        Ok(Value::Short(sv as i16))
                    } else {
                        Err(ParseError::TypeMismatch)
                    }
                },
            }
        },
        SType::SInt => {
            match crate::vlq::read_vlq(b, pos) {
                Option::None => Err(ParseError::InvalidVlq),
                Option::Some(u) => {
                    let sv = crate::vlq::zigzag_decode(u);
                    if i32::MIN as i64 <= sv && sv <= i32::MAX as i64 {
                        Ok(Value::Int(sv as i32))
                    } else {
                        Err(ParseError::TypeMismatch)
                    }
                },
            }
        },
        SType::SLong => {
            match crate::vlq::read_vlq(b, pos) {
                Option::None => Err(ParseError::InvalidVlq),
                Option::Some(u) => Ok(Value::Long(crate::vlq::zigzag_decode(u))),
            }
        },
        SType::SByteArray => {
            match crate::vlq::read_vlq(b, pos) {
                Option::None => Err(ParseError::InvalidVlq),
                Option::Some(n) => {
                    if n <= (b.len() - *pos) as u64 {
                        let cnt = n as usize;
                        let start = *pos;
                        let blen = b.len();
                        let mut bytes: Vec<u8> = Vec::new();
                        let mut j: usize = 0;
                        while j < cnt
                            invariant
                                start + cnt <= blen,
                                blen == b@.len(),
                                0 <= j <= cnt,
                                bytes@ =~= b@.subrange(start as int, start as int + j as int),
                            decreases cnt - j,
                        {
                            bytes.push(b[start + j]);
                            j += 1;
                        }
                        *pos = start + cnt;
                        proof {
                            assert(bytes@ =~= b@.subrange(start as int, start as int + cnt as int));
                        }
                        Ok(Value::ByteArray(bytes))
                    } else {
                        Err(ParseError::TruncatedInput)
                    }
                },
            }
        },
        SType::SOption(elem) => {
            if *pos >= b.len() {
                return Err(ParseError::TruncatedInput);
            }
            let byte = b[*pos];
            if byte == 0 {
                *pos = *pos + 1;
                Ok(Value::Opt(Option::None))
            } else if byte == 1 {
                *pos = *pos + 1;
                match read_value(b, pos, elem) {
                    Err(e) => Err(e),
                    Ok(inner) => Ok(Value::Opt(Option::Some(Box::new(inner)))),
                }
            } else {
                Err(ParseError::TypeMismatch)
            }
        },
        SType::SColl(elem) => {
            match crate::vlq::read_vlq(b, pos) {
                Option::None => Err(ParseError::InvalidVlq),
                Option::Some(n) => match read_value_elems(b, pos, n, elem) {
                    Err(e) => Err(e),
                    Ok(items) => Ok(Value::Coll { elem_tpe: (**elem).clone(), items }),
                },
            }
        },
        SType::STuple(slots) => {
            proof {
                lemma_stype_views_index(slots@);
                assert(stype_views(slots@).skip(0) =~= stype_views(slots@));
            }
            match read_value_slots(b, pos, slots, 0) {
                Err(e) => Err(e),
                Ok(items) => Ok(Value::Tuple(items)),
            }
        },
        _ => Err(ParseError::TypeMismatch),
    }
}

/// Reads `count` collection items; mirrors [`parse_value_elems`] exactly.
fn read_value_elems(b: &Vec<u8>, pos: &mut usize, count: u64, elem: &SType) -> (r: Result<
    Vec<Value>,
    ParseError,
>)
    requires
        *old(pos) <= b@.len(),
    ensures
        *final(pos) <= b@.len(),
        match parse_value_elems(b@, *old(pos) as int, count, elem@) {
            Ok(sp) => (r matches Ok(items) && value_views(items@) == sp.0 && *final(pos) == sp.1),
            Err(e) => r == Err::<Vec<Value>, ParseError>(e),
        },
    decreases elem, count + 1,
{
    if count == 0 {
        let out: Vec<Value> = Vec::new();
        proof {
            assert(value_views(out@) =~= Seq::<ValueV>::empty());
        }
        return Ok(out);
    }
    match read_value(b, pos, elem) {
        Err(e) => Err(e),
        Ok(head) => match read_value_elems(b, pos, count - 1, elem) {
            Err(e) => Err(e),
            Ok(rest) => {
                let ghost head_snap = head;
                let ghost rest_seq = rest@;
                let mut out = rest;
                out.insert(0, head);
                proof {
                    lemma_value_views_index(out@);
                    lemma_value_views_index(rest_seq);
                    assert(out@.len() == rest_seq.len() + 1);
                    assert(out@[0] == head_snap);
                    assert(forall|k: int|
                        1 <= k < out@.len() ==> #[trigger] out@[k] == rest_seq[k - 1]);
                    assert(value_views(out@) =~= seq![value_view(head_snap)] + value_views(
                        rest_seq,
                    ));
                }
                Ok(out)
            },
        },
    }
}

/// Reads a tuple's items from slot `i` on; mirrors [`parse_value_slots`]
/// over the remaining slot types.
fn read_value_slots(b: &Vec<u8>, pos: &mut usize, slots: &Vec<SType>, i: usize) -> (r: Result<
    Vec<Value>,
    ParseError,
>)
    requires
        *old(pos) <= b@.len(),
        i <= slots@.len(),
    ensures
        *final(pos) <= b@.len(),
        match parse_value_slots(b@, *old(pos) as int, stype_views(slots@).skip(i as int)) {
            Ok(sp) => (r matches Ok(items) && value_views(items@) == sp.0 && *final(pos) == sp.1),
            Err(e) => r == Err::<Vec<Value>, ParseError>(e),
        },
    decreases slots@, slots@.len() - i,
{
    proof {
        lemma_stype_views_index(slots@);
    }
    if i >= slots.len() {
        let out: Vec<Value> = Vec::new();
        proof {
            assert(stype_views(slots@).skip(i as int).len() == 0);
            assert(value_views(out@) =~= Seq::<ValueV>::empty());
        }
        return Ok(out);
    }
    proof {
        assert(stype_views(slots@).skip(i as int)[0] == stype_views(slots@)[i as int]);
        assert(stype_views(slots@).skip(i as int).drop_first() =~= stype_views(slots@).skip(
            i as int + 1,
        ));
    }
    match read_value(b, pos, &slots[i]) {
        Err(e) => Err(e),
        Ok(head) => match read_value_slots(b, pos, slots, i + 1) {
            Err(e) => Err(e),
            Ok(rest) => {
                let ghost head_snap = head;
                let ghost rest_seq = rest@;
                let mut out = rest;
                out.insert(0, head);
                proof {
                    lemma_value_views_index(out@);
                    lemma_value_views_index(rest_seq);
                    assert(out@.len() == rest_seq.len() + 1);
                    assert(out@[0] == head_snap);
                    assert(forall|k: int|
                        1 <= k < out@.len() ==> #[trigger] out@[k] == rest_seq[k - 1]);
                    assert(value_views(out@) =~= seq![value_view(head_snap)] + value_views(
                        rest_seq,
                    ));
                }
                Ok(out)
            },
        },
    }
}

/// Decides the binary operator kind of an op code.
fn binop_kind_of_code(code: u8) -> (r: Option<BinOpKind>)
    ensures
        r == binop_kind_of(code),
{
    if code == OP_PLUS {
        Some(BinOpKind::Arith(ArithOp::Plus))
    } else if code == OP_MINUS {
        Some(BinOpKind::Arith(ArithOp::Minus))
    } else if code == OP_MULTIPLY {
        Some(BinOpKind::Arith(ArithOp::Multiply))
    } else if code == OP_DIVISION {
        Some(BinOpKind::Arith(ArithOp::Divide))
    } else if code == OP_MAX {
        Some(BinOpKind::Arith(ArithOp::Max))
    } else if code == OP_MIN {
        Some(BinOpKind::Arith(ArithOp::Min))
    } else if code == OP_EQ {
        Some(BinOpKind::Relation(RelationOp::Eq))
    } else if code == OP_NEQ {
        Some(BinOpKind::Relation(RelationOp::NEq))
    } else if code == OP_GE {
        Some(BinOpKind::Relation(RelationOp::GE))
    } else if code == OP_GT {
        Some(BinOpKind::Relation(RelationOp::GT))
    } else if code == OP_LE {
        Some(BinOpKind::Relation(RelationOp::LE))
    } else if code == OP_LT {
        Some(BinOpKind::Relation(RelationOp::LT))
    } else if code == OP_BIN_AND {
        Some(BinOpKind::Relation(RelationOp::And))
    } else if code == OP_BIN_OR {
        Some(BinOpKind::Relation(RelationOp::Or))
    } else {
        None
    }
}

/// Reads an expression, advancing `*pos`; mirrors [`parse_expr`] exactly,
/// including the type checks made during reconstruction.
#[verifier::rlimit(100)]
pub fn read_expr(b: &Vec<u8>, pos: &mut usize, depth: u64) -> (r: Result<Expr, ParseError>)
    requires
        *old(pos) <= b@.len(),
    ensures
        *final(pos) <= b@.len(),
        match parse_expr(b@, *old(pos) as int, depth as nat) {
            Ok(sp) => (r matches Ok(e) && e@ == sp.0 && *final(pos) == sp.1),
            Err(e) => r == Err::<Expr, ParseError>(e),
        },
    decreases depth,
{
    if depth == 0 {
        return Err(ParseError::DepthExceeded);
    }
    if *pos >= b.len() {
        return Err(ParseError::TruncatedInput);
    }
    let op = b[*pos];
    if op == OP_CONST {
        *pos = *pos + 1;
        match read_type(b, pos, depth - 1) {
            Err(e) => Err(e),
            Ok(t) => match read_value(b, pos, &t) {
                Err(e) => Err(e),
                Ok(v) => Ok(Expr::Const(Constant { tpe: t, v })),
            },
        }
    } else if op == OP_HEIGHT {
        *pos = *pos + 1;
        Ok(Expr::GlobalVars(GlobalVars::Height))
    } else if op == OP_GET_VAR {
        if *pos + 1 >= b.len() {
            return Err(ParseError::TruncatedInput);
        }
        let var_id = b[*pos + 1];
        *pos = *pos + 2;
        match read_type(b, pos, depth - 1) {
            Err(e) => Err(e),
            Ok(t) => Ok(Expr::GetVar(GetVar { var_id, var_tpe: t })),
        }
    } else if op == OP_IF {
        *pos = *pos + 1;
        match read_expr(b, pos, depth - 1) {
            Err(e) => Err(e),
            Ok(cond) => match read_expr(b, pos, depth - 1) {
                Err(e) => Err(e),
                Ok(tb) => match read_expr(b, pos, depth - 1) {
                    Err(e) => Err(e),
                    Ok(fb) => {
                        let ct = cond.tpe();
                        let tt = tb.tpe();
                        let ft = fb.tpe();
                        if matches!(ct, SType::SBoolean) && tt.st_eq(&ft) {
                            Ok(Expr::If(If {
                                condition: Box::new(cond),
                                true_branch: Box::new(tb),
                                false_branch: Box::new(fb),
                            }))
                        } else {
                            Err(ParseError::TypeMismatch)
                        }
                    },
                },
            },
        }
    } else {
        match binop_kind_of_code(op) {
            None => Err(ParseError::UnknownOpCode),
            Some(kind) => {
                *pos = *pos + 1;
                match read_expr(b, pos, depth - 1) {
                    Err(e) => Err(e),
                    Ok(l) => match read_expr(b, pos, depth - 1) {
                        Err(e) => Err(e),
                        Ok(r2) => {
                            let lt = l.tpe();
                            let rt = r2.tpe();
                            let ok = match kind {
                                BinOpKind::Arith(_) => lt.st_eq(&rt) && is_numeric_type(&lt),
                                BinOpKind::Relation(relop) => match relop {
                                    RelationOp::Eq | RelationOp::NEq => lt.st_eq(&rt),
                                    RelationOp::GE | RelationOp::GT | RelationOp::LE
                                        | RelationOp::LT => lt.st_eq(&rt) && is_numeric_type(&lt),
                                    RelationOp::And | RelationOp::Or => matches!(
                                        lt,
                                        SType::SBoolean,
                                    ) && matches!(rt, SType::SBoolean),
                                },
                            };
                            if ok {
                                Ok(Expr::BinOp(BinOp {
                                    kind,
                                    left: Box::new(l),
                                    right: Box::new(r2),
                                }))
                            } else {
                                Err(ParseError::TypeMismatch)
                            }
                        },
                    },
                }
            },
        }
    }
}

/// Serializes an expression to its canonical bytes.
pub fn serialize(e: &Expr) -> (r: Vec<u8>)
    ensures
        r@ == ser_expr(e@),
{
    let mut out: Vec<u8> = Vec::new();
    write_expr(&mut out, e);
    proof {
        assert(out@ =~= ser_expr(e@));
    }
    out
}

/// Parses an expression from canonical bytes under the default recursion
/// limit, returning the tree and how many bytes it consumed.
pub fn parse(bytes: &Vec<u8>) -> (r: Result<(Expr, usize), ParseError>)
    ensures
        match parse_expr(bytes@, 0, MAX_PARSE_DEPTH as nat) {
            Ok(sp) => (r matches Ok(p) && p.0@ == sp.0 && p.1 == sp.1),
            Err(e) => r == Err::<(Expr, usize), ParseError>(e),
        },
{
    let mut pos: usize = 0;
    match read_expr(bytes, &mut pos, MAX_PARSE_DEPTH) {
        Err(e) => Err(e),
        Ok(e) => Ok((e, pos)),
    }
}

impl Expr {
    /// Appends this expression's canonical bytes to a writer buffer.
    pub fn sigma_serialize(&self, w: &mut Vec<u8>)
        ensures
            final(w)@ == old(w)@ + ser_expr(self@),
    {
        write_expr(w, self)
    }

    /// Reads an expression from a reader position, advancing it.
    pub fn sigma_parse(b: &Vec<u8>, pos: &mut usize, depth: u64) -> (r: Result<Expr, ParseError>)
        requires
            *old(pos) <= b@.len(),
        ensures
            *final(pos) <= b@.len(),
            match parse_expr(b@, *old(pos) as int, depth as nat) {
                Ok(sp) => (r matches Ok(e) && e@ == sp.0 && *final(pos) == sp.1),
                Err(e) => r == Err::<Expr, ParseError>(e),
            },
    {
        read_expr(b, pos, depth)
    }
}

/// Parsing the payload of an `If` node: three expressions in sequence from
/// `pos` — condition, true branch, false branch — each under the given
/// budget, a child's error propagated as soon as it occurs; success
/// requires a boolean condition and branch types that unify exactly.
pub open spec fn parse_if_payload(b: Seq<u8>, pos: int, depth: nat) -> Result<(IfV, int), ParseError> {
    match parse_expr(b, pos, depth) {
        Err(e) => Err(e),
        Ok((cond, p2)) => match parse_expr(b, p2, depth) {
            Err(e) => Err(e),
            Ok((tb, p3)) => match parse_expr(b, p3, depth) {
                Err(e) => Err(e),
                Ok((fb, p4)) => if expr_tpe(cond) is SBoolean && expr_tpe(tb) == expr_tpe(fb) {
                    Ok(
                        (
                            IfV {
                                condition: Box::new(cond),
                                true_branch: Box::new(tb),
                                false_branch: Box::new(fb),
                            },
                            p4,
                        ),
                    )
                } else {
                    Err(ParseError::TypeMismatch)
                },
            },
        },
    }
}

/// Parsing an `If` payload right after writing one gives the node back:
/// wherever the bytes of a well-typed node's three children stand in `b`,
/// parsing at their start reconstructs exactly that node and stops right
/// after them.
pub proof fn lemma_if_payload_roundtrip(b: Seq<u8>, pos: int, i: IfV, depth: nat)
    requires
        0 <= pos,
        well_typed(ExprV::If(i)),
        expr_bounded(ExprV::If(i)),
        depth >= expr_depth(*i.condition),
        depth >= expr_depth(*i.true_branch),
        depth >= expr_depth(*i.false_branch),
        pos + (ser_expr(*i.condition) + ser_expr(*i.true_branch) + ser_expr(
            *i.false_branch,
        )).len() <= b.len(),
        b.subrange(
            pos,
            pos + (ser_expr(*i.condition) + ser_expr(*i.true_branch) + ser_expr(
                *i.false_branch,
            )).len() as int,
        ) == ser_expr(*i.condition) + ser_expr(*i.true_branch) + ser_expr(*i.false_branch),
    ensures
        parse_if_payload(b, pos, depth) == Ok::<(IfV, int), ParseError>(
            (
                i,
                pos + (ser_expr(*i.condition) + ser_expr(*i.true_branch) + ser_expr(
                    *i.false_branch,
                )).len() as int,
            ),
        ),
{
    let cb = ser_expr(*i.condition);
    let tb = ser_expr(*i.true_branch);
    let fb = ser_expr(*i.false_branch);
    let w = cb + tb + fb;
    lemma_subrange_of_match(b, pos, w, 0, cb.len() as int);
    assert(w.subrange(0, cb.len() as int) =~= cb);
    lemma_expr_roundtrip(b, pos, *i.condition, depth);
    lemma_subrange_of_match(b, pos, w, cb.len() as int, cb.len() + tb.len() as int);
    assert(w.subrange(cb.len() as int, cb.len() + tb.len() as int) =~= tb);
    lemma_expr_roundtrip(b, pos + cb.len() as int, *i.true_branch, depth);
    lemma_subrange_of_match(b, pos, w, cb.len() + tb.len() as int, w.len() as int);
    assert(w.subrange(cb.len() + tb.len() as int, w.len() as int) =~= fb);
    lemma_expr_roundtrip(b, pos + cb.len() + tb.len() as int, *i.false_branch, depth);
    assert(parse_if_payload(b, pos, depth).unwrap().0 =~= i);
}

impl If {
    /// Writes the node's payload: its three children in order (the `If` op
    /// code itself is written by the parent dispatch).
    pub fn sigma_serialize(&self, w: &mut Vec<u8>)
        ensures
            final(w)@ == old(w)@ + ser_expr(*self@.condition) + ser_expr(*self@.true_branch)
                + ser_expr(*self@.false_branch),
    {
        write_expr(w, &self.condition);
        write_expr(w, &self.true_branch);
        write_expr(w, &self.false_branch);
    }

    /// Reads the node's payload, advancing `*pos`; mirrors
    /// [`parse_if_payload`] exactly: the three children parsed in order
    /// from the reader position, each child's error propagated, a
    /// non-boolean condition or branch types that do not unify rejected as
    /// a type mismatch.
    pub fn sigma_parse(b: &Vec<u8>, pos: &mut usize, depth: u64) -> (r: Result<If, ParseError>)
        requires
            *old(pos) <= b@.len(),
        ensures
            *final(pos) <= b@.len(),
            match parse_if_payload(b@, *old(pos) as int, depth as nat) {
                Ok(sp) => (r matches Ok(i) && i@ == sp.0 && *final(pos) == sp.1),
                Err(e) => r == Err::<If, ParseError>(e),
            },
    {
        match read_expr(b, pos, depth) {
            Err(e) => Err(e),
            Ok(cond) => match read_expr(b, pos, depth) {
                Err(e) => Err(e),
                Ok(tb) => match read_expr(b, pos, depth) {
                    Err(e) => Err(e),
                    Ok(fb) => {
                        let ct = cond.tpe();
                        let tt = tb.tpe();
                        let ft = fb.tpe();
                        if matches!(ct, SType::SBoolean) && tt.st_eq(&ft) {
                            Ok(If {
                                condition: Box::new(cond),
                                true_branch: Box::new(tb),
                                false_branch: Box::new(fb),
                            })
                        } else {
                            Err(ParseError::TypeMismatch)
                        }
                    },
                },
            },
        }
    }
}

} // verus!
