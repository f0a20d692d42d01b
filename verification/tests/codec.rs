//! Wire format behaviour: VLQ and zig-zag, serialization round-trips, and
//! the parse failure taxonomy.

use ergotree::expr::{BinOp, BinOpKind, Expr, GetVar, GlobalVars, If, RelationOp, OP_CONST, OP_IF};
use ergotree::serializer::{parse, serialize, ParseError, MAX_PARSE_DEPTH};
use ergotree::stype::SType;
use ergotree::value::{Constant, Value};
use ergotree::hex::{from_hex_bytes, to_hex_bytes};
use ergotree::vlq::{read_vlq, write_vlq, zigzag_decode, zigzag_encode};

fn const_long(v: i64) -> Constant {
    Constant { tpe: SType::SLong, v: Value::Long(v) }
}

fn const_bool(v: bool) -> Constant {
    Constant { tpe: SType::SBoolean, v: Value::Boolean(v) }
}

#[test]
fn vlq_roundtrip_values() {
    for v in [0u64, 1, 127, 128, 300, 16_383, 16_384, u64::MAX] {
        let mut out: Vec<u8> = Vec::new();
        write_vlq(&mut out, v);
        let mut pos: usize = 0;
        assert_eq!(read_vlq(&out, &mut pos), Some(v));
        assert_eq!(pos, out.len());
    }
    // single-byte encodings
    let mut out: Vec<u8> = Vec::new();
    write_vlq(&mut out, 5);
    assert_eq!(out, vec![5u8]);
    let mut out2: Vec<u8> = Vec::new();
    write_vlq(&mut out2, 300);
    assert_eq!(out2, vec![0xAC, 0x02]);
}

#[test]
fn zigzag_roundtrip_values() {
    for v in [0i64, -1, 1, -2, 2, i64::MIN, i64::MAX] {
        assert_eq!(zigzag_decode(zigzag_encode(v)), v);
    }
    assert_eq!(zigzag_encode(0), 0);
    assert_eq!(zigzag_encode(-1), 1);
    assert_eq!(zigzag_encode(1), 2);
    assert_eq!(zigzag_encode(-2), 3);
}

#[test]
fn expr_serialize_roundtrip() {
    let expr = Expr::If(If {
        condition: Box::new(Expr::BinOp(BinOp {
            kind: BinOpKind::Relation(RelationOp::GT),
            left: Box::new(Expr::GlobalVars(GlobalVars::Height)),
            right: Box::new(Expr::Const(Constant {
                tpe: SType::SInt,
                v: Value::Int(100),
            })),
        })),
        true_branch: Box::new(Expr::Const(const_long(1))),
        false_branch: Box::new(Expr::Const(const_long(-2))),
    });
    let bytes = serialize(&expr);
    let (back, consumed) = parse(&bytes).unwrap();
    assert_eq!(back, expr);
    assert_eq!(consumed, bytes.len());
}

#[test]
fn compound_constant_roundtrip() {
    let c = Constant {
        tpe: SType::STuple(vec![
            SType::SColl(Box::new(SType::SByte)),
            SType::SOption(Box::new(SType::SLong)),
            SType::SByteArray,
        ]),
        v: Value::Tuple(vec![
            Value::Coll {
                elem_tpe: SType::SByte,
                items: vec![Value::Byte(-1), Value::Byte(2)],
            },
            Value::Opt(Some(Box::new(Value::Long(-77)))),
            Value::ByteArray(vec![9, 8, 7]),
        ]),
    };
    let expr = Expr::Const(c);
    let bytes = serialize(&expr);
    let (back, consumed) = parse(&bytes).unwrap();
    assert_eq!(back, expr);
    assert_eq!(consumed, bytes.len());
}

#[test]
fn get_var_roundtrip() {
    let expr = Expr::GetVar(GetVar { var_id: 3, var_tpe: SType::SColl(Box::new(SType::SInt)) });
    let bytes = serialize(&expr);
    let (back, consumed) = parse(&bytes).unwrap();
    assert_eq!(back, expr);
    assert_eq!(consumed, bytes.len());
}

#[test]
fn serialization_is_deterministic() {
    let expr = Expr::Const(const_long(9000));
    assert_eq!(serialize(&expr), serialize(&expr));
}

#[test]
fn unknown_type_tag_is_parse_error() {
    // a constant whose type tag no type uses
    let bytes = vec![OP_CONST, 99u8];
    assert_eq!(parse(&bytes), Err(ParseError::UnknownTypeCode));
}

#[test]
fn unknown_op_code_is_parse_error() {
    let bytes = vec![200u8];
    assert_eq!(parse(&bytes), Err(ParseError::UnknownOpCode));
}

#[test]
fn truncated_input_is_parse_error() {
    let empty: Vec<u8> = Vec::new();
    assert_eq!(parse(&empty), Err(ParseError::TruncatedInput));
    // an If op code with no children following
    let bytes = vec![OP_IF];
    assert_eq!(parse(&bytes), Err(ParseError::TruncatedInput));
}

#[test]
fn type_mismatch_during_reconstruction() {
    // If with a non-boolean condition: three long constants
    let mut bytes: Vec<u8> = vec![OP_IF];
    for _ in 0..3 {
        let c = serialize(&Expr::Const(const_long(1)));
        bytes.extend_from_slice(&c);
    }
    assert_eq!(parse(&bytes), Err(ParseError::TypeMismatch));
    // branches of different types
    let mut bytes2: Vec<u8> = vec![OP_IF];
    bytes2.extend_from_slice(&serialize(&Expr::Const(const_bool(true))));
    bytes2.extend_from_slice(&serialize(&Expr::Const(const_long(1))));
    bytes2.extend_from_slice(&serialize(&Expr::Const(const_bool(false))));
    assert_eq!(parse(&bytes2), Err(ParseError::TypeMismatch));
}

#[test]
fn depth_limit_fails_before_stack_exhaustion() {
    // nest If op codes beyond the configured limit; the parser must stop
    // with a depth error rather than recurse without bound
    let mut bytes: Vec<u8> = Vec::new();
    for _ in 0..(MAX_PARSE_DEPTH + 10) {
        bytes.push(OP_IF);
    }
    assert_eq!(parse(&bytes), Err(ParseError::DepthExceeded));
}

#[test]
fn depth_within_limit_parses() {
    // a tree a few levels deep still parses
    let mut expr = Expr::Const(const_long(1));
    for _ in 0..10 {
        expr = Expr::If(If {
            condition: Box::new(Expr::Const(const_bool(true))),
            true_branch: Box::new(expr),
            false_branch: Box::new(Expr::Const(const_long(0))),
        });
    }
    let bytes = serialize(&expr);
    let (back, _) = parse(&bytes).unwrap();
    assert_eq!(back, expr);
}

#[test]
fn writer_reader_positions() {
    // serializing two expressions back to back parses back in order
    let a = Expr::Const(const_long(7));
    let b = Expr::GlobalVars(GlobalVars::Height);
    let mut bytes: Vec<u8> = Vec::new();
    a.sigma_serialize(&mut bytes);
    b.sigma_serialize(&mut bytes);
    let mut pos: usize = 0;
    let first = Expr::sigma_parse(&bytes, &mut pos, MAX_PARSE_DEPTH).unwrap();
    let second = Expr::sigma_parse(&bytes, &mut pos, MAX_PARSE_DEPTH).unwrap();
    assert_eq!(first, a);
    assert_eq!(second, b);
    assert_eq!(pos, bytes.len());
}

#[test]
fn if_payload_roundtrip() {
    // payload only: condition, true branch, false branch, no leading op code
    let node = If {
        condition: Box::new(Expr::Const(const_bool(true))),
        true_branch: Box::new(Expr::Const(const_long(1))),
        false_branch: Box::new(Expr::Const(const_long(2))),
    };
    let mut bytes: Vec<u8> = Vec::new();
    node.sigma_serialize(&mut bytes);
    let mut pos: usize = 0;
    let back = If::sigma_parse(&bytes, &mut pos, MAX_PARSE_DEPTH).unwrap();
    assert_eq!(back, node);
    assert_eq!(pos, bytes.len());
}

#[test]
fn if_payload_parse_errors() {
    // truncated input: no children at all
    let empty: Vec<u8> = Vec::new();
    let mut pos: usize = 0;
    assert_eq!(
        If::sigma_parse(&empty, &mut pos, MAX_PARSE_DEPTH),
        Err(ParseError::TruncatedInput)
    );
    // an unknown type tag inside the condition's constant propagates
    let bad_child = vec![OP_CONST, 99u8];
    let mut pos2: usize = 0;
    assert_eq!(
        If::sigma_parse(&bad_child, &mut pos2, MAX_PARSE_DEPTH),
        Err(ParseError::UnknownTypeCode)
    );
    // an exhausted recursion budget surfaces as a depth error
    let good = {
        let node = If {
            condition: Box::new(Expr::Const(const_bool(true))),
            true_branch: Box::new(Expr::Const(const_long(1))),
            false_branch: Box::new(Expr::Const(const_long(2))),
        };
        let mut bytes: Vec<u8> = Vec::new();
        node.sigma_serialize(&mut bytes);
        bytes
    };
    let mut pos3: usize = 0;
    assert_eq!(If::sigma_parse(&good, &mut pos3, 0), Err(ParseError::DepthExceeded));
    // branch types that do not unify are a type mismatch
    let mut mixed: Vec<u8> = Vec::new();
    Expr::Const(const_bool(true)).sigma_serialize(&mut mixed);
    Expr::Const(const_long(1)).sigma_serialize(&mut mixed);
    Expr::Const(const_bool(false)).sigma_serialize(&mut mixed);
    let mut pos4: usize = 0;
    assert_eq!(
        If::sigma_parse(&mixed, &mut pos4, MAX_PARSE_DEPTH),
        Err(ParseError::TypeMismatch)
    );
}

#[test]
fn hex_roundtrip_and_errors() {
    // exact digits: the encoder really transforms its input
    let rendered = to_hex_bytes(&vec![0xab, 0x00, 0x7f]);
    assert_eq!(rendered, b"ab007f".to_vec());
    assert_eq!(from_hex_bytes(&rendered), Some(vec![0xab, 0x00, 0x7f]));
    // both cases decode
    assert_eq!(from_hex_bytes(&b"AB007F".to_vec()), Some(vec![0xab, 0x00, 0x7f]));
    // odd length and non-digits are rejected
    assert_eq!(from_hex_bytes(&b"abc".to_vec()), None);
    assert_eq!(from_hex_bytes(&b"zz".to_vec()), None);
    // empty round-trips to empty
    assert_eq!(from_hex_bytes(&to_hex_bytes(&vec![])), Some(vec![]));
}
