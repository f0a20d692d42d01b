//! Front-end lowering and peer address wire behaviour.

use ergotree::hir::{
    lower, AstBinary, AstExpr, AstIdent, AstToken, BinaryOp, Expr, ExprKind, GlobalVars, Root,
    Span, SyntaxKind,
};
use ergotree::peer_addr::{Ip, PeerAddr, ScorexParsingError, ScorexSerializationError};
use ergotree::stype::SType;

fn sp(start: u32, end: u32) -> Span {
    Span { start, end }
}

fn ident(name: &str, start: u32, end: u32) -> AstExpr {
    AstExpr::Ident(AstIdent { name: Some(name.to_string()), span: sp(start, end) })
}

#[test]
fn lower_binary_expression() {
    let ast = Root {
        children: vec![AstExpr::BinaryExpr(AstBinary {
            op: Some(AstToken { kind: SyntaxKind::Plus, span: sp(2, 3) }),
            lhs: Some(Box::new(ident("a", 0, 1))),
            rhs: Some(Box::new(ident("b", 4, 5))),
            span: sp(0, 5),
        })],
    };
    let hir = lower(ast).unwrap();
    assert_eq!(hir.span, sp(0, 5));
    assert!(hir.tpe.is_none());
    match hir.kind {
        ExprKind::Binary(b) => {
            assert_eq!(b.op.node, BinaryOp::Plus);
            assert_eq!(b.op.span, sp(2, 3));
            assert!(matches!(b.lhs.kind, ExprKind::Ident(ref n) if n == "a"));
            assert!(matches!(b.rhs.kind, ExprKind::Ident(ref n) if n == "b"));
        },
        other => panic!("expected a binary node, got {:?}", other),
    }
}

#[test]
fn lower_maps_every_operator() {
    for (kind, op) in [
        (SyntaxKind::Plus, BinaryOp::Plus),
        (SyntaxKind::Minus, BinaryOp::Minus),
        (SyntaxKind::Star, BinaryOp::Multiply),
        (SyntaxKind::Slash, BinaryOp::Divide),
    ] {
        let ast = Root {
            children: vec![AstExpr::BinaryExpr(AstBinary {
                op: Some(AstToken { kind, span: sp(1, 2) }),
                lhs: Some(Box::new(ident("x", 0, 1))),
                rhs: Some(Box::new(ident("y", 2, 3))),
                span: sp(0, 3),
            })],
        };
        let hir = lower(ast).unwrap();
        match hir.kind {
            ExprKind::Binary(b) => assert_eq!(b.op.node, op),
            other => panic!("expected a binary node, got {:?}", other),
        }
    }
}

#[test]
fn lower_rejects_multi_expression_roots() {
    let ast = Root { children: vec![ident("a", 0, 1), ident("b", 2, 3)] };
    assert!(lower(ast).is_err());
    let empty = Root { children: vec![] };
    assert!(lower(empty).is_err());
}

#[test]
fn lower_rejects_malformed_shapes() {
    // an operator token that is not an operator
    let bad_op = Root {
        children: vec![AstExpr::BinaryExpr(AstBinary {
            op: Some(AstToken { kind: SyntaxKind::Ident, span: sp(1, 2) }),
            lhs: Some(Box::new(ident("x", 0, 1))),
            rhs: Some(Box::new(ident("y", 2, 3))),
            span: sp(0, 3),
        })],
    };
    assert!(lower(bad_op).is_err());
    // a missing operand
    let no_rhs = Root {
        children: vec![AstExpr::BinaryExpr(AstBinary {
            op: Some(AstToken { kind: SyntaxKind::Plus, span: sp(1, 2) }),
            lhs: Some(Box::new(ident("x", 0, 1))),
            rhs: None,
            span: sp(0, 3),
        })],
    };
    assert!(lower(no_rhs).is_err());
    // a nameless identifier
    let nameless = Root {
        children: vec![AstExpr::Ident(AstIdent { name: None, span: sp(0, 1) })],
    };
    assert!(lower(nameless).is_err());
    // an unsupported surface form
    let unsupported = Root { children: vec![AstExpr::Unsupported(sp(0, 4))] };
    assert!(lower(unsupported).is_err());
}

#[test]
fn debug_tree_renders_the_node() {
    let hir = lower(Root { children: vec![ident("height", 0, 6)] }).unwrap();
    let rendering = hir.debug_tree();
    assert!(rendering.contains("Ident"));
    assert!(rendering.contains("height"));
}

#[test]
fn global_vars_height_type() {
    assert_eq!(GlobalVars::Height.tpe(), SType::SInt);
    let hir = Expr {
        kind: ExprKind::GlobalVars(GlobalVars::Height),
        span: sp(0, 6),
        tpe: Some(SType::SInt),
    };
    assert!(matches!(hir.kind, ExprKind::GlobalVars(GlobalVars::Height)));
}

#[test]
fn peer_addr_ip_size() {
    let v4 = PeerAddr { ip: Ip::V4([127, 0, 0, 1]), port: 9030 };
    assert_eq!(v4.ip_size(), 4);
    let v6 = PeerAddr { ip: Ip::V6([0u8; 16]), port: 9030 };
    assert_eq!(v6.ip_size(), 16);
}

#[test]
fn peer_addr_serialize_roundtrip() {
    let addr = PeerAddr { ip: Ip::V4([10, 1, 2, 3]), port: 65_535 };
    let mut w: Vec<u8> = Vec::new();
    addr.scorex_serialize(&mut w).unwrap();
    let mut pos: usize = 0;
    let back = PeerAddr::scorex_parse(&w, &mut pos).unwrap();
    assert_eq!(back, addr);
    assert_eq!(pos, w.len());
    // octets go on the wire raw, then the port as a VLQ
    assert_eq!(&w[0..4], &[10, 1, 2, 3]);
}

#[test]
fn peer_addr_v6_is_refused() {
    let v6 = PeerAddr { ip: Ip::V6([1u8; 16]), port: 1 };
    let mut w: Vec<u8> = Vec::new();
    assert_eq!(
        v6.scorex_serialize(&mut w),
        Err(ScorexSerializationError::NotSupported)
    );
    assert!(w.is_empty());
}

#[test]
fn peer_addr_parse_errors() {
    let short: Vec<u8> = vec![1, 2, 3];
    let mut pos: usize = 0;
    assert_eq!(
        PeerAddr::scorex_parse(&short, &mut pos),
        Err(ScorexParsingError::TruncatedInput)
    );
    // a port that does not fit sixteen bits
    let mut w: Vec<u8> = vec![1, 2, 3, 4];
    ergotree::vlq::write_vlq(&mut w, 70_000);
    let mut pos2: usize = 0;
    assert_eq!(
        PeerAddr::scorex_parse(&w, &mut pos2),
        Err(ScorexParsingError::PortOutOfRange)
    );
}

#[test]
fn http_url_text_rendering() {
    let v4 = PeerAddr { ip: Ip::V4([127, 0, 0, 1]), port: 9030 };
    assert_eq!(v4.http_url_bytes(), b"http://127.0.0.1:9030".to_vec());
    let v6 = PeerAddr { ip: Ip::V6([0xfe, 0x80, 0, 0, 0, 0, 0, 0, 0, 0, 0, 0, 0, 0, 0, 1]), port: 80 };
    assert_eq!(v6.http_url_bytes(), b"http://[fe80:0:0:0:0:0:0:1]:80".to_vec());
}
