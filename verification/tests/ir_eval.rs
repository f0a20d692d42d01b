//! Evaluator behaviour: equality, laziness, checked arithmetic, ordering,
//! cost accounting and context access.

use ergotree::eval::{
    Context, ContextExtension, Env, EvalContext, EvalError, COST_BINOP, COST_CONST,
};
use ergotree::expr::{ArithOp, BinOp, BinOpKind, Expr, GetVar, GlobalVars, If, RelationOp};
use ergotree::stype::SType;
use ergotree::value::{Constant, TypeError, Value};

fn test_ctx() -> EvalContext {
    EvalContext::new(
        Context { height: 0, extension: ContextExtension { values: vec![] } },
        1_000_000,
    )
}

fn const_bool(v: bool) -> Constant {
    Constant { tpe: SType::SBoolean, v: Value::Boolean(v) }
}

fn const_byte(v: i8) -> Constant {
    Constant { tpe: SType::SByte, v: Value::Byte(v) }
}

fn const_short(v: i16) -> Constant {
    Constant { tpe: SType::SShort, v: Value::Short(v) }
}

fn const_int(v: i32) -> Constant {
    Constant { tpe: SType::SInt, v: Value::Int(v) }
}

fn const_long(v: i64) -> Constant {
    Constant { tpe: SType::SLong, v: Value::Long(v) }
}

fn bin(kind: BinOpKind, left: Expr, right: Expr) -> Expr {
    Expr::BinOp(BinOp { kind, left: Box::new(left), right: Box::new(right) })
}

fn eval_out_long(expr: &Expr) -> i64 {
    match expr.eval(&Env::empty(), &mut test_ctx()) {
        Ok(Value::Long(v)) => v,
        other => panic!("expected a long result, got {:?}", other),
    }
}

fn eval_out_bool(expr: &Expr) -> bool {
    match expr.eval(&Env::empty(), &mut test_ctx()) {
        Ok(Value::Boolean(v)) => v,
        other => panic!("expected a boolean result, got {:?}", other),
    }
}

fn eval_err(expr: &Expr) -> EvalError {
    match expr.eval(&Env::empty(), &mut test_ctx()) {
        Err(e) => e,
        other => panic!("expected an error, got {:?}", other),
    }
}

fn check_eq_neq(left: Constant, right: Constant) -> bool {
    let eq_op: Expr = bin(
        BinOpKind::Relation(RelationOp::Eq),
        Expr::Const(left.clone()),
        Expr::Const(right.clone()),
    );
    let neq_op: Expr = bin(
        BinOpKind::Relation(RelationOp::NEq),
        Expr::Const(left),
        Expr::Const(right),
    );
    eval_out_bool(&eq_op) && !eval_out_bool(&neq_op)
}

fn div_blowup_long() -> Expr {
    bin(
        BinOpKind::Arith(ArithOp::Divide),
        Expr::Const(const_long(1)),
        Expr::Const(const_long(0)),
    )
}

fn div_blowup_int() -> Expr {
    bin(
        BinOpKind::Arith(ArithOp::Divide),
        Expr::Const(const_int(1)),
        Expr::Const(const_int(0)),
    )
}

#[test]
fn eval() {
    let expr: Expr = Expr::If(If {
        condition: Box::new(Expr::Const(const_bool(true))),
        true_branch: Box::new(Expr::Const(const_long(1))),
        false_branch: Box::new(Expr::Const(const_long(2))),
    });
    let res = eval_out_long(&expr);
    assert_eq!(res, 1);
}

#[test]
fn eval_laziness_true_branch() {
    let expr: Expr = Expr::If(If {
        condition: Box::new(Expr::Const(const_bool(true))),
        true_branch: Box::new(Expr::Const(const_long(1))),
        false_branch: Box::new(div_blowup_long()),
    });
    let res = eval_out_long(&expr);
    assert_eq!(res, 1);
}

#[test]
fn eval_laziness_false_branch() {
    let expr: Expr = Expr::If(If {
        condition: Box::new(Expr::Const(const_bool(false))),
        true_branch: Box::new(div_blowup_long()),
        false_branch: Box::new(Expr::Const(const_long(1))),
    });
    let res = eval_out_long(&expr);
    assert_eq!(res, 1);
}

#[test]
fn num_eq() {
    assert!(check_eq_neq(const_long(1), const_long(1)));
}

#[test]
fn num_neq() {
    assert!(!check_eq_neq(const_long(2), const_long(1)));
}

fn opt_long(v: Option<i64>) -> Constant {
    Constant {
        tpe: SType::SOption(Box::new(SType::SLong)),
        v: Value::Opt(v.map(|x| Box::new(Value::Long(x)))),
    }
}

fn coll_byte(items: Vec<i8>) -> Value {
    Value::Coll {
        elem_tpe: SType::SByte,
        items: items.into_iter().map(Value::Byte).collect(),
    }
}

fn opt_coll_byte(v: Option<Vec<i8>>) -> Constant {
    Constant {
        tpe: SType::SOption(Box::new(SType::SColl(Box::new(SType::SByte)))),
        v: Value::Opt(v.map(|x| Box::new(coll_byte(x)))),
    }
}

fn coll_opt_long(items: Vec<Option<i64>>) -> Constant {
    Constant {
        tpe: SType::SColl(Box::new(SType::SOption(Box::new(SType::SLong)))),
        v: Value::Coll {
            elem_tpe: SType::SOption(Box::new(SType::SLong)),
            items: items
                .into_iter()
                .map(|o| Value::Opt(o.map(|x| Box::new(Value::Long(x)))))
                .collect(),
        },
    }
}

#[test]
fn option_eq() {
    assert!(check_eq_neq(opt_long(Some(1)), opt_long(Some(1))));
    let none: Option<i64> = None;
    assert!(check_eq_neq(opt_long(none), opt_long(none)));
    // Option<Vec<i8>>
    assert!(check_eq_neq(
        opt_coll_byte(Some(vec![1i8, 2i8])),
        opt_coll_byte(Some(vec![1i8, 2i8]))
    ));
    // Vec<Option<i64>>
    assert!(check_eq_neq(
        coll_opt_long(vec![Some(1i64), Some(1i64)]),
        coll_opt_long(vec![Some(1i64), Some(1i64)])
    ));
}

#[test]
fn option_neq() {
    assert!(!check_eq_neq(opt_long(Some(2)), opt_long(Some(1))));
    let none: Option<i64> = None;
    assert!(!check_eq_neq(opt_long(none), opt_long(Some(1))));
    // Option<Vec<i8>>
    assert!(!check_eq_neq(
        opt_coll_byte(Some(vec![1i8, 2i8])),
        opt_coll_byte(Some(vec![2i8, 2i8]))
    ));
    // Vec<Option<i64>>
    assert!(!check_eq_neq(
        coll_opt_long(vec![Some(1i64), Some(1i64)]),
        coll_opt_long(vec![Some(2i64), Some(1i64)])
    ));
}

fn tuple_long_bool(a: i64, b: bool) -> Constant {
    Constant {
        tpe: SType::STuple(vec![SType::SLong, SType::SBoolean]),
        v: Value::Tuple(vec![Value::Long(a), Value::Boolean(b)]),
    }
}

#[test]
fn tuple_eq() {
    assert!(check_eq_neq(tuple_long_bool(1, true), tuple_long_bool(1, true)));
}

#[test]
fn bin_or_eval_laziness() {
    let e: Expr = bin(
        BinOpKind::Relation(RelationOp::Or),
        Expr::Const(const_bool(true)),
        // something that should blow-up the evaluation
        div_blowup_int(),
    );
    assert_eq!(eval_out_bool(&e), true);
}

#[test]
fn bin_and_eval_laziness() {
    let e: Expr = bin(
        BinOpKind::Relation(RelationOp::And),
        Expr::Const(const_bool(false)),
        // something that should blow-up the evaluation
        div_blowup_int(),
    );
    assert_eq!(eval_out_bool(&e), false);
}

#[test]
fn plus_exact_values() {
    let e = bin(
        BinOpKind::Arith(ArithOp::Plus),
        Expr::Const(const_long(40)),
        Expr::Const(const_long(2)),
    );
    assert_eq!(eval_out_long(&e), 42);
}

#[test]
fn arith_all_widths() {
    let ctx = |e: &Expr| e.eval(&Env::empty(), &mut test_ctx());
    let b = bin(
        BinOpKind::Arith(ArithOp::Minus),
        Expr::Const(const_byte(5)),
        Expr::Const(const_byte(7)),
    );
    assert_eq!(ctx(&b), Ok(Value::Byte(-2)));
    let s = bin(
        BinOpKind::Arith(ArithOp::Multiply),
        Expr::Const(const_short(12)),
        Expr::Const(const_short(3)),
    );
    assert_eq!(ctx(&s), Ok(Value::Short(36)));
    let i = bin(
        BinOpKind::Arith(ArithOp::Divide),
        Expr::Const(const_int(-7)),
        Expr::Const(const_int(2)),
    );
    // division truncates toward zero
    assert_eq!(ctx(&i), Ok(Value::Int(-3)));
    let mx = bin(
        BinOpKind::Arith(ArithOp::Max),
        Expr::Const(const_long(-5)),
        Expr::Const(const_long(3)),
    );
    assert_eq!(ctx(&mx), Ok(Value::Long(3)));
    let mn = bin(
        BinOpKind::Arith(ArithOp::Min),
        Expr::Const(const_long(-5)),
        Expr::Const(const_long(3)),
    );
    assert_eq!(ctx(&mn), Ok(Value::Long(-5)));
}

#[test]
fn relational_agreement() {
    for (l, r) in [(1i64, 2i64), (2, 1), (3, 3), (i64::MIN, i64::MAX)] {
        let gt = bin(
            BinOpKind::Relation(RelationOp::GT),
            Expr::Const(const_long(l)),
            Expr::Const(const_long(r)),
        );
        assert_eq!(eval_out_bool(&gt), l > r);
        let lt = bin(
            BinOpKind::Relation(RelationOp::LT),
            Expr::Const(const_long(l)),
            Expr::Const(const_long(r)),
        );
        assert_eq!(eval_out_bool(&lt), l < r);
        let ge = bin(
            BinOpKind::Relation(RelationOp::GE),
            Expr::Const(const_long(l)),
            Expr::Const(const_long(r)),
        );
        assert_eq!(eval_out_bool(&ge), l >= r);
        let le = bin(
            BinOpKind::Relation(RelationOp::LE),
            Expr::Const(const_long(l)),
            Expr::Const(const_long(r)),
        );
        assert_eq!(eval_out_bool(&le), l <= r);
    }
}

#[test]
fn overflow_is_arithmetic_exception_long() {
    let e = bin(
        BinOpKind::Arith(ArithOp::Plus),
        Expr::Const(const_long(i64::MAX)),
        Expr::Const(const_long(1)),
    );
    assert_eq!(eval_err(&e), EvalError::ArithmeticException);
}

#[test]
fn overflow_is_arithmetic_exception_int() {
    let e = bin(
        BinOpKind::Arith(ArithOp::Plus),
        Expr::Const(const_int(i32::MAX)),
        Expr::Const(const_int(1)),
    );
    assert_eq!(eval_err(&e), EvalError::ArithmeticException);
}

#[test]
fn division_by_zero_every_width() {
    let cases = vec![
        bin(
            BinOpKind::Arith(ArithOp::Divide),
            Expr::Const(const_byte(1)),
            Expr::Const(const_byte(0)),
        ),
        bin(
            BinOpKind::Arith(ArithOp::Divide),
            Expr::Const(const_short(1)),
            Expr::Const(const_short(0)),
        ),
        div_blowup_int(),
        div_blowup_long(),
    ];
    for e in &cases {
        assert_eq!(eval_err(e), EvalError::ArithmeticException);
    }
}

#[test]
fn mixed_width_operands_are_unexpected() {
    let e = bin(
        BinOpKind::Arith(ArithOp::Plus),
        Expr::Const(const_int(1)),
        Expr::Const(const_long(1)),
    );
    assert_eq!(eval_err(&e), EvalError::UnexpectedValue);
    let c = bin(
        BinOpKind::Relation(RelationOp::GT),
        Expr::Const(const_bool(true)),
        Expr::Const(const_bool(false)),
    );
    assert_eq!(eval_err(&c), EvalError::UnexpectedValue);
}

#[test]
fn cost_ceiling_stops_evaluation() {
    let e = bin(
        BinOpKind::Arith(ArithOp::Plus),
        Expr::Const(const_long(1)),
        Expr::Const(const_long(2)),
    );
    let mut ec = EvalContext::new(
        Context { height: 0, extension: ContextExtension { values: vec![] } },
        (COST_BINOP + COST_CONST) - 1,
    );
    assert_eq!(e.eval(&Env::empty(), &mut ec), Err(EvalError::CostExceeded));
}

#[test]
fn cost_accumulates_per_visited_node() {
    let e = bin(
        BinOpKind::Arith(ArithOp::Plus),
        Expr::Const(const_long(1)),
        Expr::Const(const_long(2)),
    );
    let mut ec = test_ctx();
    e.eval(&Env::empty(), &mut ec).unwrap();
    assert_eq!(ec.cost_accum.cost, COST_BINOP + 2 * COST_CONST);
    // the short-circuited right operand of And is never charged
    let lazy = bin(
        BinOpKind::Relation(RelationOp::And),
        Expr::Const(const_bool(false)),
        Expr::Const(const_bool(true)),
    );
    let mut ec2 = test_ctx();
    lazy.eval(&Env::empty(), &mut ec2).unwrap();
    assert_eq!(ec2.cost_accum.cost, COST_BINOP + COST_CONST);
}

#[test]
fn height_reads_context() {
    let mut ec = EvalContext::new(
        Context { height: 1234, extension: ContextExtension { values: vec![] } },
        1_000_000,
    );
    let e = Expr::GlobalVars(GlobalVars::Height);
    assert_eq!(e.eval(&Env::empty(), &mut ec), Ok(Value::Int(1234)));
}

#[test]
fn get_var_probes_extension() {
    let mut ec = EvalContext::new(
        Context {
            height: 0,
            extension: ContextExtension { values: vec![(7, const_long(9))] },
        },
        1_000_000,
    );
    let found = Expr::GetVar(GetVar { var_id: 7, var_tpe: SType::SLong });
    assert_eq!(
        found.eval(&Env::empty(), &mut ec),
        Ok(Value::Opt(Some(Box::new(Value::Long(9)))))
    );
    let absent = Expr::GetVar(GetVar { var_id: 8, var_tpe: SType::SLong });
    assert_eq!(absent.eval(&Env::empty(), &mut ec), Ok(Value::Opt(None)));
    let wrong_type = Expr::GetVar(GetVar { var_id: 7, var_tpe: SType::SInt });
    assert_eq!(
        wrong_type.eval(&Env::empty(), &mut ec),
        Err(EvalError::UnexpectedValue)
    );
}

#[test]
fn smart_constructors_reject_mismatches() {
    assert!(BinOp::new(
        BinOpKind::Arith(ArithOp::Plus),
        Expr::Const(const_long(1)),
        Expr::Const(const_long(2))
    )
    .is_ok());
    assert_eq!(
        BinOp::new(
            BinOpKind::Arith(ArithOp::Plus),
            Expr::Const(const_long(1)),
            Expr::Const(const_int(2))
        ),
        Err(TypeError)
    );
    assert_eq!(
        BinOp::new(
            BinOpKind::Relation(RelationOp::And),
            Expr::Const(const_bool(true)),
            Expr::Const(const_long(2))
        ),
        Err(TypeError)
    );
    assert!(If::new(
        Expr::Const(const_bool(true)),
        Expr::Const(const_long(1)),
        Expr::Const(const_long(2))
    )
    .is_ok());
    assert_eq!(
        If::new(
            Expr::Const(const_long(1)),
            Expr::Const(const_long(1)),
            Expr::Const(const_long(2))
        ),
        Err(TypeError)
    );
    assert_eq!(
        If::new(
            Expr::Const(const_bool(true)),
            Expr::Const(const_long(1)),
            Expr::Const(const_int(2))
        ),
        Err(TypeError)
    );
    assert!(Constant::new(SType::SLong, Value::Long(5)).is_ok());
    assert_eq!(Constant::new(SType::SLong, Value::Int(5)), Err(TypeError));
}

#[test]
fn types_of_nodes() {
    assert_eq!(GlobalVars::Height.tpe(), SType::SInt);
    let arith = BinOp {
        kind: BinOpKind::Arith(ArithOp::Plus),
        left: Box::new(Expr::Const(const_long(1))),
        right: Box::new(Expr::Const(const_long(2))),
    };
    assert_eq!(arith.tpe(), SType::SLong);
    assert_eq!(arith.op_code(), ergotree::expr::OP_PLUS);
    let rel = BinOp {
        kind: BinOpKind::Relation(RelationOp::GT),
        left: Box::new(Expr::Const(const_long(1))),
        right: Box::new(Expr::Const(const_long(2))),
    };
    assert_eq!(rel.tpe(), SType::SBoolean);
    let iff = If {
        condition: Box::new(Expr::Const(const_bool(true))),
        true_branch: Box::new(Expr::Const(const_long(1))),
        false_branch: Box::new(Expr::Const(const_long(2))),
    };
    assert_eq!(iff.tpe(), SType::SLong);
    assert_eq!(iff.op_code(), ergotree::expr::OP_IF);
}

#[test]
fn env_lookup_first_binding_wins() {
    let env = Env::new(vec![
        (1, Value::Long(10)),
        (1, Value::Long(20)),
        (2, Value::Boolean(true)),
    ]);
    assert_eq!(env.get(1), Some(&Value::Long(10)));
    assert_eq!(env.get(2), Some(&Value::Boolean(true)));
    assert_eq!(env.get(3), None);
    assert!(Env::empty().get(1).is_none());
}
