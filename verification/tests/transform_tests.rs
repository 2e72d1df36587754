use wasm_decompile::ir::{CmpOp, Expr, ExprKind, InferredType, UnaryOp};
use wasm_decompile::passes::simplify::{negate_compare, negate_condition};

#[test]
fn test_negate_eq() {
    let cond = Expr::new(ExprKind::Compare(
        CmpOp::Eq,
        Box::new(Expr::i32_const(1)),
        Box::new(Expr::i32_const(2)),
        InferredType::I32,
    ));
    let negated = negate_condition(cond);
    assert!(matches!(negated.kind, ExprKind::Compare(CmpOp::Ne, _, _, _)));
}

#[test]
fn test_negate_eqz() {
    let inner = Expr::i32_const(42);
    let cond = Expr::new(ExprKind::UnaryOp(UnaryOp::Eqz, Box::new(inner)));
    let negated = negate_condition(cond);
    assert!(matches!(negated.kind, ExprKind::I32Const(42)));
}

#[test]
fn negate_wraps_other_conditions_in_eqz() {
    let negated = negate_condition(Expr::local(3));
    match negated.kind {
        ExprKind::UnaryOp(UnaryOp::Eqz, inner) => assert!(matches!(inner.kind, ExprKind::Local(3))),
        _ => panic!("expected eqz"),
    }
    assert!(matches!(negated.ty, InferredType::Bool));
}

#[test]
fn negate_twice_restores_a_comparison() {
    let cond = Expr::new(ExprKind::Compare(
        CmpOp::LtU,
        Box::new(Expr::local(0)),
        Box::new(Expr::i32_const(10)),
        InferredType::I32,
    ));
    let twice = negate_condition(negate_condition(cond));
    assert!(matches!(twice.kind, ExprKind::Compare(CmpOp::LtU, _, _, _)));
}

#[test]
fn negated_comparisons_pair_up() {
    let pairs = [
        (CmpOp::Eq, CmpOp::Ne),
        (CmpOp::LtS, CmpOp::GeS),
        (CmpOp::LtU, CmpOp::GeU),
        (CmpOp::GtS, CmpOp::LeS),
        (CmpOp::GtU, CmpOp::LeU),
        (CmpOp::FEq, CmpOp::FNe),
        (CmpOp::FLt, CmpOp::FGe),
        (CmpOp::FGt, CmpOp::FLe),
    ];
    for (a, b) in pairs {
        assert_eq!(negate_compare(a), b);
        assert_eq!(negate_compare(b), a);
    }
}
