use wasm_decompile::ir::{
    BinOp, Block, CmpOp, ConvertOp, Expr, ExprKind, Function, InferredType, Module, Stmt, UnaryOp,
};
use wasm_decompile::passes::simplify::SimplifyPass;
use wasm_decompile::passes::PassContext;

fn module_with(stmts: Vec<Stmt>) -> Module {
    let mut m = Module::new();
    m.functions.push(Function {
        index: 0,
        name: None,
        params: vec![],
        results: vec![],
        locals: vec![],
        body: Block::with_stmts(stmts),
        is_import: false,
    });
    m
}

fn simplify(stmts: Vec<Stmt>) -> Vec<Stmt> {
    let mut m = module_with(stmts);
    let mut ctx = PassContext::new();
    SimplifyPass.run(&mut m, &mut ctx);
    m.functions.remove(0).body.stmts
}

fn bin(op: BinOp, a: Expr, b: Expr) -> Expr {
    Expr::with_type(ExprKind::BinOp(op, Box::new(a), Box::new(b)), InferredType::I32)
}

fn simplify_value(e: Expr) -> Expr {
    let mut out = simplify(vec![Stmt::LocalSet { local: 0, value: e }]);
    match out.remove(0) {
        Stmt::LocalSet { value, .. } => value,
        other => panic!("unexpected statement {:?}", other),
    }
}

fn as_i32(e: &Expr) -> Option<i32> {
    match e.kind {
        ExprKind::I32Const(v) => Some(v),
        _ => None,
    }
}

fn as_i64(e: &Expr) -> Option<i64> {
    match e.kind {
        ExprKind::I64Const(v) => Some(v),
        _ => None,
    }
}

#[test]
fn folds_i32_arithmetic_with_wrapping() {
    assert_eq!(as_i32(&simplify_value(bin(BinOp::Add, Expr::i32_const(i32::MAX), Expr::i32_const(1)))), Some(i32::MIN));
    assert_eq!(as_i32(&simplify_value(bin(BinOp::Sub, Expr::i32_const(3), Expr::i32_const(5)))), Some(-2));
    assert_eq!(as_i32(&simplify_value(bin(BinOp::Mul, Expr::i32_const(6), Expr::i32_const(7)))), Some(42));
    assert_eq!(as_i32(&simplify_value(bin(BinOp::DivS, Expr::i32_const(-7), Expr::i32_const(2)))), Some(-3));
    assert_eq!(as_i32(&simplify_value(bin(BinOp::DivS, Expr::i32_const(i32::MIN), Expr::i32_const(-1)))), Some(i32::MIN));
    assert_eq!(as_i32(&simplify_value(bin(BinOp::RemS, Expr::i32_const(-7), Expr::i32_const(2)))), Some(-1));
    assert_eq!(as_i32(&simplify_value(bin(BinOp::DivU, Expr::i32_const(-1), Expr::i32_const(2)))), Some(0x7fff_ffff));
    assert_eq!(as_i32(&simplify_value(bin(BinOp::RemU, Expr::i32_const(-1), Expr::i32_const(10)))), Some(5));
    assert_eq!(as_i32(&simplify_value(bin(BinOp::Shl, Expr::i32_const(1), Expr::i32_const(33)))), Some(2));
    assert_eq!(as_i32(&simplify_value(bin(BinOp::ShrS, Expr::i32_const(-8), Expr::i32_const(1)))), Some(-4));
    assert_eq!(as_i32(&simplify_value(bin(BinOp::ShrU, Expr::i32_const(-8), Expr::i32_const(28)))), Some(15));
    assert_eq!(as_i32(&simplify_value(bin(BinOp::Rotl, Expr::i32_const(0x8000_0001u32 as i32), Expr::i32_const(1)))), Some(3));
    assert_eq!(as_i32(&simplify_value(bin(BinOp::Rotr, Expr::i32_const(3), Expr::i32_const(1)))), Some(0x8000_0001u32 as i32));
    assert_eq!(as_i32(&simplify_value(bin(BinOp::And, Expr::i32_const(12), Expr::i32_const(10)))), Some(8));
    assert_eq!(as_i32(&simplify_value(bin(BinOp::Or, Expr::i32_const(12), Expr::i32_const(10)))), Some(14));
    assert_eq!(as_i32(&simplify_value(bin(BinOp::Xor, Expr::i32_const(12), Expr::i32_const(10)))), Some(6));
}

#[test]
fn division_by_zero_is_not_folded() {
    let e = simplify_value(bin(BinOp::DivS, Expr::i32_const(1), Expr::i32_const(0)));
    assert!(matches!(e.kind, ExprKind::BinOp(BinOp::DivS, _, _)));
    let e = simplify_value(bin(BinOp::RemU, Expr::i32_const(1), Expr::i32_const(0)));
    assert!(matches!(e.kind, ExprKind::BinOp(BinOp::RemU, _, _)));
}

#[test]
fn folds_i64_arithmetic() {
    let e = Expr::with_type(
        ExprKind::BinOp(BinOp::Mul, Box::new(Expr::i64_const(1 << 40)), Box::new(Expr::i64_const(1 << 30))),
        InferredType::I64,
    );
    assert_eq!(as_i64(&simplify_value(e)), Some(0));
    let e = Expr::with_type(
        ExprKind::BinOp(BinOp::Rotl, Box::new(Expr::i64_const(i64::MIN)), Box::new(Expr::i64_const(1))),
        InferredType::I64,
    );
    assert_eq!(as_i64(&simplify_value(e)), Some(1));
}

#[test]
fn algebraic_identities() {
    let x = || Expr::local(3);
    assert!(matches!(simplify_value(bin(BinOp::Add, x(), Expr::i32_const(0))).kind, ExprKind::Local(3)));
    assert!(matches!(simplify_value(bin(BinOp::Add, Expr::i32_const(0), x())).kind, ExprKind::Local(3)));
    assert!(matches!(simplify_value(bin(BinOp::Sub, Expr::i32_const(0), x())).kind, ExprKind::BinOp(BinOp::Sub, _, _)));
    assert_eq!(as_i32(&simplify_value(bin(BinOp::Mul, x(), Expr::i32_const(0)))), Some(0));
    assert!(matches!(simplify_value(bin(BinOp::Mul, Expr::i32_const(1), x())).kind, ExprKind::Local(3)));
    assert!(matches!(simplify_value(bin(BinOp::And, x(), Expr::i32_const(-1))).kind, ExprKind::Local(3)));
    assert_eq!(as_i32(&simplify_value(bin(BinOp::And, x(), Expr::i32_const(0)))), Some(0));
    assert!(matches!(simplify_value(bin(BinOp::Shl, x(), Expr::i32_const(0))).kind, ExprKind::Local(3)));
}

#[test]
fn folds_unary_operations() {
    let un = |op, v| Expr::with_type(ExprKind::UnaryOp(op, Box::new(Expr::i32_const(v))), InferredType::I32);
    assert_eq!(as_i32(&simplify_value(un(UnaryOp::Clz, 1))), Some(31));
    assert_eq!(as_i32(&simplify_value(un(UnaryOp::Clz, 0))), Some(32));
    assert_eq!(as_i32(&simplify_value(un(UnaryOp::Ctz, 8))), Some(3));
    assert_eq!(as_i32(&simplify_value(un(UnaryOp::Popcnt, -1))), Some(32));
    assert_eq!(as_i32(&simplify_value(un(UnaryOp::Eqz, 0))), Some(1));
    assert_eq!(as_i32(&simplify_value(un(UnaryOp::Eqz, 5))), Some(0));
    let e = Expr::with_type(ExprKind::UnaryOp(UnaryOp::Popcnt, Box::new(Expr::i64_const(0xff))), InferredType::I64);
    assert_eq!(as_i64(&simplify_value(e)), Some(8));
}

#[test]
fn folds_comparisons() {
    let cmp = |op, a, b| {
        Expr::with_type(
            ExprKind::Compare(op, Box::new(Expr::i32_const(a)), Box::new(Expr::i32_const(b)), InferredType::I32),
            InferredType::Bool,
        )
    };
    assert_eq!(as_i32(&simplify_value(cmp(CmpOp::LtS, -1, 0))), Some(1));
    assert_eq!(as_i32(&simplify_value(cmp(CmpOp::LtU, -1, 0))), Some(0));
    assert_eq!(as_i32(&simplify_value(cmp(CmpOp::GeU, -1, 0))), Some(1));
    assert_eq!(as_i32(&simplify_value(cmp(CmpOp::Eq, 4, 4))), Some(1));
    assert_eq!(as_i32(&simplify_value(cmp(CmpOp::Ne, 4, 4))), Some(0));
}

#[test]
fn folds_integer_conversions() {
    let conv = |op, e| Expr::with_type(ExprKind::Convert { op, expr: Box::new(e) }, InferredType::Unknown);
    assert_eq!(as_i64(&simplify_value(conv(ConvertOp::I64ExtendI32S, Expr::i32_const(-1)))), Some(-1));
    assert_eq!(as_i64(&simplify_value(conv(ConvertOp::I64ExtendI32U, Expr::i32_const(-1)))), Some(0xffff_ffff));
    assert_eq!(as_i32(&simplify_value(conv(ConvertOp::I32WrapI64, Expr::i64_const(0x1_0000_0005)))), Some(5));
    assert_eq!(as_i32(&simplify_value(conv(ConvertOp::I32Extend8S, Expr::i32_const(0x80)))), Some(-128));
    assert_eq!(as_i32(&simplify_value(conv(ConvertOp::I32ReinterpretF32, Expr::f32_const(1.0f32.to_bits())))), Some(0x3f80_0000));
    let f = simplify_value(conv(ConvertOp::F64ReinterpretI64, Expr::i64_const(2.5f64.to_bits() as i64)));
    assert!(matches!(f.kind, ExprKind::F64Const(bits) if bits == 2.5f64.to_bits()));
}

#[test]
fn select_on_constant_condition() {
    let sel = |c| {
        Expr::with_type(
            ExprKind::Select {
                cond: Box::new(Expr::i32_const(c)),
                then_val: Box::new(Expr::local(1)),
                else_val: Box::new(Expr::local(2)),
            },
            InferredType::I32,
        )
    };
    assert!(matches!(simplify_value(sel(7)).kind, ExprKind::Local(1)));
    assert!(matches!(simplify_value(sel(0)).kind, ExprKind::Local(2)));
}

#[test]
fn removes_dead_statements() {
    let call = Expr::with_type(ExprKind::Call { func: 0, args: vec![] }, InferredType::Unknown);
    let out = simplify(vec![
        Stmt::Nop,
        Stmt::Drop(Expr::local(0)),
        Stmt::Drop(call),
        Stmt::Expr(bin(BinOp::Add, Expr::local(0), Expr::i32_const(1))),
        Stmt::Unreachable,
    ]);
    assert_eq!(out.len(), 2);
    assert!(matches!(out[0], Stmt::Drop(_)));
    assert!(matches!(out[1], Stmt::Unreachable));
}

#[test]
fn block_opening_with_forward_branch_becomes_if() {
    let cond = Expr::with_type(
        ExprKind::Compare(CmpOp::LtS, Box::new(Expr::local(0)), Box::new(Expr::i32_const(2)), InferredType::I32),
        InferredType::Bool,
    );
    let out = simplify(vec![Stmt::Block {
        label: 0,
        body: Block::with_stmts(vec![
            Stmt::BrIf { label: 0, cond, is_loop: false },
            Stmt::LocalSet { local: 1, value: Expr::i32_const(5) },
        ]),
    }]);
    assert_eq!(out.len(), 1);
    match &out[0] {
        Stmt::If { cond, then_block, else_block } => {
            assert!(matches!(cond.kind, ExprKind::Compare(CmpOp::GeS, _, _, _)));
            assert!(matches!(cond.ty, InferredType::Bool));
            assert_eq!(then_block.stmts.len(), 1);
            assert!(else_block.is_none());
        },
        other => panic!("unexpected statement {:?}", other),
    }
}

#[test]
fn block_with_other_branch_to_its_label_is_kept() {
    let out = simplify(vec![Stmt::Block {
        label: 4,
        body: Block::with_stmts(vec![
            Stmt::BrIf { label: 4, cond: Expr::local(0), is_loop: false },
            Stmt::Br { label: 4, is_loop: false },
        ]),
    }]);
    assert!(matches!(out[0], Stmt::Block { label: 4, .. }));
    let out = simplify(vec![Stmt::Block {
        label: 4,
        body: Block::with_stmts(vec![
            Stmt::BrIf { label: 4, cond: Expr::local(0), is_loop: false },
            Stmt::Drop(Expr::with_type(ExprKind::Call { func: 1, args: vec![] }, InferredType::Unknown)),
        ]),
    }]);
    match &out[0] {
        Stmt::If { cond, .. } => assert!(matches!(cond.kind, ExprKind::UnaryOp(UnaryOp::Eqz, _))),
        other => panic!("unexpected statement {:?}", other),
    }
}

#[test]
fn negating_an_eqz_condition_drops_it() {
    let eqz = Expr::with_type(ExprKind::UnaryOp(UnaryOp::Eqz, Box::new(Expr::local(9))), InferredType::Bool);
    let out = simplify(vec![Stmt::Block {
        label: 1,
        body: Block::with_stmts(vec![
            Stmt::BrIf { label: 1, cond: eqz, is_loop: false },
            Stmt::Return(None),
        ]),
    }]);
    match &out[0] {
        Stmt::If { cond, .. } => assert!(matches!(cond.kind, ExprKind::Local(9))),
        other => panic!("unexpected statement {:?}", other),
    }
}

#[test]
fn imports_are_left_alone() {
    let mut m = module_with(vec![Stmt::Nop]);
    m.functions[0].is_import = true;
    let mut ctx = PassContext::new();
    SimplifyPass.run(&mut m, &mut ctx);
    assert_eq!(m.functions[0].body.stmts.len(), 1);
}
