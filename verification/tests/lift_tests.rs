use wasm_decompile::disasm::decode::BlockTypeOperand;
use wasm_decompile::ir::{
    BinOp, CmpOp, Expr, ExprKind, FuncType, MemSize, Module, Stmt, ValType,
};
use wasm_decompile::lift::{lift_function, FunctionLifter, LiftError, LiftOp};

fn module_with_type(params: Vec<ValType>, results: Vec<ValType>) -> Module {
    let mut m = Module::new();
    m.types.push(FuncType { params, results });
    m.func_types.push(0);
    m
}

#[test]
fn lifts_an_add_and_returns_it() {
    let m = module_with_type(vec![ValType::I32, ValType::I32], vec![ValType::I32]);
    let ops = vec![
        LiftOp::LocalGet(0),
        LiftOp::LocalGet(1),
        LiftOp::Binary { op: BinOp::Add, ty: ValType::I32 },
        LiftOp::End,
    ];
    let f = lift_function(&m, 0, vec![], &ops, Some("add".to_string())).unwrap();
    assert_eq!(f.index, 0);
    assert_eq!(f.name.as_deref(), Some("add"));
    assert_eq!(f.params, vec![ValType::I32, ValType::I32]);
    assert_eq!(f.body.stmts.len(), 1);
    match &f.body.stmts[0] {
        Stmt::Return(Some(e)) => match &e.kind {
            ExprKind::BinOp(BinOp::Add, a, b) => {
                assert!(matches!(a.kind, ExprKind::Local(0)));
                assert!(matches!(b.kind, ExprKind::Local(1)));
            }
            _ => panic!("expected an add"),
        },
        _ => panic!("expected a return"),
    }
}

#[test]
fn missing_types_are_reported() {
    let m = Module::new();
    assert_eq!(lift_function(&m, 3, vec![], &vec![], None).err(), Some(LiftError::MissingFuncType(3)));
    let mut m2 = Module::new();
    m2.func_types.push(7);
    assert_eq!(lift_function(&m2, 0, vec![], &vec![], None).err(), Some(LiftError::MissingType(7)));
}

#[test]
fn local_set_saves_a_pending_read() {
    // local.get 0 ; i32.const 1 ; local.set 0 ; (the pending read of local 0 must survive)
    let m = module_with_type(vec![ValType::I32], vec![ValType::I32]);
    let ops = vec![LiftOp::LocalGet(0), LiftOp::I32Const(1), LiftOp::LocalSet(0), LiftOp::End];
    let f = lift_function(&m, 0, vec![], &ops, None).unwrap();
    assert_eq!(f.body.stmts.len(), 3);
    match &f.body.stmts[0] {
        Stmt::LocalSet { local, value } => {
            assert_eq!(*local, 0x7fff_ffff);
            assert!(matches!(value.kind, ExprKind::Local(0)));
        }
        _ => panic!("expected the saving assignment"),
    }
    assert!(matches!(&f.body.stmts[1], Stmt::LocalSet { local: 0, .. }));
    match &f.body.stmts[2] {
        Stmt::Return(Some(e)) => assert!(matches!(e.kind, ExprKind::Local(0x7fff_ffff))),
        _ => panic!("expected a return of the saved value"),
    }
}

#[test]
fn structured_blocks_nest() {
    let types: Vec<FuncType> = vec![];
    let ft: Vec<u32> = vec![];
    let mut l = FunctionLifter::new(0, &types, &ft);
    for op in [
        LiftOp::Block(BlockTypeOperand::Empty),
        LiftOp::Loop(BlockTypeOperand::Empty),
        LiftOp::LocalGet(0),
        LiftOp::BrIf(1),
        LiftOp::Br(0),
        LiftOp::End,
        LiftOp::End,
    ] {
        l.process_op(&op);
    }
    let body = l.finish();
    assert_eq!(body.stmts.len(), 1);
    match &body.stmts[0] {
        Stmt::Block { label: 0, body } => match &body.stmts[0] {
            Stmt::Loop { label: 1, body } => {
                assert!(matches!(&body.stmts[0], Stmt::BrIf { label: 0, is_loop: false, .. }));
                assert!(matches!(&body.stmts[1], Stmt::Br { label: 1, is_loop: true }));
            }
            _ => panic!("expected the loop"),
        },
        _ => panic!("expected the block"),
    }
}

#[test]
fn if_else_with_results_assigns_temporaries() {
    let types: Vec<FuncType> = vec![];
    let ft: Vec<u32> = vec![];
    let mut l = FunctionLifter::new(0, &types, &ft);
    for op in [
        LiftOp::LocalGet(0),
        LiftOp::If(BlockTypeOperand::Value(0x7f)),
        LiftOp::I32Const(10),
        LiftOp::Else,
        LiftOp::I32Const(20),
        LiftOp::End,
        LiftOp::Drop,
    ] {
        l.process_op(&op);
    }
    let body = l.finish();
    assert_eq!(body.stmts.len(), 2);
    match &body.stmts[0] {
        Stmt::If { cond, then_block, else_block: Some(else_block) } => {
            assert!(matches!(cond.kind, ExprKind::Local(0)));
            assert!(matches!(&then_block.stmts[0], Stmt::LocalSet { local: 0x7fff_ffff, value } if matches!(value.kind, ExprKind::I32Const(10))));
            assert!(matches!(&else_block.stmts[0], Stmt::LocalSet { local: 0x7fff_ffff, value } if matches!(value.kind, ExprKind::I32Const(20))));
        }
        _ => panic!("expected an if with both branches"),
    }
    match &body.stmts[1] {
        Stmt::Drop(e) => assert!(matches!(e.kind, ExprKind::Local(0x7fff_ffff))),
        _ => panic!("expected the drop of the result"),
    }
}

#[test]
fn calls_take_their_arguments() {
    let mut m = Module::new();
    m.types.push(FuncType { params: vec![ValType::I32, ValType::I32], results: vec![] });
    m.func_types.push(0);
    m.func_types.push(0);
    let ops = vec![
        LiftOp::I32Const(5),
        LiftOp::I32Const(1),
        LiftOp::I32Const(2),
        LiftOp::Call(1),
        LiftOp::End,
    ];
    let f = lift_function(&m, 0, vec![], &ops, None).unwrap();
    // the call returns nothing, so it is a statement; the 5 left over is returned
    match &f.body.stmts[0] {
        Stmt::Expr(e) => match &e.kind {
            ExprKind::Call { func: 1, args } => assert_eq!(args.len(), 2),
            _ => panic!("expected the call"),
        },
        _ => panic!("expected a call statement"),
    }
    assert!(matches!(&f.body.stmts[1], Stmt::Return(Some(e)) if matches!(e.kind, ExprKind::I32Const(5))));
}

#[test]
fn loads_stores_and_compares() {
    let types: Vec<FuncType> = vec![];
    let ft: Vec<u32> = vec![];
    let mut l = FunctionLifter::new(0, &types, &ft);
    for op in [
        LiftOp::I32Const(8),
        LiftOp::I32Const(16),
        LiftOp::Load { size: MemSize::I8, signed: true, offset: 4 },
        LiftOp::Store { size: MemSize::I32, offset: 0 },
        LiftOp::LocalGet(2),
        LiftOp::I32Const(0),
        LiftOp::Compare { op: CmpOp::LtS, ty: ValType::I32 },
        LiftOp::Drop,
        LiftOp::Select,
    ] {
        l.process_op(&op);
    }
    let body = l.finish();
    match &body.stmts[0] {
        Stmt::Store { addr, offset: 0, value, size: MemSize::I32 } => {
            assert!(matches!(addr.kind, ExprKind::I32Const(8)));
            assert!(matches!(&value.kind, ExprKind::Load { offset: 4, size: MemSize::I8, signed: true, .. }));
        }
        _ => panic!("expected the store"),
    }
    match &body.stmts[1] {
        Stmt::Drop(e) => assert!(matches!(e.kind, ExprKind::Compare(CmpOp::LtS, _, _, _))),
        _ => panic!("expected the drop"),
    }
    // select on an empty stack reads zeros
    match &body.stmts[2] {
        Stmt::Return(Some(e)) => assert!(matches!(e.kind, ExprKind::Select { .. })),
        _ => panic!("expected the select to be returned"),
    }
    let _ = Expr::i32_const(0);
}
