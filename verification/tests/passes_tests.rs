use wasm_decompile::ir::{BinOp, Block, Expr, ExprKind, Function, InferredType, MemSize, Module, Stmt, ValType};
use wasm_decompile::passes::mem_resolve::MemResolvePass;
use wasm_decompile::passes::type_infer::{convert_result_type, TypeInferPass};
use wasm_decompile::passes::unblockify::UnblockifyPass;
use wasm_decompile::passes::PassContext;
use wasm_decompile::ir::ConvertOp;

fn function(params: Vec<ValType>, locals: Vec<ValType>, stmts: Vec<Stmt>) -> Function {
    Function {
        index: 7,
        name: None,
        params,
        results: vec![],
        locals,
        body: Block::with_stmts(stmts),
        is_import: false,
    }
}

fn lookup(ctx: &PassContext, f: u32, l: u32) -> Option<&InferredType> {
    ctx.var_types.iter().rev().find(|(a, b, _)| *a == f && *b == l).map(|(_, _, t)| t)
}

#[test]
fn records_parameter_local_and_assigned_types() {
    let value = Expr::with_type(
        ExprKind::BinOp(BinOp::Add, Box::new(Expr::i64_const(1)), Box::new(Expr::local(0))),
        InferredType::Unknown,
    );
    let mut m = Module::new();
    m.functions.push(function(vec![ValType::I32, ValType::F64], vec![ValType::F32], vec![Stmt::LocalSet { local: 5, value }]));
    let mut ctx = PassContext::new();
    TypeInferPass.run(&mut m, &mut ctx);
    assert_eq!(lookup(&ctx, 7, 0), Some(&InferredType::I32));
    assert_eq!(lookup(&ctx, 7, 1), Some(&InferredType::F64));
    assert_eq!(lookup(&ctx, 7, 2), Some(&InferredType::F32));
    assert_eq!(lookup(&ctx, 7, 5), Some(&InferredType::I64));
    match &m.functions[0].body.stmts[0] {
        Stmt::LocalSet { value, .. } => assert_eq!(value.ty, InferredType::I64),
        other => panic!("unexpected statement {:?}", other),
    }
}

#[test]
fn infers_expression_types() {
    let load = Expr::with_type(
        ExprKind::Load { addr: Box::new(Expr::i32_const(0)), offset: 0, size: MemSize::F64, signed: false },
        InferredType::Unknown,
    );
    let eqz = Expr::with_type(
        ExprKind::UnaryOp(wasm_decompile::ir::UnaryOp::Eqz, Box::new(Expr::local(0))),
        InferredType::Unknown,
    );
    let fadd = Expr::with_type(
        ExprKind::BinOp(BinOp::FAdd, Box::new(Expr::local(0)), Box::new(Expr::local(1))),
        InferredType::Unknown,
    );
    let mut m = Module::new();
    m.functions.push(function(vec![], vec![], vec![Stmt::Drop(load), Stmt::Drop(eqz), Stmt::Drop(fadd)]));
    let mut ctx = PassContext::new();
    TypeInferPass.run(&mut m, &mut ctx);
    let tys: Vec<InferredType> = m.functions[0]
        .body
        .stmts
        .iter()
        .map(|s| match s {
            Stmt::Drop(e) => e.ty.duplicate(),
            _ => InferredType::Unknown,
        })
        .collect();
    assert_eq!(tys, vec![InferredType::F64, InferredType::Bool, InferredType::F64]);
}

#[test]
fn conversion_result_types() {
    assert_eq!(convert_result_type(ConvertOp::I32WrapI64), InferredType::I32);
    assert_eq!(convert_result_type(ConvertOp::I64ExtendI32U), InferredType::I64);
    assert_eq!(convert_result_type(ConvertOp::F32DemoteF64), InferredType::F32);
    assert_eq!(convert_result_type(ConvertOp::F64ConvertI32S), InferredType::F64);
}

#[test]
fn resolves_string_pointer_pairs_in_calls() {
    let mut m = Module::new();
    let mut memory = vec![0u8; 16];
    memory.extend_from_slice(b"hello there");
    m.memory = memory;
    let call = Expr::with_type(
        ExprKind::Call { func: 3, args: vec![Expr::i32_const(16), Expr::i32_const(11), Expr::local(0)] },
        InferredType::Unknown,
    );
    m.functions.push(function(vec![], vec![], vec![Stmt::Drop(call)]));
    let mut ctx = PassContext::new();
    MemResolvePass.run(&mut m, &mut ctx);
    match &m.functions[0].body.stmts[0] {
        Stmt::Drop(Expr { kind: ExprKind::Call { args, .. }, .. }) => {
            assert_eq!(args.len(), 2);
            assert!(matches!(&args[0].kind, ExprKind::StringLiteral(s) if s == "hello there"));
            assert!(matches!(args[1].kind, ExprKind::Local(0)));
        },
        other => panic!("unexpected statement {:?}", other),
    }
}

#[test]
fn resolves_go_strings() {
    let mut m = Module::new();
    m.memory = b"xxabc".to_vec();
    let s = Expr::with_type(
        ExprKind::GoString { ptr: Box::new(Expr::i32_const(2)), len: Box::new(Expr::i32_const(3)) },
        InferredType::Unknown,
    );
    m.functions.push(function(vec![], vec![], vec![Stmt::Drop(s)]));
    let mut ctx = PassContext::new();
    MemResolvePass.run(&mut m, &mut ctx);
    match &m.functions[0].body.stmts[0] {
        Stmt::Drop(e) => assert!(matches!(&e.kind, ExprKind::StringLiteral(s) if s == "abc")),
        other => panic!("unexpected statement {:?}", other),
    }
}

#[test]
fn unblockify_changes_nothing() {
    let mut m = Module::new();
    m.functions.push(function(vec![], vec![], vec![Stmt::Nop]));
    let mut ctx = PassContext::new();
    UnblockifyPass.run(&mut m, &mut ctx);
    assert_eq!(m.functions[0].body.stmts.len(), 1);
}

#[test]
fn context_messages() {
    let mut ctx = PassContext::new();
    ctx.log("quiet".to_string());
    assert!(ctx.diagnostics.is_empty());
    let mut ctx = PassContext::new().with_debug(true);
    ctx.log("loud".to_string());
    ctx.warn("careful".to_string());
    assert_eq!(ctx.diagnostics.len(), 2);
    ctx.set_var_type(1, 2, InferredType::I32);
    ctx.set_var_type(1, 2, InferredType::I64);
    assert_eq!(ctx.var_types.len(), 1);
    assert_eq!(ctx.var_types[0].2, InferredType::I64);
}
