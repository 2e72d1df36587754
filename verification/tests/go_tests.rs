use wasm_decompile::ir::{Block, Expr, ExprKind, Function, InferredType, Module, Stmt};
use wasm_decompile::passes::go::string::looks_like_go_string_pair;
use wasm_decompile::passes::go::{GoInterfacePass, GoSlicePass, GoStringPass};
use wasm_decompile::passes::PassContext;

#[test]
fn test_go_string_detection() {
    // (1024, 5) looks like a string
    let ptr = Expr::i32_const(1024);
    let len = Expr::i32_const(5);
    assert!(looks_like_go_string_pair(&ptr, &len));

    // (0, 5) doesn't look like a string (null pointer)
    let ptr = Expr::i32_const(0);
    let len = Expr::i32_const(5);
    assert!(!looks_like_go_string_pair(&ptr, &len));

    // (1024, 0) doesn't look like a string (zero length)
    let ptr = Expr::i32_const(1024);
    let len = Expr::i32_const(0);
    assert!(!looks_like_go_string_pair(&ptr, &len));

    // (1024, 1000000) doesn't look like a string (too long)
    let ptr = Expr::i32_const(1024);
    let len = Expr::i32_const(1000000);
    assert!(!looks_like_go_string_pair(&ptr, &len));
}

fn one_call(args: Vec<Expr>) -> Module {
    let mut m = Module::new();
    let call = Expr::with_type(ExprKind::Call { func: 2, args }, InferredType::Unknown);
    m.functions.push(Function {
        index: 0,
        name: None,
        params: vec![],
        results: vec![],
        locals: vec![],
        body: Block::with_stmts(vec![Stmt::Expr(call)]),
        is_import: false,
    });
    m
}

fn call_args(m: &Module) -> &Vec<Expr> {
    match &m.functions[0].body.stmts[0] {
        Stmt::Expr(Expr { kind: ExprKind::Call { args, .. }, .. }) => args,
        other => panic!("unexpected statement {:?}", other),
    }
}

#[test]
fn go_string_pass_pairs_arguments() {
    let mut m = one_call(vec![Expr::i32_const(1024), Expr::i32_const(5), Expr::local(1), Expr::local(2)]);
    let mut ctx = PassContext::new();
    GoStringPass.run(&mut m, &mut ctx);
    let args = call_args(&m);
    assert_eq!(args.len(), 2);
    assert!(matches!(args[0].kind, ExprKind::GoString { .. }));
    assert!(matches!(args[1].kind, ExprKind::GoString { .. }));
    assert_eq!(args[0].ty, InferredType::GoString);
}

#[test]
fn go_slice_pass_groups_triples() {
    let mut m = one_call(vec![Expr::i32_const(64), Expr::i32_const(3), Expr::i32_const(8), Expr::local(0)]);
    let mut ctx = PassContext::new();
    GoSlicePass.run(&mut m, &mut ctx);
    let args = call_args(&m);
    assert_eq!(args.len(), 2);
    assert!(matches!(args[0].kind, ExprKind::GoSlice { .. }));
    // length above capacity is no slice
    let mut m = one_call(vec![Expr::i32_const(64), Expr::i32_const(9), Expr::i32_const(8)]);
    GoSlicePass.run(&mut m, &mut ctx);
    assert_eq!(call_args(&m).len(), 3);
}

#[test]
fn go_interface_pass_keeps_module() {
    let mut m = one_call(vec![Expr::i32_const(1), Expr::i32_const(2)]);
    let mut ctx = PassContext::new();
    GoInterfacePass.run(&mut m, &mut ctx);
    assert_eq!(call_args(&m).len(), 2);
}

#[test]
fn go_string_length_must_be_i32() {
    let ptr = Expr::i32_const(1024);
    let len = Expr::i64_const(5);
    assert!(!looks_like_go_string_pair(&ptr, &len));
}
