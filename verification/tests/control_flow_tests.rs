use wasm_decompile::ir::{
    Block, BranchTarget, Expr, ExprKind, Function, InferredType, Module, Stmt, SwitchCase, UnaryOp, ValType,
};
use wasm_decompile::passes::control_flow::ControlFlowPass;
use wasm_decompile::passes::PassContext;

fn recover(results: Vec<ValType>, stmts: Vec<Stmt>) -> Vec<Stmt> {
    let mut m = Module::new();
    m.functions.push(Function {
        index: 0,
        name: None,
        params: vec![ValType::I32, ValType::I32],
        results,
        locals: vec![ValType::I32],
        body: Block::with_stmts(stmts),
        is_import: false,
    });
    let mut ctx = PassContext::new();
    assert_eq!(ControlFlowPass.name(), "control_flow");
    ControlFlowPass.run(&mut m, &mut ctx);
    m.functions.remove(0).body.stmts
}

fn same(actual: &[Stmt], expected: &[Stmt]) {
    assert_eq!(format!("{:?}", actual), format!("{:?}", expected));
}

fn set(local: u32, v: i32) -> Stmt {
    Stmt::LocalSet { local, value: Expr::i32_const(v) }
}

fn not(e: Expr) -> Expr {
    Expr::with_type(ExprKind::UnaryOp(UnaryOp::Eqz, Box::new(e)), InferredType::Bool)
}

fn blk(stmts: Vec<Stmt>) -> Block {
    Block::with_stmts(stmts)
}

fn br(label: u32) -> Stmt {
    Stmt::Br { label, is_loop: false }
}

fn br_if(label: u32, cond: Expr) -> Stmt {
    Stmt::BrIf { label, cond, is_loop: false }
}

fn if_then(cond: Expr, then: Vec<Stmt>) -> Stmt {
    Stmt::If { cond, then_block: blk(then), else_block: None }
}

fn ret_local(l: u32) -> Stmt {
    Stmt::Return(Some(Expr::local(l)))
}

#[test]
fn recovers_do_while() {
    let out = recover(
        vec![ValType::I32],
        vec![
            Stmt::Loop {
                label: 0,
                body: blk(vec![set(2, 1), Stmt::BrIf { label: 0, cond: Expr::local(0), is_loop: true }]),
            },
            ret_local(2),
        ],
    );
    same(&out, &[Stmt::DoWhile { body: blk(vec![set(2, 1)]), cond: Expr::local(0) }, ret_local(2)]);
}

#[test]
fn recovers_while() {
    let out = recover(
        vec![ValType::I32],
        vec![
            Stmt::Block {
                label: 1,
                body: blk(vec![Stmt::Loop {
                    label: 2,
                    body: blk(vec![
                        br_if(1, Expr::local(0)),
                        set(2, 3),
                        Stmt::Br { label: 2, is_loop: true },
                    ]),
                }]),
            },
            ret_local(2),
        ],
    );
    same(&out, &[Stmt::While { cond: not(Expr::local(0)), body: blk(vec![set(2, 3)]) }, ret_local(2)]);
}

#[test]
fn recovers_if_else() {
    let out = recover(
        vec![ValType::I32],
        vec![
            Stmt::Block {
                label: 3,
                body: blk(vec![if_then(Expr::local(0), vec![set(2, 1), br(3)]), set(2, 2)]),
            },
            ret_local(2),
        ],
    );
    same(
        &out,
        &[
            Stmt::If {
                cond: Expr::local(0),
                then_block: blk(vec![set(2, 1)]),
                else_block: Some(blk(vec![set(2, 2)])),
            },
            ret_local(2),
        ],
    );
}

#[test]
fn recovers_single_break_as_negated_if() {
    let out = recover(
        vec![ValType::I32],
        vec![
            Stmt::Block { label: 0, body: blk(vec![set(2, 0), br_if(0, Expr::local(0)), set(2, 1)]) },
            ret_local(2),
        ],
    );
    same(&out, &[set(2, 0), if_then(not(Expr::local(0)), vec![set(2, 1)]), ret_local(2)]);
}

#[test]
fn recovers_early_return() {
    let seven = || Stmt::Return(Some(Expr::i32_const(7)));
    let out = recover(
        vec![ValType::I32],
        vec![
            Stmt::Block {
                label: 0,
                body: blk(vec![br_if(0, Expr::local(0)), br_if(0, Expr::local(1)), set(2, 1)]),
            },
            seven(),
        ],
    );
    same(
        &out,
        &[
            if_then(Expr::local(0), vec![seven()]),
            if_then(Expr::local(1), vec![seven()]),
            set(2, 1),
            seven(),
        ],
    );
}

#[test]
fn recovers_early_return_through_local() {
    let out = recover(
        vec![ValType::I32],
        vec![
            Stmt::Block {
                label: 0,
                body: blk(vec![br_if(0, Expr::local(0)), br_if(0, Expr::local(1)), set(2, 1)]),
            },
            set(2, 9),
            ret_local(2),
        ],
    );
    let nine = || Stmt::Return(Some(Expr::i32_const(9)));
    same(
        &out,
        &[
            if_then(Expr::local(0), vec![nine()]),
            if_then(Expr::local(1), vec![nine()]),
            set(2, 1),
            set(2, 9),
            ret_local(2),
        ],
    );
}

#[test]
fn recovers_break_to_unreachable() {
    let out = recover(
        vec![ValType::I32],
        vec![
            Stmt::Block {
                label: 0,
                body: blk(vec![br_if(0, Expr::local(0)), br_if(0, Expr::local(1)), set(2, 1)]),
            },
            Stmt::Unreachable,
        ],
    );
    same(
        &out,
        &[
            if_then(Expr::local(0), vec![Stmt::Unreachable]),
            if_then(Expr::local(1), vec![Stmt::Unreachable]),
            set(2, 1),
            Stmt::Unreachable,
        ],
    );
}

#[test]
fn void_function_last_block_becomes_returns() {
    let out = recover(
        vec![],
        vec![
            set(2, 5),
            Stmt::Block {
                label: 0,
                body: blk(vec![br_if(0, Expr::local(0)), br_if(0, Expr::local(1)), set(2, 1)]),
            },
        ],
    );
    same(
        &out,
        &[
            set(2, 5),
            if_then(Expr::local(0), vec![Stmt::Return(None)]),
            if_then(Expr::local(1), vec![Stmt::Return(None)]),
            set(2, 1),
        ],
    );
}

#[test]
fn void_function_epilog_becomes_try_finally() {
    let out = recover(
        vec![],
        vec![
            Stmt::Block {
                label: 0,
                body: blk(vec![br_if(0, Expr::local(0)), br_if(0, Expr::local(1)), set(2, 1)]),
            },
            set(2, 4),
        ],
    );
    same(
        &out,
        &[Stmt::TryFinally {
            body: blk(vec![
                if_then(Expr::local(0), vec![Stmt::Return(None)]),
                if_then(Expr::local(1), vec![Stmt::Return(None)]),
                set(2, 1),
            ]),
            finally_block: blk(vec![set(2, 4)]),
        }],
    );
}

#[test]
fn recovers_switch_from_branch_table() {
    let t = |label: u32| BranchTarget { label, is_loop: false };
    let out = recover(
        vec![ValType::I32],
        vec![
            Stmt::Block {
                label: 0,
                body: blk(vec![
                    Stmt::Block {
                        label: 1,
                        body: blk(vec![
                            Stmt::Block {
                                label: 2,
                                body: blk(vec![Stmt::BrTable {
                                    index: Expr::local(0),
                                    targets: vec![t(2), t(1), t(2)],
                                    default: t(0),
                                }]),
                            },
                            set(2, 10),
                            br(0),
                        ]),
                    },
                    set(2, 20),
                    br(0),
                ]),
            },
            ret_local(2),
        ],
    );
    same(
        &out,
        &[
            Stmt::Switch {
                index: Expr::local(0),
                cases: vec![
                    SwitchCase { values: vec![0, 2], body: blk(vec![set(2, 10)]) },
                    SwitchCase { values: vec![1], body: blk(vec![set(2, 20)]) },
                ],
                default: None,
            },
            ret_local(2),
        ],
    );
}

#[test]
fn removes_unused_block_wrapper() {
    let out = recover(
        vec![ValType::I32],
        vec![Stmt::Block { label: 4, body: blk(vec![set(2, 1), set(2, 2)]) }, ret_local(2)],
    );
    same(&out, &[set(2, 1), set(2, 2), ret_local(2)]);
}

#[test]
fn imported_functions_are_left_alone() {
    let mut m = Module::new();
    let body = vec![Stmt::Block { label: 4, body: blk(vec![set(2, 1)]) }];
    m.functions.push(Function {
        index: 0,
        name: None,
        params: vec![],
        results: vec![],
        locals: vec![],
        body: Block::with_stmts(body),
        is_import: true,
    });
    let mut ctx = PassContext::new();
    ControlFlowPass.run(&mut m, &mut ctx);
    same(&m.functions[0].body.stmts, &[Stmt::Block { label: 4, body: blk(vec![set(2, 1)]) }]);
}
