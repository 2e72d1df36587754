use wasm_decompile::ir::{Block, BranchTarget, Expr, ExprKind, InferredType, Stmt, UnaryOp};
use wasm_decompile::passes::stackifier::transform_function;
use wasm_decompile::passes::PassContext;

fn run(stmts: Vec<Stmt>) -> Vec<Stmt> {
    let mut b = Block::with_stmts(stmts);
    let mut ctx = PassContext::new();
    transform_function(&mut b, &mut ctx);
    b.stmts
}

fn same(actual: &[Stmt], expected: &[Stmt]) {
    assert_eq!(format!("{:?}", actual), format!("{:?}", expected));
}

fn set(local: u32, v: i32) -> Stmt {
    Stmt::LocalSet { local, value: Expr::i32_const(v) }
}

fn not(e: Expr) -> Expr {
    Expr::with_type(ExprKind::UnaryOp(UnaryOp::Eqz, Box::new(e)), InferredType::Bool)
}

fn blk(stmts: Vec<Stmt>) -> Block {
    Block::with_stmts(stmts)
}

fn br_if(label: u32, cond: Expr) -> Stmt {
    Stmt::BrIf { label, cond, is_loop: false }
}

#[test]
fn leading_break_becomes_negated_if() {
    let out = run(vec![Stmt::Block { label: 0, body: blk(vec![br_if(0, Expr::local(0)), set(1, 1)]) }]);
    same(&out, &[Stmt::If { cond: not(Expr::local(0)), then_block: blk(vec![set(1, 1)]), else_block: None }]);
}

#[test]
fn middle_break_keeps_code_before() {
    let out = run(vec![Stmt::Block { label: 0, body: blk(vec![set(1, 0), br_if(0, Expr::local(0)), set(1, 1)]) }]);
    same(
        &out,
        &[set(1, 0), Stmt::If { cond: not(Expr::local(0)), then_block: blk(vec![set(1, 1)]), else_block: None }],
    );
}

#[test]
fn loop_with_exit_test_becomes_while() {
    let out = run(vec![Stmt::Block {
        label: 1,
        body: blk(vec![Stmt::Loop {
            label: 2,
            body: blk(vec![br_if(1, Expr::local(0)), set(1, 3), Stmt::Br { label: 2, is_loop: true }]),
        }]),
    }]);
    same(&out, &[Stmt::While { cond: not(Expr::local(0)), body: blk(vec![set(1, 3)]) }]);
}

#[test]
fn block_ending_with_its_break_is_inlined() {
    let out = run(vec![Stmt::Block { label: 3, body: blk(vec![set(1, 1), Stmt::Br { label: 3, is_loop: false }]) }, set(1, 2)]);
    same(&out, &[set(1, 1), set(1, 2)]);
}

#[test]
fn if_that_breaks_out_gets_an_else() {
    let out = run(vec![Stmt::Block {
        label: 4,
        body: blk(vec![
            Stmt::If {
                cond: Expr::local(0),
                then_block: blk(vec![set(1, 1), Stmt::Br { label: 4, is_loop: false }]),
                else_block: None,
            },
            set(1, 2),
        ]),
    }]);
    same(
        &out,
        &[Stmt::If { cond: Expr::local(0), then_block: blk(vec![set(1, 1)]), else_block: Some(blk(vec![set(1, 2)])) }],
    );
}

#[test]
fn block_nothing_branches_to_is_inlined() {
    let out = run(vec![Stmt::Block { label: 5, body: blk(vec![set(1, 1), set(1, 2)]) }]);
    same(&out, &[set(1, 1), set(1, 2)]);
}

#[test]
fn block_named_by_a_branch_table_stays() {
    let t = BranchTarget { label: 5, is_loop: false };
    let table = Stmt::BrTable { index: Expr::local(0), targets: vec![t], default: t };
    let input = vec![Stmt::Block { label: 5, body: blk(vec![table]) }];
    let expected = format!("{:?}", input);
    let out = run(input);
    assert_eq!(format!("{:?}", out), expected);
}

#[test]
fn context_is_left_alone() {
    let mut b = Block::with_stmts(vec![set(1, 1)]);
    let mut ctx = PassContext::new();
    transform_function(&mut b, &mut ctx);
    assert!(ctx.diagnostics.is_empty());
    assert_eq!(b.stmts.len(), 1);
}
