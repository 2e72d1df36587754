use wasm_decompile::ir::{Block, Expr, Stmt};
use wasm_decompile::passes::emit::{body_fits, emit_structured};
use wasm_decompile::passes::stackifier::StackifierPass;

fn same(actual: &Block, expected: &[Stmt]) {
    assert_eq!(format!("{:?}", actual.stmts), format!("{:?}", expected));
}

#[test]
fn straight_line_code_is_kept() {
    let body = Block {
        stmts: vec![
            Stmt::LocalSet { local: 1, value: Expr::i32_const(1) },
            Stmt::Return(Some(Expr::local(1))),
        ],
    };
    assert!(body_fits(&body));
    let out = emit_structured(&body);
    same(&out, &[Stmt::LocalSet { local: 1, value: Expr::i32_const(1) }, Stmt::Return(Some(Expr::local(1)))]);
}

#[test]
fn branch_becomes_if() {
    let body = Block {
        stmts: vec![Stmt::If {
            cond: Expr::local(0),
            then_block: Block { stmts: vec![Stmt::Nop] },
            else_block: None,
        }],
    };
    let out = emit_structured(&body);
    same(
        &out,
        &[Stmt::If { cond: Expr::local(0), then_block: Block { stmts: vec![Stmt::Nop] }, else_block: None }],
    );
}

#[test]
fn loop_testing_at_its_end_becomes_do_while() {
    let body = Block {
        stmts: vec![Stmt::Loop {
            label: 7,
            body: Block {
                stmts: vec![
                    Stmt::Drop(Expr::local(0)),
                    Stmt::BrIf { label: 7, cond: Expr::local(1), is_loop: true },
                ],
            },
        }],
    };
    let out = emit_structured(&body);
    same(
        &out,
        &[Stmt::DoWhile { body: Block { stmts: vec![Stmt::Drop(Expr::local(0))] }, cond: Expr::local(1) }],
    );
}

#[test]
fn empty_body_fits_and_emits_nothing() {
    let body = Block { stmts: vec![] };
    assert!(body_fits(&body));
    assert!(emit_structured(&body).stmts.is_empty());
    assert_eq!(StackifierPass.name(), "stackifier");
}
