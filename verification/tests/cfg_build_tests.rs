use wasm_decompile::cfg::build_cfg;
use wasm_decompile::cfg::dominators::compute_dominators;
use wasm_decompile::cfg::loops::analyze_loops;
use wasm_decompile::cfg::Terminator;
use wasm_decompile::ir::{Block, BranchTarget, Expr, Stmt};

#[test]
fn test_empty_block() {
    let block = Block { stmts: vec![] };
    let cfg = build_cfg(&block);
    assert!(!cfg.is_empty());
    assert_eq!(cfg.entry, 0);
}

#[test]
fn test_simple_if() {
    let block = Block {
        stmts: vec![Stmt::If {
            cond: Expr::i32_const(1),
            then_block: Block { stmts: vec![] },
            else_block: None,
        }],
    };
    let cfg = build_cfg(&block);
    assert!(cfg.len() >= 4); // entry, then, else, merge, exit
}

#[test]
fn build_test_simple_loop() {
    let block = Block {
        stmts: vec![Stmt::Loop {
            label: 0,
            body: Block { stmts: vec![Stmt::Br { label: 0, is_loop: true }] },
        }],
    };
    let cfg = build_cfg(&block);
    assert!(cfg.len() >= 3);
}

#[test]
fn empty_block_falls_through_to_exit() {
    let cfg = build_cfg(&Block { stmts: vec![] });
    assert_eq!(cfg.len(), 2);
    assert_eq!(cfg.exit, 1);
    assert!(matches!(cfg.nodes[0].terminator, Terminator::Fallthrough(1)));
    assert_eq!(cfg.get_successors(0), &[1]);
    assert_eq!(cfg.get_predecessors(1), vec![0]);
}

#[test]
fn if_without_else_joins_at_merge() {
    let block = Block {
        stmts: vec![Stmt::If {
            cond: Expr::local(0),
            then_block: Block { stmts: vec![Stmt::Nop] },
            else_block: None,
        }],
    };
    let cfg = build_cfg(&block);
    // entry, exit, then = 2, else = 3, merge = 4
    assert_eq!(cfg.len(), 5);
    match &cfg.nodes[0].terminator {
        Terminator::Branch { then_target, else_target, .. } => {
            assert_eq!((*then_target, *else_target), (2, 3));
        }
        _ => panic!("entry should branch"),
    }
    assert!(matches!(cfg.nodes[2].terminator, Terminator::Fallthrough(4)));
    assert!(matches!(cfg.nodes[3].terminator, Terminator::Fallthrough(4)));
    assert!(matches!(cfg.nodes[4].terminator, Terminator::Fallthrough(1)));
    assert_eq!(cfg.nodes[2].stmts.len(), 1);
}

#[test]
fn loop_branch_back_is_a_back_edge() {
    let block = Block {
        stmts: vec![Stmt::Loop {
            label: 7,
            body: Block {
                stmts: vec![
                    Stmt::Drop(Expr::local(0)),
                    Stmt::BrIf { label: 7, cond: Expr::local(1), is_loop: true },
                ],
            },
        }],
    };
    let cfg = build_cfg(&block);
    // entry 0, exit 1, header 2, loop exit 3, continuation 4
    assert_eq!(cfg.nodes[2].label, Some(7));
    assert!(matches!(
        cfg.nodes[2].terminator,
        Terminator::Branch { then_target: 2, else_target: 4, .. }
    ));
    assert!(matches!(cfg.nodes[4].terminator, Terminator::Fallthrough(3)));
    let dom = compute_dominators(&cfg);
    let loops = analyze_loops(&cfg, &dom);
    assert!(loops.is_loop_header(2));
    assert!(loops.is_back_edge(2, 2));
}

#[test]
fn br_table_jumps_to_active_labels() {
    let block = Block {
        stmts: vec![Stmt::Block {
            label: 3,
            body: Block {
                stmts: vec![Stmt::BrTable {
                    index: Expr::local(0),
                    targets: vec![
                        BranchTarget { label: 3, is_loop: false },
                        BranchTarget { label: 9, is_loop: false },
                    ],
                    default: BranchTarget { label: 3, is_loop: false },
                }],
            },
        }],
    };
    let cfg = build_cfg(&block);
    // block exit = 2; the inactive label 9 is left out
    match &cfg.nodes[0].terminator {
        Terminator::Switch { targets, default, .. } => {
            assert_eq!(targets, &vec![2]);
            assert_eq!(*default, 2);
        }
        _ => panic!("entry should switch"),
    }
    assert_eq!(cfg.get_successors(0), &[2, 2]);
}

#[test]
fn return_ends_the_node() {
    let block = Block { stmts: vec![Stmt::Return(Some(Expr::i32_const(5))), Stmt::Nop] };
    let cfg = build_cfg(&block);
    assert!(matches!(cfg.nodes[0].terminator, Terminator::Return(Some(_))));
    // the statement after the return lands in a fresh node, which falls through to the exit
    assert_eq!(cfg.nodes[2].stmts.len(), 1);
    assert!(matches!(cfg.nodes[2].terminator, Terminator::Fallthrough(1)));
    assert!(cfg.get_successors(0).is_empty());
}
