use wasm_decompile::cfg::dominators::compute_dominators;
use wasm_decompile::cfg::loops::analyze_loops;
use wasm_decompile::cfg::{Cfg, CfgNode, Terminator};

#[test]
fn test_linear_cfg() {
    let mut cfg = Cfg::new();
    let a = cfg.add_node(CfgNode::new(0));
    let b = cfg.add_node(CfgNode::new(1));
    let c = cfg.add_node(CfgNode::new(2));

    cfg.entry = a;
    cfg.get_node_mut(a).unwrap().terminator = Terminator::Fallthrough(b);
    cfg.get_node_mut(b).unwrap().terminator = Terminator::Fallthrough(c);
    cfg.add_edge(a, b);
    cfg.add_edge(b, c);

    let dom = compute_dominators(&cfg);

    assert!(dom.dominates(a, a));
    assert!(dom.dominates(a, b));
    assert!(dom.dominates(a, c));
    assert!(dom.dominates(b, c));
    assert!(!dom.dominates(c, b));
}

#[test]
fn test_diamond_cfg() {
    let mut cfg = Cfg::new();
    let a = cfg.add_node(CfgNode::new(0));
    let b = cfg.add_node(CfgNode::new(1));
    let c = cfg.add_node(CfgNode::new(2));
    let d = cfg.add_node(CfgNode::new(3));

    cfg.entry = a;
    cfg.add_edge(a, b);
    cfg.add_edge(a, c);
    cfg.add_edge(b, d);
    cfg.add_edge(c, d);

    let dom = compute_dominators(&cfg);

    assert!(dom.dominates(a, d));
    assert!(!dom.dominates(b, d));
    assert!(!dom.dominates(c, d));
    assert_eq!(dom.get_idom(d), Some(a));
}

#[test]
fn loops_test_simple_loop() {
    let mut cfg = Cfg::new();
    let a = cfg.add_node(CfgNode::new(0));
    let b = cfg.add_node(CfgNode::new(1));

    cfg.entry = a;
    cfg.add_edge(a, b);
    cfg.add_edge(b, a);

    if let Some(node) = cfg.get_node_mut(a) {
        node.terminator = Terminator::Fallthrough(b);
    }
    if let Some(node) = cfg.get_node_mut(b) {
        node.terminator = Terminator::Goto(a);
    }

    let dom = compute_dominators(&cfg);
    let loops = analyze_loops(&cfg, &dom);

    assert_eq!(loops.loops.len(), 1);
    assert!(loops.is_loop_header(a));
}

#[test]
fn test_while_loop() {
    let mut cfg = Cfg::new();
    let header = cfg.add_node(CfgNode::new(0));
    let body = cfg.add_node(CfgNode::new(1));
    let exit = cfg.add_node(CfgNode::new(2));

    cfg.entry = header;
    cfg.add_edge(header, body);
    cfg.add_edge(header, exit);
    cfg.add_edge(body, header);

    let dom = compute_dominators(&cfg);
    let loops = analyze_loops(&cfg, &dom);

    assert_eq!(loops.loops.len(), 1);
    assert!(loops.is_loop_header(header));
    assert!(loops.loops[0].body.contains(&body));
    assert!(!loops.loops[0].body.contains(&exit));
}

#[test]
fn dominator_of_every_path_in_nested_diamonds() {
    // 0 -> 1 -> {2, 3} -> 4 -> 5, and 0 -> 5 directly.
    let mut cfg = Cfg::new();
    for i in 0..6 {
        cfg.add_node(CfgNode::new(i));
    }
    cfg.entry = 0;
    cfg.add_edge(0, 1);
    cfg.add_edge(1, 2);
    cfg.add_edge(1, 3);
    cfg.add_edge(2, 4);
    cfg.add_edge(3, 4);
    cfg.add_edge(4, 5);
    cfg.add_edge(0, 5);
    let dom = compute_dominators(&cfg);
    assert!(dom.dominates(1, 4));
    assert!(!dom.dominates(1, 5));
    assert!(dom.dominates(0, 5));
    assert!(dom.strictly_dominates(1, 4));
    assert!(!dom.strictly_dominates(4, 4));
    assert_eq!(dom.get_idom(4), Some(1));
    assert_eq!(dom.get_idom(5), Some(0));
    assert_eq!(dom.get_idom(0), None);
    let mut under_one = dom.get_dominated(1);
    under_one.sort();
    assert_eq!(under_one, vec![2, 3, 4]);
}

#[test]
fn successors_and_predecessors_mirror() {
    let mut cfg = Cfg::new();
    let a = cfg.add_node(CfgNode::new(0));
    let b = cfg.add_node(CfgNode::new(1));
    cfg.add_edge(a, b);
    cfg.add_edge(a, b);
    assert_eq!(cfg.get_successors(a).to_vec(), vec![b, b]);
    assert_eq!(cfg.get_predecessors(b), vec![a]);
    assert_eq!(cfg.len(), 2);
    assert!(!cfg.is_empty());
    assert!(cfg.get_node(5).is_none());
}

#[test]
fn loop_with_exit_edge_and_back_edge() {
    // 0 -> 1 (header) -> 2 -> 1, 1 -> 3
    let mut cfg = Cfg::new();
    for i in 0..4 {
        cfg.add_node(CfgNode::new(i));
    }
    cfg.entry = 0;
    cfg.add_edge(0, 1);
    cfg.add_edge(1, 2);
    cfg.add_edge(2, 1);
    cfg.add_edge(1, 3);
    let dom = compute_dominators(&cfg);
    let loops = analyze_loops(&cfg, &dom);
    assert_eq!(loops.loops.len(), 1);
    let l = &loops.loops[0];
    assert_eq!(l.header, 1);
    assert_eq!(l.body, vec![1, 2]);
    assert!(l.contains(2));
    assert!(!l.contains(3));
    assert_eq!(l.single_exit(), Some(3));
    assert!(loops.is_back_edge(2, 1));
    assert!(!loops.is_back_edge(0, 1));
    assert!(loops.get_containing_loop(2).is_some());
    assert!(loops.get_containing_loop(3).is_none());
}

#[test]
fn cycle_without_dominating_header_is_no_loop() {
    let mut cfg = Cfg::new();
    for i in 0..3u32 {
        cfg.add_node(CfgNode::new(i as usize));
    }
    cfg.entry = 0;
    cfg.add_edge(0, 1);
    cfg.add_edge(0, 2);
    cfg.add_edge(1, 2);
    cfg.add_edge(2, 1);
    let dom = compute_dominators(&cfg);
    let info = analyze_loops(&cfg, &dom);
    assert!(info.loops.is_empty());
    for row in &info.edge_kinds {
        for (_, k) in row {
            assert_ne!(*k, wasm_decompile::cfg::EdgeKind::Back);
        }
    }
}

#[test]
fn back_edge_query_matches_loop_back_edges() {
    // 0 -> 1 -> 2 -> 1, 2 -> 3 -> 0, 3 -> 4
    let mut cfg = Cfg::new();
    for i in 0..5 {
        cfg.add_node(CfgNode::new(i));
    }
    cfg.entry = 0;
    cfg.add_edge(0, 1);
    cfg.add_edge(1, 2);
    cfg.add_edge(2, 1);
    cfg.add_edge(2, 3);
    cfg.add_edge(3, 0);
    cfg.add_edge(3, 4);
    let dom = compute_dominators(&cfg);
    let info = analyze_loops(&cfg, &dom);
    assert_eq!(info.loops.len(), 2);
    for u in 0..5 {
        for v in 0..5 {
            let listed = info.loops.iter().any(|lp| lp.header == v && lp.back_edges.contains(&(u, v)));
            assert_eq!(info.is_back_edge(u, v), listed, "edge {} -> {}", u, v);
        }
    }
    assert!(info.is_back_edge(2, 1));
    assert!(info.is_back_edge(3, 0));
    assert!(!info.is_back_edge(1, 2));
}

#[test]
fn loops_depend_on_the_graph_alone() {
    let build = || {
        let mut cfg = Cfg::new();
        for i in 0..5 {
            cfg.add_node(CfgNode::new(i));
        }
        cfg.entry = 0;
        for (u, v) in [(0, 1), (1, 2), (2, 1), (2, 3), (3, 0), (3, 4)] {
            cfg.add_edge(u, v);
        }
        cfg
    };
    let (c1, c2) = (build(), build());
    let l1 = analyze_loops(&c1, &compute_dominators(&c1));
    let l2 = analyze_loops(&c2, &compute_dominators(&c2));
    assert_eq!(l1.loops.len(), l2.loops.len());
    for (a, b) in l1.loops.iter().zip(l2.loops.iter()) {
        assert_eq!((a.header, &a.body, &a.back_edges), (b.header, &b.body, &b.back_edges));
    }
    assert_eq!(l1.loops[0].header, 0);
    assert_eq!(l1.loops[0].body, vec![0, 1, 2, 3]);
    assert_eq!(l1.loops[1].header, 1);
    assert_eq!(l1.loops[1].body, vec![1, 2]);
    assert_eq!(l1.loops[1].back_edges, vec![(2, 1)]);
}
