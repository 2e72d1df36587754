//! The dominators and the loops of a graph depend on its nodes, edges and
//! entry alone: any two analyses of graphs with the same successor lists
//! agree.
use vstd::prelude::*;
use super::{Cfg, EdgeKind, NodeId};
use super::dominators::{
    DominatorInfo, below, flow, is_consistent, is_dominator_info, is_path, is_pred, is_solution, mat, reaches, row_solved,
};
use super::loops::{
    LoopInfo, NaturalLoop, has_back_edge_into, has_loop_with_header, is_loop_info, is_natural_loop_of, reaches_avoiding,
    recorded_kind,
};

verus! {

/// Two well-formed graphs with the same nodes count, successor lists and entry.
pub open spec fn same_graph(c1: &Cfg, c2: &Cfg) -> bool {
    &&& c1.wf()
    &&& c2.wf()
    &&& c1.nodes@.len() == c2.nodes@.len()
    &&& c1.successors@.len() == c2.successors@.len()
    &&& forall|u: int| 0 <= u < c1.successors@.len() ==> #[trigger] c1.successors@[u]@ == c2.successors@[u]@
    &&& c1.entry == c2.entry
}

/// The loops as the loop analysis gives them: a loop analysis of the graph
/// whose back edges out of nodes reachable from the entry are those whose
/// target dominates their source, and which records no edge out of other
/// nodes.
pub open spec fn loops_of(cfg: &Cfg, dom: &DominatorInfo, info: &LoopInfo) -> bool {
    &&& is_dominator_info(cfg, dom)
    &&& is_loop_info(cfg, info)
    &&& cfg.entry < cfg.nodes@.len() ==> forall|u: NodeId, v: NodeId|
        u < cfg.nodes@.len() && reaches(cfg, cfg.entry, u) && #[trigger] cfg.has_edge(u, v)
            ==> (recorded_kind(info.edge_kinds@, u, v) == Some(EdgeKind::Back) <==> dom.spec_dominates(v, u))
    &&& forall|u: NodeId, v: NodeId| !reaches(cfg, cfg.entry, u) ==> #[trigger] recorded_kind(info.edge_kinds@, u, v) is None
}

proof fn lemma_same_paths(c1: &Cfg, c2: &Cfg)
    requires
        same_graph(c1, c2),
    ensures
        forall|u: NodeId, v: NodeId| #[trigger] c1.has_edge(u, v) == c2.has_edge(u, v),
        forall|path: Seq<NodeId>| #[trigger] is_path(c1, path) == is_path(c2, path),
        forall|a: NodeId, b: NodeId| #[trigger] reaches(c1, a, b) == reaches(c2, a, b),
        forall|a: NodeId, b: NodeId, h: NodeId| #[trigger] reaches_avoiding(c1, a, b, h) == reaches_avoiding(c2, a, b, h),
{
    assert forall|u: NodeId, v: NodeId| #[trigger] c1.has_edge(u, v) == c2.has_edge(u, v) by {
        if u < c1.successors@.len() {
            assert(c1.successors@[u as int]@ == c2.successors@[u as int]@);
        }
    }
    assert forall|path: Seq<NodeId>| #[trigger] is_path(c1, path) == is_path(c2, path) by {
        if is_path(c1, path) {
            assert forall|i: int| 0 <= i < path.len() - 1 implies #[trigger] c2.has_edge(path[i], path[i + 1]) by {
                assert(c1.has_edge(path[i], path[i + 1]));
            }
        }
        if is_path(c2, path) {
            assert forall|i: int| 0 <= i < path.len() - 1 implies #[trigger] c1.has_edge(path[i], path[i + 1]) by {
                assert(c2.has_edge(path[i], path[i + 1]));
            }
        }
    }
    assert forall|a: NodeId, b: NodeId| #[trigger] reaches(c1, a, b) == reaches(c2, a, b) by {
        if reaches(c1, a, b) {
            let p = choose|p: Seq<NodeId>| is_path(c1, p) && p[0] == a && p.last() == b;
            assert(is_path(c2, p));
        }
        if reaches(c2, a, b) {
            let p = choose|p: Seq<NodeId>| is_path(c2, p) && p[0] == a && p.last() == b;
            assert(is_path(c1, p));
        }
    }
    assert forall|a: NodeId, b: NodeId, h: NodeId| #[trigger] reaches_avoiding(c1, a, b, h) == reaches_avoiding(c2, a, b, h) by {
        if reaches_avoiding(c1, a, b, h) {
            let p = choose|p: Seq<NodeId>| is_path(c1, p) && p[0] == a && p.last() == b && !p.contains(h);
            assert(is_path(c2, p));
        }
        if reaches_avoiding(c2, a, b, h) {
            let p = choose|p: Seq<NodeId>| is_path(c2, p) && p[0] == a && p.last() == b && !p.contains(h);
            assert(is_path(c1, p));
        }
    }
}

proof fn lemma_same_flow(c1: &Cfg, c2: &Cfg, m: Seq<Seq<bool>>)
    requires
        same_graph(c1, c2),
    ensures
        forall|v: int, d: int| 0 <= v < c1.nodes@.len() ==> #[trigger] flow(c1, m, v, d) == flow(c2, m, v, d),
{
    let n = c1.nodes@.len();
    assert forall|v: int, p: NodeId| 0 <= v < n implies #[trigger] is_pred(c1, v, p) == is_pred(c2, v, p) by {
        if is_pred(c1, v, p) {
            let i = choose|i: int| 0 <= i < c1.predecessors@[v]@.len() && c1.predecessors@[v]@[i] == p;
            assert(c1.predecessors@[v]@[i] < n);
            assert(c1.successors@[p as int]@.contains(v as NodeId));
            assert(c2.successors@[p as int]@ == c1.successors@[p as int]@);
        }
        if is_pred(c2, v, p) {
            let i = choose|i: int| 0 <= i < c2.predecessors@[v]@.len() && c2.predecessors@[v]@[i] == p;
            assert(c2.predecessors@[v]@[i] < n);
            assert(c2.successors@[p as int]@.contains(v as NodeId));
            assert(c2.successors@[p as int]@ == c1.successors@[p as int]@);
        }
    }
    assert forall|v: int, d: int| 0 <= v < n implies #[trigger] flow(c1, m, v, d) == flow(c2, m, v, d) by {
        if forall|p: NodeId| #[trigger] is_pred(c1, v, p) ==> m[p as int][d] {
            assert forall|p: NodeId| #[trigger] is_pred(c2, v, p) implies m[p as int][d] by {
                assert(is_pred(c1, v, p));
            }
        }
        if forall|p: NodeId| #[trigger] is_pred(c2, v, p) ==> m[p as int][d] {
            assert forall|p: NodeId| #[trigger] is_pred(c1, v, p) implies m[p as int][d] by {
                assert(is_pred(c2, v, p));
            }
        }
        if c1.predecessors@[v]@.len() > 0 {
            assert(is_pred(c1, v, c1.predecessors@[v]@[0]));
            assert(is_pred(c2, v, c1.predecessors@[v]@[0]));
        }
        if c2.predecessors@[v]@.len() > 0 {
            assert(is_pred(c2, v, c2.predecessors@[v]@[0]));
            assert(is_pred(c1, v, c2.predecessors@[v]@[0]));
        }
    }
}

proof fn lemma_solution_consistent(c1: &Cfg, c2: &Cfg, m: Seq<Seq<bool>>)
    requires
        same_graph(c1, c2),
        is_solution(c1, m),
    ensures
        is_consistent(c2, m),
{
    let n = c1.nodes@.len();
    lemma_same_flow(c1, c2, m);
    assert forall|v: int, d: int| 0 <= v < n && 0 <= d < n && v != c2.entry && #[trigger] m[v][d] implies flow(c2, m, v, d) by {
        assert(row_solved(c1, m, v));
    }
    assert forall|d: int| 0 <= d < n && c2.entry < n && #[trigger] m[c2.entry as int][d] implies d == c2.entry by {
        assert(row_solved(c1, m, c1.entry as int));
    }
}

/// The dominance relations of two analyses of the same graph agree.
proof fn lemma_dominance_unique(c1: &Cfg, d1: &DominatorInfo, c2: &Cfg, d2: &DominatorInfo)
    requires
        same_graph(c1, c2),
        c1.nodes@.len() > 0,
        is_dominator_info(c1, d1),
        is_dominator_info(c2, d2),
    ensures
        forall|a: NodeId, b: NodeId| a < c1.nodes@.len() && b < c1.nodes@.len() ==> #[trigger] d1.spec_dominates(a, b) == d2.spec_dominates(a, b),
{
    let n = c1.nodes@.len();
    let m1 = mat(d1.dominators@);
    let m2 = mat(d2.dominators@);
    lemma_solution_consistent(c1, c2, m1);
    lemma_solution_consistent(c2, c1, m2);
    assert(below(m1, m2, n));
    assert(below(m2, m1, n));
    assert forall|a: NodeId, b: NodeId| a < n && b < n implies #[trigger] d1.spec_dominates(a, b) == d2.spec_dominates(a, b) by {
        assert(m1[b as int].len() == n);
        assert(m2[b as int].len() == n);
        assert(m1[b as int] == d1.dominators@[b as int]@);
        assert(m2[b as int] == d2.dominators@[b as int]@);
        if m1[b as int][a as int] {
            assert(m2[b as int][a as int]);
        }
        if m2[b as int][a as int] {
            assert(m1[b as int][a as int]);
        }
    }
}

/// The back edges recorded by two loop analyses of the same graph agree.
proof fn lemma_back_unique(c1: &Cfg, d1: &DominatorInfo, i1: &LoopInfo, c2: &Cfg, d2: &DominatorInfo, i2: &LoopInfo)
    requires
        same_graph(c1, c2),
        c1.nodes@.len() > 0,
        loops_of(c1, d1, i1),
        loops_of(c2, d2, i2),
    ensures
        forall|u: NodeId, v: NodeId| #[trigger] recorded_kind(i1.edge_kinds@, u, v) == Some(EdgeKind::Back)
            <==> recorded_kind(i2.edge_kinds@, u, v) == Some(EdgeKind::Back),
{
    let n = c1.nodes@.len();
    lemma_same_paths(c1, c2);
    lemma_dominance_unique(c1, d1, c2, d2);
    assert forall|u: NodeId, v: NodeId| #[trigger] recorded_kind(i1.edge_kinds@, u, v) == Some(EdgeKind::Back)
        <==> recorded_kind(i2.edge_kinds@, u, v) == Some(EdgeKind::Back) by {
        let k1 = i1.edge_kinds@;
        let k2 = i2.edge_kinds@;
        if recorded_kind(k1, u, v) == Some(EdgeKind::Back) || recorded_kind(k2, u, v) == Some(EdgeKind::Back) {
            assert(reaches(c1, c1.entry, u) && reaches(c2, c2.entry, u));
            assert(u < n);
            let e1 = recorded_kind(k1, u, v) == Some(EdgeKind::Back);
            if e1 {
                let j = choose|j: int| 0 <= j < k1[u as int]@.len() && (#[trigger] k1[u as int]@[j]).0 == v;
                assert(c1.has_edge(u, v));
            } else {
                let j = choose|j: int| 0 <= j < k2[u as int]@.len() && (#[trigger] k2[u as int]@[j]).0 == v;
                assert(c2.has_edge(u, v));
            }
            assert(c1.has_edge(u, v) && c2.has_edge(u, v));
            assert(c1.entry < n) by {
                let p = choose|p: Seq<NodeId>| is_path(c1, p) && p[0] == c1.entry && p.last() == u;
                if p.len() > 1 {
                    assert(c1.has_edge(p[0], p[1]));
                }
            }
            assert(v < n) by {
                let j = choose|j: int| 0 <= j < c1.successors@[u as int]@.len() && c1.successors@[u as int]@[j] == v;
                assert(c1.successors@[u as int]@[j] < n);
            }
            assert(d1.spec_dominates(v, u) == d2.spec_dominates(v, u));
        }
    }
}

/// Two strictly increasing lists with the same elements are equal.
proof fn lemma_sorted_unique(a: Seq<NodeId>, b: Seq<NodeId>)
    requires
        forall|i: int, j: int| 0 <= i < j < a.len() ==> a[i] < a[j],
        forall|i: int, j: int| 0 <= i < j < b.len() ==> b[i] < b[j],
        forall|x: NodeId| #![trigger a.contains(x)] #![trigger b.contains(x)] a.contains(x) == b.contains(x),
    ensures
        a == b,
    decreases a.len(),
{
    if a.len() == 0 {
        if b.len() > 0 {
            assert(b.contains(b[0]));
        }
        assert(b.len() == 0);
        assert(a =~= b);
    } else {
        assert(a.contains(a[0]));
        assert(b.len() > 0);
        assert(b.contains(b[0]));
        let ia = choose|i: int| 0 <= i < a.len() && a[i] == b[0];
        let ib = choose|i: int| 0 <= i < b.len() && b[i] == a[0];
        assert(a[0] <= a[ia]);
        assert(b[0] <= b[ib]);
        assert(a[0] == b[0]);
        let ra = a.drop_first();
        let rb = b.drop_first();
        assert forall|x: NodeId| #![trigger ra.contains(x)] #![trigger rb.contains(x)] ra.contains(x) == rb.contains(x) by {
            if ra.contains(x) {
                let i = choose|i: int| 0 <= i < ra.len() && ra[i] == x;
                assert(a[i + 1] == x);
                assert(a.contains(x));
                let j = choose|j: int| 0 <= j < b.len() && b[j] == x;
                assert(j != 0);
                assert(rb[j - 1] == x);
            }
            if rb.contains(x) {
                let i = choose|i: int| 0 <= i < rb.len() && rb[i] == x;
                assert(b[i + 1] == x);
                assert(b.contains(x));
                let j = choose|j: int| 0 <= j < a.len() && a[j] == x;
                assert(j != 0);
                assert(ra[j - 1] == x);
            }
        }
        lemma_sorted_unique(ra, rb);
        assert(a =~= seq![a[0]] + ra);
        assert(b =~= seq![b[0]] + rb);
    }
}

/// Law: the loops of a graph are determined by its nodes, edges and entry:
/// two loop analyses of graphs with the same successor lists and entry give
/// the same loops, with the same headers, bodies and back edges, in the same
/// order.
pub proof fn lemma_loops_determined(c1: &Cfg, d1: &DominatorInfo, i1: &LoopInfo, c2: &Cfg, d2: &DominatorInfo, i2: &LoopInfo)
    requires
        same_graph(c1, c2),
        loops_of(c1, d1, i1),
        loops_of(c2, d2, i2),
    ensures
        i1.loops@.len() == i2.loops@.len(),
        forall|k: int| 0 <= k < i1.loops@.len() ==> {
            &&& (#[trigger] i1.loops@[k]).header == i2.loops@[k].header
            &&& i1.loops@[k].body@ == i2.loops@[k].body@
            &&& i1.loops@[k].back_edges@ == i2.loops@[k].back_edges@
        },
{
    let n = c1.nodes@.len();
    let ls1 = i1.loops@;
    let ls2 = i2.loops@;
    let k1 = i1.edge_kinds@;
    let k2 = i2.edge_kinds@;
    if n == 0 {
        return;
    }
    lemma_same_paths(c1, c2);
    lemma_back_unique(c1, d1, i1, c2, d2, i2);
    let h1 = ls1.map_values(|lp: NaturalLoop| lp.header);
    let h2 = ls2.map_values(|lp: NaturalLoop| lp.header);
    assert forall|x: NodeId| #![trigger h1.contains(x)] #![trigger h2.contains(x)] h1.contains(x) == h2.contains(x) by {
        if h1.contains(x) {
            let a = choose|a: int| 0 <= a < h1.len() && h1[a] == x;
            assert(is_natural_loop_of(c1, k1, ls1[a]));
            assert(has_loop_with_header(ls1, x));
            assert(has_back_edge_into(k1, n, x));
            let t = choose|t: NodeId| t < n && #[trigger] recorded_kind(k1, t, x) == Some(EdgeKind::Back);
            assert(recorded_kind(k2, t, x) == Some(EdgeKind::Back));
            assert(has_back_edge_into(k2, n, x));
            assert(has_loop_with_header(ls2, x));
            let b = choose|b: int| 0 <= b < ls2.len() && (#[trigger] ls2[b]).header == x;
            assert(h2[b] == x);
        }
        if h2.contains(x) {
            let a = choose|a: int| 0 <= a < h2.len() && h2[a] == x;
            assert(is_natural_loop_of(c2, k2, ls2[a]));
            assert(has_loop_with_header(ls2, x));
            assert(has_back_edge_into(k2, n, x));
            let t = choose|t: NodeId| t < n && #[trigger] recorded_kind(k2, t, x) == Some(EdgeKind::Back);
            assert(recorded_kind(k1, t, x) == Some(EdgeKind::Back));
            assert(has_back_edge_into(k1, n, x));
            assert(has_loop_with_header(ls1, x));
            let b = choose|b: int| 0 <= b < ls1.len() && (#[trigger] ls1[b]).header == x;
            assert(h1[b] == x);
        }
    }
    lemma_sorted_unique(h1, h2);
    assert(ls1.len() == ls2.len()) by {
        assert(h1.len() == ls1.len() && h2.len() == ls2.len());
    }
    assert forall|k: int| 0 <= k < ls1.len() implies {
        &&& (#[trigger] ls1[k]).header == ls2[k].header
        &&& ls1[k].body@ == ls2[k].body@
        &&& ls1[k].back_edges@ == ls2[k].back_edges@
    } by {
        let a = ls1[k];
        let b = ls2[k];
        assert(h1[k] == a.header && h2[k] == b.header);
        let h = a.header;
        assert(is_natural_loop_of(c1, k1, a));
        assert(is_natural_loop_of(c2, k2, b));
        let t1 = a.back_edges@.map_values(|e: (NodeId, NodeId)| e.0);
        let t2 = b.back_edges@.map_values(|e: (NodeId, NodeId)| e.0);
        assert forall|x: NodeId| #![trigger t1.contains(x)] #![trigger t2.contains(x)] t1.contains(x) == t2.contains(x) by {
            assert(t1.contains(x) == (x < n && recorded_kind(k1, x, h) == Some(EdgeKind::Back)));
            assert(t2.contains(x) == (x < n && recorded_kind(k2, x, h) == Some(EdgeKind::Back)));
        }
        lemma_sorted_unique(t1, t2);
        assert(a.back_edges@ =~= b.back_edges@) by {
            assert(t1.len() == a.back_edges@.len() && t2.len() == b.back_edges@.len());
            assert forall|j: int| 0 <= j < a.back_edges@.len() implies a.back_edges@[j] == b.back_edges@[j] by {
                assert(t1[j] == a.back_edges@[j].0 && t2[j] == b.back_edges@[j].0);
                assert(a.back_edges@[j].1 == h);
                assert(b.back_edges@[j].1 == h);
            }
        }
        assert forall|x: NodeId| #![trigger a.body@.contains(x)] #![trigger b.body@.contains(x)] a.body@.contains(x) == b.body@.contains(x) by {
            if exists|j: int| 0 <= j < t1.len() && reaches_avoiding(c1, x, #[trigger] t1[j], h) {
                let j = choose|j: int| 0 <= j < t1.len() && reaches_avoiding(c1, x, #[trigger] t1[j], h);
                assert(reaches_avoiding(c2, x, t2[j], h));
            }
            if exists|j: int| 0 <= j < t2.len() && reaches_avoiding(c2, x, #[trigger] t2[j], h) {
                let j = choose|j: int| 0 <= j < t2.len() && reaches_avoiding(c2, x, #[trigger] t2[j], h);
                assert(reaches_avoiding(c1, x, t1[j], h));
            }
        }
        lemma_sorted_unique(a.body@, b.body@);
    }
}

} // verus!
