//! Loop analysis for a control flow graph: depth-first edge classification
//! and natural loops built from back edges.
use vstd::prelude::*;
use super::{Cfg, EdgeKind, NodeId};
use super::dominators::{DominatorInfo, reaches, is_path, is_dominator_info, lemma_dominates_sound, on_every_path, count_row, lemma_count_row_subset, lemma_count_row_bound, lemma_reaches_step, lemma_reaches_refl};

verus! {

/// Information about loops in the CFG
#[derive(Debug)]
pub struct LoopInfo {
    /// All detected natural loops
    pub loops: Vec<NaturalLoop>,
    /// For each node, the index of the loop it heads, if any
    pub header_to_loop: Vec<Option<usize>>,
    /// For each node, the index of its innermost containing loop, if any
    pub node_to_loop: Vec<Option<usize>>,
    /// Edge classifications: for each source node, its classified out-edges
    /// as (target, kind), each target once
    pub edge_kinds: Vec<Vec<(NodeId, EdgeKind)>>,
}

/// A natural loop in the CFG
#[derive(Debug)]
pub struct NaturalLoop {
    /// Loop header (entry point, target of back edges)
    pub header: NodeId,
    /// All nodes in the loop body (including header), in increasing order
    pub body: Vec<NodeId>,
    /// Back edges (tail -> header)
    pub back_edges: Vec<(NodeId, NodeId)>,
    /// Exit edges (node in loop -> node outside loop)
    pub exit_edges: Vec<(NodeId, NodeId)>,
    /// Nodes that exit the loop, in increasing order
    pub exiting_nodes: Vec<NodeId>,
    /// Parent loop index (for nested loops)
    pub parent: Option<usize>,
    /// Child loop indices, in increasing order
    pub children: Vec<usize>,
}

/// The kind recorded for edge `(u, v)` in a table of classified edges.
pub open spec fn recorded_kind(kinds: Seq<Vec<(NodeId, EdgeKind)>>, u: NodeId, v: NodeId) -> Option<EdgeKind> {
    if u < kinds.len() && exists|i: int| 0 <= i < kinds[u as int]@.len() && (#[trigger] kinds[u as int]@[i]).0 == v {
        let i = choose|i: int| 0 <= i < kinds[u as int]@.len() && (#[trigger] kinds[u as int]@[i]).0 == v;
        Some(kinds[u as int]@[i].1)
    } else {
        None
    }
}

/// Each list of classified out-edges names each target once.
pub open spec fn kinds_unique(kinds: Seq<Vec<(NodeId, EdgeKind)>>) -> bool {
    forall|u: int, i: int, j: int|
        0 <= u < kinds.len() && 0 <= i < kinds[u]@.len() && 0 <= j < kinds[u]@.len() && i != j
            ==> (#[trigger] kinds[u]@[i]).0 != (#[trigger] kinds[u]@[j]).0
}

/// `v` is on the stack of the walk and reaches the current node.
pub open spec fn stack_reaches(cfg: &Cfg, in_stack: Seq<bool>, cur: NodeId) -> bool {
    forall|v: int| 0 <= v < in_stack.len() && #[trigger] in_stack[v] ==> reaches(cfg, v as NodeId, cur)
}

/// Classification facts: every classified edge is an edge of the graph, and
/// each back edge closes a cycle (its target reaches its source).
pub open spec fn classification_sound(cfg: &Cfg, kinds: Seq<Vec<(NodeId, EdgeKind)>>) -> bool {
    &&& kinds.len() == cfg.nodes@.len()
    &&& kinds_unique(kinds)
    &&& forall|u: int, i: int| 0 <= u < kinds.len() && 0 <= i < kinds[u]@.len() ==> {
        let (v, k) = #[trigger] kinds[u]@[i];
        &&& v < cfg.nodes@.len()
        &&& cfg.has_edge(u as NodeId, v)
        &&& (k == EdgeKind::Back ==> reaches(cfg, v, u as NodeId))
    }
}

/// The classified edges out of `u` to `v` are back edges exactly when `d`
/// holds, and when it holds one is recorded.
pub open spec fn back_exactly(kinds: Seq<Vec<(NodeId, EdgeKind)>>, u: NodeId, v: NodeId, d: bool) -> bool {
    &&& forall|i: int| 0 <= i < kinds[u as int]@.len() && (#[trigger] kinds[u as int]@[i]).0 == v
        ==> (kinds[u as int]@[i].1 == EdgeKind::Back <==> d)
    &&& d ==> exists|i: int| 0 <= i < kinds[u as int]@.len() && #[trigger] kinds[u as int]@[i] == (v, EdgeKind::Back)
}

proof fn lemma_back_exactly_recorded(kinds: Seq<Vec<(NodeId, EdgeKind)>>, u: NodeId, v: NodeId, d: bool)
    requires
        u < kinds.len(),
        back_exactly(kinds, u, v, d),
    ensures
        recorded_kind(kinds, u, v) == Some(EdgeKind::Back) <==> d,
{
    if d {
        let i = choose|i: int| 0 <= i < kinds[u as int]@.len() && #[trigger] kinds[u as int]@[i] == (v, EdgeKind::Back);
        assert(kinds[u as int]@[i].0 == v);
    }
}

/// A node on a path from the entry reaches the path's end.
proof fn lemma_on_path_reaches(cfg: &Cfg, path: Seq<NodeId>, a: NodeId)
    requires
        is_path(cfg, path),
        path.contains(a),
    ensures
        reaches(cfg, a, path.last()),
{
    let k = choose|k: int| 0 <= k < path.len() && path[k] == a;
    let p = path.subrange(k, path.len() as int);
    assert forall|i: int| 0 <= i < p.len() - 1 implies #[trigger] cfg.has_edge(p[i], p[i + 1]) by {
        assert(p[i] == path[k + i] && p[i + 1] == path[k + i + 1]);
        assert(cfg.has_edge(path[k + i], path[k + i + 1]));
    }
    assert(is_path(cfg, p) && p[0] == a && p.last() == path.last());
}

/// Every node the entry reaches is in the post-order of the dominator walk.
proof fn lemma_reached_in_post_order(cfg: &Cfg, dom: &DominatorInfo, path: Seq<NodeId>)
    requires
        cfg.wf(),
        is_dominator_info(cfg, dom),
        cfg.nodes@.len() > 0,
        cfg.entry < cfg.nodes@.len(),
        is_path(cfg, path),
        path[0] == cfg.entry,
    ensures
        dom.post_order@.contains(path.last()),
    decreases path.len(),
{
    if path.len() == 1 {
        assert(dom.post_order@[dom.post_order@.len() - 1] == cfg.entry);
    } else {
        let q = path.drop_last();
        assert forall|i: int| 0 <= i < q.len() - 1 implies #[trigger] cfg.has_edge(q[i], q[i + 1]) by {
            assert(cfg.has_edge(path[i], path[i + 1]));
        }
        lemma_reached_in_post_order(cfg, dom, q);
        let i = choose|i: int| 0 <= i < dom.post_order@.len() && dom.post_order@[i] == q.last();
        let m = path.len() - 2;
        assert(cfg.has_edge(path[m], path[m + 1]));
        assert(path[m] == q.last());
        assert(cfg.has_edge(dom.post_order@[i], path.last()));
    }
}

/// Mark as back edges exactly the edges out of reachable nodes whose target
/// dominates their source; an edge the walk took for a back edge whose target
/// does not dominate its source becomes a cross edge.
fn mark_back_edges(cfg: &Cfg, dom: &DominatorInfo, kinds: &mut Vec<Vec<(NodeId, EdgeKind)>>)
    requires
        cfg.wf(),
        is_dominator_info(cfg, dom),
        cfg.nodes@.len() > 0,
        cfg.entry < cfg.nodes@.len(),
        classification_sound(cfg, old(kinds)@),
    ensures
        classification_sound(cfg, final(kinds)@),
        forall|u: NodeId, v: NodeId| u < cfg.nodes@.len() && reaches(cfg, cfg.entry, u) && #[trigger] cfg.has_edge(u, v)
            ==> (recorded_kind(final(kinds)@, u, v) == Some(EdgeKind::Back) <==> dom.spec_dominates(v, u)),
        forall|w: int| 0 <= w < cfg.nodes@.len() && !reaches(cfg, cfg.entry, w as NodeId) ==> #[trigger] final(kinds)@[w] == old(kinds)@[w],
{
    let ghost k0 = kinds@;
    let n = cfg.nodes.len();
    let po = &dom.post_order;
    let mut p: usize = 0;
    while p < po.len()
        invariant
            cfg.wf(),
            is_dominator_info(cfg, dom),
            n == cfg.nodes@.len(),
            n > 0,
            cfg.entry < n,
            *po == dom.post_order,
            p <= po@.len(),
            classification_sound(cfg, kinds@),
            forall|q: int, v: NodeId| 0 <= q < p && #[trigger] cfg.has_edge(po@[q], v)
                ==> back_exactly(kinds@, po@[q], v, dom.spec_dominates(v, po@[q])),
            k0.len() == n,
            forall|w: int| 0 <= w < n && !reaches(cfg, cfg.entry, w as NodeId) ==> #[trigger] kinds@[w] == k0[w],
        decreases po@.len() - p,
    {
        let u = po[p];
        assert(reaches(cfg, cfg.entry, u));
        assert(u < n) by {
            let w = choose|path: Seq<NodeId>| is_path(cfg, path) && path[0] == cfg.entry && path.last() == u;
            if w.len() > 1 {
                let m = w.len() - 2;
                assert(cfg.has_edge(w[m], w[m + 1]));
                let k = choose|k: int| 0 <= k < cfg.successors@[w[m] as int]@.len() && cfg.successors@[w[m] as int]@[k] == u;
                assert(cfg.successors@[w[m] as int]@[k] < cfg.nodes@.len());
            }
        }
        let succ = &cfg.successors[u];
        let mut j: usize = 0;
        while j < succ.len()
            invariant
                cfg.wf(),
                is_dominator_info(cfg, dom),
                n == cfg.nodes@.len(),
                *po == dom.post_order,
                p < po@.len(),
                u == po@[p as int],
                u < n,
                reaches(cfg, cfg.entry, u),
                *succ == cfg.successors@[u as int],
                j <= succ@.len(),
                classification_sound(cfg, kinds@),
                dom.post_order@.no_duplicates(),
                forall|q: int, v: NodeId| 0 <= q < p && #[trigger] cfg.has_edge(po@[q], v)
                    ==> back_exactly(kinds@, po@[q], v, dom.spec_dominates(v, po@[q])),
                forall|t: int| 0 <= t < j ==> back_exactly(kinds@, u, #[trigger] succ@[t], dom.spec_dominates(succ@[t], u)),
                k0.len() == n,
                forall|w: int| 0 <= w < n && !reaches(cfg, cfg.entry, w as NodeId) ==> #[trigger] kinds@[w] == k0[w],
            decreases succ@.len() - j,
        {
            let v = succ[j];
            assert(v < n) by {
                assert(cfg.successors@[u as int]@[j as int] < cfg.nodes@.len());
            }
            let d = dom.dominates(v, u);
            let ghost before = kinds@;
            let mut was_back = false;
            let row = &kinds[u];
            let mut k: usize = 0;
            while k < row.len()
                invariant
                    *row == before[u as int],
                    k <= row@.len(),
                    was_back <==> exists|i: int| 0 <= i < k && #[trigger] row@[i] == (v, EdgeKind::Back),
                decreases row@.len() - k,
            {
                if row[k].0 == v && row[k].1 == EdgeKind::Back {
                    was_back = true;
                }
                k += 1;
            }
            if d {
                proof {
                    lemma_dominates_sound(cfg, dom, v, u);
                    let w = choose|path: Seq<NodeId>| is_path(cfg, path) && path[0] == cfg.entry && path.last() == u;
                    assert(w.contains(v));
                    lemma_on_path_reaches(cfg, w, v);
                }
                record_kind(kinds, u, v, EdgeKind::Back);
            } else if was_back {
                record_kind(kinds, u, v, EdgeKind::Cross);
            }
            proof {
                assert(cfg.has_edge(u, v));
                // rows of other nodes are untouched
                assert forall|q: int, x: NodeId| 0 <= q < p && #[trigger] cfg.has_edge(po@[q], x)
                    implies back_exactly(kinds@, po@[q], x, dom.spec_dominates(x, po@[q])) by {
                    assert(po@[q] != u);
                    assert(kinds@[po@[q] as int] == before[po@[q] as int]);
                }
                assert forall|t: int| 0 <= t < j + 1 implies back_exactly(kinds@, u, #[trigger] succ@[t], dom.spec_dominates(succ@[t], u)) by {
                    let x = succ@[t];
                    if x != v {
                        assert(back_exactly(before, u, x, dom.spec_dominates(x, u)));
                        if d || was_back {
                            assert forall|i: int| 0 <= i < kinds@[u as int]@.len() && (#[trigger] kinds@[u as int]@[i]).0 == x
                                implies (kinds@[u as int]@[i].1 == EdgeKind::Back <==> dom.spec_dominates(x, u)) by {
                                assert(before[u as int]@.contains(kinds@[u as int]@[i]));
                            }
                            if dom.spec_dominates(x, u) {
                                let i = choose|i: int| 0 <= i < before[u as int]@.len() && #[trigger] before[u as int]@[i] == (x, EdgeKind::Back);
                                assert(kinds@[u as int]@.contains(before[u as int]@[i]));
                            }
                        }
                    } else {
                        if !d && !was_back {
                            assert forall|i: int| 0 <= i < kinds@[u as int]@.len() && (#[trigger] kinds@[u as int]@[i]).0 == x
                                implies (kinds@[u as int]@[i].1 == EdgeKind::Back <==> dom.spec_dominates(x, u)) by {
                                if kinds@[u as int]@[i].1 == EdgeKind::Back {
                                    assert(row@[i] == (v, EdgeKind::Back));
                                }
                            }
                        }
                    }
                }
            }
            j += 1;
        }
        proof {
            assert forall|q: int, v: NodeId| 0 <= q < p + 1 && #[trigger] cfg.has_edge(po@[q], v)
                implies back_exactly(kinds@, po@[q], v, dom.spec_dominates(v, po@[q])) by {
                if q == p {
                    let t = choose|t: int| 0 <= t < succ@.len() && succ@[t] == v;
                    assert(back_exactly(kinds@, u, succ@[t], dom.spec_dominates(succ@[t], u)));
                }
            }
        }
        p += 1;
    }
    proof {
        assert forall|u: NodeId, v: NodeId| u < cfg.nodes@.len() && reaches(cfg, cfg.entry, u) && #[trigger] cfg.has_edge(u, v)
            implies (recorded_kind(kinds@, u, v) == Some(EdgeKind::Back) <==> dom.spec_dominates(v, u)) by {
            let w = choose|path: Seq<NodeId>| is_path(cfg, path) && path[0] == cfg.entry && path.last() == u;
            lemma_reached_in_post_order(cfg, dom, w);
            let q = choose|q: int| 0 <= q < po@.len() && po@[q] == u;
            assert(cfg.has_edge(po@[q], v));
            lemma_back_exactly_recorded(kinds@, u, v, dom.spec_dominates(v, u));
        }
    }
}

/// Set the kind of edge `(u, v)`, replacing an earlier kind for it.
fn record_kind(kinds: &mut Vec<Vec<(NodeId, EdgeKind)>>, u: NodeId, v: NodeId, k: EdgeKind)
    requires
        u < old(kinds)@.len(),
        kinds_unique(old(kinds)@),
    ensures
        final(kinds)@.len() == old(kinds)@.len(),
        kinds_unique(final(kinds)@),
        forall|w: int| 0 <= w < old(kinds)@.len() && w != u ==> final(kinds)@[w] == old(kinds)@[w],
        forall|i: int| 0 <= i < final(kinds)@[u as int]@.len() ==> {
            let e = #[trigger] final(kinds)@[u as int]@[i];
            e == (v, k) || (e.0 != v && old(kinds)@[u as int]@.contains(e))
        },
        exists|i: int| 0 <= i < final(kinds)@[u as int]@.len() && #[trigger] final(kinds)@[u as int]@[i] == (v, k),
        forall|i: int| 0 <= i < old(kinds)@[u as int]@.len() && (#[trigger] old(kinds)@[u as int]@[i]).0 != v
            ==> final(kinds)@[u as int]@.contains(old(kinds)@[u as int]@[i]),
{
    let mut row: Vec<(NodeId, EdgeKind)> = Vec::new();
    let old_row = &kinds[u];
    let ghost o = old_row@;
    let mut i: usize = 0;
    while i < old_row.len()
        invariant
            *old_row == old(kinds)@[u as int],
            o == old_row@,
            u < old(kinds)@.len(),
            kinds_unique(old(kinds)@),
            i <= o.len(),
            forall|a: int, b: int| 0 <= a < row@.len() && 0 <= b < row@.len() && a != b ==> (#[trigger] row@[a]).0 != (#[trigger] row@[b]).0,
            forall|a: int| 0 <= a < row@.len() ==> (#[trigger] row@[a]).0 != v && o.contains(row@[a]),
            forall|a: int| 0 <= a < row@.len() ==> exists|b: int| 0 <= b < i && o[b] == #[trigger] row@[a],
            forall|b: int| 0 <= b < i && (#[trigger] o[b]).0 != v ==> row@.contains(o[b]),
        decreases o.len() - i,
    {
        let e = old_row[i];
        if e.0 != v {
            let ghost before = row@;
            proof {
                assert forall|a: int| 0 <= a < before.len() implies (#[trigger] before[a]).0 != e.0 by {
                    let b = choose|b: int| 0 <= b < i && o[b] == before[a];
                    assert(b != i as int);
                    assert(old(kinds)@[u as int]@[b].0 != old(kinds)@[u as int]@[i as int].0);
                }
            }
            row.push(e);
            proof {
                assert(row@[before.len() as int] == e);
                assert forall|b: int| 0 <= b < i + 1 && (#[trigger] o[b]).0 != v implies row@.contains(o[b]) by {
                    if b < i {
                        let a = choose|a: int| 0 <= a < before.len() && before[a] == o[b];
                        assert(row@[a] == o[b]);
                    }
                }
                assert forall|a: int| 0 <= a < row@.len() implies exists|b: int| 0 <= b < i + 1 && o[b] == #[trigger] row@[a] by {
                    if a < before.len() {
                        assert(row@[a] == before[a]);
                    } else {
                        assert(o[i as int] == row@[a]);
                    }
                }
            }
        } else {
            proof {
                assert forall|b: int| 0 <= b < i + 1 && (#[trigger] o[b]).0 != v implies row@.contains(o[b]) by {
                }
            }
        }
        i += 1;
    }
    let ghost before = row@;
    row.push((v, k));
    proof {
        assert(row@[before.len() as int] == (v, k));
        assert forall|b: int| 0 <= b < o.len() && (#[trigger] o[b]).0 != v implies row@.contains(o[b]) by {
            let a = choose|a: int| 0 <= a < before.len() && before[a] == o[b];
            assert(row@[a] == o[b]);
        }
    }
    let ghost blen = before.len();
    kinds.set(u, row);
    assert(kinds@[u as int]@[blen as int] == (v, k));
}


/// Depth-first classification of the edges reachable from `node`.
fn dfs_classify(
    cfg: &Cfg,
    node: NodeId,
    visited: &mut Vec<bool>,
    in_stack: &mut Vec<bool>,
    dfs_num: &mut Vec<usize>,
    counter: &mut usize,
    kinds: &mut Vec<Vec<(NodeId, EdgeKind)>>,
)
    requires
        cfg.wf(),
        node < cfg.nodes@.len(),
        old(visited)@.len() == cfg.nodes@.len(),
        old(in_stack)@.len() == cfg.nodes@.len(),
        old(dfs_num)@.len() == cfg.nodes@.len(),
        !old(visited)@[node as int],
        forall|x: int| 0 <= x < cfg.nodes@.len() && #[trigger] old(in_stack)@[x] ==> old(visited)@[x],
        stack_reaches(cfg, old(in_stack)@, node),
        *old(counter) == count_row(old(visited)@),
        classification_sound(cfg, old(kinds)@),
    ensures
        final(visited)@.len() == cfg.nodes@.len(),
        final(in_stack)@ == old(in_stack)@,
        final(dfs_num)@.len() == cfg.nodes@.len(),
        final(visited)@[node as int],
        forall|x: int| 0 <= x < cfg.nodes@.len() && old(visited)@[x] ==> #[trigger] final(visited)@[x],
        *final(counter) == count_row(final(visited)@),
        classification_sound(cfg, final(kinds)@),
        forall|w: int| 0 <= w < cfg.nodes@.len() && !(final(visited)@[w] && !old(visited)@[w]) ==> #[trigger] final(kinds)@[w] == old(kinds)@[w],
        forall|w: int, y: NodeId| 0 <= w < cfg.nodes@.len() && final(visited)@[w] && !old(visited)@[w] && #[trigger] cfg.has_edge(w as NodeId, y)
            ==> recorded_kind(final(kinds)@, w as NodeId, y) is Some,
        forall|w: int| 0 <= w < cfg.nodes@.len() && #[trigger] final(visited)@[w] && !old(visited)@[w] ==> reaches(cfg, node, w as NodeId),
    decreases cfg.nodes@.len() - count_row(visited@),
{
    let ghost v0 = visited@;
    let ghost s0 = in_stack@;
    let ghost k0 = kinds@;
    let n = cfg.nodes.len();
    proof {
        lemma_count_row_subset(v0, v0.update(node as int, true));
        lemma_count_row_bound(v0.update(node as int, true));
        assert(v0 != v0.update(node as int, true)) by {
            assert(v0.update(node as int, true)[node as int]);
        }
    }
    visited.set(node, true);
    in_stack.set(node, true);
    dfs_num.set(node, *counter);
    *counter = *counter + 1;
    proof {
        assert(count_row(v0.update(node as int, true)) == count_row(v0) + 1) by {
            lemma_count_update_one(v0, node as int);
        }
        lemma_reaches_refl(cfg, node);
    }
    let succs = &cfg.successors[node];
    let mut i: usize = 0;
    while i < succs.len()
        invariant
            cfg.wf(),
            n == cfg.nodes@.len(),
            node < n,
            *succs == cfg.successors@[node as int],
            i <= succs@.len(),
            visited@.len() == n,
            in_stack@ == s0.update(node as int, true),
            dfs_num@.len() == n,
            visited@[node as int],
            forall|x: int| 0 <= x < n && v0[x] ==> #[trigger] visited@[x],
            forall|x: int| 0 <= x < n && #[trigger] in_stack@[x] ==> visited@[x],
            stack_reaches(cfg, in_stack@, node),
            *counter == count_row(visited@),
            classification_sound(cfg, kinds@),
            forall|w: int| 0 <= w < n && !(visited@[w] && !v0[w]) ==> #[trigger] kinds@[w] == k0[w],
            forall|w: int, y: NodeId| 0 <= w < n && visited@[w] && !v0[w] && w != node && #[trigger] cfg.has_edge(w as NodeId, y)
                ==> recorded_kind(kinds@, w as NodeId, y) is Some,
            forall|k: int| 0 <= k < i ==> recorded_kind(kinds@, node, #[trigger] succs@[k]) is Some,
            forall|w: int| 0 <= w < n && #[trigger] visited@[w] && !v0[w] ==> reaches(cfg, node, w as NodeId),
            v0 == old(visited)@,
            v0.len() == n,
            !v0[node as int],
            count_row(v0) < count_row(v0.update(node as int, true)),
            count_row(v0.update(node as int, true)) <= n,
            forall|x: int| 0 <= x < n && #[trigger] s0[x] ==> v0[x],
            stack_reaches(cfg, s0, node),
            s0.len() == n,
        decreases succs@.len() - i,
    {
        let succ = succs[i];
        proof {
            assert(succs@[i as int] < n);
            assert(cfg.has_edge(node, succ)) by {
                assert(cfg.successors@[node as int]@[i as int] == succ);
            }
        }
        let ghost kb = kinds@;
        let kind;
        if !visited[succ] {
            let ghost vb = visited@;
            proof {
                assert forall|x: int| 0 <= x < n && #[trigger] v0.update(node as int, true)[x] implies vb[x] by {}
                lemma_count_row_subset(v0.update(node as int, true), vb);
                lemma_count_row_bound(vb);
                assert forall|v: int| 0 <= v < in_stack@.len() && #[trigger] in_stack@[v] implies reaches(cfg, v as NodeId, succ) by {
                    assert(reaches(cfg, v as NodeId, node));
                    lemma_reaches_step(cfg, v as NodeId, node, succ);
                }
            }
            dfs_classify(cfg, succ, visited, in_stack, dfs_num, counter, kinds);
            kind = EdgeKind::Tree;
            proof {
                assert forall|w: int| 0 <= w < n && #[trigger] visited@[w] && !v0[w] implies reaches(cfg, node, w as NodeId) by {
                    if !vb[w] {
                        lemma_reaches_prepend(cfg, node, succ, w as NodeId);
                    }
                }
                assert forall|w: int, y: NodeId| 0 <= w < n && visited@[w] && !v0[w] && w != node && #[trigger] cfg.has_edge(w as NodeId, y)
                    implies recorded_kind(kinds@, w as NodeId, y) is Some by {
                    if !vb[w] {
                    } else {
                        assert(kinds@[w] == kb[w]);
                    }
                }
                assert forall|k: int| 0 <= k < i implies recorded_kind(kinds@, node, #[trigger] succs@[k]) is Some by {
                    assert(kinds@[node as int] == kb[node as int]);
                }
            }
        } else if in_stack[succ] {
            kind = EdgeKind::Back;
        } else if dfs_num[node] < dfs_num[succ] {
            kind = EdgeKind::Forward;
        } else {
            kind = EdgeKind::Cross;
        }
        let ghost kc = kinds@;
        proof {
            if kind == EdgeKind::Back {
                assert(in_stack@[succ as int]);
            }
        }
        record_kind(kinds, node, succ, kind);
        proof {
            let kk = kinds@;
            assert forall|u: int, j: int| 0 <= u < kk.len() && 0 <= j < kk[u]@.len() implies {
                let (v, k) = #[trigger] kk[u]@[j];
                &&& v < cfg.nodes@.len()
                &&& cfg.has_edge(u as NodeId, v)
                &&& (k == EdgeKind::Back ==> reaches(cfg, v, u as NodeId))
            } by {
                if u == node {
                    let e = kk[u]@[j];
                    if e != (succ, kind) {
                        let j2 = choose|j2: int| 0 <= j2 < kc[u]@.len() && kc[u]@[j2] == e;
                        assert(kc[u]@[j2] == e);
                    }
                } else {
                    assert(kk[u] == kc[u]);
                }
            }
            assert forall|w: int, y: NodeId| 0 <= w < n && visited@[w] && !v0[w] && w != node && #[trigger] cfg.has_edge(w as NodeId, y)
                implies recorded_kind(kinds@, w as NodeId, y) is Some by {
                assert(kinds@[w] == kc[w]);
            }
            let j = choose|j: int| 0 <= j < kk[node as int]@.len() && #[trigger] kk[node as int]@[j] == (succ, kind);
            assert(kk[node as int]@[j].0 == succ);
            assert forall|k: int| 0 <= k < i + 1 implies recorded_kind(kinds@, node, #[trigger] succs@[k]) is Some by {
                if k < i && succs@[k] != succ {
                    let y = succs@[k];
                    let j1 = choose|j1: int| 0 <= j1 < kc[node as int]@.len() && (#[trigger] kc[node as int]@[j1]).0 == y;
                    assert(kk[node as int]@.contains(kc[node as int]@[j1]));
                    let j2 = choose|j2: int| 0 <= j2 < kk[node as int]@.len() && kk[node as int]@[j2] == kc[node as int]@[j1];
                    assert((kk[node as int]@[j2]).0 == y);
                }
            }
        }
        i += 1;
    }
    in_stack.set(node, false);
    proof {
        assert(in_stack@ =~= s0) by {
            assert(!s0[node as int]);
        }
        assert forall|w: int, y: NodeId| 0 <= w < n && visited@[w] && !v0[w] && #[trigger] cfg.has_edge(w as NodeId, y)
            implies recorded_kind(kinds@, w as NodeId, y) is Some by {
            if w == node {
                let k = choose|k: int| 0 <= k < succs@.len() && succs@[k] == y;
                assert(recorded_kind(kinds@, node, succs@[k]) is Some);
            }
        }
    }
}

proof fn lemma_reaches_prepend(cfg: &Cfg, a: NodeId, b: NodeId, c: NodeId)
    requires
        cfg.has_edge(a, b),
        reaches(cfg, b, c),
    ensures
        reaches(cfg, a, c),
{
    let path = choose|path: Seq<NodeId>| is_path(cfg, path) && path[0] == b && path.last() == c;
    let p2 = seq![a] + path;
    assert forall|i: int| 0 <= i < p2.len() - 1 implies #[trigger] cfg.has_edge(p2[i], p2[i + 1]) by {
        if i > 0 {
            let j = i - 1;
            assert(p2[i] == path[j] && p2[i + 1] == path[j + 1]);
            assert(cfg.has_edge(path[j], path[j + 1]));
        } else {
            assert(p2[0] == a && p2[1] == path[0]);
        }
    }
    assert(is_path(cfg, p2) && p2[0] == a && p2.last() == c);
}

proof fn lemma_count_update_one(r: Seq<bool>, i: int)
    requires
        0 <= i < r.len(),
        !r[i],
    ensures
        count_row(r.update(i, true)) == count_row(r) + 1,
    decreases r.len(),
{
    if i == r.len() - 1 {
        assert(r.update(i, true).drop_last() =~= r.drop_last());
    } else {
        lemma_count_update_one(r.drop_last(), i);
        assert(r.update(i, true).drop_last() =~= r.drop_last().update(i, true));
    }
}


/// `b` can be reached from `a` along a path that never visits `h`.
pub open spec fn reaches_avoiding(cfg: &Cfg, a: NodeId, b: NodeId, h: NodeId) -> bool {
    exists|path: Seq<NodeId>| is_path(cfg, path) && path[0] == a && path.last() == b && !path.contains(h)
}

/// `body` is the natural loop of `header` with back-edge tails `tails`: the
/// header, plus every node that reaches a tail without passing through the
/// header.
pub open spec fn is_loop_body(cfg: &Cfg, header: NodeId, tails: Seq<NodeId>, body: Seq<NodeId>) -> bool {
    &&& forall|i: int, j: int| 0 <= i < j < body.len() ==> body[i] < body[j]
    &&& forall|x: NodeId| #[trigger] body.contains(x) <==> (x < cfg.nodes@.len() && (x == header
        || exists|k: int| 0 <= k < tails.len() && reaches_avoiding(cfg, x, #[trigger] tails[k], header)))
}

/// The nodes marked in `mask`, in increasing order.
fn mask_to_list(mask: &Vec<bool>) -> (r: Vec<NodeId>)
    ensures
        forall|i: int, j: int| 0 <= i < j < r@.len() ==> r@[i] < r@[j],
        forall|x: NodeId| #[trigger] r@.contains(x) <==> (x < mask@.len() && mask@[x as int]),
{
    let mut r: Vec<NodeId> = Vec::new();
    let mut i: usize = 0;
    while i < mask.len()
        invariant
            i <= mask@.len(),
            forall|a: int, b: int| 0 <= a < b < r@.len() ==> r@[a] < r@[b],
            forall|a: int| 0 <= a < r@.len() ==> #[trigger] r@[a] < i,
            forall|x: NodeId| #[trigger] r@.contains(x) <==> (x < i && mask@[x as int]),
        decreases mask@.len() - i,
    {
        if mask[i] {
            let ghost before = r@;
            r.push(i);
            proof {
                assert(r@[before.len() as int] == i);
                assert forall|x: NodeId| #[trigger] r@.contains(x) <==> (x < i + 1 && mask@[x as int]) by {
                    if r@.contains(x) && x != i {
                        let k = choose|k: int| 0 <= k < r@.len() && r@[k] == x;
                        assert(before[k] == x);
                        assert(before.contains(x));
                    }
                    if x < i && mask@[x as int] {
                        assert(before.contains(x));
                        let k = choose|k: int| 0 <= k < before.len() && before[k] == x;
                        assert(r@[k] == x);
                    }
                }
            }
        } else {
            proof {
                assert forall|x: NodeId| #[trigger] r@.contains(x) <==> (x < i + 1 && mask@[x as int]) by {
                    if r@.contains(x) {
                        let k = choose|k: int| 0 <= k < r@.len() && r@[k] == x;
                    }
                }
            }
        }
        i += 1;
    }
    r
}

/// Find the body of a natural loop
#[verifier::spinoff_prover]
fn find_natural_loop_body(cfg: &Cfg, header: NodeId, tails: &Vec<NodeId>) -> (body: Vec<NodeId>)
    requires
        cfg.wf(),
        header < cfg.nodes@.len(),
        forall|k: int| 0 <= k < tails@.len() ==> #[trigger] tails@[k] < cfg.nodes@.len(),
    ensures
        is_loop_body(cfg, header, tails@, body@),
        forall|x: NodeId| #[trigger] body@.contains(x) && x != header ==>
            forall|p: NodeId| #[trigger] cfg.predecessors@[x as int]@.contains(p) ==> body@.contains(p),
{
    let n = cfg.nodes.len();
    let mut in_body: Vec<bool> = Vec::new();
    let mut i: usize = 0;
    while i < n
        invariant
            i <= n,
            in_body@.len() == i,
            forall|k: int| 0 <= k < i ==> (#[trigger] in_body@[k] <==> k == header),
        decreases n - i,
    {
        in_body.push(i == header);
        i += 1;
    }
    let mut worklist: Vec<NodeId> = Vec::new();
    proof {
        assert forall|x: int| 0 <= x < n && #[trigger] in_body@[x] implies (x == header
            || exists|k: int| 0 <= k < tails@.len() && reaches_avoiding(cfg, x as NodeId, #[trigger] tails@[k], header)) by {}
    }
    let mut k: usize = 0;
    while k < tails.len()
        invariant
            cfg.wf(),
            n == cfg.nodes@.len(),
            header < n,
            forall|j: int| 0 <= j < tails@.len() ==> #[trigger] tails@[j] < n,
            k <= tails@.len(),
            in_body@.len() == n,
            in_body@[header as int],
            forall|j: int| 0 <= j < k ==> #[trigger] in_body@[tails@[j] as int],
            forall|x: int| 0 <= x < n && #[trigger] in_body@[x] ==> (x == header
                || exists|j: int| 0 <= j < tails@.len() && reaches_avoiding(cfg, x as NodeId, #[trigger] tails@[j], header)),
            forall|x: NodeId| x < n && #[trigger] in_body@[x as int] && x != header ==> worklist@.contains(x),
            forall|j: int| 0 <= j < worklist@.len() ==> #[trigger] worklist@[j] < n && in_body@[worklist@[j] as int] && worklist@[j] != header,
            worklist@.no_duplicates(),
        decreases tails@.len() - k,
    {
        let t = tails[k];
        if !in_body[t] {
            let ghost wb = worklist@;
            in_body.set(t, true);
            worklist.push(t);
            proof {
                let path = seq![t];
                assert(is_path(cfg, path) && path[0] == t && path.last() == t && !path.contains(header));
                assert(reaches_avoiding(cfg, t, tails@[k as int], header));
                assert(worklist@[wb.len() as int] == t);
                assert forall|x: NodeId| x < n && #[trigger] in_body@[x as int] && x != header implies worklist@.contains(x) by {
                    if x != t {
                        let j = choose|j: int| 0 <= j < wb.len() && wb[j] == x;
                        assert(worklist@[j] == x);
                    }
                }
                assert forall|a: int, b: int| 0 <= a < worklist@.len() && 0 <= b < worklist@.len() && a != b implies worklist@[a] != worklist@[b] by {
                    if a == wb.len() {
                        assert(!in_body@.update(t as int, false)[t as int]);
                    }
                }
            }
        }
        k += 1;
    }
    let mut head: usize = 0;
    while head < worklist.len()
        invariant
            cfg.wf(),
            n == cfg.nodes@.len(),
            header < n,
            forall|j: int| 0 <= j < tails@.len() ==> #[trigger] tails@[j] < n,
            in_body@.len() == n,
            in_body@[header as int],
            forall|j: int| 0 <= j < tails@.len() ==> #[trigger] in_body@[tails@[j] as int],
            forall|x: int| 0 <= x < n && #[trigger] in_body@[x] ==> (x == header
                || exists|j: int| 0 <= j < tails@.len() && reaches_avoiding(cfg, x as NodeId, #[trigger] tails@[j], header)),
            head <= worklist@.len(),
            forall|j: int| 0 <= j < worklist@.len() ==> #[trigger] worklist@[j] < n && in_body@[worklist@[j] as int] && worklist@[j] != header,
            worklist@.no_duplicates(),
            forall|x: NodeId| x < n && #[trigger] in_body@[x as int] && x != header ==> worklist@.contains(x),
            forall|j: int, p: NodeId| 0 <= j < head && #[trigger] cfg.predecessors@[worklist@[j] as int]@.contains(p) ==> in_body@[p as int],
        decreases n - count_row(in_body@), worklist@.len() - head,
    {
        let node = worklist[head];
        proof {
            lemma_count_row_bound(in_body@);
        }
        let ghost count_before = count_row(in_body@);
        let ghost len_before = worklist@.len();
        let preds = &cfg.predecessors[node];
        let mut j: usize = 0;
        while j < preds.len()
            invariant
                cfg.wf(),
                n == cfg.nodes@.len(),
                header < n,
                node < n,
                node != header,
                in_body@[node as int],
                *preds == cfg.predecessors@[node as int],
                forall|jj: int| 0 <= jj < tails@.len() ==> #[trigger] tails@[jj] < n,
                j <= preds@.len(),
                in_body@.len() == n,
                in_body@[header as int],
                forall|jj: int| 0 <= jj < tails@.len() ==> #[trigger] in_body@[tails@[jj] as int],
                forall|x: int| 0 <= x < n && #[trigger] in_body@[x] ==> (x == header
                    || exists|jj: int| 0 <= jj < tails@.len() && reaches_avoiding(cfg, x as NodeId, #[trigger] tails@[jj], header)),
                head < worklist@.len(),
                worklist@[head as int] == node,
                forall|jj: int| 0 <= jj < worklist@.len() ==> #[trigger] worklist@[jj] < n && in_body@[worklist@[jj] as int] && worklist@[jj] != header,
                worklist@.no_duplicates(),
                forall|x: NodeId| x < n && #[trigger] in_body@[x as int] && x != header ==> worklist@.contains(x),
                forall|jj: int, p: NodeId| 0 <= jj < head && #[trigger] cfg.predecessors@[worklist@[jj] as int]@.contains(p) ==> in_body@[p as int],
                forall|jj: int| 0 <= jj < j ==> in_body@[#[trigger] preds@[jj] as int],
                count_row(in_body@) >= count_before,
                worklist@.len() >= len_before,
                count_row(in_body@) == count_before ==> worklist@.len() == len_before,
                count_row(in_body@) <= n,
            decreases preds@.len() - j,
        {
            let p = preds[j];
            assert(preds@[j as int] < n);
            if !in_body[p] {
                let ghost wb = worklist@;
                let ghost ib = in_body@;
                proof {
                    lemma_count_update_one(ib, p as int);
                    lemma_count_row_bound(ib.update(p as int, true));
                    // p reaches a tail avoiding the header through node
                    let jj = choose|jj: int| 0 <= jj < tails@.len() && reaches_avoiding(cfg, node, #[trigger] tails@[jj], header);
                    let path = choose|path: Seq<NodeId>| is_path(cfg, path) && path[0] == node && path.last() == tails@[jj] && !path.contains(header);
                    let ext = seq![p] + path;
                    assert(cfg.predecessors@[node as int]@.contains(p));
                    assert(cfg.successors@[p as int]@.contains(node));
                    assert forall|a: int| 0 <= a < ext.len() - 1 implies #[trigger] cfg.has_edge(ext[a], ext[a + 1]) by {
                        if a == 0 {
                            assert(ext[0] == p && ext[1] == node);
                        } else {
                            let j = a - 1;
                            assert(0 <= j < path.len() - 1);
                            assert(ext[a] == path[j] && ext[a + 1] == path[j + 1]);
                            assert(is_path(cfg, path));
                            assert(cfg.has_edge(path[j], path[j + 1]));
                        }
                    }
                    assert(!ext.contains(header)) by {
                        if ext.contains(header) {
                            let a = choose|a: int| 0 <= a < ext.len() && ext[a] == header;
                            if a > 0 {
                                assert(path[a - 1] == header);
                            } else {
                                assert(ib[header as int]);
                            }
                        }
                    }
                    assert(ext.last() == path.last());
                    assert(reaches_avoiding(cfg, p, tails@[jj], header));
                }
                in_body.set(p, true);
                worklist.push(p);
                proof {
                    assert(worklist@[wb.len() as int] == p);
                    assert forall|x: NodeId| x < n && #[trigger] in_body@[x as int] && x != header implies worklist@.contains(x) by {
                        if x != p {
                            assert(ib[x as int]);
                            assert(wb.contains(x));
                            let a = choose|a: int| 0 <= a < wb.len() && wb[a] == x;
                            assert(worklist@[a] == x);
                        }
                    }
                    assert forall|a: int, b: int| 0 <= a < worklist@.len() && 0 <= b < worklist@.len() && a != b implies worklist@[a] != worklist@[b] by {
                        if a == wb.len() {
                            assert(!ib[p as int]);
                            assert(ib[wb[b] as int]);
                        } else if b == wb.len() {
                            assert(ib[wb[a] as int]);
                        }
                    }
                    assert forall|jj: int, q: NodeId| 0 <= jj < head && #[trigger] cfg.predecessors@[worklist@[jj] as int]@.contains(q) implies in_body@[q as int] by {
                        assert(worklist@[jj] == wb[jj]);
                        assert(ib[q as int]);
                    }
                    assert forall|jj: int| 0 <= jj < worklist@.len() implies #[trigger] worklist@[jj] < n && in_body@[worklist@[jj] as int] && worklist@[jj] != header by {
                        if jj < wb.len() {
                            assert(worklist@[jj] == wb[jj]);
                        }
                    }
                }
            }
            j += 1;
        }
        proof {
            assert forall|jj: int, q: NodeId| 0 <= jj < head + 1 && #[trigger] cfg.predecessors@[worklist@[jj] as int]@.contains(q) implies in_body@[q as int] by {
                if jj == head {
                    let a = choose|a: int| 0 <= a < preds@.len() && preds@[a] == q;
                }
            }
        }
        head += 1;
    }
    let body = mask_to_list(&in_body);
    proof {
        assert forall|x: NodeId| #[trigger] body@.contains(x) && x != header implies
            forall|p: NodeId| #[trigger] cfg.predecessors@[x as int]@.contains(p) ==> body@.contains(p) by {
            assert(worklist@.contains(x));
            let jj = choose|jj: int| 0 <= jj < worklist@.len() && worklist@[jj] == x;
            assert forall|p: NodeId| #[trigger] cfg.predecessors@[x as int]@.contains(p) implies body@.contains(p) by {
                assert(cfg.predecessors@[worklist@[jj] as int]@.contains(p));
                let a = choose|a: int| 0 <= a < cfg.predecessors@[x as int]@.len() && cfg.predecessors@[x as int]@[a] == p;
                assert(cfg.predecessors@[x as int]@[a] < n);
            }
        }
        assert forall|x: NodeId| #[trigger] body@.contains(x) <==> (x < cfg.nodes@.len() && (x == header
            || exists|k: int| 0 <= k < tails@.len() && reaches_avoiding(cfg, x, #[trigger] tails@[k], header))) by {
            if x < n && x != header && exists|k: int| 0 <= k < tails@.len() && reaches_avoiding(cfg, x, #[trigger] tails@[k], header) {
                let k = choose|k: int| 0 <= k < tails@.len() && reaches_avoiding(cfg, x, #[trigger] tails@[k], header);
                let path = choose|path: Seq<NodeId>| is_path(cfg, path) && path[0] == x && path.last() == tails@[k] && !path.contains(header);
                lemma_backward_closed(cfg, header, in_body@, path);
            }
        }
    }
    body
}

/// A set that holds the last node of a path and all predecessors of its
/// members other than `h` holds every node of a path avoiding `h`.
proof fn lemma_backward_closed(cfg: &Cfg, h: NodeId, set: Seq<bool>, path: Seq<NodeId>)
    requires
        cfg.wf(),
        set.len() == cfg.nodes@.len(),
        is_path(cfg, path),
        !path.contains(h),
        path.last() < cfg.nodes@.len(),
        set[path.last() as int],
        forall|x: NodeId, p: NodeId| x < cfg.nodes@.len() && x != h && set[x as int] && #[trigger] cfg.predecessors@[x as int]@.contains(p) ==> set[p as int],
    ensures
        set[path[0] as int],
    decreases path.len(),
{
    if path.len() > 1 {
        let rest = path.drop_first();
        assert forall|i: int| 0 <= i < rest.len() - 1 implies #[trigger] cfg.has_edge(rest[i], rest[i + 1]) by {
            assert(cfg.has_edge(path[i + 1], path[i + 1 + 1]));
        }
        assert(!rest.contains(h)) by {
            if rest.contains(h) {
                let a = choose|a: int| 0 <= a < rest.len() && rest[a] == h;
                assert(path[a + 1] == h);
            }
        }
        lemma_backward_closed(cfg, h, set, rest);
        assert(cfg.has_edge(path[0], path[0int + 1]));
        let x = path[1];
        assert(x < cfg.nodes@.len());
        assert(cfg.successors@[path[0] as int]@.contains(x));
        assert(path[0] < cfg.nodes@.len());
        assert(cfg.predecessors@[x as int]@.contains(path[0]));
        assert(x != h) by {
            assert(path[1] == x);
        }
    }
}


/// `(u, v)` leaves the loop body `body`.
pub open spec fn is_exit_edge(cfg: &Cfg, body: Seq<NodeId>, u: NodeId, v: NodeId) -> bool {
    body.contains(u) && cfg.has_edge(u, v) && !body.contains(v)
}

/// Whether a sorted list contains `x`.
fn list_contains(list: &Vec<NodeId>, x: NodeId) -> (r: bool)
    ensures
        r == list@.contains(x),
{
    let mut i: usize = 0;
    while i < list.len()
        invariant
            i <= list@.len(),
            forall|k: int| 0 <= k < i ==> list@[k] != x,
        decreases list@.len() - i,
    {
        if list[i] == x {
            return true;
        }
        i += 1;
    }
    false
}

/// Find edges that exit the loop
fn find_exit_edges(cfg: &Cfg, body: &Vec<NodeId>) -> (exits: Vec<(NodeId, NodeId)>)
    requires
        cfg.wf(),
        forall|k: int| 0 <= k < body@.len() ==> #[trigger] body@[k] < cfg.nodes@.len(),
    ensures
        forall|u: NodeId, v: NodeId| #[trigger] exits@.contains((u, v)) <==> is_exit_edge(cfg, body@, u, v),
{
    let mut exits: Vec<(NodeId, NodeId)> = Vec::new();
    let mut i: usize = 0;
    while i < body.len()
        invariant
            cfg.wf(),
            forall|k: int| 0 <= k < body@.len() ==> #[trigger] body@[k] < cfg.nodes@.len(),
            i <= body@.len(),
            forall|u: NodeId, v: NodeId| #[trigger] exits@.contains((u, v)) <==>
                (is_exit_edge(cfg, body@, u, v) && exists|k: int| 0 <= k < i && body@[k] == u),
        decreases body@.len() - i,
    {
        let node = body[i];
        let succs = &cfg.successors[node];
        let ghost e0 = exits@;
        let mut j: usize = 0;
        while j < succs.len()
            invariant
                cfg.wf(),
                forall|k: int| 0 <= k < body@.len() ==> #[trigger] body@[k] < cfg.nodes@.len(),
                i < body@.len(),
                node == body@[i as int],
                *succs == cfg.successors@[node as int],
                j <= succs@.len(),
                forall|u: NodeId, v: NodeId| #[trigger] exits@.contains((u, v)) <==>
                    (e0.contains((u, v)) || (u == node && !body@.contains(v) && exists|k: int| 0 <= k < j && succs@[k] == v)),
            decreases succs@.len() - j,
        {
            let succ = succs[j];
            if !list_contains(body, succ) {
                let ghost before = exits@;
                exits.push((node, succ));
                proof {
                    assert(exits@[before.len() as int] == (node, succ));
                    assert forall|u: NodeId, v: NodeId| #[trigger] exits@.contains((u, v)) <==>
                        (e0.contains((u, v)) || (u == node && !body@.contains(v) && exists|k: int| 0 <= k < j + 1 && succs@[k] == v)) by {
                        if exits@.contains((u, v)) && (u, v) != (node, succ) {
                            let a = choose|a: int| 0 <= a < exits@.len() && exits@[a] == (u, v);
                            assert(before[a] == (u, v));
                            assert(before.contains((u, v)));
                        }
                        if e0.contains((u, v)) || (u == node && !body@.contains(v) && exists|k: int| 0 <= k < j && succs@[k] == v) {
                            assert(before.contains((u, v)));
                            let a = choose|a: int| 0 <= a < before.len() && before[a] == (u, v);
                            assert(exits@[a] == (u, v));
                        }
                    }
                }
            }
            j += 1;
        }
        proof {
            assert forall|u: NodeId, v: NodeId| #[trigger] exits@.contains((u, v)) <==>
                (is_exit_edge(cfg, body@, u, v) && exists|k: int| 0 <= k < i + 1 && body@[k] == u) by {
                if u == node && cfg.has_edge(u, v) {
                    let k = choose|k: int| 0 <= k < succs@.len() && succs@[k] == v;
                }
                if exits@.contains((u, v)) && !e0.contains((u, v)) {
                    let k = choose|k: int| 0 <= k < j && succs@[k] == v;
                    assert(cfg.successors@[node as int]@[k] == v);
                    assert(body@[i as int] == u);
                }
            }
        }
        i += 1;
    }
    proof {
        assert forall|u: NodeId, v: NodeId| #[trigger] exits@.contains((u, v)) <==> is_exit_edge(cfg, body@, u, v) by {
            if is_exit_edge(cfg, body@, u, v) {
                let k = choose|k: int| 0 <= k < body@.len() && body@[k] == u;
            }
        }
    }
    exits
}

/// The sources of a list of edges, in increasing order.
fn edge_sources(edges: &Vec<(NodeId, NodeId)>, n: usize) -> (r: Vec<NodeId>)
    requires
        forall|k: int| 0 <= k < edges@.len() ==> (#[trigger] edges@[k]).0 < n,
    ensures
        forall|i: int, j: int| 0 <= i < j < r@.len() ==> r@[i] < r@[j],
        forall|x: NodeId| #[trigger] r@.contains(x) <==> exists|k: int| 0 <= k < edges@.len() && (#[trigger] edges@[k]).0 == x,
{
    let mut mask: Vec<bool> = Vec::new();
    let mut i: usize = 0;
    while i < n
        invariant
            i <= n,
            mask@.len() == i,
            forall|k: int| 0 <= k < i ==> !#[trigger] mask@[k],
        decreases n - i,
    {
        mask.push(false);
        i += 1;
    }
    let mut k: usize = 0;
    while k < edges.len()
        invariant
            forall|a: int| 0 <= a < edges@.len() ==> (#[trigger] edges@[a]).0 < n,
            mask@.len() == n,
            k <= edges@.len(),
            forall|x: int| 0 <= x < n ==> (#[trigger] mask@[x] <==> exists|a: int| 0 <= a < k && (#[trigger] edges@[a]).0 == x),
        decreases edges@.len() - k,
    {
        let u = edges[k].0;
        mask.set(u, true);
        proof {
            assert forall|x: int| 0 <= x < n implies (#[trigger] mask@[x] <==> exists|a: int| 0 <= a < k + 1 && (#[trigger] edges@[a]).0 == x) by {
                if x == u {
                    assert(edges@[k as int].0 == x);
                }
            }
        }
        k += 1;
    }
    mask_to_list(&mask)
}

impl NaturalLoop {
    /// Check if this loop contains a node
    pub fn contains(&self, node: NodeId) -> (r: bool)
        ensures
            r == self.body@.contains(node),
    {
        list_contains(&self.body, node)
    }

    /// Get the single exit node if this loop has exactly one exit target
    pub fn single_exit(&self) -> (r: Option<NodeId>)
        ensures
            r matches Some(t) ==> self.exit_edges@.len() > 0
                && forall|k: int| 0 <= k < self.exit_edges@.len() ==> (#[trigger] self.exit_edges@[k]).1 == t,
            r is None ==> self.exit_edges@.len() == 0
                || exists|a: int, b: int| 0 <= a < self.exit_edges@.len() && 0 <= b < self.exit_edges@.len()
                    && (#[trigger] self.exit_edges@[a]).1 != (#[trigger] self.exit_edges@[b]).1,
    {
        if self.exit_edges.len() == 0 {
            return None;
        }
        let t = self.exit_edges[0].1;
        let mut k: usize = 1;
        while k < self.exit_edges.len()
            invariant
                self.exit_edges@.len() > 0,
                t == self.exit_edges@[0].1,
                1 <= k <= self.exit_edges@.len(),
                forall|a: int| 0 <= a < k ==> (#[trigger] self.exit_edges@[a]).1 == t,
            decreases self.exit_edges@.len() - k,
        {
            if self.exit_edges[k].1 != t {
                assert(self.exit_edges@[0].1 != self.exit_edges@[k as int].1);
                return None;
            }
            k += 1;
        }
        Some(t)
    }
}


/// The kind recorded for edge `(u, v)`.
fn kind_of(kinds: &Vec<Vec<(NodeId, EdgeKind)>>, u: NodeId, v: NodeId) -> (r: Option<EdgeKind>)
    requires
        kinds_unique(kinds@),
    ensures
        r == recorded_kind(kinds@, u, v),
{
    if u >= kinds.len() {
        return None;
    }
    let row = &kinds[u];
    let mut i: usize = 0;
    while i < row.len()
        invariant
            u < kinds@.len(),
            kinds_unique(kinds@),
            *row == kinds@[u as int],
            i <= row@.len(),
            forall|k: int| 0 <= k < i ==> (#[trigger] row@[k]).0 != v,
        decreases row@.len() - i,
    {
        if row[i].0 == v {
            assert(kinds@[u as int]@[i as int].0 == v);
            proof {
                let c = choose|c: int| 0 <= c < kinds@[u as int]@.len() && (#[trigger] kinds@[u as int]@[c]).0 == v;
                assert(kinds@[u as int]@[c].0 == v);
                if c != i as int {
                    assert(kinds@[u as int]@[c].0 != kinds@[u as int]@[i as int].0);
                }
                assert(c == i);
            }
            return Some(row[i].1);
        }
        i += 1;
    }
    None
}

/// The tails of the back edges into `h`, in increasing order.
pub open spec fn is_back_tail_list(kinds: Seq<Vec<(NodeId, EdgeKind)>>, n: nat, h: NodeId, tails: Seq<NodeId>) -> bool {
    &&& forall|i: int, j: int| 0 <= i < j < tails.len() ==> tails[i] < tails[j]
    &&& forall|t: NodeId| #[trigger] tails.contains(t) <==> (t < n && recorded_kind(kinds, t, h) == Some(EdgeKind::Back))
}

/// `lp` is the natural loop of header `lp.header` for the classified edges.
pub open spec fn is_natural_loop_of(cfg: &Cfg, kinds: Seq<Vec<(NodeId, EdgeKind)>>, lp: NaturalLoop) -> bool {
    let n = cfg.nodes@.len();
    let tails = lp.back_edges@.map_values(|e: (NodeId, NodeId)| e.0);
    &&& lp.header < n
    &&& forall|k: int| 0 <= k < lp.back_edges@.len() ==> (#[trigger] lp.back_edges@[k]).1 == lp.header
    &&& is_back_tail_list(kinds, n, lp.header, tails)
    &&& tails.len() > 0
    &&& is_loop_body(cfg, lp.header, tails, lp.body@)
    &&& forall|u: NodeId, v: NodeId| #[trigger] lp.exit_edges@.contains((u, v)) <==> is_exit_edge(cfg, lp.body@, u, v)
    &&& forall|i: int, j: int| 0 <= i < j < lp.exiting_nodes@.len() ==> lp.exiting_nodes@[i] < lp.exiting_nodes@[j]
    &&& forall|x: NodeId| #[trigger] lp.exiting_nodes@.contains(x) <==> exists|k: int| 0 <= k < lp.exit_edges@.len() && (#[trigger] lp.exit_edges@[k]).0 == x
}

/// Loop `i` encloses loop `j`: its body contains all of `j`'s body.
pub open spec fn encloses(ls: Seq<NaturalLoop>, i: int, j: int) -> bool {
    &&& 0 <= i < ls.len()
    &&& 0 <= j < ls.len()
    &&& i != j
    &&& forall|x: NodeId| #[trigger] ls[j].body@.contains(x) ==> ls[i].body@.contains(x)
    &&& ls[i].body@.contains(ls[j].header)
}

/// Loop `a` is at least as good a choice as loop `b`: smaller, or as small and earlier.
pub open spec fn no_worse(ls: Seq<NaturalLoop>, a: int, b: int) -> bool {
    ls[a].body@.len() < ls[b].body@.len() || (ls[a].body@.len() == ls[b].body@.len() && a <= b)
}

/// `c` is the best loop below `bound` that encloses loop `j`.
pub open spec fn best_encloser(ls: Seq<NaturalLoop>, j: int, bound: int, c: int) -> bool {
    &&& c < bound
    &&& encloses(ls, c, j)
    &&& forall|i2: int| i2 < bound && #[trigger] encloses(ls, i2, j) ==> no_worse(ls, c, i2)
}

/// `r` is the parent of loop `j` among the loops below `bound`: the smallest
/// enclosing loop, the first of them on ties, or none when none encloses it.
pub open spec fn parent_ok(ls: Seq<NaturalLoop>, j: int, bound: int, r: Option<usize>) -> bool {
    match r {
        Some(c) => best_encloser(ls, j, bound, c as int),
        None => forall|k: int| k < bound ==> !#[trigger] encloses(ls, k, j),
    }
}

/// Loop `i` contains node `x`.
pub open spec fn holds_node(ls: Seq<NaturalLoop>, i: int, x: NodeId) -> bool {
    0 <= i < ls.len() && ls[i].body@.contains(x)
}

/// `c` is the best loop below `bound` that contains node `x`.
pub open spec fn best_holder(ls: Seq<NaturalLoop>, x: NodeId, bound: int, c: int) -> bool {
    &&& c < bound
    &&& holds_node(ls, c, x)
    &&& forall|i2: int| i2 < bound && #[trigger] holds_node(ls, i2, x) ==> no_worse(ls, c, i2)
}

/// `r` is the innermost loop containing `x` among the loops below `bound`:
/// the smallest one, the first of them on ties, or none when none contains it.
pub open spec fn innermost_ok(ls: Seq<NaturalLoop>, x: NodeId, bound: int, r: Option<usize>) -> bool {
    match r {
        Some(c) => best_holder(ls, x, bound, c as int),
        None => forall|k: int| k < bound ==> !#[trigger] holds_node(ls, k, x),
    }
}

/// Whether every node of `b` is in `a`.
fn list_superset(a: &Vec<NodeId>, b: &Vec<NodeId>) -> (r: bool)
    ensures
        r == forall|x: NodeId| #[trigger] b@.contains(x) ==> a@.contains(x),
{
    let mut i: usize = 0;
    while i < b.len()
        invariant
            i <= b@.len(),
            forall|k: int| 0 <= k < i ==> a@.contains(#[trigger] b@[k]),
        decreases b@.len() - i,
    {
        if !list_contains(a, b[i]) {
            assert(b@.contains(b@[i as int]));
            return false;
        }
        i += 1;
    }
    proof {
        assert forall|x: NodeId| #[trigger] b@.contains(x) implies a@.contains(x) by {
            let k = choose|k: int| 0 <= k < b@.len() && b@[k] == x;
        }
    }
    true
}

/// The parent of loop `j`.
fn find_parent(loops: &Vec<NaturalLoop>, j: usize) -> (r: Option<usize>)
    requires
        j < loops@.len(),
    ensures
        parent_ok(loops@, j as int, loops@.len() as int, r),
{
    let ghost ls = loops@;
    let mut best: Option<usize> = None;
    let mut i: usize = 0;
    while i < loops.len()
        invariant
            ls == loops@,
            j < loops@.len(),
            i <= loops@.len(),
            best is None ==> forall|k: int| k < i ==> !#[trigger] encloses(ls, k, j as int),
            best matches Some(b) ==> best_encloser(ls, j as int, i as int, b as int),
        decreases loops@.len() - i,
    {
        let enc = i != j && list_superset(&loops[i].body, &loops[j].body) && list_contains(&loops[i].body, loops[j].header);
        assert(enc == encloses(ls, i as int, j as int));
        let take = match best {
            None => enc,
            Some(p) => enc && loops[p].body.len() > loops[i].body.len(),
        };
        if take {
            best = Some(i);
        }
        proof {
            if let Some(b) = best {
                assert forall|i2: int| i2 < i + 1 && #[trigger] encloses(ls, i2, j as int) implies no_worse(ls, b as int, i2) by {}
            }
        }
        i += 1;
    }
    best
}

/// The innermost loop containing `x`.
fn find_innermost(loops: &Vec<NaturalLoop>, x: NodeId) -> (r: Option<usize>)
    ensures
        innermost_ok(loops@, x, loops@.len() as int, r),
{
    let ghost ls = loops@;
    let mut best: Option<usize> = None;
    let mut i: usize = 0;
    while i < loops.len()
        invariant
            ls == loops@,
            i <= loops@.len(),
            best is None ==> forall|k: int| k < i ==> !#[trigger] holds_node(ls, k, x),
            best matches Some(b) ==> best_holder(ls, x, i as int, b as int),
        decreases loops@.len() - i,
    {
        let has = list_contains(&loops[i].body, x);
        assert(has == holds_node(ls, i as int, x));
        let take = match best {
            None => has,
            Some(p) => has && loops[p].body.len() > loops[i].body.len(),
        };
        if take {
            best = Some(i);
        }
        proof {
            if let Some(b) = best {
                assert forall|i2: int| i2 < i + 1 && #[trigger] holds_node(ls, i2, x) implies no_worse(ls, b as int, i2) by {}
            }
        }
        i += 1;
    }
    best
}


/// Some recorded back edge enters `h`.
pub open spec fn has_back_edge_into(kinds: Seq<Vec<(NodeId, EdgeKind)>>, n: nat, h: NodeId) -> bool {
    exists|t: NodeId| t < n && #[trigger] recorded_kind(kinds, t, h) == Some(EdgeKind::Back)
}

/// Some loop of `ls` has header `h`.
pub open spec fn has_loop_with_header(ls: Seq<NaturalLoop>, h: NodeId) -> bool {
    exists|i: int| 0 <= i < ls.len() && (#[trigger] ls[i]).header == h
}

/// A copy of a list of node IDs.
fn copy_ids(v: &Vec<NodeId>) -> (r: Vec<NodeId>)
    ensures
        r@ == v@,
{
    let mut r: Vec<NodeId> = Vec::new();
    let mut i: usize = 0;
    while i < v.len()
        invariant
            i <= v@.len(),
            r@ == v@.subrange(0, i as int),
        decreases v@.len() - i,
    {
        r.push(v[i]);
        i += 1;
    }
    assert(v@.subrange(0, i as int) =~= v@);
    r
}

/// A copy of a list of edges.
fn copy_edges(v: &Vec<(NodeId, NodeId)>) -> (r: Vec<(NodeId, NodeId)>)
    ensures
        r@ == v@,
{
    let mut r: Vec<(NodeId, NodeId)> = Vec::new();
    let mut i: usize = 0;
    while i < v.len()
        invariant
            i <= v@.len(),
            r@ == v@.subrange(0, i as int),
        decreases v@.len() - i,
    {
        r.push(v[i]);
        i += 1;
    }
    assert(v@.subrange(0, i as int) =~= v@);
    r
}

/// Two lists of loops with the same headers and bodies.
pub open spec fn same_shape(a: Seq<NaturalLoop>, b: Seq<NaturalLoop>) -> bool {
    a.len() == b.len() && forall|k: int| 0 <= k < a.len() ==> (#[trigger] a[k]).header == b[k].header && a[k].body@ == b[k].body@
}

proof fn lemma_same_shape(a: Seq<NaturalLoop>, b: Seq<NaturalLoop>)
    requires
        same_shape(a, b),
    ensures
        forall|i: int, j: int| #[trigger] encloses(a, i, j) == encloses(b, i, j),
        forall|i: int, x: NodeId| #[trigger] holds_node(a, i, x) == holds_node(b, i, x),
        forall|i: int, j: int| 0 <= i < a.len() && 0 <= j < a.len() ==> #[trigger] no_worse(a, i, j) == no_worse(b, i, j),
{
    assert forall|i: int, j: int| #[trigger] encloses(a, i, j) == encloses(b, i, j) by {
        if 0 <= i < a.len() && 0 <= j < a.len() {
            assert(a[i].header == b[i].header && a[i].body@ == b[i].body@);
            assert(a[j].header == b[j].header && a[j].body@ == b[j].body@);
        }
    }
    assert forall|i: int, x: NodeId| #[trigger] holds_node(a, i, x) == holds_node(b, i, x) by {
        if 0 <= i < a.len() {
            assert(a[i].body@ == b[i].body@);
        }
    }
    assert forall|i: int, j: int| 0 <= i < a.len() && 0 <= j < a.len() implies #[trigger] no_worse(a, i, j) == no_worse(b, i, j) by {
        assert(a[i].body@ == b[i].body@);
        assert(a[j].body@ == b[j].body@);
    }
}

/// The loop information that `analyze_loops` computes for `cfg`.
pub open spec fn is_loop_info(cfg: &Cfg, info: &LoopInfo) -> bool {
    let n = cfg.nodes@.len();
    let ls = info.loops@;
    let kinds = info.edge_kinds@;
    if n == 0 {
        &&& ls.len() == 0
        &&& info.header_to_loop@.len() == 0
        &&& info.node_to_loop@.len() == 0
        &&& kinds.len() == 0
    } else {
        &&& classification_sound(cfg, kinds)
        &&& forall|i: int| 0 <= i < ls.len() ==> is_natural_loop_of(cfg, kinds, #[trigger] ls[i])
        &&& forall|i: int, j: int| 0 <= i < j < ls.len() ==> ls[i].header < ls[j].header
        &&& forall|h: NodeId| h < n ==> (#[trigger] has_back_edge_into(kinds, n, h) <==> has_loop_with_header(ls, h))
        &&& forall|j: int| 0 <= j < ls.len() ==> parent_ok(ls, j, ls.len() as int, #[trigger] ls[j].parent)
        &&& forall|i: int| 0 <= i < ls.len() ==> {
            &&& forall|a: int, b: int| 0 <= a < b < (#[trigger] ls[i]).children@.len() ==> ls[i].children@[a] < ls[i].children@[b]
            &&& forall|j: usize| #[trigger] ls[i].children@.contains(j) <==> (j < ls.len() && ls[j as int].parent == Some(i as usize))
        }
        &&& info.header_to_loop@.len() == n
        &&& forall|h: int| 0 <= h < n ==> match #[trigger] info.header_to_loop@[h] {
            Some(i) => i < ls.len() && ls[i as int].header == h,
            None => forall|i: int| 0 <= i < ls.len() ==> ls[i].header != h,
        }
        &&& info.node_to_loop@.len() == n
        &&& forall|x: int| 0 <= x < n ==> innermost_ok(ls, x as NodeId, ls.len() as int, #[trigger] info.node_to_loop@[x])
    }
}

/// Classify the edges reachable from the entry by a depth-first walk
fn classify_edges(cfg: &Cfg) -> (kinds: Vec<Vec<(NodeId, EdgeKind)>>)
    requires
        cfg.wf(),
    ensures
        classification_sound(cfg, kinds@),
        forall|w: int| 0 <= w < cfg.nodes@.len() && !reaches(cfg, cfg.entry, w as NodeId) ==> (#[trigger] kinds@[w])@.len() == 0,
{
    let n = cfg.nodes.len();
    let mut kinds: Vec<Vec<(NodeId, EdgeKind)>> = Vec::new();
    let mut visited: Vec<bool> = Vec::new();
    let mut in_stack: Vec<bool> = Vec::new();
    let mut dfs_num: Vec<usize> = Vec::new();
    let mut i: usize = 0;
    while i < n
        invariant
            i <= n,
            n == cfg.nodes@.len(),
            kinds@.len() == i,
            visited@.len() == i,
            in_stack@.len() == i,
            dfs_num@.len() == i,
            forall|k: int| 0 <= k < i ==> (#[trigger] kinds@[k])@.len() == 0,
            forall|k: int| 0 <= k < i ==> !#[trigger] visited@[k],
            forall|k: int| 0 <= k < i ==> !#[trigger] in_stack@[k],
        decreases n - i,
    {
        kinds.push(Vec::new());
        visited.push(false);
        in_stack.push(false);
        dfs_num.push(0);
        i += 1;
    }
    proof {
        assert(count_row(visited@) == 0) by {
            lemma_count_all_false(visited@);
        }
    }
    if cfg.entry < n {
        let mut counter: usize = 0;
        let ghost k0 = kinds@;
        let ghost v0 = visited@;
        dfs_classify(cfg, cfg.entry, &mut visited, &mut in_stack, &mut dfs_num, &mut counter, &mut kinds);
        assert forall|w: int| 0 <= w < n && !reaches(cfg, cfg.entry, w as NodeId) implies (#[trigger] kinds@[w])@.len() == 0 by {
            assert(!v0[w]);
            assert(kinds@[w] == k0[w]);
        }
    }
    kinds
}

proof fn lemma_count_all_false(r: Seq<bool>)
    requires
        forall|k: int| 0 <= k < r.len() ==> !#[trigger] r[k],
    ensures
        count_row(r) == 0,
    decreases r.len(),
{
    if r.len() > 0 {
        lemma_count_all_false(r.drop_last());
    }
}

/// Analyze loops in the CFG.  An edge `(u, v)` out of a node reachable from
/// the entry is a back edge exactly when `v` dominates `u`; each natural loop
/// is built from the back edges into its header.
pub fn analyze_loops(cfg: &Cfg, dom: &DominatorInfo) -> (info: LoopInfo)
    requires
        cfg.wf(),
        is_dominator_info(cfg, dom),
    ensures
        is_loop_info(cfg, &info),
        cfg.entry < cfg.nodes@.len() ==> forall|u: NodeId, v: NodeId|
            u < cfg.nodes@.len() && reaches(cfg, cfg.entry, u) && #[trigger] cfg.has_edge(u, v)
                ==> (recorded_kind(info.edge_kinds@, u, v) == Some(EdgeKind::Back) <==> dom.spec_dominates(v, u)),
        forall|u: NodeId, v: NodeId| !reaches(cfg, cfg.entry, u) ==> #[trigger] recorded_kind(info.edge_kinds@, u, v) is None,
{
    let n = cfg.nodes.len();
    if n == 0 {
        return LoopInfo { loops: Vec::new(), header_to_loop: Vec::new(), node_to_loop: Vec::new(), edge_kinds: Vec::new() };
    }
    let mut kinds = classify_edges(cfg);
    let ghost k1 = kinds@;
    if cfg.entry < n {
        mark_back_edges(cfg, dom, &mut kinds);
    }
    proof {
        assert forall|u: NodeId, v: NodeId| !reaches(cfg, cfg.entry, u) implies #[trigger] recorded_kind(kinds@, u, v) is None by {
            if u < n {
                assert(kinds@[u as int] == k1[u as int]);
                assert(k1[u as int]@.len() == 0);
            }
        }
    }
    let mut draft: Vec<NaturalLoop> = Vec::new();
    let mut h: usize = 0;
    while h < n
        invariant
            cfg.wf(),
            n == cfg.nodes@.len(),
            h <= n,
            classification_sound(cfg, kinds@),
            forall|i: int| 0 <= i < draft@.len() ==> is_natural_loop_of(cfg, kinds@, #[trigger] draft@[i]),
            forall|i: int| 0 <= i < draft@.len() ==> (#[trigger] draft@[i]).header < h,
            forall|i: int, j: int| 0 <= i < j < draft@.len() ==> draft@[i].header < draft@[j].header,
            forall|g: NodeId| g < h ==> (#[trigger] has_back_edge_into(kinds@, n as nat, g) <==> has_loop_with_header(draft@, g)),
        decreases n - h,
    {
        let mut tails: Vec<NodeId> = Vec::new();
        let mut u: usize = 0;
        while u < n
            invariant
                cfg.wf(),
                n == cfg.nodes@.len(),
                h < n,
                u <= n,
                classification_sound(cfg, kinds@),
                forall|i: int, j: int| 0 <= i < j < tails@.len() ==> tails@[i] < tails@[j],
                forall|i: int| 0 <= i < tails@.len() ==> #[trigger] tails@[i] < u,
                forall|t: NodeId| #[trigger] tails@.contains(t) <==> (t < u && recorded_kind(kinds@, t, h) == Some(EdgeKind::Back)),
            decreases n - u,
        {
            if kind_of(&kinds, u, h) == Some(EdgeKind::Back) {
                let ghost before = tails@;
                tails.push(u);
                proof {
                    assert(tails@[before.len() as int] == u);
                    assert forall|t: NodeId| #[trigger] tails@.contains(t) <==> (t < u + 1 && recorded_kind(kinds@, t, h) == Some(EdgeKind::Back)) by {
                        if tails@.contains(t) && t != u {
                            let k = choose|k: int| 0 <= k < tails@.len() && tails@[k] == t;
                            assert(before[k] == t);
                            assert(before.contains(t));
                        }
                        if t < u && recorded_kind(kinds@, t, h) == Some(EdgeKind::Back) {
                            assert(before.contains(t));
                            let k = choose|k: int| 0 <= k < before.len() && before[k] == t;
                            assert(tails@[k] == t);
                        }
                    }
                }
            } else {
                proof {
                    assert forall|t: NodeId| #[trigger] tails@.contains(t) <==> (t < u + 1 && recorded_kind(kinds@, t, h) == Some(EdgeKind::Back)) by {
                        if tails@.contains(t) {
                            let k = choose|k: int| 0 <= k < tails@.len() && tails@[k] == t;
                        }
                    }
                }
            }
            u += 1;
        }
        if tails.len() > 0 {
            let body = find_natural_loop_body(cfg, h, &tails);
            proof {
                assert forall|k: int| 0 <= k < body@.len() implies #[trigger] body@[k] < cfg.nodes@.len() by {
                    assert(body@.contains(body@[k]));
                }
            }
            let exit_edges = find_exit_edges(cfg, &body);
            proof {
                assert forall|k: int| 0 <= k < exit_edges@.len() implies (#[trigger] exit_edges@[k]).0 < n by {
                    let (a, b) = exit_edges@[k];
                    assert(exit_edges@.contains((a, b)));
                    assert(body@.contains(a));
                }
            }
            let exiting_nodes = edge_sources(&exit_edges, n);
            let ghost ee = exit_edges@;
            let ghost en = exiting_nodes@;
            assert(forall|x: NodeId| #[trigger] en.contains(x) <==> exists|k: int| 0 <= k < ee.len() && (#[trigger] ee[k]).0 == x);
            let mut back_edges: Vec<(NodeId, NodeId)> = Vec::new();
            let mut k: usize = 0;
            while k < tails.len()
                invariant
                    k <= tails@.len(),
                    back_edges@.len() == k,
                    forall|a: int| 0 <= a < k ==> #[trigger] back_edges@[a] == (tails@[a], h),
                decreases tails@.len() - k,
            {
                back_edges.push((tails[k], h));
                k += 1;
            }
            let lp = NaturalLoop {
                header: h,
                body,
                back_edges,
                exit_edges,
                exiting_nodes,
                parent: None,
                children: Vec::new(),
            };
            proof {
                let tl = lp.back_edges@.map_values(|e: (NodeId, NodeId)| e.0);
                assert(tl =~= tails@);
                assert(is_back_tail_list(kinds@, n as nat, h, tl));
                assert(is_loop_body(cfg, h, tl, lp.body@));
                assert(forall|u: NodeId, v: NodeId| #[trigger] lp.exit_edges@.contains((u, v)) <==> is_exit_edge(cfg, lp.body@, u, v));
                assert(forall|k: int| 0 <= k < lp.back_edges@.len() ==> (#[trigger] lp.back_edges@[k]).1 == lp.header);
                assert(tl.len() > 0);
                assert(forall|i: int, j: int| 0 <= i < j < lp.exiting_nodes@.len() ==> lp.exiting_nodes@[i] < lp.exiting_nodes@[j]);
                assert(lp.exiting_nodes@ == en);
                assert(lp.exit_edges@ == ee);
                assert(is_natural_loop_of(cfg, kinds@, lp));
            }
            let ghost before = draft@;
            draft.push(lp);
            proof {
                assert(draft@[before.len() as int] == lp);
                assert forall|g: NodeId| g < h + 1 implies (#[trigger] has_back_edge_into(kinds@, n as nat, g) <==> has_loop_with_header(draft@, g)) by {
                    if g == h {
                        let t = tails@[0];
                        assert(tails@.contains(t));
                    } else {
                        if exists|i: int| 0 <= i < draft@.len() && (#[trigger] draft@[i]).header == g {
                            let i = choose|i: int| 0 <= i < draft@.len() && (#[trigger] draft@[i]).header == g;
                            assert(draft@[i] == before[i]);
                        }
                        if exists|i: int| 0 <= i < before.len() && (#[trigger] before[i]).header == g {
                            let i = choose|i: int| 0 <= i < before.len() && (#[trigger] before[i]).header == g;
                            assert(draft@[i] == before[i]);
                        }
                    }
                }
            }
        } else {
            proof {
                assert forall|g: NodeId| g < h + 1 implies (#[trigger] has_back_edge_into(kinds@, n as nat, g) <==> has_loop_with_header(draft@, g)) by {
                    if g == h {
                        if exists|t: NodeId| t < n && #[trigger] recorded_kind(kinds@, t, g) == Some(EdgeKind::Back) {
                            let t = choose|t: NodeId| t < n && #[trigger] recorded_kind(kinds@, t, g) == Some(EdgeKind::Back);
                            assert(tails@.contains(t));
                        }
                        if exists|i: int| 0 <= i < draft@.len() && (#[trigger] draft@[i]).header == g {
                            let i = choose|i: int| 0 <= i < draft@.len() && (#[trigger] draft@[i]).header == g;
                        }
                    }
                }
            }
        }
        h += 1;
    }
    // Loop nesting
    let m = draft.len();
    let mut parents: Vec<Option<usize>> = Vec::new();
    let mut j: usize = 0;
    while j < m
        invariant
            m == draft@.len(),
            j <= m,
            parents@.len() == j,
            forall|a: int| 0 <= a < j ==> parent_ok(draft@, a, m as int, #[trigger] parents@[a]),
        decreases m - j,
    {
        parents.push(find_parent(&draft, j));
        j += 1;
    }
    let mut loops: Vec<NaturalLoop> = Vec::new();
    let mut i: usize = 0;
    while i < m
        invariant
            m == draft@.len(),
            parents@.len() == m,
            i <= m,
            loops@.len() == i,
            forall|a: int| 0 <= a < i ==> (#[trigger] loops@[a]).header == draft@[a].header
                && loops@[a].body@ == draft@[a].body@
                && loops@[a].back_edges@ == draft@[a].back_edges@
                && loops@[a].exit_edges@ == draft@[a].exit_edges@
                && loops@[a].exiting_nodes@ == draft@[a].exiting_nodes@
                && loops@[a].parent == parents@[a]
                && (forall|x: int, y: int| 0 <= x < y < loops@[a].children@.len() ==> loops@[a].children@[x] < loops@[a].children@[y])
                && (forall|c: usize| #[trigger] loops@[a].children@.contains(c) <==> (c < m && parents@[c as int] == Some(a as usize))),
        decreases m - i,
    {
        let mut children: Vec<usize> = Vec::new();
        let mut c: usize = 0;
        while c < m
            invariant
                parents@.len() == m,
                i < m,
                c <= m,
                forall|x: int, y: int| 0 <= x < y < children@.len() ==> children@[x] < children@[y],
                forall|x: int| 0 <= x < children@.len() ==> #[trigger] children@[x] < c,
                forall|d: usize| #[trigger] children@.contains(d) <==> (d < c && parents@[d as int] == Some(i)),
            decreases m - c,
        {
            if parents[c] == Some(i) {
                let ghost before = children@;
                children.push(c);
                proof {
                    assert(children@[before.len() as int] == c);
                    assert forall|d: usize| #[trigger] children@.contains(d) <==> (d < c + 1 && parents@[d as int] == Some(i)) by {
                        if children@.contains(d) && d != c {
                            let k = choose|k: int| 0 <= k < children@.len() && children@[k] == d;
                            assert(before[k] == d);
                            assert(before.contains(d));
                        }
                        if d < c && parents@[d as int] == Some(i) {
                            assert(before.contains(d));
                            let k = choose|k: int| 0 <= k < before.len() && before[k] == d;
                            assert(children@[k] == d);
                        }
                    }
                }
            } else {
                proof {
                    assert forall|d: usize| #[trigger] children@.contains(d) <==> (d < c + 1 && parents@[d as int] == Some(i)) by {
                        if children@.contains(d) {
                            let k = choose|k: int| 0 <= k < children@.len() && children@[k] == d;
                        }
                    }
                }
            }
            c += 1;
        }
        let lp = NaturalLoop {
            header: draft[i].header,
            body: copy_ids(&draft[i].body),
            back_edges: copy_edges(&draft[i].back_edges),
            exit_edges: copy_edges(&draft[i].exit_edges),
            exiting_nodes: copy_ids(&draft[i].exiting_nodes),
            parent: parents[i],
            children,
        };
        loops.push(lp);
        proof {
            assert(loops@[i as int] == lp);
        }
        i += 1;
    }
    proof {
        assert(same_shape(draft@, loops@));
        lemma_same_shape(draft@, loops@);
        assert forall|a: int| 0 <= a < m implies parent_ok(loops@, a, m as int, #[trigger] loops@[a].parent) by {
            assert(parent_ok(draft@, a, m as int, parents@[a]));
            if let Some(c) = parents@[a] {
                assert(best_encloser(draft@, a, m as int, c as int));
                assert forall|i2: int| i2 < m && #[trigger] encloses(loops@, i2, a) implies no_worse(loops@, c as int, i2) by {
                    assert(encloses(draft@, i2, a));
                }
            } else {
                assert forall|k: int| k < m implies !#[trigger] encloses(loops@, k, a) by {
                    assert(!encloses(draft@, k, a));
                }
            }
        }
        assert forall|a: int| 0 <= a < m implies is_natural_loop_of(cfg, kinds@, #[trigger] loops@[a]) by {
            let d = draft@[a];
            let l = loops@[a];
            assert(is_natural_loop_of(cfg, kinds@, d));
            assert(l.back_edges@.map_values(|e: (NodeId, NodeId)| e.0) =~= d.back_edges@.map_values(|e: (NodeId, NodeId)| e.0));
        }
    }
    // Header and innermost-loop maps
    let mut header_to_loop: Vec<Option<usize>> = Vec::new();
    let mut node_to_loop: Vec<Option<usize>> = Vec::new();
    let mut x: usize = 0;
    while x < n
        invariant
            n == cfg.nodes@.len(),
            x <= n,
            header_to_loop@.len() == x,
            node_to_loop@.len() == x,
            forall|h2: int| 0 <= h2 < x ==> match #[trigger] header_to_loop@[h2] {
                Some(i) => i < loops@.len() && loops@[i as int].header == h2,
                None => forall|i: int| 0 <= i < loops@.len() ==> loops@[i].header != h2,
            },
            forall|y: int| 0 <= y < x ==> innermost_ok(loops@, y as NodeId, loops@.len() as int, #[trigger] node_to_loop@[y]),
        decreases n - x,
    {
        let mut found: Option<usize> = None;
        let mut k: usize = 0;
        while k < loops.len()
            invariant
                x < n,
                k <= loops@.len(),
                match found {
                    Some(i) => i < loops@.len() && loops@[i as int].header == x,
                    None => forall|i: int| 0 <= i < k ==> loops@[i].header != x,
                },
            decreases loops@.len() - k,
        {
            if found.is_none() && loops[k].header == x {
                found = Some(k);
            }
            k += 1;
        }
        header_to_loop.push(found);
        node_to_loop.push(find_innermost(&loops, x));
        x += 1;
    }
    let info = LoopInfo { loops, header_to_loop, node_to_loop, edge_kinds: kinds };
    proof {
        assert forall|g: NodeId| g < n implies (#[trigger] has_back_edge_into(info.edge_kinds@, n as nat, g) <==> has_loop_with_header(info.loops@, g)) by {
            if exists|i: int| 0 <= i < info.loops@.len() && (#[trigger] info.loops@[i]).header == g {
                let i = choose|i: int| 0 <= i < info.loops@.len() && (#[trigger] info.loops@[i]).header == g;
                assert(draft@[i].header == g);
            }
            if exists|i: int| 0 <= i < draft@.len() && (#[trigger] draft@[i]).header == g {
                let i = choose|i: int| 0 <= i < draft@.len() && (#[trigger] draft@[i]).header == g;
                assert(info.loops@[i].header == g);
            }
        }
    }
    info
}

/// An edge is recorded as a back edge exactly when some loop with the edge's
/// target as its header lists the edge among its back edges.
pub proof fn lemma_back_edge_iff_loop_back_edge(cfg: &Cfg, info: &LoopInfo, u: NodeId, v: NodeId)
    requires
        is_loop_info(cfg, info),
    ensures
        recorded_kind(info.edge_kinds@, u, v) == Some(EdgeKind::Back) <==> exists|i: int|
            0 <= i < info.loops@.len() && (#[trigger] info.loops@[i]).header == v
                && info.loops@[i].back_edges@.contains((u, v)),
{
    let n = cfg.nodes@.len();
    let ls = info.loops@;
    let kinds = info.edge_kinds@;
    if recorded_kind(kinds, u, v) == Some(EdgeKind::Back) {
        let j = choose|j: int| 0 <= j < kinds[u as int]@.len() && (#[trigger] kinds[u as int]@[j]).0 == v;
        assert(kinds[u as int]@[j].0 == v);
        assert(v < n);
        assert(has_back_edge_into(kinds, n, v));
        let i = choose|i: int| 0 <= i < ls.len() && (#[trigger] ls[i]).header == v;
        let lp = ls[i];
        assert(is_natural_loop_of(cfg, kinds, lp));
        let tails = lp.back_edges@.map_values(|e: (NodeId, NodeId)| e.0);
        assert(tails.contains(u));
        let k = choose|k: int| 0 <= k < tails.len() && tails[k] == u;
        assert(lp.back_edges@[k].1 == lp.header);
        assert(lp.back_edges@[k] == (u, v));
        assert(lp.back_edges@.contains((u, v)));
    }
    if exists|i: int| 0 <= i < ls.len() && (#[trigger] ls[i]).header == v && ls[i].back_edges@.contains((u, v)) {
        let i = choose|i: int| 0 <= i < ls.len() && (#[trigger] ls[i]).header == v && ls[i].back_edges@.contains((u, v));
        let lp = ls[i];
        assert(is_natural_loop_of(cfg, kinds, lp));
        let tails = lp.back_edges@.map_values(|e: (NodeId, NodeId)| e.0);
        let k = choose|k: int| 0 <= k < lp.back_edges@.len() && lp.back_edges@[k] == (u, v);
        assert(tails[k] == u);
        assert(tails.contains(u));
    }
}

impl LoopInfo {
    /// Check if a node is a loop header
    pub fn is_loop_header(&self, node: NodeId) -> (r: bool)
        ensures
            r == (node < self.header_to_loop@.len() && self.header_to_loop@[node as int] is Some),
    {
        node < self.header_to_loop.len() && self.header_to_loop[node].is_some()
    }

    /// Get the innermost loop containing a node (if any)
    pub fn get_containing_loop(&self, node: NodeId) -> (r: Option<&NaturalLoop>)
        ensures
            match r {
                Some(lp) => node < self.node_to_loop@.len() && (self.node_to_loop@[node as int] matches Some(i)
                    && i < self.loops@.len() && *lp == self.loops@[i as int]),
                None => node >= self.node_to_loop@.len() || match self.node_to_loop@[node as int] {
                    Some(i) => i >= self.loops@.len(),
                    None => true,
                },
            },
    {
        if node < self.node_to_loop.len() {
            match self.node_to_loop[node] {
                Some(i) => if i < self.loops.len() { Some(&self.loops[i]) } else { None },
                None => None,
            }
        } else {
            None
        }
    }

    /// Check if an edge is a back edge
    pub fn is_back_edge(&self, from: NodeId, to: NodeId) -> (r: bool)
        requires
            kinds_unique(self.edge_kinds@),
        ensures
            r == (recorded_kind(self.edge_kinds@, from, to) == Some(EdgeKind::Back)),
    {
        kind_of(&self.edge_kinds, from, to) == Some(EdgeKind::Back)
    }
}

} // verus!
