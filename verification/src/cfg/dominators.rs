//! Dominator analysis for a control flow graph.
//!
//! The dominator sets are the greatest solution of the dataflow equations
//! `dom(entry) = {entry}` and `dom(n) = {n} ∪ ⋂ { dom(p) | p a predecessor of n }`
//! (a node without predecessors dominates only itself), computed by iterating
//! to a fixed point from the full sets.
use vstd::prelude::*;
use super::{Cfg, NodeId};

verus! {

/// Dominator information for a CFG
#[derive(Debug)]
pub struct DominatorInfo {
    /// Immediate dominator of each node, if it has one
    pub idom: Vec<Option<NodeId>>,
    /// Dominator matrix: `dominators[b][a]` holds when `a` dominates `b`
    pub dominators: Vec<Vec<bool>>,
    /// For each node, the other nodes it dominates, in increasing order
    pub dominated: Vec<Vec<NodeId>>,
    /// Post-order of a depth-first walk from the entry
    pub post_order: Vec<NodeId>,
}

/// The matrix held by a list of rows.
pub open spec fn mat(m: Seq<Vec<bool>>) -> Seq<Seq<bool>> {
    m.map_values(|row: Vec<bool>| row@)
}

/// `m` is an `n` by `n` matrix.
pub open spec fn is_square(m: Seq<Seq<bool>>, n: nat) -> bool {
    m.len() == n && forall|i: int| 0 <= i < n ==> #[trigger] m[i].len() == n
}

/// `p` is listed as a predecessor of `v`.
pub open spec fn is_pred(cfg: &Cfg, v: int, p: NodeId) -> bool {
    cfg.predecessors@[v]@.contains(p)
}

/// Right-hand side of the dataflow equation of node `v`, at candidate `d`:
/// `d` is `v` itself, or `v` has predecessors and `d` is in the set of each.
pub open spec fn flow(cfg: &Cfg, m: Seq<Seq<bool>>, v: int, d: int) -> bool {
    d == v || (cfg.predecessors@[v]@.len() > 0 && forall|p: NodeId| #[trigger] is_pred(cfg, v, p) ==> m[p as int][d])
}

/// Row `v` of `m` satisfies its dataflow equation.
pub open spec fn row_solved(cfg: &Cfg, m: Seq<Seq<bool>>, v: int) -> bool {
    let n = cfg.nodes@.len();
    if v == cfg.entry {
        forall|d: int| 0 <= d < n ==> (#[trigger] m[v][d] <==> d == v)
    } else {
        forall|d: int| 0 <= d < n ==> (#[trigger] m[v][d] <==> flow(cfg, m, v, d))
    }
}

/// `m` solves all the dataflow equations.
pub open spec fn is_solution(cfg: &Cfg, m: Seq<Seq<bool>>) -> bool {
    is_square(m, cfg.nodes@.len()) && forall|v: int| 0 <= v < cfg.nodes@.len() ==> #[trigger] row_solved(cfg, m, v)
}

/// Every set of `m` lies within the right-hand side of its equation: any such
/// assignment is a lower bound of the greatest solution.
pub open spec fn is_consistent(cfg: &Cfg, m: Seq<Seq<bool>>) -> bool {
    let n = cfg.nodes@.len();
    &&& is_square(m, n)
    &&& forall|v: int, d: int| 0 <= v < n && 0 <= d < n && v != cfg.entry && #[trigger] m[v][d] ==> flow(cfg, m, v, d)
    &&& forall|d: int| 0 <= d < n && cfg.entry < n && #[trigger] m[cfg.entry as int][d] ==> d == cfg.entry
}

/// Pointwise inclusion of two matrices of the same shape.
pub open spec fn below(a: Seq<Seq<bool>>, b: Seq<Seq<bool>>, n: nat) -> bool {
    forall|v: int, d: int| 0 <= v < n && 0 <= d < n && #[trigger] a[v][d] ==> b[v][d]
}

/// `m` is the greatest solution: a solution above every consistent assignment.
pub open spec fn is_greatest_solution(cfg: &Cfg, m: Seq<Seq<bool>>) -> bool {
    &&& is_solution(cfg, m)
    &&& forall|x: Seq<Seq<bool>>| #[trigger] is_consistent(cfg, x) ==> below(x, m, cfg.nodes@.len())
}

/// `c` is a strict dominator of `v` dominated by every other strict dominator of `v`.
pub open spec fn is_idom_candidate(m: Seq<Seq<bool>>, n: nat, v: int, c: int) -> bool {
    &&& 0 <= c < n
    &&& c != v
    &&& m[v][c]
    &&& forall|o: int| 0 <= o < n && o != v && o != c && #[trigger] m[v][o] ==> m[c][o]
}

/// The immediate dominator of `v`: the least candidate, if any.
pub open spec fn spec_idom(m: Seq<Seq<bool>>, n: nat, entry: NodeId, v: int) -> Option<NodeId> {
    if v == entry || !(exists|c: int| is_idom_candidate(m, n, v, c)) {
        None
    } else {
        let c = choose|c: int| is_idom_candidate(m, n, v, c) && forall|c2: int| #[trigger] is_idom_candidate(m, n, v, c2) ==> c <= c2;
        Some(c as NodeId)
    }
}

/// Number of `true` entries of a row.
pub open spec fn count_row(r: Seq<bool>) -> nat
    decreases r.len(),
{
    if r.len() == 0 {
        0
    } else {
        count_row(r.drop_last()) + if r.last() { 1nat } else { 0nat }
    }
}

/// Number of `true` entries of a matrix.
pub open spec fn count_matrix(m: Seq<Seq<bool>>) -> nat
    decreases m.len(),
{
    if m.len() == 0 {
        0
    } else {
        count_matrix(m.drop_last()) + count_row(m.last())
    }
}

pub proof fn lemma_count_row_subset(a: Seq<bool>, b: Seq<bool>)
    requires
        a.len() == b.len(),
        forall|i: int| 0 <= i < a.len() && #[trigger] a[i] ==> b[i],
    ensures
        count_row(a) <= count_row(b),
        a != b ==> count_row(a) < count_row(b),
    decreases a.len(),
{
    if a.len() == 0 {
        assert(a =~= b);
    } else {
        lemma_count_row_subset(a.drop_last(), b.drop_last());
        if a != b && a.drop_last() == b.drop_last() {
            assert(a.last() != b.last()) by {
                if a.last() == b.last() {
                    assert forall|i: int| 0 <= i < a.len() implies a[i] == b[i] by {
                        if i < a.len() - 1 {
                            assert(a[i] == a.drop_last()[i]);
                            assert(b[i] == b.drop_last()[i]);
                        }
                    }
                    assert(a =~= b);
                }
            }
        }
    }
}

pub proof fn lemma_count_row_bound(a: Seq<bool>)
    ensures
        count_row(a) <= a.len(),
    decreases a.len(),
{
    if a.len() > 0 {
        lemma_count_row_bound(a.drop_last());
    }
}

proof fn lemma_count_matrix_update(m: Seq<Seq<bool>>, v: int, r: Seq<bool>)
    requires
        0 <= v < m.len(),
    ensures
        count_matrix(m.update(v, r)) + count_row(m[v]) == count_matrix(m) + count_row(r),
    decreases m.len(),
{
    if v == m.len() - 1 {
        assert(m.update(v, r).drop_last() =~= m.drop_last());
    } else {
        lemma_count_matrix_update(m.drop_last(), v, r);
        assert(m.update(v, r).drop_last() =~= m.drop_last().update(v, r));
    }
}

/// Dominance is monotone in the assignment: a smaller assignment gives a
/// smaller right-hand side.
proof fn lemma_flow_monotone(cfg: &Cfg, a: Seq<Seq<bool>>, b: Seq<Seq<bool>>, v: int, d: int)
    requires
        cfg.wf(),
        0 <= v < cfg.nodes@.len(),
        0 <= d < cfg.nodes@.len(),
        is_square(a, cfg.nodes@.len()),
        below(a, b, cfg.nodes@.len()),
        flow(cfg, a, v, d),
    ensures
        flow(cfg, b, v, d),
{
    if d != v {
        assert forall|p: NodeId| #[trigger] is_pred(cfg, v, p) implies b[p as int][d] by {
            let k = choose|k: int| 0 <= k < cfg.predecessors@[v]@.len() && cfg.predecessors@[v]@[k] == p;
            assert(cfg.predecessors@[v]@[k] < cfg.nodes@.len());
            assert(a[p as int][d]);
        }
    }
}

/// Compute row `v` of the right-hand side of the equations for `m`.
fn flow_row(cfg: &Cfg, m: &Vec<Vec<bool>>, v: usize) -> (r: Vec<bool>)
    requires
        cfg.wf(),
        v < cfg.nodes@.len(),
        is_square(mat(m@), cfg.nodes@.len()),
    ensures
        r@.len() == cfg.nodes@.len(),
        forall|d: int| 0 <= d < cfg.nodes@.len() ==> (#[trigger] r@[d] <==> flow(cfg, mat(m@), v as int, d)),
{
    let ghost mm = mat(m@);
    let n = cfg.nodes.len();
    let preds = &cfg.predecessors[v];
    let mut r: Vec<bool> = Vec::new();
    let mut d: usize = 0;
    while d < n
        invariant
            n == cfg.nodes@.len(),
            d <= n,
            cfg.wf(),
            v < n,
            mm == mat(m@),
            is_square(mm, n as nat),
            *preds == cfg.predecessors@[v as int],
            r@.len() == d,
            forall|e: int| 0 <= e < d ==> (#[trigger] r@[e] <==> flow(cfg, mm, v as int, e)),
        decreases n - d,
    {
        let mut all = preds.len() > 0;
        let mut k: usize = 0;
        while k < preds.len()
            invariant
                n == cfg.nodes@.len(),
                d < n,
                cfg.wf(),
                v < n,
                mm == mat(m@),
                is_square(mm, n as nat),
                *preds == cfg.predecessors@[v as int],
                k <= preds@.len(),
                all == (preds@.len() > 0 && forall|j: int| 0 <= j < k ==> mm[#[trigger] preds@[j] as int][d as int]),
            decreases preds@.len() - k,
        {
            let p = preds[k];
            assert(preds@[k as int] < n);
            assert(mm[p as int] == m@[p as int]@);
            if !m[p][d] {
                all = false;
            }
            k += 1;
        }
        proof {
            if all {
                assert forall|p: NodeId| #[trigger] is_pred(cfg, v as int, p) implies mm[p as int][d as int] by {
                    let j = choose|j: int| 0 <= j < preds@.len() && preds@[j] == p;
                }
            } else if preds@.len() > 0 {
                let j = choose|j: int| 0 <= j < k && !mm[#[trigger] preds@[j] as int][d as int];
                assert(is_pred(cfg, v as int, preds@[j]));
            }
        }
        r.push(d == v || all);
        d += 1;
    }
    r
}


/// Whether two rows are equal.
fn rows_equal(a: &Vec<bool>, b: &Vec<bool>) -> (r: bool)
    ensures
        r == (a@ == b@),
{
    if a.len() != b.len() {
        return false;
    }
    let mut i: usize = 0;
    while i < a.len()
        invariant
            a@.len() == b@.len(),
            i <= a@.len(),
            forall|j: int| 0 <= j < i ==> a@[j] == b@[j],
        decreases a@.len() - i,
    {
        if a[i] != b[i] {
            return false;
        }
        i += 1;
    }
    assert(a@ =~= b@);
    true
}

/// The greatest solution of the dominator equations of `cfg`.
fn solve_dominators(cfg: &Cfg) -> (m: Vec<Vec<bool>>)
    requires
        cfg.wf(),
    ensures
        is_greatest_solution(cfg, mat(m@)),
{
    let n = cfg.nodes.len();
    let entry = cfg.entry;
    let mut m: Vec<Vec<bool>> = Vec::new();
    let mut v: usize = 0;
    while v < n
        invariant
            n == cfg.nodes@.len(),
            entry == cfg.entry,
            v <= n,
            m@.len() == v,
            forall|i: int| 0 <= i < v ==> (#[trigger] m@[i])@.len() == n,
            forall|i: int, d: int| 0 <= i < v && 0 <= d < n ==> (#[trigger] m@[i]@[d] <==> (i != entry || d == entry)),
        decreases n - v,
    {
        let mut row: Vec<bool> = Vec::new();
        let mut d: usize = 0;
        while d < n
            invariant
                n == cfg.nodes@.len(),
                v < n,
                d <= n,
                row@.len() == d,
                forall|e: int| 0 <= e < d ==> (#[trigger] row@[e] <==> (v != entry || e == entry)),
            decreases n - d,
        {
            row.push(v != entry || d == entry);
            d += 1;
        }
        m.push(row);
        v += 1;
    }
    proof {
        let mm = mat(m@);
        assert(is_square(mm, n as nat));
        assert forall|x: Seq<Seq<bool>>| #[trigger] is_consistent(cfg, x) implies below(x, mm, n as nat) by {
            assert forall|w: int, d: int| 0 <= w < n && 0 <= d < n && #[trigger] x[w][d] implies mm[w][d] by {
                assert(mm[w] == m@[w]@);
            }
        }
        assert forall|w: int, d: int| 0 <= w < n && 0 <= d < n && w != entry && #[trigger] flow(cfg, mm, w, d) implies mm[w][d] by {
            assert(mm[w] == m@[w]@);
        }
    }
    let mut changed = true;
    while changed
        invariant
            cfg.wf(),
            n == cfg.nodes@.len(),
            entry == cfg.entry,
            is_square(mat(m@), n as nat),
            forall|w: int, d: int| 0 <= w < n && 0 <= d < n && w != entry && #[trigger] flow(cfg, mat(m@), w, d) ==> mat(m@)[w][d],
            !changed ==> forall|w: int, d: int| 0 <= w < n && 0 <= d < n && w != entry && #[trigger] mat(m@)[w][d] ==> flow(cfg, mat(m@), w, d),
            forall|d: int| 0 <= d < n && entry < n ==> (#[trigger] mat(m@)[entry as int][d] <==> d == entry),
            forall|x: Seq<Seq<bool>>| #[trigger] is_consistent(cfg, x) ==> below(x, mat(m@), n as nat),
        decreases count_matrix(mat(m@)) + if changed { 1nat } else { 0nat },
    {
        changed = false;
        let ghost start = mat(m@);
        let mut v: usize = 0;
        while v < n
            invariant
                cfg.wf(),
                n == cfg.nodes@.len(),
                entry == cfg.entry,
                v <= n,
                is_square(mat(m@), n as nat),
                is_square(start, n as nat),
                forall|w: int, d: int| 0 <= w < n && 0 <= d < n && w != entry && #[trigger] flow(cfg, mat(m@), w, d) ==> mat(m@)[w][d],
                forall|d: int| 0 <= d < n && entry < n ==> (#[trigger] mat(m@)[entry as int][d] <==> d == entry),
                forall|x: Seq<Seq<bool>>| #[trigger] is_consistent(cfg, x) ==> below(x, mat(m@), n as nat),
                !changed ==> mat(m@) == start,
                !changed ==> forall|w: int, d: int| 0 <= w < v && 0 <= d < n && w != entry && #[trigger] mat(m@)[w][d] ==> flow(cfg, mat(m@), w, d),
                changed ==> count_matrix(mat(m@)) < count_matrix(start),
                count_matrix(mat(m@)) <= count_matrix(start),
            decreases n - v,
        {
            if v != entry {
                let ghost before = mat(m@);
                let r = flow_row(cfg, &m, v);
                if !rows_equal(&r, &m[v]) {
                    proof {
                        assert(before[v as int] == m@[v as int]@);
                        assert forall|d: int| 0 <= d < r@.len() && #[trigger] r@[d] implies before[v as int][d] by {
                        }
                        lemma_count_row_subset(r@, before[v as int]);
                        lemma_count_matrix_update(before, v as int, r@);
                    }
                    m.set(v, r);
                    proof {
                        let after = mat(m@);
                        assert(after =~= before.update(v as int, r@));
                        assert(below(after, before, n as nat)) by {
                            assert forall|w: int, d: int| 0 <= w < n && 0 <= d < n && #[trigger] after[w][d] implies before[w][d] by {
                                if w == v {
                                    assert(r@[d]);
                                }
                            }
                        }
                        assert forall|w: int, d: int| 0 <= w < n && 0 <= d < n && w != entry && #[trigger] flow(cfg, after, w, d) implies after[w][d] by {
                            lemma_flow_monotone(cfg, after, before, w, d);
                            if w == v {
                                assert(r@[d]);
                            }
                        }
                        assert forall|x: Seq<Seq<bool>>| #[trigger] is_consistent(cfg, x) implies below(x, after, n as nat) by {
                            assert(below(x, before, n as nat));
                            assert forall|w: int, d: int| 0 <= w < n && 0 <= d < n && #[trigger] x[w][d] implies after[w][d] by {
                                if w == v {
                                    lemma_flow_monotone(cfg, x, before, w, d);
                                    assert(r@[d]);
                                }
                            }
                        }
                    }
                    changed = true;
                } else {
                    proof {
                        assert(r@ == before[v as int]);
                    }
                }
            }
            v += 1;
        }
    }
    proof {
        let mm = mat(m@);
        assert forall|w: int| 0 <= w < n implies #[trigger] row_solved(cfg, mm, w) by {
            if w == entry {
            } else {
                assert forall|d: int| 0 <= d < n implies (#[trigger] mm[w][d] <==> flow(cfg, mm, w, d)) by {
                }
            }
        }
    }
    m
}


/// `path` is a walk along the edges of `cfg`.
pub open spec fn is_path(cfg: &Cfg, path: Seq<NodeId>) -> bool {
    &&& path.len() > 0
    &&& forall|i: int| 0 <= i < path.len() - 1 ==> #[trigger] cfg.has_edge(path[i], path[i + 1])
}

/// `b` can be reached from `a` along the edges of `cfg`.
pub open spec fn reaches(cfg: &Cfg, a: NodeId, b: NodeId) -> bool {
    exists|path: Seq<NodeId>| is_path(cfg, path) && path[0] == a && path.last() == b
}

/// Every path from the entry to `b` passes through `a`.
pub open spec fn on_every_path(cfg: &Cfg, a: NodeId, b: NodeId) -> bool {
    forall|path: Seq<NodeId>| is_path(cfg, path) && path[0] == cfg.entry && path.last() == b ==> #[trigger] path.contains(a)
}

pub proof fn lemma_reaches_step(cfg: &Cfg, a: NodeId, b: NodeId, c: NodeId)
    requires
        reaches(cfg, a, b),
        cfg.has_edge(b, c),
    ensures
        reaches(cfg, a, c),
{
    let path = choose|path: Seq<NodeId>| is_path(cfg, path) && path[0] == a && path.last() == b;
    let p2 = path.push(c);
    assert forall|i: int| 0 <= i < p2.len() - 1 implies #[trigger] cfg.has_edge(p2[i], p2[i + 1]) by {
        if i < path.len() - 1 {
            assert(p2[i] == path[i] && p2[i + 1] == path[i + 1]);
        }
    }
    assert(is_path(cfg, p2) && p2[0] == a && p2.last() == c);
}

pub proof fn lemma_reaches_refl(cfg: &Cfg, a: NodeId)
    ensures
        reaches(cfg, a, a),
{
    let path = seq![a];
    assert(is_path(cfg, path) && path[0] == a && path.last() == a);
}

/// Post-order depth-first walk from `node`.
fn dfs_post_order(cfg: &Cfg, node: NodeId, visited: &mut Vec<bool>, order: &mut Vec<NodeId>, Ghost(root): Ghost<NodeId>)
    requires
        cfg.wf(),
        node < cfg.nodes@.len(),
        old(visited)@.len() == cfg.nodes@.len(),
        !old(visited)@[node as int],
        reaches(cfg, root, node),
    ensures
        final(visited)@.len() == old(visited)@.len(),
        final(visited)@[node as int],
        forall|x: int| 0 <= x < old(visited)@.len() && old(visited)@[x] ==> final(visited)@[x],
        final(order)@.len() >= old(order)@.len(),
        final(order)@.subrange(0, old(order)@.len() as int) == old(order)@,
        final(order)@.last() == node,
        forall|x: NodeId| x < cfg.nodes@.len() ==> (final(order)@.subrange(old(order)@.len() as int, final(order)@.len() as int).contains(x)
            <==> (#[trigger] final(visited)@[x as int] && !old(visited)@[x as int])),
        final(order)@.subrange(old(order)@.len() as int, final(order)@.len() as int).no_duplicates(),
        forall|i: int| old(order)@.len() <= i < final(order)@.len() ==> #[trigger] final(order)@[i] < cfg.nodes@.len(),
        forall|i: int, y: NodeId| old(order)@.len() <= i < final(order)@.len() && #[trigger] cfg.has_edge(final(order)@[i], y) ==> final(visited)@[y as int],
        forall|i: int| old(order)@.len() <= i < final(order)@.len() ==> reaches(cfg, root, #[trigger] final(order)@[i]),
    decreases cfg.nodes@.len() - count_row(visited@),
{
    let ghost v0 = visited@;
    let ghost o0 = order@;
    let n = cfg.nodes.len();
    proof {
        lemma_count_row_subset(v0, v0.update(node as int, true));
    }
    visited.set(node, true);
    let succs = &cfg.successors[node];
    let mut i: usize = 0;
    while i < succs.len()
        invariant
            cfg.wf(),
            n == cfg.nodes@.len(),
            node < n,
            *succs == cfg.successors@[node as int],
            i <= succs@.len(),
            visited@.len() == n,
            visited@[node as int],
            forall|x: int| 0 <= x < n && v0[x] ==> visited@[x],
            order@.len() >= o0.len(),
            order@.subrange(0, o0.len() as int) == o0,
            forall|x: NodeId| x < n ==> (order@.subrange(o0.len() as int, order@.len() as int).contains(x)
                <==> (#[trigger] visited@[x as int] && !v0[x as int] && x != node)),
            order@.subrange(o0.len() as int, order@.len() as int).no_duplicates(),
            forall|k: int| o0.len() <= k < order@.len() ==> #[trigger] order@[k] < n,
            forall|k: int, y: NodeId| o0.len() <= k < order@.len() && #[trigger] cfg.has_edge(order@[k], y) ==> visited@[y as int],
            forall|k: int| 0 <= k < i ==> visited@[#[trigger] succs@[k] as int],
            forall|k: int| o0.len() <= k < order@.len() ==> reaches(cfg, root, #[trigger] order@[k]),
            reaches(cfg, root, node),
            v0.len() == n,
            !v0[node as int],
            count_row(v0) < count_row(v0.update(node as int, true)),
            v0 == old(visited)@,
        decreases succs@.len() - i,
    {
        let s = succs[i];
        assert(succs@[i as int] < n);
        if !visited[s] {
            let ghost vb = visited@;
            let ghost ob = order@;
            proof {
                assert(cfg.has_edge(node, s)) by {
                    assert(cfg.successors@[node as int]@[i as int] == s);
                }
                lemma_reaches_step(cfg, root, node, s);
                assert forall|x: int| 0 <= x < n && #[trigger] v0.update(node as int, true)[x] implies vb[x] by {}
                lemma_count_row_subset(v0.update(node as int, true), vb);
                lemma_count_row_bound(vb);
                lemma_count_row_bound(v0);
                assert(count_row(v0) < count_row(vb));
                assert(visited@ == vb);
            }
            dfs_post_order(cfg, s, visited, order, Ghost(root));
            proof {
                let new_all = order@.subrange(o0.len() as int, order@.len() as int);
                let prev = ob.subrange(o0.len() as int, ob.len() as int);
                let added = order@.subrange(ob.len() as int, order@.len() as int);
                assert(new_all =~= prev + added);
                assert(order@.subrange(0, o0.len() as int) =~= order@.subrange(0, ob.len() as int).subrange(0, o0.len() as int));
                assert forall|x: NodeId| x < n implies (new_all.contains(x) <==> (#[trigger] visited@[x as int] && !v0[x as int] && x != node)) by {
                    if new_all.contains(x) {
                        let k = choose|k: int| 0 <= k < new_all.len() && new_all[k] == x;
                        if k < prev.len() {
                            assert(prev[k] == x);
                        } else {
                            assert(added[k - prev.len()] == x);
                        }
                    }
                    if visited@[x as int] && !v0[x as int] && x != node {
                        if vb[x as int] {
                            assert(prev.contains(x));
                            let k = choose|k: int| 0 <= k < prev.len() && prev[k] == x;
                            assert(new_all[k] == x);
                        } else {
                            assert(added.contains(x));
                            let k = choose|k: int| 0 <= k < added.len() && added[k] == x;
                            assert(new_all[k + prev.len()] == x);
                        }
                    }
                }
                assert forall|a: int, b: int| 0 <= a < new_all.len() && 0 <= b < new_all.len() && a != b implies new_all[a] != new_all[b] by {
                    if a < prev.len() && b >= prev.len() {
                        assert(prev.contains(new_all[a]));
                        assert(added.contains(new_all[b]));
                        assert(added[b - prev.len()] == new_all[b]);
                        assert(vb[new_all[a] as int]);
                    } else if b < prev.len() && a >= prev.len() {
                        assert(prev.contains(new_all[b]));
                        assert(added[a - prev.len()] == new_all[a]);
                        assert(added.contains(new_all[a]));
                        assert(vb[new_all[b] as int]);
                    } else if a >= prev.len() && b >= prev.len() {
                        assert(added[a - prev.len()] == new_all[a]);
                        assert(added[b - prev.len()] == new_all[b]);
                    }
                }
                assert forall|k: int, y: NodeId| o0.len() <= k < order@.len() && #[trigger] cfg.has_edge(order@[k], y) implies visited@[y as int] by {
                    if k < ob.len() {
                        assert(order@[k] == ob[k]);
                        assert(vb[y as int]) by {
                            assert(y < n) by {
                                let j = choose|j: int| 0 <= j < cfg.successors@[order@[k] as int]@.len() && cfg.successors@[order@[k] as int]@[j] == y;
                            }
                        }
                    }
                }
                assert forall|k: int| o0.len() <= k < order@.len() implies reaches(cfg, root, #[trigger] order@[k]) by {
                    if k < ob.len() {
                        assert(order@[k] == ob[k]);
                    }
                }
                assert forall|k: int| o0.len() <= k < order@.len() implies #[trigger] order@[k] < n by {
                    if k < ob.len() {
                        assert(order@[k] == ob[k]);
                    }
                }
            }
        }
        i += 1;
    }
    let ghost ob = order@;
    order.push(node);
    proof {
        let new_all = order@.subrange(o0.len() as int, order@.len() as int);
        let prev = ob.subrange(o0.len() as int, ob.len() as int);
        assert(new_all =~= prev.push(node));
        assert(order@.subrange(0, o0.len() as int) =~= ob.subrange(0, o0.len() as int));
        assert forall|x: NodeId| x < n implies (new_all.contains(x) <==> (#[trigger] visited@[x as int] && !v0[x as int])) by {
            if new_all.contains(x) && x != node {
                let k = choose|k: int| 0 <= k < new_all.len() && new_all[k] == x;
                assert(prev[k] == x);
            }
            if visited@[x as int] && !v0[x as int] {
                if x == node {
                    assert(new_all[prev.len() as int] == x);
                } else {
                    let k = choose|k: int| 0 <= k < prev.len() && prev[k] == x;
                    assert(new_all[k] == x);
                }
            }
        }
        assert forall|a: int, b: int| 0 <= a < new_all.len() && 0 <= b < new_all.len() && a != b implies new_all[a] != new_all[b] by {
            if a == prev.len() {
                assert(prev.contains(new_all[b]));
            } else if b == prev.len() {
                assert(prev.contains(new_all[a]));
            }
        }
        assert forall|k: int, y: NodeId| o0.len() <= k < order@.len() && #[trigger] cfg.has_edge(order@[k], y) implies visited@[y as int] by {
            if k == ob.len() {
                let j = choose|j: int| 0 <= j < succs@.len() && succs@[j] == y;
                assert(visited@[succs@[j] as int]);
            } else {
                assert(order@[k] == ob[k]);
            }
        }
        assert forall|k: int| o0.len() <= k < order@.len() implies reaches(cfg, root, #[trigger] order@[k]) by {
            if k < ob.len() {
                assert(order@[k] == ob[k]);
            }
        }
    }
}

/// Compute post-order traversal
fn compute_post_order(cfg: &Cfg) -> (order: Vec<NodeId>)
    requires
        cfg.wf(),
    ensures
        order@.len() > 0,
        order@.last() == cfg.entry,
        order@.no_duplicates(),
        cfg.entry < cfg.nodes@.len() ==> forall|i: int| 0 <= i < order@.len() ==> reaches(cfg, cfg.entry, #[trigger] order@[i]),
        cfg.entry < cfg.nodes@.len() ==> forall|i: int, y: NodeId| 0 <= i < order@.len() && #[trigger] cfg.has_edge(order@[i], y) ==> order@.contains(y),
        cfg.entry >= cfg.nodes@.len() ==> order@ == seq![cfg.entry],
{
    let n = cfg.nodes.len();
    let mut order: Vec<NodeId> = Vec::new();
    if cfg.entry >= n {
        order.push(cfg.entry);
        assert(order@ =~= seq![cfg.entry]);
        return order;
    }
    let mut visited: Vec<bool> = Vec::new();
    let mut i: usize = 0;
    while i < n
        invariant
            i <= n,
            visited@.len() == i,
            forall|k: int| 0 <= k < i ==> !#[trigger] visited@[k],
        decreases n - i,
    {
        visited.push(false);
        i += 1;
    }
    proof {
        lemma_reaches_refl(cfg, cfg.entry);
    }
    dfs_post_order(cfg, cfg.entry, &mut visited, &mut order, Ghost(cfg.entry));
    proof {
        assert(order@.subrange(0, order@.len() as int) =~= order@);
        assert forall|i: int, y: NodeId| 0 <= i < order@.len() && #[trigger] cfg.has_edge(order@[i], y) implies order@.contains(y) by {
            assert(y < n) by {
                let j = choose|j: int| 0 <= j < cfg.successors@[order@[i] as int]@.len() && cfg.successors@[order@[i] as int]@[j] == y;
            }
        }
    }
    order
}


/// Extract immediate dominators from the dominator matrix
fn extract_idom(m: &Vec<Vec<bool>>, n: usize, entry: NodeId) -> (r: Vec<Option<NodeId>>)
    requires
        is_square(mat(m@), n as nat),
    ensures
        r@.len() == n,
        forall|v: int| 0 <= v < n ==> #[trigger] r@[v] == spec_idom(mat(m@), n as nat, entry, v),
{
    let ghost mm = mat(m@);
    let mut r: Vec<Option<NodeId>> = Vec::new();
    let mut v: usize = 0;
    while v < n
        invariant
            v <= n,
            mm == mat(m@),
            is_square(mm, n as nat),
            r@.len() == v,
            forall|w: int| 0 <= w < v ==> #[trigger] r@[w] == spec_idom(mm, n as nat, entry, w),
        decreases n - v,
    {
        let mut found: Option<NodeId> = None;
        if v != entry {
            assert(m@[v as int]@ == mm[v as int]);
            let mut c: usize = 0;
            while c < n
                invariant
                    v < n,
                    v != entry,
                    c <= n,
                    mm == mat(m@),
                    is_square(mm, n as nat),
                    found is None ==> forall|c2: int| 0 <= c2 < c ==> !is_idom_candidate(mm, n as nat, v as int, c2),
                    found matches Some(f) ==> is_idom_candidate(mm, n as nat, v as int, f as int)
                        && forall|c2: int| 0 <= c2 < f ==> !is_idom_candidate(mm, n as nat, v as int, c2),
                decreases n - c,
            {
                assert(m@[v as int]@ == mm[v as int]);
                if found.is_none() && c != v && m[v][c] {
                    assert(m@[c as int]@ == mm[c as int]);
                    let mut ok = true;
                    let mut o: usize = 0;
                    while o < n
                        invariant
                            v < n,
                            c < n,
                            o <= n,
                            mm == mat(m@),
                            is_square(mm, n as nat),
                            ok == forall|o2: int| 0 <= o2 < o && o2 != v && o2 != c && #[trigger] mm[v as int][o2] ==> mm[c as int][o2],
                        decreases n - o,
                    {
                        assert(m@[v as int]@ == mm[v as int]);
                        assert(m@[c as int]@ == mm[c as int]);
                        if o != v && o != c && m[v][o] && !m[c][o] {
                            ok = false;
                        }
                        o += 1;
                    }
                    if ok {
                        found = Some(c);
                    }
                }
                c += 1;
            }
            proof {
                if found is None {
                    assert(!(exists|c2: int| is_idom_candidate(mm, n as nat, v as int, c2)));
                } else {
                    let f = found->0 as int;
                    let chosen = choose|c: int| is_idom_candidate(mm, n as nat, v as int, c) && forall|c2: int| #[trigger] is_idom_candidate(mm, n as nat, v as int, c2) ==> c <= c2;
                    assert(is_idom_candidate(mm, n as nat, v as int, f) && forall|c2: int| #[trigger] is_idom_candidate(mm, n as nat, v as int, c2) ==> f <= c2);
                    assert(chosen == f);
                }
            }
        }
        r.push(found);
        v += 1;
    }
    r
}

/// For each node, the other nodes it dominates, in increasing order.
fn collect_dominated(m: &Vec<Vec<bool>>, n: usize) -> (r: Vec<Vec<NodeId>>)
    requires
        is_square(mat(m@), n as nat),
    ensures
        r@.len() == n,
        forall|a: int| 0 <= a < n ==> is_dominated_list(mat(m@), n as nat, a, #[trigger] r@[a]@),
{
    let ghost mm = mat(m@);
    let mut r: Vec<Vec<NodeId>> = Vec::new();
    let mut a: usize = 0;
    while a < n
        invariant
            a <= n,
            mm == mat(m@),
            is_square(mm, n as nat),
            r@.len() == a,
            forall|x: int| 0 <= x < a ==> is_dominated_list(mm, n as nat, x, #[trigger] r@[x]@),
        decreases n - a,
    {
        let mut list: Vec<NodeId> = Vec::new();
        let mut b: usize = 0;
        while b < n
            invariant
                a < n,
                b <= n,
                mm == mat(m@),
                is_square(mm, n as nat),
                forall|i: int, j: int| 0 <= i < j < list@.len() ==> list@[i] < list@[j],
                forall|i: int| 0 <= i < list@.len() ==> #[trigger] list@[i] < b,
                forall|x: NodeId| #[trigger] list@.contains(x) <==> (x < b && x != a && mm[x as int][a as int]),
            decreases n - b,
        {
            assert(m@[b as int]@ == mm[b as int]);
            if b != a && m[b][a] {
                let ghost old_list = list@;
                list.push(b);
                proof {
                    assert forall|x: NodeId| #[trigger] list@.contains(x) <==> (x < b + 1 && x != a && mm[x as int][a as int]) by {
                        if list@.contains(x) && x != b {
                            let k = choose|k: int| 0 <= k < list@.len() && list@[k] == x;
                            assert(old_list[k] == x);
                            assert(old_list.contains(x));
                        }
                        if x < b && x != a && mm[x as int][a as int] {
                            assert(old_list.contains(x));
                            let k = choose|k: int| 0 <= k < old_list.len() && old_list[k] == x;
                            assert(list@[k] == x);
                            assert(list@.contains(x));
                        }
                        if x == b {
                            assert(list@[old_list.len() as int] == b);
                            assert(list@.contains(x));
                        }
                    }
                }
            } else {
                proof {
                    assert(m@[b as int]@ == mm[b as int]);
                }
            }
            b += 1;
        }
        r.push(list);
        a += 1;
    }
    r
}

/// `list` holds, in increasing order, the nodes other than `a` that `a` dominates.
pub open spec fn is_dominated_list(m: Seq<Seq<bool>>, n: nat, a: int, list: Seq<NodeId>) -> bool {
    &&& forall|i: int, j: int| 0 <= i < j < list.len() ==> list[i] < list[j]
    &&& forall|x: NodeId| #[trigger] list.contains(x) <==> (x < n && x != a && m[x as int][a])
}


impl DominatorInfo {
    /// `a` dominates `b` according to this information.
    pub open spec fn spec_dominates(&self, a: NodeId, b: NodeId) -> bool {
        a == b || (b < self.dominators@.len() && a < self.dominators@[b as int]@.len()
            && self.dominators@[b as int]@[a as int])
    }

    /// Check if `a` dominates `b`
    pub fn dominates(&self, a: NodeId, b: NodeId) -> (r: bool)
        ensures
            r == self.spec_dominates(a, b),
    {
        if a == b {
            return true;
        }
        b < self.dominators.len() && a < self.dominators[b].len() && self.dominators[b][a]
    }

    /// Check if `a` strictly dominates `b` (a dominates b and a != b)
    pub fn strictly_dominates(&self, a: NodeId, b: NodeId) -> (r: bool)
        ensures
            r == (a != b && self.spec_dominates(a, b)),
    {
        a != b && self.dominates(a, b)
    }

    /// Get immediate dominator of a node
    pub fn get_idom(&self, node: NodeId) -> (r: Option<NodeId>)
        ensures
            node < self.idom@.len() ==> r == self.idom@[node as int],
            node >= self.idom@.len() ==> r is None,
    {
        if node < self.idom.len() {
            self.idom[node]
        } else {
            None
        }
    }

    /// Get all nodes dominated by a given node (other than itself)
    pub fn get_dominated(&self, node: NodeId) -> (r: Vec<NodeId>)
        ensures
            node < self.dominated@.len() ==> r@ == self.dominated@[node as int]@,
            node >= self.dominated@.len() ==> r@.len() == 0,
    {
        if node < self.dominated.len() {
            self.dominated[node].clone()
        } else {
            Vec::new()
        }
    }
}

/// The dominator information of `cfg`, as `compute_dominators` builds it.
pub open spec fn is_dominator_info(cfg: &Cfg, info: &DominatorInfo) -> bool {
    let n = cfg.nodes@.len();
    let m = mat(info.dominators@);
    if n == 0 {
        &&& info.dominators@.len() == 0
        &&& info.idom@.len() == 0
        &&& info.dominated@.len() == 0
        &&& info.post_order@.len() == 0
    } else {
        &&& is_greatest_solution(cfg, m)
        &&& info.idom@.len() == n
        &&& forall|v: int| 0 <= v < n ==> #[trigger] info.idom@[v] == spec_idom(m, n, cfg.entry, v)
        &&& info.dominated@.len() == n
        &&& forall|a: int| 0 <= a < n ==> is_dominated_list(m, n, a, #[trigger] info.dominated@[a]@)
        &&& info.post_order@.len() > 0
        &&& info.post_order@.last() == cfg.entry
        &&& info.post_order@.no_duplicates()
        &&& cfg.entry < n ==> forall|i: int| 0 <= i < info.post_order@.len() ==> reaches(cfg, cfg.entry, #[trigger] info.post_order@[i])
        &&& cfg.entry < n ==> forall|i: int, y: NodeId| 0 <= i < info.post_order@.len() && #[trigger] cfg.has_edge(info.post_order@[i], y) ==> info.post_order@.contains(y)
        &&& cfg.entry >= n ==> info.post_order@ == seq![cfg.entry]
    }
}

/// Compute dominators using the iterative dataflow algorithm
pub fn compute_dominators(cfg: &Cfg) -> (info: DominatorInfo)
    requires
        cfg.wf(),
    ensures
        is_dominator_info(cfg, &info),
{
    let n = cfg.len();
    if n == 0 {
        return DominatorInfo { idom: Vec::new(), dominators: Vec::new(), dominated: Vec::new(), post_order: Vec::new() };
    }
    let post_order = compute_post_order(cfg);
    let dominators = solve_dominators(cfg);
    let idom = extract_idom(&dominators, n, cfg.entry);
    let dominated = collect_dominated(&dominators, n);
    DominatorInfo { idom, dominators, dominated, post_order }
}

/// Soundness of dominance: when `a` dominates `b` in a solution of the
/// dominator equations, every path from the entry to `b` passes through `a`.
pub proof fn lemma_dominator_on_every_path(cfg: &Cfg, m: Seq<Seq<bool>>, a: NodeId, path: Seq<NodeId>)
    requires
        cfg.wf(),
        is_solution(cfg, m),
        is_path(cfg, path),
        path[0] == cfg.entry,
        path.last() < cfg.nodes@.len(),
        a < cfg.nodes@.len(),
        m[path.last() as int][a as int],
    ensures
        path.contains(a),
    decreases path.len(),
{
    let n = cfg.nodes@.len();
    let b = path.last();
    assert(row_solved(cfg, m, b as int));
    if b == a {
        assert(path[path.len() - 1] == a);
    } else if b == cfg.entry {
        assert(m[b as int][a as int] <==> a == b);
    } else if path.len() == 1 {
        assert(path[0] == b);
    } else {
        let p = path[path.len() - 2];
        assert(cfg.has_edge(path[path.len() - 2], path[path.len() - 2 + 1]));
        assert(p < n);
        assert(cfg.successors@[p as int]@.contains(b));
        assert(is_pred(cfg, b as int, p));
        assert(flow(cfg, m, b as int, a as int));
        assert(m[p as int][a as int]);
        let prefix = path.drop_last();
        assert forall|i: int| 0 <= i < prefix.len() - 1 implies #[trigger] cfg.has_edge(prefix[i], prefix[i + 1]) by {
            assert(cfg.has_edge(path[i], path[i + 1]));
        }
        lemma_dominator_on_every_path(cfg, m, a, prefix);
        let k = choose|k: int| 0 <= k < prefix.len() && prefix[k] == a;
        assert(path[k] == a);
    }
}

/// Law: `a` dominates `b` (for `compute_dominators`) only if every path from
/// the entry to `b` passes through `a`.
pub proof fn lemma_dominates_sound(cfg: &Cfg, info: &DominatorInfo, a: NodeId, b: NodeId)
    requires
        cfg.wf(),
        is_dominator_info(cfg, info),
        a < cfg.nodes@.len(),
        b < cfg.nodes@.len(),
        info.spec_dominates(a, b),
    ensures
        on_every_path(cfg, a, b),
{
    assert forall|path: Seq<NodeId>| is_path(cfg, path) && path[0] == cfg.entry && path.last() == b implies #[trigger] path.contains(a) by {
        if a == b {
            assert(path[path.len() - 1] == a);
        } else {
            assert(mat(info.dominators@)[b as int] == info.dominators@[b as int]@);
            lemma_dominator_on_every_path(cfg, mat(info.dominators@), a, path);
        }
    }
}


/// The assignment that maps each node to the nodes on every path to it.
pub open spec fn path_dominance(cfg: &Cfg) -> Seq<Seq<bool>> {
    Seq::new(
        cfg.nodes@.len(),
        |v: int| Seq::new(cfg.nodes@.len(), |d: int| on_every_path(cfg, d as NodeId, v as NodeId)),
    )
}

proof fn lemma_path_dominance_consistent(cfg: &Cfg)
    requires
        cfg.wf(),
        forall|v: int| 0 <= v < cfg.nodes@.len() && v != cfg.entry ==> #[trigger] cfg.predecessors@[v]@.len() > 0,
    ensures
        is_consistent(cfg, path_dominance(cfg)),
{
    let n = cfg.nodes@.len();
    let x = path_dominance(cfg);
    assert forall|v: int, d: int| 0 <= v < n && 0 <= d < n && v != cfg.entry && #[trigger] x[v][d] implies flow(cfg, x, v, d) by {
        if d != v {
            assert forall|p: NodeId| #[trigger] is_pred(cfg, v, p) implies x[p as int][d] by {
                let k = choose|k: int| 0 <= k < cfg.predecessors@[v]@.len() && cfg.predecessors@[v]@[k] == p;
                assert(p < n);
                assert(cfg.successors@[p as int]@.contains(v as NodeId));
                assert forall|path: Seq<NodeId>| is_path(cfg, path) && path[0] == cfg.entry && path.last() == p implies #[trigger] path.contains(d as NodeId) by {
                    let ext = path.push(v as NodeId);
                    assert forall|i: int| 0 <= i < ext.len() - 1 implies #[trigger] cfg.has_edge(ext[i], ext[i + 1]) by {
                        if i < path.len() - 1 {
                            assert(cfg.has_edge(path[i], path[i + 1]));
                        } else {
                            assert(ext[i] == p && ext[i + 1] == v as NodeId);
                        }
                    }
                    assert(x[v][d] == on_every_path(cfg, d as NodeId, v as NodeId));
                    assert(ext.contains(d as NodeId));
                    let j = choose|j: int| 0 <= j < ext.len() && ext[j] == d as NodeId;
                    assert(j < path.len());
                    assert(path[j] == d as NodeId);
                }
            }
        }
    }
    assert forall|d: int| 0 <= d < n && cfg.entry < n && #[trigger] x[cfg.entry as int][d] implies d == cfg.entry by {
        let path = seq![cfg.entry];
        assert(is_path(cfg, path));
        assert(path.contains(d as NodeId));
    }
}

/// Law: when every node other than the entry has a predecessor, `a`
/// dominates `b` (for `compute_dominators`) exactly when every path from the
/// entry to `b` passes through `a`.
pub proof fn lemma_dominates_exact(cfg: &Cfg, info: &DominatorInfo, a: NodeId, b: NodeId)
    requires
        cfg.wf(),
        is_dominator_info(cfg, info),
        forall|v: int| 0 <= v < cfg.nodes@.len() && v != cfg.entry ==> #[trigger] cfg.predecessors@[v]@.len() > 0,
        a < cfg.nodes@.len(),
        b < cfg.nodes@.len(),
    ensures
        info.spec_dominates(a, b) <==> on_every_path(cfg, a, b),
{
    if info.spec_dominates(a, b) {
        lemma_dominates_sound(cfg, info, a, b);
    }
    if on_every_path(cfg, a, b) && a != b {
        lemma_path_dominance_consistent(cfg);
        let x = path_dominance(cfg);
        assert(below(x, mat(info.dominators@), cfg.nodes@.len()));
        assert(x[b as int][a as int]);
        assert(mat(info.dominators@)[b as int] == info.dominators@[b as int]@);
    }
}

} // verus!
