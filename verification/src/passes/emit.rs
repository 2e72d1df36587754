//! Structured code from a control-flow graph. The graph is walked from its
//! entry: a loop header becomes a `while` or `do`-`while` loop over the loop's
//! body, a branch becomes an `if` (or a conditional break where one side
//! leaves the loop being emitted), and a switch becomes a chain of `if`s on
//! the index. Each node is emitted once.
use vstd::prelude::*;
use crate::cfg::{Cfg, NodeId, Terminator};
use crate::cfg::builder::{GraphV, TerminatorV, build_cfg, cfg_view, node_view, spec_build_cfg, stmt_size, stmts_size};
use crate::cfg::loops::{LoopInfo, NaturalLoop, analyze_loops, is_natural_loop_of};
use crate::cfg::determined::{loops_of, same_graph, lemma_loops_determined};
use crate::cfg::dominators::{DominatorInfo, compute_dominators};
use crate::ir::{
    Block, BlockV, CmpOp, Expr, ExprKind, ExprKindV, ExprV, InferredType, Stmt, StmtV, stmts_view,
    lemma_stmts_view, lemma_stmts_view_push, duplicate_stmts,
};
use crate::passes::simplify::{negate_condition, spec_negate_condition};
use crate::passes::control_flow::lemma_stmts_view_append;

verus! {

/// A natural loop as plain values: its header, its body and its back edges.
pub struct LoopV {
    pub header: NodeId,
    pub body: Seq<NodeId>,
    pub back_edges: Seq<(NodeId, NodeId)>,
}

/// The loops of a loop analysis as plain values.
pub open spec fn loops_view(ls: Seq<NaturalLoop>) -> Seq<LoopV> {
    ls.map_values(|lp: NaturalLoop| LoopV { header: lp.header, body: lp.body@, back_edges: lp.back_edges@ })
}

/// `h` heads a loop.
pub open spec fn is_header(ls: Seq<LoopV>, h: NodeId) -> bool {
    exists|i: int| 0 <= i < ls.len() && (#[trigger] ls[i]).header == h
}

/// `(u, v)` is a back edge of a loop.
pub open spec fn is_back(ls: Seq<LoopV>, u: NodeId, v: NodeId) -> bool {
    exists|i: int| 0 <= i < ls.len() && (#[trigger] ls[i]).back_edges.contains((u, v))
}

/// The body of the last loop headed by `h`; empty where none is.
pub open spec fn body_of(ls: Seq<LoopV>, h: NodeId) -> Seq<NodeId>
    decreases ls.len(),
{
    if ls.len() == 0 {
        Seq::empty()
    } else if ls.last().header == h {
        ls.last().body
    } else {
        body_of(ls.drop_last(), h)
    }
}

/// Inside the loop body `lb`, `t` lies outside it.
pub open spec fn leaves(lb: Option<Seq<NodeId>>, t: NodeId) -> bool {
    lb matches Some(b) && !b.contains(t)
}

/// The successors of `u`; none for an ID that names no node.
pub open spec fn succs_of(g: GraphV, u: NodeId) -> Seq<NodeId> {
    if u < g.succs.len() { g.succs[u as int] } else { Seq::empty() }
}

/// The distance from `a` of each node within `k` steps of it, and `None`
/// for the others.
pub open spec fn distances(g: GraphV, a: NodeId, k: nat) -> Seq<Option<nat>>
    decreases k,
{
    let n = g.succs.len();
    if k == 0 {
        Seq::new(n, |x: int| if x == a { Some(0nat) } else { None })
    } else {
        let d = distances(g, a, (k - 1) as nat);
        Seq::new(n, |x: int| if d[x] is Some {
            d[x]
        } else if exists|y: int| 0 <= y < n && d[y] == Some((k - 1) as nat) && #[trigger] g.succs[y].contains(x as NodeId) {
            Some(k)
        } else {
            None
        })
    }
}

/// How far the search for a merge point looks.
pub open spec fn merge_depth() -> nat {
    20
}

/// `x` is within the search depth of `a` (an ID that names no node reaches
/// only itself).
pub open spec fn near(g: GraphV, a: NodeId, x: NodeId) -> bool {
    if a < g.succs.len() {
        x < g.succs.len() && distances(g, a, merge_depth())[x as int] is Some
    } else {
        x == a
    }
}

/// Among the first `k` nodes, the first near both starts whose larger
/// distance is least, with that distance.
pub open spec fn best_common(da: Seq<Option<nat>>, db: Seq<Option<nat>>, k: nat) -> Option<(NodeId, nat)>
    decreases k,
{
    if k == 0 {
        None
    } else {
        let prev = best_common(da, db, (k - 1) as nat);
        let x = k - 1;
        if da[x] is Some && db[x] is Some {
            let m = if da[x]->0 >= db[x]->0 { da[x]->0 } else { db[x]->0 };
            match prev {
                Some(p) => if m < p.1 { Some((x as NodeId, m)) } else { prev },
                None => Some((x as NodeId, m)),
            }
        } else {
            prev
        }
    }
}

/// Where the paths from `a` and `b` meet: `stop` where either start comes
/// near it; else the node near both whose larger distance is least; else
/// `stop`.
pub open spec fn merge_point(g: GraphV, a: NodeId, b: NodeId, stop: Option<NodeId>) -> Option<NodeId> {
    let n = g.succs.len();
    if stop matches Some(s) && (near(g, a, s) || near(g, b, s)) {
        stop
    } else if a >= n || b >= n {
        if a == b { Some(a) } else { stop }
    } else {
        match best_common(distances(g, a, merge_depth()), distances(g, b, merge_depth()), n) {
            Some(p) => Some(p.0),
            None => stop,
        }
    }
}

/// The first entry of `list` from `j` on that is not in `body`.
pub open spec fn first_outside(list: Seq<NodeId>, body: Seq<NodeId>, j: nat) -> Option<NodeId>
    decreases list.len() - j,
{
    if j >= list.len() {
        None
    } else if !body.contains(list[j as int]) {
        Some(list[j as int])
    } else {
        first_outside(list, body, j + 1)
    }
}

/// The first successor outside `body` of a node of `body` from position `i`
/// on, in the body's order.
pub open spec fn exit_scan(g: GraphV, body: Seq<NodeId>, i: nat) -> Option<NodeId>
    decreases body.len() - i,
{
    if i >= body.len() {
        None
    } else {
        match first_outside(succs_of(g, body[i as int]), body, 0) {
            Some(s) => Some(s),
            None => exit_scan(g, body, i + 1),
        }
    }
}

/// Where control goes on after the loop headed by `h`.
pub open spec fn loop_exit(g: GraphV, ls: Seq<LoopV>, h: NodeId) -> Option<NodeId> {
    exit_scan(g, body_of(ls, h), 0)
}

/// How many of the first `k` node IDs are not in `em`.
pub open spec fn unemitted(em: Seq<NodeId>, k: nat) -> nat
    decreases k,
{
    if k == 0 {
        0
    } else {
        unemitted(em, (k - 1) as nat) + if em.contains((k - 1) as NodeId) { 0nat } else { 1nat }
    }
}

/// A break out of the enclosing loop.
pub open spec fn brk() -> StmtV {
    StmtV::Br { label: u32::MAX, is_loop: false }
}

/// The constant `1`, the condition of a loop that only a break ends.
pub open spec fn always() -> ExprV {
    ExprV { kind: ExprKindV::I32Const(1), ty: InferredType::I32 }
}

/// `if (c) { t } else { e }`, with no else block where `e` is empty.
pub open spec fn if_else(c: ExprV, t: Seq<StmtV>, e: Seq<StmtV>) -> StmtV {
    StmtV::If {
        cond: c,
        then_block: BlockV { stmts: t },
        else_block: if e.len() == 0 { None } else { Some(BlockV { stmts: e }) },
    }
}

/// `index == i`.
pub open spec fn case_test(index: ExprV, i: int) -> ExprV {
    ExprV {
        kind: ExprKindV::Compare(
            CmpOp::Eq,
            Box::new(index),
            Box::new(ExprV { kind: ExprKindV::I32Const(i as i32), ty: InferredType::I32 }),
            InferredType::I32,
        ),
        ty: InferredType::Unknown,
    }
}

/// What emitting from `cur` gives, in a run that started at `start` and
/// stops at `stop` or at an exit of the loop body `lb`, with `em` emitted
/// so far: the statements, and the nodes emitted after it.
pub open spec fn emit_run(
    g: GraphV,
    ls: Seq<LoopV>,
    start: NodeId,
    stop: Option<NodeId>,
    lb: Option<Seq<NodeId>>,
    cur: NodeId,
    em: Seq<NodeId>,
    fuel: nat,
) -> (Seq<StmtV>, Seq<NodeId>)
    decreases fuel, 0nat,
{
    if fuel == 0 {
        (Seq::empty(), em)
    } else if stop == Some(cur) && cur != start {
        (Seq::empty(), em)
    } else if em.contains(cur) || leaves(lb, cur) {
        (Seq::empty(), em)
    } else if is_header(ls, cur) {
        let l = emit_loop(g, ls, cur, em, (fuel - 1) as nat);
        match loop_exit(g, ls, cur) {
            Some(x) => if !l.1.contains(x) && stop != Some(x) {
                let rest = emit_run(g, ls, start, stop, lb, x, l.1, (fuel - 1) as nat);
                (l.0 + rest.0, rest.1)
            } else {
                l
            },
            None => l,
        }
    } else {
        let em1 = em.push(cur);
        let f = (fuel - 1) as nat;
        if cur >= g.nodes.len() {
            (Seq::empty(), em1)
        } else {
            let pre = g.nodes[cur as int].stmts;
            match g.nodes[cur as int].terminator {
                TerminatorV::Fallthrough(nx) => if is_back(ls, cur, nx) || leaves(lb, nx) {
                    (pre, em1)
                } else {
                    let rest = emit_run(g, ls, start, stop, lb, nx, em1, f);
                    (pre + rest.0, rest.1)
                },
                TerminatorV::Goto(nx) => if is_back(ls, cur, nx) || leaves(lb, nx) {
                    (pre, em1)
                } else {
                    let rest = emit_run(g, ls, start, stop, lb, nx, em1, f);
                    (pre + rest.0, rest.1)
                },
                TerminatorV::Branch { cond, then_target, else_target } => {
                    let te = leaves(lb, then_target);
                    let ee = leaves(lb, else_target);
                    if te && !ee {
                        let s = if_else(cond, seq![brk()], Seq::empty());
                        if !em1.contains(else_target) {
                            let rest = emit_run(g, ls, start, stop, lb, else_target, em1, f);
                            (pre.push(s) + rest.0, rest.1)
                        } else {
                            (pre.push(s), em1)
                        }
                    } else if !te && ee {
                        let s = if_else(spec_negate_condition(cond), seq![brk()], Seq::empty());
                        if !em1.contains(then_target) {
                            let rest = emit_run(g, ls, start, stop, lb, then_target, em1, f);
                            (pre.push(s) + rest.0, rest.1)
                        } else {
                            (pre.push(s), em1)
                        }
                    } else {
                        let merge = merge_point(g, then_target, else_target, stop);
                        let t = emit_run(g, ls, then_target, stop, lb, then_target, em1, f);
                        let e = emit_run(g, ls, else_target, stop, lb, else_target, t.1, f);
                        let s = if_else(cond, t.0, e.0);
                        match merge {
                            Some(m) => if !e.1.contains(m) && stop != Some(m) && !leaves(lb, m) {
                                let rest = emit_run(g, ls, start, stop, lb, m, e.1, f);
                                (pre.push(s) + rest.0, rest.1)
                            } else {
                                (pre.push(s), e.1)
                            },
                            None => (pre.push(s), e.1),
                        }
                    }
                },
                TerminatorV::Switch { index, targets, default } => {
                    let cases = emit_cases(g, ls, stop, lb, index, targets, 0, em1, f);
                    if !cases.1.contains(default) {
                        let d = emit_run(g, ls, default, stop, lb, default, cases.1, f);
                        (pre + cases.0 + d.0, d.1)
                    } else {
                        (pre + cases.0, cases.1)
                    }
                },
                TerminatorV::Return(v) => (pre.push(StmtV::Return(v)), em1),
                TerminatorV::Unreachable => (pre, em1),
            }
        }
    }
}

/// The `if` chain of a switch's targets from position `i` on: each target
/// not yet emitted, under the test that the index equals its position.
pub open spec fn emit_cases(
    g: GraphV,
    ls: Seq<LoopV>,
    stop: Option<NodeId>,
    lb: Option<Seq<NodeId>>,
    index: ExprV,
    targets: Seq<NodeId>,
    i: nat,
    em: Seq<NodeId>,
    fuel: nat,
) -> (Seq<StmtV>, Seq<NodeId>)
    decreases fuel, (targets.len() - i) as nat + 1,
{
    if i >= targets.len() {
        (Seq::empty(), em)
    } else {
        let t = targets[i as int];
        if !em.contains(t) {
            let c = emit_run(g, ls, t, stop, lb, t, em, fuel);
            let rest = emit_cases(g, ls, stop, lb, index, targets, i + 1, c.1, fuel);
            (seq![if_else(case_test(index, i as int), c.0, Seq::empty())] + rest.0, rest.1)
        } else {
            emit_cases(g, ls, stop, lb, index, targets, i + 1, em, fuel)
        }
    }
}

/// A loop body emitted from `t` up to the header `h`.
pub open spec fn emit_body(g: GraphV, ls: Seq<LoopV>, h: NodeId, t: NodeId, em: Seq<NodeId>, fuel: nat) -> (Seq<StmtV>, Seq<NodeId>)
    decreases fuel, 1nat,
{
    emit_run(g, ls, t, Some(h), Some(body_of(ls, h)), t, em, fuel)
}

/// `while (1) { s }`.
pub open spec fn forever(s: Seq<StmtV>) -> StmtV {
    StmtV::While { cond: always(), body: BlockV { stmts: s } }
}

/// A loop whose header `h` tests `c` and continues at `t` when it holds
/// true: `while (c) { body }` where the header holds no statements, else
/// `while (1) { header; if (c) { body } }`.
pub open spec fn test_first(hs: Seq<StmtV>, c: ExprV, body: Seq<StmtV>) -> StmtV {
    if hs.len() == 0 {
        StmtV::While { cond: c, body: BlockV { stmts: body } }
    } else {
        forever(if body.len() > 0 { hs.push(if_else(c, body, Seq::empty())) } else { hs })
    }
}

/// The statements for the loop headed by `h`, and the nodes emitted after it.
pub open spec fn emit_loop(g: GraphV, ls: Seq<LoopV>, h: NodeId, em: Seq<NodeId>, fuel: nat) -> (Seq<StmtV>, Seq<NodeId>)
    decreases fuel, 2nat,
{
    let em1 = em.push(h);
    if h >= g.nodes.len() {
        (Seq::empty(), em1)
    } else {
        let hs = g.nodes[h as int].stmts;
        let lb = body_of(ls, h);
        match g.nodes[h as int].terminator {
            TerminatorV::Branch { cond, then_target, else_target } => {
                let in_t = lb.contains(then_target);
                let in_e = lb.contains(else_target);
                if then_target == h && in_e && else_target != h {
                    let b = emit_body(g, ls, h, else_target, em1, fuel);
                    (seq![test_first(hs, spec_negate_condition(cond), b.0)], b.1)
                } else if else_target == h && in_t && then_target != h {
                    let b = emit_body(g, ls, h, then_target, em1, fuel);
                    (seq![test_first(hs, cond, b.0)], b.1)
                } else if !in_t && in_e {
                    let b = emit_body(g, ls, h, else_target, em1, fuel);
                    (seq![StmtV::DoWhile { body: BlockV { stmts: hs + b.0 }, cond: spec_negate_condition(cond) }], b.1)
                } else if in_t && !in_e {
                    let b = emit_body(g, ls, h, then_target, em1, fuel);
                    (seq![StmtV::DoWhile { body: BlockV { stmts: hs + b.0 }, cond }], b.1)
                } else if in_t && in_e {
                    if !em1.contains(then_target) {
                        let b = emit_body(g, ls, h, then_target, em1, fuel);
                        (seq![forever(hs + b.0)], b.1)
                    } else {
                        (seq![forever(hs)], em1)
                    }
                } else {
                    let t = emit_run(g, ls, then_target, None, None, then_target, em1, fuel);
                    let e = emit_run(g, ls, else_target, None, None, else_target, t.1, fuel);
                    (seq![if_else(cond, t.0, e.0)], e.1)
                }
            },
            TerminatorV::Fallthrough(nx) => if lb.contains(nx) {
                let b = emit_body(g, ls, h, nx, em1, fuel);
                (seq![forever(hs + b.0)], b.1)
            } else {
                (hs, em1)
            },
            TerminatorV::Goto(nx) => if lb.contains(nx) {
                let b = emit_body(g, ls, h, nx, em1, fuel);
                (seq![forever(hs + b.0)], b.1)
            } else {
                (hs, em1)
            },
            _ => (hs, em1),
        }
    }
}

/// The first node from `k` on whose terminator is a return.
pub open spec fn first_return(g: GraphV, k: nat) -> Option<NodeId>
    decreases g.nodes.len() - k,
{
    if k >= g.nodes.len() {
        None
    } else if g.nodes[k as int].terminator is Return {
        Some(k as NodeId)
    } else {
        first_return(g, k + 1)
    }
}

/// The structured code for a body with graph `g` and loops `ls`: the run
/// from the entry, followed, where it does not end in a return, by the first
/// returning node's statements and its return.
pub open spec fn spec_emit_structured(body: BlockV, g: GraphV, entry: NodeId, ls: Seq<LoopV>) -> BlockV {
    if g.nodes.len() == 0 {
        body
    } else {
        let s = emit_run(g, ls, entry, None, None, entry, Seq::empty(), g.nodes.len() + 1).0;
        if s.len() > 0 && s.last() is Return {
            BlockV { stmts: s }
        } else {
            match first_return(g, 0) {
                Some(r) => BlockV {
                    stmts: (s + g.nodes[r as int].stmts).push(StmtV::Return(g.nodes[r as int].terminator->Return_0)),
                },
                None => BlockV { stmts: s },
            }
        }
    }
}

/// Whether `x` is in `v`.
fn contains_id(v: &Vec<NodeId>, x: NodeId) -> (r: bool)
    ensures
        r == v@.contains(x),
{
    let mut i: usize = 0;
    while i < v.len()
        invariant
            i <= v@.len(),
            forall|j: int| 0 <= j < i ==> v@[j] != x,
        decreases v@.len() - i,
    {
        if v[i] == x {
            return true;
        }
        i += 1;
    }
    false
}

/// Whether a loop is headed by `h`.
fn is_header_exec(ls: &Vec<NaturalLoop>, h: NodeId) -> (r: bool)
    ensures
        r == is_header(loops_view(ls@), h),
{
    let ghost lv = loops_view(ls@);
    let mut i: usize = 0;
    while i < ls.len()
        invariant
            i <= ls@.len(),
            lv == loops_view(ls@),
            forall|j: int| 0 <= j < i ==> lv[j].header != h,
        decreases ls@.len() - i,
    {
        if ls[i].header == h {
            assert(lv[i as int].header == h);
            return true;
        }
        i += 1;
    }
    false
}

/// Whether `(u, v)` is a back edge of a loop.
fn is_back_exec(ls: &Vec<NaturalLoop>, u: NodeId, v: NodeId) -> (r: bool)
    ensures
        r == is_back(loops_view(ls@), u, v),
{
    let ghost lv = loops_view(ls@);
    let mut i: usize = 0;
    while i < ls.len()
        invariant
            i <= ls@.len(),
            lv == loops_view(ls@),
            forall|j: int| 0 <= j < i ==> !(#[trigger] lv[j]).back_edges.contains((u, v)),
        decreases ls@.len() - i,
    {
        let edges = &ls[i].back_edges;
        let mut k: usize = 0;
        while k < edges.len()
            invariant
                k <= edges@.len(),
                i < ls@.len(),
                lv == loops_view(ls@),
                edges@ == lv[i as int].back_edges,
                forall|j: int| 0 <= j < k ==> edges@[j] != (u, v),
            decreases edges@.len() - k,
        {
            if edges[k].0 == u && edges[k].1 == v {
                assert(lv[i as int].back_edges[k as int] == (u, v));
                assert(lv[i as int].back_edges.contains((u, v)));
                return true;
            }
            k += 1;
        }
        i += 1;
    }
    false
}

/// A copy of the body of the last loop headed by `h`; empty where none is.
fn body_of_exec(ls: &Vec<NaturalLoop>, h: NodeId) -> (r: Vec<NodeId>)
    ensures
        r@ == body_of(loops_view(ls@), h),
{
    let ghost lv = loops_view(ls@);
    let mut k: usize = ls.len();
    assert(lv.subrange(0, k as int) =~= lv);
    while k > 0
        invariant
            k <= ls@.len(),
            lv == loops_view(ls@),
            body_of(lv, h) == body_of(lv.subrange(0, k as int), h),
        decreases k,
    {
        assert(lv.subrange(0, k as int).drop_last() =~= lv.subrange(0, k - 1));
        if ls[k - 1].header == h {
            let mut r: Vec<NodeId> = Vec::new();
            let b = &ls[k - 1].body;
            let mut j: usize = 0;
            while j < b.len()
                invariant
                    j <= b@.len(),
                    r@ == b@.subrange(0, j as int),
                decreases b@.len() - j,
            {
                r.push(b[j]);
                j += 1;
            }
            assert(b@.subrange(0, j as int) =~= b@);
            return r;
        }
        k -= 1;
    }
    Vec::new()
}

/// The first entry of `list` from `j` on that is not in `body`.
fn first_outside_exec(list: &[NodeId], body: &Vec<NodeId>) -> (r: Option<NodeId>)
    ensures
        r == first_outside(list@, body@, 0),
{
    let mut j: usize = 0;
    while j < list.len()
        invariant
            j <= list@.len(),
            first_outside(list@, body@, 0) == first_outside(list@, body@, j as nat),
        decreases list@.len() - j,
    {
        if !contains_id(body, list[j]) {
            return Some(list[j]);
        }
        j += 1;
    }
    None
}

/// Where control goes on after the loop headed by `h`.
fn loop_exit_exec(cfg: &Cfg, ls: &Vec<NaturalLoop>, h: NodeId) -> (r: Option<NodeId>)
    requires
        cfg.wf(),
    ensures
        r == loop_exit(cfg_view(*cfg), loops_view(ls@), h),
{
    let body = body_of_exec(ls, h);
    let ghost g = cfg_view(*cfg);
    let mut i: usize = 0;
    while i < body.len()
        invariant
            i <= body@.len(),
            g == cfg_view(*cfg),
            cfg.wf(),
            body@ == body_of(loops_view(ls@), h),
            exit_scan(g, body@, 0) == exit_scan(g, body@, i as nat),
        decreases body@.len() - i,
    {
        let succ = cfg.get_successors(body[i]);
        assert(succ@ == succs_of(g, body@[i as int]));
        match first_outside_exec(succ, &body) {
            Some(s) => {
                return Some(s);
            },
            None => {},
        }
        i += 1;
    }
    None
}

/// Distances as plain values.
pub open spec fn dist_view(v: Seq<Option<usize>>) -> Seq<Option<nat>> {
    v.map_values(|o: Option<usize>| match o {
        Some(x) => Some(x as nat),
        None => None,
    })
}

/// The distance from `a` of each node within the search depth of it.
fn distances_exec(cfg: &Cfg, a: NodeId) -> (r: Vec<Option<usize>>)
    requires
        cfg.wf(),
        a < cfg.nodes@.len(),
    ensures
        r@.len() == cfg.successors@.len(),
        dist_view(r@) == distances(cfg_view(*cfg), a, merge_depth()),
{
    let ghost g = cfg_view(*cfg);
    let n = cfg.successors.len();
    let mut d: Vec<Option<usize>> = Vec::new();
    let mut x: usize = 0;
    while x < n
        invariant
            x <= n,
            n == cfg.successors@.len(),
            d@.len() == x,
            forall|z: int| 0 <= z < x ==> d@[z] == (if z == a { Some(0usize) } else { None::<usize> }),
        decreases n - x,
    {
        if x == a {
            d.push(Some(0));
        } else {
            d.push(None);
        }
        x += 1;
    }
    assert(dist_view(d@) =~= distances(g, a, 0));
    let mut k: usize = 1;
    while k <= 20
        invariant
            1 <= k <= 21,
            cfg.wf(),
            g == cfg_view(*cfg),
            n == cfg.successors@.len(),
            n == g.succs.len(),
            d@.len() == n,
            dist_view(d@) == distances(g, a, (k - 1) as nat),
        decreases 21 - k,
    {
        let ghost dd = distances(g, a, (k - 1) as nat);
        let mut nd: Vec<Option<usize>> = Vec::new();
        let mut x: usize = 0;
        while x < n
            invariant
                x <= n,
                d@.len() == n,
                nd@ == d@.subrange(0, x as int),
            decreases n - x,
        {
            nd.push(d[x]);
            x += 1;
        }
        assert(nd@ =~= d@);
        let mut y: usize = 0;
        while y < n
            invariant
                y <= n,
                1 <= k <= 20,
                cfg.wf(),
                g == cfg_view(*cfg),
                n == cfg.successors@.len(),
                n == g.succs.len(),
                d@.len() == n,
                nd@.len() == n,
                dist_view(d@) == dd,
                dd.len() == n,
                forall|z: int| 0 <= z < n ==> (#[trigger] dist_view(nd@)[z]) == (if dd[z] is Some {
                    dd[z]
                } else if exists|y2: int| 0 <= y2 < y && dd[y2] == Some((k - 1) as nat) && #[trigger] g.succs[y2].contains(z as NodeId) {
                    Some(k as nat)
                } else {
                    None
                }),
            decreases n - y,
        {
            assert(dist_view(d@)[y as int] == dd[y as int]);
            if d[y] == Some(k - 1) {
                let succ = cfg.get_successors(y);
                assert(succ@ == g.succs[y as int]);
                let mut j: usize = 0;
                while j < succ.len()
                    invariant
                        j <= succ@.len(),
                        y < n,
                        1 <= k <= 20,
                        cfg.wf(),
                        g == cfg_view(*cfg),
                        n == cfg.successors@.len(),
                        n == g.succs.len(),
                        succ@ == g.succs[y as int],
                        d@.len() == n,
                        nd@.len() == n,
                        dist_view(d@) == dd,
                        dd.len() == n,
                        dd[y as int] == Some((k - 1) as nat),
                        forall|z: int| 0 <= z < n ==> (#[trigger] dist_view(nd@)[z]) == (if dd[z] is Some {
                            dd[z]
                        } else if (exists|y2: int| 0 <= y2 < y && dd[y2] == Some((k - 1) as nat) && #[trigger] g.succs[y2].contains(z as NodeId))
                            || (exists|j2: int| 0 <= j2 < j && succ@[j2] == z as NodeId) {
                            Some(k as nat)
                        } else {
                            None
                        }),
                    decreases succ@.len() - j,
                {
                    let t = succ[j];
                    assert(t < n);
                    assert(dist_view(d@)[t as int] == dd[t as int]);
                    let ghost before = nd@;
                    if d[t].is_none() {
                        nd.set(t, Some(k));
                    }
                    assert forall|z: int| 0 <= z < n implies (#[trigger] dist_view(nd@)[z]) == (if dd[z] is Some {
                        dd[z]
                    } else if (exists|y2: int| 0 <= y2 < y && dd[y2] == Some((k - 1) as nat) && #[trigger] g.succs[y2].contains(z as NodeId))
                        || (exists|j2: int| 0 <= j2 < j + 1 && succ@[j2] == z as NodeId) {
                        Some(k as nat)
                    } else {
                        None
                    }) by {
                        let prev = dist_view(before)[z];
                        if z == t as int {
                            assert(succ@[j as int] == z as NodeId);
                        } else {
                            assert(nd@[z] == before[z]);
                            assert(dist_view(nd@)[z] == prev);
                            if exists|j2: int| 0 <= j2 < j + 1 && succ@[j2] == z as NodeId {
                                let j2 = choose|j2: int| 0 <= j2 < j + 1 && succ@[j2] == z as NodeId;
                                assert(j2 != j);
                            }
                        }
                    }
                    j += 1;
                }
                assert forall|z: int| 0 <= z < n implies (#[trigger] dist_view(nd@)[z]) == (if dd[z] is Some {
                    dd[z]
                } else if exists|y2: int| 0 <= y2 < y + 1 && dd[y2] == Some((k - 1) as nat) && #[trigger] g.succs[y2].contains(z as NodeId) {
                    Some(k as nat)
                } else {
                    None
                }) by {
                    if exists|j2: int| 0 <= j2 < succ@.len() && succ@[j2] == z as NodeId {
                        let j2 = choose|j2: int| 0 <= j2 < succ@.len() && succ@[j2] == z as NodeId;
                        assert(g.succs[y as int].contains(z as NodeId));
                    }
                    if g.succs[y as int].contains(z as NodeId) {
                        let j2 = choose|j2: int| 0 <= j2 < succ@.len() && succ@[j2] == z as NodeId;
                    }
                }
            } else {
                assert forall|z: int| 0 <= z < n implies (#[trigger] dist_view(nd@)[z]) == (if dd[z] is Some {
                    dd[z]
                } else if exists|y2: int| 0 <= y2 < y + 1 && dd[y2] == Some((k - 1) as nat) && #[trigger] g.succs[y2].contains(z as NodeId) {
                    Some(k as nat)
                } else {
                    None
                }) by {
                    if exists|y2: int| 0 <= y2 < y + 1 && dd[y2] == Some((k - 1) as nat) && #[trigger] g.succs[y2].contains(z as NodeId) {
                        let y2 = choose|y2: int| 0 <= y2 < y + 1 && dd[y2] == Some((k - 1) as nat) && #[trigger] g.succs[y2].contains(z as NodeId);
                        assert(y2 != y);
                    }
                }
            }
            y += 1;
        }
        assert(dist_view(nd@) =~= distances(g, a, k as nat));
        d = nd;
        k += 1;
    }
    d
}

/// A best candidate as plain values.
pub open spec fn best_view(b: Option<(usize, usize)>) -> Option<(NodeId, nat)> {
    match b {
        Some(p) => Some((p.0, p.1 as nat)),
        None => None,
    }
}

/// Where the paths from `a` and `b` meet (see `merge_point`).
fn merge_exec(cfg: &Cfg, a: NodeId, b: NodeId, stop: Option<NodeId>) -> (r: Option<NodeId>)
    requires
        cfg.wf(),
    ensures
        r == merge_point(cfg_view(*cfg), a, b, stop),
{
    let ghost g = cfg_view(*cfg);
    let n = cfg.successors.len();
    let da = if a < n { distances_exec(cfg, a) } else { Vec::new() };
    let db = if b < n { distances_exec(cfg, b) } else { Vec::new() };
    if let Some(s) = stop {
        let near_a = if a < n { s < n && da[s].is_some() } else { s == a };
        let near_b = if b < n { s < n && db[s].is_some() } else { s == b };
        proof {
            if a < n && s < n {
                assert(dist_view(da@)[s as int] == distances(g, a, merge_depth())[s as int]);
            }
            if b < n && s < n {
                assert(dist_view(db@)[s as int] == distances(g, b, merge_depth())[s as int]);
            }
        }
        if near_a || near_b {
            return stop;
        }
    }
    if a >= n || b >= n {
        return if a == b { Some(a) } else { stop };
    }
    let ghost dva = distances(g, a, merge_depth());
    let ghost dvb = distances(g, b, merge_depth());
    let mut best: Option<(usize, usize)> = None;
    let mut x: usize = 0;
    while x < n
        invariant
            x <= n,
            n == g.succs.len(),
            da@.len() == n,
            db@.len() == n,
            dist_view(da@) == dva,
            dist_view(db@) == dvb,
            best_view(best) == best_common(dva, dvb, x as nat),
        decreases n - x,
    {
        assert(dist_view(da@)[x as int] == dva[x as int]);
        assert(dist_view(db@)[x as int] == dvb[x as int]);
        match (da[x], db[x]) {
            (Some(u), Some(v)) => {
                let m = if u >= v { u } else { v };
                match best {
                    Some(p) => {
                        if m < p.1 {
                            best = Some((x, m));
                        }
                    },
                    None => {
                        best = Some((x, m));
                    },
                }
            },
            _ => {},
        }
        x += 1;
    }
    match best {
        Some(p) => Some(p.0),
        None => stop,
    }
}

/// A loop body as plain values.
pub open spec fn lb_view(lb: Option<&Vec<NodeId>>) -> Option<Seq<NodeId>> {
    match lb {
        Some(v) => Some(v@),
        None => None,
    }
}

proof fn lemma_unemitted_mono(a: Seq<NodeId>, b: Seq<NodeId>, k: nat)
    requires
        forall|x: NodeId| a.contains(x) ==> #[trigger] b.contains(x),
    ensures
        unemitted(b, k) <= unemitted(a, k),
    decreases k,
{
    if k > 0 {
        lemma_unemitted_mono(a, b, (k - 1) as nat);
    }
}

proof fn lemma_unemitted_push(em: Seq<NodeId>, c: NodeId, k: nat)
    requires
        c < k,
        k <= usize::MAX,
        !em.contains(c),
    ensures
        unemitted(em.push(c), k) < unemitted(em, k),
        forall|x: NodeId| em.contains(x) ==> #[trigger] em.push(c).contains(x),
    decreases k,
{
    assert forall|x: NodeId| em.contains(x) implies #[trigger] em.push(c).contains(x) by {
        let j = choose|j: int| 0 <= j < em.len() && em[j] == x;
        assert(em.push(c)[j] == x);
    }
    assert(em.push(c)[em.len() as int] == c);
    if c + 1 < k {
        lemma_unemitted_push(em, c, (k - 1) as nat);
        assert(em.push(c).contains((k - 1) as NodeId) == em.contains((k - 1) as NodeId)) by {
            if em.push(c).contains((k - 1) as NodeId) {
                let j = choose|j: int| 0 <= j < em.len() + 1 && em.push(c)[j] == (k - 1) as NodeId;
                assert(j < em.len());
                assert(em[j] == (k - 1) as NodeId);
            }
        }
    } else {
        lemma_unemitted_mono(em, em.push(c), (k - 1) as nat);
    }
}

/// Whether `t` lies outside the loop body being emitted.
fn leaves_exec(lb: Option<&Vec<NodeId>>, t: NodeId) -> (r: bool)
    ensures
        r == leaves(lb_view(lb), t),
{
    match lb {
        Some(b) => !contains_id(b, t),
        None => false,
    }
}

fn append_stmts(result: &mut Vec<Stmt>, more: Vec<Stmt>)
    ensures
        stmts_view(final(result)@) == stmts_view(old(result)@) + stmts_view(more@),
{
    let mut more = more;
    proof {
        lemma_stmts_view_append(result@, more@);
    }
    result.append(&mut more);
}

fn push_stmt(result: &mut Vec<Stmt>, s: Stmt)
    ensures
        stmts_view(final(result)@) == stmts_view(old(result)@).push(s@),
{
    proof {
        lemma_stmts_view_push(result@, s);
    }
    result.push(s);
}

fn if_else_exec(c: Expr, t: Vec<Stmt>, e: Vec<Stmt>) -> (r: Stmt)
    ensures
        r@ == if_else(c@, stmts_view(t@), stmts_view(e@)),
{
    proof {
        lemma_stmts_view(e@);
    }
    let else_block = if e.len() == 0 { None } else { Some(Block::with_stmts(e)) };
    Stmt::If { cond: c, then_block: Block::with_stmts(t), else_block }
}

fn break_only() -> (r: Vec<Stmt>)
    ensures
        stmts_view(r@) == seq![brk()],
{
    let mut r: Vec<Stmt> = Vec::new();
    push_stmt(&mut r, Stmt::Br { label: u32::MAX, is_loop: false });
    r
}

fn dup_opt(v: &Option<Expr>) -> (r: Option<Expr>)
    ensures
        match v {
            Some(e) => r matches Some(x) && x@ == e@,
            None => r is None,
        },
{
    match v {
        Some(e) => Some(e.duplicate()),
        None => None,
    }
}

/// Emit from `start` until the run stops (see `emit_run`).
fn run_exec(
    cfg: &Cfg,
    ls: &Vec<NaturalLoop>,
    start: NodeId,
    stop: Option<NodeId>,
    lb: Option<&Vec<NodeId>>,
    em: &mut Vec<NodeId>,
    Ghost(fuel): Ghost<nat>,
) -> (r: Vec<Stmt>)
    requires
        cfg.wf(),
        forall|i: int| 0 <= i < ls@.len() ==> (#[trigger] ls@[i]).header < cfg.nodes@.len(),
        fuel > unemitted(old(em)@, cfg.nodes@.len()),
    ensures
        (stmts_view(r@), final(em)@) == emit_run(
            cfg_view(*cfg),
            loops_view(ls@),
            start,
            stop,
            lb_view(lb),
            start,
            old(em)@,
            fuel,
        ),
        forall|x: NodeId| old(em)@.contains(x) ==> #[trigger] final(em)@.contains(x),
    decreases fuel, 0nat,
{
    let ghost g = cfg_view(*cfg);
    let ghost lv = loops_view(ls@);
    let ghost lbv = lb_view(lb);
    let ghost em0 = em@;
    let ghost total = emit_run(g, lv, start, stop, lbv, start, em0, fuel);
    let ghost n = cfg.nodes@.len();
    let mut result: Vec<Stmt> = Vec::new();
    let mut cur = start;
    let ghost mut f: nat = fuel;
    assert(total.0 =~= stmts_view(result@) + total.0);
    loop
        invariant_except_break
            f > unemitted(em@, n),
            total.0 == stmts_view(result@) + emit_run(g, lv, start, stop, lbv, cur, em@, f).0,
            total.1 == emit_run(g, lv, start, stop, lbv, cur, em@, f).1,
        invariant
            cfg.wf(),
            g == cfg_view(*cfg),
            lv == loops_view(ls@),
            lbv == lb_view(lb),
            n == cfg.nodes@.len(),
            n == g.nodes.len(),
            forall|i: int| 0 <= i < ls@.len() ==> (#[trigger] ls@[i]).header < n,
            f <= fuel,
            forall|x: NodeId| em0.contains(x) ==> #[trigger] em@.contains(x),
        ensures
            total.0 == stmts_view(result@),
            total.1 == em@,
        decreases f,
    {
        let ghost rv = stmts_view(result@);
        let ghost emb = em@;
        let ghost here = emit_run(g, lv, start, stop, lbv, cur, emb, f);
        if stop == Some(cur) && cur != start {
            assert(total.0 =~= stmts_view(result@));
            break;
        }
        if contains_id(em, cur) || leaves_exec(lb, cur) {
            assert(total.0 =~= stmts_view(result@));
            break;
        }
        if is_header_exec(ls, cur) {
            proof {
                let i = choose|i: int| 0 <= i < lv.len() && (#[trigger] lv[i]).header == cur;
                assert(ls@[i].header == cur);
                lemma_unemitted_push(emb, cur, n);
            }
            let l = loop_exec(cfg, ls, cur, em, Ghost((f - 1) as nat));
            append_stmts(&mut result, l);
            let ghost eml = em@;
            match loop_exit_exec(cfg, ls, cur) {
                Some(x) => {
                    if !contains_id(em, x) && stop != Some(x) {
                        proof {
                            let rest = emit_run(g, lv, start, stop, lbv, x, eml, (f - 1) as nat);
                            assert(here.0 == emit_loop(g, lv, cur, emb, (f - 1) as nat).0 + rest.0);
                            assert(total.0 =~= stmts_view(result@) + rest.0);
                            assert forall|y: NodeId| emb.push(cur).contains(y) implies #[trigger] eml.contains(y) by {
                                let j = choose|j: int| 0 <= j < emb.len() + 1 && emb.push(cur)[j] == y;
                                if j < emb.len() {
                                    assert(emb[j] == y);
                                }
                            }
                            lemma_unemitted_mono(emb.push(cur), eml, n);
                            f = (f - 1) as nat;
                        }
                        cur = x;
                        continue;
                    }
                },
                None => {},
            }
            assert(total.0 =~= stmts_view(result@));
            break;
        }
        proof {
            if cur < n {
                lemma_unemitted_push(em@, cur, n);
            } else {
                assert forall|x: NodeId| em@.contains(x) implies #[trigger] em@.push(cur).contains(x) by {
                    let j = choose|j: int| 0 <= j < em@.len() && em@[j] == x;
                    assert(em@.push(cur)[j] == x);
                }
                lemma_unemitted_mono(em@, em@.push(cur), n);
            }
        }
        em.push(cur);
        if cur >= cfg.nodes.len() {
            assert(total.0 =~= stmts_view(result@));
            break;
        }
        let ghost em1 = em@;
        let node = &cfg.nodes[cur];
        assert(g.nodes[cur as int] == node_view(*node));
        let pre = duplicate_stmts(&node.stmts);
        append_stmts(&mut result, pre);
        let ghost rp = stmts_view(result@);
        let ghost fm: nat = (f - 1) as nat;
        match &node.terminator {
            Terminator::Fallthrough(nx) => {
                if is_back_exec(ls, cur, *nx) || leaves_exec(lb, *nx) {
                    assert(total.0 =~= stmts_view(result@));
                    break;
                }
                proof {
                    assert(total.0 =~= stmts_view(result@) + emit_run(g, lv, start, stop, lbv, *nx, em1, fm).0);
                    f = fm;
                }
                cur = *nx;
            },
            Terminator::Goto(nx) => {
                if is_back_exec(ls, cur, *nx) || leaves_exec(lb, *nx) {
                    assert(total.0 =~= stmts_view(result@));
                    break;
                }
                proof {
                    assert(total.0 =~= stmts_view(result@) + emit_run(g, lv, start, stop, lbv, *nx, em1, fm).0);
                    f = fm;
                }
                cur = *nx;
            },
            Terminator::Branch { cond, then_target, else_target } => {
                let te = leaves_exec(lb, *then_target);
                let ee = leaves_exec(lb, *else_target);
                if te && !ee {
                    push_stmt(&mut result, if_else_exec(cond.duplicate(), break_only(), Vec::new()));
                    if !contains_id(em, *else_target) {
                        proof {
                            assert(total.0 =~= stmts_view(result@) + emit_run(g, lv, start, stop, lbv, *else_target, em1, fm).0);
                            f = fm;
                        }
                        cur = *else_target;
                        continue;
                    }
                    assert(total.0 =~= stmts_view(result@));
                    break;
                } else if !te && ee {
                    push_stmt(&mut result, if_else_exec(negate_condition(cond.duplicate()), break_only(), Vec::new()));
                    if !contains_id(em, *then_target) {
                        proof {
                            assert(total.0 =~= stmts_view(result@) + emit_run(g, lv, start, stop, lbv, *then_target, em1, fm).0);
                            f = fm;
                        }
                        cur = *then_target;
                        continue;
                    }
                    assert(total.0 =~= stmts_view(result@));
                    break;
                } else {
                    let merge = merge_exec(cfg, *then_target, *else_target, stop);
                    let t = run_exec(cfg, ls, *then_target, stop, lb, em, Ghost(fm));
                    let ghost em2 = em@;
                    proof {
                        lemma_unemitted_mono(em1, em2, n);
                    }
                    let e = run_exec(cfg, ls, *else_target, stop, lb, em, Ghost(fm));
                    let ghost em3 = em@;
                    push_stmt(&mut result, if_else_exec(cond.duplicate(), t, e));
                    match merge {
                        Some(m) => {
                            if !contains_id(em, m) && stop != Some(m) && !leaves_exec(lb, m) {
                                proof {
                                    lemma_unemitted_mono(em2, em3, n);
                                    assert(total.0 =~= stmts_view(result@) + emit_run(g, lv, start, stop, lbv, m, em3, fm).0);
                                    f = fm;
                                }
                                cur = m;
                                continue;
                            }
                        },
                        None => {},
                    }
                    assert(total.0 =~= stmts_view(result@));
                    break;
                }
            },
            Terminator::Switch { index, targets, default } => {
                let cs = cases_exec(cfg, ls, stop, lb, index, targets, em, Ghost(fm));
                append_stmts(&mut result, cs);
                let ghost em2 = em@;
                if !contains_id(em, *default) {
                    proof {
                        lemma_unemitted_mono(em1, em2, n);
                    }
                    let d = run_exec(cfg, ls, *default, stop, lb, em, Ghost(fm));
                    append_stmts(&mut result, d);
                }
                assert(total.0 =~= stmts_view(result@));
                break;
            },
            Terminator::Return(v) => {
                push_stmt(&mut result, Stmt::Return(dup_opt(v)));
                assert(total.0 =~= stmts_view(result@));
                break;
            },
            Terminator::Unreachable => {
                assert(total.0 =~= stmts_view(result@));
                break;
            },
        }
    }
    result
}

/// The `if` chain of a switch's targets (see `emit_cases`).
fn cases_exec(
    cfg: &Cfg,
    ls: &Vec<NaturalLoop>,
    stop: Option<NodeId>,
    lb: Option<&Vec<NodeId>>,
    index: &Expr,
    targets: &Vec<NodeId>,
    em: &mut Vec<NodeId>,
    Ghost(fuel): Ghost<nat>,
) -> (r: Vec<Stmt>)
    requires
        cfg.wf(),
        forall|i: int| 0 <= i < ls@.len() ==> (#[trigger] ls@[i]).header < cfg.nodes@.len(),
        fuel > unemitted(old(em)@, cfg.nodes@.len()),
    ensures
        (stmts_view(r@), final(em)@) == emit_cases(
            cfg_view(*cfg),
            loops_view(ls@),
            stop,
            lb_view(lb),
            index@,
            targets@,
            0,
            old(em)@,
            fuel,
        ),
        forall|x: NodeId| old(em)@.contains(x) ==> #[trigger] final(em)@.contains(x),
    decreases fuel, targets@.len() + 1,
{
    let ghost g = cfg_view(*cfg);
    let ghost lv = loops_view(ls@);
    let ghost lbv = lb_view(lb);
    let ghost em0 = em@;
    let ghost n = cfg.nodes@.len();
    let ghost total = emit_cases(g, lv, stop, lbv, index@, targets@, 0, em0, fuel);
    let mut result: Vec<Stmt> = Vec::new();
    let mut i: usize = 0;
    assert(total.0 =~= stmts_view(result@) + total.0);
    while i < targets.len()
        invariant
            i <= targets@.len(),
            cfg.wf(),
            g == cfg_view(*cfg),
            lv == loops_view(ls@),
            lbv == lb_view(lb),
            n == cfg.nodes@.len(),
            forall|i: int| 0 <= i < ls@.len() ==> (#[trigger] ls@[i]).header < n,
            fuel > unemitted(em@, n),
            total.0 == stmts_view(result@) + emit_cases(g, lv, stop, lbv, index@, targets@, i as nat, em@, fuel).0,
            total.1 == emit_cases(g, lv, stop, lbv, index@, targets@, i as nat, em@, fuel).1,
            forall|x: NodeId| em0.contains(x) ==> #[trigger] em@.contains(x),
        decreases targets@.len() - i,
    {
        let t = targets[i];
        if !contains_id(em, t) {
            let ghost emb = em@;
            let c = run_exec(cfg, ls, t, stop, lb, em, Ghost(fuel));
            proof {
                lemma_unemitted_mono(emb, em@, n);
            }
            let pos: i32 = #[verifier::truncate] (i as i32);
            let lhs = index.duplicate();
            let rhs = Expr::i32_const(pos);
            assert(rhs@ == ExprV { kind: ExprKindV::I32Const(pos), ty: InferredType::I32 });
            let test = Expr::new(ExprKind::Compare(CmpOp::Eq, Box::new(lhs), Box::new(rhs), InferredType::I32));
            assert(test@.ty == InferredType::Unknown);
            assert(test@.kind == ExprKindV::Compare(CmpOp::Eq, Box::new(lhs@), Box::new(rhs@), InferredType::I32));
            assert(pos == (i as int) as i32);
            assert(test@ == case_test(index@, i as int));
            let ghost cv = stmts_view(c@);
            let none: Vec<Stmt> = Vec::new();
            assert(stmts_view(none@) =~= Seq::<StmtV>::empty()) by {
                lemma_stmts_view(none@);
            }
            let st = if_else_exec(test, c, none);
            assert(st@ == if_else(case_test(index@, i as int), cv, Seq::empty()));
            let ghost rb = stmts_view(result@);
            push_stmt(&mut result, st);
            proof {
                let c_spec = emit_run(g, lv, t, stop, lbv, t, emb, fuel);
                assert(cv == c_spec.0);
                let rest = emit_cases(g, lv, stop, lbv, index@, targets@, (i + 1) as nat, em@, fuel);
                assert(emit_cases(g, lv, stop, lbv, index@, targets@, i as nat, emb, fuel).0
                    == seq![if_else(case_test(index@, i as int), cv, Seq::empty())] + rest.0);
                assert(total.0 =~= stmts_view(result@) + rest.0);
            }
        }
        i += 1;
    }
    proof {
        assert(total.0 =~= stmts_view(result@));
    }
    result
}

/// The statements for the loop headed by `h` (see `emit_loop`).
fn loop_exec(cfg: &Cfg, ls: &Vec<NaturalLoop>, h: NodeId, em: &mut Vec<NodeId>, Ghost(fuel): Ghost<nat>) -> (r: Vec<Stmt>)
    requires
        cfg.wf(),
        forall|i: int| 0 <= i < ls@.len() ==> (#[trigger] ls@[i]).header < cfg.nodes@.len(),
        fuel >= unemitted(old(em)@, cfg.nodes@.len()),
        !old(em)@.contains(h),
    ensures
        (stmts_view(r@), final(em)@) == emit_loop(cfg_view(*cfg), loops_view(ls@), h, old(em)@, fuel),
        forall|x: NodeId| old(em)@.contains(x) ==> #[trigger] final(em)@.contains(x),
        final(em)@.contains(h),
    decreases fuel, 2nat,
{
    let ghost g = cfg_view(*cfg);
    let ghost lv = loops_view(ls@);
    let ghost em0 = em@;
    let ghost n = cfg.nodes@.len();
    proof {
        if h < n {
            lemma_unemitted_push(em@, h, n);
        } else {
            assert forall|x: NodeId| em@.contains(x) implies #[trigger] em@.push(h).contains(x) by {
                let j = choose|j: int| 0 <= j < em@.len() && em@[j] == x;
                assert(em@.push(h)[j] == x);
            }
            lemma_unemitted_mono(em@, em@.push(h), n);
        }
    }
    em.push(h);
    let ghost em1 = em@;
    assert(em1[em1.len() - 1] == h);
    assert(em1.contains(h));
    if h >= cfg.nodes.len() {
        return Vec::new();
    }
    let node = &cfg.nodes[h];
    assert(g.nodes[h as int] == node_view(*node));
    let hs = duplicate_stmts(&node.stmts);
    let lb = body_of_exec(ls, h);
    match &node.terminator {
        Terminator::Branch { cond, then_target, else_target } => {
            let in_t = contains_id(&lb, *then_target);
            let in_e = contains_id(&lb, *else_target);
            if *then_target == h && in_e && *else_target != h {
                let b = run_exec(cfg, ls, *else_target, Some(h), Some(&lb), em, Ghost(fuel));
                let mut r: Vec<Stmt> = Vec::new();
                push_stmt(&mut r, test_first_exec(hs, negate_condition(cond.duplicate()), b));
                r
            } else if *else_target == h && in_t && *then_target != h {
                let b = run_exec(cfg, ls, *then_target, Some(h), Some(&lb), em, Ghost(fuel));
                let mut r: Vec<Stmt> = Vec::new();
                push_stmt(&mut r, test_first_exec(hs, cond.duplicate(), b));
                r
            } else if !in_t && in_e {
                let b = run_exec(cfg, ls, *else_target, Some(h), Some(&lb), em, Ghost(fuel));
                let mut body = hs;
                append_stmts(&mut body, b);
                let mut r: Vec<Stmt> = Vec::new();
                push_stmt(&mut r, Stmt::DoWhile { body: Block::with_stmts(body), cond: negate_condition(cond.duplicate()) });
                r
            } else if in_t && !in_e {
                let b = run_exec(cfg, ls, *then_target, Some(h), Some(&lb), em, Ghost(fuel));
                let mut body = hs;
                append_stmts(&mut body, b);
                let mut r: Vec<Stmt> = Vec::new();
                push_stmt(&mut r, Stmt::DoWhile { body: Block::with_stmts(body), cond: cond.duplicate() });
                r
            } else if in_t && in_e {
                let mut body = hs;
                if !contains_id(em, *then_target) {
                    let b = run_exec(cfg, ls, *then_target, Some(h), Some(&lb), em, Ghost(fuel));
                    append_stmts(&mut body, b);
                }
                let mut r: Vec<Stmt> = Vec::new();
                push_stmt(&mut r, forever_exec(body));
                r
            } else {
                let t = run_exec(cfg, ls, *then_target, None, None, em, Ghost(fuel));
                proof {
                    lemma_unemitted_mono(em1, em@, n);
                }
                let e = run_exec(cfg, ls, *else_target, None, None, em, Ghost(fuel));
                let mut r: Vec<Stmt> = Vec::new();
                push_stmt(&mut r, if_else_exec(cond.duplicate(), t, e));
                r
            }
        },
        Terminator::Fallthrough(nx) => {
            if contains_id(&lb, *nx) {
                let b = run_exec(cfg, ls, *nx, Some(h), Some(&lb), em, Ghost(fuel));
                let mut body = hs;
                append_stmts(&mut body, b);
                let mut r: Vec<Stmt> = Vec::new();
                push_stmt(&mut r, forever_exec(body));
                r
            } else {
                hs
            }
        },
        Terminator::Goto(nx) => {
            if contains_id(&lb, *nx) {
                let b = run_exec(cfg, ls, *nx, Some(h), Some(&lb), em, Ghost(fuel));
                let mut body = hs;
                append_stmts(&mut body, b);
                let mut r: Vec<Stmt> = Vec::new();
                push_stmt(&mut r, forever_exec(body));
                r
            } else {
                hs
            }
        },
        _ => hs,
    }
}

fn forever_exec(body: Vec<Stmt>) -> (r: Stmt)
    ensures
        r@ == forever(stmts_view(body@)),
{
    Stmt::While { cond: Expr::i32_const(1), body: Block::with_stmts(body) }
}

fn test_first_exec(hs: Vec<Stmt>, c: Expr, body: Vec<Stmt>) -> (r: Stmt)
    ensures
        r@ == test_first(stmts_view(hs@), c@, stmts_view(body@)),
{
    proof {
        lemma_stmts_view(hs@);
        lemma_stmts_view(body@);
    }
    if hs.len() == 0 {
        Stmt::While { cond: c, body: Block::with_stmts(body) }
    } else {
        let mut s = hs;
        if body.len() > 0 {
            push_stmt(&mut s, if_else_exec(c, body, Vec::new()));
        }
        forever_exec(s)
    }
}

proof fn lemma_unemitted_none(k: nat)
    ensures
        unemitted(Seq::empty(), k) == k,
    decreases k,
{
    if k > 0 {
        lemma_unemitted_none((k - 1) as nat);
    }
}

/// Structured code for `body`, from its graph `cfg` and the loops `info` of
/// that graph (see `spec_emit_structured`).
pub fn emit_with_loops(body: &Block, cfg: &Cfg, info: &LoopInfo) -> (r: Block)
    requires
        cfg.wf(),
        forall|i: int| 0 <= i < info.loops@.len() ==> (#[trigger] info.loops@[i]).header < cfg.nodes@.len(),
    ensures
        r@ == spec_emit_structured(body@, cfg_view(*cfg), cfg.entry, loops_view(info.loops@)),
{
    let ghost g = cfg_view(*cfg);
    if cfg.is_empty() {
        return body.duplicate();
    }
    let mut em: Vec<NodeId> = Vec::new();
    proof {
        lemma_unemitted_none(cfg.nodes@.len());
        assert(em@ =~= Seq::<NodeId>::empty());
    }
    let mut stmts = run_exec(cfg, &info.loops, cfg.entry, None, None, &mut em, Ghost((cfg.nodes@.len() + 1) as nat));
    let ghost s = stmts_view(stmts@);
    proof {
        lemma_stmts_view(stmts@);
    }
    let ends_with_return = stmts.len() > 0 && match &stmts[stmts.len() - 1] {
        Stmt::Return(_) => true,
        _ => false,
    };
    if !ends_with_return {
        assert(!(s.len() > 0 && s.last() is Return)) by {
            if s.len() > 0 {
                assert(s.last() == stmts_view(stmts@)[stmts@.len() - 1]);
            }
        }
        let n = cfg.nodes.len();
        let mut k: usize = 0;
        while k < n
            invariant
                k <= n,
                n == cfg.nodes@.len(),
                g == cfg_view(*cfg),
                first_return(g, 0) == first_return(g, k as nat),
                stmts_view(stmts@) == s,
                !(s.len() > 0 && s.last() is Return),
                s == emit_run(g, loops_view(info.loops@), cfg.entry, None, None, cfg.entry, Seq::empty(), g.nodes.len() + 1).0,
            decreases n - k,
        {
            assert(g.nodes[k as int] == node_view(cfg.nodes@[k as int]));
            if let Terminator::Return(val) = &cfg.nodes[k].terminator {
                let more = duplicate_stmts(&cfg.nodes[k].stmts);
                append_stmts(&mut stmts, more);
                let ret = Stmt::Return(dup_opt(val));
                assert(ret@ == StmtV::Return(g.nodes[k as int].terminator->Return_0));
                push_stmt(&mut stmts, ret);
                assert(first_return(g, k as nat) == Some(k));
                let r = Block::with_stmts(stmts);
                assert(r@.stmts == (s + g.nodes[k as int].stmts).push(StmtV::Return(g.nodes[k as int].terminator->Return_0)));
                return r;
            }
            k += 1;
        }
    }
    Block::with_stmts(stmts)
}

/// The loops of the graph of `b`, as the loop analysis gives them (any two
/// such analyses agree: see `lemma_loops_determined`).
pub open spec fn graph_loops(b: BlockV) -> Seq<LoopV> {
    let (cfg, dom, info) = choose|cfg: Cfg, dom: DominatorInfo, info: LoopInfo|
        cfg.wf() && cfg_view(cfg) == spec_build_cfg(b) && cfg.entry == 0 && #[trigger] loops_of(&cfg, &dom, &info);
    loops_view(info.loops@)
}

/// The structured code for the body `b`: what `spec_emit_structured` gives
/// for the graph of `b` and its loops.
pub open spec fn structured(b: BlockV) -> BlockV {
    spec_emit_structured(b, spec_build_cfg(b), 0, graph_loops(b))
}

/// Emit structured code from a function body using its control-flow graph
/// and loops.
pub fn emit_structured(body: &Block) -> (r: Block)
    requires
        3 * stmts_size(body@.stmts) + 3 < usize::MAX,
    ensures
        r@ == structured(body@),
{
    let cfg = build_cfg(body);
    let dom = compute_dominators(&cfg);
    let info = analyze_loops(&cfg, &dom);
    proof {
        assert forall|i: int| 0 <= i < info.loops@.len() implies (#[trigger] info.loops@[i]).header < cfg.nodes@.len() by {
            if cfg.nodes@.len() > 0 {
                assert(is_natural_loop_of(&cfg, info.edge_kinds@, info.loops@[i]));
            }
        }
    }
    let r = emit_with_loops(body, &cfg, &info);
    proof {
        let b = body@;
        assert(loops_of(&cfg, &dom, &info));
        let lv = graph_loops(b);
        assert(exists|c: Cfg, d: DominatorInfo, i: LoopInfo|
            c.wf() && cfg_view(c) == spec_build_cfg(b) && c.entry == 0 && #[trigger] loops_of(&c, &d, &i));
        let (c2, d2, i2) = choose|c: Cfg, d: DominatorInfo, i: LoopInfo|
            c.wf() && cfg_view(c) == spec_build_cfg(b) && c.entry == 0 && #[trigger] loops_of(&c, &d, &i);
        assert(lv == loops_view(i2.loops@));
        if cfg.nodes@.len() > 0 {
            assert(cfg_view(c2) == cfg_view(cfg));
            assert(c2.nodes@.len() == cfg.nodes@.len()) by {
                assert(cfg_view(c2).nodes.len() == cfg_view(cfg).nodes.len());
            }
            assert(c2.successors@.len() == cfg.successors@.len()) by {
                assert(cfg_view(c2).succs.len() == cfg_view(cfg).succs.len());
            }
            assert forall|u: int| 0 <= u < cfg.successors@.len() implies #[trigger] cfg.successors@[u]@ == c2.successors@[u]@ by {
                assert(cfg_view(cfg).succs[u] == cfg.successors@[u]@);
                assert(cfg_view(c2).succs[u] == c2.successors@[u]@);
            }
            assert(same_graph(&cfg, &c2));
            lemma_loops_determined(&cfg, &dom, &info, &c2, &d2, &i2);
            assert(loops_view(info.loops@) =~= lv);
        }
    }
    r
}

/// The size of a statement, or `cap` where it is larger.
fn stmt_size_upto(st: &Stmt, cap: usize) -> (r: usize)
    ensures
        r == (if stmt_size(st@) < cap { stmt_size(st@) } else { cap as nat }),
    decreases st, 1nat,
{
    match st {
        Stmt::If { then_block, else_block, .. } => {
            let a = stmts_size_upto(&then_block.stmts, cap);
            let b = match else_block {
                Some(e) => stmts_size_upto(&e.stmts, cap),
                None => 0,
            };
            if a >= cap || b >= cap || cap - a <= b || cap - a - b <= 1 { cap } else { 1 + a + b }
        },
        Stmt::Block { body, .. } => add_one_upto(stmts_size_upto(&body.stmts, cap), cap),
        Stmt::Loop { body, .. } => add_one_upto(stmts_size_upto(&body.stmts, cap), cap),
        Stmt::While { body, .. } => add_one_upto(stmts_size_upto(&body.stmts, cap), cap),
        Stmt::DoWhile { body, .. } => add_one_upto(stmts_size_upto(&body.stmts, cap), cap),
        _ => if cap <= 1 { cap } else { 1 },
    }
}

fn add_one_upto(a: usize, cap: usize) -> (r: usize)
    requires
        a <= cap,
    ensures
        r == (if a + 1 < cap { a + 1 } else { cap as int }),
{
    if cap - a <= 1 { cap } else { a + 1 }
}

/// The size of a list of statements, or `cap` where it is larger.
fn stmts_size_upto(ss: &Vec<Stmt>, cap: usize) -> (r: usize)
    ensures
        r == (if stmts_size(stmts_view(ss@)) < cap { stmts_size(stmts_view(ss@)) } else { cap as nat }),
    decreases ss, 0nat,
{
    let mut total: usize = 0;
    let mut i: usize = 0;
    proof {
        assert(stmts_view(ss@.subrange(0, 0)) =~= Seq::<StmtV>::empty()) by {
            lemma_stmts_view(ss@.subrange(0, 0));
        }
    }
    while i < ss.len()
        invariant
            i <= ss@.len(),
            total == (if stmts_size(stmts_view(ss@.subrange(0, i as int))) < cap {
                stmts_size(stmts_view(ss@.subrange(0, i as int)))
            } else {
                cap as nat
            }),
        decreases ss@.len() - i,
    {
        assert(decreases_to!(ss => ss@[i as int]));
        let x = stmt_size_upto(&ss[i], cap);
        proof {
            lemma_stmts_view_push(ss@.subrange(0, i as int), ss@[i as int]);
            assert(ss@.subrange(0, i as int).push(ss@[i as int]) =~= ss@.subrange(0, i + 1));
            let v = stmts_view(ss@.subrange(0, i + 1));
            assert(v.drop_last() =~= stmts_view(ss@.subrange(0, i as int)));
        }
        if total >= cap || x >= cap || cap - total <= x {
            total = cap;
        } else {
            total = total + x;
        }
        i += 1;
    }
    assert(ss@.subrange(0, i as int) =~= ss@);
    total
}

/// Whether `body` is small enough for the node IDs of its control-flow graph
/// (`emit_structured` asks this of its argument).
pub fn body_fits(body: &Block) -> (r: bool)
    ensures
        r == (3 * stmts_size(body@.stmts) + 3 < usize::MAX),
{
    let cap: usize = usize::MAX / 3;
    let m = stmts_size_upto(&body.stmts, cap);
    if m >= cap {
        false
    } else {
        3 * m + 3 < usize::MAX
    }
}

} // verus!
