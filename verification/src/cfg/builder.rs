//! Construction of a control flow graph from structured IR.
//!
//! Each `if`, `block`, `loop`, `while` and `do-while` opens nodes of its own;
//! branches jump to the node that their label names; straight-line statements
//! are appended to the current node.
use vstd::prelude::*;
use crate::ir::{
    Block, BlockV, BranchTarget, ExprV, Stmt, StmtV, block_view, lemma_stmts_view, stmts_view,
};
use super::{Cfg, CfgNode, NodeId, Terminator};
use crate::ir::{Expr, lemma_stmts_view_push};

verus! {

/// Value of a terminator.
pub enum TerminatorV {
    Fallthrough(NodeId),
    Goto(NodeId),
    Branch { cond: ExprV, then_target: NodeId, else_target: NodeId },
    Switch { index: ExprV, targets: Seq<NodeId>, default: NodeId },
    Return(Option<ExprV>),
    Unreachable,
}

/// The value of a terminator.
pub open spec fn terminator_view(t: Terminator) -> TerminatorV {
    match t {
        Terminator::Fallthrough(n) => TerminatorV::Fallthrough(n),
        Terminator::Goto(n) => TerminatorV::Goto(n),
        Terminator::Branch { cond, then_target, else_target } => TerminatorV::Branch {
            cond: cond@,
            then_target,
            else_target,
        },
        Terminator::Switch { index, targets, default } => TerminatorV::Switch {
            index: index@,
            targets: targets@,
            default,
        },
        Terminator::Return(v) => TerminatorV::Return(
            match v {
                Some(e) => Some(e@),
                None => None,
            },
        ),
        Terminator::Unreachable => TerminatorV::Unreachable,
    }
}

/// The nodes a terminator may pass control to.
pub open spec fn terminator_targets(t: TerminatorV) -> Seq<NodeId> {
    match t {
        TerminatorV::Fallthrough(n) => seq![n],
        TerminatorV::Goto(n) => seq![n],
        TerminatorV::Branch { then_target, else_target, .. } => seq![then_target, else_target],
        TerminatorV::Switch { targets, default, .. } => targets.push(default),
        TerminatorV::Return(_) => Seq::empty(),
        TerminatorV::Unreachable => Seq::empty(),
    }
}

/// Value of a CFG node.
pub struct NodeV {
    pub id: NodeId,
    pub stmts: Seq<StmtV>,
    pub terminator: TerminatorV,
    pub idom: Option<NodeId>,
    pub label: Option<u32>,
}

/// The value of a CFG node.
pub open spec fn node_view(n: CfgNode) -> NodeV {
    NodeV {
        id: n.id,
        stmts: stmts_view(n.stmts@),
        terminator: terminator_view(n.terminator),
        idom: n.idom,
        label: n.label,
    }
}

/// Value of a graph: its nodes and, for each node, its successors in the
/// order the edges were added.
#[verifier::ext_equal]
pub struct GraphV {
    pub nodes: Seq<NodeV>,
    pub succs: Seq<Seq<NodeId>>,
}

/// The value of a graph.
pub open spec fn cfg_view(cfg: Cfg) -> GraphV {
    GraphV {
        nodes: Seq::new(cfg.nodes@.len(), |i: int| node_view(cfg.nodes@[i])),
        succs: Seq::new(cfg.successors@.len(), |i: int| cfg.successors@[i]@),
    }
}

/// A fresh node with the given ID: no statements, no terminator yet.
pub open spec fn fresh_node(id: NodeId) -> NodeV {
    NodeV { id, stmts: Seq::empty(), terminator: TerminatorV::Unreachable, idom: None, label: None }
}

/// Add a fresh node, whose ID is its position.
pub open spec fn g_add_node(g: GraphV) -> GraphV {
    GraphV { nodes: g.nodes.push(fresh_node(g.nodes.len() as NodeId)), succs: g.succs.push(Seq::empty()) }
}

/// Add an edge from `u` to `v`.
pub open spec fn g_add_edge(g: GraphV, u: NodeId, v: NodeId) -> GraphV {
    if u < g.succs.len() {
        GraphV { nodes: g.nodes, succs: g.succs.update(u as int, g.succs[u as int].push(v)) }
    } else {
        g
    }
}

/// Add edges from `u` to each of `vs`, in order.
pub open spec fn g_add_edges(g: GraphV, u: NodeId, vs: Seq<NodeId>) -> GraphV {
    if u < g.succs.len() {
        GraphV { nodes: g.nodes, succs: g.succs.update(u as int, g.succs[u as int] + vs) }
    } else {
        g
    }
}

/// Replace the terminator of node `u`.
pub open spec fn g_set_term(g: GraphV, u: NodeId, t: TerminatorV) -> GraphV {
    if u < g.nodes.len() {
        let n = g.nodes[u as int];
        GraphV {
            nodes: g.nodes.update(u as int, NodeV { id: n.id, stmts: n.stmts, terminator: t, idom: n.idom, label: n.label }),
            succs: g.succs,
        }
    } else {
        g
    }
}

/// Append a statement to node `u`.
pub open spec fn g_push_stmt(g: GraphV, u: NodeId, s: StmtV) -> GraphV {
    if u < g.nodes.len() {
        let n = g.nodes[u as int];
        GraphV {
            nodes: g.nodes.update(u as int, NodeV { id: n.id, stmts: n.stmts.push(s), terminator: n.terminator, idom: n.idom, label: n.label }),
            succs: g.succs,
        }
    } else {
        g
    }
}

/// Record the label of node `u`.
pub open spec fn g_set_label(g: GraphV, u: NodeId, l: u32) -> GraphV {
    if u < g.nodes.len() {
        let n = g.nodes[u as int];
        GraphV {
            nodes: g.nodes.update(u as int, NodeV { id: n.id, stmts: n.stmts, terminator: n.terminator, idom: n.idom, label: Some(l) }),
            succs: g.succs,
        }
    } else {
        g
    }
}

/// Node `u` has no terminator yet.
pub open spec fn g_open(g: GraphV, u: NodeId) -> bool {
    u < g.nodes.len() && g.nodes[u as int].terminator is Unreachable
}

/// Fall through from `from` to `to`: the terminator is set if there is none yet,
/// and the edge is added in any case.
pub open spec fn g_fallthrough(g: GraphV, from: NodeId, to: NodeId) -> GraphV {
    let g1 = if g_open(g, from) { g_set_term(g, from, TerminatorV::Fallthrough(to)) } else { g };
    g_add_edge(g1, from, to)
}

/// Jump from `from` to `to`: the terminator is set if there is none yet, and
/// the edge is added in any case.
pub open spec fn g_goto(g: GraphV, from: NodeId, to: NodeId) -> GraphV {
    let g1 = if g_open(g, from) { g_set_term(g, from, TerminatorV::Goto(to)) } else { g };
    g_add_edge(g1, from, to)
}

/// Join `from` to the merge node `merge`, when `from` has no terminator yet.
pub open spec fn g_merge(g: GraphV, from: NodeId, merge: NodeId) -> GraphV {
    if g_open(g, from) {
        g_add_edge(g_set_term(g, from, TerminatorV::Fallthrough(merge)), from, merge)
    } else {
        g
    }
}

/// The state of construction: the graph so far, the node that each active
/// label jumps to, and the node that statements are appended to.
#[verifier::ext_equal]
pub struct BuildSt {
    pub g: GraphV,
    pub labels: Map<u32, NodeId>,
    pub current: NodeId,
}

/// The nodes that the targets of a branch table name, leaving out targets
/// whose label is not active.
pub open spec fn table_nodes(labels: Map<u32, NodeId>, ts: Seq<BranchTarget>) -> Seq<NodeId>
    decreases ts.len(),
{
    if ts.len() == 0 {
        Seq::empty()
    } else {
        let r = table_nodes(labels, ts.drop_last());
        if labels.dom().contains(ts.last().label) {
            r.push(labels[ts.last().label])
        } else {
            r
        }
    }
}

/// The next node ID.
pub open spec fn next_id(g: GraphV) -> NodeId {
    g.nodes.len() as NodeId
}

/// Construction over one statement.
pub open spec fn build_stmt(st: BuildSt, s: StmtV) -> BuildSt
    decreases s,
{
    let g = st.g;
    let cur = st.current;
    let labels = st.labels;
    match s {
        StmtV::If { cond, then_block, else_block } => {
            let t = next_id(g);
            let e = (t + 1) as NodeId;
            let m = (t + 2) as NodeId;
            let g1 = g_add_node(g_add_node(g_add_node(g)));
            let g2 = g_set_term(g1, cur, TerminatorV::Branch { cond, then_target: t, else_target: e });
            let g3 = g_add_edge(g_add_edge(g2, cur, t), cur, e);
            let st_t = build_stmts(BuildSt { g: g3, labels, current: t }, then_block.stmts);
            let g4 = g_merge(st_t.g, st_t.current, m);
            match else_block {
                Some(b) => {
                    let st_e = build_stmts(BuildSt { g: g4, labels: st_t.labels, current: e }, b.stmts);
                    BuildSt { g: g_merge(st_e.g, st_e.current, m), labels: st_e.labels, current: m }
                },
                None => BuildSt { g: g_merge(g4, e, m), labels: st_t.labels, current: m },
            }
        },
        StmtV::Block { label, body } => {
            let be = next_id(g);
            let st_b = build_stmts(BuildSt { g: g_add_node(g), labels: labels.insert(label, be), current: cur }, body.stmts);
            BuildSt { g: g_merge(st_b.g, st_b.current, be), labels: st_b.labels.remove(label), current: be }
        },
        StmtV::Loop { label, body } => {
            let h = next_id(g);
            let le = (h + 1) as NodeId;
            let g1 = g_add_node(g_set_label(g_add_node(g), h, label));
            let g2 = g_fallthrough(g1, cur, h);
            let st_b = build_stmts(BuildSt { g: g2, labels: labels.insert(label, h), current: h }, body.stmts);
            BuildSt { g: g_merge(st_b.g, st_b.current, le), labels: st_b.labels.remove(label), current: le }
        },
        StmtV::While { cond, body } => {
            let h = next_id(g);
            let b = (h + 1) as NodeId;
            let le = (h + 2) as NodeId;
            let g1 = g_fallthrough(g_add_node(g_add_node(g_add_node(g))), cur, h);
            let g2 = g_set_term(g1, h, TerminatorV::Branch { cond, then_target: b, else_target: le });
            let g3 = g_add_edge(g_add_edge(g2, h, b), h, le);
            let st_b = build_stmts(BuildSt { g: g3, labels, current: b }, body.stmts);
            BuildSt { g: g_goto(st_b.g, st_b.current, h), labels: st_b.labels, current: le }
        },
        StmtV::DoWhile { body, cond } => {
            let b = next_id(g);
            let le = (b + 1) as NodeId;
            let g1 = g_fallthrough(g_add_node(g_add_node(g)), cur, b);
            let st_b = build_stmts(BuildSt { g: g1, labels, current: b }, body.stmts);
            let end = st_b.current;
            let g2 = g_set_term(st_b.g, end, TerminatorV::Branch { cond, then_target: b, else_target: le });
            BuildSt { g: g_add_edge(g_add_edge(g2, end, b), end, le), labels: st_b.labels, current: le }
        },
        StmtV::Br { label, .. } => {
            let g1 = if labels.dom().contains(label) { g_goto(g, cur, labels[label]) } else { g };
            BuildSt { g: g_add_node(g1), labels, current: next_id(g1) }
        },
        StmtV::BrIf { label, cond, .. } => {
            if labels.dom().contains(label) {
                let tgt = labels[label];
                let c = next_id(g);
                let g1 = g_set_term(g_add_node(g), cur, TerminatorV::Branch { cond, then_target: tgt, else_target: c });
                BuildSt { g: g_add_edge(g_add_edge(g1, cur, tgt), cur, c), labels, current: c }
            } else {
                st
            }
        },
        StmtV::BrTable { index, targets, default } => {
            let ns = table_nodes(labels, targets);
            let g1 = g_add_edges(g, cur, ns);
            let d = if labels.dom().contains(default.label) { labels[default.label] } else { next_id(g1) };
            let g2 = if labels.dom().contains(default.label) {
                g_add_edge(g1, cur, d)
            } else {
                g_add_edge(g_add_node(g1), cur, d)
            };
            let g3 = g_set_term(g2, cur, TerminatorV::Switch { index, targets: ns, default: d });
            BuildSt { g: g_add_node(g3), labels, current: next_id(g3) }
        },
        StmtV::Return(v) => {
            let g1 = g_set_term(g, cur, TerminatorV::Return(v));
            BuildSt { g: g_add_node(g1), labels, current: next_id(g1) }
        },
        StmtV::Unreachable => {
            let g1 = g_set_term(g, cur, TerminatorV::Unreachable);
            BuildSt { g: g_add_node(g1), labels, current: next_id(g1) }
        },
        _ => BuildSt { g: g_push_stmt(g, cur, s), labels, current: cur },
    }
}

/// Construction over a list of statements, in order.
pub open spec fn build_stmts(st: BuildSt, ss: Seq<StmtV>) -> BuildSt
    decreases ss,
{
    if ss.len() == 0 {
        st
    } else {
        build_stmt(build_stmts(st, ss.drop_last()), ss.last())
    }
}

/// An entry node, an exit node, then the body; an open end falls through to
/// the exit.
pub open spec fn spec_build_cfg(b: BlockV) -> GraphV {
    let g0 = g_add_node(g_add_node(GraphV { nodes: Seq::empty(), succs: Seq::empty() }));
    let st = build_stmts(BuildSt { g: g0, labels: Map::empty(), current: 0 }, b.stmts);
    g_merge(st.g, st.current, 1)
}

/// Number of statements, nested ones included.
pub open spec fn stmt_size(s: StmtV) -> nat
    decreases s,
{
    match s {
        StmtV::If { then_block, else_block, .. } => 1 + stmts_size(then_block.stmts) + match else_block {
            Some(b) => stmts_size(b.stmts),
            None => 0,
        },
        StmtV::Block { body, .. } => 1 + stmts_size(body.stmts),
        StmtV::Loop { body, .. } => 1 + stmts_size(body.stmts),
        StmtV::While { body, .. } => 1 + stmts_size(body.stmts),
        StmtV::DoWhile { body, .. } => 1 + stmts_size(body.stmts),
        _ => 1,
    }
}

/// Number of statements of a list, nested ones included.
pub open spec fn stmts_size(ss: Seq<StmtV>) -> nat
    decreases ss,
{
    if ss.len() == 0 {
        0
    } else {
        stmts_size(ss.drop_last()) + stmt_size(ss.last())
    }
}

proof fn lemma_size_prefix(ss: Seq<StmtV>, j: int)
    requires
        0 <= j <= ss.len(),
    ensures
        stmts_size(ss.subrange(0, j)) <= stmts_size(ss),
    decreases ss.len(),
{
    if j == ss.len() {
        assert(ss.subrange(0, j) =~= ss);
    } else {
        assert(ss.drop_last().subrange(0, j) =~= ss.subrange(0, j));
        lemma_size_prefix(ss.drop_last(), j);
    }
}

/// The node each label names: the last binding of a label wins.
pub open spec fn labels_view(v: Seq<(u32, NodeId)>) -> Map<u32, NodeId>
    decreases v.len(),
{
    if v.len() == 0 {
        Map::empty()
    } else {
        labels_view(v.drop_last()).insert(v.last().0, v.last().1)
    }
}

/// The bindings of `v` other than those of label `l`.
pub open spec fn without_label(v: Seq<(u32, NodeId)>, l: u32) -> Seq<(u32, NodeId)>
    decreases v.len(),
{
    if v.len() == 0 {
        v
    } else {
        let r = without_label(v.drop_last(), l);
        if v.last().0 == l {
            r
        } else {
            r.push(v.last())
        }
    }
}

proof fn lemma_without_label(v: Seq<(u32, NodeId)>, l: u32, n: nat)
    requires
        forall|j: int| 0 <= j < v.len() ==> (#[trigger] v[j]).1 < n,
    ensures
        labels_view(without_label(v, l)) == labels_view(v).remove(l),
        forall|j: int| 0 <= j < without_label(v, l).len() ==> (#[trigger] without_label(v, l)[j]).1 < n,
    decreases v.len(),
{
    if v.len() == 0 {
        assert(labels_view(v).remove(l) =~= labels_view(v));
    } else {
        let d = v.drop_last();
        lemma_without_label(d, l, n);
        let r = without_label(d, l);
        if v.last().0 == l {
            assert(labels_view(v).remove(l) =~= labels_view(d).remove(l));
        } else {
            assert(r.push(v.last()).drop_last() =~= r);
            assert(labels_view(v).remove(l) =~= labels_view(d).remove(l).insert(v.last().0, v.last().1));
            assert forall|j: int| 0 <= j < r.push(v.last()).len() implies (#[trigger] r.push(v.last())[j]).1 < n by {
                if j < r.len() {
                    assert(r.push(v.last())[j] == r[j]);
                }
            }
        }
    }
}

proof fn lemma_labels_found(v: Seq<(u32, NodeId)>, l: u32, k: int)
    requires
        0 <= k < v.len(),
        v[k].0 == l,
        forall|j: int| k < j < v.len() ==> (#[trigger] v[j]).0 != l,
    ensures
        labels_view(v).dom().contains(l),
        labels_view(v)[l] == v[k].1,
    decreases v.len(),
{
    if k < v.len() - 1 {
        let d = v.drop_last();
        assert forall|j: int| k < j < d.len() implies (#[trigger] d[j]).0 != l by {
            assert(d[j] == v[j]);
        }
        lemma_labels_found(d, l, k);
    }
}

proof fn lemma_labels_absent(v: Seq<(u32, NodeId)>, l: u32)
    requires
        forall|j: int| 0 <= j < v.len() ==> (#[trigger] v[j]).0 != l,
    ensures
        !labels_view(v).dom().contains(l),
    decreases v.len(),
{
    if v.len() > 0 {
        let d = v.drop_last();
        assert forall|j: int| 0 <= j < d.len() implies (#[trigger] d[j]).0 != l by {
            assert(d[j] == v[j]);
        }
        lemma_labels_absent(d, l);
    }
}

fn add_fresh_node(cfg: &mut Cfg) -> (id: NodeId)
    requires
        old(cfg).wf(),
        old(cfg).spec_len() < usize::MAX,
    ensures
        final(cfg).wf(),
        id == old(cfg).spec_len(),
        final(cfg).spec_len() == old(cfg).spec_len() + 1,
        cfg_view(*final(cfg)) == g_add_node(cfg_view(*old(cfg))),
        final(cfg).entry == old(cfg).entry,
        final(cfg).exit == old(cfg).exit,
{
    let id = cfg.len();
    let r = cfg.add_node(CfgNode::new(id));
    proof {
        let a = cfg_view(*cfg);
        let b = g_add_node(cfg_view(*old(cfg)));
        assert(stmts_view(cfg.nodes@[id as int].stmts@) =~= Seq::<StmtV>::empty());
        assert(a.nodes =~= b.nodes);
        assert(cfg.successors@[id as int]@ =~= Seq::<NodeId>::empty());
        assert(a.succs =~= b.succs);
    }
    r
}

fn add_edge_v(cfg: &mut Cfg, u: NodeId, v: NodeId)
    requires
        old(cfg).wf(),
        u < old(cfg).spec_len(),
        v < old(cfg).spec_len(),
    ensures
        final(cfg).wf(),
        final(cfg).spec_len() == old(cfg).spec_len(),
        cfg_view(*final(cfg)) == g_add_edge(cfg_view(*old(cfg)), u, v),
        final(cfg).entry == old(cfg).entry,
        final(cfg).exit == old(cfg).exit,
{
    cfg.add_edge(u, v);
    proof {
        let a = cfg_view(*cfg);
        let b = g_add_edge(cfg_view(*old(cfg)), u, v);
        assert(a.nodes =~= b.nodes);
        assert(a.succs =~= b.succs);
    }
}

fn set_term(cfg: &mut Cfg, u: NodeId, t: Terminator)
    requires
        old(cfg).wf(),
    ensures
        final(cfg).wf(),
        final(cfg).spec_len() == old(cfg).spec_len(),
        cfg_view(*final(cfg)) == g_set_term(cfg_view(*old(cfg)), u, terminator_view(t)),
        final(cfg).entry == old(cfg).entry,
        final(cfg).exit == old(cfg).exit,
{
    let ghost tv = terminator_view(t);
    match cfg.get_node_mut(u) {
        Some(node) => {
            node.terminator = t;
        },
        None => {},
    }
    proof {
        let a = cfg_view(*cfg);
        let b = g_set_term(cfg_view(*old(cfg)), u, tv);
        assert(a.nodes =~= b.nodes);
        assert(a.succs =~= b.succs);
    }
}

fn push_stmt(cfg: &mut Cfg, u: NodeId, s: Stmt)
    requires
        old(cfg).wf(),
    ensures
        final(cfg).wf(),
        final(cfg).spec_len() == old(cfg).spec_len(),
        cfg_view(*final(cfg)) == g_push_stmt(cfg_view(*old(cfg)), u, s@),
        final(cfg).entry == old(cfg).entry,
        final(cfg).exit == old(cfg).exit,
{
    let ghost sv = s@;
    match cfg.get_node_mut(u) {
        Some(node) => {
            let ghost before = node.stmts@;
            node.stmts.push(s);
            proof {
                lemma_stmts_view_push(before, s);
            }
        },
        None => {},
    }
    proof {
        let a = cfg_view(*cfg);
        let b = g_push_stmt(cfg_view(*old(cfg)), u, sv);
        assert(a.nodes =~= b.nodes);
        assert(a.succs =~= b.succs);
    }
}

fn set_label(cfg: &mut Cfg, u: NodeId, l: u32)
    requires
        old(cfg).wf(),
    ensures
        final(cfg).wf(),
        final(cfg).spec_len() == old(cfg).spec_len(),
        cfg_view(*final(cfg)) == g_set_label(cfg_view(*old(cfg)), u, l),
        final(cfg).entry == old(cfg).entry,
        final(cfg).exit == old(cfg).exit,
{
    match cfg.get_node_mut(u) {
        Some(node) => {
            node.label = Some(l);
        },
        None => {},
    }
    proof {
        let a = cfg_view(*cfg);
        let b = g_set_label(cfg_view(*old(cfg)), u, l);
        assert(a.nodes =~= b.nodes);
        assert(a.succs =~= b.succs);
    }
}

fn is_open(cfg: &Cfg, u: NodeId) -> (r: bool)
    ensures
        r == g_open(cfg_view(*cfg), u),
{
    match cfg.get_node(u) {
        Some(n) => matches!(n.terminator, Terminator::Unreachable),
        None => false,
    }
}

fn connect_fallthrough(cfg: &mut Cfg, from: NodeId, to: NodeId)
    requires
        old(cfg).wf(),
        from < old(cfg).spec_len(),
        to < old(cfg).spec_len(),
    ensures
        final(cfg).wf(),
        final(cfg).spec_len() == old(cfg).spec_len(),
        cfg_view(*final(cfg)) == g_fallthrough(cfg_view(*old(cfg)), from, to),
        final(cfg).entry == old(cfg).entry,
        final(cfg).exit == old(cfg).exit,
{
    if is_open(cfg, from) {
        set_term(cfg, from, Terminator::Fallthrough(to));
    }
    add_edge_v(cfg, from, to);
}

fn connect_goto(cfg: &mut Cfg, from: NodeId, to: NodeId)
    requires
        old(cfg).wf(),
        from < old(cfg).spec_len(),
        to < old(cfg).spec_len(),
    ensures
        final(cfg).wf(),
        final(cfg).spec_len() == old(cfg).spec_len(),
        cfg_view(*final(cfg)) == g_goto(cfg_view(*old(cfg)), from, to),
        final(cfg).entry == old(cfg).entry,
        final(cfg).exit == old(cfg).exit,
{
    if is_open(cfg, from) {
        set_term(cfg, from, Terminator::Goto(to));
    }
    add_edge_v(cfg, from, to);
}

fn connect_merge(cfg: &mut Cfg, from: NodeId, merge: NodeId)
    requires
        old(cfg).wf(),
        from < old(cfg).spec_len(),
        merge < old(cfg).spec_len(),
    ensures
        final(cfg).wf(),
        final(cfg).spec_len() == old(cfg).spec_len(),
        cfg_view(*final(cfg)) == g_merge(cfg_view(*old(cfg)), from, merge),
        final(cfg).entry == old(cfg).entry,
        final(cfg).exit == old(cfg).exit,
{
    if is_open(cfg, from) {
        set_term(cfg, from, Terminator::Fallthrough(merge));
        add_edge_v(cfg, from, merge);
    }
}

fn find_label(v: &Vec<(u32, NodeId)>, l: u32) -> (r: Option<NodeId>)
    ensures
        r == (if labels_view(v@).dom().contains(l) { Some(labels_view(v@)[l]) } else { None::<NodeId> }),
{
    let mut i: usize = v.len();
    while i > 0
        invariant
            i <= v@.len(),
            forall|j: int| i <= j < v@.len() ==> (#[trigger] v@[j]).0 != l,
        decreases i,
    {
        if v[i - 1].0 == l {
            proof {
                lemma_labels_found(v@, l, i - 1);
            }
            return Some(v[i - 1].1);
        }
        i -= 1;
    }
    proof {
        lemma_labels_absent(v@, l);
    }
    None
}

fn drop_label(v: &Vec<(u32, NodeId)>, l: u32) -> (r: Vec<(u32, NodeId)>)
    ensures
        r@ == without_label(v@, l),
{
    let mut r: Vec<(u32, NodeId)> = Vec::new();
    let mut k: usize = 0;
    while k < v.len()
        invariant
            k <= v@.len(),
            r@ == without_label(v@.subrange(0, k as int), l),
        decreases v@.len() - k,
    {
        proof {
            assert(v@.subrange(0, k + 1).drop_last() =~= v@.subrange(0, k as int));
        }
        if v[k].0 != l {
            r.push(v[k]);
        }
        k += 1;
    }
    proof {
        assert(v@.subrange(0, k as int) =~= v@);
    }
    r
}

proof fn lemma_labels_push(v: Seq<(u32, NodeId)>, l: u32, n: NodeId)
    ensures
        labels_view(v.push((l, n))) == labels_view(v).insert(l, n),
{
    assert(v.push((l, n)).drop_last() =~= v);
}

proof fn lemma_add_edges_push(g: GraphV, u: NodeId, ns: Seq<NodeId>, x: NodeId)
    requires
        u < g.succs.len(),
    ensures
        g_add_edge(g_add_edges(g, u, ns), u, x) == g_add_edges(g, u, ns.push(x)),
{
    assert(g_add_edge(g_add_edges(g, u, ns), u, x).succs =~= g_add_edges(g, u, ns.push(x)).succs);
}

proof fn lemma_add_edges_none(g: GraphV, u: NodeId)
    requires
        u < g.succs.len(),
    ensures
        g_add_edges(g, u, Seq::empty()) == g,
{
    assert(g_add_edges(g, u, Seq::empty()).succs =~= g.succs);
}

fn duplicate_opt(v: &Option<Expr>) -> (r: Option<Expr>)
    ensures
        match v {
            Some(e) => r matches Some(x) && x@ == e@,
            None => r is None,
        },
{
    match v {
        Some(e) => Some(e.duplicate()),
        None => None,
    }
}

/// The graph under construction and the active labels.
struct CfgBuilder {
    cfg: Cfg,
    labels: Vec<(u32, NodeId)>,
}

impl CfgBuilder {
    spec fn ok(&self) -> bool {
        &&& self.cfg.wf()
        &&& forall|j: int| 0 <= j < self.labels@.len() ==> (#[trigger] self.labels@[j]).1 < self.cfg.nodes@.len()
    }

    spec fn state(&self, current: NodeId) -> BuildSt {
        BuildSt { g: cfg_view(self.cfg), labels: labels_view(self.labels@), current }
    }

    fn process_block(&mut self, block: &Block, cur: NodeId) -> (r: NodeId)
        requires
            old(self).ok(),
            cur < old(self).cfg.spec_len(),
            old(self).cfg.spec_len() + 3 * stmts_size(block@.stmts) < usize::MAX,
        ensures
            final(self).ok(),
            final(self).state(r) == build_stmts(old(self).state(cur), block@.stmts),
            old(self).cfg.spec_len() <= final(self).cfg.spec_len() <= old(self).cfg.spec_len() + 3 * stmts_size(block@.stmts),
            r < final(self).cfg.spec_len(),
            final(self).cfg.entry == old(self).cfg.entry,
            final(self).cfg.exit == old(self).cfg.exit,
        decreases block, 2nat,
    {
        let ghost st0 = self.state(cur);
        let ghost len0 = self.cfg.spec_len();
        let ghost ss = block@.stmts;
        proof {
            lemma_stmts_view(block.stmts@);
            assert(ss.subrange(0, 0) =~= Seq::<StmtV>::empty());
        }
        let mut current = cur;
        let mut k: usize = 0;
        while k < block.stmts.len()
            invariant
                self.ok(),
                current < self.cfg.spec_len(),
                ss == block@.stmts,
                ss == stmts_view(block.stmts@),
                ss.len() == block.stmts@.len(),
                forall|i: int| 0 <= i < block.stmts@.len() ==> #[trigger] ss[i] == block.stmts@[i]@,
                k <= block.stmts@.len(),
                self.state(current) == build_stmts(st0, ss.subrange(0, k as int)),
                len0 <= self.cfg.spec_len() <= len0 + 3 * stmts_size(ss.subrange(0, k as int)),
                len0 + 3 * stmts_size(ss) < usize::MAX,
                self.cfg.entry == old(self).cfg.entry,
                self.cfg.exit == old(self).cfg.exit,
            decreases block.stmts@.len() - k,
        {
            proof {
                lemma_size_prefix(ss, k + 1);
                assert(ss.subrange(0, k + 1).drop_last() =~= ss.subrange(0, k as int));
                assert(decreases_to!(block => block.stmts@[k as int]));
            }
            current = self.process_stmt(&block.stmts[k], current);
            k += 1;
        }
        proof {
            assert(ss.subrange(0, k as int) =~= ss);
        }
        current
    }

    fn process_stmt(&mut self, stmt: &Stmt, cur: NodeId) -> (r: NodeId)
        requires
            old(self).ok(),
            cur < old(self).cfg.spec_len(),
            old(self).cfg.spec_len() + 3 * stmt_size(stmt@) < usize::MAX,
        ensures
            final(self).ok(),
            final(self).state(r) == build_stmt(old(self).state(cur), stmt@),
            old(self).cfg.spec_len() <= final(self).cfg.spec_len() <= old(self).cfg.spec_len() + 3 * stmt_size(stmt@),
            r < final(self).cfg.spec_len(),
            final(self).cfg.entry == old(self).cfg.entry,
            final(self).cfg.exit == old(self).cfg.exit,
        decreases stmt, 1nat,
    {
        match stmt {
            Stmt::If { .. } => self.process_if(stmt, cur),
            Stmt::Block { .. } => self.process_labeled(stmt, cur),
            Stmt::Loop { .. } => self.process_loop(stmt, cur),
            Stmt::While { .. } => self.process_while(stmt, cur),
            Stmt::DoWhile { .. } => self.process_do_while(stmt, cur),
            Stmt::BrTable { .. } => self.process_br_table(stmt, cur),
            Stmt::Br { label, .. } => {
                match find_label(&self.labels, *label) {
                    Some(tgt) => {
                        proof {
                            self.lemma_label_bound(*label);
                        }
                        connect_goto(&mut self.cfg, cur, tgt);
                    },
                    None => {},
                }
                add_fresh_node(&mut self.cfg)
            },
            Stmt::BrIf { label, cond, .. } => {
                match find_label(&self.labels, *label) {
                    Some(tgt) => {
                        proof {
                            self.lemma_label_bound(*label);
                        }
                        let c = add_fresh_node(&mut self.cfg);
                        set_term(
                            &mut self.cfg,
                            cur,
                            Terminator::Branch { cond: cond.duplicate(), then_target: tgt, else_target: c },
                        );
                        add_edge_v(&mut self.cfg, cur, tgt);
                        add_edge_v(&mut self.cfg, cur, c);
                        c
                    },
                    None => cur,
                }
            },
            Stmt::Return(value) => {
                set_term(&mut self.cfg, cur, Terminator::Return(duplicate_opt(value)));
                add_fresh_node(&mut self.cfg)
            },
            Stmt::Unreachable => {
                set_term(&mut self.cfg, cur, Terminator::Unreachable);
                add_fresh_node(&mut self.cfg)
            },
            _ => {
                push_stmt(&mut self.cfg, cur, stmt.duplicate());
                cur
            },
        }
    }

    fn process_if(&mut self, stmt: &Stmt, cur: NodeId) -> (r: NodeId)
        requires
            stmt is If,
            old(self).ok(),
            cur < old(self).cfg.spec_len(),
            old(self).cfg.spec_len() + 3 * stmt_size(stmt@) < usize::MAX,
        ensures
            final(self).ok(),
            final(self).state(r) == build_stmt(old(self).state(cur), stmt@),
            old(self).cfg.spec_len() <= final(self).cfg.spec_len() <= old(self).cfg.spec_len() + 3 * stmt_size(stmt@),
            r < final(self).cfg.spec_len(),
            final(self).cfg.entry == old(self).cfg.entry,
            final(self).cfg.exit == old(self).cfg.exit,
        decreases stmt, 0nat,
    {
        match stmt {
            Stmt::If { cond, then_block, else_block } => {
                let t = add_fresh_node(&mut self.cfg);
                let e = add_fresh_node(&mut self.cfg);
                let m = add_fresh_node(&mut self.cfg);
                set_term(
                    &mut self.cfg,
                    cur,
                    Terminator::Branch { cond: cond.duplicate(), then_target: t, else_target: e },
                );
                add_edge_v(&mut self.cfg, cur, t);
                add_edge_v(&mut self.cfg, cur, e);
                let then_end = self.process_block(then_block, t);
                connect_merge(&mut self.cfg, then_end, m);
                match else_block {
                    Some(b) => {
                        let else_end = self.process_block(b, e);
                        connect_merge(&mut self.cfg, else_end, m);
                    },
                    None => {
                        connect_merge(&mut self.cfg, e, m);
                    },
                }
                m
            },
            _ => {
                proof {
                    assert(false);
                }
                cur
            },
        }
    }

    fn process_labeled(&mut self, stmt: &Stmt, cur: NodeId) -> (r: NodeId)
        requires
            stmt is Block,
            old(self).ok(),
            cur < old(self).cfg.spec_len(),
            old(self).cfg.spec_len() + 3 * stmt_size(stmt@) < usize::MAX,
        ensures
            final(self).ok(),
            final(self).state(r) == build_stmt(old(self).state(cur), stmt@),
            old(self).cfg.spec_len() <= final(self).cfg.spec_len() <= old(self).cfg.spec_len() + 3 * stmt_size(stmt@),
            r < final(self).cfg.spec_len(),
            final(self).cfg.entry == old(self).cfg.entry,
            final(self).cfg.exit == old(self).cfg.exit,
        decreases stmt, 0nat,
    {
        match stmt {
            Stmt::Block { label, body } => {
                let be = add_fresh_node(&mut self.cfg);
                proof {
                    lemma_labels_push(self.labels@, *label, be);
                }
                self.labels.push((*label, be));
                let body_end = self.process_block(body, cur);
                proof {
                    lemma_without_label(self.labels@, *label, self.cfg.nodes@.len());
                }
                self.labels = drop_label(&self.labels, *label);
                connect_merge(&mut self.cfg, body_end, be);
                be
            },
            _ => {
                proof {
                    assert(false);
                }
                cur
            },
        }
    }

    fn process_loop(&mut self, stmt: &Stmt, cur: NodeId) -> (r: NodeId)
        requires
            stmt is Loop,
            old(self).ok(),
            cur < old(self).cfg.spec_len(),
            old(self).cfg.spec_len() + 3 * stmt_size(stmt@) < usize::MAX,
        ensures
            final(self).ok(),
            final(self).state(r) == build_stmt(old(self).state(cur), stmt@),
            old(self).cfg.spec_len() <= final(self).cfg.spec_len() <= old(self).cfg.spec_len() + 3 * stmt_size(stmt@),
            r < final(self).cfg.spec_len(),
            final(self).cfg.entry == old(self).cfg.entry,
            final(self).cfg.exit == old(self).cfg.exit,
        decreases stmt, 0nat,
    {
        match stmt {
            Stmt::Loop { label, body } => {
                let h = add_fresh_node(&mut self.cfg);
                set_label(&mut self.cfg, h, *label);
                let le = add_fresh_node(&mut self.cfg);
                connect_fallthrough(&mut self.cfg, cur, h);
                proof {
                    lemma_labels_push(self.labels@, *label, h);
                }
                self.labels.push((*label, h));
                let body_end = self.process_block(body, h);
                proof {
                    lemma_without_label(self.labels@, *label, self.cfg.nodes@.len());
                }
                self.labels = drop_label(&self.labels, *label);
                connect_merge(&mut self.cfg, body_end, le);
                le
            },
            _ => {
                proof {
                    assert(false);
                }
                cur
            },
        }
    }

    fn process_while(&mut self, stmt: &Stmt, cur: NodeId) -> (r: NodeId)
        requires
            stmt is While,
            old(self).ok(),
            cur < old(self).cfg.spec_len(),
            old(self).cfg.spec_len() + 3 * stmt_size(stmt@) < usize::MAX,
        ensures
            final(self).ok(),
            final(self).state(r) == build_stmt(old(self).state(cur), stmt@),
            old(self).cfg.spec_len() <= final(self).cfg.spec_len() <= old(self).cfg.spec_len() + 3 * stmt_size(stmt@),
            r < final(self).cfg.spec_len(),
            final(self).cfg.entry == old(self).cfg.entry,
            final(self).cfg.exit == old(self).cfg.exit,
        decreases stmt, 0nat,
    {
        match stmt {
            Stmt::While { cond, body } => {
                let h = add_fresh_node(&mut self.cfg);
                let b = add_fresh_node(&mut self.cfg);
                let le = add_fresh_node(&mut self.cfg);
                connect_fallthrough(&mut self.cfg, cur, h);
                set_term(
                    &mut self.cfg,
                    h,
                    Terminator::Branch { cond: cond.duplicate(), then_target: b, else_target: le },
                );
                add_edge_v(&mut self.cfg, h, b);
                add_edge_v(&mut self.cfg, h, le);
                let body_end = self.process_block(body, b);
                connect_goto(&mut self.cfg, body_end, h);
                le
            },
            _ => {
                proof {
                    assert(false);
                }
                cur
            },
        }
    }

    fn process_do_while(&mut self, stmt: &Stmt, cur: NodeId) -> (r: NodeId)
        requires
            stmt is DoWhile,
            old(self).ok(),
            cur < old(self).cfg.spec_len(),
            old(self).cfg.spec_len() + 3 * stmt_size(stmt@) < usize::MAX,
        ensures
            final(self).ok(),
            final(self).state(r) == build_stmt(old(self).state(cur), stmt@),
            old(self).cfg.spec_len() <= final(self).cfg.spec_len() <= old(self).cfg.spec_len() + 3 * stmt_size(stmt@),
            r < final(self).cfg.spec_len(),
            final(self).cfg.entry == old(self).cfg.entry,
            final(self).cfg.exit == old(self).cfg.exit,
        decreases stmt, 0nat,
    {
        match stmt {
            Stmt::DoWhile { body, cond } => {
                let b = add_fresh_node(&mut self.cfg);
                let le = add_fresh_node(&mut self.cfg);
                connect_fallthrough(&mut self.cfg, cur, b);
                let end = self.process_block(body, b);
                set_term(
                    &mut self.cfg,
                    end,
                    Terminator::Branch { cond: cond.duplicate(), then_target: b, else_target: le },
                );
                add_edge_v(&mut self.cfg, end, b);
                add_edge_v(&mut self.cfg, end, le);
                le
            },
            _ => {
                proof {
                    assert(false);
                }
                cur
            },
        }
    }

    fn process_br_table(&mut self, stmt: &Stmt, cur: NodeId) -> (r: NodeId)
        requires
            stmt is BrTable,
            old(self).ok(),
            cur < old(self).cfg.spec_len(),
            old(self).cfg.spec_len() + 3 * stmt_size(stmt@) < usize::MAX,
        ensures
            final(self).ok(),
            final(self).state(r) == build_stmt(old(self).state(cur), stmt@),
            old(self).cfg.spec_len() <= final(self).cfg.spec_len() <= old(self).cfg.spec_len() + 3 * stmt_size(stmt@),
            r < final(self).cfg.spec_len(),
            final(self).cfg.entry == old(self).cfg.entry,
            final(self).cfg.exit == old(self).cfg.exit,
        decreases stmt, 0nat,
    {
        match stmt {
            Stmt::BrTable { index, targets, default } => {
                let ghost g0 = cfg_view(self.cfg);
                let ghost labels = labels_view(self.labels@);
                proof {
                    lemma_add_edges_none(g0, cur);
                    assert(targets@.subrange(0, 0) =~= Seq::<BranchTarget>::empty());
                }
                let mut nodes: Vec<NodeId> = Vec::new();
                let mut k: usize = 0;
                while k < targets.len()
                    invariant
                        self.ok(),
                        cur < self.cfg.spec_len(),
                        self.cfg.spec_len() == old(self).cfg.spec_len(),
                        labels_view(self.labels@) == labels,
                        g0.succs.len() == self.cfg.spec_len(),
                        k <= targets@.len(),
                        nodes@ == table_nodes(labels, targets@.subrange(0, k as int)),
                        cfg_view(self.cfg) == g_add_edges(g0, cur, nodes@),
                        self.cfg.entry == old(self).cfg.entry,
                        self.cfg.exit == old(self).cfg.exit,
                    decreases targets@.len() - k,
                {
                    proof {
                        assert(targets@.subrange(0, k + 1).drop_last() =~= targets@.subrange(0, k as int));
                    }
                    match find_label(&self.labels, targets[k].label) {
                        Some(n) => {
                            proof {
                                self.lemma_label_bound(targets@[k as int].label);
                                lemma_add_edges_push(g0, cur, nodes@, n);
                            }
                            nodes.push(n);
                            add_edge_v(&mut self.cfg, cur, n);
                        },
                        None => {},
                    }
                    k += 1;
                }
                proof {
                    assert(targets@.subrange(0, k as int) =~= targets@);
                }
                let d = match find_label(&self.labels, default.label) {
                    Some(n) => {
                        proof {
                            self.lemma_label_bound(default.label);
                        }
                        add_edge_v(&mut self.cfg, cur, n);
                        n
                    },
                    None => {
                        let n = add_fresh_node(&mut self.cfg);
                        add_edge_v(&mut self.cfg, cur, n);
                        n
                    },
                };
                set_term(
                    &mut self.cfg,
                    cur,
                    Terminator::Switch { index: index.duplicate(), targets: nodes, default: d },
                );
                add_fresh_node(&mut self.cfg)
            },
            _ => {
                proof {
                    assert(false);
                }
                cur
            },
        }
    }

    proof fn lemma_label_bound(&self, l: u32)
        requires
            self.ok(),
            labels_view(self.labels@).dom().contains(l),
        ensures
            labels_view(self.labels@)[l] < self.cfg.nodes@.len(),
    {
        let v = self.labels@;
        let k = choose|k: int| 0 <= k < v.len() && v[k].0 == l && forall|j: int| k < j < v.len() ==> (#[trigger] v[j]).0 != l;
        if exists|k: int| 0 <= k < v.len() && v[k].0 == l && forall|j: int| k < j < v.len() ==> (#[trigger] v[j]).0 != l {
            lemma_labels_found(v, l, k);
        } else {
            lemma_labels_last(v, l);
        }
    }
}

proof fn lemma_labels_last(v: Seq<(u32, NodeId)>, l: u32)
    requires
        labels_view(v).dom().contains(l),
    ensures
        exists|k: int| 0 <= k < v.len() && v[k].0 == l && forall|j: int| k < j < v.len() ==> (#[trigger] v[j]).0 != l,
    decreases v.len(),
{
    if v.len() > 0 {
        if v.last().0 == l {
            assert(v[v.len() - 1].0 == l);
        } else {
            let d = v.drop_last();
            lemma_labels_last(d, l);
            let k = choose|k: int| 0 <= k < d.len() && d[k].0 == l && forall|j: int| k < j < d.len() ==> (#[trigger] d[j]).0 != l;
            assert(v[k] == d[k]);
            assert forall|j: int| k < j < v.len() implies (#[trigger] v[j]).0 != l by {
                if j < d.len() {
                    assert(v[j] == d[j]);
                }
            }
        }
    }
}

/// Build the control flow graph of a block: node 0 is the entry, node 1 the
/// exit, and the block's statements follow from the entry.
pub fn build_cfg(block: &Block) -> (cfg: Cfg)
    requires
        3 * stmts_size(block@.stmts) + 3 < usize::MAX,
    ensures
        cfg.wf(),
        cfg.entry == 0,
        cfg.exit == 1,
        cfg_view(cfg) == spec_build_cfg(block@),
{
    let mut b = CfgBuilder { cfg: Cfg::new(), labels: Vec::new() };
    proof {
        assert(cfg_view(b.cfg) == GraphV { nodes: Seq::empty(), succs: Seq::empty() });
        assert(labels_view(b.labels@) =~= Map::<u32, NodeId>::empty());
    }
    let entry = add_fresh_node(&mut b.cfg);
    b.cfg.entry = entry;
    let exit = add_fresh_node(&mut b.cfg);
    b.cfg.exit = exit;
    let last = b.process_block(block, entry);
    connect_merge(&mut b.cfg, last, exit);
    b.cfg
}


/// Node `u` passes control only along edges of the graph.
pub open spec fn term_covered(g: GraphV, u: int) -> bool {
    forall|i: int| 0 <= i < terminator_targets(g.nodes[u].terminator).len()
        ==> g.succs[u].contains(#[trigger] terminator_targets(g.nodes[u].terminator)[i])
}

/// Every node sits at the position of its ID and passes control only along
/// edges of the graph.
pub open spec fn graph_consistent(g: GraphV) -> bool {
    &&& g.nodes.len() == g.succs.len()
    &&& forall|u: int| 0 <= u < g.nodes.len() ==> (#[trigger] g.nodes[u]).id == u as NodeId
    &&& forall|u: int| 0 <= u < g.nodes.len() ==> #[trigger] term_covered(g, u)
}

proof fn lemma_add_node_consistent(g: GraphV)
    requires
        graph_consistent(g),
    ensures
        graph_consistent(g_add_node(g)),
{
    let h = g_add_node(g);
    assert forall|u: int| 0 <= u < h.nodes.len() implies #[trigger] term_covered(h, u) by {
        if u < g.nodes.len() {
            assert(term_covered(g, u));
            assert(h.nodes[u] == g.nodes[u]);
            assert(h.succs[u] == g.succs[u]);
        }
    }
    assert forall|u: int| 0 <= u < h.nodes.len() implies (#[trigger] h.nodes[u]).id == u as NodeId by {
        if u < g.nodes.len() {
            assert(h.nodes[u] == g.nodes[u]);
        }
    }
}

proof fn lemma_add_edge_consistent(g: GraphV, a: NodeId, b: NodeId)
    requires
        graph_consistent(g),
    ensures
        graph_consistent(g_add_edge(g, a, b)),
        a < g.nodes.len() ==> g_add_edge(g, a, b).succs[a as int].contains(b),
        forall|u: int, x: NodeId| 0 <= u < g.succs.len() && g.succs[u].contains(x) ==> #[trigger] g_add_edge(g, a, b).succs[u].contains(x),
{
    let h = g_add_edge(g, a, b);
    if a < g.succs.len() {
        assert forall|u: int, x: NodeId| 0 <= u < g.succs.len() && g.succs[u].contains(x) implies #[trigger] h.succs[u].contains(x) by {
            if u == a {
                let k = choose|k: int| 0 <= k < g.succs[u].len() && g.succs[u][k] == x;
                assert(h.succs[u][k] == x);
            }
        }
        assert(h.succs[a as int][g.succs[a as int].len() as int] == b);
        assert forall|u: int| 0 <= u < h.nodes.len() implies #[trigger] term_covered(h, u) by {
            assert(term_covered(g, u));
            assert(h.nodes[u] == g.nodes[u]);
        }
    }
}

proof fn lemma_set_term_consistent(g: GraphV, u: NodeId, t: TerminatorV)
    requires
        graph_consistent(g),
        u < g.nodes.len() ==> forall|i: int| 0 <= i < terminator_targets(t).len()
            ==> g.succs[u as int].contains(#[trigger] terminator_targets(t)[i]),
    ensures
        graph_consistent(g_set_term(g, u, t)),
{
    let h = g_set_term(g, u, t);
    if u < g.nodes.len() {
        assert forall|v: int| 0 <= v < h.nodes.len() implies #[trigger] term_covered(h, v) by {
            if v != u {
                assert(term_covered(g, v));
                assert(h.nodes[v] == g.nodes[v]);
            }
        }
        assert forall|v: int| 0 <= v < h.nodes.len() implies (#[trigger] h.nodes[v]).id == v as NodeId by {
            assert(g.nodes[v].id == v as NodeId);
        }
    }
}

proof fn lemma_branch_consistent(g: GraphV, u: NodeId, c: ExprV, a: NodeId, b: NodeId)
    requires
        graph_consistent(g),
    ensures
        graph_consistent(g_add_edge(g_add_edge(g_set_term(g, u, TerminatorV::Branch { cond: c, then_target: a, else_target: b }), u, a), u, b)),
{
    let t = TerminatorV::Branch { cond: c, then_target: a, else_target: b };
    let g1 = g_set_term(g, u, t);
    if u < g.nodes.len() {
        let g2 = g_add_edge(g1, u, a);
        let g3 = g_add_edge(g2, u, b);
        assert(g2.succs[u as int] == g.succs[u as int].push(a));
        assert(g3.succs[u as int] == g.succs[u as int].push(a).push(b));
        assert(g3.succs[u as int][g.succs[u as int].len() as int] == a);
        assert(g3.succs[u as int][g.succs[u as int].len() + 1int] == b);
        assert forall|v: int| 0 <= v < g3.nodes.len() implies #[trigger] term_covered(g3, v) by {
            if v != u {
                assert(term_covered(g, v));
                assert(g3.nodes[v] == g.nodes[v]);
                assert forall|x: NodeId| g.succs[v].contains(x) implies g3.succs[v].contains(x) by {
                    assert(g3.succs[v] == g.succs[v]);
                }
            }
        }
        assert forall|v: int| 0 <= v < g3.nodes.len() implies (#[trigger] g3.nodes[v]).id == v as NodeId by {
            assert(g.nodes[v].id == v as NodeId);
        }
    }
}

proof fn lemma_set_label_consistent(g: GraphV, u: NodeId, l: u32)
    requires
        graph_consistent(g),
    ensures
        graph_consistent(g_set_label(g, u, l)),
{
    let h = g_set_label(g, u, l);
    assert forall|v: int| 0 <= v < h.nodes.len() implies #[trigger] term_covered(h, v) by {
        assert(term_covered(g, v));
    }
    assert forall|v: int| 0 <= v < h.nodes.len() implies (#[trigger] h.nodes[v]).id == v as NodeId by {
        assert(g.nodes[v].id == v as NodeId);
    }
}

proof fn lemma_push_stmt_consistent(g: GraphV, u: NodeId, s: StmtV)
    requires
        graph_consistent(g),
    ensures
        graph_consistent(g_push_stmt(g, u, s)),
{
    let h = g_push_stmt(g, u, s);
    assert forall|v: int| 0 <= v < h.nodes.len() implies #[trigger] term_covered(h, v) by {
        assert(term_covered(g, v));
    }
    assert forall|v: int| 0 <= v < h.nodes.len() implies (#[trigger] h.nodes[v]).id == v as NodeId by {
        assert(g.nodes[v].id == v as NodeId);
    }
}

proof fn lemma_jump_consistent(g: GraphV, from: NodeId, to: NodeId)
    requires
        graph_consistent(g),
    ensures
        graph_consistent(g_fallthrough(g, from, to)),
        graph_consistent(g_goto(g, from, to)),
        graph_consistent(g_merge(g, from, to)),
{
    if g_open(g, from) {
        let t1 = TerminatorV::Fallthrough(to);
        let t2 = TerminatorV::Goto(to);
        let g1 = g_set_term(g, from, t1);
        let g2 = g_set_term(g, from, t2);
        lemma_jump_one(g, from, to, t1);
        lemma_jump_one(g, from, to, t2);
    } else {
        lemma_add_edge_consistent(g, from, to);
    }
}

proof fn lemma_jump_one(g: GraphV, from: NodeId, to: NodeId, t: TerminatorV)
    requires
        graph_consistent(g),
        g_open(g, from),
        terminator_targets(t) == seq![to],
    ensures
        graph_consistent(g_add_edge(g_set_term(g, from, t), from, to)),
{
    let g1 = g_set_term(g, from, t);
    let g2 = g_add_edge(g1, from, to);
    assert(g2.succs[from as int] == g.succs[from as int].push(to));
    assert(g2.succs[from as int][g.succs[from as int].len() as int] == to);
    assert forall|v: int| 0 <= v < g2.nodes.len() implies #[trigger] term_covered(g2, v) by {
        if v != from {
            assert(term_covered(g, v));
            assert(g2.nodes[v] == g.nodes[v]);
            assert(g2.succs[v] == g.succs[v]);
        } else {
            assert(terminator_targets(g2.nodes[v].terminator) == seq![to]);
        }
    }
    assert forall|v: int| 0 <= v < g2.nodes.len() implies (#[trigger] g2.nodes[v]).id == v as NodeId by {
        assert(g.nodes[v].id == v as NodeId);
    }
}

proof fn lemma_table_consistent(g: GraphV, u: NodeId, ns: Seq<NodeId>, d: NodeId, idx: ExprV, fresh: bool)
    requires
        graph_consistent(g),
        u < g.nodes.len(),
    ensures
        ({
            let g1 = g_add_edges(g, u, ns);
            let g2 = if fresh { g_add_edge(g_add_node(g1), u, d) } else { g_add_edge(g1, u, d) };
            graph_consistent(g_set_term(g2, u, TerminatorV::Switch { index: idx, targets: ns, default: d }))
        }),
{
    let g1 = g_add_edges(g, u, ns);
    assert(graph_consistent(g1)) by {
        if u < g.succs.len() {
            assert forall|v: int| 0 <= v < g1.nodes.len() implies #[trigger] term_covered(g1, v) by {
                assert(term_covered(g, v));
                if v == u {
                    assert forall|x: NodeId| g.succs[v].contains(x) implies g1.succs[v].contains(x) by {
                        let k = choose|k: int| 0 <= k < g.succs[v].len() && g.succs[v][k] == x;
                        assert(g1.succs[v][k] == x);
                    }
                }
            }
            assert forall|v: int| 0 <= v < g1.nodes.len() implies (#[trigger] g1.nodes[v]).id == v as NodeId by {
                assert(g.nodes[v].id == v as NodeId);
            }
        }
    }
    let g1b = if fresh { g_add_node(g1) } else { g1 };
    if fresh {
        lemma_add_node_consistent(g1);
    }
    let g2 = g_add_edge(g1b, u, d);
    lemma_add_edge_consistent(g1b, u, d);
    let t = TerminatorV::Switch { index: idx, targets: ns, default: d };
    if u < g.nodes.len() {
        assert(g2.succs[u as int] == g.succs[u as int] + ns + seq![d]);
        assert forall|i: int| 0 <= i < terminator_targets(t).len() implies g2.succs[u as int].contains(#[trigger] terminator_targets(t)[i]) by {
            if i < ns.len() {
                assert(g2.succs[u as int][g.succs[u as int].len() + i] == ns[i]);
            } else {
                assert(g2.succs[u as int][(g.succs[u as int].len() + ns.len()) as int] == d);
            }
        }
    }
    lemma_set_term_consistent(g2, u, t);
}

proof fn lemma_build_stmt_consistent(st: BuildSt, s: StmtV)
    requires
        graph_consistent(st.g),
        st.current < st.g.nodes.len(),
    ensures
        graph_consistent(build_stmt(st, s).g),
        build_stmt(st, s).current < build_stmt(st, s).g.nodes.len(),
    decreases s,
{
    let g = st.g;
    let cur = st.current;
    let labels = st.labels;
    match s {
        StmtV::If { cond, then_block, else_block } => {
            let t = next_id(g);
            let e = (t + 1) as NodeId;
            let m = (t + 2) as NodeId;
            lemma_add_node_consistent(g);
            lemma_add_node_consistent(g_add_node(g));
            let g1 = g_add_node(g_add_node(g_add_node(g)));
            lemma_add_node_consistent(g_add_node(g_add_node(g)));
            lemma_branch_consistent(g1, cur, cond, t, e);
            let g3 = g_add_edge(g_add_edge(g_set_term(g1, cur, TerminatorV::Branch { cond, then_target: t, else_target: e }), cur, t), cur, e);
            let st_t = build_stmts(BuildSt { g: g3, labels, current: t }, then_block.stmts);
            lemma_build_stmts_consistent(BuildSt { g: g3, labels, current: t }, then_block.stmts);
            lemma_build_stmts_grows(BuildSt { g: g3, labels, current: t }, then_block.stmts);
            lemma_jump_consistent(st_t.g, st_t.current, m);
            let g4 = g_merge(st_t.g, st_t.current, m);
            match else_block {
                Some(b) => {
                    let st_e = build_stmts(BuildSt { g: g4, labels: st_t.labels, current: e }, b.stmts);
                    lemma_build_stmts_consistent(BuildSt { g: g4, labels: st_t.labels, current: e }, b.stmts);
                    lemma_build_stmts_grows(BuildSt { g: g4, labels: st_t.labels, current: e }, b.stmts);
                    lemma_jump_consistent(st_e.g, st_e.current, m);
                },
                None => {
                    lemma_jump_consistent(g4, e, m);
                },
            }
        },
        StmtV::Block { label, body } => {
            let be = next_id(g);
            lemma_add_node_consistent(g);
            let st0 = BuildSt { g: g_add_node(g), labels: labels.insert(label, be), current: cur };
            lemma_build_stmts_consistent(st0, body.stmts);
            lemma_build_stmts_grows(st0, body.stmts);
            let st_b = build_stmts(st0, body.stmts);
            lemma_jump_consistent(st_b.g, st_b.current, be);
        },
        StmtV::Loop { label, body } => {
            let h = next_id(g);
            let le = (h + 1) as NodeId;
            lemma_add_node_consistent(g);
            lemma_set_label_consistent(g_add_node(g), h, label);
            lemma_add_node_consistent(g_set_label(g_add_node(g), h, label));
            let g1 = g_add_node(g_set_label(g_add_node(g), h, label));
            lemma_jump_consistent(g1, cur, h);
            let g2 = g_fallthrough(g1, cur, h);
            let st0 = BuildSt { g: g2, labels: labels.insert(label, h), current: h };
            lemma_build_stmts_consistent(st0, body.stmts);
            lemma_build_stmts_grows(st0, body.stmts);
            let st_b = build_stmts(st0, body.stmts);
            lemma_jump_consistent(st_b.g, st_b.current, le);
        },
        StmtV::While { cond, body } => {
            let h = next_id(g);
            let b = (h + 1) as NodeId;
            let le = (h + 2) as NodeId;
            lemma_add_node_consistent(g);
            lemma_add_node_consistent(g_add_node(g));
            lemma_add_node_consistent(g_add_node(g_add_node(g)));
            lemma_jump_consistent(g_add_node(g_add_node(g_add_node(g))), cur, h);
            let g1 = g_fallthrough(g_add_node(g_add_node(g_add_node(g))), cur, h);
            lemma_branch_consistent(g1, h, cond, b, le);
            let g3 = g_add_edge(g_add_edge(g_set_term(g1, h, TerminatorV::Branch { cond, then_target: b, else_target: le }), h, b), h, le);
            let st0 = BuildSt { g: g3, labels, current: b };
            lemma_build_stmts_consistent(st0, body.stmts);
            lemma_build_stmts_grows(st0, body.stmts);
            let st_b = build_stmts(st0, body.stmts);
            lemma_jump_consistent(st_b.g, st_b.current, h);
        },
        StmtV::DoWhile { body, cond } => {
            let b = next_id(g);
            let le = (b + 1) as NodeId;
            lemma_add_node_consistent(g);
            lemma_add_node_consistent(g_add_node(g));
            lemma_jump_consistent(g_add_node(g_add_node(g)), cur, b);
            let g1 = g_fallthrough(g_add_node(g_add_node(g)), cur, b);
            let st0 = BuildSt { g: g1, labels, current: b };
            lemma_build_stmts_consistent(st0, body.stmts);
            lemma_build_stmts_grows(st0, body.stmts);
            let st_b = build_stmts(st0, body.stmts);
            lemma_branch_consistent(st_b.g, st_b.current, cond, b, le);
        },
        StmtV::Br { label, .. } => {
            if labels.dom().contains(label) {
                lemma_jump_consistent(g, cur, labels[label]);
                lemma_add_node_consistent(g_goto(g, cur, labels[label]));
            } else {
                lemma_add_node_consistent(g);
            }
        },
        StmtV::BrIf { label, cond, .. } => {
            if labels.dom().contains(label) {
                lemma_add_node_consistent(g);
                lemma_branch_consistent(g_add_node(g), cur, cond, labels[label], next_id(g));
            }
        },
        StmtV::BrTable { index, targets, default } => {
            let ns = table_nodes(labels, targets);
            let g1 = g_add_edges(g, cur, ns);
            let fresh = !labels.dom().contains(default.label);
            let d = if labels.dom().contains(default.label) { labels[default.label] } else { next_id(g1) };
            lemma_table_consistent(g, cur, ns, d, index, fresh);
            let g2 = if fresh { g_add_edge(g_add_node(g1), cur, d) } else { g_add_edge(g1, cur, d) };
            let g3 = g_set_term(g2, cur, TerminatorV::Switch { index, targets: ns, default: d });
            lemma_add_node_consistent(g3);
        },
        StmtV::Return(v) => {
            lemma_set_term_consistent(g, cur, TerminatorV::Return(v));
            lemma_add_node_consistent(g_set_term(g, cur, TerminatorV::Return(v)));
        },
        StmtV::Unreachable => {
            lemma_set_term_consistent(g, cur, TerminatorV::Unreachable);
            lemma_add_node_consistent(g_set_term(g, cur, TerminatorV::Unreachable));
        },
        _ => {
            lemma_push_stmt_consistent(g, cur, s);
        },
    }
}

proof fn lemma_build_stmts_consistent(st: BuildSt, ss: Seq<StmtV>)
    requires
        graph_consistent(st.g),
        st.current < st.g.nodes.len(),
    ensures
        graph_consistent(build_stmts(st, ss).g),
        build_stmts(st, ss).current < build_stmts(st, ss).g.nodes.len(),
    decreases ss,
{
    if ss.len() > 0 {
        lemma_build_stmts_consistent(st, ss.drop_last());
        lemma_build_stmt_consistent(build_stmts(st, ss.drop_last()), ss.last());
    }
}

/// In the graph built from any block, node `i` has ID `i`, and every node
/// passes control only to nodes it has an edge to: the targets of its
/// terminator are among its successors.
pub proof fn lemma_build_cfg_consistent(b: BlockV)
    ensures
        graph_consistent(spec_build_cfg(b)),
        spec_build_cfg(b).nodes.len() >= 2,
{
    let e = GraphV { nodes: Seq::empty(), succs: Seq::empty() };
    lemma_add_node_consistent(e);
    lemma_add_node_consistent(g_add_node(e));
    let g0 = g_add_node(g_add_node(e));
    let st0 = BuildSt { g: g0, labels: Map::empty(), current: 0 };
    lemma_build_stmts_consistent(st0, b.stmts);
    lemma_build_stmts_grows(st0, b.stmts);
    let st = build_stmts(st0, b.stmts);
    lemma_jump_consistent(st.g, st.current, 1);
}

proof fn lemma_build_stmt_grows(st: BuildSt, s: StmtV)
    ensures
        build_stmt(st, s).g.nodes.len() >= st.g.nodes.len(),
    decreases s,
{
    match s {
        StmtV::If { then_block, else_block, .. } => {
            let g = st.g;
            let t = next_id(g);
            let e = (t + 1) as NodeId;
            let m = (t + 2) as NodeId;
            let g1 = g_add_node(g_add_node(g_add_node(g)));
            let g2 = g_set_term(g1, st.current, TerminatorV::Unreachable);
            let g3 = g_add_edge(g_add_edge(g_set_term(g1, st.current, match s { StmtV::If { cond, .. } => TerminatorV::Branch { cond, then_target: t, else_target: e }, _ => TerminatorV::Unreachable }), st.current, t), st.current, e);
            let st1 = BuildSt { g: g3, labels: st.labels, current: t };
            lemma_build_stmts_grows(st1, then_block.stmts);
            let st_t = build_stmts(st1, then_block.stmts);
            let g4 = g_merge(st_t.g, st_t.current, m);
            match else_block {
                Some(b) => {
                    lemma_build_stmts_grows(BuildSt { g: g4, labels: st_t.labels, current: e }, b.stmts);
                },
                None => {},
            }
        },
        StmtV::Block { label, body } => {
            lemma_build_stmts_grows(BuildSt { g: g_add_node(st.g), labels: st.labels.insert(label, next_id(st.g)), current: st.current }, body.stmts);
        },
        StmtV::Loop { label, body } => {
            let h = next_id(st.g);
            let g1 = g_add_node(g_set_label(g_add_node(st.g), h, label));
            lemma_build_stmts_grows(BuildSt { g: g_fallthrough(g1, st.current, h), labels: st.labels.insert(label, h), current: h }, body.stmts);
        },
        StmtV::While { cond, body } => {
            let h = next_id(st.g);
            let b = (h + 1) as NodeId;
            let le = (h + 2) as NodeId;
            let g1 = g_fallthrough(g_add_node(g_add_node(g_add_node(st.g))), st.current, h);
            let g2 = g_set_term(g1, h, TerminatorV::Branch { cond, then_target: b, else_target: le });
            let g3 = g_add_edge(g_add_edge(g2, h, b), h, le);
            lemma_build_stmts_grows(BuildSt { g: g3, labels: st.labels, current: b }, body.stmts);
        },
        StmtV::DoWhile { body, .. } => {
            let b = next_id(st.g);
            let g1 = g_fallthrough(g_add_node(g_add_node(st.g)), st.current, b);
            lemma_build_stmts_grows(BuildSt { g: g1, labels: st.labels, current: b }, body.stmts);
        },
        _ => {},
    }
}

proof fn lemma_build_stmts_grows(st: BuildSt, ss: Seq<StmtV>)
    ensures
        build_stmts(st, ss).g.nodes.len() >= st.g.nodes.len(),
    decreases ss,
{
    if ss.len() > 0 {
        lemma_build_stmts_grows(st, ss.drop_last());
        lemma_build_stmt_grows(build_stmts(st, ss.drop_last()), ss.last());
    }
}

} // verus!
