//! Control flow graph structures and algorithms: the graph itself,
//! construction from IR, dominator analysis and natural-loop detection.
pub mod builder;
pub mod dominators;
pub mod loops;
pub mod determined;

use vstd::prelude::*;
use crate::ir::{Expr, Stmt};

pub use builder::build_cfg;
pub use dominators::DominatorInfo;
pub use loops::{LoopInfo, NaturalLoop};

verus! {

/// Unique identifier for a CFG node: its index in the node list.
pub type NodeId = usize;

/// Control Flow Graph
#[derive(Debug)]
pub struct Cfg {
    /// All nodes in the CFG
    pub nodes: Vec<CfgNode>,
    /// Entry node ID
    pub entry: NodeId,
    /// Exit node ID (for returns)
    pub exit: NodeId,
    /// Predecessor edges: for each node, the set of its predecessors, each listed once
    pub predecessors: Vec<Vec<NodeId>>,
    /// Successor edges: for each node, the list of its successors in insertion order
    pub successors: Vec<Vec<NodeId>>,
}

/// A node in the CFG
#[derive(Debug)]
pub struct CfgNode {
    /// Unique identifier
    pub id: NodeId,
    /// Statements in this basic block
    pub stmts: Vec<Stmt>,
    /// How this block terminates
    pub terminator: Terminator,
    /// Immediate dominator (set by dominator analysis)
    pub idom: Option<NodeId>,
    /// Original WASM block/loop label if applicable
    pub label: Option<u32>,
}

/// How a basic block terminates
#[derive(Debug)]
pub enum Terminator {
    /// Fall through to next node
    Fallthrough(NodeId),
    /// Unconditional jump
    Goto(NodeId),
    /// Conditional branch
    Branch { cond: Expr, then_target: NodeId, else_target: NodeId },
    /// Switch/branch table
    Switch { index: Expr, targets: Vec<NodeId>, default: NodeId },
    /// Return from function
    Return(Option<Expr>),
    /// Unreachable code
    Unreachable,
}

/// Edge classification for DFS traversal
#[derive(Debug, Clone, Copy, PartialEq, Eq, Structural)]
pub enum EdgeKind {
    /// Tree edge (part of DFS tree)
    Tree,
    /// Back edge (target dominates source - indicates loop)
    Back,
    /// Forward edge (source dominates target, not tree edge)
    Forward,
    /// Cross edge (neither dominates)
    Cross,
}

impl Terminator {
    /// The successor node IDs named by a terminator.
    pub open spec fn spec_successors(&self) -> Seq<NodeId> {
        match self {
            Terminator::Fallthrough(n) => seq![*n],
            Terminator::Goto(n) => seq![*n],
            Terminator::Branch { then_target, else_target, .. } => seq![*then_target, *else_target],
            Terminator::Switch { targets, default, .. } => targets@.push(*default),
            Terminator::Return(_) => Seq::empty(),
            Terminator::Unreachable => Seq::empty(),
        }
    }

    /// Get all successor node IDs
    pub fn successors(&self) -> (r: Vec<NodeId>)
        ensures
            r@ == self.spec_successors(),
    {
        match self {
            Terminator::Fallthrough(n) => vec![*n],
            Terminator::Goto(n) => vec![*n],
            Terminator::Branch { then_target, else_target, .. } => vec![*then_target, *else_target],
            Terminator::Switch { targets, default, .. } => {
                let mut succs: Vec<NodeId> = Vec::new();
                let mut i: usize = 0;
                while i < targets.len()
                    invariant
                        i <= targets.len(),
                        succs@ == targets@.subrange(0, i as int),
                    decreases targets.len() - i,
                {
                    succs.push(targets[i]);
                    i += 1;
                }
                assert(targets@.subrange(0, i as int) =~= targets@);
                succs.push(*default);
                succs
            },
            Terminator::Return(_) => Vec::new(),
            Terminator::Unreachable => Vec::new(),
        }
    }
}

impl CfgNode {
    /// Create a new CFG node
    pub fn new(id: NodeId) -> (r: CfgNode)
        ensures
            r.id == id,
            r.stmts@.len() == 0,
            r.terminator is Unreachable,
            r.idom is None,
            r.label is None,
    {
        CfgNode { id, stmts: Vec::new(), terminator: Terminator::Unreachable, idom: None, label: None }
    }

    /// Create a node with statements
    pub fn with_stmts(id: NodeId, stmts: Vec<Stmt>) -> (r: CfgNode)
        ensures
            r.id == id,
            r.stmts == stmts,
            r.terminator is Unreachable,
            r.idom is None,
            r.label is None,
    {
        CfgNode { id, stmts, terminator: Terminator::Unreachable, idom: None, label: None }
    }
}

impl Cfg {
    /// Number of nodes.
    pub open spec fn spec_len(&self) -> nat {
        self.nodes@.len()
    }

    /// Whether the graph has an edge from `u` to `v`.
    pub open spec fn has_edge(&self, u: NodeId, v: NodeId) -> bool {
        u < self.successors@.len() && self.successors@[u as int]@.contains(v)
    }

    /// Well-formedness: one adjacency list per node, edges join nodes, and the
    /// predecessor sets mirror the successor lists.
    pub open spec fn wf(&self) -> bool {
        &&& self.nodes@.len() <= usize::MAX
        &&& self.successors@.len() == self.nodes@.len()
        &&& self.predecessors@.len() == self.nodes@.len()
        &&& forall|u: int, i: int|
            0 <= u < self.successors@.len() && 0 <= i < self.successors@[u]@.len()
                ==> #[trigger] self.successors@[u]@[i] < self.nodes@.len()
        &&& forall|v: int, i: int|
            0 <= v < self.predecessors@.len() && 0 <= i < self.predecessors@[v]@.len()
                ==> #[trigger] self.predecessors@[v]@[i] < self.nodes@.len()
        &&& forall|v: int| 0 <= v < self.predecessors@.len() ==> (#[trigger] self.predecessors@[v])@.no_duplicates()
        &&& forall|u: NodeId, v: NodeId|
            u < self.nodes@.len() && v < self.nodes@.len() ==> (
            #[trigger] self.successors@[u as int]@.contains(v) <==> #[trigger] self.predecessors@[v as int]@.contains(u))
    }

    /// Create a new empty CFG
    pub fn new() -> (r: Cfg)
        ensures
            r.wf(),
            r.spec_len() == 0,
            r.entry == 0,
            r.exit == 0,
    {
        Cfg { nodes: Vec::new(), entry: 0, exit: 0, predecessors: Vec::new(), successors: Vec::new() }
    }

    /// Add a node to the CFG and return its ID
    pub fn add_node(&mut self, node: CfgNode) -> (id: NodeId)
        requires
            old(self).wf(),
            old(self).spec_len() < usize::MAX,
        ensures
            final(self).wf(),
            id == old(self).spec_len(),
            final(self).nodes@ == old(self).nodes@.push(node),
            final(self).entry == old(self).entry,
            final(self).exit == old(self).exit,
            final(self).successors@.len() == old(self).successors@.len() + 1,
            forall|u: int| 0 <= u < id ==> final(self).successors@[u] == old(self).successors@[u],
            final(self).successors@[id as int]@.len() == 0,
            final(self).predecessors@[id as int]@.len() == 0,
            forall|v: int| 0 <= v < id ==> final(self).predecessors@[v] == old(self).predecessors@[v],
    {
        let id = self.nodes.len();
        self.nodes.push(node);
        self.predecessors.push(Vec::new());
        self.successors.push(Vec::new());
        proof {
            let n = self.nodes@.len();
            assert forall|u: NodeId, v: NodeId| u < n && v < n implies (
                #[trigger] self.successors@[u as int]@.contains(v) <==> #[trigger] self.predecessors@[v as int]@.contains(u))
            by {
                let u = u as int;
                let v = v as int;
                if u < id && v < id {
                } else if u == id {
                    assert(self.successors@[u]@.len() == 0);
                    if self.predecessors@[v]@.contains(u as NodeId) {
                        if v < id {
                            let k = choose|k: int| 0 <= k < self.predecessors@[v]@.len() && self.predecessors@[v]@[k] == u;
                            assert(old(self).predecessors@[v]@[k] < old(self).nodes@.len());
                        }
                    }
                } else {
                    assert(self.predecessors@[v]@.len() == 0);
                    if self.successors@[u]@.contains(v as NodeId) {
                        let k = choose|k: int| 0 <= k < self.successors@[u]@.len() && self.successors@[u]@[k] == v;
                        assert(old(self).successors@[u]@[k] < old(self).nodes@.len());
                    }
                }
            }
        }
        id
    }

    /// Add an edge from `from` to `to`
    pub fn add_edge(&mut self, from: NodeId, to: NodeId)
        requires
            old(self).wf(),
            from < old(self).spec_len(),
            to < old(self).spec_len(),
        ensures
            final(self).wf(),
            final(self).nodes == old(self).nodes,
            final(self).entry == old(self).entry,
            final(self).exit == old(self).exit,
            final(self).successors@.len() == old(self).successors@.len(),
            final(self).successors@[from as int]@ == old(self).successors@[from as int]@.push(to),
            forall|u: int| 0 <= u < old(self).successors@.len() && u != from ==> final(self).successors@[u] == old(self).successors@[u],
            forall|u: NodeId, v: NodeId| #[trigger] final(self).has_edge(u, v) <==> (old(self).has_edge(u, v) || (u == from && v == to)),
    {
        let ghost old_self = *self;
        let mut row = self.successors[from].clone();
        row.push(to);
        self.successors.set(from, row);
        let mut already = false;
        let mut i: usize = 0;
        while i < self.predecessors[to].len()
            invariant
                self.predecessors == old_self.predecessors,
                to < self.predecessors@.len(),
                i <= self.predecessors@[to as int]@.len(),
                already == (exists|k: int| 0 <= k < i && self.predecessors@[to as int]@[k] == from),
            decreases self.predecessors@[to as int]@.len() - i,
        {
            if self.predecessors[to][i] == from {
                already = true;
            }
            i += 1;
        }
        assert(already == self.predecessors@[to as int]@.contains(from));
        if !already {
            let mut prow = self.predecessors[to].clone();
            prow.push(from);
            self.predecessors.set(to, prow);
        }
        proof {
            let n = self.nodes@.len();
            assert forall|u: NodeId, v: NodeId| #[trigger] self.has_edge(u, v) <==> (old_self.has_edge(u, v) || (u == from && v == to)) by {
                if u == from {
                    let ns = self.successors@[u as int]@;
                    let os = old_self.successors@[u as int]@;
                    assert(ns == os.push(to));
                    if ns.contains(v) && !os.contains(v) {
                        let k = choose|k: int| 0 <= k < ns.len() && ns[k] == v;
                        if k < os.len() {
                            assert(os[k] == v);
                        }
                    }
                    if os.contains(v) {
                        let k = choose|k: int| 0 <= k < os.len() && os[k] == v;
                        assert(ns[k] == v);
                    }
                    if v == to {
                        assert(ns[os.len() as int] == to);
                    }
                }
            }
            assert forall|u: int, i: int|
                0 <= u < self.successors@.len() && 0 <= i < self.successors@[u]@.len()
                    implies #[trigger] self.successors@[u]@[i] < self.nodes@.len() by {
                if u == from && i < old_self.successors@[u]@.len() {
                    assert(self.successors@[u]@[i] == old_self.successors@[u]@[i]);
                }
            }
            assert forall|v: int, i: int|
                0 <= v < self.predecessors@.len() && 0 <= i < self.predecessors@[v]@.len()
                    implies #[trigger] self.predecessors@[v]@[i] < self.nodes@.len() by {
                if v == to && !already && i < old_self.predecessors@[v]@.len() {
                    assert(self.predecessors@[v]@[i] == old_self.predecessors@[v]@[i]);
                }
            }
            assert forall|v: int| 0 <= v < self.predecessors@.len() implies (#[trigger] self.predecessors@[v])@.no_duplicates() by {
                if v == to && !already {
                    let s = self.predecessors@[v]@;
                    let o = old_self.predecessors@[v]@;
                    assert forall|a: int, b: int| 0 <= a < s.len() && 0 <= b < s.len() && a != b implies s[a] != s[b] by {
                        if a < o.len() && b < o.len() {
                        } else if a == o.len() {
                            assert(s[b] == o[b]);
                            assert(o.contains(s[b]));
                        } else {
                            assert(s[a] == o[a]);
                            assert(o.contains(s[a]));
                        }
                    }
                }
            }
            assert forall|u: NodeId, v: NodeId| u < n && v < n implies (
                #[trigger] self.successors@[u as int]@.contains(v) <==> #[trigger] self.predecessors@[v as int]@.contains(u))
            by {
                assert(self.has_edge(u, v) == self.successors@[u as int]@.contains(v));
                assert(old_self.has_edge(u, v) == old_self.successors@[u as int]@.contains(v));
                if v == to && !already {
                    let s = self.predecessors@[v as int]@;
                    let o = old_self.predecessors@[v as int]@;
                    assert(s == o.push(from));
                    if s.contains(u) && u != from {
                        let k = choose|k: int| 0 <= k < s.len() && s[k] == u;
                        assert(k < o.len());
                        assert(o[k] == u);
                    }
                    if o.contains(u) {
                        let k = choose|k: int| 0 <= k < o.len() && o[k] == u;
                        assert(s[k] == u);
                    }
                    assert(s[o.len() as int] == from);
                }
            }
        }
    }

    /// Get successors of a node (none for an ID that names no node)
    pub fn get_successors(&self, node: NodeId) -> (r: &[NodeId])
        ensures
            node < self.successors@.len() ==> r@ == self.successors@[node as int]@,
            node >= self.successors@.len() ==> r@.len() == 0,
    {
        if node < self.successors.len() {
            self.successors[node].as_slice()
        } else {
            &[]
        }
    }

    /// Get predecessors of a node (none for an ID that names no node)
    pub fn get_predecessors(&self, node: NodeId) -> (r: Vec<NodeId>)
        ensures
            node < self.predecessors@.len() ==> r@ == self.predecessors@[node as int]@,
            node >= self.predecessors@.len() ==> r@.len() == 0,
    {
        if node < self.predecessors.len() {
            self.predecessors[node].clone()
        } else {
            Vec::new()
        }
    }

    /// Get number of nodes
    pub fn len(&self) -> (r: usize)
        ensures
            r == self.spec_len(),
    {
        self.nodes.len()
    }

    /// Check if CFG is empty
    pub fn is_empty(&self) -> (r: bool)
        ensures
            r == (self.spec_len() == 0),
    {
        self.nodes.len() == 0
    }

    /// Get a node by ID
    pub fn get_node(&self, id: NodeId) -> (r: Option<&CfgNode>)
        ensures
            id < self.spec_len() ==> r == Some(&self.nodes@[id as int]),
            id >= self.spec_len() ==> r is None,
    {
        if id < self.nodes.len() {
            Some(&self.nodes[id])
        } else {
            None
        }
    }

    /// Get a node by ID for changing it; the graph's edges stay as they are.
    pub fn get_node_mut(&mut self, id: NodeId) -> (r: Option<&mut CfgNode>)
        ensures
            id < old(self).spec_len() <==> r is Some,
            r is None ==> *final(self) == *old(self),
            final(self).entry == old(self).entry,
            final(self).exit == old(self).exit,
            final(self).successors == old(self).successors,
            final(self).predecessors == old(self).predecessors,
            final(self).nodes@.len() == old(self).nodes@.len(),
            r matches Some(n) ==> *n == old(self).nodes@[id as int],
            r matches Some(n) ==> final(self).nodes@ == old(self).nodes@.update(id as int, *final(n)),
    {
        if id < self.nodes.len() {
            Some(&mut self.nodes[id])
        } else {
            None
        }
    }
}

} // verus!
