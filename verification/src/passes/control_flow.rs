//! Control flow recovery: high-level loops, conditionals, switches and early
//! returns are recovered from labelled blocks and loops.
//!
//! Patterns:
//! - `loop L { body; br_if L cond }` becomes `do { body } while (cond)`;
//! - `block B { loop L { br_if B !cond; body; br L } }` becomes `while (cond) { body }`;
//! - `block L { if (c) { ...; br L } rest }` becomes `if (c) { ... } else { rest }`;
//! - nested blocks dispatched by a `br_table` become a `switch`;
//! - breaks out of a block followed by a `return` or `unreachable` become that
//!   statement itself.
//!
//! The rewriting loops and the recursion into the bodies of recovered `while`
//! loops run on a budget of `u64::MAX` steps.
use vstd::prelude::*;
use crate::ir::{
    Block, BlockV, BranchTarget, Expr, ExprKind, ExprKindV, ExprV, Stmt, StmtV, SwitchCase, SwitchCaseV, cases_view,
    lemma_cases_view_push, lemma_stmts_view, lemma_stmts_view_push, stmt_view, stmts_view,
};
use crate::ir::{Function, Module};
use crate::passes::PassContext;
use crate::passes::simplify::{negate_condition, spec_negate_condition, table_branches_to};

verus! {

/// What a search through statements looks for.
#[derive(Debug, Clone, Copy, PartialEq, Eq, Structural)]
pub enum Probe {
    /// A `br` or `br_if` to the label
    Branch,
    /// A `br_table` with the label among its targets or as its default
    Table,
    /// A `return`
    Return,
    /// A `br` or `br_if` to the label, looked for outside switches and try/finally
    ShallowBranch,
    /// A `br_table` to the label, looked for outside switches and try/finally
    ShallowTable,
}

/// Whether the probe looks into switches and try/finally statements.
pub open spec fn probe_descends_all(p: Probe) -> bool {
    !(p is ShallowBranch || p is ShallowTable)
}

/// The statement itself is what the probe looks for.
pub open spec fn probe_leaf(s: StmtV, p: Probe, l: u32) -> bool {
    match p {
        Probe::Branch | Probe::ShallowBranch => match s {
            StmtV::Br { label, .. } => label == l,
            StmtV::BrIf { label, .. } => label == l,
            _ => false,
        },
        Probe::Table | Probe::ShallowTable => match s {
            StmtV::BrTable { targets, default, .. } => table_branches_to(targets, default, l),
            _ => false,
        },
        Probe::Return => s is Return,
    }
}

/// The statement, or one nested in it, is what the probe looks for.
pub open spec fn probe_stmt(s: StmtV, p: Probe, l: u32) -> bool
    decreases s,
{
    probe_leaf(s, p, l) || match s {
        StmtV::Block { body, .. } => probe(body.stmts, p, l),
        StmtV::Loop { body, .. } => probe(body.stmts, p, l),
        StmtV::DoWhile { body, .. } => probe(body.stmts, p, l),
        StmtV::While { body, .. } => probe(body.stmts, p, l),
        StmtV::If { then_block, else_block, .. } => probe(then_block.stmts, p, l) || match else_block {
            Some(b) => probe(b.stmts, p, l),
            None => false,
        },
        StmtV::Switch { cases, default, .. } => probe_descends_all(p) && (probe_cases(cases, p, l) || match default {
            Some(b) => probe(b.stmts, p, l),
            None => false,
        }),
        StmtV::TryFinally { body, finally_block } => probe_descends_all(p) && (probe(body.stmts, p, l) || probe(
            finally_block.stmts,
            p,
            l,
        )),
        _ => false,
    }
}

/// Some statement of the list is, or holds, what the probe looks for.
pub open spec fn probe(ss: Seq<StmtV>, p: Probe, l: u32) -> bool
    decreases ss,
{
    if ss.len() == 0 {
        false
    } else {
        probe(ss.drop_last(), p, l) || probe_stmt(ss.last(), p, l)
    }
}

/// Some case body holds what the probe looks for.
pub open spec fn probe_cases(cs: Seq<SwitchCaseV>, p: Probe, l: u32) -> bool
    decreases cs,
{
    if cs.len() == 0 {
        false
    } else {
        probe_cases(cs.drop_last(), p, l) || probe(cs.last().body.stmts, p, l)
    }
}

/// Some statement branches to label `l`, by `br`, `br_if` or `br_table`.
pub open spec fn branch_to(ss: Seq<StmtV>, l: u32) -> bool {
    probe(ss, Probe::Branch, l) || probe(ss, Probe::Table, l)
}

/// Whether the statement, or one nested in it, is what the probe looks for.
fn probe_stmt_exec(s: &Stmt, p: Probe, l: u32) -> (r: bool)
    ensures
        r == probe_stmt(s@, p, l),
    decreases s,
{
    let all = match p {
        Probe::ShallowBranch | Probe::ShallowTable => false,
        _ => true,
    };
    let leaf = match p {
        Probe::Branch | Probe::ShallowBranch => match s {
            Stmt::Br { label, .. } => *label == l,
            Stmt::BrIf { label, .. } => *label == l,
            _ => false,
        },
        Probe::Table | Probe::ShallowTable => match s {
            Stmt::BrTable { targets, default, .. } => {
                let mut found = default.label == l;
                let mut i: usize = 0;
                while i < targets.len()
                    invariant
                        i <= targets@.len(),
                        found == (default.label == l || exists|j: int| 0 <= j < i && (#[trigger] targets@[j]).label == l),
                    decreases targets@.len() - i,
                {
                    if targets[i].label == l {
                        found = true;
                    }
                    i += 1;
                }
                found
            },
            _ => false,
        },
        Probe::Return => match s {
            Stmt::Return(_) => true,
            _ => false,
        },
    };
    if leaf {
        return true;
    }
    match s {
        Stmt::Block { body, .. } => probe_exec(&body.stmts, p, l),
        Stmt::Loop { body, .. } => probe_exec(&body.stmts, p, l),
        Stmt::DoWhile { body, .. } => probe_exec(&body.stmts, p, l),
        Stmt::While { body, .. } => probe_exec(&body.stmts, p, l),
        Stmt::If { then_block, else_block, .. } => {
            probe_exec(&then_block.stmts, p, l) || match else_block {
                Some(b) => probe_exec(&b.stmts, p, l),
                None => false,
            }
        },
        Stmt::Switch { cases, default, .. } => {
            all && (probe_cases_exec(cases, p, l) || match default {
                Some(b) => probe_exec(&b.stmts, p, l),
                None => false,
            })
        },
        Stmt::TryFinally { body, finally_block } => all && (probe_exec(&body.stmts, p, l) || probe_exec(
            &finally_block.stmts,
            p,
            l,
        )),
        _ => false,
    }
}

/// Whether some statement of the list is, or holds, what the probe looks for.
pub(crate) fn probe_exec(v: &Vec<Stmt>, p: Probe, l: u32) -> (r: bool)
    ensures
        r == probe(stmts_view(v@), p, l),
    decreases v,
{
    let mut found = false;
    let mut k: usize = 0;
    proof {
        assert(v@.subrange(0, 0) =~= Seq::<Stmt>::empty());
    }
    while k < v.len()
        invariant
            k <= v@.len(),
            found == probe(stmts_view(v@.subrange(0, k as int)), p, l),
        decreases v@.len() - k,
    {
        proof {
            assert(v@.subrange(0, k + 1).drop_last() =~= v@.subrange(0, k as int));
            assert(decreases_to!(v => v@[k as int]));
            lemma_stmts_view_push(v@.subrange(0, k as int), v@[k as int]);
            assert(v@.subrange(0, k + 1) =~= v@.subrange(0, k as int).push(v@[k as int]));
            let sv = stmts_view(v@.subrange(0, k + 1));
            assert(sv.drop_last() =~= stmts_view(v@.subrange(0, k as int)));
        }
        let c = probe_stmt_exec(&v[k], p, l);
        found = found || c;
        k += 1;
    }
    proof {
        assert(v@.subrange(0, k as int) =~= v@);
    }
    found
}

/// Whether some case body holds what the probe looks for.
fn probe_cases_exec(v: &Vec<SwitchCase>, p: Probe, l: u32) -> (r: bool)
    ensures
        r == probe_cases(cases_view(v@), p, l),
    decreases v,
{
    let mut found = false;
    let mut k: usize = 0;
    proof {
        assert(v@.subrange(0, 0) =~= Seq::<SwitchCase>::empty());
    }
    while k < v.len()
        invariant
            k <= v@.len(),
            found == probe_cases(cases_view(v@.subrange(0, k as int)), p, l),
        decreases v@.len() - k,
    {
        proof {
            assert(v@.subrange(0, k + 1).drop_last() =~= v@.subrange(0, k as int));
            assert(decreases_to!(v => v@[k as int]));
            lemma_cases_view_push(v@.subrange(0, k as int), v@[k as int]);
            assert(v@.subrange(0, k + 1) =~= v@.subrange(0, k as int).push(v@[k as int]));
            let cv = cases_view(v@.subrange(0, k + 1));
            assert(cv.drop_last() =~= cases_view(v@.subrange(0, k as int)));
        }
        let c = probe_exec(&v[k].body.stmts, p, l);
        found = found || c;
        k += 1;
    }
    proof {
        assert(v@.subrange(0, k as int) =~= v@);
    }
    found
}

/// Whether some statement of the list branches to label `l`.
fn branch_to_exec(v: &Vec<Stmt>, l: u32) -> (r: bool)
    ensures
        r == branch_to(stmts_view(v@), l),
{
    probe_exec(v, Probe::Branch, l) || probe_exec(v, Probe::Table, l)
}


/// A statement with each `br L` (out of a block) replaced by `repl` and each
/// `br_if L c` by `if (c) { repl }`, in nested statements too.
pub open spec fn rb_stmt(s: StmtV, t: u32, repl: Seq<StmtV>) -> Seq<StmtV>
    decreases s,
{
    match s {
        StmtV::Br { label, is_loop } => if label == t && !is_loop { repl } else { seq![s] },
        StmtV::BrIf { label, cond, is_loop } => if label == t && !is_loop {
            seq![StmtV::If { cond, then_block: BlockV { stmts: repl }, else_block: None }]
        } else {
            seq![s]
        },
        StmtV::Block { label, body } => seq![StmtV::Block { label, body: BlockV { stmts: rb(body.stmts, t, repl) } }],
        StmtV::Loop { label, body } => seq![StmtV::Loop { label, body: BlockV { stmts: rb(body.stmts, t, repl) } }],
        StmtV::If { cond, then_block, else_block } => seq![StmtV::If {
            cond,
            then_block: BlockV { stmts: rb(then_block.stmts, t, repl) },
            else_block: match else_block {
                Some(b) => Some(BlockV { stmts: rb(b.stmts, t, repl) }),
                None => None,
            },
        }],
        StmtV::DoWhile { body, cond } => seq![StmtV::DoWhile { body: BlockV { stmts: rb(body.stmts, t, repl) }, cond }],
        StmtV::While { cond, body } => seq![StmtV::While { cond, body: BlockV { stmts: rb(body.stmts, t, repl) } }],
        StmtV::Switch { index, cases, default } => seq![StmtV::Switch {
            index,
            cases: rb_cases(cases, t, repl),
            default: match default {
                Some(b) => Some(BlockV { stmts: rb(b.stmts, t, repl) }),
                None => None,
            },
        }],
        StmtV::TryFinally { body, finally_block } => seq![StmtV::TryFinally {
            body: BlockV { stmts: rb(body.stmts, t, repl) },
            finally_block: BlockV { stmts: rb(finally_block.stmts, t, repl) },
        }],
        _ => seq![s],
    }
}

/// Statements with breaks out of block `t` replaced, in order.
pub open spec fn rb(ss: Seq<StmtV>, t: u32, repl: Seq<StmtV>) -> Seq<StmtV>
    decreases ss,
{
    if ss.len() == 0 {
        ss
    } else {
        rb(ss.drop_last(), t, repl) + rb_stmt(ss.last(), t, repl)
    }
}

/// Switch cases with breaks out of block `t` replaced.
pub open spec fn rb_cases(cs: Seq<SwitchCaseV>, t: u32, repl: Seq<StmtV>) -> Seq<SwitchCaseV>
    decreases cs,
{
    if cs.len() == 0 {
        cs
    } else {
        rb_cases(cs.drop_last(), t, repl).push(
            SwitchCaseV { values: cs.last().values, body: BlockV { stmts: rb(cs.last().body.stmts, t, repl) } },
        )
    }
}

/// A statement with breaks out of block `old` turned into breaks to `new`.
pub open spec fn rbl_stmt(s: StmtV, old: u32, new: u32) -> StmtV
    decreases s,
{
    match s {
        StmtV::Br { label, is_loop } => if label == old && !is_loop { StmtV::Br { label: new, is_loop } } else { s },
        StmtV::BrIf { label, cond, is_loop } => if label == old && !is_loop {
            StmtV::BrIf { label: new, cond, is_loop }
        } else {
            s
        },
        StmtV::Block { label, body } => StmtV::Block { label, body: BlockV { stmts: rbl(body.stmts, old, new) } },
        StmtV::Loop { label, body } => StmtV::Loop { label, body: BlockV { stmts: rbl(body.stmts, old, new) } },
        StmtV::DoWhile { body, cond } => StmtV::DoWhile { body: BlockV { stmts: rbl(body.stmts, old, new) }, cond },
        StmtV::While { cond, body } => StmtV::While { cond, body: BlockV { stmts: rbl(body.stmts, old, new) } },
        StmtV::If { cond, then_block, else_block } => StmtV::If {
            cond,
            then_block: BlockV { stmts: rbl(then_block.stmts, old, new) },
            else_block: match else_block {
                Some(b) => Some(BlockV { stmts: rbl(b.stmts, old, new) }),
                None => None,
            },
        },
        StmtV::Switch { index, cases, default } => StmtV::Switch {
            index,
            cases: rbl_cases(cases, old, new),
            default: match default {
                Some(b) => Some(BlockV { stmts: rbl(b.stmts, old, new) }),
                None => None,
            },
        },
        StmtV::TryFinally { body, finally_block } => StmtV::TryFinally {
            body: BlockV { stmts: rbl(body.stmts, old, new) },
            finally_block: BlockV { stmts: rbl(finally_block.stmts, old, new) },
        },
        _ => s,
    }
}

/// Statements with breaks out of block `old` turned into breaks to `new`.
pub open spec fn rbl(ss: Seq<StmtV>, old: u32, new: u32) -> Seq<StmtV>
    decreases ss,
{
    if ss.len() == 0 {
        ss
    } else {
        rbl(ss.drop_last(), old, new).push(rbl_stmt(ss.last(), old, new))
    }
}

/// Switch cases with breaks out of block `old` turned into breaks to `new`.
pub open spec fn rbl_cases(cs: Seq<SwitchCaseV>, old: u32, new: u32) -> Seq<SwitchCaseV>
    decreases cs,
{
    if cs.len() == 0 {
        cs
    } else {
        rbl_cases(cs.drop_last(), old, new).push(
            SwitchCaseV { values: cs.last().values, body: BlockV { stmts: rbl(cs.last().body.stmts, old, new) } },
        )
    }
}

pub(crate) proof fn lemma_stmts_view_append(a: Seq<Stmt>, b: Seq<Stmt>)
    ensures
        stmts_view(a + b) == stmts_view(a) + stmts_view(b),
{
    lemma_stmts_view(a);
    lemma_stmts_view(b);
    lemma_stmts_view(a + b);
    assert(stmts_view(a + b) =~= stmts_view(a) + stmts_view(b));
}

pub(crate) fn one(s: Stmt) -> (r: Vec<Stmt>)
    ensures
        stmts_view(r@) == seq![s@],
{
    let mut v: Vec<Stmt> = Vec::new();
    proof {
        lemma_stmts_view_push(v@, s);
        assert(stmts_view(v@) =~= Seq::<StmtV>::empty());
        assert(seq![s@] =~= Seq::<StmtV>::empty().push(s@));
    }
    v.push(s);
    v
}

pub(crate) fn with_block(stmts: Vec<Stmt>) -> (r: Block)
    ensures
        r@ == (BlockV { stmts: stmts_view(stmts@) }),
{
    Block { stmts }
}

/// Replace each break out of block `t` in a statement by `repl`.
fn rb_stmt_exec(s: &Stmt, t: u32, repl: &Vec<Stmt>) -> (r: Vec<Stmt>)
    ensures
        stmts_view(r@) == rb_stmt(s@, t, stmts_view(repl@)),
    decreases s,
{
    match s {
        Stmt::Br { label, is_loop } => {
            if *label == t && !*is_loop {
                crate::ir::duplicate_stmts(repl)
            } else {
                one(s.duplicate())
            }
        },
        Stmt::BrIf { label, cond, is_loop } => {
            if *label == t && !*is_loop {
                one(Stmt::If { cond: cond.duplicate(), then_block: with_block(crate::ir::duplicate_stmts(repl)), else_block: None })
            } else {
                one(s.duplicate())
            }
        },
        Stmt::Block { label, body } => one(Stmt::Block { label: *label, body: with_block(rb_exec(&body.stmts, t, repl)) }),
        Stmt::Loop { label, body } => one(Stmt::Loop { label: *label, body: with_block(rb_exec(&body.stmts, t, repl)) }),
        Stmt::If { cond, then_block, else_block } => {
            let eb = match else_block {
                Some(b) => Some(with_block(rb_exec(&b.stmts, t, repl))),
                None => None,
            };
            one(Stmt::If { cond: cond.duplicate(), then_block: with_block(rb_exec(&then_block.stmts, t, repl)), else_block: eb })
        },
        Stmt::DoWhile { body, cond } => one(Stmt::DoWhile { body: with_block(rb_exec(&body.stmts, t, repl)), cond: cond.duplicate() }),
        Stmt::While { cond, body } => one(Stmt::While { cond: cond.duplicate(), body: with_block(rb_exec(&body.stmts, t, repl)) }),
        Stmt::Switch { index, cases, default } => {
            let d = match default {
                Some(b) => Some(with_block(rb_exec(&b.stmts, t, repl))),
                None => None,
            };
            one(Stmt::Switch { index: index.duplicate(), cases: rb_cases_exec(cases, t, repl), default: d })
        },
        Stmt::TryFinally { body, finally_block } => one(Stmt::TryFinally {
            body: with_block(rb_exec(&body.stmts, t, repl)),
            finally_block: with_block(rb_exec(&finally_block.stmts, t, repl)),
        }),
        _ => one(s.duplicate()),
    }
}

/// Replace each break out of block `t` in the statements by `repl`.
fn rb_exec(v: &Vec<Stmt>, t: u32, repl: &Vec<Stmt>) -> (r: Vec<Stmt>)
    ensures
        stmts_view(r@) == rb(stmts_view(v@), t, stmts_view(repl@)),
    decreases v,
{
    let mut out: Vec<Stmt> = Vec::new();
    let mut k: usize = 0;
    proof {
        assert(v@.subrange(0, 0) =~= Seq::<Stmt>::empty());
        assert(stmts_view(out@) =~= Seq::<StmtV>::empty());
    }
    while k < v.len()
        invariant
            k <= v@.len(),
            stmts_view(out@) == rb(stmts_view(v@.subrange(0, k as int)), t, stmts_view(repl@)),
        decreases v@.len() - k,
    {
        proof {
            assert(v@.subrange(0, k + 1).drop_last() =~= v@.subrange(0, k as int));
            assert(decreases_to!(v => v@[k as int]));
            lemma_stmts_view_push(v@.subrange(0, k as int), v@[k as int]);
            assert(v@.subrange(0, k + 1) =~= v@.subrange(0, k as int).push(v@[k as int]));
            let sv = stmts_view(v@.subrange(0, k + 1));
            assert(sv.drop_last() =~= stmts_view(v@.subrange(0, k as int)));
        }
        let mut piece = rb_stmt_exec(&v[k], t, repl);
        proof {
            lemma_stmts_view_append(out@, piece@);
        }
        out.append(&mut piece);
        k += 1;
    }
    proof {
        assert(v@.subrange(0, k as int) =~= v@);
    }
    out
}

/// Replace each break out of block `t` in the case bodies by `repl`.
fn rb_cases_exec(v: &Vec<SwitchCase>, t: u32, repl: &Vec<Stmt>) -> (r: Vec<SwitchCase>)
    ensures
        cases_view(r@) == rb_cases(cases_view(v@), t, stmts_view(repl@)),
    decreases v,
{
    let mut out: Vec<SwitchCase> = Vec::new();
    let mut k: usize = 0;
    proof {
        assert(v@.subrange(0, 0) =~= Seq::<SwitchCase>::empty());
        assert(cases_view(out@) =~= Seq::<SwitchCaseV>::empty());
    }
    while k < v.len()
        invariant
            k <= v@.len(),
            cases_view(out@) == rb_cases(cases_view(v@.subrange(0, k as int)), t, stmts_view(repl@)),
        decreases v@.len() - k,
    {
        proof {
            assert(v@.subrange(0, k + 1).drop_last() =~= v@.subrange(0, k as int));
            assert(decreases_to!(v => v@[k as int]));
            lemma_cases_view_push(v@.subrange(0, k as int), v@[k as int]);
            assert(v@.subrange(0, k + 1) =~= v@.subrange(0, k as int).push(v@[k as int]));
            let cv = cases_view(v@.subrange(0, k + 1));
            assert(cv.drop_last() =~= cases_view(v@.subrange(0, k as int)));
        }
        let c = SwitchCase { values: crate::ir::copy_u32s(&v[k].values), body: with_block(rb_exec(&v[k].body.stmts, t, repl)) };
        proof {
            lemma_cases_view_push(out@, c);
        }
        out.push(c);
        k += 1;
    }
    proof {
        assert(v@.subrange(0, k as int) =~= v@);
    }
    out
}

/// Turn each break out of block `old` in a statement into a break to `new`.
fn rbl_stmt_exec(s: &Stmt, old: u32, new: u32) -> (r: Stmt)
    ensures
        r@ == rbl_stmt(s@, old, new),
    decreases s,
{
    match s {
        Stmt::Br { label, is_loop } => {
            if *label == old && !*is_loop {
                Stmt::Br { label: new, is_loop: *is_loop }
            } else {
                s.duplicate()
            }
        },
        Stmt::BrIf { label, cond, is_loop } => {
            if *label == old && !*is_loop {
                Stmt::BrIf { label: new, cond: cond.duplicate(), is_loop: *is_loop }
            } else {
                s.duplicate()
            }
        },
        Stmt::Block { label, body } => Stmt::Block { label: *label, body: with_block(rbl_exec(&body.stmts, old, new)) },
        Stmt::Loop { label, body } => Stmt::Loop { label: *label, body: with_block(rbl_exec(&body.stmts, old, new)) },
        Stmt::DoWhile { body, cond } => Stmt::DoWhile { body: with_block(rbl_exec(&body.stmts, old, new)), cond: cond.duplicate() },
        Stmt::While { cond, body } => Stmt::While { cond: cond.duplicate(), body: with_block(rbl_exec(&body.stmts, old, new)) },
        Stmt::If { cond, then_block, else_block } => {
            let eb = match else_block {
                Some(b) => Some(with_block(rbl_exec(&b.stmts, old, new))),
                None => None,
            };
            Stmt::If { cond: cond.duplicate(), then_block: with_block(rbl_exec(&then_block.stmts, old, new)), else_block: eb }
        },
        Stmt::Switch { index, cases, default } => {
            let d = match default {
                Some(b) => Some(with_block(rbl_exec(&b.stmts, old, new))),
                None => None,
            };
            Stmt::Switch { index: index.duplicate(), cases: rbl_cases_exec(cases, old, new), default: d }
        },
        Stmt::TryFinally { body, finally_block } => Stmt::TryFinally {
            body: with_block(rbl_exec(&body.stmts, old, new)),
            finally_block: with_block(rbl_exec(&finally_block.stmts, old, new)),
        },
        _ => s.duplicate(),
    }
}

/// Turn each break out of block `old` in the statements into a break to `new`.
fn rbl_exec(v: &Vec<Stmt>, old: u32, new: u32) -> (r: Vec<Stmt>)
    ensures
        stmts_view(r@) == rbl(stmts_view(v@), old, new),
    decreases v,
{
    let mut out: Vec<Stmt> = Vec::new();
    let mut k: usize = 0;
    proof {
        assert(v@.subrange(0, 0) =~= Seq::<Stmt>::empty());
        assert(stmts_view(out@) =~= Seq::<StmtV>::empty());
    }
    while k < v.len()
        invariant
            k <= v@.len(),
            stmts_view(out@) == rbl(stmts_view(v@.subrange(0, k as int)), old, new),
        decreases v@.len() - k,
    {
        proof {
            assert(v@.subrange(0, k + 1).drop_last() =~= v@.subrange(0, k as int));
            assert(decreases_to!(v => v@[k as int]));
            lemma_stmts_view_push(v@.subrange(0, k as int), v@[k as int]);
            assert(v@.subrange(0, k + 1) =~= v@.subrange(0, k as int).push(v@[k as int]));
            let sv = stmts_view(v@.subrange(0, k + 1));
            assert(sv.drop_last() =~= stmts_view(v@.subrange(0, k as int)));
        }
        let x = rbl_stmt_exec(&v[k], old, new);
        proof {
            lemma_stmts_view_push(out@, x);
        }
        out.push(x);
        k += 1;
    }
    proof {
        assert(v@.subrange(0, k as int) =~= v@);
    }
    out
}

/// Turn each break out of block `old` in the case bodies into a break to `new`.
fn rbl_cases_exec(v: &Vec<SwitchCase>, old: u32, new: u32) -> (r: Vec<SwitchCase>)
    ensures
        cases_view(r@) == rbl_cases(cases_view(v@), old, new),
    decreases v,
{
    let mut out: Vec<SwitchCase> = Vec::new();
    let mut k: usize = 0;
    proof {
        assert(v@.subrange(0, 0) =~= Seq::<SwitchCase>::empty());
        assert(cases_view(out@) =~= Seq::<SwitchCaseV>::empty());
    }
    while k < v.len()
        invariant
            k <= v@.len(),
            cases_view(out@) == rbl_cases(cases_view(v@.subrange(0, k as int)), old, new),
        decreases v@.len() - k,
    {
        proof {
            assert(v@.subrange(0, k + 1).drop_last() =~= v@.subrange(0, k as int));
            assert(decreases_to!(v => v@[k as int]));
            lemma_cases_view_push(v@.subrange(0, k as int), v@[k as int]);
            assert(v@.subrange(0, k + 1) =~= v@.subrange(0, k as int).push(v@[k as int]));
            let cv = cases_view(v@.subrange(0, k + 1));
            assert(cv.drop_last() =~= cases_view(v@.subrange(0, k as int)));
        }
        let c = SwitchCase { values: crate::ir::copy_u32s(&v[k].values), body: with_block(rbl_exec(&v[k].body.stmts, old, new)) };
        proof {
            lemma_cases_view_push(out@, c);
        }
        out.push(c);
        k += 1;
    }
    proof {
        assert(v@.subrange(0, k as int) =~= v@);
    }
    out
}


/// The budget of rewriting steps and of nested recoveries.
pub open spec fn budget() -> nat {
    u64::MAX as nat
}

/// A block `L` whose body opens with `if (c) { ...; br L }` and has more
/// after it, with no other branch to `L`, becomes `if (c) { ... } else { rest }`.
pub open spec fn try_if_else(label: u32, bs: Seq<StmtV>) -> Option<StmtV> {
    if bs.len() >= 2 {
        match bs[0] {
            StmtV::If { cond, then_block, else_block: None } => {
                let ts = then_block.stmts;
                if ts.len() > 0 && ts.last() == (StmtV::Br { label, is_loop: false })
                    && !branch_to(bs.subrange(1, bs.len() as int), label)
                    && !branch_to(ts.drop_last(), label) {
                    Some(StmtV::If {
                        cond,
                        then_block: BlockV { stmts: ts.drop_last() },
                        else_block: Some(BlockV { stmts: bs.subrange(1, bs.len() as int) }),
                    })
                } else {
                    None
                }
            },
            _ => None,
        }
    } else {
        None
    }
}

pub open spec fn if_else_stmt(s: StmtV) -> (Seq<StmtV>, bool) {
    match s {
        StmtV::Block { label, body } => match try_if_else(label, body.stmts) {
            Some(t) => (seq![t], true),
            None => (seq![s], false),
        },
        _ => (seq![s], false),
    }
}

/// A block that ends with a break out of itself loses that break; with no
/// other branch to it, its body takes its place.
pub open spec fn ending_break_stmt(s: StmtV) -> (Seq<StmtV>, bool) {
    match s {
        StmtV::Block { label, body } => {
            if body.stmts.len() > 0 && body.stmts.last() == (StmtV::Br { label, is_loop: false }) {
                let b2 = body.stmts.drop_last();
                if !branch_to(b2, label) {
                    (b2, true)
                } else {
                    (seq![StmtV::Block { label, body: BlockV { stmts: b2 } }], true)
                }
            } else {
                (seq![s], false)
            }
        },
        _ => (seq![s], false),
    }
}

/// `loop L { body; br_if L c }` (with an optional `br` out after it) becomes
/// `do { body } while (c)`, followed by that `br`.
pub open spec fn try_do_while(label: u32, bs: Seq<StmtV>) -> Option<(StmtV, Seq<StmtV>)> {
    let len = bs.len();
    if len == 0 {
        None
    } else {
        let two = len >= 2 && (bs[len - 2] matches StmtV::BrIf { label: l, is_loop: true, .. } && l == label)
            && (bs[len - 1] matches StmtV::Br { is_loop: false, .. });
        let one = bs[len - 1] matches StmtV::BrIf { label: l, is_loop: true, .. } && l == label;
        if !two && !one {
            None
        } else {
            let idx: int = if two { len - 2 } else { len - 1 };
            if branch_to(bs.subrange(0, idx), label) {
                None
            } else {
                match bs[idx] {
                    StmtV::BrIf { cond, .. } => Some((
                        StmtV::DoWhile { body: BlockV { stmts: bs.subrange(0, idx) }, cond },
                        if two { seq![bs[len - 1]] } else { Seq::empty() },
                    )),
                    _ => None,
                }
            }
        }
    }
}

pub open spec fn do_while_stmt(s: StmtV) -> (Seq<StmtV>, bool) {
    match s {
        StmtV::Loop { label, body } => match try_do_while(label, body.stmts) {
            Some((dw, trailing)) => (seq![dw] + trailing, true),
            None => (seq![s], false),
        },
        _ => (seq![s], false),
    }
}

/// A block with no branch to it, from inside or from a `br_table` of the
/// enclosing list, is replaced by its body.
pub open spec fn unused_stmt(s: StmtV, all: Seq<StmtV>) -> (Seq<StmtV>, bool) {
    match s {
        StmtV::Block { label, body } => {
            if !branch_to(body.stmts, label) && !probe(all, Probe::Table, label) {
                (body.stmts, true)
            } else {
                (seq![s], false)
            }
        },
        _ => (seq![s], false),
    }
}

/// Which statement-wise rewrite a pass applies.
#[derive(Debug, Clone, Copy, PartialEq, Eq, Structural)]
pub enum Rewrite {
    IfElse,
    EndingBreak,
    DoWhile,
    Unused,
}

pub open spec fn rewrite_stmt(r: Rewrite, s: StmtV, all: Seq<StmtV>) -> (Seq<StmtV>, bool) {
    match r {
        Rewrite::IfElse => if_else_stmt(s),
        Rewrite::EndingBreak => ending_break_stmt(s),
        Rewrite::DoWhile => do_while_stmt(s),
        Rewrite::Unused => unused_stmt(s, all),
    }
}

/// A statement-wise rewrite over a list; whether any statement changed.
pub open spec fn rewrite_all(r: Rewrite, ss: Seq<StmtV>, all: Seq<StmtV>) -> (Seq<StmtV>, bool)
    decreases ss.len(),
{
    if ss.len() == 0 {
        (ss, false)
    } else {
        let (a, c) = rewrite_all(r, ss.drop_last(), all);
        let (b, d) = rewrite_stmt(r, ss.last(), all);
        (a + b, c || d)
    }
}

/// The position of the first `br_if` out of block `label` from `k` on.
pub open spec fn first_br_if(bs: Seq<StmtV>, label: u32, k: int) -> Option<int>
    decreases bs.len() - k,
{
    if k < 0 || k >= bs.len() {
        None
    } else if bs[k] matches StmtV::BrIf { label: l, is_loop: false, .. } && l == label {
        Some(k)
    } else {
        first_br_if(bs, label, k + 1)
    }
}

/// A block whose only branch to itself is one `br_if`: what comes before it,
/// its condition, and what comes after it.
pub open spec fn single_break(s: StmtV) -> Option<(Seq<StmtV>, ExprV, Seq<StmtV>)> {
    match s {
        StmtV::Block { label, body } => match first_br_if(body.stmts, label, 0) {
            Some(idx) => {
                let before = body.stmts.subrange(0, idx);
                let after = body.stmts.subrange(idx + 1, body.stmts.len() as int);
                if branch_to(before, label) || branch_to(after, label) {
                    None
                } else {
                    match body.stmts[idx] {
                        StmtV::BrIf { cond, .. } => Some((before, cond, after)),
                        _ => None,
                    }
                }
            },
            None => None,
        },
        _ => None,
    }
}

/// `block L { before; br_if L c; after }` becomes `before; if (!c) { after }`.
pub open spec fn single_break_loop(ss: Seq<StmtV>, i: int, fuel: nat) -> (Seq<StmtV>, bool)
    decreases fuel,
{
    if fuel == 0 || i < 0 || i >= ss.len() {
        (ss, false)
    } else {
        match single_break(ss[i]) {
            Some((before, cond, after)) => {
                let ins = if after.len() > 0 {
                    before.push(StmtV::If { cond: spec_negate_condition(cond), then_block: BlockV { stmts: after }, else_block: None })
                } else {
                    before
                };
                let ss2 = ss.subrange(0, i) + ins + ss.subrange(i + 1, ss.len() as int);
                (single_break_loop(ss2, i, (fuel - 1) as nat).0, true)
            },
            None => single_break_loop(ss, i + 1, (fuel - 1) as nat),
        }
    }
}

/// The statement is a plain side effect: an assignment, a store or an
/// expression.
pub open spec fn is_epilog(s: StmtV) -> bool {
    s is LocalSet || s is GlobalSet || s is Store || s is Expr
}

/// Statements with their own body spliced in place of the block at `i`.
pub open spec fn splice(ss: Seq<StmtV>, i: int, ins: Seq<StmtV>) -> Seq<StmtV> {
    ss.subrange(0, i) + ins + ss.subrange(i + 1, ss.len() as int)
}

/// A block followed by `local = v; return local` or by `return v`: breaks out
/// of it return the value; a block followed by side effects and a final
/// `return v` (with no `return` inside) becomes `try { ... } finally { ... }`.
pub open spec fn early_return_step(ss: Seq<StmtV>, i: int) -> Option<Seq<StmtV>> {
    let len = ss.len();
    if i < 0 || i >= len {
        None
    } else {
        match ss[i] {
            StmtV::Block { label, body } => {
                let no_table = !probe(body.stmts, Probe::Table, label);
                let p2 = i + 2 < len && no_table && (ss[i + 1] matches StmtV::LocalSet { local: sl, .. }
                    && (ss[i + 2] matches StmtV::Return(Some(e)) && e.kind == ExprKindV::Local(sl)));
                let p1 = i + 1 < len && no_table && (ss[i + 1] matches StmtV::Return(Some(_)));
                let p3 = i + 2 < len && no_table && !probe(body.stmts, Probe::Return, 0)
                    && (ss.last() matches StmtV::Return(Some(_)))
                    && (forall|j: int| i + 1 <= j < len - 1 ==> is_epilog(#[trigger] ss[j]));
                if p2 {
                    match ss[i + 1] {
                        StmtV::LocalSet { value, .. } => Some(splice(ss, i, rb(body.stmts, label, seq![StmtV::Return(Some(value))]))),
                        _ => None,
                    }
                } else if p1 {
                    Some(splice(ss, i, rb(body.stmts, label, seq![ss[i + 1]])))
                } else if p3 {
                    let ret = ss.last();
                    Some(ss.subrange(0, i).push(StmtV::TryFinally {
                        body: BlockV { stmts: rb(body.stmts, label, seq![ret]).push(ret) },
                        finally_block: BlockV { stmts: ss.subrange(i + 1, len - 1) },
                    }))
                } else {
                    None
                }
            },
            _ => None,
        }
    }
}

pub open spec fn early_return_loop(ss: Seq<StmtV>, i: int, fuel: nat) -> (Seq<StmtV>, bool)
    decreases fuel,
{
    if fuel == 0 || i < 0 || i >= ss.len() {
        (ss, false)
    } else {
        match early_return_step(ss, i) {
            Some(n) => (early_return_loop(n, i, (fuel - 1) as nat).0, true),
            None => early_return_loop(ss, i + 1, (fuel - 1) as nat),
        }
    }
}

/// A block followed by `unreachable`: breaks out of it become `unreachable`.
pub open spec fn unreachable_step(ss: Seq<StmtV>, i: int) -> Option<Seq<StmtV>> {
    if i < 0 || i + 1 >= ss.len() {
        None
    } else {
        match ss[i] {
            StmtV::Block { label, body } => if ss[i + 1] is Unreachable && !probe(body.stmts, Probe::Table, label) {
                Some(splice(ss, i, rb(body.stmts, label, seq![StmtV::Unreachable])))
            } else {
                None
            },
            _ => None,
        }
    }
}

pub open spec fn unreachable_loop(ss: Seq<StmtV>, i: int, fuel: nat) -> (Seq<StmtV>, bool)
    decreases fuel,
{
    if fuel == 0 || i < 0 || i + 1 >= ss.len() {
        (ss, false)
    } else {
        match unreachable_step(ss, i) {
            Some(n) => (unreachable_loop(n, i, (fuel - 1) as nat).0, true),
            None => unreachable_loop(ss, i + 1, (fuel - 1) as nat),
        }
    }
}

/// The chain of blocks that each open with the next: their labels, the
/// statements after each inner block, and the innermost body.
pub open spec fn peel(bs: Seq<StmtV>) -> Option<(Seq<u32>, Seq<Seq<StmtV>>, Seq<StmtV>)>
    decreases bs,
{
    if bs.len() == 0 {
        None
    } else {
        match bs[0] {
            StmtV::Block { label, body } => match peel(body.stmts) {
                Some((ls, ts, inner)) => Some((seq![label] + ls, seq![bs.subrange(1, bs.len() as int)] + ts, inner)),
                None => None,
            },
            _ => Some((Seq::empty(), Seq::empty(), bs)),
        }
    }
}

/// The position of the first `br_table` from `k` on.
pub open spec fn first_table(bs: Seq<StmtV>, k: int) -> Option<int>
    decreases bs.len() - k,
{
    if k < 0 || k >= bs.len() {
        None
    } else if bs[k] is BrTable {
        Some(k)
    } else {
        first_table(bs, k + 1)
    }
}

/// The last position of `l` in `ls`.
pub open spec fn last_index(ls: Seq<u32>, l: u32) -> Option<int>
    decreases ls.len(),
{
    if ls.len() == 0 {
        None
    } else if ls.last() == l {
        Some(ls.len() - 1)
    } else {
        last_index(ls.drop_last(), l)
    }
}

/// The indices of the table entries that jump to `l`, in order.
pub open spec fn case_values(targets: Seq<BranchTarget>, l: u32) -> Seq<u32>
    decreases targets.len(),
{
    if targets.len() == 0 {
        Seq::empty()
    } else {
        let r = case_values(targets.drop_last(), l);
        if targets.last().label == l { r.push((targets.len() - 1) as u32) } else { r }
    }
}

/// The statements branch to a label of the chain other than the outermost.
pub open spec fn refs_chain(body: Seq<StmtV>, all: Seq<u32>, outer: u32) -> bool {
    exists|i: int| 0 <= i < all.len() && all[i] != outer && branch_to(body, #[trigger] all[i])
}

/// A case body: a final break out of the switch is dropped, and other breaks
/// out of it become breaks out of the switch itself (label `u32::MAX`).
pub open spec fn case_body(body: Seq<StmtV>, outer: u32) -> Seq<StmtV> {
    let b = if body.len() > 0 && body.last() == (StmtV::Br { label: outer, is_loop: false }) {
        body.drop_last()
    } else {
        body
    };
    rbl(b, outer, u32::MAX)
}

/// The cases taken from the tails of the chain: the tail after the block
/// labelled `all[i + 1]` is the case of the entries that jump to that label.
pub open spec fn tail_cases(ts: Seq<Seq<StmtV>>, all: Seq<u32>, targets: Seq<BranchTarget>, outer: u32) -> Option<Seq<SwitchCaseV>>
    decreases ts.len(),
{
    if ts.len() == 0 {
        Some(Seq::empty())
    } else {
        match tail_cases(ts.drop_last(), all, targets, outer) {
            None => None,
            Some(cs) => {
                let ti = ts.len() - 1;
                let values = case_values(targets, all[ti + 1]);
                if values.len() == 0 {
                    Some(cs)
                } else if refs_chain(ts[ti], all, outer) {
                    None
                } else {
                    Some(cs.push(SwitchCaseV { values, body: BlockV { stmts: case_body(ts[ti], outer) } }))
                }
            },
        }
    }
}

/// The tail can fall through: it does not end with a branch, `return` or
/// `unreachable`.
pub open spec fn falls_through(t: Seq<StmtV>) -> bool {
    !(t.len() > 0 && (t.last() is Br || t.last() is Return || t.last() is Unreachable || t.last() is BrTable))
}

/// The smallest value of a case (`u32::MAX` for none).
pub open spec fn min_value(vs: Seq<u32>) -> u32
    decreases vs.len(),
{
    if vs.len() == 0 {
        u32::MAX
    } else {
        let m = min_value(vs.drop_last());
        if vs.last() < m { vs.last() } else { m }
    }
}

/// Where a case with key `k` goes among sorted cases: after every case whose
/// key is not larger.
pub open spec fn insert_pos(cs: Seq<SwitchCaseV>, k: u32, j: int) -> int
    decreases cs.len() - j,
{
    if j < 0 || j >= cs.len() {
        cs.len() as int
    } else if min_value(cs[j].values) > k {
        j
    } else {
        insert_pos(cs, k, j + 1)
    }
}

/// Cases sorted by their smallest value; cases with equal keys keep their order.
pub open spec fn sort_cases(cs: Seq<SwitchCaseV>) -> Seq<SwitchCaseV>
    decreases cs.len(),
{
    if cs.len() == 0 {
        cs
    } else {
        let sorted = sort_cases(cs.drop_last());
        let c = cs.last();
        let p = insert_pos(sorted, min_value(c.values), 0);
        sorted.subrange(0, p) + seq![c] + sorted.subrange(p, sorted.len() as int)
    }
}

/// A chain of nested blocks at `idx` dispatched by a `br_table` in the
/// innermost one becomes a `switch`; also how many statements after the chain
/// became the body of a case.
pub open spec fn extract_switch(ss: Seq<StmtV>, idx: int) -> Option<(StmtV, nat)> {
    if idx < 0 || idx >= ss.len() {
        None
    } else {
        match ss[idx] {
            StmtV::Block { label: outer, body } => match peel(body.stmts) {
                None => None,
                Some((ls, ts, inner)) => {
                    let all = seq![outer] + ls;
                    match first_table(inner, 0) {
                        None => None,
                        Some(bt) => match inner[bt] {
                            StmtV::BrTable { index, targets, default } => {
                                if !(forall|j: int| 0 <= j < targets.len() ==> all.contains(#[trigger] targets[j].label))
                                    || !all.contains(default.label) {
                                    None
                                } else {
                                    match tail_cases(ts, all, targets, outer) {
                                        None => None,
                                        Some(cs) => {
                                            let parent = ss.subrange(idx + 1, ss.len() as int);
                                            let ov = case_values(targets, outer);
                                            let any_falls = exists|t: int| 0 <= t < ts.len() && falls_through(#[trigger] ts[t]);
                                            if ov.len() > 0 && ((any_falls && parent.len() > 0) || refs_chain(parent, all, outer)) {
                                                None
                                            } else if bt > 0 {
                                                None
                                            } else {
                                                let cs2 = if ov.len() > 0 {
                                                    cs.push(SwitchCaseV { values: ov, body: BlockV { stmts: parent } })
                                                } else {
                                                    cs
                                                };
                                                let consumed_tail: nat = if ov.len() > 0 { parent.len() } else { 0 };
                                                let ci = match last_index(all, default.label) {
                                                    Some(i) => i,
                                                    None => 0,
                                                };
                                                let default_bail = default.label != outer && ci > 0 && refs_chain(ts[ci - 1], all, outer);
                                                if default_bail || cs2.len() == 0 {
                                                    None
                                                } else {
                                                    let (dblock, consumed) = if default.label == outer {
                                                        (None::<BlockV>, consumed_tail)
                                                    } else if ci > 0 {
                                                        let d2 = case_body(ts[ci - 1], outer);
                                                        if d2.len() == 0 { (None, 0nat) } else { (Some(BlockV { stmts: d2 }), 0nat) }
                                                    } else {
                                                        (None, 0nat)
                                                    };
                                                    Some((StmtV::Switch { index, cases: sort_cases(cs2), default: dblock }, consumed))
                                                }
                                            }
                                        },
                                    }
                                }
                            },
                            _ => None,
                        },
                    }
                },
            },
            _ => None,
        }
    }
}

proof fn lemma_last_index(ls: Seq<u32>, l: u32)
    ensures
        last_index(ls, l) is Some <==> ls.contains(l),
        last_index(ls, l) matches Some(i) ==> 0 <= i < ls.len() && ls[i] == l,
    decreases ls.len(),
{
    if ls.len() > 0 && ls.last() != l {
        lemma_last_index(ls.drop_last(), l);
        if ls.contains(l) {
            let i = choose|i: int| 0 <= i < ls.len() && ls[i] == l;
            assert(ls.drop_last()[i] == l);
        }
        if ls.drop_last().contains(l) {
            let i = choose|i: int| 0 <= i < ls.len() - 1 && ls.drop_last()[i] == l;
            assert(ls[i] == l);
        }
    } else if ls.len() > 0 {
        assert(ls[ls.len() - 1] == l);
    }
}

proof fn lemma_peel_lengths(bs: Seq<StmtV>)
    ensures
        peel(bs) matches Some((ls, ts, inner)) ==> ls.len() == ts.len(),
    decreases bs,
{
    if bs.len() > 0 {
        if let StmtV::Block { label, body } = bs[0] {
            assert(decreases_to!(bs => bs[0]));
            lemma_peel_lengths(body.stmts);
        }
    }
}

proof fn lemma_case_values(targets: Seq<BranchTarget>, l: u32)
    requires
        targets.len() <= u32::MAX,
    ensures
        forall|k: int| 0 <= k < case_values(targets, l).len() ==> {
            let v = #[trigger] case_values(targets, l)[k];
            v < targets.len() && targets[v as int].label == l
        },
        (exists|v: int| 0 <= v < targets.len() && #[trigger] targets[v].label == l) ==> case_values(targets, l).len() > 0,
        forall|v: int| 0 <= v < targets.len() && #[trigger] targets[v].label == l ==> case_values(targets, l).contains(v as u32),
    decreases targets.len(),
{
    if targets.len() > 0 {
        let t = targets.drop_last();
        lemma_case_values(t, l);
        let r = case_values(t, l);
        assert forall|k: int| 0 <= k < case_values(targets, l).len() implies {
            let v = #[trigger] case_values(targets, l)[k];
            v < targets.len() && targets[v as int].label == l
        } by {
            if k < r.len() {
                assert(case_values(targets, l)[k] == r[k]);
                assert(t[r[k] as int] == targets[r[k] as int]);
            }
        }
        if exists|v: int| 0 <= v < targets.len() && #[trigger] targets[v].label == l {
            let v = choose|v: int| 0 <= v < targets.len() && #[trigger] targets[v].label == l;
            if v < targets.len() - 1 {
                assert(t[v].label == l);
            }
        }
        assert forall|v: int| 0 <= v < targets.len() && #[trigger] targets[v].label == l implies case_values(targets, l).contains(v as u32) by {
            let cv = case_values(targets, l);
            if v < targets.len() - 1 {
                assert(t[v].label == l);
                let j = choose|j: int| 0 <= j < r.len() && r[j] == v as u32;
                assert(cv[j] == v as u32);
            } else {
                assert(cv[cv.len() - 1] == v as u32);
            }
        }
    }
}

proof fn lemma_tail_cases_has(ts: Seq<Seq<StmtV>>, all: Seq<u32>, targets: Seq<BranchTarget>, outer: u32, ti: int)
    requires
        0 <= ti < ts.len(),
        tail_cases(ts, all, targets, outer) is Some,
        case_values(targets, all[ti + 1]).len() > 0,
    ensures
        tail_cases(ts, all, targets, outer)->0.contains(
            SwitchCaseV { values: case_values(targets, all[ti + 1]), body: BlockV { stmts: case_body(ts[ti], outer) } },
        ),
    decreases ts.len(),
{
    let cs = tail_cases(ts, all, targets, outer)->0;
    let c = SwitchCaseV { values: case_values(targets, all[ti + 1]), body: BlockV { stmts: case_body(ts[ti], outer) } };
    let prev = tail_cases(ts.drop_last(), all, targets, outer);
    if ti < ts.len() - 1 {
        assert(ts.drop_last()[ti] == ts[ti]);
        lemma_tail_cases_has(ts.drop_last(), all, targets, outer, ti);
        let p = prev->0;
        let j = choose|j: int| 0 <= j < p.len() && p[j] == c;
        assert(cs[j] == c);
    } else {
        assert(cs.last() == c);
        assert(cs[cs.len() - 1] == c);
    }
}

proof fn lemma_insert_pos_range(cs: Seq<SwitchCaseV>, k: u32, j: int)
    requires
        0 <= j,
    ensures
        0 <= insert_pos(cs, k, j) <= cs.len(),
    decreases cs.len() - j,
{
    if j < cs.len() && min_value(cs[j].values) <= k {
        lemma_insert_pos_range(cs, k, j + 1);
    }
}

proof fn lemma_sort_cases_keeps(cs: Seq<SwitchCaseV>, c: SwitchCaseV)
    requires
        cs.contains(c),
    ensures
        sort_cases(cs).contains(c),
    decreases cs.len(),
{
    let sorted = sort_cases(cs.drop_last());
    let last = cs.last();
    let p = insert_pos(sorted, min_value(last.values), 0);
    lemma_insert_pos_range(sorted, min_value(last.values), 0);
    let out = sorted.subrange(0, p) + seq![last] + sorted.subrange(p, sorted.len() as int);
    if c == last {
        assert(out[p] == c);
    } else {
        let i = choose|i: int| 0 <= i < cs.len() && cs[i] == c;
        assert(cs.drop_last()[i] == c);
        lemma_sort_cases_keeps(cs.drop_last(), c);
        let j = choose|j: int| 0 <= j < sorted.len() && sorted[j] == c;
        if j < p {
            assert(out[j] == c);
        } else {
            assert(out[j + 1] == c);
        }
    }
}

/// Law: a switch recovered from a table keeps every entry. Each entry that
/// jumps to a block of the chain is among the values of a case whose values
/// all jump to that same block; the entries that jump out of the whole chain
/// make one case whose code is the code that follows the chain.
pub proof fn lemma_switch_keeps_entries(
    ss: Seq<StmtV>,
    idx: int,
    outer: u32,
    body: BlockV,
    ls: Seq<u32>,
    ts: Seq<Seq<StmtV>>,
    inner: Seq<StmtV>,
    index: ExprV,
    targets: Seq<BranchTarget>,
    dt: BranchTarget,
    v: int,
)
    requires
        0 <= idx < ss.len(),
        ss[idx] == (StmtV::Block { label: outer, body }),
        peel(body.stmts) == Some((ls, ts, inner)),
        inner.len() > 0,
        inner[0] == (StmtV::BrTable { index, targets, default: dt }),
        targets.len() <= u32::MAX,
        0 <= v < targets.len(),
        extract_switch(ss, idx) is Some,
    ensures
        ({
            let sw = extract_switch(ss, idx)->0;
            sw.0 matches StmtV::Switch { cases, .. } && exists|k: int| {
                &&& 0 <= k < cases.len()
                &&& #[trigger] cases[k].values.contains(v as u32)
                &&& forall|j: int| 0 <= j < cases[k].values.len()
                    ==> (#[trigger] cases[k].values[j]) < targets.len() && targets[cases[k].values[j] as int].label == targets[v].label
                &&& targets[v].label == outer ==> cases[k].body.stmts == ss.subrange(idx + 1, ss.len() as int)
            }
        }),
{
    let all = seq![outer] + ls;
    let l = targets[v].label;
    assert(first_table(inner, 0) == Some(0int));
    lemma_peel_lengths(body.stmts);
    lemma_case_values(targets, l);
    let cs = tail_cases(ts, all, targets, outer)->0;
    let parent = ss.subrange(idx + 1, ss.len() as int);
    let ov = case_values(targets, outer);
    let cs2 = if ov.len() > 0 { cs.push(SwitchCaseV { values: ov, body: BlockV { stmts: parent } }) } else { cs };
    let c = if l == outer {
        SwitchCaseV { values: ov, body: BlockV { stmts: parent } }
    } else {
        let ci = last_index(all, l)->0;
        lemma_last_index(all, l);
        assert(all.contains(l));
        assert(ci >= 1);
        assert(all[(ci - 1) + 1] == l);
        lemma_tail_cases_has(ts, all, targets, outer, ci - 1);
        SwitchCaseV { values: case_values(targets, l), body: BlockV { stmts: case_body(ts[ci - 1], outer) } }
    };
    assert(cs2.contains(c)) by {
        if l == outer {
            assert(cs2[cs2.len() - 1] == c);
        } else {
            let j = choose|j: int| 0 <= j < cs.len() && cs[j] == c;
            assert(cs2[j] == c);
        }
    }
    lemma_sort_cases_keeps(cs2, c);
    let cases = sort_cases(cs2);
    let k = choose|k: int| 0 <= k < cases.len() && cases[k] == c;
    let sw = extract_switch(ss, idx)->0;
    assert(sw.0 matches StmtV::Switch { cases: cs3, .. } && cs3 == cases);
    assert(cases[k].values.contains(v as u32));
}

/// Law: no code reached through a `br_table`'s default is lost. When the
/// default target is a block of the dispatched chain that some table entry
/// also jumps to, the switch has a case, holding entries that jump there, whose
/// code is the default arm's (an absent default arm standing for no code).
pub proof fn lemma_switch_default_keeps_code(
    ss: Seq<StmtV>,
    idx: int,
    outer: u32,
    body: BlockV,
    ls: Seq<u32>,
    ts: Seq<Seq<StmtV>>,
    inner: Seq<StmtV>,
    index: ExprV,
    targets: Seq<BranchTarget>,
    dt: BranchTarget,
)
    requires
        0 <= idx < ss.len(),
        ss[idx] == (StmtV::Block { label: outer, body }),
        peel(body.stmts) == Some((ls, ts, inner)),
        inner.len() > 0,
        inner[0] == (StmtV::BrTable { index, targets, default: dt }),
        targets.len() <= u32::MAX,
        dt.label != outer,
        exists|v: int| 0 <= v < targets.len() && #[trigger] targets[v].label == dt.label,
        extract_switch(ss, idx) is Some,
    ensures
        ({
            let sw = extract_switch(ss, idx)->0;
            sw.0 matches StmtV::Switch { cases, default, .. } && exists|k: int| {
                &&& 0 <= k < cases.len()
                &&& cases[k].values.len() > 0
                &&& forall|j: int| 0 <= j < cases[k].values.len()
                    ==> (#[trigger] cases[k].values[j]) < targets.len() && targets[cases[k].values[j] as int].label == dt.label
                &&& match default {
                    Some(d) => cases[k].body == d,
                    None => cases[k].body.stmts.len() == 0,
                }
            }
        }),
{
    let all = seq![outer] + ls;
    assert(first_table(inner, 0) == Some(0int));
    lemma_peel_lengths(body.stmts);
    lemma_case_values(targets, dt.label);
    let cs = tail_cases(ts, all, targets, outer)->0;
    let ci = last_index(all, dt.label)->0;
    lemma_last_index(all, dt.label);
    assert(ci >= 1);
    assert(all[ci] == dt.label);
    assert(all[(ci - 1) + 1] == dt.label);
    lemma_tail_cases_has(ts, all, targets, outer, ci - 1);
    let c = SwitchCaseV { values: case_values(targets, dt.label), body: BlockV { stmts: case_body(ts[ci - 1], outer) } };
    let parent = ss.subrange(idx + 1, ss.len() as int);
    let ov = case_values(targets, outer);
    let cs2 = if ov.len() > 0 { cs.push(SwitchCaseV { values: ov, body: BlockV { stmts: parent } }) } else { cs };
    assert(cs2.contains(c)) by {
        let j = choose|j: int| 0 <= j < cs.len() && cs[j] == c;
        assert(cs2[j] == c);
    }
    lemma_sort_cases_keeps(cs2, c);
    let cases = sort_cases(cs2);
    let k = choose|k: int| 0 <= k < cases.len() && cases[k] == c;
    let sw = extract_switch(ss, idx)->0;
    assert(sw.0 matches StmtV::Switch { cases: cs3, .. } && cs3 == cases);
}

/// Each chain of blocks dispatched by a `br_table` becomes a `switch`, from
/// position `i` on.
pub open spec fn switch_loop(ss: Seq<StmtV>, i: int) -> (Seq<StmtV>, bool)
    decreases ss.len() - i,
{
    if i < 0 || i >= ss.len() {
        (ss, false)
    } else {
        match extract_switch(ss, i) {
            Some((sw, consumed)) => {
                if i + 1 + consumed <= ss.len() {
                    let ss2 = ss.subrange(0, i).push(sw) + ss.subrange(i + 1 + consumed, ss.len() as int);
                    (switch_loop(ss2, i + 1).0, true)
                } else {
                    (ss, false)
                }
            },
            None => switch_loop(ss, i + 1),
        }
    }
}


/// `block B { loop L { br_if B c; body; br L } }` becomes
/// `while (!c) { body }`, with control flow recovered in the body.
pub open spec fn while_stmt(s: StmtV, fuel: nat) -> (Seq<StmtV>, bool)
    decreases fuel, 1nat, s,
{
    match s {
        StmtV::Block { label: bl, body } => {
            let bs = body.stmts;
            if bs.len() == 1 {
                match bs[0] {
                    StmtV::Loop { label: ll, body: lb } => {
                        let ls = lb.stmts;
                        if ls.len() >= 2 && (ls[0] matches StmtV::BrIf { label, is_loop: false, .. } && label == bl)
                            && (ls.last() matches StmtV::Br { label, is_loop: true } && label == ll) {
                            let middle = ls.subrange(1, ls.len() - 1);
                            if !branch_to(middle, bl) && !branch_to(middle, ll) {
                                match ls[0] {
                                    StmtV::BrIf { cond, .. } => (
                                        seq![StmtV::While { cond: spec_negate_condition(cond), body: BlockV { stmts: recover(middle, fuel) } }],
                                        true,
                                    ),
                                    _ => (seq![s], false),
                                }
                            } else {
                                (seq![s], false)
                            }
                        } else {
                            (seq![s], false)
                        }
                    },
                    _ => (seq![s], false),
                }
            } else {
                (seq![s], false)
            }
        },
        _ => (seq![s], false),
    }
}

/// The `while` rewrite over a list.
pub open spec fn while_all(ss: Seq<StmtV>, fuel: nat) -> (Seq<StmtV>, bool)
    decreases fuel, 1nat, ss,
{
    if ss.len() == 0 {
        (ss, false)
    } else {
        let (a, c) = while_all(ss.drop_last(), fuel);
        let (b, d) = while_stmt(ss.last(), fuel);
        (a + b, c || d)
    }
}

/// One round of every rewrite, in order; whether any changed something.
pub open spec fn round(ss: Seq<StmtV>, fuel: nat) -> (Seq<StmtV>, bool)
    decreases fuel, 2nat, ss,
{
    let (a, c1) = switch_loop(ss, 0);
    let (b, c2) = rewrite_all(Rewrite::DoWhile, a, a);
    let (c, c3) = while_all(b, fuel);
    let (d, c4) = rewrite_all(Rewrite::IfElse, c, c);
    let (e, c5) = single_break_loop(d, 0, budget());
    let (f, c6) = rewrite_all(Rewrite::EndingBreak, e, e);
    let (g, c7) = early_return_loop(f, 0, budget());
    let (h, c8) = unreachable_loop(g, 0, budget());
    let (k, c9) = rewrite_all(Rewrite::Unused, h, h);
    (k, c1 || c2 || c3 || c4 || c5 || c6 || c7 || c8 || c9)
}

/// Rounds of rewriting until one changes nothing, at most `k` of them.
pub open spec fn rounds(ss: Seq<StmtV>, k: nat, fuel: nat) -> Seq<StmtV>
    decreases fuel, 3 + k, ss,
{
    if k == 0 {
        ss
    } else {
        let (r, changed) = round(ss, fuel);
        if changed { rounds(r, (k - 1) as nat, fuel) } else { r }
    }
}

/// Control flow recovered in the nested blocks of a statement.
pub open spec fn recover_stmt(s: StmtV, fuel: nat) -> StmtV
    decreases fuel, 1nat, s,
{
    match s {
        StmtV::Block { label, body } => StmtV::Block { label, body: BlockV { stmts: recover(body.stmts, fuel) } },
        StmtV::Loop { label, body } => StmtV::Loop { label, body: BlockV { stmts: recover(body.stmts, fuel) } },
        StmtV::If { cond, then_block, else_block } => StmtV::If {
            cond,
            then_block: BlockV { stmts: recover(then_block.stmts, fuel) },
            else_block: match else_block {
                Some(b) => Some(BlockV { stmts: recover(b.stmts, fuel) }),
                None => None,
            },
        },
        StmtV::DoWhile { body, cond } => StmtV::DoWhile { body: BlockV { stmts: recover(body.stmts, fuel) }, cond },
        StmtV::While { cond, body } => StmtV::While { cond, body: BlockV { stmts: recover(body.stmts, fuel) } },
        StmtV::Switch { index, cases, default } => StmtV::Switch {
            index,
            cases: recover_cases(cases, fuel),
            default: match default {
                Some(b) => Some(BlockV { stmts: recover(b.stmts, fuel) }),
                None => None,
            },
        },
        StmtV::TryFinally { body, finally_block } => StmtV::TryFinally {
            body: BlockV { stmts: recover(body.stmts, fuel) },
            finally_block: BlockV { stmts: recover(finally_block.stmts, fuel) },
        },
        _ => s,
    }
}

/// Control flow recovered in the nested blocks of each statement.
pub open spec fn recover_nested(ss: Seq<StmtV>, fuel: nat) -> Seq<StmtV>
    decreases fuel, 1nat, ss,
{
    if ss.len() == 0 {
        ss
    } else {
        recover_nested(ss.drop_last(), fuel).push(recover_stmt(ss.last(), fuel))
    }
}

/// Control flow recovered in case bodies.
pub open spec fn recover_cases(cs: Seq<SwitchCaseV>, fuel: nat) -> Seq<SwitchCaseV>
    decreases fuel, 1nat, cs,
{
    if cs.len() == 0 {
        cs
    } else {
        recover_cases(cs.drop_last(), fuel).push(
            SwitchCaseV { values: cs.last().values, body: BlockV { stmts: recover(cs.last().body.stmts, fuel) } },
        )
    }
}

/// Control flow recovery: nested blocks first, then up to 50 rounds of
/// rewriting at this level.
pub open spec fn recover(ss: Seq<StmtV>, fuel: nat) -> Seq<StmtV>
    decreases fuel, 0nat, ss,
{
    if fuel == 0 {
        ss
    } else {
        rounds(recover_nested(ss, (fuel - 1) as nat), 50, (fuel - 1) as nat)
    }
}

/// The body of a function that returns nothing and ends with a block: breaks
/// out of the block return, its body takes its place, and control flow is
/// recovered again.
pub open spec fn void_block(ss: Seq<StmtV>) -> Seq<StmtV> {
    if ss.len() == 0 {
        ss
    } else {
        match ss.last() {
            StmtV::Block { label, body } => if !probe(body.stmts, Probe::Table, label) {
                recover(ss.drop_last() + rb(body.stmts, label, seq![StmtV::Return(None)]), budget())
            } else {
                ss
            },
            _ => ss,
        }
    }
}

/// The last position of a block in the list.
pub open spec fn last_block(ss: Seq<StmtV>) -> Option<int>
    decreases ss.len(),
{
    if ss.len() == 0 {
        None
    } else if ss.last() is Block {
        Some(ss.len() - 1)
    } else {
        last_block(ss.drop_last())
    }
}

/// A block whose body ends with a `return`, followed by statements that do
/// not branch to it: each break out of it runs those statements instead (and
/// returns, when they do not end with a `return` themselves and the body
/// returns nothing), and its body takes their place.
pub open spec fn terminal_step(ss: Seq<StmtV>, i: int) -> Option<Seq<StmtV>> {
    if i < 0 || i >= ss.len() {
        None
    } else {
        match ss[i] {
            StmtV::Block { label, body } => {
                let bs = body.stmts;
                let tail = ss.subrange(i + 1, ss.len() as int);
                if bs.len() > 0 && bs.last() is Return && !probe(bs, Probe::Table, label) && tail.len() > 0
                    && !branch_to(tail, label) {
                    if tail.last() is Return {
                        Some(ss.subrange(0, i) + rb(bs, label, tail))
                    } else if bs.last() == StmtV::Return(None) {
                        Some(ss.subrange(0, i) + rb(bs, label, tail.push(StmtV::Return(None))))
                    } else {
                        None
                    }
                } else {
                    None
                }
            },
            _ => None,
        }
    }
}

pub open spec fn terminal_loop(ss: Seq<StmtV>, i: int, fuel: nat) -> (Seq<StmtV>, bool)
    decreases fuel,
{
    if fuel == 0 || i < 0 || i >= ss.len() {
        (ss, false)
    } else {
        match terminal_step(ss, i) {
            Some(n) => (terminal_loop(n, i, (fuel - 1) as nat).0, true),
            None => terminal_loop(ss, i + 1, (fuel - 1) as nat),
        }
    }
}

/// The body of a function that returns nothing, whose last block is
/// followed by side effects only and holds no `return`: the block and the
/// side effects become `try { ... } finally { side effects }`, breaks out of
/// the block returning.
pub open spec fn void_epilog(ss: Seq<StmtV>) -> Seq<StmtV> {
    if ss.len() < 2 {
        ss
    } else {
        match last_block(ss) {
            Some(bi) => if bi + 1 < ss.len() {
                match ss[bi] {
                    StmtV::Block { label, body } => {
                        let tail = ss.subrange(bi + 1, ss.len() as int);
                        if !probe(body.stmts, Probe::Table, label) && !probe(body.stmts, Probe::Return, 0)
                            && (forall|j: int| 0 <= j < tail.len() ==> is_epilog(#[trigger] tail[j])) {
                            let tb = recover(rb(body.stmts, label, seq![StmtV::Return(None)]), budget());
                            let tb2 = terminal_loop(tb, 0, budget()).0;
                            ss.subrange(0, bi).push(StmtV::TryFinally { body: BlockV { stmts: tb2 }, finally_block: BlockV { stmts: tail } })
                        } else {
                            ss
                        }
                    },
                    _ => ss,
                }
            } else {
                ss
            },
            None => ss,
        }
    }
}

/// The body of a defined function after control flow recovery.
pub open spec fn recover_function_body(ss: Seq<StmtV>, returns_nothing: bool) -> Seq<StmtV> {
    let r = recover(ss, budget());
    if returns_nothing { void_epilog(void_block(r)) } else { r }
}


/// The value of an optional statement.
pub open spec fn opt_stmt_view(o: Option<Stmt>) -> Option<StmtV> {
    match o {
        Some(x) => Some(x@),
        None => None,
    }
}

/// A copy of `v[a..b]`.
pub(crate) fn copy_range(v: &Vec<Stmt>, a: usize, b: usize) -> (r: Vec<Stmt>)
    requires
        a <= b <= v@.len(),
    ensures
        stmts_view(r@) == stmts_view(v@).subrange(a as int, b as int),
{
    let mut r: Vec<Stmt> = Vec::new();
    let mut k: usize = a;
    proof {
        lemma_stmts_view(v@);
        assert(stmts_view(r@) =~= stmts_view(v@).subrange(a as int, a as int));
    }
    while k < b
        invariant
            a <= k <= b <= v@.len(),
            stmts_view(v@).len() == v@.len(),
            forall|j: int| 0 <= j < v@.len() ==> #[trigger] stmts_view(v@)[j] == v@[j]@,
            stmts_view(r@) == stmts_view(v@).subrange(a as int, k as int),
        decreases b - k,
    {
        let x = v[k].duplicate();
        proof {
            lemma_stmts_view_push(r@, x);
            assert(stmts_view(v@).subrange(a as int, k + 1) =~= stmts_view(v@).subrange(a as int, k as int).push(x@));
        }
        r.push(x);
        k += 1;
    }
    r
}

/// `v[..a]`, then `ins`, then `v[a + 1..]`.
pub(crate) fn splice_exec(v: &Vec<Stmt>, a: usize, ins: Vec<Stmt>) -> (r: Vec<Stmt>)
    requires
        a < v@.len(),
    ensures
        stmts_view(r@) == splice(stmts_view(v@), a as int, stmts_view(ins@)),
{
    proof {
        lemma_stmts_view(v@);
    }
    let n = v.len();
    let mut r = copy_range(v, 0, a);
    let mut mid = ins;
    let mut tail = copy_range(v, a + 1, n);
    proof {
        lemma_stmts_view_append(r@, mid@);
        lemma_stmts_view_append(r@ + mid@, tail@);
    }
    r.append(&mut mid);
    r.append(&mut tail);
    r
}

fn is_br_out(s: &Stmt, label: u32) -> (r: bool)
    ensures
        r == (s@ == StmtV::Br { label, is_loop: false }),
{
    match s {
        Stmt::Br { label: l, is_loop } => *l == label && !*is_loop,
        _ => false,
    }
}

fn try_if_else_exec(label: u32, bs: &Vec<Stmt>) -> (r: Option<Stmt>)
    ensures
        opt_stmt_view(r) == try_if_else(label, stmts_view(bs@)),
{
    proof {
        lemma_stmts_view(bs@);
    }
    if bs.len() >= 2 {
        match &bs[0] {
            Stmt::If { cond, then_block, else_block: None } => {
                let ts = &then_block.stmts;
                proof {
                    lemma_stmts_view(ts@);
                }
                if ts.len() > 0 && is_br_out(&ts[ts.len() - 1], label) {
                    let rest = copy_range(bs, 1, bs.len());
                    let head = copy_range(ts, 0, ts.len() - 1);
                    proof {
                        assert(stmts_view(ts@).drop_last() =~= stmts_view(ts@).subrange(0, ts@.len() - 1));
                    }
                    if !branch_to_exec(&rest, label) && !branch_to_exec(&head, label) {
                        Some(Stmt::If { cond: cond.duplicate(), then_block: with_block(head), else_block: Some(with_block(rest)) })
                    } else {
                        None
                    }
                } else {
                    None
                }
            },
            _ => None,
        }
    } else {
        None
    }
}

fn if_else_stmt_exec(s: &Stmt) -> (r: (Vec<Stmt>, bool))
    ensures
        (stmts_view(r.0@), r.1) == if_else_stmt(s@),
{
    match s {
        Stmt::Block { label, body } => match try_if_else_exec(*label, &body.stmts) {
            Some(t) => (one(t), true),
            None => (one(s.duplicate()), false),
        },
        _ => (one(s.duplicate()), false),
    }
}

fn ending_break_stmt_exec(s: &Stmt) -> (r: (Vec<Stmt>, bool))
    ensures
        (stmts_view(r.0@), r.1) == ending_break_stmt(s@),
{
    match s {
        Stmt::Block { label, body } => {
            let bs = &body.stmts;
            proof {
                lemma_stmts_view(bs@);
            }
            if bs.len() > 0 && is_br_out(&bs[bs.len() - 1], *label) {
                let b2 = copy_range(bs, 0, bs.len() - 1);
                proof {
                    assert(stmts_view(bs@).drop_last() =~= stmts_view(bs@).subrange(0, bs@.len() - 1));
                }
                if !branch_to_exec(&b2, *label) {
                    (b2, true)
                } else {
                    (one(Stmt::Block { label: *label, body: with_block(b2) }), true)
                }
            } else {
                (one(s.duplicate()), false)
            }
        },
        _ => (one(s.duplicate()), false),
    }
}

fn is_continue_if(s: &Stmt, label: u32) -> (r: bool)
    ensures
        r == (s@ matches StmtV::BrIf { label: l, is_loop: true, .. } && l == label),
{
    match s {
        Stmt::BrIf { label: l, is_loop, .. } => *l == label && *is_loop,
        _ => false,
    }
}

fn try_do_while_exec(label: u32, bs: &Vec<Stmt>) -> (r: Option<(Stmt, Vec<Stmt>)>)
    ensures
        match try_do_while(label, stmts_view(bs@)) {
            Some((dw, tr)) => r matches Some((x, t)) && x@ == dw && stmts_view(t@) == tr,
            None => r is None,
        },
{
    proof {
        lemma_stmts_view(bs@);
    }
    let len = bs.len();
    if len == 0 {
        return None;
    }
    let two = len >= 2 && is_continue_if(&bs[len - 2], label) && match &bs[len - 1] {
        Stmt::Br { is_loop, .. } => !*is_loop,
        _ => false,
    };
    let single = is_continue_if(&bs[len - 1], label);
    if !two && !single {
        return None;
    }
    let idx: usize = if two { len - 2 } else { len - 1 };
    let head = copy_range(bs, 0, idx);
    if branch_to_exec(&head, label) {
        return None;
    }
    match &bs[idx] {
        Stmt::BrIf { cond, .. } => {
            let trailing = if two { one(bs[len - 1].duplicate()) } else { Vec::new() };
            proof {
                if !two {
                    assert(stmts_view(trailing@) =~= Seq::<StmtV>::empty());
                }
            }
            Some((Stmt::DoWhile { body: with_block(head), cond: cond.duplicate() }, trailing))
        },
        _ => None,
    }
}

fn do_while_stmt_exec(s: &Stmt) -> (r: (Vec<Stmt>, bool))
    ensures
        (stmts_view(r.0@), r.1) == do_while_stmt(s@),
{
    match s {
        Stmt::Loop { label, body } => match try_do_while_exec(*label, &body.stmts) {
            Some((dw, trailing)) => {
                let mut v = one(dw);
                let mut t = trailing;
                proof {
                    lemma_stmts_view_append(v@, t@);
                }
                v.append(&mut t);
                (v, true)
            },
            None => (one(s.duplicate()), false),
        },
        _ => (one(s.duplicate()), false),
    }
}

fn unused_stmt_exec(s: &Stmt, all: &Vec<Stmt>) -> (r: (Vec<Stmt>, bool))
    ensures
        (stmts_view(r.0@), r.1) == unused_stmt(s@, stmts_view(all@)),
{
    match s {
        Stmt::Block { label, body } => {
            if !branch_to_exec(&body.stmts, *label) && !probe_exec(all, Probe::Table, *label) {
                (crate::ir::duplicate_stmts(&body.stmts), true)
            } else {
                (one(s.duplicate()), false)
            }
        },
        _ => (one(s.duplicate()), false),
    }
}

fn rewrite_stmt_exec(r: Rewrite, s: &Stmt, all: &Vec<Stmt>) -> (out: (Vec<Stmt>, bool))
    ensures
        (stmts_view(out.0@), out.1) == rewrite_stmt(r, s@, stmts_view(all@)),
{
    match r {
        Rewrite::IfElse => if_else_stmt_exec(s),
        Rewrite::EndingBreak => ending_break_stmt_exec(s),
        Rewrite::DoWhile => do_while_stmt_exec(s),
        Rewrite::Unused => unused_stmt_exec(s, all),
    }
}

/// A statement-wise rewrite over a list.
fn rewrite_all_exec(r: Rewrite, v: &Vec<Stmt>) -> (out: (Vec<Stmt>, bool))
    ensures
        (stmts_view(out.0@), out.1) == rewrite_all(r, stmts_view(v@), stmts_view(v@)),
{
    let ghost all = stmts_view(v@);
    let mut res: Vec<Stmt> = Vec::new();
    let mut changed = false;
    let mut k: usize = 0;
    proof {
        lemma_stmts_view(v@);
        assert(all.subrange(0, 0) =~= Seq::<StmtV>::empty());
        assert(stmts_view(res@) =~= Seq::<StmtV>::empty());
    }
    while k < v.len()
        invariant
            k <= v@.len(),
            all == stmts_view(v@),
            all.len() == v@.len(),
            forall|j: int| 0 <= j < v@.len() ==> #[trigger] all[j] == v@[j]@,
            (stmts_view(res@), changed) == rewrite_all(r, all.subrange(0, k as int), all),
        decreases v@.len() - k,
    {
        let (mut piece, c) = rewrite_stmt_exec(r, &v[k], v);
        proof {
            assert(all.subrange(0, k + 1).drop_last() =~= all.subrange(0, k as int));
            lemma_stmts_view_append(res@, piece@);
        }
        res.append(&mut piece);
        changed = changed || c;
        k += 1;
    }
    proof {
        assert(all.subrange(0, k as int) =~= all);
    }
    (res, changed)
}


pub(crate) fn first_br_if_exec(bs: &Vec<Stmt>, label: u32) -> (r: Option<usize>)
    ensures
        match r {
            Some(i) => first_br_if(stmts_view(bs@), label, 0) == Some(i as int) && i < bs@.len(),
            None => first_br_if(stmts_view(bs@), label, 0) is None,
        },
{
    let ghost sv = stmts_view(bs@);
    proof {
        lemma_stmts_view(bs@);
    }
    let mut k: usize = 0;
    while k < bs.len()
        invariant
            k <= bs@.len(),
            sv == stmts_view(bs@),
            sv.len() == bs@.len(),
            forall|j: int| 0 <= j < bs@.len() ==> #[trigger] sv[j] == bs@[j]@,
            first_br_if(sv, label, 0) == first_br_if(sv, label, k as int),
        decreases bs@.len() - k,
    {
        let hit = match &bs[k] {
            Stmt::BrIf { label: l, is_loop, .. } => *l == label && !*is_loop,
            _ => false,
        };
        if hit {
            return Some(k);
        }
        k += 1;
    }
    None
}

fn single_break_exec(s: &Stmt) -> (r: Option<(Vec<Stmt>, Expr, Vec<Stmt>)>)
    ensures
        match single_break(s@) {
            Some((b, c, a)) => r matches Some((x, y, z)) && stmts_view(x@) == b && y@ == c && stmts_view(z@) == a,
            None => r is None,
        },
{
    match s {
        Stmt::Block { label, body } => {
            let bs = &body.stmts;
            proof {
                lemma_stmts_view(bs@);
            }
            match first_br_if_exec(bs, *label) {
                Some(idx) => {
                    let n = bs.len();
                    let before = copy_range(bs, 0, idx);
                    let after = copy_range(bs, idx + 1, n);
                    if branch_to_exec(&before, *label) || branch_to_exec(&after, *label) {
                        None
                    } else {
                        match &bs[idx] {
                            Stmt::BrIf { cond, .. } => Some((before, cond.duplicate(), after)),
                            _ => None,
                        }
                    }
                },
                None => None,
            }
        },
        _ => None,
    }
}

/// `block L { before; br_if L c; after }` becomes `before; if (!c) { after }`.
fn single_break_loop_exec(v: Vec<Stmt>) -> (r: (Vec<Stmt>, bool))
    ensures
        (stmts_view(r.0@), r.1) == single_break_loop(stmts_view(v@), 0, budget()),
{
    let ghost target = single_break_loop(stmts_view(v@), 0, budget());
    let mut ss = v;
    let mut i: usize = 0;
    let mut fuel: u64 = u64::MAX;
    let mut changed = false;
    while fuel > 0 && i < ss.len()
        invariant
            target.0 == single_break_loop(stmts_view(ss@), i as int, fuel as nat).0,
            target.1 == (changed || single_break_loop(stmts_view(ss@), i as int, fuel as nat).1),
        decreases fuel,
    {
        proof {
            lemma_stmts_view(ss@);
        }
        let step = match single_break_exec(&ss[i]) {
            Some((before, cond, after)) => {
                let mut ins = before;
                proof {
                    lemma_stmts_view(after@);
                }
                if after.len() > 0 {
                    let st = Stmt::If { cond: negate_condition(cond), then_block: with_block(after), else_block: None };
                    proof {
                        lemma_stmts_view_push(ins@, st);
                    }
                    ins.push(st);
                }
                Some(splice_exec(&ss, i, ins))
            },
            None => None,
        };
        match step {
            Some(n) => {
                ss = n;
                changed = true;
            },
            None => {
                i += 1;
            },
        }
        fuel -= 1;
    }
    proof {
        lemma_stmts_view(ss@);
    }
    (ss, changed)
}

fn is_epilog_exec(s: &Stmt) -> (r: bool)
    ensures
        r == is_epilog(s@),
{
    match s {
        Stmt::LocalSet { .. } | Stmt::GlobalSet { .. } | Stmt::Store { .. } | Stmt::Expr(_) => true,
        _ => false,
    }
}

/// The rewrite of the early-return loop at position `i`, if one applies.
fn early_return_step_exec(ss: &Vec<Stmt>, i: usize) -> (r: Option<Vec<Stmt>>)
    requires
        i < ss@.len(),
    ensures
        match r {
            Some(n) => early_return_step(stmts_view(ss@), i as int) == Some(stmts_view(n@)),
            None => early_return_step(stmts_view(ss@), i as int) is None,
        },
{
    proof {
        lemma_stmts_view(ss@);
    }
    let len = ss.len();
    match &ss[i] {
        Stmt::Block { label, body } => {
            let lab = *label;
            let no_table = !probe_exec(&body.stmts, Probe::Table, lab);
            let p2 = len - i > 2 && no_table && match (&ss[i + 1], &ss[i + 2]) {
                (Stmt::LocalSet { local, .. }, Stmt::Return(Some(e))) => match &e.kind {
                    ExprKind::Local(x) => *x == *local,
                    _ => false,
                },
                _ => false,
            };
            if p2 {
                match &ss[i + 1] {
                    Stmt::LocalSet { value, .. } => {
                        let repl = one(Stmt::Return(Some(value.duplicate())));
                        let ins = rb_exec(&body.stmts, lab, &repl);
                        return Some(splice_exec(ss, i, ins));
                    },
                    _ => {
                        return None;
                    },
                }
            }
            let p1 = len - i > 1 && no_table && match &ss[i + 1] {
                Stmt::Return(Some(_)) => true,
                _ => false,
            };
            if p1 {
                let repl = one(ss[i + 1].duplicate());
                let ins = rb_exec(&body.stmts, lab, &repl);
                return Some(splice_exec(ss, i, ins));
            }
            let mut p3 = len - i > 2 && no_table && !probe_exec(&body.stmts, Probe::Return, 0) && match &ss[len - 1] {
                Stmt::Return(Some(_)) => true,
                _ => false,
            };
            if p3 {
                let mut j: usize = i + 1;
                while j < len - 1
                    invariant
                        i + 1 <= j <= len - 1,
                        len == ss@.len(),
                        stmts_view(ss@).len() == ss@.len(),
                        forall|k: int| 0 <= k < ss@.len() ==> #[trigger] stmts_view(ss@)[k] == ss@[k]@,
                        p3 == (forall|k: int| i + 1 <= k < j ==> is_epilog(#[trigger] stmts_view(ss@)[k])),
                    decreases len - 1 - j,
                {
                    let e = is_epilog_exec(&ss[j]);
                    proof {
                        assert(stmts_view(ss@)[j as int] == ss@[j as int]@);
                    }
                    p3 = p3 && e;
                    j += 1;
                }
            }
            if p3 {
                let ret = ss[len - 1].duplicate();
                let repl = one(ss[len - 1].duplicate());
                let mut tb = rb_exec(&body.stmts, lab, &repl);
                proof {
                    lemma_stmts_view_push(tb@, ret);
                }
                tb.push(ret);
                let fin = copy_range(ss, i + 1, len - 1);
                let tf = Stmt::TryFinally { body: with_block(tb), finally_block: with_block(fin) };
                let mut n = copy_range(ss, 0, i);
                proof {
                    lemma_stmts_view_push(n@, tf);
                }
                n.push(tf);
                return Some(n);
            }
            None
        },
        _ => None,
    }
}


/// Breaks out of a block followed by `return` become that `return`.
fn early_return_loop_exec(v: Vec<Stmt>) -> (r: (Vec<Stmt>, bool))
    ensures
        (stmts_view(r.0@), r.1) == early_return_loop(stmts_view(v@), 0, budget()),
{
    let ghost target = early_return_loop(stmts_view(v@), 0, budget());
    let mut ss = v;
    let mut i: usize = 0;
    let mut fuel: u64 = u64::MAX;
    let mut changed = false;
    while fuel > 0 && i < ss.len()
        invariant
            target.0 == early_return_loop(stmts_view(ss@), i as int, fuel as nat).0,
            target.1 == (changed || early_return_loop(stmts_view(ss@), i as int, fuel as nat).1),
        decreases fuel,
    {
        proof {
            lemma_stmts_view(ss@);
        }
        match early_return_step_exec(&ss, i) {
            Some(n) => {
                ss = n;
                changed = true;
            },
            None => {
                i += 1;
            },
        }
        fuel -= 1;
    }
    proof {
        lemma_stmts_view(ss@);
    }
    (ss, changed)
}


fn unreachable_step_exec(ss: &Vec<Stmt>, i: usize) -> (r: Option<Vec<Stmt>>)
    requires
        i < ss@.len(),
    ensures
        match r {
            Some(n) => unreachable_step(stmts_view(ss@), i as int) == Some(stmts_view(n@)),
            None => unreachable_step(stmts_view(ss@), i as int) is None,
        },
{
    proof {
        lemma_stmts_view(ss@);
    }
    let len = ss.len();
    if len - i <= 1 {
        return None;
    }
    match &ss[i] {
        Stmt::Block { label, body } => {
            let next_unreachable = match &ss[i + 1] {
                Stmt::Unreachable => true,
                _ => false,
            };
            if next_unreachable && !probe_exec(&body.stmts, Probe::Table, *label) {
                let repl = one(Stmt::Unreachable);
                let ins = rb_exec(&body.stmts, *label, &repl);
                Some(splice_exec(ss, i, ins))
            } else {
                None
            }
        },
        _ => None,
    }
}

/// Breaks out of a block followed by `unreachable` become `unreachable`.
fn unreachable_loop_exec(v: Vec<Stmt>) -> (r: (Vec<Stmt>, bool))
    ensures
        (stmts_view(r.0@), r.1) == unreachable_loop(stmts_view(v@), 0, budget()),
{
    let ghost target = unreachable_loop(stmts_view(v@), 0, budget());
    let mut ss = v;
    let mut i: usize = 0;
    let mut fuel: u64 = u64::MAX;
    let mut changed = false;
    proof {
        lemma_stmts_view(ss@);
    }
    while fuel > 0 && i < ss.len() && ss.len() - i > 1
        invariant
            target.0 == unreachable_loop(stmts_view(ss@), i as int, fuel as nat).0,
            target.1 == (changed || unreachable_loop(stmts_view(ss@), i as int, fuel as nat).1),
        decreases fuel,
    {
        proof {
            lemma_stmts_view(ss@);
        }
        match unreachable_step_exec(&ss, i) {
            Some(n) => {
                ss = n;
                changed = true;
            },
            None => {
                i += 1;
            },
        }
        fuel -= 1;
    }
    proof {
        lemma_stmts_view(ss@);
    }
    (ss, changed)
}

fn terminal_step_exec(ss: &Vec<Stmt>, i: usize) -> (r: Option<Vec<Stmt>>)
    requires
        i < ss@.len(),
    ensures
        match r {
            Some(n) => terminal_step(stmts_view(ss@), i as int) == Some(stmts_view(n@)),
            None => terminal_step(stmts_view(ss@), i as int) is None,
        },
{
    proof {
        lemma_stmts_view(ss@);
    }
    let len = ss.len();
    match &ss[i] {
        Stmt::Block { label, body } => {
            let bs = &body.stmts;
            proof {
                lemma_stmts_view(bs@);
            }
            let body_returns = bs.len() > 0 && match &bs[bs.len() - 1] {
                Stmt::Return(_) => true,
                _ => false,
            };
            if !body_returns || probe_exec(bs, Probe::Table, *label) {
                return None;
            }
            let tail = copy_range(ss, i + 1, len);
            proof {
                lemma_stmts_view(tail@);
            }
            if tail.len() == 0 || branch_to_exec(&tail, *label) {
                return None;
            }
            let tail_returns = match &tail[tail.len() - 1] {
                Stmt::Return(_) => true,
                _ => false,
            };
            let body_void = match &bs[bs.len() - 1] {
                Stmt::Return(None) => true,
                _ => false,
            };
            if tail_returns {
                let mut n = copy_range(ss, 0, i);
                let mut ins = rb_exec(bs, *label, &tail);
                proof {
                    lemma_stmts_view_append(n@, ins@);
                }
                n.append(&mut ins);
                Some(n)
            } else if body_void {
                let mut t = tail;
                let st = Stmt::Return(None);
                proof {
                    lemma_stmts_view_push(t@, st);
                }
                t.push(st);
                let mut n = copy_range(ss, 0, i);
                let mut ins = rb_exec(bs, *label, &t);
                proof {
                    lemma_stmts_view_append(n@, ins@);
                }
                n.append(&mut ins);
                Some(n)
            } else {
                None
            }
        },
        _ => None,
    }
}

/// Blocks whose body ends with a `return`, followed by statements that only
/// their breaks reach, take those statements into their breaks.
fn terminal_loop_exec(v: Vec<Stmt>) -> (r: (Vec<Stmt>, bool))
    ensures
        (stmts_view(r.0@), r.1) == terminal_loop(stmts_view(v@), 0, budget()),
{
    let ghost target = terminal_loop(stmts_view(v@), 0, budget());
    let mut ss = v;
    let mut i: usize = 0;
    let mut fuel: u64 = u64::MAX;
    let mut changed = false;
    while fuel > 0 && i < ss.len()
        invariant
            target.0 == terminal_loop(stmts_view(ss@), i as int, fuel as nat).0,
            target.1 == (changed || terminal_loop(stmts_view(ss@), i as int, fuel as nat).1),
        decreases fuel,
    {
        proof {
            lemma_stmts_view(ss@);
        }
        match terminal_step_exec(&ss, i) {
            Some(n) => {
                ss = n;
                changed = true;
            },
            None => {
                i += 1;
            },
        }
        fuel -= 1;
    }
    proof {
        lemma_stmts_view(ss@);
    }
    (ss, changed)
}


/// The values of a list of statement lists.
pub open spec fn tails_view(v: Seq<Vec<Stmt>>) -> Seq<Seq<StmtV>> {
    Seq::new(v.len(), |i: int| stmts_view(v[i]@))
}

pub(crate) proof fn lemma_cases_view(s: Seq<SwitchCase>)
    ensures
        cases_view(s).len() == s.len(),
        forall|i: int| 0 <= i < s.len() ==> #[trigger] cases_view(s)[i] == (SwitchCaseV {
            values: s[i].values@,
            body: s[i].body@,
        }),
    decreases s.len(),
{
    if s.len() > 0 {
        lemma_cases_view(s.drop_last());
    }
}

fn peel_exec(bs: &Vec<Stmt>) -> (r: Option<(Vec<u32>, Vec<Vec<Stmt>>, Vec<Stmt>)>)
    ensures
        match peel(stmts_view(bs@)) {
            Some((ls, ts, inner)) => r matches Some((x, y, z)) && x@ == ls && tails_view(y@) == ts
                && stmts_view(z@) == inner,
            None => r is None,
        },
    decreases bs,
{
    proof {
        lemma_stmts_view(bs@);
    }
    if bs.len() == 0 {
        return None;
    }
    match &bs[0] {
        Stmt::Block { label, body } => {
            proof {
                assert(decreases_to!(bs => bs@[0]));
            }
            match peel_exec(&body.stmts) {
                Some((ls, ts, inner)) => {
                    let mut labels: Vec<u32> = Vec::new();
                    labels.push(*label);
                    let mut ls2 = ls;
                    labels.append(&mut ls2);
                    let mut tails: Vec<Vec<Stmt>> = Vec::new();
                    let n = bs.len();
                    tails.push(copy_range(bs, 1, n));
                    let mut ts2 = ts;
                    let ghost tv = tails_view(ts2@);
                    tails.append(&mut ts2);
                    proof {
                        assert(labels@ =~= seq![*label] + ls@);
                        assert(tails_view(tails@) =~= seq![stmts_view(bs@).subrange(1, bs@.len() as int)] + tv);
                    }
                    Some((labels, tails, inner))
                },
                None => None,
            }
        },
        _ => {
            let inner = crate::ir::duplicate_stmts(bs);
            let labels: Vec<u32> = Vec::new();
            let tails: Vec<Vec<Stmt>> = Vec::new();
            proof {
                assert(tails_view(tails@) =~= Seq::<Seq<StmtV>>::empty());
            }
            Some((labels, tails, inner))
        },
    }
}

fn first_table_exec(bs: &Vec<Stmt>) -> (r: Option<usize>)
    ensures
        match r {
            Some(i) => first_table(stmts_view(bs@), 0) == Some(i as int) && i < bs@.len(),
            None => first_table(stmts_view(bs@), 0) is None,
        },
{
    let ghost sv = stmts_view(bs@);
    proof {
        lemma_stmts_view(bs@);
    }
    let mut k: usize = 0;
    while k < bs.len()
        invariant
            k <= bs@.len(),
            sv == stmts_view(bs@),
            sv.len() == bs@.len(),
            forall|j: int| 0 <= j < bs@.len() ==> #[trigger] sv[j] == bs@[j]@,
            first_table(sv, 0) == first_table(sv, k as int),
        decreases bs@.len() - k,
    {
        let hit = match &bs[k] {
            Stmt::BrTable { .. } => true,
            _ => false,
        };
        if hit {
            return Some(k);
        }
        k += 1;
    }
    None
}

fn last_index_exec(ls: &Vec<u32>, l: u32) -> (r: Option<usize>)
    ensures
        match r {
            Some(i) => last_index(ls@, l) == Some(i as int) && i < ls@.len(),
            None => last_index(ls@, l) is None,
        },
{
    let mut k: usize = ls.len();
    proof {
        assert(ls@.subrange(0, k as int) =~= ls@);
    }
    while k > 0
        invariant
            k <= ls@.len(),
            last_index(ls@, l) == last_index(ls@.subrange(0, k as int), l),
        decreases k,
    {
        proof {
            assert(ls@.subrange(0, k as int).drop_last() =~= ls@.subrange(0, k - 1));
        }
        if ls[k - 1] == l {
            return Some(k - 1);
        }
        k -= 1;
    }
    None
}

fn case_values_exec(targets: &Vec<BranchTarget>, l: u32) -> (r: Vec<u32>)
    ensures
        r@ == case_values(targets@, l),
{
    let mut r: Vec<u32> = Vec::new();
    let mut k: usize = 0;
    proof {
        assert(targets@.subrange(0, 0) =~= Seq::<BranchTarget>::empty());
    }
    while k < targets.len()
        invariant
            k <= targets@.len(),
            r@ == case_values(targets@.subrange(0, k as int), l),
        decreases targets@.len() - k,
    {
        proof {
            assert(targets@.subrange(0, k + 1).drop_last() =~= targets@.subrange(0, k as int));
        }
        if targets[k].label == l {
            r.push(k as u32);
        }
        k += 1;
    }
    proof {
        assert(targets@.subrange(0, k as int) =~= targets@);
    }
    r
}

fn refs_chain_exec(body: &Vec<Stmt>, all: &Vec<u32>, outer: u32) -> (r: bool)
    ensures
        r == refs_chain(stmts_view(body@), all@, outer),
{
    let mut found = false;
    let mut k: usize = 0;
    while k < all.len()
        invariant
            k <= all@.len(),
            found == exists|i: int| 0 <= i < k && all@[i] != outer && branch_to(stmts_view(body@), #[trigger] all@[i]),
        decreases all@.len() - k,
    {
        if all[k] != outer && branch_to_exec(body, all[k]) {
            found = true;
        }
        k += 1;
    }
    found
}

fn case_body_exec(body: &Vec<Stmt>, outer: u32) -> (r: Vec<Stmt>)
    ensures
        stmts_view(r@) == case_body(stmts_view(body@), outer),
{
    proof {
        lemma_stmts_view(body@);
    }
    let n = body.len();
    if n > 0 && is_br_out(&body[n - 1], outer) {
        let b = copy_range(body, 0, n - 1);
        proof {
            assert(stmts_view(body@).drop_last() =~= stmts_view(body@).subrange(0, n - 1));
        }
        rbl_exec(&b, outer, u32::MAX)
    } else {
        rbl_exec(body, outer, u32::MAX)
    }
}

fn tail_cases_exec(ts: &Vec<Vec<Stmt>>, all: &Vec<u32>, targets: &Vec<BranchTarget>, outer: u32) -> (r: Option<Vec<SwitchCase>>)
    requires
        all@.len() == ts@.len() + 1,
    ensures
        match tail_cases(tails_view(ts@), all@, targets@, outer) {
            Some(cs) => r matches Some(x) && cases_view(x@) == cs,
            None => r is None,
        },
{
    let ghost tv = tails_view(ts@);
    let mut out: Vec<SwitchCase> = Vec::new();
    let mut k: usize = 0;
    proof {
        assert(tv.subrange(0, 0) =~= Seq::<Seq<StmtV>>::empty());
        assert(cases_view(out@) =~= Seq::<SwitchCaseV>::empty());
    }
    while k < ts.len()
        invariant
            k <= ts@.len(),
            all@.len() == ts@.len() + 1,
            tv == tails_view(ts@),
            tail_cases(tv.subrange(0, k as int), all@, targets@, outer) == Some(cases_view(out@)),
            tail_cases(tv, all@, targets@, outer) == tail_cases_from(tv, k as int, all@, targets@, outer, cases_view(out@)),
        decreases ts@.len() - k,
    {
        proof {
            assert(tv.subrange(0, k + 1).drop_last() =~= tv.subrange(0, k as int));
            assert(tv.subrange(0, k + 1)[k as int] == tv[k as int]);
        }
        let values = case_values_exec(targets, all[k + 1]);
        if values.len() > 0 {
            if refs_chain_exec(&ts[k], all, outer) {
                proof {
                    lemma_tail_cases_none(tv, (k + 1) as int, all@, targets@, outer);
                }
                return None;
            }
            let c = SwitchCase { values, body: with_block(case_body_exec(&ts[k], outer)) };
            proof {
                lemma_cases_view_push(out@, c);
            }
            out.push(c);
        }
        k += 1;
    }
    proof {
        assert(tv.subrange(0, k as int) =~= tv);
    }
    Some(out)
}

/// `tail_cases` over all tails, given its value on the first `k` of them.
pub open spec fn tail_cases_from(
    ts: Seq<Seq<StmtV>>,
    k: int,
    all: Seq<u32>,
    targets: Seq<BranchTarget>,
    outer: u32,
    cs: Seq<SwitchCaseV>,
) -> Option<Seq<SwitchCaseV>> {
    if tail_cases(ts.subrange(0, k), all, targets, outer) == Some(cs) {
        tail_cases(ts, all, targets, outer)
    } else {
        None
    }
}

proof fn lemma_tail_cases_none(ts: Seq<Seq<StmtV>>, k: int, all: Seq<u32>, targets: Seq<BranchTarget>, outer: u32)
    requires
        0 <= k <= ts.len(),
        tail_cases(ts.subrange(0, k), all, targets, outer) is None,
    ensures
        tail_cases(ts, all, targets, outer) is None,
    decreases ts.len() - k,
{
    if k < ts.len() {
        assert(ts.subrange(0, k + 1).drop_last() =~= ts.subrange(0, k));
        lemma_tail_cases_none(ts, k + 1, all, targets, outer);
    } else {
        assert(ts.subrange(0, k) =~= ts);
    }
}

fn falls_through_exec(t: &Vec<Stmt>) -> (r: bool)
    ensures
        r == falls_through(stmts_view(t@)),
{
    proof {
        lemma_stmts_view(t@);
    }
    if t.len() == 0 {
        return true;
    }
    match &t[t.len() - 1] {
        Stmt::Br { .. } | Stmt::Return(_) | Stmt::Unreachable | Stmt::BrTable { .. } => false,
        _ => true,
    }
}

fn min_value_exec(vs: &Vec<u32>) -> (r: u32)
    ensures
        r == min_value(vs@),
{
    let mut m: u32 = u32::MAX;
    let mut k: usize = 0;
    proof {
        assert(vs@.subrange(0, 0) =~= Seq::<u32>::empty());
    }
    while k < vs.len()
        invariant
            k <= vs@.len(),
            m == min_value(vs@.subrange(0, k as int)),
        decreases vs@.len() - k,
    {
        proof {
            assert(vs@.subrange(0, k + 1).drop_last() =~= vs@.subrange(0, k as int));
        }
        if vs[k] < m {
            m = vs[k];
        }
        k += 1;
    }
    proof {
        assert(vs@.subrange(0, k as int) =~= vs@);
    }
    m
}

/// Cases sorted by their smallest value, equal keys in their order.
fn sort_cases_exec(cs: Vec<SwitchCase>) -> (r: Vec<SwitchCase>)
    ensures
        cases_view(r@) == sort_cases(cases_view(cs@)),
{
    let ghost cv = cases_view(cs@);
    proof {
        lemma_cases_view(cs@);
        assert(cv.subrange(0, 0) =~= Seq::<SwitchCaseV>::empty());
        assert(cases_view(Seq::<SwitchCase>::empty()) =~= Seq::<SwitchCaseV>::empty());
    }
    let mut sorted: Vec<SwitchCase> = Vec::new();
    let mut k: usize = 0;
    while k < cs.len()
        invariant
            k <= cs@.len(),
            cv == cases_view(cs@),
            cv.len() == cs@.len(),
            forall|j: int| 0 <= j < cs@.len() ==> #[trigger] cv[j] == (SwitchCaseV { values: cs@[j].values@, body: cs@[j].body@ }),
            cases_view(sorted@) == sort_cases(cv.subrange(0, k as int)),
        decreases cs@.len() - k,
    {
        let c = SwitchCase { values: crate::ir::copy_u32s(&cs[k].values), body: cs[k].body.duplicate() };
        let key = min_value_exec(&c.values);
        let ghost sv = cases_view(sorted@);
        proof {
            lemma_cases_view(sorted@);
        }
        let mut p: usize = 0;
        while p < sorted.len() && min_value_exec(&sorted[p].values) <= key
            invariant
                p <= sorted@.len(),
                sv == cases_view(sorted@),
                sv.len() == sorted@.len(),
                forall|j: int| 0 <= j < sorted@.len() ==> #[trigger] sv[j] == (SwitchCaseV { values: sorted@[j].values@, body: sorted@[j].body@ }),
                insert_pos(sv, key, 0) == insert_pos(sv, key, p as int),
            decreases sorted@.len() - p,
        {
            p += 1;
        }
        proof {
            assert(cv.subrange(0, k + 1).drop_last() =~= cv.subrange(0, k as int));
            assert(cv.subrange(0, k + 1).last() == cv[k as int]);
            assert(insert_pos(sv, key, p as int) == p as int);
        }
        let ghost before = sorted@;
        sorted.insert(p, c);
        proof {
            lemma_cases_view(sorted@);
            assert(sorted@ == before.insert(p as int, c));
            assert(cases_view(sorted@) =~= sv.subrange(0, p as int) + seq![cv[k as int]] + sv.subrange(p as int, sv.len() as int));
        }
        k += 1;
    }
    proof {
        assert(cv.subrange(0, k as int) =~= cv);
    }
    sorted
}


proof fn lemma_peel_len(bs: Seq<StmtV>)
    ensures
        peel(bs) matches Some((ls, ts, inner)) ==> ls.len() == ts.len(),
    decreases bs,
{
    if bs.len() > 0 {
        match bs[0] {
            StmtV::Block { label, body } => {
                lemma_peel_len(body.stmts);
            },
            _ => {},
        }
    }
}

proof fn lemma_extract_consumed(ss: Seq<StmtV>, idx: int)
    ensures
        extract_switch(ss, idx) matches Some((sw, c)) ==> idx + 1 + c <= ss.len(),
{
}

fn contains_exec(v: &Vec<u32>, x: u32) -> (r: bool)
    ensures
        r == v@.contains(x),
{
    let mut k: usize = 0;
    while k < v.len()
        invariant
            k <= v@.len(),
            forall|j: int| 0 <= j < k ==> v@[j] != x,
        decreases v@.len() - k,
    {
        if v[k] == x {
            return true;
        }
        k += 1;
    }
    false
}

fn extract_switch_exec(ss: &Vec<Stmt>, idx: usize) -> (r: Option<(Stmt, usize)>)
    requires
        idx < ss@.len(),
    ensures
        match extract_switch(stmts_view(ss@), idx as int) {
            Some((sw, c)) => r matches Some((x, n)) && x@ == sw && n == c,
            None => r is None,
        },
{
    proof {
        lemma_stmts_view(ss@);
    }
    match &ss[idx] {
        Stmt::Block { label, body } => {
            let outer = *label;
            proof {
                lemma_peel_len(stmts_view(body.stmts@));
            }
            match peel_exec(&body.stmts) {
                None => None,
                Some((ls, ts, inner)) => {
                    let mut all: Vec<u32> = Vec::new();
                    all.push(outer);
                    let mut ls2 = ls;
                    all.append(&mut ls2);
                    proof {
                        assert(all@ =~= seq![outer] + ls@);
                    }
                    match first_table_exec(&inner) {
                        None => None,
                        Some(bt) => {
                            proof {
                                lemma_stmts_view(inner@);
                            }
                            match &inner[bt] {
                                Stmt::BrTable { index, targets, default } => {
                                    let mut ok = contains_exec(&all, default.label);
                                    let mut j: usize = 0;
                                    while j < targets.len()
                                        invariant
                                            j <= targets@.len(),
                                            ok == (all@.contains(default.label) && forall|q: int| 0 <= q < j ==> all@.contains(#[trigger] targets@[q].label)),
                                        decreases targets@.len() - j,
                                    {
                                        let c = contains_exec(&all, targets[j].label);
                                        ok = ok && c;
                                        j += 1;
                                    }
                                    if !ok {
                                        return None;
                                    }
                                    match tail_cases_exec(&ts, &all, targets, outer) {
                                        None => None,
                                        Some(cs) => {
                                            let n = ss.len();
                                            let parent = copy_range(ss, idx + 1, n);
                                            proof {
                                                lemma_stmts_view(parent@);
                                            }
                                            let ov = case_values_exec(targets, outer);
                                            let mut any_falls = false;
                                            let mut t: usize = 0;
                                            while t < ts.len()
                                                invariant
                                                    t <= ts@.len(),
                                                    any_falls == exists|q: int| 0 <= q < t && falls_through(#[trigger] tails_view(ts@)[q]),
                                                decreases ts@.len() - t,
                                            {
                                                let f = falls_through_exec(&ts[t]);
                                                proof {
                                                    assert(tails_view(ts@)[t as int] == stmts_view(ts@[t as int]@));
                                                }
                                                any_falls = any_falls || f;
                                                t += 1;
                                            }
                                            if ov.len() > 0 && ((any_falls && parent.len() > 0) || refs_chain_exec(&parent, &all, outer)) {
                                                return None;
                                            }
                                            if bt > 0 {
                                                return None;
                                            }
                                            let mut cs2 = cs;
                                            let plen = parent.len();
                                            let consumed_tail: usize = if ov.len() > 0 {
                                                let c = SwitchCase { values: ov, body: with_block(parent) };
                                                proof {
                                                    lemma_cases_view_push(cs2@, c);
                                                }
                                                cs2.push(c);
                                                plen
                                            } else {
                                                0
                                            };
                                            let ci: usize = match last_index_exec(&all, default.label) {
                                                Some(i) => i,
                                                None => 0,
                                            };
                                            let default_bail = default.label != outer && ci > 0 && refs_chain_exec(&ts[ci - 1], &all, outer);
                                            proof {
                                                lemma_cases_view(cs2@);
                                                if ci > 0 {
                                                    assert(tails_view(ts@)[ci - 1] == stmts_view(ts@[ci - 1]@));
                                                }
                                            }
                                            if default_bail || cs2.len() == 0 {
                                                return None;
                                            }
                                            let (dblock, consumed): (Option<Block>, usize) = if default.label == outer {
                                                (None, consumed_tail)
                                            } else if ci > 0 {
                                                let d2 = case_body_exec(&ts[ci - 1], outer);
                                                proof {
                                                    lemma_stmts_view(d2@);
                                                }
                                                if d2.len() == 0 {
                                                    (None, 0)
                                                } else {
                                                    (Some(with_block(d2)), 0)
                                                }
                                            } else {
                                                (None, 0)
                                            };
                                            Some((Stmt::Switch { index: index.duplicate(), cases: sort_cases_exec(cs2), default: dblock }, consumed))
                                        },
                                    }
                                },
                                _ => None,
                            }
                        },
                    }
                },
            }
        },
        _ => None,
    }
}

/// Chains of blocks dispatched by a `br_table` become `switch` statements.
fn switch_loop_exec(v: Vec<Stmt>) -> (r: (Vec<Stmt>, bool))
    ensures
        (stmts_view(r.0@), r.1) == switch_loop(stmts_view(v@), 0),
{
    let ghost target = switch_loop(stmts_view(v@), 0);
    let mut ss = v;
    let mut i: usize = 0;
    let mut changed = false;
    while i < ss.len()
        invariant
            target.0 == switch_loop(stmts_view(ss@), i as int).0,
            target.1 == (changed || switch_loop(stmts_view(ss@), i as int).1),
        decreases ss@.len() - i,
    {
        proof {
            lemma_stmts_view(ss@);
            lemma_extract_consumed(stmts_view(ss@), i as int);
        }
        match extract_switch_exec(&ss, i) {
            Some((sw, consumed)) => {
                let n = ss.len();
                let mut new_ss = copy_range(&ss, 0, i);
                proof {
                    lemma_stmts_view_push(new_ss@, sw);
                }
                new_ss.push(sw);
                let mut rest = copy_range(&ss, i + 1 + consumed, n);
                proof {
                    lemma_stmts_view_append(new_ss@, rest@);
                }
                new_ss.append(&mut rest);
                proof {
                    lemma_stmts_view(new_ss@);
                    assert(new_ss@.len() == n - consumed);
                }
                ss = new_ss;
                changed = true;
                i += 1;
            },
            None => {
                i += 1;
            },
        }
    }
    proof {
        lemma_stmts_view(ss@);
    }
    (ss, changed)
}


fn while_stmt_exec(s: &Stmt, fuel: u64) -> (r: (Vec<Stmt>, bool))
    ensures
        (stmts_view(r.0@), r.1) == while_stmt(s@, fuel as nat),
    decreases fuel, 1nat, s,
{
    match s {
        Stmt::Block { label: bl, body } => {
            let bs = &body.stmts;
            proof {
                lemma_stmts_view(bs@);
            }
            if bs.len() == 1 {
                match &bs[0] {
                    Stmt::Loop { label: ll, body: lb } => {
                        let ls = &lb.stmts;
                        proof {
                            lemma_stmts_view(ls@);
                        }
                        let n = ls.len();
                        if n >= 2 {
                            let first_ok = match &ls[0] {
                                Stmt::BrIf { label, is_loop, .. } => *label == *bl && !*is_loop,
                                _ => false,
                            };
                            let last_ok = match &ls[n - 1] {
                                Stmt::Br { label, is_loop } => *label == *ll && *is_loop,
                                _ => false,
                            };
                            if first_ok && last_ok {
                                let middle = copy_range(ls, 1, n - 1);
                                if !branch_to_exec(&middle, *bl) && !branch_to_exec(&middle, *ll) {
                                    match &ls[0] {
                                        Stmt::BrIf { cond, .. } => {
                                            proof {
                                                assert(decreases_to!(s => bs@[0]));
                                            }
                                            let body2 = recover_exec(&middle, fuel);
                                            return (
                                                one(Stmt::While { cond: negate_condition(cond.duplicate()), body: with_block(body2) }),
                                                true,
                                            );
                                        },
                                        _ => {},
                                    }
                                }
                            }
                        }
                    },
                    _ => {},
                }
            }
            (one(s.duplicate()), false)
        },
        _ => (one(s.duplicate()), false),
    }
}

fn while_all_exec(v: &Vec<Stmt>, fuel: u64) -> (r: (Vec<Stmt>, bool))
    ensures
        (stmts_view(r.0@), r.1) == while_all(stmts_view(v@), fuel as nat),
    decreases fuel, 1nat, v,
{
    let ghost sv = stmts_view(v@);
    let mut res: Vec<Stmt> = Vec::new();
    let mut changed = false;
    let mut k: usize = 0;
    proof {
        lemma_stmts_view(v@);
        assert(sv.subrange(0, 0) =~= Seq::<StmtV>::empty());
        assert(stmts_view(res@) =~= Seq::<StmtV>::empty());
    }
    while k < v.len()
        invariant
            k <= v@.len(),
            sv == stmts_view(v@),
            sv.len() == v@.len(),
            forall|j: int| 0 <= j < v@.len() ==> #[trigger] sv[j] == v@[j]@,
            (stmts_view(res@), changed) == while_all(sv.subrange(0, k as int), fuel as nat),
        decreases v@.len() - k,
    {
        proof {
            assert(decreases_to!(v => v@[k as int]));
        }
        let (mut piece, c) = while_stmt_exec(&v[k], fuel);
        proof {
            assert(sv.subrange(0, k + 1).drop_last() =~= sv.subrange(0, k as int));
            lemma_stmts_view_append(res@, piece@);
        }
        res.append(&mut piece);
        changed = changed || c;
        k += 1;
    }
    proof {
        assert(sv.subrange(0, k as int) =~= sv);
    }
    (res, changed)
}

fn round_exec(v: &Vec<Stmt>, fuel: u64) -> (r: (Vec<Stmt>, bool))
    ensures
        (stmts_view(r.0@), r.1) == round(stmts_view(v@), fuel as nat),
    decreases fuel, 2nat, v,
{
    let (a, c1) = switch_loop_exec(crate::ir::duplicate_stmts(v));
    let (b, c2) = rewrite_all_exec(Rewrite::DoWhile, &a);
    let (c, c3) = while_all_exec(&b, fuel);
    let (d, c4) = rewrite_all_exec(Rewrite::IfElse, &c);
    let (e, c5) = single_break_loop_exec(d);
    let (f, c6) = rewrite_all_exec(Rewrite::EndingBreak, &e);
    let (g, c7) = early_return_loop_exec(f);
    let (h, c8) = unreachable_loop_exec(g);
    let (k, c9) = rewrite_all_exec(Rewrite::Unused, &h);
    (k, c1 || c2 || c3 || c4 || c5 || c6 || c7 || c8 || c9)
}

fn rounds_exec(v: Vec<Stmt>, k: u64, fuel: u64) -> (r: Vec<Stmt>)
    ensures
        stmts_view(r@) == rounds(stmts_view(v@), k as nat, fuel as nat),
    decreases fuel, 3 + k, v,
{
    let ghost target = rounds(stmts_view(v@), k as nat, fuel as nat);
    let mut ss = v;
    let mut j: u64 = 0;
    let mut go = true;
    while go && j < k
        invariant
            j <= k,
            go ==> target == rounds(stmts_view(ss@), (k - j) as nat, fuel as nat),
            !go ==> target == stmts_view(ss@),
        decreases k - j,
    {
        let (r, c) = round_exec(&ss, fuel);
        ss = r;
        j += 1;
        if !c {
            go = false;
        }
    }
    ss
}

fn recover_stmt_exec(s: &Stmt, fuel: u64) -> (r: Stmt)
    ensures
        r@ == recover_stmt(s@, fuel as nat),
    decreases fuel, 1nat, s,
{
    match s {
        Stmt::Block { label, body } => Stmt::Block { label: *label, body: with_block(recover_exec(&body.stmts, fuel)) },
        Stmt::Loop { label, body } => Stmt::Loop { label: *label, body: with_block(recover_exec(&body.stmts, fuel)) },
        Stmt::If { cond, then_block, else_block } => {
            let eb = match else_block {
                Some(b) => Some(with_block(recover_exec(&b.stmts, fuel))),
                None => None,
            };
            Stmt::If { cond: cond.duplicate(), then_block: with_block(recover_exec(&then_block.stmts, fuel)), else_block: eb }
        },
        Stmt::DoWhile { body, cond } => Stmt::DoWhile { body: with_block(recover_exec(&body.stmts, fuel)), cond: cond.duplicate() },
        Stmt::While { cond, body } => Stmt::While { cond: cond.duplicate(), body: with_block(recover_exec(&body.stmts, fuel)) },
        Stmt::Switch { index, cases, default } => {
            let d = match default {
                Some(b) => Some(with_block(recover_exec(&b.stmts, fuel))),
                None => None,
            };
            Stmt::Switch { index: index.duplicate(), cases: recover_cases_exec(cases, fuel), default: d }
        },
        Stmt::TryFinally { body, finally_block } => Stmt::TryFinally {
            body: with_block(recover_exec(&body.stmts, fuel)),
            finally_block: with_block(recover_exec(&finally_block.stmts, fuel)),
        },
        _ => s.duplicate(),
    }
}

fn recover_nested_exec(v: &Vec<Stmt>, fuel: u64) -> (r: Vec<Stmt>)
    ensures
        stmts_view(r@) == recover_nested(stmts_view(v@), fuel as nat),
    decreases fuel, 1nat, v,
{
    let ghost sv = stmts_view(v@);
    let mut res: Vec<Stmt> = Vec::new();
    let mut k: usize = 0;
    proof {
        lemma_stmts_view(v@);
        assert(sv.subrange(0, 0) =~= Seq::<StmtV>::empty());
        assert(stmts_view(res@) =~= Seq::<StmtV>::empty());
    }
    while k < v.len()
        invariant
            k <= v@.len(),
            sv == stmts_view(v@),
            sv.len() == v@.len(),
            forall|j: int| 0 <= j < v@.len() ==> #[trigger] sv[j] == v@[j]@,
            stmts_view(res@) == recover_nested(sv.subrange(0, k as int), fuel as nat),
        decreases v@.len() - k,
    {
        proof {
            assert(decreases_to!(v => v@[k as int]));
        }
        let x = recover_stmt_exec(&v[k], fuel);
        proof {
            assert(sv.subrange(0, k + 1).drop_last() =~= sv.subrange(0, k as int));
            lemma_stmts_view_push(res@, x);
        }
        res.push(x);
        k += 1;
    }
    proof {
        assert(sv.subrange(0, k as int) =~= sv);
    }
    res
}

fn recover_cases_exec(v: &Vec<SwitchCase>, fuel: u64) -> (r: Vec<SwitchCase>)
    ensures
        cases_view(r@) == recover_cases(cases_view(v@), fuel as nat),
    decreases fuel, 1nat, v,
{
    let ghost cv = cases_view(v@);
    let mut out: Vec<SwitchCase> = Vec::new();
    let mut k: usize = 0;
    proof {
        lemma_cases_view(v@);
        assert(cv.subrange(0, 0) =~= Seq::<SwitchCaseV>::empty());
        assert(cases_view(out@) =~= Seq::<SwitchCaseV>::empty());
    }
    while k < v.len()
        invariant
            k <= v@.len(),
            cv == cases_view(v@),
            cv.len() == v@.len(),
            forall|j: int| 0 <= j < v@.len() ==> #[trigger] cv[j] == (SwitchCaseV { values: v@[j].values@, body: v@[j].body@ }),
            cases_view(out@) == recover_cases(cv.subrange(0, k as int), fuel as nat),
        decreases v@.len() - k,
    {
        proof {
            assert(decreases_to!(v => v@[k as int]));
        }
        let c = SwitchCase { values: crate::ir::copy_u32s(&v[k].values), body: with_block(recover_exec(&v[k].body.stmts, fuel)) };
        proof {
            assert(cv.subrange(0, k + 1).drop_last() =~= cv.subrange(0, k as int));
            lemma_cases_view_push(out@, c);
        }
        out.push(c);
        k += 1;
    }
    proof {
        assert(cv.subrange(0, k as int) =~= cv);
    }
    out
}

/// Control flow recovery over a list of statements.
fn recover_exec(v: &Vec<Stmt>, fuel: u64) -> (r: Vec<Stmt>)
    ensures
        stmts_view(r@) == recover(stmts_view(v@), fuel as nat),
    decreases fuel, 0nat, v,
{
    if fuel == 0 {
        crate::ir::duplicate_stmts(v)
    } else {
        let nested = recover_nested_exec(v, fuel - 1);
        rounds_exec(nested, 50, fuel - 1)
    }
}


fn void_block_exec(v: Vec<Stmt>) -> (r: Vec<Stmt>)
    ensures
        stmts_view(r@) == void_block(stmts_view(v@)),
{
    proof {
        lemma_stmts_view(v@);
    }
    let n = v.len();
    if n == 0 {
        return v;
    }
    let next = match &v[n - 1] {
        Stmt::Block { label, body } => {
            if !probe_exec(&body.stmts, Probe::Table, *label) {
                let mut head = copy_range(&v, 0, n - 1);
                let repl = one(Stmt::Return(None));
                let mut ins = rb_exec(&body.stmts, *label, &repl);
                proof {
                    lemma_stmts_view_append(head@, ins@);
                    assert(stmts_view(v@).drop_last() =~= stmts_view(v@).subrange(0, n - 1));
                }
                head.append(&mut ins);
                Some(recover_exec(&head, u64::MAX))
            } else {
                None
            }
        },
        _ => None,
    };
    match next {
        Some(r) => r,
        None => v,
    }
}

fn last_block_exec(v: &Vec<Stmt>) -> (r: Option<usize>)
    ensures
        match r {
            Some(i) => last_block(stmts_view(v@)) == Some(i as int) && i < v@.len(),
            None => last_block(stmts_view(v@)) is None,
        },
{
    let ghost sv = stmts_view(v@);
    proof {
        lemma_stmts_view(v@);
        assert(sv.subrange(0, v@.len() as int) =~= sv);
    }
    let mut k: usize = v.len();
    while k > 0
        invariant
            k <= v@.len(),
            sv == stmts_view(v@),
            sv.len() == v@.len(),
            forall|j: int| 0 <= j < v@.len() ==> #[trigger] sv[j] == v@[j]@,
            last_block(sv) == last_block(sv.subrange(0, k as int)),
        decreases k,
    {
        proof {
            assert(sv.subrange(0, k as int).drop_last() =~= sv.subrange(0, k - 1));
        }
        let hit = match &v[k - 1] {
            Stmt::Block { .. } => true,
            _ => false,
        };
        if hit {
            return Some(k - 1);
        }
        k -= 1;
    }
    None
}

fn void_epilog_exec(v: Vec<Stmt>) -> (r: Vec<Stmt>)
    ensures
        stmts_view(r@) == void_epilog(stmts_view(v@)),
{
    proof {
        lemma_stmts_view(v@);
    }
    let n = v.len();
    if n < 2 {
        return v;
    }
    let bi = match last_block_exec(&v) {
        Some(i) => i,
        None => {
            return v;
        },
    };
    if bi + 1 >= n {
        return v;
    }
    let next = match &v[bi] {
        Stmt::Block { label, body } => {
            let tail = copy_range(&v, bi + 1, n);
            proof {
                lemma_stmts_view(tail@);
            }
            let mut all_epilog = true;
            let mut j: usize = 0;
            while j < tail.len()
                invariant
                    j <= tail@.len(),
                    stmts_view(tail@).len() == tail@.len(),
                    forall|q: int| 0 <= q < tail@.len() ==> #[trigger] stmts_view(tail@)[q] == tail@[q]@,
                    all_epilog == (forall|q: int| 0 <= q < j ==> is_epilog(#[trigger] stmts_view(tail@)[q])),
                decreases tail@.len() - j,
            {
                let e = is_epilog_exec(&tail[j]);
                proof {
                    assert(stmts_view(tail@)[j as int] == tail@[j as int]@);
                }
                all_epilog = all_epilog && e;
                j += 1;
            }
            if !probe_exec(&body.stmts, Probe::Table, *label) && !probe_exec(&body.stmts, Probe::Return, 0) && all_epilog {
                let repl = one(Stmt::Return(None));
                let replaced = rb_exec(&body.stmts, *label, &repl);
                let tb = recover_exec(&replaced, u64::MAX);
                let (tb2, _) = terminal_loop_exec(tb);
                let tf = Stmt::TryFinally { body: with_block(tb2), finally_block: with_block(tail) };
                let mut head = copy_range(&v, 0, bi);
                proof {
                    lemma_stmts_view_push(head@, tf);
                }
                head.push(tf);
                Some(head)
            } else {
                None
            }
        },
        _ => None,
    };
    match next {
        Some(r) => r,
        None => v,
    }
}

/// Control flow recovery of the body of a defined function.
fn recover_function_body_exec(v: &Vec<Stmt>, returns_nothing: bool) -> (r: Vec<Stmt>)
    ensures
        stmts_view(r@) == recover_function_body(stmts_view(v@), returns_nothing),
{
    let r = recover_exec(v, u64::MAX);
    if returns_nothing {
        void_epilog_exec(void_block_exec(r))
    } else {
        r
    }
}

/// Each defined function's body is recovered; the other parts of each
/// function stay as they were.
pub open spec fn bodies_recovered(old_fs: Seq<Function>, new_fs: Seq<Function>) -> bool {
    &&& new_fs.len() == old_fs.len()
    &&& forall|i: int| 0 <= i < old_fs.len() ==> {
        let o = #[trigger] old_fs[i];
        let n = new_fs[i];
        &&& n.index == o.index
        &&& n.name == o.name
        &&& n.params == o.params
        &&& n.results == o.results
        &&& n.locals == o.locals
        &&& n.is_import == o.is_import
        &&& n.body@ == if o.is_import {
            o.body@
        } else {
            BlockV { stmts: recover_function_body(o.body@.stmts, o.results@.len() == 0) }
        }
    }
}

/// Recovers loops, conditionals, switches and early returns in every defined
/// function.
pub struct ControlFlowPass;

impl ControlFlowPass {
    /// The pass's name, as logs show it.
    pub fn name(&self) -> (r: &'static str)
        ensures
            r@ == "control_flow"@,
    {
        "control_flow"
    }

    /// Recover control flow in the body of every function the module defines.
    pub fn run(&self, module: &mut Module, ctx: &mut PassContext)
        ensures
            bodies_recovered(old(module).functions@, final(module).functions@),
            final(module).memory == old(module).memory,
            final(module).globals == old(module).globals,
            final(module).exports == old(module).exports,
            final(module).imports == old(module).imports,
            final(module).data_segments == old(module).data_segments,
            final(module).types == old(module).types,
            final(module).func_types == old(module).func_types,
            final(module).elements == old(module).elements,
            final(module).memory_pages == old(module).memory_pages,
            final(module).table_size == old(module).table_size,
            *final(ctx) == *old(ctx),
    {
        let ghost fs0 = module.functions@;
        let n = module.functions.len();
        let mut i: usize = 0;
        while i < n
            invariant
                n == fs0.len(),
                i <= n,
                fs0 == old(module).functions@,
                module.memory == old(module).memory,
                module.globals == old(module).globals,
                module.exports == old(module).exports,
                module.imports == old(module).imports,
                module.data_segments == old(module).data_segments,
                module.types == old(module).types,
                module.func_types == old(module).func_types,
                module.elements == old(module).elements,
                module.memory_pages == old(module).memory_pages,
                module.table_size == old(module).table_size,
                module.functions@.len() == n,
                forall|k: int| i <= k < n ==> #[trigger] module.functions@[k] == fs0[k],
                forall|k: int| 0 <= k < i ==> {
                    let o = #[trigger] fs0[k];
                    let m = module.functions@[k];
                    &&& m.index == o.index
                    &&& m.name == o.name
                    &&& m.params == o.params
                    &&& m.results == o.results
                    &&& m.locals == o.locals
                    &&& m.is_import == o.is_import
                    &&& m.body@ == if o.is_import {
                        o.body@
                    } else {
                        BlockV { stmts: recover_function_body(o.body@.stmts, o.results@.len() == 0) }
                    }
                },
            decreases n - i,
        {
            if !module.functions[i].is_import {
                let void = module.functions[i].results.len() == 0;
                let body = recover_function_body_exec(&module.functions[i].body.stmts, void);
                let mut f = module.functions.remove(i);
                f.body = with_block(body);
                module.functions.insert(i, f);
            }
            i += 1;
        }
    }
}

} // verus!
