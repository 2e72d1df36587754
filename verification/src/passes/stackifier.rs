//! The stackifier pass: structured code emitted from each function's
//! control-flow graph, then the direct rewriting of the block and branch
//! patterns that remain:
//! - `block L { br_if L c; rest }` becomes `if (!c) { rest }`;
//! - `block L { before; br_if L c; after }` becomes `before; if (!c) { after }`;
//! - `block B { loop L { br_if B c; body; br L } }` becomes `while (!c) { body }`;
//! - `block L { code; br L }` becomes `code`;
//! - `block L { if (c) { then; br L } else_code }` becomes `if (c) { then } else { else_code }`;
//! - an inner block ending with a break out of its enclosing block is inlined;
//! - a block that nothing branches to is inlined.
//!
//! Each level is rewritten for up to 100 rounds, nested bodies first in each
//! round; the rewriting loops and the recursion run on a budget of
//! `u64::MAX` steps.
use vstd::prelude::*;
use crate::ir::{Block, BlockV, Function, Module, Stmt, StmtV, lemma_stmts_view, lemma_stmts_view_push, stmts_view, duplicate_stmts};
use crate::cfg::builder::stmts_size;
use crate::passes::emit::{emit_structured, structured};
use crate::passes::PassContext;
use crate::passes::control_flow::{
    budget, copy_range, first_br_if, first_br_if_exec, probe, probe_exec, splice, splice_exec, with_block, Probe,
};
use crate::passes::simplify::{negate_condition, spec_negate_condition};

verus! {

/// The rewrites applied at one level, statement by statement.
#[derive(Debug, Clone, Copy, PartialEq, Eq, Structural)]
pub enum Step {
    ToIf,
    SingleBreak,
    While,
    EndingBreak,
    IfBreak,
    /// A block nothing branches to; `br_table`s are looked for in the list as it was.
    Trivial,
    /// An inner block ending with a break out of the enclosing block with this label.
    Fallthrough(u32),
}

/// No `br` or `br_if` to `l` (outside switches and try/finally).
pub open spec fn no_branch(ss: Seq<StmtV>, l: u32) -> bool {
    !probe(ss, Probe::ShallowBranch, l)
}

/// No `br_table` to `l` (outside switches and try/finally).
pub open spec fn no_table(ss: Seq<StmtV>, l: u32) -> bool {
    !probe(ss, Probe::ShallowTable, l)
}

/// `if (!c) { rest }`, or nothing where `rest` is empty.
pub open spec fn guarded(c: crate::ir::ExprV, rest: Seq<StmtV>) -> Seq<StmtV> {
    if rest.len() > 0 {
        seq![StmtV::If { cond: spec_negate_condition(c), then_block: BlockV { stmts: rest }, else_block: None }]
    } else {
        Seq::empty()
    }
}

/// Whether the else part after an `if` that breaks out of block `l` can be taken as its else branch.
pub open spec fn else_clean(es: Seq<StmtV>, l: u32) -> bool {
    if es.len() == 0 {
        true
    } else if es.last() matches StmtV::Br { label: b, is_loop: false } && b == l {
        no_branch(es.drop_last(), l)
    } else {
        no_branch(es, l)
    }
}

/// The statements that take the place of `s` under a rewrite, if it applies.
pub open spec fn step(k: Step, s: StmtV, orig: Seq<StmtV>) -> Option<Seq<StmtV>> {
    match s {
        StmtV::Block { label, body } => {
            let bs = body.stmts;
            match k {
                Step::ToIf => if bs.len() > 0 && no_branch(bs.drop_first(), label) && no_table(bs, label) {
                    match bs[0] {
                        StmtV::BrIf { label: b, cond, is_loop: false } => if b == label {
                            Some(guarded(cond, bs.drop_first()))
                        } else {
                            None
                        },
                        _ => None,
                    }
                } else {
                    None
                },
                Step::SingleBreak => match first_br_if(bs, label, 0) {
                    Some(idx) => {
                        let before = bs.subrange(0, idx);
                        let after = bs.subrange(idx + 1, bs.len() as int);
                        if no_branch(before, label) && no_branch(after, label) && no_table(bs, label) {
                            match bs[idx] {
                                StmtV::BrIf { cond, .. } => Some(before + guarded(cond, after)),
                                _ => None,
                            }
                        } else {
                            None
                        }
                    },
                    None => None,
                },
                Step::While => if bs.len() == 1 {
                    match bs[0] {
                        StmtV::Loop { label: ll, body: lbody } => {
                            let lb = lbody.stmts;
                            if lb.len() >= 2 && (lb.last() matches StmtV::Br { label: t, is_loop: true } && t == ll) {
                                let middle = lb.subrange(1, lb.len() - 1);
                                match lb[0] {
                                    StmtV::BrIf { label: b, cond, is_loop: false } => if b == label && no_branch(middle, label)
                                        && no_branch(middle, ll) {
                                        Some(seq![StmtV::While { cond: spec_negate_condition(cond), body: BlockV { stmts: middle } }])
                                    } else {
                                        None
                                    },
                                    _ => None,
                                }
                            } else {
                                None
                            }
                        },
                        _ => None,
                    }
                } else {
                    None
                },
                Step::EndingBreak => if bs.len() > 0 && (bs.last() matches StmtV::Br { label: b, is_loop: false } && b == label)
                    && no_branch(bs.drop_last(), label) && no_table(bs, label) {
                    Some(bs.drop_last())
                } else {
                    None
                },
                Step::IfBreak => if bs.len() > 0 {
                    match bs[0] {
                        StmtV::If { cond, then_block, else_block: None } => {
                            let ts = then_block.stmts;
                            let es = bs.drop_first();
                            if ts.len() > 0 && (ts.last() matches StmtV::Br { label: b, is_loop: false } && b == label)
                                && no_branch(ts.drop_last(), label) && else_clean(es, label) && no_table(bs, label) {
                                let es2 = if es.len() > 0 && (es.last() matches StmtV::Br { is_loop: false, .. }) {
                                    es.drop_last()
                                } else {
                                    es
                                };
                                Some(seq![StmtV::If {
                                    cond,
                                    then_block: BlockV { stmts: ts.drop_last() },
                                    else_block: if es2.len() == 0 { None } else { Some(BlockV { stmts: es2 }) },
                                }])
                            } else {
                                None
                            }
                        },
                        _ => None,
                    }
                } else {
                    None
                },
                Step::Trivial => if no_branch(bs, label) && no_table(orig, label) {
                    Some(bs)
                } else {
                    None
                },
                Step::Fallthrough(outer) => if bs.len() > 0 && (bs.last() matches StmtV::Br { label: b, is_loop: false }
                    && b == outer) && no_branch(bs.drop_last(), label) && no_table(bs, label) {
                    Some(bs.drop_last())
                } else {
                    None
                },
            }
        },
        _ => None,
    }
}

/// A rewrite applied from position `i` on: where it applies, the statement is
/// replaced and the same position is looked at again.
pub open spec fn step_loop(k: Step, ss: Seq<StmtV>, orig: Seq<StmtV>, i: int, fuel: nat) -> (Seq<StmtV>, bool)
    decreases fuel,
{
    if fuel == 0 || i < 0 || i >= ss.len() {
        (ss, false)
    } else {
        match step(k, ss[i], orig) {
            Some(ins) => (step_loop(k, splice(ss, i, ins), orig, i, (fuel - 1) as nat).0, true),
            None => step_loop(k, ss, orig, i + 1, (fuel - 1) as nat),
        }
    }
}

/// Inner blocks that end with a break out of their enclosing block are inlined, in every block of the list.
pub open spec fn fallthrough_all(ss: Seq<StmtV>) -> (Seq<StmtV>, bool)
    decreases ss.len(),
{
    if ss.len() == 0 {
        (ss, false)
    } else {
        let (init, c) = fallthrough_all(ss.drop_last());
        match ss.last() {
            StmtV::Block { label, body } => {
                let (b2, c2) = step_loop(Step::Fallthrough(label), body.stmts, body.stmts, 0, budget());
                (init.push(StmtV::Block { label, body: BlockV { stmts: b2 } }), c || c2)
            },
            _ => (init.push(ss.last()), c),
        }
    }
}

/// One round at a level: nested bodies first, then each rewrite in turn.
pub open spec fn st_round(ss: Seq<StmtV>, fuel: nat) -> (Seq<StmtV>, bool)
    decreases fuel, 2nat, ss,
{
    let a = st_nested(ss, fuel);
    let (b, c1) = step_loop(Step::ToIf, a, a, 0, budget());
    let (c, c2) = step_loop(Step::SingleBreak, b, b, 0, budget());
    let (d, c3) = step_loop(Step::While, c, c, 0, budget());
    let (e, c4) = step_loop(Step::EndingBreak, d, d, 0, budget());
    let (f, c5) = step_loop(Step::IfBreak, e, e, 0, budget());
    let (g, c6) = fallthrough_all(f);
    let (h, c7) = step_loop(Step::Trivial, g, g, 0, budget());
    (h, c1 || c2 || c3 || c4 || c5 || c6 || c7)
}

/// Up to `k` more rounds, while a round changes something.
pub open spec fn st_rounds(ss: Seq<StmtV>, k: nat, fuel: nat) -> Seq<StmtV>
    decreases fuel, 3 + k, ss,
{
    if k == 0 {
        ss
    } else {
        let (r, changed) = st_round(ss, fuel);
        if changed { st_rounds(r, (k - 1) as nat, fuel) } else { r }
    }
}

/// The nested bodies of a statement rewritten.
pub open spec fn st_stmt(s: StmtV, fuel: nat) -> StmtV
    decreases fuel, 1nat, s,
{
    match s {
        StmtV::Block { label, body } => StmtV::Block { label, body: BlockV { stmts: st_transform(body.stmts, fuel) } },
        StmtV::Loop { label, body } => StmtV::Loop { label, body: BlockV { stmts: st_transform(body.stmts, fuel) } },
        StmtV::If { cond, then_block, else_block } => StmtV::If {
            cond,
            then_block: BlockV { stmts: st_transform(then_block.stmts, fuel) },
            else_block: match else_block {
                Some(b) => Some(BlockV { stmts: st_transform(b.stmts, fuel) }),
                None => None,
            },
        },
        StmtV::While { cond, body } => StmtV::While { cond, body: BlockV { stmts: st_transform(body.stmts, fuel) } },
        StmtV::DoWhile { body, cond } => StmtV::DoWhile { body: BlockV { stmts: st_transform(body.stmts, fuel) }, cond },
        _ => s,
    }
}

/// The nested bodies of each statement rewritten.
pub open spec fn st_nested(ss: Seq<StmtV>, fuel: nat) -> Seq<StmtV>
    decreases fuel, 1nat, ss,
{
    if ss.len() == 0 {
        ss
    } else {
        st_nested(ss.drop_last(), fuel).push(st_stmt(ss.last(), fuel))
    }
}

/// A list of statements rewritten: up to 100 rounds.
pub open spec fn st_transform(ss: Seq<StmtV>, fuel: nat) -> Seq<StmtV>
    decreases fuel, 0nat, ss,
{
    if fuel == 0 {
        ss
    } else {
        st_rounds(ss, 100, (fuel - 1) as nat)
    }
}

fn guarded_exec(c: &crate::ir::Expr, rest: Vec<Stmt>) -> (r: Vec<Stmt>)
    ensures
        stmts_view(r@) == guarded(c@, stmts_view(rest@)),
{
    let mut r: Vec<Stmt> = Vec::new();
    proof {
        lemma_stmts_view(rest@);
        assert(stmts_view(r@) =~= Seq::<StmtV>::empty());
    }
    if rest.len() > 0 {
        let s = Stmt::If { cond: negate_condition(c.duplicate()), then_block: with_block(rest), else_block: None };
        proof {
            lemma_stmts_view_push(r@, s);
        }
        r.push(s);
        assert(stmts_view(r@) =~= guarded(c@, stmts_view(rest@)));
    }
    r
}

fn is_br_to(s: &Stmt, label: u32, is_loop: bool) -> (r: bool)
    ensures
        r == (s@ matches StmtV::Br { label: b, is_loop: l } && b == label && l == is_loop),
{
    match s {
        Stmt::Br { label: b, is_loop: l } => *b == label && *l == is_loop,
        _ => false,
    }
}

/// The statements that take the place of `s` under rewrite `k`, if it applies.
fn step_exec(k: Step, s: &Stmt, orig: &Vec<Stmt>) -> (r: Option<Vec<Stmt>>)
    ensures
        match step(k, s@, stmts_view(orig@)) {
            Some(x) => r matches Some(v) && stmts_view(v@) == x,
            None => r is None,
        },
{
    let (label, bs) = match s {
        Stmt::Block { label, body } => (*label, &body.stmts),
        _ => return None,
    };
    proof {
        lemma_stmts_view(bs@);
    }
    let ghost sv = stmts_view(bs@);
    let n = bs.len();
    match k {
        Step::ToIf => {
            if n == 0 {
                return None;
            }
            let rest = copy_range(bs, 1, n);
            assert(stmts_view(rest@) =~= sv.drop_first());
            if probe_exec(&rest, Probe::ShallowBranch, label) || probe_exec(bs, Probe::ShallowTable, label) {
                return None;
            }
            match &bs[0] {
                Stmt::BrIf { label: b, cond, is_loop } => {
                    if *b == label && !*is_loop {
                        Some(guarded_exec(cond, rest))
                    } else {
                        None
                    }
                },
                _ => None,
            }
        },
        Step::SingleBreak => {
            match first_br_if_exec(bs, label) {
                Some(idx) => {
                    let before = copy_range(bs, 0, idx);
                    let after = copy_range(bs, idx + 1, n);
                    if probe_exec(&before, Probe::ShallowBranch, label) || probe_exec(&after, Probe::ShallowBranch, label)
                        || probe_exec(bs, Probe::ShallowTable, label) {
                        return None;
                    }
                    match &bs[idx] {
                        Stmt::BrIf { cond, .. } => {
                            let mut out = before;
                            let mut g = guarded_exec(cond, after);
                            proof {
                                crate::passes::control_flow::lemma_stmts_view_append(out@, g@);
                            }
                            out.append(&mut g);
                            Some(out)
                        },
                        _ => None,
                    }
                },
                None => None,
            }
        },
        Step::While => {
            if n != 1 {
                return None;
            }
            match &bs[0] {
                Stmt::Loop { label: ll, body: lbody } => {
                    let lb = &lbody.stmts;
                    proof {
                        lemma_stmts_view(lb@);
                    }
                    let m = lb.len();
                    if m < 2 || !is_br_to(&lb[m - 1], *ll, true) {
                        return None;
                    }
                    let middle = copy_range(lb, 1, m - 1);
                    match &lb[0] {
                        Stmt::BrIf { label: b, cond, is_loop } => {
                            if *b == label && !*is_loop && !probe_exec(&middle, Probe::ShallowBranch, label)
                                && !probe_exec(&middle, Probe::ShallowBranch, *ll) {
                                let w = Stmt::While { cond: negate_condition(cond.duplicate()), body: with_block(middle) };
                                Some(crate::passes::control_flow::one(w))
                            } else {
                                None
                            }
                        },
                        _ => None,
                    }
                },
                _ => None,
            }
        },
        Step::EndingBreak | Step::Fallthrough(_) => {
            if n == 0 {
                return None;
            }
            let target = match k {
                Step::Fallthrough(outer) => outer,
                _ => label,
            };
            if !is_br_to(&bs[n - 1], target, false) {
                return None;
            }
            let init = copy_range(bs, 0, n - 1);
            assert(stmts_view(init@) =~= sv.drop_last());
            if probe_exec(&init, Probe::ShallowBranch, label) || probe_exec(bs, Probe::ShallowTable, label) {
                return None;
            }
            Some(init)
        },
        Step::IfBreak => {
            if n == 0 {
                return None;
            }
            match &bs[0] {
                Stmt::If { cond, then_block, else_block: None } => {
                    let ts = &then_block.stmts;
                    proof {
                        lemma_stmts_view(ts@);
                    }
                    let tn = ts.len();
                    if tn == 0 || !is_br_to(&ts[tn - 1], label, false) {
                        return None;
                    }
                    let then_part = copy_range(ts, 0, tn - 1);
                    assert(stmts_view(then_part@) =~= stmts_view(ts@).drop_last());
                    if probe_exec(&then_part, Probe::ShallowBranch, label) {
                        return None;
                    }
                    let es = copy_range(bs, 1, n);
                    assert(stmts_view(es@) =~= sv.drop_first());
                    proof {
                        lemma_stmts_view(es@);
                    }
                    let en = es.len();
                    let clean = if en == 0 {
                        true
                    } else if is_br_to(&es[en - 1], label, false) {
                        let e_init = copy_range(&es, 0, en - 1);
                        assert(stmts_view(e_init@) =~= stmts_view(es@).drop_last());
                        !probe_exec(&e_init, Probe::ShallowBranch, label)
                    } else {
                        !probe_exec(&es, Probe::ShallowBranch, label)
                    };
                    if !clean || probe_exec(bs, Probe::ShallowTable, label) {
                        return None;
                    }
                    let drop_last = en > 0 && match &es[en - 1] {
                        Stmt::Br { is_loop, .. } => !*is_loop,
                        _ => false,
                    };
                    let es2 = if drop_last { copy_range(&es, 0, en - 1) } else { es };
                    proof {
                        lemma_stmts_view(es2@);
                    }
                    let else_block = if es2.len() == 0 { None } else { Some(with_block(es2)) };
                    let st = Stmt::If { cond: cond.duplicate(), then_block: with_block(then_part), else_block };
                    Some(crate::passes::control_flow::one(st))
                },
                _ => None,
            }
        },
        Step::Trivial => {
            if probe_exec(bs, Probe::ShallowBranch, label) || probe_exec(orig, Probe::ShallowTable, label) {
                None
            } else {
                Some(duplicate_stmts(bs))
            }
        },
    }
}

/// Rewrite `k` applied through the list, each rewritten position looked at again.
fn step_loop_exec(k: Step, v: Vec<Stmt>, orig: &Vec<Stmt>) -> (r: (Vec<Stmt>, bool))
    ensures
        (stmts_view(r.0@), r.1) == step_loop(k, stmts_view(v@), stmts_view(orig@), 0, budget()),
{
    let ghost target = step_loop(k, stmts_view(v@), stmts_view(orig@), 0, budget());
    let mut ss = v;
    let mut i: usize = 0;
    let mut fuel: u64 = u64::MAX;
    let mut changed = false;
    while fuel > 0 && i < ss.len()
        invariant
            target.0 == step_loop(k, stmts_view(ss@), stmts_view(orig@), i as int, fuel as nat).0,
            target.1 == (changed || step_loop(k, stmts_view(ss@), stmts_view(orig@), i as int, fuel as nat).1),
        decreases fuel,
    {
        proof {
            lemma_stmts_view(ss@);
        }
        match step_exec(k, &ss[i], orig) {
            Some(ins) => {
                ss = splice_exec(&ss, i, ins);
                changed = true;
            },
            None => {
                i += 1;
            },
        }
        fuel -= 1;
    }
    proof {
        lemma_stmts_view(ss@);
    }
    (ss, changed)
}

/// Inner blocks ending with a break out of their enclosing block inlined, in every block of the list.
fn fallthrough_all_exec(v: &Vec<Stmt>) -> (r: (Vec<Stmt>, bool))
    ensures
        (stmts_view(r.0@), r.1) == fallthrough_all(stmts_view(v@)),
{
    let ghost sv = stmts_view(v@);
    let mut res: Vec<Stmt> = Vec::new();
    let mut changed = false;
    let mut k: usize = 0;
    proof {
        lemma_stmts_view(v@);
        assert(sv.subrange(0, 0) =~= Seq::<StmtV>::empty());
        assert(stmts_view(res@) =~= Seq::<StmtV>::empty());
    }
    while k < v.len()
        invariant
            k <= v@.len(),
            sv == stmts_view(v@),
            sv.len() == v@.len(),
            forall|j: int| 0 <= j < v@.len() ==> #[trigger] sv[j] == v@[j]@,
            (stmts_view(res@), changed) == fallthrough_all(sv.subrange(0, k as int)),
        decreases v@.len() - k,
    {
        proof {
            assert(sv.subrange(0, k + 1).drop_last() =~= sv.subrange(0, k as int));
        }
        let x = match &v[k] {
            Stmt::Block { label, body } => {
                let orig = duplicate_stmts(&body.stmts);
                let (b2, c2) = step_loop_exec(Step::Fallthrough(*label), duplicate_stmts(&body.stmts), &orig);
                changed = changed || c2;
                Stmt::Block { label: *label, body: with_block(b2) }
            },
            other => other.duplicate(),
        };
        proof {
            lemma_stmts_view_push(res@, x);
        }
        res.push(x);
        k += 1;
    }
    proof {
        assert(sv.subrange(0, k as int) =~= sv);
    }
    (res, changed)
}

fn st_round_exec(v: &Vec<Stmt>, fuel: u64) -> (r: (Vec<Stmt>, bool))
    ensures
        (stmts_view(r.0@), r.1) == st_round(stmts_view(v@), fuel as nat),
    decreases fuel, 2nat, v,
{
    let a = st_nested_exec(v, fuel);
    let oa = duplicate_stmts(&a);
    let (b, c1) = step_loop_exec(Step::ToIf, a, &oa);
    let ob = duplicate_stmts(&b);
    let (c, c2) = step_loop_exec(Step::SingleBreak, b, &ob);
    let oc = duplicate_stmts(&c);
    let (d, c3) = step_loop_exec(Step::While, c, &oc);
    let od = duplicate_stmts(&d);
    let (e, c4) = step_loop_exec(Step::EndingBreak, d, &od);
    let oe = duplicate_stmts(&e);
    let (f, c5) = step_loop_exec(Step::IfBreak, e, &oe);
    let (g, c6) = fallthrough_all_exec(&f);
    let og = duplicate_stmts(&g);
    let (h, c7) = step_loop_exec(Step::Trivial, g, &og);
    (h, c1 || c2 || c3 || c4 || c5 || c6 || c7)
}

fn st_rounds_exec(v: Vec<Stmt>, k: u64, fuel: u64) -> (r: Vec<Stmt>)
    requires
        k <= 100,
    ensures
        stmts_view(r@) == st_rounds(stmts_view(v@), k as nat, fuel as nat),
    decreases fuel, 3 + k,
{
    if k == 0 {
        v
    } else {
        let (r, changed) = st_round_exec(&v, fuel);
        if changed {
            st_rounds_exec(r, k - 1, fuel)
        } else {
            r
        }
    }
}

fn st_stmt_exec(s: &Stmt, fuel: u64) -> (r: Stmt)
    ensures
        r@ == st_stmt(s@, fuel as nat),
    decreases fuel, 1nat, s,
{
    match s {
        Stmt::Block { label, body } => Stmt::Block { label: *label, body: with_block(st_transform_exec(&body.stmts, fuel)) },
        Stmt::Loop { label, body } => Stmt::Loop { label: *label, body: with_block(st_transform_exec(&body.stmts, fuel)) },
        Stmt::If { cond, then_block, else_block } => Stmt::If {
            cond: cond.duplicate(),
            then_block: with_block(st_transform_exec(&then_block.stmts, fuel)),
            else_block: match else_block {
                Some(b) => Some(with_block(st_transform_exec(&b.stmts, fuel))),
                None => None,
            },
        },
        Stmt::While { cond, body } => Stmt::While { cond: cond.duplicate(), body: with_block(st_transform_exec(&body.stmts, fuel)) },
        Stmt::DoWhile { body, cond } => Stmt::DoWhile { body: with_block(st_transform_exec(&body.stmts, fuel)), cond: cond.duplicate() },
        _ => s.duplicate(),
    }
}

fn st_nested_exec(v: &Vec<Stmt>, fuel: u64) -> (r: Vec<Stmt>)
    ensures
        stmts_view(r@) == st_nested(stmts_view(v@), fuel as nat),
    decreases fuel, 1nat, v,
{
    let ghost sv = stmts_view(v@);
    let mut res: Vec<Stmt> = Vec::new();
    let mut k: usize = 0;
    proof {
        lemma_stmts_view(v@);
        assert(sv.subrange(0, 0) =~= Seq::<StmtV>::empty());
        assert(stmts_view(res@) =~= Seq::<StmtV>::empty());
    }
    while k < v.len()
        invariant
            k <= v@.len(),
            sv == stmts_view(v@),
            sv.len() == v@.len(),
            forall|j: int| 0 <= j < v@.len() ==> #[trigger] sv[j] == v@[j]@,
            stmts_view(res@) == st_nested(sv.subrange(0, k as int), fuel as nat),
        decreases v@.len() - k,
    {
        proof {
            assert(decreases_to!(v => v@[k as int]));
        }
        let x = st_stmt_exec(&v[k], fuel);
        proof {
            assert(sv.subrange(0, k + 1).drop_last() =~= sv.subrange(0, k as int));
            lemma_stmts_view_push(res@, x);
        }
        res.push(x);
        k += 1;
    }
    proof {
        assert(sv.subrange(0, k as int) =~= sv);
    }
    res
}

fn st_transform_exec(v: &Vec<Stmt>, fuel: u64) -> (r: Vec<Stmt>)
    ensures
        stmts_view(r@) == st_transform(stmts_view(v@), fuel as nat),
    decreases fuel, 0nat, v,
{
    if fuel == 0 {
        duplicate_stmts(v)
    } else {
        st_rounds_exec(duplicate_stmts(v), 100, fuel - 1)
    }
}

/// Rewrite the block and branch patterns of a function body into structured
/// statements.
pub fn transform_function(body: &mut Block, ctx: &mut PassContext)
    ensures
        final(body)@.stmts == st_transform(old(body)@.stmts, budget()),
        *final(ctx) == *old(ctx),
{
    let r = st_transform_exec(&body.stmts, u64::MAX);
    body.stmts = r;
}

/// Emits structured code for each defined function from its control-flow
/// graph, then rewrites the block and branch patterns that remain.
pub struct StackifierPass;

/// Every defined function's body is small enough for its graph.
pub open spec fn bodies_fit(fs: Seq<Function>) -> bool {
    forall|i: int| 0 <= i < fs.len() && !(#[trigger] fs[i]).is_import ==> 3 * stmts_size(fs[i].body@.stmts) + 3 < usize::MAX
}

/// Each defined function's body became the structured code for it,
/// rewritten by `transform_function`; all else is as it was.
pub open spec fn bodies_stackified(old_fs: Seq<Function>, new_fs: Seq<Function>) -> bool {
    &&& new_fs.len() == old_fs.len()
    &&& forall|i: int| 0 <= i < old_fs.len() ==> {
        let o = #[trigger] old_fs[i];
        let n = new_fs[i];
        &&& n.index == o.index
        &&& n.name == o.name
        &&& n.params == o.params
        &&& n.results == o.results
        &&& n.locals == o.locals
        &&& n.is_import == o.is_import
        &&& n.body@ == if o.is_import {
            o.body@
        } else {
            BlockV { stmts: st_transform(structured(o.body@).stmts, budget()) }
        }
    }
}

impl StackifierPass {
    /// The pass's name, as logs show it.
    pub fn name(&self) -> (r: &'static str)
        ensures
            r@ == "stackifier"@,
    {
        "stackifier"
    }

    /// Emit structured code for, then rewrite, the body of every function the
    /// module defines.
    pub fn run(&self, module: &mut Module, ctx: &mut PassContext)
        requires
            bodies_fit(old(module).functions@),
        ensures
            bodies_stackified(old(module).functions@, final(module).functions@),
            final(module).memory == old(module).memory,
            final(module).globals == old(module).globals,
            final(module).exports == old(module).exports,
            final(module).imports == old(module).imports,
            final(module).data_segments == old(module).data_segments,
            final(module).types == old(module).types,
            final(module).func_types == old(module).func_types,
            final(module).elements == old(module).elements,
            final(module).memory_pages == old(module).memory_pages,
            final(module).table_size == old(module).table_size,
            *final(ctx) == *old(ctx),
    {
        let ghost fs0 = module.functions@;
        let n = module.functions.len();
        let mut i: usize = 0;
        while i < n
            invariant
                n == fs0.len(),
                i <= n,
                fs0 == old(module).functions@,
                bodies_fit(fs0),
                *ctx == *old(ctx),
                module.memory == old(module).memory,
                module.globals == old(module).globals,
                module.exports == old(module).exports,
                module.imports == old(module).imports,
                module.data_segments == old(module).data_segments,
                module.types == old(module).types,
                module.func_types == old(module).func_types,
                module.elements == old(module).elements,
                module.memory_pages == old(module).memory_pages,
                module.table_size == old(module).table_size,
                module.functions@.len() == n,
                forall|k: int| i <= k < n ==> #[trigger] module.functions@[k] == fs0[k],
                forall|k: int| 0 <= k < i ==> {
                    let o = #[trigger] fs0[k];
                    let m = module.functions@[k];
                    &&& m.index == o.index
                    &&& m.name == o.name
                    &&& m.params == o.params
                    &&& m.results == o.results
                    &&& m.locals == o.locals
                    &&& m.is_import == o.is_import
                    &&& m.body@ == if o.is_import {
                        o.body@
                    } else {
                        BlockV { stmts: st_transform(structured(o.body@).stmts, budget()) }
                    }
                },
            decreases n - i,
        {
            if !module.functions[i].is_import {
                assert(module.functions@[i as int] == fs0[i as int]);
                let mut body = emit_structured(&module.functions[i].body);
                transform_function(&mut body, ctx);
                let mut f = module.functions.remove(i);
                f.body = body;
                module.functions.insert(i, f);
            }
            i += 1;
        }
    }
}

} // verus!
