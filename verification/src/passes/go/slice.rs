//! Go slice and interface pattern recognition: slices are passed as
//! (pointer, length, capacity) argument triples.
use vstd::prelude::*;
use crate::ir::{
    Block, BlockV, Expr, ExprKind, ExprKindV, ExprV, InferredType, Module, Stmt, StmtV, expr_view, exprs_view,
    stmt_view, stmts_view, lemma_exprs_view, lemma_exprs_view_push, lemma_stmts_view_push,
};
use crate::passes::PassContext;
use crate::passes::mem_resolve::bodies_rewritten;

verus! {

/// Go slice pattern recognition pass
pub struct GoSlicePass;

/// Three arguments look like a Go slice: three `i32` constants with the
/// length at most the capacity and the capacity in `1..1000000`; otherwise,
/// three expressions typed `i32`.
pub open spec fn spec_slice_triple(a: ExprV, b: ExprV, c: ExprV) -> bool {
    match (a.kind, b.kind, c.kind) {
        (ExprKindV::I32Const(_), ExprKindV::I32Const(len), ExprKindV::I32Const(cap)) => len <= cap && cap > 0 && cap < 1_000_000,
        _ => a.ty is I32 && b.ty is I32 && c.ty is I32,
    }
}

/// A Go slice expression.
pub open spec fn go_slice(ptr: ExprV, len: ExprV, cap: ExprV) -> ExprV {
    ExprV {
        kind: ExprKindV::GoSlice { ptr: Box::new(ptr), len: Box::new(len), cap: Box::new(cap) },
        ty: InferredType::GoSlice(Box::new(InferredType::Unknown)),
    }
}

/// Replace, scanning left to right from `i`, each triple of consecutive
/// arguments that looks like a Go slice; the flag tells whether any was.
pub open spec fn slice_args_from(args: Seq<ExprV>, i: int) -> (Seq<ExprV>, bool)
    decreases args.len() - i,
{
    if i < 0 || i >= args.len() {
        (Seq::empty(), false)
    } else if i + 2 < args.len() && spec_slice_triple(args[i], args[i + 1], args[i + 2]) {
        let rest = slice_args_from(args, i + 3);
        (seq![go_slice(args[i], args[i + 1], args[i + 2])] + rest.0, true)
    } else {
        let rest = slice_args_from(args, i + 1);
        (seq![args[i]] + rest.0, rest.1)
    }
}

/// The arguments with slice triples replaced, when there are at least three
/// and some triple was replaced.
pub open spec fn spec_try_slice_args(args: Seq<ExprV>) -> Option<Seq<ExprV>> {
    if args.len() < 3 {
        None
    } else {
        let r = slice_args_from(args, 0);
        if r.1 { Some(r.0) } else { None }
    }
}

/// An expression after slice recognition: a call's arguments are replaced
/// when they hold a slice triple, else transformed one by one; operators,
/// loads, selects and conversions are transformed inside.
pub open spec fn spec_slice_expr(e: ExprV) -> ExprV
    decreases e,
{
    match e.kind {
        ExprKindV::Call { func, args } => match spec_try_slice_args(args) {
            Some(r) => ExprV { kind: ExprKindV::Call { func, args: r }, ty: e.ty },
            None => ExprV { kind: ExprKindV::Call { func, args: spec_slice_exprs(args) }, ty: e.ty },
        },
        ExprKindV::BinOp(op, a, b) => ExprV {
            kind: ExprKindV::BinOp(op, Box::new(spec_slice_expr(*a)), Box::new(spec_slice_expr(*b))),
            ty: e.ty,
        },
        ExprKindV::UnaryOp(op, a) => ExprV { kind: ExprKindV::UnaryOp(op, Box::new(spec_slice_expr(*a))), ty: e.ty },
        ExprKindV::Compare(op, a, b, t) => ExprV {
            kind: ExprKindV::Compare(op, Box::new(spec_slice_expr(*a)), Box::new(spec_slice_expr(*b)), t),
            ty: e.ty,
        },
        ExprKindV::Load { addr, offset, size, signed } => ExprV {
            kind: ExprKindV::Load { addr: Box::new(spec_slice_expr(*addr)), offset, size, signed },
            ty: e.ty,
        },
        ExprKindV::Select { cond, then_val, else_val } => ExprV {
            kind: ExprKindV::Select {
                cond: Box::new(spec_slice_expr(*cond)),
                then_val: Box::new(spec_slice_expr(*then_val)),
                else_val: Box::new(spec_slice_expr(*else_val)),
            },
            ty: e.ty,
        },
        ExprKindV::Convert { op, expr } => ExprV { kind: ExprKindV::Convert { op, expr: Box::new(spec_slice_expr(*expr)) }, ty: e.ty },
        _ => e,
    }
}

/// Each expression of a list after slice recognition.
pub open spec fn spec_slice_exprs(s: Seq<ExprV>) -> Seq<ExprV>
    decreases s,
{
    if s.len() == 0 {
        Seq::empty()
    } else {
        spec_slice_exprs(s.drop_last()).push(spec_slice_expr(s.last()))
    }
}

/// A statement after slice recognition: the value of an expression statement
/// or local assignment, the condition of an `if`, and nested bodies.
pub open spec fn spec_slice_stmt(s: StmtV) -> StmtV
    decreases s,
{
    match s {
        StmtV::Expr(e) => StmtV::Expr(spec_slice_expr(e)),
        StmtV::LocalSet { local, value } => StmtV::LocalSet { local, value: spec_slice_expr(value) },
        StmtV::If { cond, then_block, else_block } => StmtV::If {
            cond: spec_slice_expr(cond),
            then_block: spec_slice_block(then_block),
            else_block: match else_block {
                Some(b) => Some(spec_slice_block(b)),
                None => None,
            },
        },
        StmtV::Block { label, body } => StmtV::Block { label, body: spec_slice_block(body) },
        StmtV::Loop { label, body } => StmtV::Loop { label, body: spec_slice_block(body) },
        StmtV::DoWhile { body, cond } => StmtV::DoWhile { body: spec_slice_block(body), cond },
        StmtV::While { cond, body } => StmtV::While { cond, body: spec_slice_block(body) },
        _ => s,
    }
}

/// A block after slice recognition in each statement.
pub open spec fn spec_slice_block(b: BlockV) -> BlockV
    decreases b,
{
    BlockV { stmts: spec_slice_stmts(b.stmts) }
}

/// Each statement of a list after slice recognition.
pub open spec fn spec_slice_stmts(s: Seq<StmtV>) -> Seq<StmtV>
    decreases s,
{
    if s.len() == 0 {
        Seq::empty()
    } else {
        spec_slice_stmts(s.drop_last()).push(spec_slice_stmt(s.last()))
    }
}

fn is_i32(t: &InferredType) -> (r: bool)
    ensures
        r == (*t is I32),
{
    matches!(t, InferredType::I32)
}

fn looks_like_slice(a: &Expr, b: &Expr, c: &Expr) -> (r: bool)
    ensures
        r == spec_slice_triple(a@, b@, c@),
{
    match (&a.kind, &b.kind, &c.kind) {
        (ExprKind::I32Const(_), ExprKind::I32Const(len), ExprKind::I32Const(cap)) => *len <= *cap && *cap > 0 && *cap < 1_000_000,
        _ => is_i32(&a.ty) && is_i32(&b.ty) && is_i32(&c.ty),
    }
}

fn slice_triples(args: &Vec<Expr>) -> (r: (Vec<Expr>, bool))
    ensures
        exprs_view(r.0@) == slice_args_from(exprs_view(args@), 0).0,
        r.1 == slice_args_from(exprs_view(args@), 0).1,
{
    let ghost av = exprs_view(args@);
    proof {
        lemma_exprs_view(args@);
    }
    let mut out: Vec<Expr> = Vec::new();
    let mut any = false;
    let mut i: usize = 0;
    while i < args.len()
        invariant
            av == exprs_view(args@),
            av.len() == args@.len(),
            forall|k: int| 0 <= k < args@.len() ==> #[trigger] av[k] == expr_view(args@[k]),
            i <= args@.len() + 2,
            exprs_view(out@) + slice_args_from(av, i as int).0 == slice_args_from(av, 0).0,
            (any || slice_args_from(av, i as int).1) == slice_args_from(av, 0).1,
        decreases args@.len() + 2 - i,
    {
        if args.len() - i > 2 && looks_like_slice(&args[i], &args[i + 1], &args[i + 2]) {
            let e = Expr {
                kind: ExprKind::GoSlice {
                    ptr: Box::new(args[i].duplicate()),
                    len: Box::new(args[i + 1].duplicate()),
                    cap: Box::new(args[i + 2].duplicate()),
                },
                ty: InferredType::GoSlice(Box::new(InferredType::Unknown)),
            };
            proof {
                assert(av[i as int] == expr_view(args@[i as int]));
                assert(av[i + 1] == expr_view(args@[i + 1]));
                assert(av[i + 2] == expr_view(args@[i + 2]));
                lemma_exprs_view_push(out@, e);
                let rest = slice_args_from(av, i + 3);
                assert(exprs_view(out@).push(expr_view(e)) + rest.0 =~= exprs_view(out@) + (seq![expr_view(e)] + rest.0));
            }
            out.push(e);
            any = true;
            i += 3;
        } else {
            let e = args[i].duplicate();
            proof {
                if i + 2 < args.len() {
                    assert(av[i + 1] == expr_view(args@[i + 1]));
                    assert(av[i + 2] == expr_view(args@[i + 2]));
                }
                lemma_exprs_view_push(out@, e);
                let rest = slice_args_from(av, i + 1);
                assert(exprs_view(out@).push(av[i as int]) + rest.0 =~= exprs_view(out@) + (seq![av[i as int]] + rest.0));
            }
            out.push(e);
            i += 1;
        }
    }
    proof {
        assert(slice_args_from(av, i as int).0 =~= Seq::<ExprV>::empty());
        assert(exprs_view(out@) + Seq::<ExprV>::empty() =~= exprs_view(out@));
    }
    (out, any)
}

proof fn lemma_slice_exprs_push(s: Seq<ExprV>, e: ExprV)
    ensures
        spec_slice_exprs(s.push(e)) == spec_slice_exprs(s).push(spec_slice_expr(e)),
{
    assert(s.push(e).drop_last() =~= s);
}

proof fn lemma_slice_stmts_push(s: Seq<StmtV>, e: StmtV)
    ensures
        spec_slice_stmts(s.push(e)) == spec_slice_stmts(s).push(spec_slice_stmt(e)),
{
    assert(s.push(e).drop_last() =~= s);
}

#[verifier::rlimit(40)]
fn transform_slice_expr(e: &Expr) -> (r: Expr)
    ensures
        r@ == spec_slice_expr(e@),
    decreases e,
{
    let ty = e.ty.duplicate();
    match &e.kind {
        ExprKind::Call { func, args } => {
            proof {
                lemma_exprs_view(args@);
            }
            let (tripled, any) = if args.len() < 3 { (Vec::new(), false) } else { slice_triples(args) };
            assert(e@.kind == ExprKindV::Call { func: *func, args: exprs_view(args@) });
            if any {
                assert(spec_try_slice_args(exprs_view(args@)) == Some(exprs_view(tripled@)));
                Expr { kind: ExprKind::Call { func: *func, args: tripled }, ty }
            } else {
                assert(spec_try_slice_args(exprs_view(args@)) is None);
                let a = transform_slice_exprs(args);
                Expr { kind: ExprKind::Call { func: *func, args: a }, ty }
            }
        },
        ExprKind::BinOp(op, a, b) => {
            let a = transform_slice_expr(a);
            let b = transform_slice_expr(b);
            Expr { kind: ExprKind::BinOp(*op, Box::new(a), Box::new(b)), ty }
        },
        ExprKind::UnaryOp(op, a) => {
            let a = transform_slice_expr(a);
            Expr { kind: ExprKind::UnaryOp(*op, Box::new(a)), ty }
        },
        ExprKind::Compare(op, a, b, t) => {
            let a = transform_slice_expr(a);
            let b = transform_slice_expr(b);
            Expr { kind: ExprKind::Compare(*op, Box::new(a), Box::new(b), t.duplicate()), ty }
        },
        ExprKind::Load { addr, offset, size, signed } => {
            let addr = transform_slice_expr(addr);
            Expr { kind: ExprKind::Load { addr: Box::new(addr), offset: *offset, size: *size, signed: *signed }, ty }
        },
        ExprKind::Select { cond, then_val, else_val } => {
            let cond = transform_slice_expr(cond);
            let then_val = transform_slice_expr(then_val);
            let else_val = transform_slice_expr(else_val);
            Expr {
                kind: ExprKind::Select { cond: Box::new(cond), then_val: Box::new(then_val), else_val: Box::new(else_val) },
                ty,
            }
        },
        ExprKind::Convert { op, expr } => {
            let inner = transform_slice_expr(expr);
            Expr { kind: ExprKind::Convert { op: *op, expr: Box::new(inner) }, ty }
        },
        _ => e.duplicate(),
    }
}

fn transform_slice_exprs(v: &Vec<Expr>) -> (r: Vec<Expr>)
    ensures
        exprs_view(r@) == spec_slice_exprs(exprs_view(v@)),
    decreases v,
{
    let mut out: Vec<Expr> = Vec::new();
    let mut k: usize = 0;
    while k < v.len()
        invariant
            k <= v@.len(),
            exprs_view(out@) == spec_slice_exprs(exprs_view(v@.subrange(0, k as int))),
        decreases v@.len() - k,
    {
        assert(decreases_to!(v => v@[k as int]));
        let r = transform_slice_expr(&v[k]);
        proof {
            lemma_exprs_view_push(out@, r);
            lemma_exprs_view_push(v@.subrange(0, k as int), v@[k as int]);
            assert(v@.subrange(0, k as int).push(v@[k as int]) =~= v@.subrange(0, k + 1));
            lemma_slice_exprs_push(exprs_view(v@.subrange(0, k as int)), expr_view(v@[k as int]));
        }
        out.push(r);
        k += 1;
    }
    assert(v@.subrange(0, k as int) =~= v@);
    out
}

fn transform_slice_stmt(s: &Stmt) -> (r: Stmt)
    ensures
        r@ == spec_slice_stmt(s@),
    decreases s,
{
    match s {
        Stmt::Expr(e) => Stmt::Expr(transform_slice_expr(e)),
        Stmt::LocalSet { local, value } => Stmt::LocalSet { local: *local, value: transform_slice_expr(value) },
        Stmt::If { cond, then_block, else_block } => Stmt::If {
            cond: transform_slice_expr(cond),
            then_block: transform_slice_patterns(then_block),
            else_block: match else_block {
                Some(b) => Some(transform_slice_patterns(b)),
                None => None,
            },
        },
        Stmt::Block { label, body } => Stmt::Block { label: *label, body: transform_slice_patterns(body) },
        Stmt::Loop { label, body } => Stmt::Loop { label: *label, body: transform_slice_patterns(body) },
        Stmt::DoWhile { body, cond } => Stmt::DoWhile { body: transform_slice_patterns(body), cond: cond.duplicate() },
        Stmt::While { cond, body } => Stmt::While { cond: cond.duplicate(), body: transform_slice_patterns(body) },
        _ => s.duplicate(),
    }
}

fn transform_slice_patterns(b: &Block) -> (r: Block)
    ensures
        r@ == spec_slice_block(b@),
    decreases b,
{
    let v = &b.stmts;
    let mut out: Vec<Stmt> = Vec::new();
    let mut k: usize = 0;
    while k < v.len()
        invariant
            *v == b.stmts,
            k <= v@.len(),
            stmts_view(out@) == spec_slice_stmts(stmts_view(v@.subrange(0, k as int))),
        decreases v@.len() - k,
    {
        assert(decreases_to!(b => b.stmts@[k as int]));
        let r = transform_slice_stmt(&v[k]);
        proof {
            lemma_stmts_view_push(out@, r);
            lemma_stmts_view_push(v@.subrange(0, k as int), v@[k as int]);
            assert(v@.subrange(0, k as int).push(v@[k as int]) =~= v@.subrange(0, k + 1));
            lemma_slice_stmts_push(stmts_view(v@.subrange(0, k as int)), stmt_view(v@[k as int]));
        }
        out.push(r);
        k += 1;
    }
    assert(v@.subrange(0, k as int) =~= v@);
    Block { stmts: out }
}

impl GoSlicePass {
    /// The pass's name, as logs show it.
    pub fn name(&self) -> (r: &'static str)
        ensures
            r@ == "go_slice"@,
    {
        "go_slice"
    }

    /// Recognize Go slices in the body of every function the module defines.
    pub fn run(&self, module: &mut Module, ctx: &mut PassContext)
        ensures
            bodies_rewritten(old(module).functions@, final(module).functions@, |b: BlockV| spec_slice_block(b)),
            final(module).memory == old(module).memory,
            final(module).globals == old(module).globals,
            final(module).exports == old(module).exports,
            final(module).imports == old(module).imports,
            final(module).data_segments == old(module).data_segments,
            final(module).types == old(module).types,
            final(module).func_types == old(module).func_types,
            final(module).elements == old(module).elements,
            final(module).memory_pages == old(module).memory_pages,
            final(module).table_size == old(module).table_size,
            *final(ctx) == *old(ctx),
    {
        let ghost fs0 = module.functions@;
        let n = module.functions.len();
        let mut i: usize = 0;
        while i < n
            invariant
                n == fs0.len(),
                i <= n,
                fs0 == old(module).functions@,
                module.memory == old(module).memory,
                module.globals == old(module).globals,
                module.exports == old(module).exports,
                module.imports == old(module).imports,
                module.data_segments == old(module).data_segments,
                module.types == old(module).types,
                module.func_types == old(module).func_types,
                module.elements == old(module).elements,
                module.memory_pages == old(module).memory_pages,
                module.table_size == old(module).table_size,
                module.functions@.len() == n,
                forall|k: int| i <= k < n ==> #[trigger] module.functions@[k] == fs0[k],
                forall|k: int| 0 <= k < i ==> {
                    let o = #[trigger] fs0[k];
                    let m = module.functions@[k];
                    &&& m.index == o.index
                    &&& m.name == o.name
                    &&& m.params == o.params
                    &&& m.results == o.results
                    &&& m.locals == o.locals
                    &&& m.is_import == o.is_import
                    &&& m.body@ == if o.is_import { o.body@ } else { spec_slice_block(o.body@) }
                },
            decreases n - i,
        {
            if !module.functions[i].is_import {
                let body = transform_slice_patterns(&module.functions[i].body);
                let mut f = module.functions.remove(i);
                f.body = body;
                module.functions.insert(i, f);
            }
            i += 1;
        }
        proof {
            let f = |b: BlockV| spec_slice_block(b);
            assert forall|k: int| 0 <= k < fs0.len() implies #[trigger] module.functions@[k].body@ == if fs0[k].is_import { fs0[k].body@ } else { f(fs0[k].body@) } by {}
        }
    }
}

/// Go interface pattern recognition pass: no argument pattern is recognized
/// as an interface value, so the module is left as it is.
pub struct GoInterfacePass;

impl GoInterfacePass {
    /// The pass's name, as logs show it.
    pub fn name(&self) -> (r: &'static str)
        ensures
            r@ == "go_interface"@,
    {
        "go_interface"
    }

    /// Leaves the module and the context as they are.
    pub fn run(&self, module: &mut Module, ctx: &mut PassContext)
        ensures
            *final(module) == *old(module),
            *final(ctx) == *old(ctx),
    {
    }
}

} // verus!
