//! Go string pattern recognition: Go strings are passed as (pointer, length)
//! argument pairs, which this pass turns into `GoString` expressions.
use vstd::prelude::*;
use crate::ir::{
    Block, BlockV, Expr, ExprKind, ExprKindV, ExprV, InferredType, Module, Stmt, StmtV, expr_view, exprs_view,
    stmt_view, stmts_view, lemma_exprs_view, lemma_exprs_view_push, lemma_stmts_view_push,
};
use crate::passes::PassContext;
use crate::passes::mem_resolve::bodies_rewritten;

verus! {

/// Go string pattern recognition pass
pub struct GoStringPass;

/// Two arguments look like a Go string: the pointer is typed `i32`, a
/// pointer or unknown, the length is typed `i32` or unknown, and either both are constants with a positive pointer and a
/// length in `1..10000`, or the pointer is a positive constant, or both are locals.
pub open spec fn spec_go_string_pair(ptr: ExprV, len: ExprV) -> bool {
    let ptr_ok = ptr.ty is I32 || ptr.ty is Pointer || ptr.ty is Unknown;
    let len_ok = len.ty is I32 || len.ty is Unknown;
    ptr_ok && len_ok && match (ptr.kind, len.kind) {
        (ExprKindV::I32Const(p), ExprKindV::I32Const(l)) => p > 0 && l > 0 && l < 10000,
        (ExprKindV::I32Const(p), _) => p > 0,
        (ExprKindV::Local(_), ExprKindV::Local(_)) => true,
        _ => false,
    }
}

/// A Go string expression.
pub open spec fn go_string(ptr: ExprV, len: ExprV) -> ExprV {
    ExprV { kind: ExprKindV::GoString { ptr: Box::new(ptr), len: Box::new(len) }, ty: InferredType::GoString }
}

/// Replace, scanning left to right from `i`, each pair of consecutive
/// arguments that looks like a Go string by one Go string expression.  The
/// flag tells whether any pair was replaced.
pub open spec fn go_string_args_from(args: Seq<ExprV>, i: int) -> (Seq<ExprV>, bool)
    decreases args.len() - i,
{
    if i < 0 || i >= args.len() {
        (Seq::empty(), false)
    } else if i + 1 < args.len() && spec_go_string_pair(args[i], args[i + 1]) {
        let rest = go_string_args_from(args, i + 2);
        (seq![go_string(args[i], args[i + 1])] + rest.0, true)
    } else {
        let rest = go_string_args_from(args, i + 1);
        (seq![args[i]] + rest.0, rest.1)
    }
}

/// The arguments with Go string pairs replaced, when there are at least two
/// and some pair was replaced.
pub open spec fn spec_try_go_string_args(args: Seq<ExprV>) -> Option<Seq<ExprV>> {
    if args.len() < 2 {
        None
    } else {
        let r = go_string_args_from(args, 0);
        if r.1 { Some(r.0) } else { None }
    }
}

/// An expression after Go string recognition: the arguments of a call are
/// transformed first, then their pairs replaced; operators, loads, selects
/// and conversions are transformed inside.
pub open spec fn spec_go_string_expr(e: ExprV) -> ExprV
    decreases e,
{
    match e.kind {
        ExprKindV::Call { func, args } => {
            let a = spec_go_string_exprs(args);
            match spec_try_go_string_args(a) {
                Some(r) => ExprV { kind: ExprKindV::Call { func, args: r }, ty: e.ty },
                None => ExprV { kind: ExprKindV::Call { func, args: a }, ty: e.ty },
            }
        },
        ExprKindV::CallIndirect { type_idx, table_idx, index, args } => ExprV {
            kind: ExprKindV::CallIndirect {
                type_idx,
                table_idx,
                index: Box::new(spec_go_string_expr(*index)),
                args: spec_go_string_exprs(args),
            },
            ty: e.ty,
        },
        ExprKindV::BinOp(op, a, b) => ExprV {
            kind: ExprKindV::BinOp(op, Box::new(spec_go_string_expr(*a)), Box::new(spec_go_string_expr(*b))),
            ty: e.ty,
        },
        ExprKindV::UnaryOp(op, a) => ExprV { kind: ExprKindV::UnaryOp(op, Box::new(spec_go_string_expr(*a))), ty: e.ty },
        ExprKindV::Compare(op, a, b, t) => ExprV {
            kind: ExprKindV::Compare(op, Box::new(spec_go_string_expr(*a)), Box::new(spec_go_string_expr(*b)), t),
            ty: e.ty,
        },
        ExprKindV::Load { addr, offset, size, signed } => ExprV {
            kind: ExprKindV::Load { addr: Box::new(spec_go_string_expr(*addr)), offset, size, signed },
            ty: e.ty,
        },
        ExprKindV::Select { cond, then_val, else_val } => ExprV {
            kind: ExprKindV::Select {
                cond: Box::new(spec_go_string_expr(*cond)),
                then_val: Box::new(spec_go_string_expr(*then_val)),
                else_val: Box::new(spec_go_string_expr(*else_val)),
            },
            ty: e.ty,
        },
        ExprKindV::Convert { op, expr } => ExprV {
            kind: ExprKindV::Convert { op, expr: Box::new(spec_go_string_expr(*expr)) },
            ty: e.ty,
        },
        _ => e,
    }
}

/// Each expression of a list after Go string recognition.
pub open spec fn spec_go_string_exprs(s: Seq<ExprV>) -> Seq<ExprV>
    decreases s,
{
    if s.len() == 0 {
        Seq::empty()
    } else {
        spec_go_string_exprs(s.drop_last()).push(spec_go_string_expr(s.last()))
    }
}

/// A statement after Go string recognition in its expressions and nested blocks.
pub open spec fn spec_go_string_stmt(s: StmtV) -> StmtV
    decreases s,
{
    match s {
        StmtV::Expr(e) => StmtV::Expr(spec_go_string_expr(e)),
        StmtV::LocalSet { local, value } => StmtV::LocalSet { local, value: spec_go_string_expr(value) },
        StmtV::GlobalSet { global, value } => StmtV::GlobalSet { global, value: spec_go_string_expr(value) },
        StmtV::Store { addr, offset, value, size } => StmtV::Store {
            addr: spec_go_string_expr(addr),
            offset,
            value: spec_go_string_expr(value),
            size,
        },
        StmtV::Return(v) => StmtV::Return(
            match v {
                Some(e) => Some(spec_go_string_expr(e)),
                None => None,
            },
        ),
        StmtV::If { cond, then_block, else_block } => StmtV::If {
            cond: spec_go_string_expr(cond),
            then_block: spec_go_string_block(then_block),
            else_block: match else_block {
                Some(b) => Some(spec_go_string_block(b)),
                None => None,
            },
        },
        StmtV::Block { label, body } => StmtV::Block { label, body: spec_go_string_block(body) },
        StmtV::Loop { label, body } => StmtV::Loop { label, body: spec_go_string_block(body) },
        StmtV::DoWhile { body, cond } => StmtV::DoWhile { body: spec_go_string_block(body), cond: spec_go_string_expr(cond) },
        StmtV::While { cond, body } => StmtV::While { cond: spec_go_string_expr(cond), body: spec_go_string_block(body) },
        StmtV::BrIf { label, cond, is_loop } => StmtV::BrIf { label, cond: spec_go_string_expr(cond), is_loop },
        StmtV::BrTable { index, targets, default } => StmtV::BrTable { index: spec_go_string_expr(index), targets, default },
        StmtV::Drop(e) => StmtV::Drop(spec_go_string_expr(e)),
        _ => s,
    }
}

/// A block after Go string recognition in each statement.
pub open spec fn spec_go_string_block(b: BlockV) -> BlockV
    decreases b,
{
    BlockV { stmts: spec_go_string_stmts(b.stmts) }
}

/// Each statement of a list after Go string recognition.
pub open spec fn spec_go_string_stmts(s: Seq<StmtV>) -> Seq<StmtV>
    decreases s,
{
    if s.len() == 0 {
        Seq::empty()
    } else {
        spec_go_string_stmts(s.drop_last()).push(spec_go_string_stmt(s.last()))
    }
}

/// Whether two expressions look like a Go string (pointer, length) pair:
/// both i32-typed (the pointer may be a pointer, either may be untyped).
pub fn looks_like_go_string_pair(ptr: &Expr, len: &Expr) -> (r: bool)
    ensures
        r == spec_go_string_pair(ptr@, len@),
{
    let ptr_ok = matches!(ptr.ty, InferredType::I32 | InferredType::Pointer(_) | InferredType::Unknown);
    let len_ok = matches!(len.ty, InferredType::I32 | InferredType::Unknown);
    if !ptr_ok || !len_ok {
        return false;
    }
    match (&ptr.kind, &len.kind) {
        (ExprKind::I32Const(p), ExprKind::I32Const(l)) => *p > 0 && *l > 0 && *l < 10000,
        (ExprKind::I32Const(p), _) => *p > 0,
        (ExprKind::Local(_), ExprKind::Local(_)) => true,
        _ => false,
    }
}

fn go_string_pairs(args: &Vec<Expr>) -> (r: (Vec<Expr>, bool))
    ensures
        exprs_view(r.0@) == go_string_args_from(exprs_view(args@), 0).0,
        r.1 == go_string_args_from(exprs_view(args@), 0).1,
{
    let ghost av = exprs_view(args@);
    proof {
        lemma_exprs_view(args@);
    }
    let mut out: Vec<Expr> = Vec::new();
    let mut any = false;
    let mut i: usize = 0;
    while i < args.len()
        invariant
            av == exprs_view(args@),
            av.len() == args@.len(),
            forall|k: int| 0 <= k < args@.len() ==> #[trigger] av[k] == expr_view(args@[k]),
            i <= args@.len() + 1,
            exprs_view(out@) + go_string_args_from(av, i as int).0 == go_string_args_from(av, 0).0,
            (any || go_string_args_from(av, i as int).1) == go_string_args_from(av, 0).1,
        decreases args@.len() + 1 - i,
    {
        if i + 1 < args.len() && looks_like_go_string_pair(&args[i], &args[i + 1]) {
            let e = Expr {
                kind: ExprKind::GoString { ptr: Box::new(args[i].duplicate()), len: Box::new(args[i + 1].duplicate()) },
                ty: InferredType::GoString,
            };
            proof {
                assert(av[i as int] == expr_view(args@[i as int]));
                assert(av[i + 1] == expr_view(args@[i + 1]));
                lemma_exprs_view_push(out@, e);
                let rest = go_string_args_from(av, i + 2);
                assert(exprs_view(out@).push(expr_view(e)) + rest.0 =~= exprs_view(out@) + (seq![expr_view(e)] + rest.0));
            }
            out.push(e);
            any = true;
            i += 2;
        } else {
            let e = args[i].duplicate();
            proof {
                if i + 1 < args.len() {
                    assert(av[i + 1] == expr_view(args@[i + 1]));
                }
                lemma_exprs_view_push(out@, e);
                let rest = go_string_args_from(av, i + 1);
                assert(exprs_view(out@).push(av[i as int]) + rest.0 =~= exprs_view(out@) + (seq![av[i as int]] + rest.0));
            }
            out.push(e);
            i += 1;
        }
    }
    proof {
        assert(go_string_args_from(av, i as int).0 =~= Seq::<ExprV>::empty());
        assert(exprs_view(out@) + Seq::<ExprV>::empty() =~= exprs_view(out@));
    }
    (out, any)
}

proof fn lemma_go_string_exprs_push(s: Seq<ExprV>, e: ExprV)
    ensures
        spec_go_string_exprs(s.push(e)) == spec_go_string_exprs(s).push(spec_go_string_expr(e)),
{
    assert(s.push(e).drop_last() =~= s);
}

proof fn lemma_go_string_stmts_push(s: Seq<StmtV>, e: StmtV)
    ensures
        spec_go_string_stmts(s.push(e)) == spec_go_string_stmts(s).push(spec_go_string_stmt(e)),
{
    assert(s.push(e).drop_last() =~= s);
}

#[verifier::rlimit(40)]
fn transform_string_expr(e: &Expr) -> (r: Expr)
    ensures
        r@ == spec_go_string_expr(e@),
    decreases e,
{
    let ty = e.ty.duplicate();
    match &e.kind {
        ExprKind::Call { func, args } => {
            let a = transform_string_exprs(args);
            proof {
                lemma_exprs_view(a@);
            }
            let (paired, any) = if a.len() < 2 { (Vec::new(), false) } else { go_string_pairs(&a) };
            assert(e@.kind == ExprKindV::Call { func: *func, args: exprs_view(args@) });
            if any {
                assert(spec_try_go_string_args(exprs_view(a@)) == Some(exprs_view(paired@)));
                Expr { kind: ExprKind::Call { func: *func, args: paired }, ty }
            } else {
                assert(spec_try_go_string_args(exprs_view(a@)) is None);
                Expr { kind: ExprKind::Call { func: *func, args: a }, ty }
            }
        },
        ExprKind::CallIndirect { type_idx, table_idx, index, args } => {
            let index = transform_string_expr(index);
            let args = transform_string_exprs(args);
            Expr { kind: ExprKind::CallIndirect { type_idx: *type_idx, table_idx: *table_idx, index: Box::new(index), args }, ty }
        },
        ExprKind::BinOp(op, a, b) => {
            let a = transform_string_expr(a);
            let b = transform_string_expr(b);
            Expr { kind: ExprKind::BinOp(*op, Box::new(a), Box::new(b)), ty }
        },
        ExprKind::UnaryOp(op, a) => {
            let a = transform_string_expr(a);
            Expr { kind: ExprKind::UnaryOp(*op, Box::new(a)), ty }
        },
        ExprKind::Compare(op, a, b, t) => {
            let a = transform_string_expr(a);
            let b = transform_string_expr(b);
            Expr { kind: ExprKind::Compare(*op, Box::new(a), Box::new(b), t.duplicate()), ty }
        },
        ExprKind::Load { addr, offset, size, signed } => {
            let addr = transform_string_expr(addr);
            Expr { kind: ExprKind::Load { addr: Box::new(addr), offset: *offset, size: *size, signed: *signed }, ty }
        },
        ExprKind::Select { cond, then_val, else_val } => {
            let cond = transform_string_expr(cond);
            let then_val = transform_string_expr(then_val);
            let else_val = transform_string_expr(else_val);
            Expr {
                kind: ExprKind::Select { cond: Box::new(cond), then_val: Box::new(then_val), else_val: Box::new(else_val) },
                ty,
            }
        },
        ExprKind::Convert { op, expr } => {
            let inner = transform_string_expr(expr);
            Expr { kind: ExprKind::Convert { op: *op, expr: Box::new(inner) }, ty }
        },
        _ => e.duplicate(),
    }
}

fn transform_string_exprs(v: &Vec<Expr>) -> (r: Vec<Expr>)
    ensures
        exprs_view(r@) == spec_go_string_exprs(exprs_view(v@)),
    decreases v,
{
    let mut out: Vec<Expr> = Vec::new();
    let mut k: usize = 0;
    while k < v.len()
        invariant
            k <= v@.len(),
            exprs_view(out@) == spec_go_string_exprs(exprs_view(v@.subrange(0, k as int))),
        decreases v@.len() - k,
    {
        assert(decreases_to!(v => v@[k as int]));
        let r = transform_string_expr(&v[k]);
        proof {
            lemma_exprs_view_push(out@, r);
            lemma_exprs_view_push(v@.subrange(0, k as int), v@[k as int]);
            assert(v@.subrange(0, k as int).push(v@[k as int]) =~= v@.subrange(0, k + 1));
            lemma_go_string_exprs_push(exprs_view(v@.subrange(0, k as int)), expr_view(v@[k as int]));
        }
        out.push(r);
        k += 1;
    }
    assert(v@.subrange(0, k as int) =~= v@);
    out
}

#[verifier::rlimit(40)]
fn transform_string_stmt(s: &Stmt) -> (r: Stmt)
    ensures
        r@ == spec_go_string_stmt(s@),
    decreases s,
{
    match s {
        Stmt::Expr(e) => Stmt::Expr(transform_string_expr(e)),
        Stmt::LocalSet { local, value } => Stmt::LocalSet { local: *local, value: transform_string_expr(value) },
        Stmt::GlobalSet { global, value } => Stmt::GlobalSet { global: *global, value: transform_string_expr(value) },
        Stmt::Store { addr, offset, value, size } => Stmt::Store {
            addr: transform_string_expr(addr),
            offset: *offset,
            value: transform_string_expr(value),
            size: *size,
        },
        Stmt::Return(v) => Stmt::Return(
            match v {
                Some(e) => Some(transform_string_expr(e)),
                None => None,
            },
        ),
        Stmt::If { cond, then_block, else_block } => Stmt::If {
            cond: transform_string_expr(cond),
            then_block: transform_string_patterns(then_block),
            else_block: match else_block {
                Some(b) => Some(transform_string_patterns(b)),
                None => None,
            },
        },
        Stmt::Block { label, body } => Stmt::Block { label: *label, body: transform_string_patterns(body) },
        Stmt::Loop { label, body } => Stmt::Loop { label: *label, body: transform_string_patterns(body) },
        Stmt::DoWhile { body, cond } => Stmt::DoWhile { body: transform_string_patterns(body), cond: transform_string_expr(cond) },
        Stmt::While { cond, body } => Stmt::While { cond: transform_string_expr(cond), body: transform_string_patterns(body) },
        Stmt::BrIf { label, cond, is_loop } => Stmt::BrIf { label: *label, cond: transform_string_expr(cond), is_loop: *is_loop },
        Stmt::BrTable { index, targets, default } => Stmt::BrTable {
            index: transform_string_expr(index),
            targets: crate::ir::copy_targets(targets),
            default: *default,
        },
        Stmt::Drop(e) => Stmt::Drop(transform_string_expr(e)),
        _ => s.duplicate(),
    }
}

fn transform_string_patterns(b: &Block) -> (r: Block)
    ensures
        r@ == spec_go_string_block(b@),
    decreases b,
{
    let v = &b.stmts;
    let mut out: Vec<Stmt> = Vec::new();
    let mut k: usize = 0;
    while k < v.len()
        invariant
            *v == b.stmts,
            k <= v@.len(),
            stmts_view(out@) == spec_go_string_stmts(stmts_view(v@.subrange(0, k as int))),
        decreases v@.len() - k,
    {
        assert(decreases_to!(b => b.stmts@[k as int]));
        let r = transform_string_stmt(&v[k]);
        proof {
            lemma_stmts_view_push(out@, r);
            lemma_stmts_view_push(v@.subrange(0, k as int), v@[k as int]);
            assert(v@.subrange(0, k as int).push(v@[k as int]) =~= v@.subrange(0, k + 1));
            lemma_go_string_stmts_push(stmts_view(v@.subrange(0, k as int)), stmt_view(v@[k as int]));
        }
        out.push(r);
        k += 1;
    }
    assert(v@.subrange(0, k as int) =~= v@);
    Block { stmts: out }
}

impl GoStringPass {
    /// The pass's name, as logs show it.
    pub fn name(&self) -> (r: &'static str)
        ensures
            r@ == "go_string"@,
    {
        "go_string"
    }

    /// Recognize Go strings in the body of every function the module defines.
    pub fn run(&self, module: &mut Module, ctx: &mut PassContext)
        ensures
            bodies_rewritten(old(module).functions@, final(module).functions@, |b: BlockV| spec_go_string_block(b)),
            final(module).memory == old(module).memory,
            final(module).globals == old(module).globals,
            final(module).exports == old(module).exports,
            final(module).imports == old(module).imports,
            final(module).data_segments == old(module).data_segments,
            final(module).types == old(module).types,
            final(module).func_types == old(module).func_types,
            final(module).elements == old(module).elements,
            final(module).memory_pages == old(module).memory_pages,
            final(module).table_size == old(module).table_size,
            *final(ctx) == *old(ctx),
    {
        let ghost fs0 = module.functions@;
        let n = module.functions.len();
        let mut i: usize = 0;
        while i < n
            invariant
                n == fs0.len(),
                i <= n,
                fs0 == old(module).functions@,
                module.memory == old(module).memory,
                module.globals == old(module).globals,
                module.exports == old(module).exports,
                module.imports == old(module).imports,
                module.data_segments == old(module).data_segments,
                module.types == old(module).types,
                module.func_types == old(module).func_types,
                module.elements == old(module).elements,
                module.memory_pages == old(module).memory_pages,
                module.table_size == old(module).table_size,
                module.functions@.len() == n,
                forall|k: int| i <= k < n ==> #[trigger] module.functions@[k] == fs0[k],
                forall|k: int| 0 <= k < i ==> {
                    let o = #[trigger] fs0[k];
                    let m = module.functions@[k];
                    &&& m.index == o.index
                    &&& m.name == o.name
                    &&& m.params == o.params
                    &&& m.results == o.results
                    &&& m.locals == o.locals
                    &&& m.is_import == o.is_import
                    &&& m.body@ == if o.is_import { o.body@ } else { spec_go_string_block(o.body@) }
                },
            decreases n - i,
        {
            if !module.functions[i].is_import {
                let body = transform_string_patterns(&module.functions[i].body);
                let mut f = module.functions.remove(i);
                f.body = body;
                module.functions.insert(i, f);
            }
            i += 1;
        }
        proof {
            let f = |b: BlockV| spec_go_string_block(b);
            assert forall|k: int| 0 <= k < fs0.len() implies #[trigger] module.functions@[k].body@ == if fs0[k].is_import { fs0[k].body@ } else { f(fs0[k].body@) } by {}
        }
    }
}

} // verus!
