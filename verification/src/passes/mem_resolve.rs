//! Memory resolution pass: resolves constant memory pointers to the strings
//! they point to when the bytes there read as text.
use vstd::prelude::*;
use crate::ir::{
    Block, BlockV, Expr, ExprKind, ExprKindV, ExprV, Function, InferredType, Module, Stmt, StmtV, expr_view, exprs_view,
    stmt_view, stmts_view, block_view, lemma_exprs_view, lemma_exprs_view_push, lemma_stmts_view, lemma_stmts_view_push,
};
use crate::text::spec_string_at;
use crate::passes::PassContext;
pub use crate::text::{get_string_from_memory, is_readable_string, is_printable_char};

verus! {

/// Memory resolution pass
pub struct MemResolvePass;

/// The text that a (pointer, length) pair of constant arguments denotes, when
/// the pair looks like a string: a positive pointer and a length in `1..10000`.
pub open spec fn arg_pair_string(mem: Seq<u8>, a: ExprV, b: ExprV) -> Option<Seq<char>> {
    match (a.kind, b.kind) {
        (ExprKindV::I32Const(p), ExprKindV::I32Const(l)) => if p > 0 && l > 0 && l < 10000 {
            spec_string_at(mem, p as int, l as int)
        } else {
            None
        },
        _ => None,
    }
}

/// A string literal expression.
pub open spec fn string_literal(s: Seq<char>) -> ExprV {
    ExprV { kind: ExprKindV::StringLiteral(s), ty: InferredType::GoString }
}

/// Replace, scanning left to right from `i`, each pair of consecutive
/// arguments that denotes a string by one string literal.  The flag tells
/// whether any pair was replaced.
pub open spec fn resolve_args_from(mem: Seq<u8>, args: Seq<ExprV>, i: int) -> (Seq<ExprV>, bool)
    decreases args.len() - i,
{
    if i < 0 || i >= args.len() {
        (Seq::empty(), false)
    } else if i + 1 < args.len() && arg_pair_string(mem, args[i], args[i + 1]) is Some {
        let rest = resolve_args_from(mem, args, i + 2);
        (seq![string_literal(arg_pair_string(mem, args[i], args[i + 1])->0)] + rest.0, true)
    } else {
        let rest = resolve_args_from(mem, args, i + 1);
        (seq![args[i]] + rest.0, rest.1)
    }
}

/// The arguments with their string pairs replaced, when at least two
/// arguments are given and some pair was replaced.
pub open spec fn spec_try_resolve_string_args(mem: Seq<u8>, args: Seq<ExprV>) -> Option<Seq<ExprV>> {
    if args.len() < 2 {
        None
    } else {
        let r = resolve_args_from(mem, args, 0);
        if r.1 {
            Some(r.0)
        } else {
            None
        }
    }
}

/// The text a Go string of constant pointer and length denotes.  A pointer
/// and length whose sum overflows the address space are left alone.
pub open spec fn go_string_text(mem: Seq<u8>, p: i32, l: i32) -> Option<Seq<char>> {
    if (p as usize) + (l as usize) > usize::MAX {
        None
    } else if (p as usize) + (l as usize) <= mem.len() && (l as usize) * 100 > usize::MAX {
        None
    } else {
        spec_string_at(mem, (p as usize) as int, (l as usize) as int)
    }
}

/// An expression after memory resolution.
pub open spec fn spec_resolve_expr(mem: Seq<u8>, e: ExprV) -> ExprV
    decreases e,
{
    match e.kind {
        ExprKindV::Call { func, args } => match spec_try_resolve_string_args(mem, args) {
            Some(r) => ExprV { kind: ExprKindV::Call { func, args: r }, ty: e.ty },
            None => ExprV { kind: ExprKindV::Call { func, args: spec_resolve_exprs(mem, args) }, ty: e.ty },
        },
        ExprKindV::CallIndirect { type_idx, table_idx, index, args } => ExprV {
            kind: ExprKindV::CallIndirect {
                type_idx,
                table_idx,
                index: Box::new(spec_resolve_expr(mem, *index)),
                args: spec_resolve_exprs(mem, args),
            },
            ty: e.ty,
        },
        ExprKindV::BinOp(op, a, b) => ExprV {
            kind: ExprKindV::BinOp(op, Box::new(spec_resolve_expr(mem, *a)), Box::new(spec_resolve_expr(mem, *b))),
            ty: e.ty,
        },
        ExprKindV::UnaryOp(op, a) => ExprV { kind: ExprKindV::UnaryOp(op, Box::new(spec_resolve_expr(mem, *a))), ty: e.ty },
        ExprKindV::Compare(op, a, b, t) => ExprV {
            kind: ExprKindV::Compare(op, Box::new(spec_resolve_expr(mem, *a)), Box::new(spec_resolve_expr(mem, *b)), t),
            ty: e.ty,
        },
        ExprKindV::Load { addr, offset, size, signed } => ExprV {
            kind: ExprKindV::Load { addr: Box::new(spec_resolve_expr(mem, *addr)), offset, size, signed },
            ty: e.ty,
        },
        ExprKindV::Select { cond, then_val, else_val } => ExprV {
            kind: ExprKindV::Select {
                cond: Box::new(spec_resolve_expr(mem, *cond)),
                then_val: Box::new(spec_resolve_expr(mem, *then_val)),
                else_val: Box::new(spec_resolve_expr(mem, *else_val)),
            },
            ty: e.ty,
        },
        ExprKindV::Convert { op, expr } => ExprV {
            kind: ExprKindV::Convert { op, expr: Box::new(spec_resolve_expr(mem, *expr)) },
            ty: e.ty,
        },
        ExprKindV::GoString { ptr, len } => {
            let p = spec_resolve_expr(mem, *ptr);
            let l = spec_resolve_expr(mem, *len);
            match (p.kind, l.kind) {
                (ExprKindV::I32Const(pv), ExprKindV::I32Const(lv)) => match go_string_text(mem, pv, lv) {
                    Some(s) => ExprV { kind: ExprKindV::StringLiteral(s), ty: InferredType::GoString },
                    None => ExprV { kind: ExprKindV::GoString { ptr: Box::new(p), len: Box::new(l) }, ty: e.ty },
                },
                _ => ExprV { kind: ExprKindV::GoString { ptr: Box::new(p), len: Box::new(l) }, ty: e.ty },
            }
        },
        ExprKindV::GoSlice { ptr, len, cap } => ExprV {
            kind: ExprKindV::GoSlice {
                ptr: Box::new(spec_resolve_expr(mem, *ptr)),
                len: Box::new(spec_resolve_expr(mem, *len)),
                cap: Box::new(spec_resolve_expr(mem, *cap)),
            },
            ty: e.ty,
        },
        ExprKindV::GoInterface { type_ptr, data } => ExprV {
            kind: ExprKindV::GoInterface {
                type_ptr: Box::new(spec_resolve_expr(mem, *type_ptr)),
                data: Box::new(spec_resolve_expr(mem, *data)),
            },
            ty: e.ty,
        },
        _ => e,
    }
}

/// A list of expressions after memory resolution.
pub open spec fn spec_resolve_exprs(mem: Seq<u8>, s: Seq<ExprV>) -> Seq<ExprV>
    decreases s,
{
    if s.len() == 0 {
        Seq::empty()
    } else {
        spec_resolve_exprs(mem, s.drop_last()).push(spec_resolve_expr(mem, s.last()))
    }
}

proof fn lemma_resolve_exprs_push(mem: Seq<u8>, s: Seq<ExprV>, e: ExprV)
    ensures
        spec_resolve_exprs(mem, s.push(e)) == spec_resolve_exprs(mem, s).push(spec_resolve_expr(mem, e)),
{
    assert(s.push(e).drop_last() =~= s);
}

/// Scan the arguments from `i`, replacing string pairs; see `resolve_args_from`.
fn resolve_pairs(args: &Vec<Expr>, memory: &[u8]) -> (r: (Vec<Expr>, bool))
    ensures
        exprs_view(r.0@) == resolve_args_from(memory@, exprs_view(args@), 0).0,
        r.1 == resolve_args_from(memory@, exprs_view(args@), 0).1,
{
    let ghost av = exprs_view(args@);
    proof {
        lemma_exprs_view(args@);
    }
    let mut out: Vec<Expr> = Vec::new();
    let mut any = false;
    let mut i: usize = 0;
    while i < args.len()
        invariant
            av == exprs_view(args@),
            av.len() == args@.len(),
            forall|k: int| 0 <= k < args@.len() ==> #[trigger] av[k] == expr_view(args@[k]),
            i <= args@.len() + 1,
            exprs_view(out@) + resolve_args_from(memory@, av, i as int).0 == resolve_args_from(memory@, av, 0).0,
            (any || resolve_args_from(memory@, av, i as int).1) == resolve_args_from(memory@, av, 0).1,
        decreases args@.len() + 1 - i,
    {
        let mut pair: Option<String> = None;
        if i + 1 < args.len() {
            match (&args[i].kind, &args[i + 1].kind) {
                (ExprKind::I32Const(ptr), ExprKind::I32Const(len)) => {
                    if *ptr > 0 && *len > 0 && *len < 10000 {
                        pair = get_string_from_memory(memory, *ptr as usize, *len as usize);
                    }
                },
                _ => {},
            }
        }
        proof {
            if i + 1 < args.len() {
                assert(av[i as int] == expr_view(args@[i as int]));
                assert(av[i + 1] == expr_view(args@[i + 1]));
            }
        }
        match pair {
            Some(s) => {
                let ghost text = s@;
                let lit = Expr::with_type(ExprKind::StringLiteral(s), InferredType::GoString);
                proof {
                    lemma_exprs_view_push(out@, lit);
                    assert(expr_view(lit) == string_literal(text));
                    let rest = resolve_args_from(memory@, av, i + 2);
                    assert(resolve_args_from(memory@, av, i as int).0 == seq![string_literal(text)] + rest.0);
                    assert(exprs_view(out@).push(string_literal(text)) + rest.0 =~= exprs_view(out@) + (seq![string_literal(text)] + rest.0));
                }
                out.push(lit);
                any = true;
                i += 2;
            },
            None => {
                let e = args[i].duplicate();
                proof {
                    lemma_exprs_view_push(out@, e);
                    let rest = resolve_args_from(memory@, av, i + 1);
                    assert(resolve_args_from(memory@, av, i as int).0 == seq![av[i as int]] + rest.0);
                    assert(exprs_view(out@).push(av[i as int]) + rest.0 =~= exprs_view(out@) + (seq![av[i as int]] + rest.0));
                }
                out.push(e);
                i += 1;
            },
        }
    }
    proof {
        assert(resolve_args_from(memory@, av, i as int).0 =~= Seq::<ExprV>::empty());
        assert(exprs_view(out@) + Seq::<ExprV>::empty() =~= exprs_view(out@));
    }
    (out, any)
}


/// Resolve memory references in an expression.
#[verifier::rlimit(40)]
fn resolve_expr(e: &Expr, memory: &[u8]) -> (r: Expr)
    ensures
        r@ == spec_resolve_expr(memory@, e@),
    decreases e,
{
    let ty = e.ty.duplicate();
    match &e.kind {
        ExprKind::Call { func, args } => {
            let (resolved, any) = if args.len() < 2 { (Vec::new(), false) } else { resolve_pairs(args, memory) };
            let ghost av = exprs_view(args@);
            proof {
                lemma_exprs_view(args@);
            }
            assert(e@.kind == ExprKindV::Call { func: *func, args: av });
            if any {
                let r = Expr { kind: ExprKind::Call { func: *func, args: resolved }, ty };
                assert(spec_try_resolve_string_args(memory@, av) == Some(exprs_view(resolved@)));
                assert(r@ == spec_resolve_expr(memory@, e@));
                r
            } else {
                let out = resolve_exprs(args, memory);
                let r = Expr { kind: ExprKind::Call { func: *func, args: out }, ty };
                assert(spec_try_resolve_string_args(memory@, av) is None);
                assert(r@ == spec_resolve_expr(memory@, e@));
                r
            }
        },
        ExprKind::CallIndirect { type_idx, table_idx, index, args } => {
            let index = resolve_expr(index, memory);
            let args = resolve_exprs(args, memory);
            Expr { kind: ExprKind::CallIndirect { type_idx: *type_idx, table_idx: *table_idx, index: Box::new(index), args }, ty }
        },
        ExprKind::BinOp(op, a, b) => {
            let a = resolve_expr(a, memory);
            let b = resolve_expr(b, memory);
            Expr { kind: ExprKind::BinOp(*op, Box::new(a), Box::new(b)), ty }
        },
        ExprKind::UnaryOp(op, a) => {
            let a = resolve_expr(a, memory);
            Expr { kind: ExprKind::UnaryOp(*op, Box::new(a)), ty }
        },
        ExprKind::Compare(op, a, b, t) => {
            let a = resolve_expr(a, memory);
            let b = resolve_expr(b, memory);
            Expr { kind: ExprKind::Compare(*op, Box::new(a), Box::new(b), t.duplicate()), ty }
        },
        ExprKind::Load { addr, offset, size, signed } => {
            let addr = resolve_expr(addr, memory);
            Expr { kind: ExprKind::Load { addr: Box::new(addr), offset: *offset, size: *size, signed: *signed }, ty }
        },
        ExprKind::Select { cond, then_val, else_val } => {
            let cond = resolve_expr(cond, memory);
            let then_val = resolve_expr(then_val, memory);
            let else_val = resolve_expr(else_val, memory);
            Expr {
                kind: ExprKind::Select { cond: Box::new(cond), then_val: Box::new(then_val), else_val: Box::new(else_val) },
                ty,
            }
        },
        ExprKind::Convert { op, expr } => {
            let inner = resolve_expr(expr, memory);
            Expr { kind: ExprKind::Convert { op: *op, expr: Box::new(inner) }, ty }
        },
        ExprKind::GoString { ptr, len } => {
            let ptr = resolve_expr(ptr, memory);
            let len = resolve_expr(len, memory);
            let text = go_string_lookup(&ptr, &len, memory);
            let r = match text {
                Some(s) => Expr { kind: ExprKind::StringLiteral(s), ty: InferredType::GoString },
                None => Expr { kind: ExprKind::GoString { ptr: Box::new(ptr), len: Box::new(len) }, ty },
            };
            assert(r@ == spec_resolve_expr(memory@, e@));
            r
        },
        ExprKind::GoSlice { ptr, len, cap } => {
            let ptr = resolve_expr(ptr, memory);
            let len = resolve_expr(len, memory);
            let cap = resolve_expr(cap, memory);
            Expr { kind: ExprKind::GoSlice { ptr: Box::new(ptr), len: Box::new(len), cap: Box::new(cap) }, ty }
        },
        ExprKind::GoInterface { type_ptr, data } => {
            let type_ptr = resolve_expr(type_ptr, memory);
            let data = resolve_expr(data, memory);
            Expr { kind: ExprKind::GoInterface { type_ptr: Box::new(type_ptr), data: Box::new(data) }, ty }
        },
        _ => e.duplicate(),
    }
}

/// The text a Go string with the given resolved pointer and length denotes.
fn go_string_lookup(ptr: &Expr, len: &Expr, memory: &[u8]) -> (r: Option<String>)
    ensures
        match (ptr@.kind, len@.kind) {
            (ExprKindV::I32Const(p), ExprKindV::I32Const(l)) => match r {
                Some(s) => go_string_text(memory@, p, l) == Some(s@),
                None => go_string_text(memory@, p, l) is None,
            },
            _ => r is None,
        },
{
    match (&ptr.kind, &len.kind) {
        (ExprKind::I32Const(p), ExprKind::I32Const(l)) => {
            let pu = *p as usize;
            let lu = *l as usize;
            if pu > usize::MAX - lu {
                None
            } else if pu + lu <= memory.len() && lu > usize::MAX / 100 {
                None
            } else {
                get_string_from_memory(memory, pu, lu)
            }
        },
        _ => None,
    }
}

/// Resolve memory references in each expression of a list.
fn resolve_exprs(v: &Vec<Expr>, memory: &[u8]) -> (r: Vec<Expr>)
    ensures
        exprs_view(r@) == spec_resolve_exprs(memory@, exprs_view(v@)),
    decreases v,
{
    let mut out: Vec<Expr> = Vec::new();
    let mut k: usize = 0;
    while k < v.len()
        invariant
            k <= v@.len(),
            exprs_view(out@) == spec_resolve_exprs(memory@, exprs_view(v@.subrange(0, k as int))),
        decreases v@.len() - k,
    {
        assert(decreases_to!(v => v@[k as int]));
        let r = resolve_expr(&v[k], memory);
        proof {
            lemma_exprs_view_push(out@, r);
            lemma_exprs_view_push(v@.subrange(0, k as int), v@[k as int]);
            assert(v@.subrange(0, k as int).push(v@[k as int]) =~= v@.subrange(0, k + 1));
            lemma_resolve_exprs_push(memory@, exprs_view(v@.subrange(0, k as int)), expr_view(v@[k as int]));
        }
        out.push(r);
        k += 1;
    }
    assert(v@.subrange(0, k as int) =~= v@);
    out
}


/// An optional expression after memory resolution.
pub open spec fn spec_resolve_opt(mem: Seq<u8>, e: Option<ExprV>) -> Option<ExprV> {
    match e {
        Some(x) => Some(spec_resolve_expr(mem, x)),
        None => None,
    }
}

/// A statement after memory resolution: the expressions and nested blocks of
/// assignments, stores, returns, conditionals, loops and branches are resolved;
/// other statements are kept as they are.
pub open spec fn spec_resolve_stmt(mem: Seq<u8>, s: StmtV) -> StmtV
    decreases s,
{
    match s {
        StmtV::LocalSet { local, value } => StmtV::LocalSet { local, value: spec_resolve_expr(mem, value) },
        StmtV::GlobalSet { global, value } => StmtV::GlobalSet { global, value: spec_resolve_expr(mem, value) },
        StmtV::Store { addr, offset, value, size } => StmtV::Store {
            addr: spec_resolve_expr(mem, addr),
            offset,
            value: spec_resolve_expr(mem, value),
            size,
        },
        StmtV::Expr(e) => StmtV::Expr(spec_resolve_expr(mem, e)),
        StmtV::Return(v) => StmtV::Return(spec_resolve_opt(mem, v)),
        StmtV::If { cond, then_block, else_block } => StmtV::If {
            cond: spec_resolve_expr(mem, cond),
            then_block: spec_resolve_block(mem, then_block),
            else_block: match else_block {
                Some(b) => Some(spec_resolve_block(mem, b)),
                None => None,
            },
        },
        StmtV::Block { label, body } => StmtV::Block { label, body: spec_resolve_block(mem, body) },
        StmtV::Loop { label, body } => StmtV::Loop { label, body: spec_resolve_block(mem, body) },
        StmtV::DoWhile { body, cond } => StmtV::DoWhile { body: spec_resolve_block(mem, body), cond: spec_resolve_expr(mem, cond) },
        StmtV::While { cond, body } => StmtV::While { cond: spec_resolve_expr(mem, cond), body: spec_resolve_block(mem, body) },
        StmtV::BrIf { label, cond, is_loop } => StmtV::BrIf { label, cond: spec_resolve_expr(mem, cond), is_loop },
        StmtV::BrTable { index, targets, default } => StmtV::BrTable { index: spec_resolve_expr(mem, index), targets, default },
        StmtV::Drop(e) => StmtV::Drop(spec_resolve_expr(mem, e)),
        _ => s,
    }
}

/// A block after memory resolution of each of its statements.
pub open spec fn spec_resolve_block(mem: Seq<u8>, b: BlockV) -> BlockV
    decreases b,
{
    BlockV { stmts: spec_resolve_stmts(mem, b.stmts) }
}

/// A list of statements after memory resolution.
pub open spec fn spec_resolve_stmts(mem: Seq<u8>, s: Seq<StmtV>) -> Seq<StmtV>
    decreases s,
{
    if s.len() == 0 {
        Seq::empty()
    } else {
        spec_resolve_stmts(mem, s.drop_last()).push(spec_resolve_stmt(mem, s.last()))
    }
}

proof fn lemma_resolve_stmts_push(mem: Seq<u8>, s: Seq<StmtV>, e: StmtV)
    ensures
        spec_resolve_stmts(mem, s.push(e)) == spec_resolve_stmts(mem, s).push(spec_resolve_stmt(mem, e)),
{
    assert(s.push(e).drop_last() =~= s);
}

/// Resolve memory references in a statement.
#[verifier::rlimit(40)]
fn resolve_stmt(s: &Stmt, memory: &[u8]) -> (r: Stmt)
    ensures
        r@ == spec_resolve_stmt(memory@, s@),
    decreases s,
{
    match s {
        Stmt::LocalSet { local, value } => Stmt::LocalSet { local: *local, value: resolve_expr(value, memory) },
        Stmt::GlobalSet { global, value } => Stmt::GlobalSet { global: *global, value: resolve_expr(value, memory) },
        Stmt::Store { addr, offset, value, size } => Stmt::Store {
            addr: resolve_expr(addr, memory),
            offset: *offset,
            value: resolve_expr(value, memory),
            size: *size,
        },
        Stmt::Expr(e) => Stmt::Expr(resolve_expr(e, memory)),
        Stmt::Return(v) => Stmt::Return(
            match v {
                Some(e) => Some(resolve_expr(e, memory)),
                None => None,
            },
        ),
        Stmt::If { cond, then_block, else_block } => Stmt::If {
            cond: resolve_expr(cond, memory),
            then_block: resolve_block(then_block, memory),
            else_block: match else_block {
                Some(b) => Some(resolve_block(b, memory)),
                None => None,
            },
        },
        Stmt::Block { label, body } => Stmt::Block { label: *label, body: resolve_block(body, memory) },
        Stmt::Loop { label, body } => Stmt::Loop { label: *label, body: resolve_block(body, memory) },
        Stmt::DoWhile { body, cond } => Stmt::DoWhile { body: resolve_block(body, memory), cond: resolve_expr(cond, memory) },
        Stmt::While { cond, body } => Stmt::While { cond: resolve_expr(cond, memory), body: resolve_block(body, memory) },
        Stmt::BrIf { label, cond, is_loop } => Stmt::BrIf { label: *label, cond: resolve_expr(cond, memory), is_loop: *is_loop },
        Stmt::BrTable { index, targets, default } => Stmt::BrTable {
            index: resolve_expr(index, memory),
            targets: crate::ir::copy_targets(targets),
            default: *default,
        },
        Stmt::Drop(e) => Stmt::Drop(resolve_expr(e, memory)),
        _ => s.duplicate(),
    }
}

/// Resolve memory references in each statement of a block.
fn resolve_block(b: &Block, memory: &[u8]) -> (r: Block)
    ensures
        r@ == spec_resolve_block(memory@, b@),
    decreases b,
{
    let v = &b.stmts;
    let mut out: Vec<Stmt> = Vec::new();
    let mut k: usize = 0;
    while k < v.len()
        invariant
            *v == b.stmts,
            k <= v@.len(),
            stmts_view(out@) == spec_resolve_stmts(memory@, stmts_view(v@.subrange(0, k as int))),
        decreases v@.len() - k,
    {
        assert(decreases_to!(b => b.stmts@[k as int]));
        let r = resolve_stmt(&v[k], memory);
        proof {
            lemma_stmts_view_push(out@, r);
            lemma_stmts_view_push(v@.subrange(0, k as int), v@[k as int]);
            assert(v@.subrange(0, k as int).push(v@[k as int]) =~= v@.subrange(0, k + 1));
            lemma_resolve_stmts_push(memory@, stmts_view(v@.subrange(0, k as int)), stmt_view(v@[k as int]));
        }
        out.push(r);
        k += 1;
    }
    assert(v@.subrange(0, k as int) =~= v@);
    Block { stmts: out }
}

/// The functions of a module after a pass that rewrites the bodies of the
/// functions it defines, with `f` giving each new body, and leaves the rest.
pub open spec fn bodies_rewritten(old_fs: Seq<Function>, new_fs: Seq<Function>, f: spec_fn(BlockV) -> BlockV) -> bool {
    &&& new_fs.len() == old_fs.len()
    &&& forall|i: int| 0 <= i < old_fs.len() ==> {
        let o = #[trigger] old_fs[i];
        let n = new_fs[i];
        &&& n.index == o.index
        &&& n.name == o.name
        &&& n.params == o.params
        &&& n.results == o.results
        &&& n.locals == o.locals
        &&& n.is_import == o.is_import
        &&& n.body@ == if o.is_import { o.body@ } else { f(o.body@) }
    }
}

/// A copy of a byte list.
fn copy_bytes(v: &Vec<u8>) -> (r: Vec<u8>)
    ensures
        r@ == v@,
{
    let mut r: Vec<u8> = Vec::new();
    let mut i: usize = 0;
    while i < v.len()
        invariant
            i <= v@.len(),
            r@ == v@.subrange(0, i as int),
        decreases v@.len() - i,
    {
        r.push(v[i]);
        i += 1;
    }
    assert(v@.subrange(0, i as int) =~= v@);
    r
}

impl MemResolvePass {
    /// The pass's name, as logs show it.
    pub fn name(&self) -> (r: &'static str)
        ensures
            r@ == "mem_resolve"@,
    {
        "mem_resolve"
    }

    /// Resolve memory references in the body of every function the module defines.
    pub fn run(&self, module: &mut Module, ctx: &mut PassContext)
        ensures
            bodies_rewritten(old(module).functions@, final(module).functions@, |b: BlockV| spec_resolve_block(old(module).memory@, b)),
            final(module).memory == old(module).memory,
            final(module).globals == old(module).globals,
            final(module).exports == old(module).exports,
            final(module).imports == old(module).imports,
            final(module).data_segments == old(module).data_segments,
            final(module).types == old(module).types,
            final(module).func_types == old(module).func_types,
            final(module).elements == old(module).elements,
            final(module).memory_pages == old(module).memory_pages,
            final(module).table_size == old(module).table_size,
            *final(ctx) == *old(ctx),
    {
        let memory = copy_bytes(&module.memory);
        let ghost fs0 = module.functions@;
        let n = module.functions.len();
        let mut i: usize = 0;
        while i < n
            invariant
                n == fs0.len(),
                i <= n,
                memory@ == old(module).memory@,
                fs0 == old(module).functions@,
                module.memory == old(module).memory,
                module.globals == old(module).globals,
                module.exports == old(module).exports,
                module.imports == old(module).imports,
                module.data_segments == old(module).data_segments,
                module.types == old(module).types,
                module.func_types == old(module).func_types,
                module.elements == old(module).elements,
                module.memory_pages == old(module).memory_pages,
                module.table_size == old(module).table_size,
                module.functions@.len() == n,
                forall|k: int| i <= k < n ==> #[trigger] module.functions@[k] == fs0[k],
                forall|k: int| 0 <= k < i ==> {
                    let o = #[trigger] fs0[k];
                    let m = module.functions@[k];
                    &&& m.index == o.index
                    &&& m.name == o.name
                    &&& m.params == o.params
                    &&& m.results == o.results
                    &&& m.locals == o.locals
                    &&& m.is_import == o.is_import
                    &&& m.body@ == if o.is_import { o.body@ } else { spec_resolve_block(memory@, o.body@) }
                },
            decreases n - i,
        {
            if !module.functions[i].is_import {
                let body = resolve_block(&module.functions[i].body, memory.as_slice());
                let mut f = module.functions.remove(i);
                f.body = body;
                module.functions.insert(i, f);
            }
            i += 1;
        }
        proof {
            let f = |b: BlockV| spec_resolve_block(old(module).memory@, b);
            assert forall|k: int| 0 <= k < fs0.len() implies #[trigger] module.functions@[k].body@ == if fs0[k].is_import { fs0[k].body@ } else { f(fs0[k].body@) } by {}
        }
    }
}

} // verus!
