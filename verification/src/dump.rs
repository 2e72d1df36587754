//! The text of the IR for debugging, as tokens: plain text, and float
//! constants by their bits, whose text is the float formatting's.
use vstd::prelude::*;
use crate::ir::{
    bin_op_name, compare_op_name, convert_op_name, mem_size_name, unary_op_name, exprs_view, lemma_exprs_view, BinOp, Block, BlockV, BranchTarget, CmpOp, ConvertOp, Expr, ExprKind, ExprKindV, ExprV,
    MemSize, Stmt, StmtV, SwitchCaseV, UnaryOp, stmts_view, cases_view, lemma_stmts_view,
};
use crate::names::{decimal, decimal_text};
use crate::text::{escaped, escape_default_text};
use crate::disasm::tokens::{hex_digits, hex_text};
use crate::passes::control_flow::lemma_cases_view;

verus! {

/// A piece of the dump.
#[derive(Debug)]
pub enum DumpToken {
    Text(String),
    /// An `f32` constant, by its bits
    F32Bits(u32),
    /// An `f64` constant, by its bits
    F64Bits(u64),
}

/// A piece of the dump as plain values.
pub enum DumpTokenV {
    Text(Seq<char>),
    F32Bits(u32),
    F64Bits(u64),
}

impl View for DumpToken {
    type V = DumpTokenV;

    open spec fn view(&self) -> DumpTokenV {
        match self {
            DumpToken::Text(s) => DumpTokenV::Text(s@),
            DumpToken::F32Bits(b) => DumpTokenV::F32Bits(*b),
            DumpToken::F64Bits(b) => DumpTokenV::F64Bits(*b),
        }
    }
}

pub open spec fn dump_view(v: Seq<DumpToken>) -> Seq<DumpTokenV> {
    v.map_values(|t: DumpToken| t@)
}

pub open spec fn t(s: &str) -> DumpTokenV {
    DumpTokenV::Text(s@)
}

/// The decimal digits of `v`, with a minus sign where it is negative.
pub open spec fn signed_decimal(v: int) -> Seq<char> {
    if v < 0 { seq!['-'] + decimal((-v) as nat) } else { decimal(v as nat) }
}

/// The dump of an expression.
pub open spec fn spec_dump_expr(e: ExprV) -> Seq<DumpTokenV>
    decreases e,
{
    match e.kind {
        ExprKindV::I32Const(v) => seq![t("i32("), DumpTokenV::Text(signed_decimal(v as int)), t(")")],
        ExprKindV::I64Const(v) => seq![t("i64("), DumpTokenV::Text(signed_decimal(v as int)), t(")")],
        ExprKindV::F32Const(b) => seq![t("f32("), DumpTokenV::F32Bits(b), t(")")],
        ExprKindV::F64Const(b) => seq![t("f64("), DumpTokenV::F64Bits(b), t(")")],
        ExprKindV::Local(i) => seq![t("local."), DumpTokenV::Text(decimal(i as nat))],
        ExprKindV::Global(i) => seq![t("global."), DumpTokenV::Text(decimal(i as nat))],
        ExprKindV::BinOp(op, a, b) => seq![t("(")] + spec_dump_expr(*a) + seq![t(" "), DumpTokenV::Text(bin_op_name(op)), t(" ")]
            + spec_dump_expr(*b) + seq![t(")")],
        ExprKindV::UnaryOp(op, a) => seq![DumpTokenV::Text(unary_op_name(op)), t("(")] + spec_dump_expr(*a) + seq![t(")")],
        ExprKindV::Compare(op, a, b, _) => seq![t("(")] + spec_dump_expr(*a) + seq![t(" "), DumpTokenV::Text(compare_op_name(op)), t(" ")]
            + spec_dump_expr(*b) + seq![t(")")],
        ExprKindV::Load { addr, offset, size, .. } => seq![DumpTokenV::Text(mem_size_name(size)), t(".load[")] + spec_dump_expr(*addr)
            + (if offset > 0 { seq![t("+"), DumpTokenV::Text(decimal(offset as nat))] } else { Seq::empty() }) + seq![t("]")],
        ExprKindV::Call { func, args } => seq![t("call "), DumpTokenV::Text(decimal(func as nat)), t("(")]
            + spec_dump_args(args, false) + seq![t(")")],
        ExprKindV::CallIndirect { type_idx, index, args, .. } => seq![
            t("call_indirect[type="),
            DumpTokenV::Text(decimal(type_idx as nat)),
            t("]("),
        ] + spec_dump_expr(*index) + spec_dump_args(args, true) + seq![t(")")],
        ExprKindV::Select { cond, then_val, else_val } => seq![t("select(")] + spec_dump_expr(*cond) + seq![t(", ")]
            + spec_dump_expr(*then_val) + seq![t(", ")] + spec_dump_expr(*else_val) + seq![t(")")],
        ExprKindV::Convert { op, expr } => seq![DumpTokenV::Text(convert_op_name(op)), t("(")] + spec_dump_expr(*expr) + seq![t(")")],
        ExprKindV::StringLiteral(s) => seq![t("\""), DumpTokenV::Text(escaped(s)), t("\"")],
        ExprKindV::GoString { ptr, len } => seq![t("go_string(")] + spec_dump_expr(*ptr) + seq![t(", ")] + spec_dump_expr(*len)
            + seq![t(")")],
        ExprKindV::GoSlice { ptr, len, cap } => seq![t("go_slice(")] + spec_dump_expr(*ptr) + seq![t(", ")]
            + spec_dump_expr(*len) + seq![t(", ")] + spec_dump_expr(*cap) + seq![t(")")],
        ExprKindV::GoInterface { type_ptr, data } => seq![t("go_interface(")] + spec_dump_expr(*type_ptr) + seq![t(", ")]
            + spec_dump_expr(*data) + seq![t(")")],
        ExprKindV::ResolvedPointer { addr, resolved } => seq![
            t("resolved["),
            DumpTokenV::Text(seq!['0', 'x'] + hex_digits(addr as nat)),
            t("]=\""),
            DumpTokenV::Text(escaped(resolved)),
            t("\""),
        ],
    }
}

/// The dump of arguments separated by commas (each one preceded by a comma,
/// where `lead`).
pub open spec fn spec_dump_args(args: Seq<ExprV>, lead: bool) -> Seq<DumpTokenV>
    decreases args,
{
    if args.len() == 0 {
        Seq::empty()
    } else {
        spec_dump_args(args.drop_last(), lead) + (if lead || args.len() > 1 { seq![t(", ")] } else { Seq::empty() })
            + spec_dump_expr(args.last())
    }
}

fn push_tok(out: &mut Vec<DumpToken>, tok: DumpToken)
    ensures
        dump_view(final(out)@) == dump_view(old(out)@).push(tok@),
{
    let ghost before = out@;
    let ghost tv = tok@;
    out.push(tok);
    assert(dump_view(out@) =~= dump_view(before).push(tv));
}

fn push_text(out: &mut Vec<DumpToken>, s: &str)
    ensures
        dump_view(final(out)@) == dump_view(old(out)@).push(t(s)),
{
    push_tok(out, DumpToken::Text(String::from_str(s)));
}

/// The decimal digits of `v`, with a minus sign where it is negative.
fn signed_text(v: i64) -> (r: String)
    ensures
        r@ == signed_decimal(v as int),
{
    if v < 0 {
        let u: u64 = if v == i64::MIN { 0x8000_0000_0000_0000u64 } else { (-v) as u64 };
        let mut r = String::from_str("-");
        let d = decimal_text(u);
        r.append(d.as_str());
        proof {
            reveal_strlit("-");
            assert("-"@ =~= seq!['-']);
        }
        r
    } else {
        decimal_text(v as u64)
    }
}

fn dump_args_exec(args: &Vec<Expr>, lead: bool, out: &mut Vec<DumpToken>)
    ensures
        dump_view(final(out)@) == dump_view(old(out)@) + spec_dump_args(exprs_view(args@), lead),
    decreases args,
{
    let ghost start = dump_view(out@);
    let ghost av = exprs_view(args@);
    proof {
        lemma_exprs_view(args@);
        assert(av.subrange(0, 0) =~= Seq::<ExprV>::empty());
        assert(start + spec_dump_args(av.subrange(0, 0), lead) =~= start);
    }
    let mut k: usize = 0;
    while k < args.len()
        invariant
            k <= args@.len(),
            av == exprs_view(args@),
            av.len() == args@.len(),
            forall|j: int| 0 <= j < args@.len() ==> #[trigger] av[j] == args@[j]@,
            dump_view(out@) == start + spec_dump_args(av.subrange(0, k as int), lead),
        decreases args@.len() - k,
    {
        proof {
            assert(decreases_to!(args => args@[k as int]));
            assert(av.subrange(0, k + 1).drop_last() =~= av.subrange(0, k as int));
        }
        if lead || k > 0 {
            push_text(out, ", ");
        }
        dump_expr_exec(&args[k], out);
        proof {
            let prev = spec_dump_args(av.subrange(0, k as int), lead);
            let sep = if lead || k + 1 > 1 { seq![t(", ")] } else { Seq::<DumpTokenV>::empty() };
            assert(spec_dump_args(av.subrange(0, k + 1), lead) == prev + sep + spec_dump_expr(av[k as int]));
            assert(dump_view(out@) =~= start + spec_dump_args(av.subrange(0, k + 1), lead));
        }
        k += 1;
    }
    proof {
        assert(av.subrange(0, k as int) =~= av);
    }
}

/// Append the dump of `e`.
pub fn dump_expr_exec(e: &Expr, out: &mut Vec<DumpToken>)
    ensures
        dump_view(final(out)@) == dump_view(old(out)@) + spec_dump_expr(e@),
    decreases e,
{
    let ghost start = dump_view(out@);
    match &e.kind {
        ExprKind::I32Const(v) => {
            push_text(out, "i32(");
            push_tok(out, DumpToken::Text(signed_text(*v as i64)));
            push_text(out, ")");
        },
        ExprKind::I64Const(v) => {
            push_text(out, "i64(");
            push_tok(out, DumpToken::Text(signed_text(*v)));
            push_text(out, ")");
        },
        ExprKind::F32Const(b) => {
            push_text(out, "f32(");
            push_tok(out, DumpToken::F32Bits(*b));
            push_text(out, ")");
        },
        ExprKind::F64Const(b) => {
            push_text(out, "f64(");
            push_tok(out, DumpToken::F64Bits(*b));
            push_text(out, ")");
        },
        ExprKind::Local(i) => {
            push_text(out, "local.");
            push_tok(out, DumpToken::Text(decimal_text(*i as u64)));
        },
        ExprKind::Global(i) => {
            push_text(out, "global.");
            push_tok(out, DumpToken::Text(decimal_text(*i as u64)));
        },
        ExprKind::BinOp(op, a, b) => {
            push_text(out, "(");
            dump_expr_exec(a, out);
            push_text(out, " ");
            push_tok(out, DumpToken::Text(String::from_str(op.variant_name())));
            push_text(out, " ");
            dump_expr_exec(b, out);
            push_text(out, ")");
        },
        ExprKind::UnaryOp(op, a) => {
            push_tok(out, DumpToken::Text(String::from_str(op.variant_name())));
            push_text(out, "(");
            dump_expr_exec(a, out);
            push_text(out, ")");
        },
        ExprKind::Compare(op, a, b, _) => {
            push_text(out, "(");
            dump_expr_exec(a, out);
            push_text(out, " ");
            push_tok(out, DumpToken::Text(String::from_str(op.variant_name())));
            push_text(out, " ");
            dump_expr_exec(b, out);
            push_text(out, ")");
        },
        ExprKind::Load { addr, offset, size, .. } => {
            push_tok(out, DumpToken::Text(String::from_str(size.variant_name())));
            push_text(out, ".load[");
            dump_expr_exec(addr, out);
            if *offset > 0 {
                push_text(out, "+");
                push_tok(out, DumpToken::Text(decimal_text(*offset as u64)));
            }
            push_text(out, "]");
        },
        ExprKind::Call { func, args } => {
            push_text(out, "call ");
            push_tok(out, DumpToken::Text(decimal_text(*func as u64)));
            push_text(out, "(");
            dump_args_exec(args, false, out);
            push_text(out, ")");
        },
        ExprKind::CallIndirect { type_idx, index, args, .. } => {
            push_text(out, "call_indirect[type=");
            push_tok(out, DumpToken::Text(decimal_text(*type_idx as u64)));
            push_text(out, "](");
            dump_expr_exec(index, out);
            dump_args_exec(args, true, out);
            push_text(out, ")");
        },
        ExprKind::Select { cond, then_val, else_val } => {
            push_text(out, "select(");
            dump_expr_exec(cond, out);
            push_text(out, ", ");
            dump_expr_exec(then_val, out);
            push_text(out, ", ");
            dump_expr_exec(else_val, out);
            push_text(out, ")");
        },
        ExprKind::Convert { op, expr } => {
            push_tok(out, DumpToken::Text(String::from_str(op.variant_name())));
            push_text(out, "(");
            dump_expr_exec(expr, out);
            push_text(out, ")");
        },
        ExprKind::StringLiteral(s) => {
            push_text(out, "\"");
            push_tok(out, DumpToken::Text(escape_default_text(s)));
            push_text(out, "\"");
        },
        ExprKind::GoString { ptr, len } => {
            push_text(out, "go_string(");
            dump_expr_exec(ptr, out);
            push_text(out, ", ");
            dump_expr_exec(len, out);
            push_text(out, ")");
        },
        ExprKind::GoSlice { ptr, len, cap } => {
            push_text(out, "go_slice(");
            dump_expr_exec(ptr, out);
            push_text(out, ", ");
            dump_expr_exec(len, out);
            push_text(out, ", ");
            dump_expr_exec(cap, out);
            push_text(out, ")");
        },
        ExprKind::GoInterface { type_ptr, data } => {
            push_text(out, "go_interface(");
            dump_expr_exec(type_ptr, out);
            push_text(out, ", ");
            dump_expr_exec(data, out);
            push_text(out, ")");
        },
        ExprKind::ResolvedPointer { addr, resolved } => {
            push_text(out, "resolved[");
            push_tok(out, DumpToken::Text(hex_text(*addr as u64)));
            push_text(out, "]=\"");
            push_tok(out, DumpToken::Text(escape_default_text(resolved)));
            push_text(out, "\"");
        },
    }
    assert(dump_view(out@) =~= start + spec_dump_expr(e@));
}

/// One level of indentation more, where it still counts.
pub open spec fn deeper(i: nat) -> nat {
    if i + 1 > usize::MAX { i } else { i + 1 }
}

/// The indentation of `i` levels: two spaces each.
pub open spec fn indent_text(i: nat) -> DumpTokenV {
    DumpTokenV::Text(Seq::new(2 * i, |k: int| ' '))
}

/// The name of a branch target: `block_` or `loop_` and its label.
pub open spec fn label_name(label: u32, is_loop: bool) -> Seq<char> {
    (if is_loop { "loop_"@ } else { "block_"@ }) + decimal(label as nat)
}

/// The names of branch targets separated by commas.
pub open spec fn join_targets(ts: Seq<BranchTarget>) -> Seq<char>
    decreases ts.len(),
{
    if ts.len() == 0 {
        Seq::empty()
    } else if ts.len() == 1 {
        label_name(ts[0].label, ts[0].is_loop)
    } else {
        join_targets(ts.drop_last()) + ", "@ + label_name(ts.last().label, ts.last().is_loop)
    }
}

/// Numbers separated by commas.
pub open spec fn join_values(vs: Seq<u32>) -> Seq<char>
    decreases vs.len(),
{
    if vs.len() == 0 {
        Seq::empty()
    } else if vs.len() == 1 {
        decimal(vs[0] as nat)
    } else {
        join_values(vs.drop_last()) + ", "@ + decimal(vs.last() as nat)
    }
}

/// The dump of a statement at indentation `i`.
pub open spec fn spec_dump_stmt(s: StmtV, i: nat) -> Seq<DumpTokenV>
    decreases s,
{
    let p = indent_text(i);
    let nl = t("\n");
    match s {
        StmtV::LocalSet { local, value } => seq![p, t("local.set "), DumpTokenV::Text(decimal(local as nat)), t(" = ")]
            + spec_dump_expr(value) + seq![nl],
        StmtV::GlobalSet { global, value } => seq![p, t("global.set "), DumpTokenV::Text(decimal(global as nat)), t(" = ")]
            + spec_dump_expr(value) + seq![nl],
        StmtV::Store { addr, value, size, .. } => seq![p, DumpTokenV::Text(mem_size_name(size)), t(".store ")] + spec_dump_expr(addr)
            + seq![t(" = ")] + spec_dump_expr(value) + seq![nl],
        StmtV::Expr(e) => seq![p] + spec_dump_expr(e) + seq![nl],
        StmtV::Return(v) => seq![p, t("return")] + (match v {
            Some(x) => seq![t(" ")] + spec_dump_expr(x),
            None => Seq::empty(),
        }) + seq![nl],
        StmtV::If { cond, then_block, else_block } => seq![p, t("if ")] + spec_dump_expr(cond) + seq![t(" {\n")]
            + spec_dump_block(then_block.stmts, deeper(i)) + (match else_block {
                Some(b) => seq![p, t("} else {\n")] + spec_dump_block(b.stmts, deeper(i)),
                None => Seq::empty(),
            }) + seq![p, t("}\n")],
        StmtV::Block { label, body } => seq![p, t("block_"), DumpTokenV::Text(decimal(label as nat)), t(": {\n")]
            + spec_dump_block(body.stmts, deeper(i)) + seq![p, t("}\n")],
        StmtV::Loop { label, body } => seq![p, t("loop_"), DumpTokenV::Text(decimal(label as nat)), t(": {\n")]
            + spec_dump_block(body.stmts, deeper(i)) + seq![p, t("}\n")],
        StmtV::DoWhile { body, cond } => seq![p, t("do {\n")] + spec_dump_block(body.stmts, deeper(i))
            + seq![p, t("} while ")] + spec_dump_expr(cond) + seq![nl],
        StmtV::While { cond, body } => seq![p, t("while ")] + spec_dump_expr(cond) + seq![t(" {\n")]
            + spec_dump_block(body.stmts, deeper(i)) + seq![p, t("}\n")],
        StmtV::Switch { index, cases, default } => seq![p, t("switch ")] + spec_dump_expr(index) + seq![t(" {\n")]
            + spec_dump_cases(cases, deeper(i)) + (match default {
                Some(b) => seq![indent_text(deeper(i)), t("default:\n")] + spec_dump_block(b.stmts, deeper(deeper(i))),
                None => Seq::empty(),
            }) + seq![p, t("}\n")],
        StmtV::TryFinally { body, finally_block } => seq![p, t("try {\n")] + spec_dump_block(body.stmts, deeper(i))
            + seq![p, t("} finally {\n")] + spec_dump_block(finally_block.stmts, deeper(i)) + seq![p, t("}\n")],
        StmtV::Br { label, is_loop } => seq![p, t("br "), DumpTokenV::Text(label_name(label, is_loop)), nl],
        StmtV::BrIf { label, cond, is_loop } => seq![p, t("br_if "), DumpTokenV::Text(label_name(label, is_loop)), t(" ")]
            + spec_dump_expr(cond) + seq![nl],
        StmtV::BrTable { index, targets, default } => seq![p, t("br_table ")] + spec_dump_expr(index) + seq![
            t(" ["),
            DumpTokenV::Text(join_targets(targets)),
            t("] default="),
            DumpTokenV::Text(label_name(default.label, default.is_loop)),
            nl,
        ],
        StmtV::Unreachable => seq![p, t("unreachable\n")],
        StmtV::Nop => seq![p, t("nop\n")],
        StmtV::Drop(e) => seq![p, t("drop ")] + spec_dump_expr(e) + seq![nl],
    }
}

/// The dump of a list of statements at indentation `i`.
pub open spec fn spec_dump_block(ss: Seq<StmtV>, i: nat) -> Seq<DumpTokenV>
    decreases ss,
{
    if ss.len() == 0 {
        Seq::empty()
    } else {
        spec_dump_block(ss.drop_last(), i) + spec_dump_stmt(ss.last(), i)
    }
}

/// The dump of the cases of a switch at indentation `i`.
pub open spec fn spec_dump_cases(cs: Seq<SwitchCaseV>, i: nat) -> Seq<DumpTokenV>
    decreases cs,
{
    if cs.len() == 0 {
        Seq::empty()
    } else {
        spec_dump_cases(cs.drop_last(), i) + seq![
            indent_text(i),
            t("case "),
            DumpTokenV::Text(join_values(cs.last().values)),
            t(":\n"),
        ] + spec_dump_block(cs.last().body.stmts, deeper(i))
    }
}

fn deeper_exec(i: usize) -> (r: usize)
    ensures
        r == deeper(i as nat),
{
    if i < usize::MAX { i + 1 } else { i }
}

fn indent_exec(i: usize) -> (r: DumpToken)
    ensures
        r@ == indent_text(i as nat),
{
    let mut s = String::new();
    let mut k: usize = 0;
    while k < i
        invariant
            k <= i,
            s@ == Seq::new(2 * (k as nat), |j: int| ' '),
        decreases i - k,
    {
        s.append("  ");
        proof {
            reveal_strlit("  ");
            assert(s@ =~= Seq::new(2 * ((k + 1) as nat), |j: int| ' '));
        }
        k += 1;
    }
    DumpToken::Text(s)
}

fn label_name_exec(label: u32, is_loop: bool) -> (r: String)
    ensures
        r@ == label_name(label, is_loop),
{
    let mut s = if is_loop { String::from_str("loop_") } else { String::from_str("block_") };
    let d = decimal_text(label as u64);
    s.append(d.as_str());
    s
}

fn join_targets_exec(ts: &Vec<BranchTarget>) -> (r: String)
    ensures
        r@ == join_targets(ts@),
{
    let mut s = String::new();
    let mut k: usize = 0;
    assert(ts@.take(0) =~= Seq::<BranchTarget>::empty());
    while k < ts.len()
        invariant
            k <= ts@.len(),
            s@ == join_targets(ts@.take(k as int)),
        decreases ts@.len() - k,
    {
        assert(ts@.take(k + 1).drop_last() =~= ts@.take(k as int));
        if k > 0 {
            s.append(", ");
        }
        let n = label_name_exec(ts[k].label, ts[k].is_loop);
        s.append(n.as_str());
        k += 1;
    }
    assert(ts@.take(ts@.len() as int) =~= ts@);
    s
}

fn join_values_exec(vs: &Vec<u32>) -> (r: String)
    ensures
        r@ == join_values(vs@),
{
    let mut s = String::new();
    let mut k: usize = 0;
    assert(vs@.take(0) =~= Seq::<u32>::empty());
    while k < vs.len()
        invariant
            k <= vs@.len(),
            s@ == join_values(vs@.take(k as int)),
        decreases vs@.len() - k,
    {
        assert(vs@.take(k + 1).drop_last() =~= vs@.take(k as int));
        if k > 0 {
            s.append(", ");
        }
        let d = decimal_text(vs[k] as u64);
        s.append(d.as_str());
        k += 1;
    }
    assert(vs@.take(vs@.len() as int) =~= vs@);
    s
}

/// Append the dump of a list of statements at indentation `i`.
pub fn dump_block_exec(ss: &Vec<Stmt>, i: usize, out: &mut Vec<DumpToken>)
    ensures
        dump_view(final(out)@) == dump_view(old(out)@) + spec_dump_block(stmts_view(ss@), i as nat),
    decreases ss,
{
    let ghost start = dump_view(out@);
    let ghost sv = stmts_view(ss@);
    proof {
        lemma_stmts_view(ss@);
        assert(sv.subrange(0, 0) =~= Seq::<StmtV>::empty());
        assert(start + spec_dump_block(sv.subrange(0, 0), i as nat) =~= start);
    }
    let mut k: usize = 0;
    while k < ss.len()
        invariant
            k <= ss@.len(),
            sv == stmts_view(ss@),
            sv.len() == ss@.len(),
            forall|j: int| 0 <= j < ss@.len() ==> #[trigger] sv[j] == ss@[j]@,
            dump_view(out@) == start + spec_dump_block(sv.subrange(0, k as int), i as nat),
        decreases ss@.len() - k,
    {
        proof {
            assert(decreases_to!(ss => ss@[k as int]));
            assert(sv.subrange(0, k + 1).drop_last() =~= sv.subrange(0, k as int));
        }
        dump_stmt_exec(&ss[k], i, out);
        proof {
            assert(dump_view(out@) =~= start + spec_dump_block(sv.subrange(0, k + 1), i as nat));
        }
        k += 1;
    }
    proof {
        assert(sv.subrange(0, k as int) =~= sv);
    }
}

fn dump_cases_exec(cs: &Vec<crate::ir::SwitchCase>, i: usize, out: &mut Vec<DumpToken>)
    ensures
        dump_view(final(out)@) == dump_view(old(out)@) + spec_dump_cases(cases_view(cs@), i as nat),
    decreases cs,
{
    let ghost start = dump_view(out@);
    let ghost cv = cases_view(cs@);
    proof {
        lemma_cases_view(cs@);
        assert(cv.subrange(0, 0) =~= Seq::<SwitchCaseV>::empty());
        assert(start + spec_dump_cases(cv.subrange(0, 0), i as nat) =~= start);
    }
    let i1 = deeper_exec(i);
    let mut k: usize = 0;
    while k < cs.len()
        invariant
            k <= cs@.len(),
            i1 == deeper(i as nat),
            cv == cases_view(cs@),
            cv.len() == cs@.len(),
            forall|j: int| 0 <= j < cs@.len() ==> #[trigger] cv[j] == (SwitchCaseV { values: cs@[j].values@, body: cs@[j].body@ }),
            dump_view(out@) == start + spec_dump_cases(cv.subrange(0, k as int), i as nat),
        decreases cs@.len() - k,
    {
        proof {
            assert(decreases_to!(cs => cs@[k as int]));
            assert(cv.subrange(0, k + 1).drop_last() =~= cv.subrange(0, k as int));
        }
        push_tok(out, indent_exec(i));
        push_text(out, "case ");
        push_tok(out, DumpToken::Text(join_values_exec(&cs[k].values)));
        push_text(out, ":\n");
        dump_block_exec(&cs[k].body.stmts, i1, out);
        proof {
            assert(dump_view(out@) =~= start + spec_dump_cases(cv.subrange(0, k + 1), i as nat));
        }
        k += 1;
    }
    proof {
        assert(cv.subrange(0, k as int) =~= cv);
    }
}

/// Append the dump of a statement at indentation `i`.
#[verifier::rlimit(100)]
#[verifier::spinoff_prover]
pub fn dump_stmt_exec(s: &Stmt, i: usize, out: &mut Vec<DumpToken>)
    ensures
        dump_view(final(out)@) == dump_view(old(out)@) + spec_dump_stmt(s@, i as nat),
    decreases s,
{
    let ghost start = dump_view(out@);
    let i1 = deeper_exec(i);
    match s {
        Stmt::LocalSet { local, value } => {
            push_tok(out, indent_exec(i));
            push_text(out, "local.set ");
            push_tok(out, DumpToken::Text(decimal_text(*local as u64)));
            push_text(out, " = ");
            dump_expr_exec(value, out);
            push_text(out, "\n");
        },
        Stmt::GlobalSet { global, value } => {
            push_tok(out, indent_exec(i));
            push_text(out, "global.set ");
            push_tok(out, DumpToken::Text(decimal_text(*global as u64)));
            push_text(out, " = ");
            dump_expr_exec(value, out);
            push_text(out, "\n");
        },
        Stmt::Store { addr, value, size, .. } => {
            push_tok(out, indent_exec(i));
            push_tok(out, DumpToken::Text(String::from_str(size.variant_name())));
            push_text(out, ".store ");
            dump_expr_exec(addr, out);
            push_text(out, " = ");
            dump_expr_exec(value, out);
            push_text(out, "\n");
        },
        Stmt::Expr(e) => {
            push_tok(out, indent_exec(i));
            dump_expr_exec(e, out);
            push_text(out, "\n");
        },
        Stmt::Return(v) => {
            push_tok(out, indent_exec(i));
            push_text(out, "return");
            match v {
                Some(x) => {
                    push_text(out, " ");
                    dump_expr_exec(x, out);
                },
                None => {},
            }
            push_text(out, "\n");
        },
        Stmt::If { cond, then_block, else_block } => {
            push_tok(out, indent_exec(i));
            push_text(out, "if ");
            dump_expr_exec(cond, out);
            push_text(out, " {\n");
            dump_block_exec(&then_block.stmts, i1, out);
            match else_block {
                Some(b) => {
                    push_tok(out, indent_exec(i));
                    push_text(out, "} else {\n");
                    dump_block_exec(&b.stmts, i1, out);
                },
                None => {},
            }
            push_tok(out, indent_exec(i));
            push_text(out, "}\n");
        },
        Stmt::Block { label, body } => {
            push_tok(out, indent_exec(i));
            push_text(out, "block_");
            push_tok(out, DumpToken::Text(decimal_text(*label as u64)));
            push_text(out, ": {\n");
            dump_block_exec(&body.stmts, i1, out);
            push_tok(out, indent_exec(i));
            push_text(out, "}\n");
        },
        Stmt::Loop { label, body } => {
            push_tok(out, indent_exec(i));
            push_text(out, "loop_");
            push_tok(out, DumpToken::Text(decimal_text(*label as u64)));
            push_text(out, ": {\n");
            dump_block_exec(&body.stmts, i1, out);
            push_tok(out, indent_exec(i));
            push_text(out, "}\n");
        },
        Stmt::DoWhile { body, cond } => {
            push_tok(out, indent_exec(i));
            push_text(out, "do {\n");
            dump_block_exec(&body.stmts, i1, out);
            push_tok(out, indent_exec(i));
            push_text(out, "} while ");
            dump_expr_exec(cond, out);
            push_text(out, "\n");
        },
        Stmt::While { cond, body } => {
            push_tok(out, indent_exec(i));
            push_text(out, "while ");
            dump_expr_exec(cond, out);
            push_text(out, " {\n");
            dump_block_exec(&body.stmts, i1, out);
            push_tok(out, indent_exec(i));
            push_text(out, "}\n");
        },
        Stmt::Switch { index, cases, default } => {
            push_tok(out, indent_exec(i));
            push_text(out, "switch ");
            dump_expr_exec(index, out);
            push_text(out, " {\n");
            dump_cases_exec(cases, i1, out);
            match default {
                Some(b) => {
                    push_tok(out, indent_exec(i1));
                    push_text(out, "default:\n");
                    dump_block_exec(&b.stmts, deeper_exec(i1), out);
                },
                None => {},
            }
            push_tok(out, indent_exec(i));
            push_text(out, "}\n");
        },
        Stmt::TryFinally { body, finally_block } => {
            push_tok(out, indent_exec(i));
            push_text(out, "try {\n");
            dump_block_exec(&body.stmts, i1, out);
            push_tok(out, indent_exec(i));
            push_text(out, "} finally {\n");
            dump_block_exec(&finally_block.stmts, i1, out);
            push_tok(out, indent_exec(i));
            push_text(out, "}\n");
        },
        Stmt::Br { label, is_loop } => {
            push_tok(out, indent_exec(i));
            push_text(out, "br ");
            push_tok(out, DumpToken::Text(label_name_exec(*label, *is_loop)));
            push_text(out, "\n");
        },
        Stmt::BrIf { label, cond, is_loop } => {
            push_tok(out, indent_exec(i));
            push_text(out, "br_if ");
            push_tok(out, DumpToken::Text(label_name_exec(*label, *is_loop)));
            push_text(out, " ");
            dump_expr_exec(cond, out);
            push_text(out, "\n");
        },
        Stmt::BrTable { index, targets, default } => {
            push_tok(out, indent_exec(i));
            push_text(out, "br_table ");
            dump_expr_exec(index, out);
            push_text(out, " [");
            push_tok(out, DumpToken::Text(join_targets_exec(targets)));
            push_text(out, "] default=");
            push_tok(out, DumpToken::Text(label_name_exec(default.label, default.is_loop)));
            push_text(out, "\n");
        },
        Stmt::Unreachable => {
            push_tok(out, indent_exec(i));
            push_text(out, "unreachable\n");
        },
        Stmt::Nop => {
            push_tok(out, indent_exec(i));
            push_text(out, "nop\n");
        },
        Stmt::Drop(e) => {
            push_tok(out, indent_exec(i));
            push_text(out, "drop ");
            dump_expr_exec(e, out);
            push_text(out, "\n");
        },
    }
    assert(dump_view(out@) =~= start + spec_dump_stmt(s@, i as nat));
}

/// The dump of a statement at indentation `indent`.
pub fn dump_stmt_tokens(stmt: &Stmt, indent: usize) -> (r: Vec<DumpToken>)
    ensures
        dump_view(r@) == spec_dump_stmt(stmt@, indent as nat),
{
    let mut out: Vec<DumpToken> = Vec::new();
    assert(dump_view(out@) =~= Seq::<DumpTokenV>::empty());
    dump_stmt_exec(stmt, indent, &mut out);
    assert(Seq::<DumpTokenV>::empty() + spec_dump_stmt(stmt@, indent as nat) =~= spec_dump_stmt(stmt@, indent as nat));
    out
}

/// The dump of an expression.
pub fn dump_expr_tokens(e: &Expr) -> (r: Vec<DumpToken>)
    ensures
        dump_view(r@) == spec_dump_expr(e@),
{
    let mut out: Vec<DumpToken> = Vec::new();
    assert(dump_view(out@) =~= Seq::<DumpTokenV>::empty());
    dump_expr_exec(e, &mut out);
    assert(Seq::<DumpTokenV>::empty() + spec_dump_expr(e@) =~= spec_dump_expr(e@));
    out
}

/// Whether every token is plain text (no float constant).
pub open spec fn all_text(ts: Seq<DumpTokenV>) -> bool {
    forall|k: int| 0 <= k < ts.len() ==> ts[k] is Text
}

/// The text of the tokens, one after another.
pub open spec fn joined_text(ts: Seq<DumpTokenV>) -> Seq<char>
    decreases ts.len(),
{
    if ts.len() == 0 {
        Seq::empty()
    } else {
        joined_text(ts.drop_last()) + match ts.last() {
            DumpTokenV::Text(s) => s,
            _ => Seq::empty(),
        }
    }
}

/// Append the text of `ts` to `out`, where every token is plain text;
/// where one is a float constant, leave `out` as it is and return `false`.
pub fn append_text(ts: &Vec<DumpToken>, out: &mut String) -> (done: bool)
    ensures
        done == all_text(dump_view(ts@)),
        done ==> final(out)@ == old(out)@ + joined_text(dump_view(ts@)),
        !done ==> final(out)@ == old(out)@,
{
    let ghost tv = dump_view(ts@);
    let mut k: usize = 0;
    while k < ts.len()
        invariant
            k <= ts@.len(),
            tv == dump_view(ts@),
            forall|j: int| 0 <= j < k ==> #[trigger] tv[j] is Text,
        decreases ts@.len() - k,
    {
        match &ts[k] {
            DumpToken::Text(_) => {},
            _ => {
                assert(!(tv[k as int] is Text));
                return false;
            },
        }
        k += 1;
    }
    let ghost start = out@;
    let mut k: usize = 0;
    while k < ts.len()
        invariant
            k <= ts@.len(),
            tv == dump_view(ts@),
            all_text(tv),
            out@ == start + joined_text(tv.subrange(0, k as int)),
        decreases ts@.len() - k,
    {
        proof {
            assert(tv.subrange(0, k + 1).drop_last() =~= tv.subrange(0, k as int));
            assert(tv.subrange(0, k + 1).last() == tv[k as int]);
        }
        match &ts[k] {
            DumpToken::Text(s) => {
                out.append(s.as_str());
                assert(out@ =~= start + joined_text(tv.subrange(0, k + 1)));
            },
            _ => {
                assert(tv[k as int] is Text);
            },
        }
        k += 1;
    }
    assert(tv.subrange(0, k as int) =~= tv);
    true
}

/// Append the dump of an expression to `out`. Where the expression holds a
/// float constant, whose text is the float formatting's, `out` is left as it
/// is and the result is `false`.
pub fn dump_expr(e: &Expr, out: &mut String) -> (done: bool)
    ensures
        done == all_text(spec_dump_expr(e@)),
        done ==> final(out)@ == old(out)@ + joined_text(spec_dump_expr(e@)),
        !done ==> final(out)@ == old(out)@,
{
    let ts = dump_expr_tokens(e);
    append_text(&ts, out)
}

/// Append the dump of a statement at indentation `indent` to `out`. Where the
/// statement holds a float constant, `out` is left as it is and the result is
/// `false`.
pub fn dump_stmt(stmt: &Stmt, indent: usize, out: &mut String) -> (done: bool)
    ensures
        done == all_text(spec_dump_stmt(stmt@, indent as nat)),
        done ==> final(out)@ == old(out)@ + joined_text(spec_dump_stmt(stmt@, indent as nat)),
        !done ==> final(out)@ == old(out)@,
{
    let ts = dump_stmt_tokens(stmt, indent);
    append_text(&ts, out)
}

} // verus!
