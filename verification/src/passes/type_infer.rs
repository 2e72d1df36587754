//! Type inference pass: gives each expression the type its form implies and
//! records the types of parameters, locals and assigned locals in the context.
use vstd::prelude::*;
use crate::ops::{lift_op_is, prefixed_lift_op_is};
use crate::lift::LiftOp;
use crate::disasm::decode::OperandsV;
use crate::ir::{
    BinOp, Block, BlockV, ConvertOp, Expr, ExprKind, ExprKindV, ExprV, Function, InferredType, MemSize, Module, Stmt,
    StmtV, UnaryOp, ValType, expr_view, exprs_view, stmt_view, stmts_view, lemma_exprs_view_push, lemma_stmts_view_push,
};
use crate::passes::{PassContext, var_type_map, var_keys_unique};

verus! {

/// Type inference pass
pub struct TypeInferPass;

/// The type a conversion produces.
pub open spec fn spec_convert_result_type(op: ConvertOp) -> InferredType {
    match op {
        ConvertOp::I32WrapI64 | ConvertOp::I32TruncF32S | ConvertOp::I32TruncF32U | ConvertOp::I32TruncF64S
        | ConvertOp::I32TruncF64U | ConvertOp::I32ReinterpretF32 | ConvertOp::I32Extend8S | ConvertOp::I32Extend16S
        | ConvertOp::I32TruncSatF32S | ConvertOp::I32TruncSatF32U | ConvertOp::I32TruncSatF64S
        | ConvertOp::I32TruncSatF64U => InferredType::I32,
        ConvertOp::I64ExtendI32S | ConvertOp::I64ExtendI32U | ConvertOp::I64TruncF32S | ConvertOp::I64TruncF32U
        | ConvertOp::I64TruncF64S | ConvertOp::I64TruncF64U | ConvertOp::I64ReinterpretF64 | ConvertOp::I64Extend8S
        | ConvertOp::I64Extend16S | ConvertOp::I64Extend32S | ConvertOp::I64TruncSatF32S | ConvertOp::I64TruncSatF32U
        | ConvertOp::I64TruncSatF64S | ConvertOp::I64TruncSatF64U => InferredType::I64,
        ConvertOp::F32ConvertI32S | ConvertOp::F32ConvertI32U | ConvertOp::F32ConvertI64S | ConvertOp::F32ConvertI64U
        | ConvertOp::F32DemoteF64 | ConvertOp::F32ReinterpretI32 => InferredType::F32,
        ConvertOp::F64ConvertI32S | ConvertOp::F64ConvertI32U | ConvertOp::F64ConvertI64S | ConvertOp::F64ConvertI64U
        | ConvertOp::F64PromoteF32 | ConvertOp::F64ReinterpretI64 => InferredType::F64,
    }
}

/// The type a conversion produces.
pub fn convert_result_type(op: ConvertOp) -> (r: InferredType)
    ensures
        r == spec_convert_result_type(op),
{
    match op {
        ConvertOp::I32WrapI64 | ConvertOp::I32TruncF32S | ConvertOp::I32TruncF32U | ConvertOp::I32TruncF64S
        | ConvertOp::I32TruncF64U | ConvertOp::I32ReinterpretF32 | ConvertOp::I32Extend8S | ConvertOp::I32Extend16S
        | ConvertOp::I32TruncSatF32S | ConvertOp::I32TruncSatF32U | ConvertOp::I32TruncSatF64S
        | ConvertOp::I32TruncSatF64U => InferredType::I32,
        ConvertOp::I64ExtendI32S | ConvertOp::I64ExtendI32U | ConvertOp::I64TruncF32S | ConvertOp::I64TruncF32U
        | ConvertOp::I64TruncF64S | ConvertOp::I64TruncF64U | ConvertOp::I64ReinterpretF64 | ConvertOp::I64Extend8S
        | ConvertOp::I64Extend16S | ConvertOp::I64Extend32S | ConvertOp::I64TruncSatF32S | ConvertOp::I64TruncSatF32U
        | ConvertOp::I64TruncSatF64S | ConvertOp::I64TruncSatF64U => InferredType::I64,
        ConvertOp::F32ConvertI32S | ConvertOp::F32ConvertI32U | ConvertOp::F32ConvertI64S | ConvertOp::F32ConvertI64U
        | ConvertOp::F32DemoteF64 | ConvertOp::F32ReinterpretI32 => InferredType::F32,
        ConvertOp::F64ConvertI32S | ConvertOp::F64ConvertI32U | ConvertOp::F64ConvertI64S | ConvertOp::F64ConvertI64U
        | ConvertOp::F64PromoteF32 | ConvertOp::F64ReinterpretI64 => InferredType::F64,
    }
}

/// The operator works on floats.
pub open spec fn is_float_binop(op: BinOp) -> bool {
    op is FAdd || op is FSub || op is FMul || op is FDiv || op is FMin || op is FMax || op is FCopysign
}

/// The type of a binary operation from the types of its operands: the first
/// operand type of the operator's kind, else `i32` (integer operators) or
/// `f64` (float operators).
pub open spec fn binop_type(op: BinOp, a: InferredType, b: InferredType) -> InferredType {
    if is_float_binop(op) {
        if a.spec_is_float() { a } else if b.spec_is_float() { b } else { InferredType::F64 }
    } else {
        if a.spec_is_integer() { a } else if b.spec_is_integer() { b } else { InferredType::I32 }
    }
}

/// The type a load of the given size produces.
pub open spec fn load_type(size: MemSize) -> InferredType {
    match size {
        MemSize::I8 | MemSize::I16 | MemSize::I32 => InferredType::I32,
        MemSize::I64 => InferredType::I64,
        MemSize::F32 => InferredType::F32,
        MemSize::F64 => InferredType::F64,
    }
}

/// How many bytes a memory access of the given size reads.
pub open spec fn access_bytes(size: MemSize) -> nat {
    match size {
        MemSize::I8 => 1,
        MemSize::I16 => 2,
        MemSize::I32 | MemSize::F32 => 4,
        MemSize::I64 | MemSize::F64 => 8,
    }
}

/// How many bytes a value of a numeric type holds (0 for the others).
pub open spec fn value_bytes(t: InferredType) -> nat {
    match t {
        InferredType::I32 | InferredType::F32 => 4,
        InferredType::I64 | InferredType::F64 => 8,
        _ => 0,
    }
}

/// Law: a load is typed by its access: a float load has a float type and an
/// integer load an integer type, and the type holds the bytes read, widened to
/// at least 32 bits (narrow integer loads give `i32`). Its address, offset,
/// signedness and earlier type do not matter.
pub proof fn lemma_load_typed_by_access(addr: ExprV, offset: u32, size: MemSize, signed: bool, ty: InferredType)
    ensures
        ({
            let r = spec_infer_expr(ExprV { kind: ExprKindV::Load { addr: Box::new(addr), offset, size, signed }, ty }).ty;
            &&& r.spec_is_float() <==> (size == MemSize::F32 || size == MemSize::F64)
            &&& r.spec_is_integer() <==> !(size == MemSize::F32 || size == MemSize::F64)
            &&& value_bytes(r) == if access_bytes(size) < 4 { 4 } else { access_bytes(size) }
        }),
{
}

/// Law: constants have the type of their kind; comparisons and `eqz` are
/// booleans; a float operator gives a float and an integer operator an
/// integer, taking its first operand's type when that is of the operator's
/// kind; strings are C strings.
pub proof fn lemma_inferred_types(e: ExprV)
    ensures
        ({
            let r = spec_infer_expr(e).ty;
            &&& e.kind is I32Const ==> r == InferredType::I32
            &&& e.kind is I64Const ==> r == InferredType::I64
            &&& e.kind is F32Const ==> r == InferredType::F32
            &&& e.kind is F64Const ==> r == InferredType::F64
            &&& e.kind is Compare ==> r == InferredType::Bool
            &&& e.kind matches ExprKindV::UnaryOp(UnaryOp::Eqz, _) ==> r == InferredType::Bool
            &&& e.kind matches ExprKindV::BinOp(op, a, _) ==> {
                &&& r.spec_is_float() == is_float_binop(op)
                &&& r.spec_is_integer() == !is_float_binop(op)
                &&& (is_float_binop(op) == spec_infer_expr(*a).ty.spec_is_float()
                    && (spec_infer_expr(*a).ty.spec_is_float() || spec_infer_expr(*a).ty.spec_is_integer()))
                    ==> r == spec_infer_expr(*a).ty
            }
            &&& e.kind is StringLiteral ==> r == InferredType::CString
        }),
{
}

/// Law: a conversion is typed by its result as the lifter reads it from the
/// instruction: the value type that follows the opcode.
pub proof fn lemma_convert_typed_as_lifted(op: ConvertOp, ty: ValType, code: u8, sub: u32, ops: OperandsV)
    ensures
        lift_op_is(LiftOp::Convert { op, ty }, code, ops) ==> spec_convert_result_type(op) == val_type_inferred(ty),
        prefixed_lift_op_is(LiftOp::Convert { op, ty }, sub, ops) ==> spec_convert_result_type(op) == val_type_inferred(ty),
{
}

/// The type a value type stands for.
pub open spec fn val_type_inferred(t: ValType) -> InferredType {
    match t {
        ValType::I32 => InferredType::I32,
        ValType::I64 => InferredType::I64,
        ValType::F32 => InferredType::F32,
        ValType::F64 => InferredType::F64,
    }
}

/// An expression with types inferred bottom up.  Locals, globals and calls
/// keep the type they had; a unary operation or `select` whose operands give
/// no type keeps it too.
pub open spec fn spec_infer_expr(e: ExprV) -> ExprV
    decreases e,
{
    match e.kind {
        ExprKindV::I32Const(_) => ExprV { kind: e.kind, ty: InferredType::I32 },
        ExprKindV::I64Const(_) => ExprV { kind: e.kind, ty: InferredType::I64 },
        ExprKindV::F32Const(_) => ExprV { kind: e.kind, ty: InferredType::F32 },
        ExprKindV::F64Const(_) => ExprV { kind: e.kind, ty: InferredType::F64 },
        ExprKindV::BinOp(op, a, b) => {
            let ia = spec_infer_expr(*a);
            let ib = spec_infer_expr(*b);
            ExprV { kind: ExprKindV::BinOp(op, Box::new(ia), Box::new(ib)), ty: binop_type(op, ia.ty, ib.ty) }
        },
        ExprKindV::UnaryOp(op, a) => {
            let ia = spec_infer_expr(*a);
            let t = if op is Eqz { InferredType::Bool } else { ia.ty };
            ExprV { kind: ExprKindV::UnaryOp(op, Box::new(ia)), ty: if t != InferredType::Unknown { t } else { e.ty } }
        },
        ExprKindV::Compare(op, a, b, t) => ExprV {
            kind: ExprKindV::Compare(op, Box::new(spec_infer_expr(*a)), Box::new(spec_infer_expr(*b)), t),
            ty: InferredType::Bool,
        },
        ExprKindV::Load { addr, offset, size, signed } => ExprV {
            kind: ExprKindV::Load { addr: Box::new(spec_infer_expr(*addr)), offset, size, signed },
            ty: load_type(size),
        },
        ExprKindV::Call { func, args } => ExprV { kind: ExprKindV::Call { func, args: spec_infer_exprs(args) }, ty: e.ty },
        ExprKindV::CallIndirect { type_idx, table_idx, index, args } => ExprV {
            kind: ExprKindV::CallIndirect {
                type_idx,
                table_idx,
                index: Box::new(spec_infer_expr(*index)),
                args: spec_infer_exprs(args),
            },
            ty: e.ty,
        },
        ExprKindV::Select { cond, then_val, else_val } => {
            let c = spec_infer_expr(*cond);
            let t = spec_infer_expr(*then_val);
            let f = spec_infer_expr(*else_val);
            ExprV {
                kind: ExprKindV::Select { cond: Box::new(c), then_val: Box::new(t), else_val: Box::new(f) },
                ty: if t.ty != InferredType::Unknown { t.ty } else if f.ty != InferredType::Unknown { f.ty } else { e.ty },
            }
        },
        ExprKindV::Convert { op, expr } => ExprV {
            kind: ExprKindV::Convert { op, expr: Box::new(spec_infer_expr(*expr)) },
            ty: spec_convert_result_type(op),
        },
        ExprKindV::StringLiteral(_) => ExprV { kind: e.kind, ty: InferredType::CString },
        ExprKindV::GoString { ptr, len } => ExprV {
            kind: ExprKindV::GoString { ptr: Box::new(spec_infer_expr(*ptr)), len: Box::new(spec_infer_expr(*len)) },
            ty: InferredType::GoString,
        },
        ExprKindV::GoSlice { ptr, len, cap } => ExprV {
            kind: ExprKindV::GoSlice {
                ptr: Box::new(spec_infer_expr(*ptr)),
                len: Box::new(spec_infer_expr(*len)),
                cap: Box::new(spec_infer_expr(*cap)),
            },
            ty: InferredType::GoSlice(Box::new(InferredType::Unknown)),
        },
        ExprKindV::GoInterface { type_ptr, data } => ExprV {
            kind: ExprKindV::GoInterface { type_ptr: Box::new(spec_infer_expr(*type_ptr)), data: Box::new(spec_infer_expr(*data)) },
            ty: InferredType::GoInterface,
        },
        ExprKindV::ResolvedPointer { .. } => ExprV { kind: e.kind, ty: InferredType::CString },
        _ => e,
    }
}

/// Each expression of a list with types inferred.
pub open spec fn spec_infer_exprs(s: Seq<ExprV>) -> Seq<ExprV>
    decreases s,
{
    if s.len() == 0 {
        Seq::empty()
    } else {
        spec_infer_exprs(s.drop_last()).push(spec_infer_expr(s.last()))
    }
}

proof fn lemma_infer_exprs_push(s: Seq<ExprV>, e: ExprV)
    ensures
        spec_infer_exprs(s.push(e)) == spec_infer_exprs(s).push(spec_infer_expr(e)),
{
    assert(s.push(e).drop_last() =~= s);
}

fn binop_result_type(op: BinOp, a: &InferredType, b: &InferredType) -> (r: InferredType)
    ensures
        r == binop_type(op, *a, *b),
{
    match op {
        BinOp::FAdd | BinOp::FSub | BinOp::FMul | BinOp::FDiv | BinOp::FMin | BinOp::FMax | BinOp::FCopysign => {
            if a.is_float() {
                a.duplicate()
            } else if b.is_float() {
                b.duplicate()
            } else {
                InferredType::F64
            }
        },
        _ => {
            if a.is_integer() {
                a.duplicate()
            } else if b.is_integer() {
                b.duplicate()
            } else {
                InferredType::I32
            }
        },
    }
}

fn is_unknown(t: &InferredType) -> (r: bool)
    ensures
        r == (*t == InferredType::Unknown),
{
    matches!(t, InferredType::Unknown)
}

/// Infer the types of an expression and its operands.
#[verifier::rlimit(40)]
fn infer_expr(e: &Expr) -> (r: Expr)
    ensures
        r@ == spec_infer_expr(e@),
    decreases e,
{
    match &e.kind {
        ExprKind::I32Const(v) => Expr { kind: ExprKind::I32Const(*v), ty: InferredType::I32 },
        ExprKind::I64Const(v) => Expr { kind: ExprKind::I64Const(*v), ty: InferredType::I64 },
        ExprKind::F32Const(v) => Expr { kind: ExprKind::F32Const(*v), ty: InferredType::F32 },
        ExprKind::F64Const(v) => Expr { kind: ExprKind::F64Const(*v), ty: InferredType::F64 },
        ExprKind::BinOp(op, a, b) => {
            let a = infer_expr(a);
            let b = infer_expr(b);
            let ty = binop_result_type(*op, &a.ty, &b.ty);
            Expr { kind: ExprKind::BinOp(*op, Box::new(a), Box::new(b)), ty }
        },
        ExprKind::UnaryOp(op, a) => {
            let a = infer_expr(a);
            let t = match op {
                UnaryOp::Eqz => InferredType::Bool,
                _ => a.ty.duplicate(),
            };
            let ty = if !is_unknown(&t) { t } else { e.ty.duplicate() };
            Expr { kind: ExprKind::UnaryOp(*op, Box::new(a)), ty }
        },
        ExprKind::Compare(op, a, b, t) => {
            let a = infer_expr(a);
            let b = infer_expr(b);
            Expr { kind: ExprKind::Compare(*op, Box::new(a), Box::new(b), t.duplicate()), ty: InferredType::Bool }
        },
        ExprKind::Load { addr, offset, size, signed } => {
            let addr = infer_expr(addr);
            let ty = match size {
                MemSize::I8 | MemSize::I16 | MemSize::I32 => InferredType::I32,
                MemSize::I64 => InferredType::I64,
                MemSize::F32 => InferredType::F32,
                MemSize::F64 => InferredType::F64,
            };
            Expr { kind: ExprKind::Load { addr: Box::new(addr), offset: *offset, size: *size, signed: *signed }, ty }
        },
        ExprKind::Call { func, args } => {
            let args = infer_exprs(args);
            Expr { kind: ExprKind::Call { func: *func, args }, ty: e.ty.duplicate() }
        },
        ExprKind::CallIndirect { type_idx, table_idx, index, args } => {
            let index = infer_expr(index);
            let args = infer_exprs(args);
            Expr {
                kind: ExprKind::CallIndirect { type_idx: *type_idx, table_idx: *table_idx, index: Box::new(index), args },
                ty: e.ty.duplicate(),
            }
        },
        ExprKind::Select { cond, then_val, else_val } => {
            let cond = infer_expr(cond);
            let then_val = infer_expr(then_val);
            let else_val = infer_expr(else_val);
            let ty = if !is_unknown(&then_val.ty) {
                then_val.ty.duplicate()
            } else if !is_unknown(&else_val.ty) {
                else_val.ty.duplicate()
            } else {
                e.ty.duplicate()
            };
            Expr { kind: ExprKind::Select { cond: Box::new(cond), then_val: Box::new(then_val), else_val: Box::new(else_val) }, ty }
        },
        ExprKind::Convert { op, expr } => {
            let inner = infer_expr(expr);
            Expr { kind: ExprKind::Convert { op: *op, expr: Box::new(inner) }, ty: convert_result_type(*op) }
        },
        ExprKind::StringLiteral(_) => {
            let d = e.duplicate();
            Expr { kind: d.kind, ty: InferredType::CString }
        },
        ExprKind::GoString { ptr, len } => {
            let ptr = infer_expr(ptr);
            let len = infer_expr(len);
            Expr { kind: ExprKind::GoString { ptr: Box::new(ptr), len: Box::new(len) }, ty: InferredType::GoString }
        },
        ExprKind::GoSlice { ptr, len, cap } => {
            let ptr = infer_expr(ptr);
            let len = infer_expr(len);
            let cap = infer_expr(cap);
            Expr {
                kind: ExprKind::GoSlice { ptr: Box::new(ptr), len: Box::new(len), cap: Box::new(cap) },
                ty: InferredType::GoSlice(Box::new(InferredType::Unknown)),
            }
        },
        ExprKind::GoInterface { type_ptr, data } => {
            let type_ptr = infer_expr(type_ptr);
            let data = infer_expr(data);
            Expr { kind: ExprKind::GoInterface { type_ptr: Box::new(type_ptr), data: Box::new(data) }, ty: InferredType::GoInterface }
        },
        ExprKind::ResolvedPointer { .. } => {
            let d = e.duplicate();
            Expr { kind: d.kind, ty: InferredType::CString }
        },
        _ => e.duplicate(),
    }
}

/// Infer the types of each expression of a list.
fn infer_exprs(v: &Vec<Expr>) -> (r: Vec<Expr>)
    ensures
        exprs_view(r@) == spec_infer_exprs(exprs_view(v@)),
    decreases v,
{
    let mut out: Vec<Expr> = Vec::new();
    let mut k: usize = 0;
    while k < v.len()
        invariant
            k <= v@.len(),
            exprs_view(out@) == spec_infer_exprs(exprs_view(v@.subrange(0, k as int))),
        decreases v@.len() - k,
    {
        assert(decreases_to!(v => v@[k as int]));
        let r = infer_expr(&v[k]);
        proof {
            lemma_exprs_view_push(out@, r);
            lemma_exprs_view_push(v@.subrange(0, k as int), v@[k as int]);
            assert(v@.subrange(0, k as int).push(v@[k as int]) =~= v@.subrange(0, k + 1));
            lemma_infer_exprs_push(exprs_view(v@.subrange(0, k as int)), expr_view(v@[k as int]));
        }
        out.push(r);
        k += 1;
    }
    assert(v@.subrange(0, k as int) =~= v@);
    out
}

/// A statement of function `f` with types inferred, and the variable types
/// after it: an assignment to a local records the type of the value unless
/// that type is unknown.
pub open spec fn spec_infer_stmt(s: StmtV, f: u32, m: Map<(u32, u32), InferredType>) -> (StmtV, Map<(u32, u32), InferredType>)
    decreases s,
{
    match s {
        StmtV::LocalSet { local, value } => {
            let v = spec_infer_expr(value);
            (StmtV::LocalSet { local, value: v }, if v.ty != InferredType::Unknown { m.insert((f, local), v.ty) } else { m })
        },
        StmtV::GlobalSet { global, value } => (StmtV::GlobalSet { global, value: spec_infer_expr(value) }, m),
        StmtV::Store { addr, offset, value, size } => (
            StmtV::Store { addr: spec_infer_expr(addr), offset, value: spec_infer_expr(value), size },
            m,
        ),
        StmtV::Expr(e) => (StmtV::Expr(spec_infer_expr(e)), m),
        StmtV::Return(v) => (
            StmtV::Return(
                match v {
                    Some(e) => Some(spec_infer_expr(e)),
                    None => None,
                },
            ),
            m,
        ),
        StmtV::If { cond, then_block, else_block } => {
            let t = spec_infer_block(then_block, f, m);
            match else_block {
                Some(b) => {
                    let e = spec_infer_block(b, f, t.1);
                    (StmtV::If { cond: spec_infer_expr(cond), then_block: t.0, else_block: Some(e.0) }, e.1)
                },
                None => (StmtV::If { cond: spec_infer_expr(cond), then_block: t.0, else_block: None }, t.1),
            }
        },
        StmtV::Block { label, body } => {
            let b = spec_infer_block(body, f, m);
            (StmtV::Block { label, body: b.0 }, b.1)
        },
        StmtV::Loop { label, body } => {
            let b = spec_infer_block(body, f, m);
            (StmtV::Loop { label, body: b.0 }, b.1)
        },
        StmtV::DoWhile { body, cond } => {
            let b = spec_infer_block(body, f, m);
            (StmtV::DoWhile { body: b.0, cond: spec_infer_expr(cond) }, b.1)
        },
        StmtV::While { cond, body } => {
            let b = spec_infer_block(body, f, m);
            (StmtV::While { cond: spec_infer_expr(cond), body: b.0 }, b.1)
        },
        StmtV::BrIf { label, cond, is_loop } => (StmtV::BrIf { label, cond: spec_infer_expr(cond), is_loop }, m),
        StmtV::BrTable { index, targets, default } => (StmtV::BrTable { index: spec_infer_expr(index), targets, default }, m),
        StmtV::Drop(e) => (StmtV::Drop(spec_infer_expr(e)), m),
        _ => (s, m),
    }
}

/// A block of function `f` with types inferred statement by statement, and
/// the variable types after it.
pub open spec fn spec_infer_block(b: BlockV, f: u32, m: Map<(u32, u32), InferredType>) -> (BlockV, Map<(u32, u32), InferredType>)
    decreases b,
{
    let r = spec_infer_stmts(b.stmts, f, m);
    (BlockV { stmts: r.0 }, r.1)
}

/// A list of statements with types inferred in order, and the variable types after them.
pub open spec fn spec_infer_stmts(s: Seq<StmtV>, f: u32, m: Map<(u32, u32), InferredType>) -> (Seq<StmtV>, Map<(u32, u32), InferredType>)
    decreases s,
{
    if s.len() == 0 {
        (Seq::empty(), m)
    } else {
        let r = spec_infer_stmts(s.drop_last(), f, m);
        let x = spec_infer_stmt(s.last(), f, r.1);
        (r.0.push(x.0), x.1)
    }
}

proof fn lemma_infer_stmts_push(s: Seq<StmtV>, e: StmtV, f: u32, m: Map<(u32, u32), InferredType>)
    ensures
        spec_infer_stmts(s.push(e), f, m) == ({
            let r = spec_infer_stmts(s, f, m);
            let x = spec_infer_stmt(e, f, r.1);
            (r.0.push(x.0), x.1)
        }),
{
    assert(s.push(e).drop_last() =~= s);
}

/// The context's variable types are those of `m`, and nothing else in it changed.
pub open spec fn ctx_after(old_ctx: PassContext, new_ctx: PassContext, m: Map<(u32, u32), InferredType>) -> bool {
    &&& var_type_map(new_ctx.var_types@) == m
    &&& var_keys_unique(old_ctx.var_types@) ==> var_keys_unique(new_ctx.var_types@)
    &&& new_ctx.known_functions == old_ctx.known_functions
    &&& new_ctx.diagnostics == old_ctx.diagnostics
    &&& new_ctx.debug == old_ctx.debug
}

/// Infer the types of a statement of function `f`, recording assigned local types.
#[verifier::rlimit(40)]
fn infer_stmt(s: &Stmt, f: u32, ctx: &mut PassContext) -> (r: Stmt)
    ensures
        (r@, var_type_map(final(ctx).var_types@)) == spec_infer_stmt(s@, f, var_type_map(old(ctx).var_types@)),
        ctx_after(*old(ctx), *final(ctx), var_type_map(final(ctx).var_types@)),
    decreases s,
{
    match s {
        Stmt::LocalSet { local, value } => {
            let v = infer_expr(value);
            if !is_unknown(&v.ty) {
                ctx.set_var_type(f, *local, v.ty.duplicate());
            }
            Stmt::LocalSet { local: *local, value: v }
        },
        Stmt::GlobalSet { global, value } => Stmt::GlobalSet { global: *global, value: infer_expr(value) },
        Stmt::Store { addr, offset, value, size } => Stmt::Store {
            addr: infer_expr(addr),
            offset: *offset,
            value: infer_expr(value),
            size: *size,
        },
        Stmt::Expr(e) => Stmt::Expr(infer_expr(e)),
        Stmt::Return(v) => Stmt::Return(
            match v {
                Some(e) => Some(infer_expr(e)),
                None => None,
            },
        ),
        Stmt::If { cond, then_block, else_block } => {
            let c = infer_expr(cond);
            let t = infer_block(then_block, f, ctx);
            let e = match else_block {
                Some(b) => Some(infer_block(b, f, ctx)),
                None => None,
            };
            Stmt::If { cond: c, then_block: t, else_block: e }
        },
        Stmt::Block { label, body } => Stmt::Block { label: *label, body: infer_block(body, f, ctx) },
        Stmt::Loop { label, body } => Stmt::Loop { label: *label, body: infer_block(body, f, ctx) },
        Stmt::DoWhile { body, cond } => {
            let b = infer_block(body, f, ctx);
            Stmt::DoWhile { body: b, cond: infer_expr(cond) }
        },
        Stmt::While { cond, body } => {
            let c = infer_expr(cond);
            Stmt::While { cond: c, body: infer_block(body, f, ctx) }
        },
        Stmt::BrIf { label, cond, is_loop } => Stmt::BrIf { label: *label, cond: infer_expr(cond), is_loop: *is_loop },
        Stmt::BrTable { index, targets, default } => Stmt::BrTable {
            index: infer_expr(index),
            targets: crate::ir::copy_targets(targets),
            default: *default,
        },
        Stmt::Drop(e) => Stmt::Drop(infer_expr(e)),
        _ => s.duplicate(),
    }
}

/// Infer the types of each statement of a block of function `f`, in order.
fn infer_block(b: &Block, f: u32, ctx: &mut PassContext) -> (r: Block)
    ensures
        (r@, var_type_map(final(ctx).var_types@)) == spec_infer_block(b@, f, var_type_map(old(ctx).var_types@)),
        ctx_after(*old(ctx), *final(ctx), var_type_map(final(ctx).var_types@)),
    decreases b,
{
    let v = &b.stmts;
    let ghost m0 = var_type_map(ctx.var_types@);
    let mut out: Vec<Stmt> = Vec::new();
    let mut k: usize = 0;
    while k < v.len()
        invariant
            *v == b.stmts,
            k <= v@.len(),
            m0 == var_type_map(old(ctx).var_types@),
            (stmts_view(out@), var_type_map(ctx.var_types@)) == spec_infer_stmts(stmts_view(v@.subrange(0, k as int)), f, m0),
            ctx_after(*old(ctx), *ctx, var_type_map(ctx.var_types@)),
        decreases v@.len() - k,
    {
        assert(decreases_to!(b => b.stmts@[k as int]));
        let r = infer_stmt(&v[k], f, ctx);
        proof {
            lemma_stmts_view_push(out@, r);
            lemma_stmts_view_push(v@.subrange(0, k as int), v@[k as int]);
            assert(v@.subrange(0, k as int).push(v@[k as int]) =~= v@.subrange(0, k + 1));
            lemma_infer_stmts_push(stmts_view(v@.subrange(0, k as int)), stmt_view(v@[k as int]), f, m0);
        }
        out.push(r);
        k += 1;
    }
    assert(v@.subrange(0, k as int) =~= v@);
    Block { stmts: out }
}

/// `m` with the types of `vts` recorded for function `f`, the `i`th at local
/// index `base + i`.
pub open spec fn spec_record_types(f: u32, vts: Seq<ValType>, base: int, m: Map<(u32, u32), InferredType>) -> Map<(u32, u32), InferredType>
    decreases vts.len(),
{
    if vts.len() == 0 {
        m
    } else {
        spec_record_types(f, vts.drop_last(), base, m).insert((f, (base + vts.len() - 1) as u32), val_type_inferred(vts.last()))
    }
}

/// The body of a function with types inferred, and the variable types after
/// it: first its parameters, then its locals, then what its body assigns.
pub open spec fn spec_infer_function(func: Function, m: Map<(u32, u32), InferredType>) -> (BlockV, Map<(u32, u32), InferredType>) {
    let m1 = spec_record_types(func.index, func.params@, 0, m);
    let m2 = spec_record_types(func.index, func.locals@, func.params@.len() as int, m1);
    spec_infer_block(func.body@, func.index, m2)
}

/// The local indices of a function fit in `u32`.
pub open spec fn locals_fit(func: Function) -> bool {
    func.params@.len() + func.locals@.len() <= u32::MAX + 1
}

/// Whether the local indices of `func` fit in `u32`, as type inference needs.
pub fn locals_fit_exec(func: &Function) -> (r: bool)
    ensures
        r == locals_fit(*func),
{
    func.params.len() as u128 + func.locals.len() as u128 <= 0x1_0000_0000u128
}

fn val_type_to_inferred(t: ValType) -> (r: InferredType)
    ensures
        r == val_type_inferred(t),
{
    match t {
        ValType::I32 => InferredType::I32,
        ValType::I64 => InferredType::I64,
        ValType::F32 => InferredType::F32,
        ValType::F64 => InferredType::F64,
    }
}

/// Record the types of `vts` for function `f`, the `i`th at local `base + i`.
fn record_types(f: u32, vts: &Vec<ValType>, base: u32, ctx: &mut PassContext)
    requires
        base + vts@.len() <= u32::MAX + 1,
    ensures
        var_type_map(final(ctx).var_types@) == spec_record_types(f, vts@, base as int, var_type_map(old(ctx).var_types@)),
        ctx_after(*old(ctx), *final(ctx), var_type_map(final(ctx).var_types@)),
{
    let ghost m0 = var_type_map(ctx.var_types@);
    let mut i: usize = 0;
    while i < vts.len()
        invariant
            i <= vts@.len(),
            base + vts@.len() <= u32::MAX + 1,
            m0 == var_type_map(old(ctx).var_types@),
            var_type_map(ctx.var_types@) == spec_record_types(f, vts@.subrange(0, i as int), base as int, m0),
            ctx_after(*old(ctx), *ctx, var_type_map(ctx.var_types@)),
        decreases vts@.len() - i,
    {
        let idx = base + i as u32;
        ctx.set_var_type(f, idx, val_type_to_inferred(vts[i]));
        proof {
            assert(vts@.subrange(0, i + 1).drop_last() =~= vts@.subrange(0, i as int));
        }
        i += 1;
    }
    assert(vts@.subrange(0, i as int) =~= vts@);
}

/// Infer the types of a function: record its parameter and local types, then
/// infer its body; the new body is returned.
fn infer_function(func: &Function, ctx: &mut PassContext) -> (r: Block)
    requires
        locals_fit(*func),
    ensures
        (r@, var_type_map(final(ctx).var_types@)) == spec_infer_function(*func, var_type_map(old(ctx).var_types@)),
        ctx_after(*old(ctx), *final(ctx), var_type_map(final(ctx).var_types@)),
{
    let f = func.index;
    record_types(f, &func.params, 0, ctx);
    if func.locals.len() > 0 {
        record_types(f, &func.locals, func.params.len() as u32, ctx);
    } else {
        proof {
            assert(func.locals@ =~= Seq::<ValType>::empty());
        }
    }
    infer_block(&func.body, f, ctx)
}

/// The new bodies of a list of functions after type inference (imports keep
/// theirs), and the variable types after all of them, in order.
pub open spec fn spec_infer_functions(fs: Seq<Function>, m: Map<(u32, u32), InferredType>) -> (Seq<BlockV>, Map<(u32, u32), InferredType>)
    decreases fs.len(),
{
    if fs.len() == 0 {
        (Seq::empty(), m)
    } else {
        let r = spec_infer_functions(fs.drop_last(), m);
        if fs.last().is_import {
            (r.0.push(fs.last().body@), r.1)
        } else {
            let x = spec_infer_function(fs.last(), r.1);
            (r.0.push(x.0), x.1)
        }
    }
}

impl TypeInferPass {
    /// The pass's name, as logs show it.
    pub fn name(&self) -> (r: &'static str)
        ensures
            r@ == "type_infer"@,
    {
        "type_infer"
    }

    /// Infer the types of every function the module defines, in order,
    /// recording parameter, local and assigned types in the context.
    #[verifier::rlimit(100)]
    #[verifier::spinoff_prover]
    pub fn run(&self, module: &mut Module, ctx: &mut PassContext)
        requires
            forall|i: int| 0 <= i < old(module).functions@.len() ==> locals_fit(#[trigger] old(module).functions@[i]),
        ensures
            final(module).functions@.len() == old(module).functions@.len(),
            forall|i: int| 0 <= i < old(module).functions@.len() ==> {
                let o = #[trigger] old(module).functions@[i];
                let n = final(module).functions@[i];
                &&& n.index == o.index
                &&& n.name == o.name
                &&& n.params == o.params
                &&& n.results == o.results
                &&& n.locals == o.locals
                &&& n.is_import == o.is_import
                &&& n.body@ == spec_infer_functions(old(module).functions@, var_type_map(old(ctx).var_types@)).0[i]
            },
            var_type_map(final(ctx).var_types@) == spec_infer_functions(old(module).functions@, var_type_map(old(ctx).var_types@)).1,
            ctx_after(*old(ctx), *final(ctx), var_type_map(final(ctx).var_types@)),
            final(module).memory == old(module).memory,
            final(module).globals == old(module).globals,
            final(module).exports == old(module).exports,
            final(module).imports == old(module).imports,
            final(module).data_segments == old(module).data_segments,
            final(module).types == old(module).types,
            final(module).func_types == old(module).func_types,
            final(module).elements == old(module).elements,
            final(module).memory_pages == old(module).memory_pages,
            final(module).table_size == old(module).table_size,
    {
        let ghost fs0 = module.functions@;
        let ghost m0 = var_type_map(ctx.var_types@);
        let n = module.functions.len();
        let mut i: usize = 0;
        while i < n
            invariant
                n == fs0.len(),
                i <= n,
                fs0 == old(module).functions@,
                m0 == var_type_map(old(ctx).var_types@),
                forall|k: int| 0 <= k < fs0.len() ==> locals_fit(#[trigger] fs0[k]),
                module.memory == old(module).memory,
                module.globals == old(module).globals,
                module.exports == old(module).exports,
                module.imports == old(module).imports,
                module.data_segments == old(module).data_segments,
                module.types == old(module).types,
                module.func_types == old(module).func_types,
                module.elements == old(module).elements,
                module.memory_pages == old(module).memory_pages,
                module.table_size == old(module).table_size,
                module.functions@.len() == n,
                forall|k: int| i <= k < n ==> #[trigger] module.functions@[k] == fs0[k],
                var_type_map(ctx.var_types@) == spec_infer_functions(fs0.subrange(0, i as int), m0).1,
                ctx_after(*old(ctx), *ctx, var_type_map(ctx.var_types@)),
                forall|k: int| 0 <= k < i ==> {
                    let o = #[trigger] fs0[k];
                    let m = module.functions@[k];
                    &&& m.index == o.index
                    &&& m.name == o.name
                    &&& m.params == o.params
                    &&& m.results == o.results
                    &&& m.locals == o.locals
                    &&& m.is_import == o.is_import
                    &&& m.body@ == spec_infer_functions(fs0.subrange(0, i as int), m0).0[k]
                },
            decreases n - i,
        {
            let ghost prev = spec_infer_functions(fs0.subrange(0, i as int), m0);
            proof {
                assert(fs0.subrange(0, i + 1).drop_last() =~= fs0.subrange(0, i as int));
                lemma_infer_functions_len(fs0.subrange(0, i as int), m0);
            }
            if !module.functions[i].is_import {
                let body = infer_function(&module.functions[i], ctx);
                let mut f = module.functions.remove(i);
                f.body = body;
                module.functions.insert(i, f);
            }
            i += 1;
        }
        proof {
            assert(fs0.subrange(0, n as int) =~= fs0);
        }
    }
}

proof fn lemma_infer_functions_len(fs: Seq<Function>, m: Map<(u32, u32), InferredType>)
    ensures
        spec_infer_functions(fs, m).0.len() == fs.len(),
    decreases fs.len(),
{
    if fs.len() > 0 {
        lemma_infer_functions_len(fs.drop_last(), m);
    }
}

} // verus!
