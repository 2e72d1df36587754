//! Lifting of function bodies to IR: the operand stack of the WASM machine is
//! simulated with expressions, statements are emitted as side effects happen,
//! and structured control (`block`, `loop`, `if`) becomes nested IR blocks.
//!
//! Operators come in as `LiftOp`, the operator set of the core instruction set
//! that the lifter reads, with their immediates as plain values.
use vstd::prelude::*;
use crate::disasm::decode::BlockTypeOperand;
use crate::ir::{
    BinOp, Block, BlockV, BranchTarget, CmpOp, ConvertOp, Expr, ExprKind, ExprKindV, ExprV, FuncType, Function,
    InferredType, MemSize, Module, Stmt, StmtV, UnaryOp, ValType, exprs_view, lemma_exprs_view,
    lemma_exprs_view_push, lemma_stmts_view, lemma_stmts_view_push, stmts_view,
};
use crate::passes::type_infer::val_type_inferred;
pub use crate::load::lift;

verus! {

/// An operator of a function body, with its immediates.
#[derive(Debug)]
pub enum LiftOp {
    I32Const(i32),
    I64Const(i64),
    /// An `f32` constant, by its bit pattern
    F32Const(u32),
    /// An `f64` constant, by its bit pattern
    F64Const(u64),
    LocalGet(u32),
    LocalSet(u32),
    LocalTee(u32),
    GlobalGet(u32),
    GlobalSet(u32),
    /// A load of `size` bytes, sign-extended when `signed`
    Load { size: MemSize, signed: bool, offset: u64 },
    Store { size: MemSize, offset: u64 },
    /// A binary operator on operands of type `ty`
    Binary { op: BinOp, ty: ValType },
    Unary { op: UnaryOp, ty: ValType },
    /// A comparison of operands of type `ty`
    Compare { op: CmpOp, ty: ValType },
    /// A conversion whose result has type `ty`
    Convert { op: ConvertOp, ty: ValType },
    Call(u32),
    CallIndirect { type_index: u32, table_index: u32 },
    Block(BlockTypeOperand),
    Loop(BlockTypeOperand),
    If(BlockTypeOperand),
    Else,
    End,
    Br(u32),
    BrIf(u32),
    BrTable { targets: Vec<u32>, default: u32 },
    Return,
    Select,
    Drop,
    Unreachable,
    Nop,
    MemorySize,
    MemoryGrow,
    MemoryFill,
    MemoryCopy,
    /// An operator the lifter passes over
    Other,
}

/// The kind of an open structured block.
#[derive(Debug, Clone, Copy, PartialEq, Eq, Structural)]
pub enum ControlKind {
    Block,
    Loop,
    If,
}

/// An open structured block.
#[derive(Debug)]
pub struct ControlFrame {
    pub kind: ControlKind,
    pub label: u32,
    /// Statements of the enclosing block, set aside while this one is open
    pub stmts: Vec<Stmt>,
    /// The statements of the true branch of an `if`, once `else` was seen
    pub else_stmts: Option<Vec<Stmt>>,
    pub blockty: BlockTypeOperand,
    /// Depth of the value stack on entry
    pub stack_depth_at_entry: usize,
    /// Values left by the true branch of an `if` with results
    pub then_result: Option<Vec<Expr>>,
    /// Condition of an `if`
    pub saved_cond: Option<Expr>,
    /// Local that carries the result of a typed block to branches
    pub block_result_local: Option<u32>,
}

/// Value of an open structured block.
pub struct FrameV {
    pub kind: ControlKind,
    pub label: u32,
    pub stmts: Seq<StmtV>,
    pub else_stmts: Option<Seq<StmtV>>,
    pub blockty: BlockTypeOperand,
    pub depth: usize,
    pub then_result: Option<Seq<ExprV>>,
    pub saved_cond: Option<ExprV>,
    pub block_result_local: Option<u32>,
}

/// The value of an open structured block.
pub open spec fn frame_view(f: ControlFrame) -> FrameV {
    FrameV {
        kind: f.kind,
        label: f.label,
        stmts: stmts_view(f.stmts@),
        else_stmts: match f.else_stmts {
            Some(v) => Some(stmts_view(v@)),
            None => None,
        },
        blockty: f.blockty,
        depth: f.stack_depth_at_entry,
        then_result: match f.then_result {
            Some(v) => Some(exprs_view(v@)),
            None => None,
        },
        saved_cond: match f.saved_cond {
            Some(e) => Some(e@),
            None => None,
        },
        block_result_local: f.block_result_local,
    }
}

/// State of the lifter: value stack, statements of the innermost open block,
/// open blocks, and the next label and temporary local to hand out.
#[verifier::ext_equal]
pub struct LiftV {
    pub stack: Seq<ExprV>,
    pub stmts: Seq<StmtV>,
    pub frames: Seq<FrameV>,
    pub next_label: u32,
    pub next_temp: u32,
}

/// The local after `t`, wrapping around at the top of the index space.
pub open spec fn wrap_inc(t: u32) -> u32 {
    if t == u32::MAX { 0 } else { (t + 1) as u32 }
}

/// The `i`-th local handed out from `t` on.
pub open spec fn nth_temp(t: u32, i: nat) -> u32
    decreases i,
{
    if i == 0 { t } else { wrap_inc(nth_temp(t, (i - 1) as nat)) }
}

pub open spec fn mk(kind: ExprKindV, ty: InferredType) -> ExprV {
    ExprV { kind, ty }
}

/// What an empty stack pops: the constant 0.
pub open spec fn zero_v() -> ExprV {
    mk(ExprKindV::I32Const(0), InferredType::I32)
}

pub open spec fn local_v(idx: u32) -> ExprV {
    mk(ExprKindV::Local(idx), InferredType::Unknown)
}

/// The top of the stack, or 0 when it is empty.
pub open spec fn top(st: Seq<ExprV>) -> ExprV {
    if st.len() > 0 { st.last() } else { zero_v() }
}

/// The stack without its top.
pub open spec fn below(st: Seq<ExprV>) -> Seq<ExprV> {
    if st.len() > 0 { st.drop_last() } else { st }
}

pub open spec fn with_stack(s: LiftV, st: Seq<ExprV>) -> LiftV {
    LiftV { stack: st, stmts: s.stmts, frames: s.frames, next_label: s.next_label, next_temp: s.next_temp }
}

pub open spec fn pop_v(s: LiftV) -> LiftV {
    with_stack(s, below(s.stack))
}

pub open spec fn push_v(s: LiftV, e: ExprV) -> LiftV {
    with_stack(s, s.stack.push(e))
}

pub open spec fn emit_v(s: LiftV, st: StmtV) -> LiftV {
    LiftV { stack: s.stack, stmts: s.stmts.push(st), frames: s.frames, next_label: s.next_label, next_temp: s.next_temp }
}

/// Whether an expression reads local `idx` (through the operators that take
/// operands; the recovered Go and string forms are not looked into).
pub open spec fn contains_local(e: ExprV, idx: u32) -> bool
    decreases e,
{
    match e.kind {
        ExprKindV::Local(i) => i == idx,
        ExprKindV::BinOp(_, a, b) => contains_local(*a, idx) || contains_local(*b, idx),
        ExprKindV::Compare(_, a, b, _) => contains_local(*a, idx) || contains_local(*b, idx),
        ExprKindV::UnaryOp(_, a) => contains_local(*a, idx),
        ExprKindV::Convert { expr, .. } => contains_local(*expr, idx),
        ExprKindV::Load { addr, .. } => contains_local(*addr, idx),
        ExprKindV::Call { args, .. } => any_contains_local(args, idx),
        ExprKindV::CallIndirect { index, args, .. } => contains_local(*index, idx) || any_contains_local(args, idx),
        ExprKindV::Select { cond, then_val, else_val } => contains_local(*cond, idx) || contains_local(*then_val, idx)
            || contains_local(*else_val, idx),
        _ => false,
    }
}

/// Whether any expression of a list reads local `idx`.
pub open spec fn any_contains_local(s: Seq<ExprV>, idx: u32) -> bool
    decreases s,
{
    if s.len() == 0 {
        false
    } else {
        any_contains_local(s.drop_last(), idx) || contains_local(s.last(), idx)
    }
}

/// An expression with its reads of local `old` turned into reads of `new`.
pub open spec fn replace_local(e: ExprV, old: u32, new: u32) -> ExprV
    decreases e,
{
    let k = match e.kind {
        ExprKindV::Local(i) => if i == old { ExprKindV::Local(new) } else { e.kind },
        ExprKindV::BinOp(op, a, b) => ExprKindV::BinOp(op, Box::new(replace_local(*a, old, new)), Box::new(replace_local(*b, old, new))),
        ExprKindV::Compare(op, a, b, t) => ExprKindV::Compare(
            op,
            Box::new(replace_local(*a, old, new)),
            Box::new(replace_local(*b, old, new)),
            t,
        ),
        ExprKindV::UnaryOp(op, a) => ExprKindV::UnaryOp(op, Box::new(replace_local(*a, old, new))),
        ExprKindV::Convert { op, expr } => ExprKindV::Convert { op, expr: Box::new(replace_local(*expr, old, new)) },
        ExprKindV::Load { addr, offset, size, signed } => ExprKindV::Load {
            addr: Box::new(replace_local(*addr, old, new)),
            offset,
            size,
            signed,
        },
        ExprKindV::Call { func, args } => ExprKindV::Call { func, args: replace_locals(args, old, new) },
        ExprKindV::CallIndirect { type_idx, table_idx, index, args } => ExprKindV::CallIndirect {
            type_idx,
            table_idx,
            index: Box::new(replace_local(*index, old, new)),
            args: replace_locals(args, old, new),
        },
        ExprKindV::Select { cond, then_val, else_val } => ExprKindV::Select {
            cond: Box::new(replace_local(*cond, old, new)),
            then_val: Box::new(replace_local(*then_val, old, new)),
            else_val: Box::new(replace_local(*else_val, old, new)),
        },
        _ => e.kind,
    };
    ExprV { kind: k, ty: e.ty }
}

/// A list of expressions with reads of local `old` turned into reads of `new`.
pub open spec fn replace_locals(s: Seq<ExprV>, old: u32, new: u32) -> Seq<ExprV>
    decreases s,
{
    if s.len() == 0 {
        s
    } else {
        replace_locals(s.drop_last(), old, new).push(replace_local(s.last(), old, new))
    }
}

/// Before local `idx` is overwritten, pending stack expressions that read it
/// are made to read a fresh temporary that holds its old value.
pub open spec fn save_local_v(s: LiftV, idx: u32) -> LiftV {
    if any_contains_local(s.stack, idx) {
        let temp = s.next_temp;
        LiftV {
            stack: replace_locals(s.stack, idx, temp),
            stmts: s.stmts.push(StmtV::LocalSet { local: temp, value: local_v(idx) }),
            frames: s.frames,
            next_label: s.next_label,
            next_temp: wrap_inc(temp),
        }
    } else {
        s
    }
}

/// How many values a block type produces.
pub open spec fn result_count(types: Seq<FuncType>, bt: BlockTypeOperand) -> nat {
    match bt {
        BlockTypeOperand::Empty => 0,
        BlockTypeOperand::Value(_) => 1,
        BlockTypeOperand::FuncType(i) => if i < types.len() { types[i as int].results@.len() } else { 0 },
    }
}

/// The open block a branch of relative depth `d` names: counted from the
/// innermost, the outermost when `d` reaches past it.
pub open spec fn frame_index(s: LiftV, d: u32) -> int {
    if d + 1 > s.frames.len() { 0 } else { s.frames.len() - 1 - d }
}

pub open spec fn branch_target_v(s: LiftV, d: u32) -> BranchTarget {
    if s.frames.len() > 0 {
        let f = s.frames[frame_index(s, d)];
        BranchTarget { label: f.label, is_loop: f.kind == ControlKind::Loop }
    } else {
        BranchTarget { label: 0, is_loop: false }
    }
}

/// How many values a branch of depth `d` carries: none to a loop.
pub open spec fn branch_results_v(s: LiftV, types: Seq<FuncType>, d: u32) -> nat {
    if s.frames.len() > 0 {
        let f = s.frames[frame_index(s, d)];
        if f.kind == ControlKind::Loop { 0 } else { result_count(types, f.blockty) }
    } else {
        0
    }
}

/// The local that carries the result of the block a branch names, handed
/// out on first use.
pub open spec fn result_local_v(s: LiftV, d: u32) -> (u32, LiftV) {
    let i = frame_index(s, d);
    if s.frames.len() > 0 && s.frames[i].block_result_local is Some {
        (s.frames[i].block_result_local->0, s)
    } else {
        let temp = s.next_temp;
        let frames = if s.frames.len() > 0 {
            let f = s.frames[i];
            s.frames.update(i, FrameV { block_result_local: Some(temp), ..f })
        } else {
            s.frames
        };
        (temp, LiftV { stack: s.stack, stmts: s.stmts, frames, next_label: s.next_label, next_temp: wrap_inc(temp) })
    }
}

/// A fresh open block of the given kind; the statements so far are set aside.
pub open spec fn open_v(s: LiftV, kind: ControlKind, bt: BlockTypeOperand, cond: Option<ExprV>) -> LiftV {
    let f = FrameV {
        kind,
        label: s.next_label,
        stmts: s.stmts,
        else_stmts: None,
        blockty: bt,
        depth: s.stack.len() as usize,
        then_result: None,
        saved_cond: cond,
        block_result_local: None,
    };
    LiftV { stack: s.stack, stmts: Seq::empty(), frames: s.frames.push(f), next_label: wrap_inc(s.next_label), next_temp: s.next_temp }
}

/// The last `n` values of the stack (all of them when it is shorter).
pub open spec fn tail_of(st: Seq<ExprV>, n: nat) -> Seq<ExprV> {
    if n <= st.len() { st.subrange(st.len() - n, st.len() as int) } else { st }
}

/// The stack without its last `n` values.
pub open spec fn head_of(st: Seq<ExprV>, n: nat) -> Seq<ExprV> {
    if n <= st.len() { st.subrange(0, st.len() - n) } else { Seq::empty() }
}

pub open spec fn else_v(s: LiftV, types: Seq<FuncType>) -> LiftV {
    if s.frames.len() > 0 {
        let f = s.frames.last();
        let rc = result_count(types, f.blockty);
        let (stack, then_result) = if rc > 0 {
            (head_of(s.stack, rc), Some(tail_of(s.stack, rc)))
        } else {
            (s.stack, f.then_result)
        };
        let f2 = FrameV { else_stmts: Some(s.stmts), then_result, ..f };
        LiftV {
            stack,
            stmts: Seq::empty(),
            frames: s.frames.drop_last().push(f2),
            next_label: s.next_label,
            next_temp: s.next_temp,
        }
    } else {
        s
    }
}

/// Assignments of each value of `vals` to consecutive temporaries from `t` on.
pub open spec fn assign_temps(t: u32, vals: Seq<ExprV>) -> Seq<StmtV>
    decreases vals.len(),
{
    if vals.len() == 0 {
        Seq::empty()
    } else {
        assign_temps(t, vals.drop_last()).push(
            StmtV::LocalSet { local: nth_temp(t, (vals.len() - 1) as nat), value: vals.last() },
        )
    }
}

/// Reads of `n` consecutive temporaries from `t` on.
pub open spec fn temp_reads(t: u32, n: nat) -> Seq<ExprV>
    decreases n,
{
    if n == 0 {
        Seq::empty()
    } else {
        temp_reads(t, (n - 1) as nat).push(local_v(nth_temp(t, (n - 1) as nat)))
    }
}

pub open spec fn min_nat(a: nat, b: nat) -> nat {
    if a <= b { a } else { b }
}

/// Closing an `if`: the branches are put back in order; when both leave
/// values, each pair is assigned to a temporary that is pushed.
pub open spec fn end_if_v(
    s: LiftV,
    blockty: BlockTypeOperand,
    saved_cond: Option<ExprV>,
    else_stmts: Option<Seq<StmtV>>,
    then_result: Option<Seq<ExprV>>,
    body: Seq<StmtV>,
    types: Seq<FuncType>,
) -> LiftV {
    let rc = result_count(types, blockty);
    let else_results = if rc > 0 { tail_of(s.stack, rc) } else { Seq::empty() };
    let stack = if rc > 0 { head_of(s.stack, rc) } else { s.stack };
    let cond = match saved_cond {
        Some(c) => c,
        None => zero_v(),
    };
    let (then_b, else_b) = match else_stmts {
        Some(t) => (t, Some(body)),
        None => (body, None::<Seq<StmtV>>),
    };
    if rc > 0 && then_result is Some && else_results.len() > 0 {
        let then_results = then_result->0;
        let n = min_nat(then_results.len(), else_results.len());
        let t = s.next_temp;
        let else_inner = match else_b {
            Some(b) => b,
            None => Seq::empty(),
        };
        LiftV {
            stack: stack + temp_reads(t, n),
            stmts: s.stmts.push(StmtV::If {
                cond,
                then_block: BlockV { stmts: then_b + assign_temps(t, then_results.subrange(0, n as int)) },
                else_block: Some(BlockV { stmts: else_inner + assign_temps(t, else_results.subrange(0, n as int)) }),
            }),
            frames: s.frames,
            next_label: s.next_label,
            next_temp: nth_temp(t, n),
        }
    } else {
        let s2 = with_stack(s, stack);
        emit_v(s2, StmtV::If {
            cond,
            then_block: BlockV { stmts: then_b },
            else_block: match else_b {
                Some(b) => Some(BlockV { stmts: b }),
                None => None,
            },
        })
    }
}

pub open spec fn end_v(s: LiftV, types: Seq<FuncType>) -> LiftV {
    if s.frames.len() > 0 {
        let f = s.frames.last();
        let body = s.stmts;
        let s1 = LiftV { stack: s.stack, stmts: f.stmts, frames: s.frames.drop_last(), next_label: s.next_label, next_temp: s.next_temp };
        match f.kind {
            ControlKind::Block => match f.block_result_local {
                Some(temp) => {
                    let v = top(s1.stack);
                    let s2 = pop_v(s1);
                    let s3 = emit_v(s2, StmtV::Block {
                        label: f.label,
                        body: BlockV { stmts: body.push(StmtV::LocalSet { local: temp, value: v }) },
                    });
                    push_v(s3, local_v(temp))
                },
                None => emit_v(s1, StmtV::Block { label: f.label, body: BlockV { stmts: body } }),
            },
            ControlKind::Loop => emit_v(s1, StmtV::Loop { label: f.label, body: BlockV { stmts: body } }),
            ControlKind::If => end_if_v(s1, f.blockty, f.saved_cond, f.else_stmts, f.then_result, body, types),
        }
    } else {
        s
    }
}

/// The signature of a called function, when its type is known.
pub open spec fn callee_type(types: Seq<FuncType>, func_types: Seq<u32>, f: u32) -> Option<FuncType> {
    if f < func_types.len() && func_types[f as int] < types.len() {
        Some(types[func_types[f as int] as int])
    } else {
        None
    }
}

/// A call takes as many arguments as its callee has parameters (all that
/// are on the stack when there are fewer); with no known type it takes none
/// and is taken to return a value.
pub open spec fn call_v(s: LiftV, ft: Option<FuncType>, mk_call: spec_fn(Seq<ExprV>) -> ExprV) -> LiftV {
    let np: nat = match ft {
        Some(t) => t.params@.len(),
        None => 0,
    };
    let has_result = match ft {
        Some(t) => t.results@.len() > 0,
        None => true,
    };
    let args = tail_of(s.stack, np);
    let s1 = with_stack(s, head_of(s.stack, np));
    if has_result {
        push_v(s1, mk_call(args))
    } else {
        emit_v(s1, StmtV::Expr(mk_call(args)))
    }
}

pub open spec fn load_type(size: MemSize) -> InferredType {
    match size {
        MemSize::I8 | MemSize::I16 | MemSize::I32 => InferredType::I32,
        MemSize::I64 => InferredType::I64,
        MemSize::F32 => InferredType::F32,
        MemSize::F64 => InferredType::F64,
    }
}

pub open spec fn call_marker(func: u32, args: Seq<ExprV>) -> ExprV {
    mk(ExprKindV::Call { func, args }, InferredType::Unknown)
}

/// One operator.
pub open spec fn step_v(s: LiftV, op: LiftOp, types: Seq<FuncType>, func_types: Seq<u32>) -> LiftV {
    match op {
        LiftOp::I32Const(v) => push_v(s, mk(ExprKindV::I32Const(v), InferredType::I32)),
        LiftOp::I64Const(v) => push_v(s, mk(ExprKindV::I64Const(v), InferredType::I64)),
        LiftOp::F32Const(v) => push_v(s, mk(ExprKindV::F32Const(v), InferredType::F32)),
        LiftOp::F64Const(v) => push_v(s, mk(ExprKindV::F64Const(v), InferredType::F64)),
        LiftOp::LocalGet(i) => push_v(s, local_v(i)),
        LiftOp::LocalSet(i) => emit_v(save_local_v(pop_v(s), i), StmtV::LocalSet { local: i, value: top(s.stack) }),
        LiftOp::LocalTee(i) => push_v(
            emit_v(save_local_v(pop_v(s), i), StmtV::LocalSet { local: i, value: top(s.stack) }),
            local_v(i),
        ),
        LiftOp::GlobalGet(i) => push_v(s, mk(ExprKindV::Global(i), InferredType::Unknown)),
        LiftOp::GlobalSet(i) => emit_v(pop_v(s), StmtV::GlobalSet { global: i, value: top(s.stack) }),
        LiftOp::Load { size, signed, offset } => push_v(
            pop_v(s),
            mk(ExprKindV::Load { addr: Box::new(top(s.stack)), offset: offset as u32, size, signed }, load_type(size)),
        ),
        LiftOp::Store { size, offset } => {
            let value = top(s.stack);
            let s1 = pop_v(s);
            emit_v(pop_v(s1), StmtV::Store { addr: top(s1.stack), offset: offset as u32, value, size })
        },
        LiftOp::Binary { op, ty } => {
            let b = top(s.stack);
            let s1 = pop_v(s);
            push_v(pop_v(s1), mk(ExprKindV::BinOp(op, Box::new(top(s1.stack)), Box::new(b)), val_type_inferred(ty)))
        },
        LiftOp::Unary { op, ty } => push_v(
            pop_v(s),
            mk(ExprKindV::UnaryOp(op, Box::new(top(s.stack))), val_type_inferred(ty)),
        ),
        LiftOp::Compare { op, ty } => {
            let b = top(s.stack);
            let s1 = pop_v(s);
            push_v(
                pop_v(s1),
                mk(ExprKindV::Compare(op, Box::new(top(s1.stack)), Box::new(b), val_type_inferred(ty)), InferredType::Bool),
            )
        },
        LiftOp::Convert { op, ty } => push_v(
            pop_v(s),
            mk(ExprKindV::Convert { op, expr: Box::new(top(s.stack)) }, val_type_inferred(ty)),
        ),
        LiftOp::Call(f) => call_v(
            s,
            callee_type(types, func_types, f),
            |args: Seq<ExprV>| mk(ExprKindV::Call { func: f, args }, InferredType::Unknown),
        ),
        LiftOp::CallIndirect { type_index, table_index } => {
            let index = top(s.stack);
            let ft = if type_index < types.len() { Some(types[type_index as int]) } else { None };
            call_v(
                pop_v(s),
                ft,
                |args: Seq<ExprV>| mk(
                    ExprKindV::CallIndirect { type_idx: type_index, table_idx: table_index, index: Box::new(index), args },
                    InferredType::Unknown,
                ),
            )
        },
        LiftOp::Block(bt) => open_v(s, ControlKind::Block, bt, None),
        LiftOp::Loop(bt) => open_v(s, ControlKind::Loop, bt, None),
        LiftOp::If(bt) => open_v(pop_v(s), ControlKind::If, bt, Some(top(s.stack))),
        LiftOp::Else => else_v(s, types),
        LiftOp::End => end_v(s, types),
        LiftOp::Br(d) => {
            let target = branch_target_v(s, d);
            let s1 = if branch_results_v(s, types, d) > 0 {
                let v = top(s.stack);
                let (temp, s2) = result_local_v(pop_v(s), d);
                emit_v(s2, StmtV::LocalSet { local: temp, value: v })
            } else {
                s
            };
            emit_v(s1, StmtV::Br { label: target.label, is_loop: target.is_loop })
        },
        LiftOp::BrIf(d) => {
            let cond = top(s.stack);
            let s1 = pop_v(s);
            let target = branch_target_v(s1, d);
            if branch_results_v(s1, types, d) > 0 && !target.is_loop {
                let v = top(s1.stack);
                let (temp, s2) = result_local_v(s1, d);
                emit_v(s2, StmtV::If {
                    cond,
                    then_block: BlockV {
                        stmts: seq![
                            StmtV::LocalSet { local: temp, value: v },
                            StmtV::Br { label: target.label, is_loop: false },
                        ],
                    },
                    else_block: None,
                })
            } else {
                emit_v(s1, StmtV::BrIf { label: target.label, cond, is_loop: target.is_loop })
            }
        },
        LiftOp::BrTable { targets, default } => {
            let index = top(s.stack);
            let s1 = pop_v(s);
            emit_v(s1, StmtV::BrTable {
                index,
                targets: targets@.map_values(|d: u32| branch_target_v(s1, d)),
                default: branch_target_v(s1, default),
            })
        },
        LiftOp::Return => if s.stack.len() > 0 {
            emit_v(pop_v(s), StmtV::Return(Some(top(s.stack))))
        } else {
            emit_v(s, StmtV::Return(None))
        },
        LiftOp::Select => {
            let cond = top(s.stack);
            let s1 = pop_v(s);
            let b = top(s1.stack);
            let s2 = pop_v(s1);
            push_v(
                pop_v(s2),
                mk(ExprKindV::Select { cond: Box::new(cond), then_val: Box::new(top(s2.stack)), else_val: Box::new(b) }, InferredType::Unknown),
            )
        },
        LiftOp::Drop => emit_v(pop_v(s), StmtV::Drop(top(s.stack))),
        LiftOp::Unreachable => emit_v(s, StmtV::Unreachable),
        LiftOp::Nop => emit_v(s, StmtV::Nop),
        LiftOp::MemorySize => push_v(s, call_marker(u32::MAX, Seq::empty())),
        LiftOp::MemoryGrow => push_v(pop_v(s), call_marker((u32::MAX - 1) as u32, seq![top(s.stack)])),
        LiftOp::MemoryFill => {
            let len = top(s.stack);
            let s1 = pop_v(s);
            let value = top(s1.stack);
            let s2 = pop_v(s1);
            emit_v(pop_v(s2), StmtV::Expr(call_marker((u32::MAX - 2) as u32, seq![top(s2.stack), value, len])))
        },
        LiftOp::MemoryCopy => {
            let len = top(s.stack);
            let s1 = pop_v(s);
            let src = top(s1.stack);
            let s2 = pop_v(s1);
            emit_v(pop_v(s2), StmtV::Expr(call_marker((u32::MAX - 3) as u32, seq![top(s2.stack), src, len])))
        },
        LiftOp::Other => s,
    }
}

/// The state after a list of operators, in order.
pub open spec fn run_v(s: LiftV, ops: Seq<LiftOp>, types: Seq<FuncType>, func_types: Seq<u32>) -> LiftV
    decreases ops.len(),
{
    if ops.len() == 0 {
        s
    } else {
        step_v(run_v(s, ops.drop_last(), types, func_types), ops.last(), types, func_types)
    }
}

/// The fresh lifter state: empty stack, no statements, no open block; the
/// temporaries start in the middle of the local index space.
pub open spec fn init_v() -> LiftV {
    LiftV { stack: Seq::empty(), stmts: Seq::empty(), frames: Seq::empty(), next_label: 0, next_temp: 0x7fff_ffff }
}

/// The body at the end: what is left on the stack is returned.
pub open spec fn finish_v(s: LiftV) -> BlockV {
    if s.stack.len() > 0 {
        BlockV { stmts: s.stmts.push(StmtV::Return(Some(s.stack.last()))) }
    } else {
        BlockV { stmts: s.stmts }
    }
}


/// Values of a list of open blocks.
pub open spec fn frames_view(v: Seq<ControlFrame>) -> Seq<FrameV> {
    Seq::new(v.len(), |i: int| frame_view(v[i]))
}

proof fn lemma_exprs_view_drop_last(s: Seq<Expr>)
    requires
        s.len() > 0,
    ensures
        exprs_view(s.drop_last()) == exprs_view(s).drop_last(),
        exprs_view(s).last() == s.last()@,
        exprs_view(s).len() == s.len(),
{
    lemma_exprs_view(s);
    assert(exprs_view(s.drop_last()) =~= exprs_view(s).drop_last());
}

proof fn lemma_exprs_view_split(s: Seq<Expr>, k: int)
    requires
        0 <= k <= s.len(),
    ensures
        exprs_view(s.subrange(0, k)) == exprs_view(s).subrange(0, k),
        exprs_view(s.subrange(k, s.len() as int)) == exprs_view(s).subrange(k, s.len() as int),
{
    lemma_exprs_view(s);
    lemma_exprs_view(s.subrange(0, k));
    lemma_exprs_view(s.subrange(k, s.len() as int));
    assert(exprs_view(s.subrange(0, k)) =~= exprs_view(s).subrange(0, k));
    assert(exprs_view(s.subrange(k, s.len() as int)) =~= exprs_view(s).subrange(k, s.len() as int));
}

/// Whether an expression reads local `idx`.
fn expr_contains_local(e: &Expr, idx: u32) -> (r: bool)
    ensures
        r == contains_local(e@, idx),
    decreases e,
{
    match &e.kind {
        ExprKind::Local(i) => *i == idx,
        ExprKind::BinOp(_, a, b) => expr_contains_local(a, idx) || expr_contains_local(b, idx),
        ExprKind::Compare(_, a, b, _) => expr_contains_local(a, idx) || expr_contains_local(b, idx),
        ExprKind::UnaryOp(_, a) => expr_contains_local(a, idx),
        ExprKind::Convert { expr, .. } => expr_contains_local(expr, idx),
        ExprKind::Load { addr, .. } => expr_contains_local(addr, idx),
        ExprKind::Call { args, .. } => exprs_contain_local(args, idx),
        ExprKind::CallIndirect { index, args, .. } => expr_contains_local(index, idx) || exprs_contain_local(args, idx),
        ExprKind::Select { cond, then_val, else_val } => expr_contains_local(cond, idx)
            || expr_contains_local(then_val, idx) || expr_contains_local(else_val, idx),
        _ => false,
    }
}

/// Whether any expression of a list reads local `idx`.
fn exprs_contain_local(v: &Vec<Expr>, idx: u32) -> (r: bool)
    ensures
        r == any_contains_local(exprs_view(v@), idx),
    decreases v,
{
    let mut found = false;
    let mut k: usize = 0;
    proof {
        assert(v@.subrange(0, 0) =~= Seq::<Expr>::empty());
    }
    while k < v.len()
        invariant
            k <= v@.len(),
            found == any_contains_local(exprs_view(v@.subrange(0, k as int)), idx),
        decreases v@.len() - k,
    {
        proof {
            assert(v@.subrange(0, k + 1).drop_last() =~= v@.subrange(0, k as int));
            assert(decreases_to!(v => v@[k as int]));
        }
        let c = expr_contains_local(&v[k], idx);
        proof {
            let sv = exprs_view(v@.subrange(0, k + 1));
            assert(sv.drop_last() =~= exprs_view(v@.subrange(0, k as int)));
        }
        found = found || c;
        k += 1;
    }
    proof {
        assert(v@.subrange(0, k as int) =~= v@);
    }
    found
}

fn boxed(e: Expr) -> (r: Box<Expr>)
    ensures
        *r == e,
{
    Box::new(e)
}

/// An expression with its reads of local `old` turned into reads of `new`.
fn expr_replaced(e: &Expr, old: u32, new: u32) -> (r: Expr)
    ensures
        r@ == replace_local(e@, old, new),
    decreases e,
{
    let kind = match &e.kind {
        ExprKind::Local(i) => if *i == old { ExprKind::Local(new) } else { ExprKind::Local(*i) },
        ExprKind::BinOp(op, a, b) => ExprKind::BinOp(*op, boxed(expr_replaced(a, old, new)), boxed(expr_replaced(b, old, new))),
        ExprKind::Compare(op, a, b, t) => ExprKind::Compare(
            *op,
            boxed(expr_replaced(a, old, new)),
            boxed(expr_replaced(b, old, new)),
            t.duplicate(),
        ),
        ExprKind::UnaryOp(op, a) => ExprKind::UnaryOp(*op, boxed(expr_replaced(a, old, new))),
        ExprKind::Convert { op, expr } => ExprKind::Convert { op: *op, expr: boxed(expr_replaced(expr, old, new)) },
        ExprKind::Load { addr, offset, size, signed } => ExprKind::Load {
            addr: boxed(expr_replaced(addr, old, new)),
            offset: *offset,
            size: *size,
            signed: *signed,
        },
        ExprKind::Call { func, args } => ExprKind::Call { func: *func, args: exprs_replaced(args, old, new) },
        ExprKind::CallIndirect { type_idx, table_idx, index, args } => ExprKind::CallIndirect {
            type_idx: *type_idx,
            table_idx: *table_idx,
            index: boxed(expr_replaced(index, old, new)),
            args: exprs_replaced(args, old, new),
        },
        ExprKind::Select { cond, then_val, else_val } => ExprKind::Select {
            cond: boxed(expr_replaced(cond, old, new)),
            then_val: boxed(expr_replaced(then_val, old, new)),
            else_val: boxed(expr_replaced(else_val, old, new)),
        },
        _ => {
            return Expr { kind: e.duplicate().kind, ty: e.ty.duplicate() };
        },
    };
    Expr { kind, ty: e.ty.duplicate() }
}

/// A list of expressions with reads of local `old` turned into reads of `new`.
fn exprs_replaced(v: &Vec<Expr>, old: u32, new: u32) -> (r: Vec<Expr>)
    ensures
        exprs_view(r@) == replace_locals(exprs_view(v@), old, new),
    decreases v,
{
    let mut out: Vec<Expr> = Vec::new();
    let mut k: usize = 0;
    proof {
        assert(v@.subrange(0, 0) =~= Seq::<Expr>::empty());
    }
    while k < v.len()
        invariant
            k <= v@.len(),
            exprs_view(out@) == replace_locals(exprs_view(v@.subrange(0, k as int)), old, new),
        decreases v@.len() - k,
    {
        proof {
            assert(v@.subrange(0, k + 1).drop_last() =~= v@.subrange(0, k as int));
            assert(decreases_to!(v => v@[k as int]));
        }
        let x = expr_replaced(&v[k], old, new);
        proof {
            lemma_exprs_view_push(out@, x);
            let sv = exprs_view(v@.subrange(0, k + 1));
            assert(sv.drop_last() =~= exprs_view(v@.subrange(0, k as int)));
        }
        out.push(x);
        k += 1;
    }
    proof {
        assert(v@.subrange(0, k as int) =~= v@);
    }
    out
}


proof fn lemma_frames_push(v: Seq<ControlFrame>, f: ControlFrame)
    ensures
        frames_view(v.push(f)) == frames_view(v).push(frame_view(f)),
{
    assert(frames_view(v.push(f)) =~= frames_view(v).push(frame_view(f)));
}

proof fn lemma_frames_drop_last(v: Seq<ControlFrame>)
    requires
        v.len() > 0,
    ensures
        frames_view(v.drop_last()) == frames_view(v).drop_last(),
        frames_view(v).last() == frame_view(v.last()),
{
    assert(frames_view(v.drop_last()) =~= frames_view(v).drop_last());
}

/// The value of an optional expression.
pub open spec fn opt_expr_view(e: Option<Expr>) -> Option<ExprV> {
    match e {
        Some(x) => Some(x@),
        None => None,
    }
}

fn inferred_of(t: ValType) -> (r: InferredType)
    ensures
        r == val_type_inferred(t),
{
    match t {
        ValType::I32 => InferredType::I32,
        ValType::I64 => InferredType::I64,
        ValType::F32 => InferredType::F32,
        ValType::F64 => InferredType::F64,
    }
}

fn load_type_of(size: MemSize) -> (r: InferredType)
    ensures
        r == load_type(size),
{
    match size {
        MemSize::I8 | MemSize::I16 | MemSize::I32 => InferredType::I32,
        MemSize::I64 => InferredType::I64,
        MemSize::F32 => InferredType::F32,
        MemSize::F64 => InferredType::F64,
    }
}

/// The lifter of one function body.
pub struct FunctionLifter<'a> {
    /// Value stack (simulates the WASM operand stack)
    pub stack: Vec<Expr>,
    /// Statements of the innermost open block
    pub stmts: Vec<Stmt>,
    /// Open blocks, innermost last
    pub control_stack: Vec<ControlFrame>,
    /// Next label ID
    pub next_label: u32,
    /// Number of parameters
    pub num_params: u32,
    /// Next temporary local, for values saved aside
    pub next_temp_local: u32,
    /// Function type signatures of the module
    pub types: &'a [FuncType],
    /// Type index of each function of the module
    pub func_types: &'a [u32],
}

impl<'a> FunctionLifter<'a> {
    /// The state of the lifter.
    pub open spec fn lv(&self) -> LiftV {
        LiftV {
            stack: exprs_view(self.stack@),
            stmts: stmts_view(self.stmts@),
            frames: frames_view(self.control_stack@),
            next_label: self.next_label,
            next_temp: self.next_temp_local,
        }
    }

    /// The module context is the same.
    pub open spec fn same_env(&self, other: &Self) -> bool {
        &&& self.types@ == other.types@
        &&& self.func_types@ == other.func_types@
        &&& self.num_params == other.num_params
    }

    pub fn new(num_params: u32, types: &'a [FuncType], func_types: &'a [u32]) -> (r: Self)
        ensures
            r.lv() == init_v(),
            r.types@ == types@,
            r.func_types@ == func_types@,
            r.num_params == num_params,
    {
        let r = FunctionLifter {
            stack: Vec::new(),
            stmts: Vec::new(),
            control_stack: Vec::new(),
            next_label: 0,
            num_params,
            next_temp_local: 0x7fff_ffff,
            types,
            func_types,
        };
        proof {
            assert(exprs_view(r.stack@) =~= Seq::<ExprV>::empty());
            assert(stmts_view(r.stmts@) =~= Seq::<StmtV>::empty());
            assert(frames_view(r.control_stack@) =~= Seq::<FrameV>::empty());
        }
        r
    }

    fn pop(&mut self) -> (r: Expr)
        ensures
            r@ == top(old(self).lv().stack),
            final(self).lv() == pop_v(old(self).lv()),
            final(self).same_env(old(self)),
            final(self).stack@.len() == if old(self).stack@.len() > 0 { old(self).stack@.len() - 1 } else { 0 },
    {
        proof {
            lemma_exprs_view(self.stack@);
            if self.stack@.len() > 0 {
                lemma_exprs_view_drop_last(self.stack@);
            }
        }
        match self.stack.pop() {
            Some(e) => e,
            None => Expr::i32_const(0),
        }
    }

    fn push(&mut self, e: Expr)
        ensures
            final(self).lv() == push_v(old(self).lv(), e@),
            final(self).same_env(old(self)),
    {
        proof {
            lemma_exprs_view_push(self.stack@, e);
        }
        self.stack.push(e);
    }

    fn emit(&mut self, st: Stmt)
        ensures
            final(self).lv() == emit_v(old(self).lv(), st@),
            final(self).same_env(old(self)),
    {
        proof {
            lemma_stmts_view_push(self.stmts@, st);
        }
        self.stmts.push(st);
    }

    /// If any expression on the stack reads local `idx`, its old value is
    /// saved in a fresh temporary that the stack reads instead.
    fn save_local_if_conflicting(&mut self, idx: u32)
        ensures
            final(self).lv() == save_local_v(old(self).lv(), idx),
            final(self).same_env(old(self)),
    {
        let has_conflict = exprs_contain_local(&self.stack, idx);
        if has_conflict {
            let temp = self.next_temp_local;
            self.next_temp_local = temp.wrapping_add(1);
            self.emit(Stmt::LocalSet { local: temp, value: Expr::local(idx) });
            let new_stack = exprs_replaced(&self.stack, idx, temp);
            self.stack = new_stack;
        }
    }

    /// How many result values a block type produces
    fn block_result_count(&self, blockty: BlockTypeOperand) -> (r: usize)
        ensures
            r == result_count(self.types@, blockty),
    {
        match blockty {
            BlockTypeOperand::Empty => 0,
            BlockTypeOperand::Value(_) => 1,
            BlockTypeOperand::FuncType(idx) => {
                if (idx as usize) < self.types.len() {
                    self.types[idx as usize].results.len()
                } else {
                    0
                }
            },
        }
    }

    fn frame_idx(&self, d: u32) -> (r: usize)
        ensures
            self.control_stack@.len() > 0 ==> r == frame_index(self.lv(), d) && r < self.control_stack@.len(),
    {
        let len = self.control_stack.len();
        if (d as u64) + 1 > (len as u64) {
            0
        } else {
            len - 1 - (d as usize)
        }
    }

    fn get_branch_target(&self, d: u32) -> (r: BranchTarget)
        ensures
            r == branch_target_v(self.lv(), d),
    {
        if self.control_stack.len() > 0 {
            let i = self.frame_idx(d);
            let f = &self.control_stack[i];
            BranchTarget { label: f.label, is_loop: f.kind == ControlKind::Loop }
        } else {
            BranchTarget { label: 0, is_loop: false }
        }
    }

    fn get_branch_result_count(&self, d: u32) -> (r: usize)
        ensures
            r == branch_results_v(self.lv(), self.types@, d),
    {
        if self.control_stack.len() > 0 {
            let i = self.frame_idx(d);
            let f = &self.control_stack[i];
            if f.kind == ControlKind::Loop {
                0
            } else {
                self.block_result_count(f.blockty)
            }
        } else {
            0
        }
    }

    /// The local that carries the result of the block a branch names; a fresh
    /// temporary is handed out and recorded on first use.
    fn ensure_block_result_local(&mut self, d: u32) -> (r: u32)
        ensures
            (r, final(self).lv()) == result_local_v(old(self).lv(), d),
            final(self).same_env(old(self)),
            final(self).stack == old(self).stack,
    {
        let len = self.control_stack.len();
        let idx = self.frame_idx(d);
        if len > 0 {
            match self.control_stack[idx].block_result_local {
                Some(l) => {
                    return l;
                },
                None => {},
            }
        }
        let temp = self.next_temp_local;
        self.next_temp_local = temp.wrapping_add(1);
        if len > 0 {
            let ghost old_frames = self.control_stack@;
            let mut f = self.control_stack.remove(idx);
            f.block_result_local = Some(temp);
            self.control_stack.insert(idx, f);
            proof {
                assert(self.control_stack@ =~= old_frames.update(idx as int, f));
                assert(frames_view(self.control_stack@) =~= frames_view(old_frames).update(
                    idx as int,
                    FrameV { block_result_local: Some(temp), ..frames_view(old_frames)[idx as int] },
                ));
            }
        }
        temp
    }
}


impl<'a> FunctionLifter<'a> {
    fn lift_load(&mut self, offset: u32, size: MemSize, signed: bool)
        ensures
            final(self).lv() == push_v(
                pop_v(old(self).lv()),
                mk(ExprKindV::Load { addr: Box::new(top(old(self).lv().stack)), offset, size, signed }, load_type(size)),
            ),
            final(self).same_env(old(self)),
    {
        let addr = self.pop();
        self.push(Expr::with_type(ExprKind::Load { addr: boxed(addr), offset, size, signed }, load_type_of(size)));
    }

    fn lift_store(&mut self, offset: u32, size: MemSize)
        ensures
            ({
                let s = old(self).lv();
                let value = top(s.stack);
                let s1 = pop_v(s);
                final(self).lv() == emit_v(pop_v(s1), StmtV::Store { addr: top(s1.stack), offset, value, size })
            }),
            final(self).same_env(old(self)),
    {
        let value = self.pop();
        let addr = self.pop();
        self.emit(Stmt::Store { addr, offset, value, size });
    }

    fn lift_binop(&mut self, op: BinOp, ty: InferredType)
        ensures
            ({
                let s = old(self).lv();
                let b = top(s.stack);
                let s1 = pop_v(s);
                final(self).lv() == push_v(pop_v(s1), mk(ExprKindV::BinOp(op, Box::new(top(s1.stack)), Box::new(b)), ty))
            }),
            final(self).same_env(old(self)),
    {
        let b = self.pop();
        let a = self.pop();
        self.push(Expr::with_type(ExprKind::BinOp(op, boxed(a), boxed(b)), ty));
    }

    fn lift_unaryop(&mut self, op: UnaryOp, ty: InferredType)
        ensures
            final(self).lv() == push_v(
                pop_v(old(self).lv()),
                mk(ExprKindV::UnaryOp(op, Box::new(top(old(self).lv().stack))), ty),
            ),
            final(self).same_env(old(self)),
    {
        let a = self.pop();
        self.push(Expr::with_type(ExprKind::UnaryOp(op, boxed(a)), ty));
    }

    fn lift_compare(&mut self, op: CmpOp, operand_ty: InferredType)
        ensures
            ({
                let s = old(self).lv();
                let b = top(s.stack);
                let s1 = pop_v(s);
                final(self).lv() == push_v(
                    pop_v(s1),
                    mk(ExprKindV::Compare(op, Box::new(top(s1.stack)), Box::new(b), operand_ty), InferredType::Bool),
                )
            }),
            final(self).same_env(old(self)),
    {
        let b = self.pop();
        let a = self.pop();
        self.push(Expr::with_type(ExprKind::Compare(op, boxed(a), boxed(b), operand_ty), InferredType::Bool));
    }

    fn lift_convert(&mut self, op: ConvertOp, ty: InferredType)
        ensures
            final(self).lv() == push_v(
                pop_v(old(self).lv()),
                mk(ExprKindV::Convert { op, expr: Box::new(top(old(self).lv().stack)) }, ty),
            ),
            final(self).same_env(old(self)),
    {
        let a = self.pop();
        self.push(Expr::with_type(ExprKind::Convert { op, expr: boxed(a) }, ty));
    }

    /// Open a structured block; the statements so far are set aside in it.
    fn open_block(&mut self, kind: ControlKind, blockty: BlockTypeOperand, cond: Option<Expr>)
        ensures
            final(self).lv() == open_v(old(self).lv(), kind, blockty, opt_expr_view(cond)),
            final(self).same_env(old(self)),
    {
        let label = self.next_label;
        self.next_label = label.wrapping_add(1);
        let depth = self.stack.len();
        let mut taken: Vec<Stmt> = Vec::new();
        std::mem::swap(&mut taken, &mut self.stmts);
        let f = ControlFrame {
            kind,
            label,
            stmts: taken,
            else_stmts: None,
            blockty,
            stack_depth_at_entry: depth,
            then_result: None,
            saved_cond: cond,
            block_result_local: None,
        };
        proof {
            lemma_exprs_view(self.stack@);
            lemma_frames_push(self.control_stack@, f);
            assert(stmts_view(self.stmts@) =~= Seq::<StmtV>::empty());
        }
        self.control_stack.push(f);
    }

    /// The values left by a call's arguments: as many as the callee takes,
    /// all of the stack when it holds fewer.
    fn take_args(&mut self, np: usize) -> (r: Vec<Expr>)
        ensures
            exprs_view(r@) == tail_of(old(self).lv().stack, np as nat),
            final(self).lv() == with_stack(old(self).lv(), head_of(old(self).lv().stack, np as nat)),
            final(self).same_env(old(self)),
    {
        proof {
            lemma_exprs_view(self.stack@);
        }
        let slen = self.stack.len();
        if np <= slen {
            proof {
                lemma_exprs_view_split(self.stack@, slen - np);
            }
            self.stack.split_off(slen - np)
        } else {
            let mut all: Vec<Expr> = Vec::new();
            std::mem::swap(&mut all, &mut self.stack);
            proof {
                assert(exprs_view(self.stack@) =~= Seq::<ExprV>::empty());
            }
            all
        }
    }

    fn do_call(&mut self, f: u32)
        ensures
            final(self).lv() == step_v(old(self).lv(), LiftOp::Call(f), old(self).types@, old(self).func_types@),
            final(self).same_env(old(self)),
    {
        let ghost ft = callee_type(self.types@, self.func_types@, f);
        let mut np: usize = 0;
        let mut has_result = true;
        if (f as usize) < self.func_types.len() {
            let ti = self.func_types[f as usize];
            if (ti as usize) < self.types.len() {
                np = self.types[ti as usize].params.len();
                has_result = self.types[ti as usize].results.len() > 0;
            }
        }
        let args = self.take_args(np);
        let call = Expr::new(ExprKind::Call { func: f, args });
        if has_result {
            self.push(call);
        } else {
            self.emit(Stmt::Expr(call));
        }
    }

    fn do_call_indirect(&mut self, type_index: u32, table_index: u32)
        ensures
            final(self).lv() == step_v(
                old(self).lv(),
                LiftOp::CallIndirect { type_index, table_index },
                old(self).types@,
                old(self).func_types@,
            ),
            final(self).same_env(old(self)),
    {
        let index = self.pop();
        let mut np: usize = 0;
        let mut has_result = true;
        if (type_index as usize) < self.types.len() {
            np = self.types[type_index as usize].params.len();
            has_result = self.types[type_index as usize].results.len() > 0;
        }
        let args = self.take_args(np);
        let call = Expr::new(ExprKind::CallIndirect { type_idx: type_index, table_idx: table_index, index: boxed(index), args });
        if has_result {
            self.push(call);
        } else {
            self.emit(Stmt::Expr(call));
        }
    }
}


impl<'a> FunctionLifter<'a> {
    /// The last `n` values of the stack are taken off (all of it when it is shorter).
    fn drain_tail(&mut self, n: usize) -> (r: Vec<Expr>)
        ensures
            exprs_view(r@) == tail_of(old(self).lv().stack, n as nat),
            final(self).lv() == with_stack(old(self).lv(), head_of(old(self).lv().stack, n as nat)),
            final(self).same_env(old(self)),
    {
        proof {
            lemma_exprs_view(self.stack@);
        }
        let slen = self.stack.len();
        let start = if n <= slen { slen - n } else { 0 };
        proof {
            lemma_exprs_view_split(self.stack@, start as int);
            if n > slen {
                assert(self.stack@.subrange(0, 0) =~= Seq::<Expr>::empty());
                assert(exprs_view(self.stack@).subrange(0, exprs_view(self.stack@).len() as int) =~= exprs_view(self.stack@));
                assert(self.stack@.subrange(0, self.stack@.len() as int) =~= self.stack@);
            }
        }
        self.stack.split_off(start)
    }

    fn do_else(&mut self)
        ensures
            final(self).lv() == else_v(old(self).lv(), old(self).types@),
            final(self).same_env(old(self)),
    {
        let len = self.control_stack.len();
        if len > 0 {
            let rc = self.block_result_count(self.control_stack[len - 1].blockty);
            proof {
                lemma_frames_drop_last(self.control_stack@);
            }
            let ghost s0 = self.lv();
            let mut f = self.control_stack.pop().unwrap();
            if rc > 0 {
                let drained = self.drain_tail(rc);
                f.then_result = Some(drained);
            }
            let mut taken: Vec<Stmt> = Vec::new();
            std::mem::swap(&mut taken, &mut self.stmts);
            f.else_stmts = Some(taken);
            proof {
                lemma_frames_push(self.control_stack@, f);
                assert(stmts_view(self.stmts@) =~= Seq::<StmtV>::empty());
            }
            self.control_stack.push(f);
        }
    }

    /// The statements that assign each value of `vals` to a fresh temporary,
    /// and the temporaries.
    fn assign_results(&mut self, then_vals: &Vec<Expr>, else_vals: &Vec<Expr>, then_b: &mut Vec<Stmt>, else_b: &mut Vec<Stmt>, n: usize) -> (temps: Vec<u32>)
        requires
            n <= then_vals@.len(),
            n <= else_vals@.len(),
        ensures
            stmts_view(final(then_b)@) == stmts_view(old(then_b)@) + assign_temps(old(self).next_temp_local, exprs_view(then_vals@).subrange(0, n as int)),
            stmts_view(final(else_b)@) == stmts_view(old(else_b)@) + assign_temps(old(self).next_temp_local, exprs_view(else_vals@).subrange(0, n as int)),
            temps@.len() == n,
            forall|j: int| 0 <= j < n ==> temps@[j] == nth_temp(old(self).next_temp_local, j as nat),
            final(self).next_temp_local == nth_temp(old(self).next_temp_local, n as nat),
            final(self).stack == old(self).stack,
            final(self).stmts == old(self).stmts,
            final(self).control_stack == old(self).control_stack,
            final(self).next_label == old(self).next_label,
            final(self).same_env(old(self)),
    {
        let ghost t0 = self.next_temp_local;
        let ghost tv = exprs_view(then_vals@);
        let ghost ev = exprs_view(else_vals@);
        let ghost tb0 = stmts_view(then_b@);
        let ghost eb0 = stmts_view(else_b@);
        proof {
            lemma_exprs_view(then_vals@);
            lemma_exprs_view(else_vals@);
            assert(tv.subrange(0, 0) =~= Seq::<ExprV>::empty());
            assert(ev.subrange(0, 0) =~= Seq::<ExprV>::empty());
            assert(tb0 + Seq::<StmtV>::empty() =~= tb0);
            assert(eb0 + Seq::<StmtV>::empty() =~= eb0);
        }
        let mut temps: Vec<u32> = Vec::new();
        let mut i: usize = 0;
        while i < n
            invariant
                i <= n,
                n <= then_vals@.len(),
                n <= else_vals@.len(),
                tv == exprs_view(then_vals@),
                ev == exprs_view(else_vals@),
                tv.len() == then_vals@.len(),
                ev.len() == else_vals@.len(),
                forall|j: int| 0 <= j < then_vals@.len() ==> #[trigger] tv[j] == then_vals@[j]@,
                forall|j: int| 0 <= j < else_vals@.len() ==> #[trigger] ev[j] == else_vals@[j]@,
                stmts_view(then_b@) == tb0 + assign_temps(t0, tv.subrange(0, i as int)),
                stmts_view(else_b@) == eb0 + assign_temps(t0, ev.subrange(0, i as int)),
                temps@.len() == i,
                forall|j: int| 0 <= j < i ==> temps@[j] == nth_temp(t0, j as nat),
                self.next_temp_local == nth_temp(t0, i as nat),
                self.stack == old(self).stack,
                self.stmts == old(self).stmts,
                self.control_stack == old(self).control_stack,
                self.next_label == old(self).next_label,
                self.same_env(old(self)),
            decreases n - i,
        {
            let temp = self.next_temp_local;
            self.next_temp_local = temp.wrapping_add(1);
            let a = Stmt::LocalSet { local: temp, value: then_vals[i].duplicate() };
            let b = Stmt::LocalSet { local: temp, value: else_vals[i].duplicate() };
            proof {
                lemma_stmts_view_push(then_b@, a);
                lemma_stmts_view_push(else_b@, b);
                assert(tv.subrange(0, i + 1).drop_last() =~= tv.subrange(0, i as int));
                assert(ev.subrange(0, i + 1).drop_last() =~= ev.subrange(0, i as int));
                assert(tb0 + assign_temps(t0, tv.subrange(0, i + 1)) =~= (tb0 + assign_temps(t0, tv.subrange(0, i as int))).push(stmt_view_of_set(temp, tv[i as int])));
                assert(eb0 + assign_temps(t0, ev.subrange(0, i + 1)) =~= (eb0 + assign_temps(t0, ev.subrange(0, i as int))).push(stmt_view_of_set(temp, ev[i as int])));
            }
            then_b.push(a);
            else_b.push(b);
            temps.push(temp);
            i += 1;
        }
        temps
    }

    fn end_if(
        &mut self,
        blockty: BlockTypeOperand,
        saved_cond: Option<Expr>,
        else_stmts: Option<Vec<Stmt>>,
        then_result: Option<Vec<Expr>>,
        body: Vec<Stmt>,
    )
        ensures
            final(self).lv() == end_if_v(
                old(self).lv(),
                blockty,
                opt_expr_view(saved_cond),
                match else_stmts {
                    Some(v) => Some(stmts_view(v@)),
                    None => None,
                },
                match then_result {
                    Some(v) => Some(exprs_view(v@)),
                    None => None,
                },
                stmts_view(body@),
                old(self).types@,
            ),
            final(self).same_env(old(self)),
    {
        let ghost s0 = self.lv();
        let rc = self.block_result_count(blockty);
        let else_results: Vec<Expr> = if rc > 0 { self.drain_tail(rc) } else { Vec::new() };
        proof {
            lemma_exprs_view(else_results@);
            if rc == 0 {
                assert(exprs_view(else_results@) =~= Seq::<ExprV>::empty());
            }
        }
        let cond = match saved_cond {
            Some(c) => c,
            None => Expr::i32_const(0),
        };
        let ghost body_v = stmts_view(body@);
        let (then_stmts, else_block): (Vec<Stmt>, Option<Vec<Stmt>>) = match else_stmts {
            Some(t) => (t, Some(body)),
            None => (body, None),
        };
        let has_then = match &then_result {
            Some(_) => true,
            None => false,
        };
        if rc > 0 && has_then && else_results.len() > 0 {
            let then_results = match then_result {
                Some(v) => v,
                None => Vec::new(),
            };
            proof {
                lemma_exprs_view(then_results@);
            }
            let mut then_b = then_stmts;
            let mut else_inner = match else_block {
                Some(b) => b,
                None => Vec::new(),
            };
            proof {
                lemma_stmts_view(else_inner@);
                if else_inner@.len() == 0 {
                    assert(stmts_view(else_inner@) =~= Seq::<StmtV>::empty());
                }
            }
            let n = if then_results.len() <= else_results.len() { then_results.len() } else { else_results.len() };
            let ghost t0 = self.next_temp_local;
            let ghost s1 = self.lv();
            let temps = self.assign_results(&then_results, &else_results, &mut then_b, &mut else_inner, n);
            self.emit(Stmt::If {
                cond,
                then_block: Block::with_stmts(then_b),
                else_block: Some(Block::with_stmts(else_inner)),
            });
            let ghost st0 = self.lv().stack;
            let ghost s_emit = self.lv();
            proof {
                assert(st0 + temp_reads(t0, 0) =~= st0);
            }
            let mut j: usize = 0;
            while j < temps.len()
                invariant
                    j <= temps@.len(),
                    temps@.len() == n,
                    forall|k: int| 0 <= k < n ==> temps@[k] == nth_temp(t0, k as nat),
                    self.lv().stack == st0 + temp_reads(t0, j as nat),
                    self.lv().stmts == s_emit.stmts,
                    self.lv().frames == s1.frames,
                    self.next_label == s1.next_label,
                    self.next_temp_local == nth_temp(t0, n as nat),
                    self.same_env(old(self)),
                decreases temps@.len() - j,
            {
                let ghost before = self.lv();
                self.push(Expr::local(temps[j]));
                proof {
                    assert(st0 + temp_reads(t0, (j + 1) as nat) =~= (st0 + temp_reads(t0, j as nat)).push(local_v(nth_temp(t0, j as nat))));
                    assert(self.lv().stmts == before.stmts);
                }
                j += 1;
            }
        } else {
            let eb = match else_block {
                Some(b) => Some(Block::with_stmts(b)),
                None => None,
            };
            self.emit(Stmt::If { cond, then_block: Block::with_stmts(then_stmts), else_block: eb });
        }
    }
}

/// The value of an assignment of `v` to local `t`.
pub open spec fn stmt_view_of_set(t: u32, v: ExprV) -> StmtV {
    StmtV::LocalSet { local: t, value: v }
}


impl<'a> FunctionLifter<'a> {
    fn do_end(&mut self)
        ensures
            final(self).lv() == end_v(old(self).lv(), old(self).types@),
            final(self).same_env(old(self)),
    {
        if self.control_stack.len() > 0 {
            proof {
                lemma_frames_drop_last(self.control_stack@);
            }
            let f = self.control_stack.pop().unwrap();
            let ControlFrame { kind, label, stmts, else_stmts, blockty, then_result, saved_cond, block_result_local, .. } = f;
            let mut body: Vec<Stmt> = Vec::new();
            std::mem::swap(&mut body, &mut self.stmts);
            self.stmts = stmts;
            match kind {
                ControlKind::Block => match block_result_local {
                    Some(temp) => {
                        let v = self.pop();
                        let mut b = body;
                        let st = Stmt::LocalSet { local: temp, value: v };
                        proof {
                            lemma_stmts_view_push(b@, st);
                        }
                        b.push(st);
                        self.emit(Stmt::Block { label, body: Block::with_stmts(b) });
                        self.push(Expr::local(temp));
                    },
                    None => {
                        self.emit(Stmt::Block { label, body: Block::with_stmts(body) });
                    },
                },
                ControlKind::Loop => {
                    self.emit(Stmt::Loop { label, body: Block::with_stmts(body) });
                },
                ControlKind::If => {
                    self.end_if(blockty, saved_cond, else_stmts, then_result, body);
                },
            }
        }
    }

    fn do_br(&mut self, d: u32)
        ensures
            final(self).lv() == step_v(old(self).lv(), LiftOp::Br(d), old(self).types@, old(self).func_types@),
            final(self).same_env(old(self)),
    {
        let target = self.get_branch_target(d);
        let rc = self.get_branch_result_count(d);
        if rc > 0 {
            let v = self.pop();
            let temp = self.ensure_block_result_local(d);
            self.emit(Stmt::LocalSet { local: temp, value: v });
        }
        self.emit(Stmt::Br { label: target.label, is_loop: target.is_loop });
    }

    fn do_br_if(&mut self, d: u32)
        ensures
            final(self).lv() == step_v(old(self).lv(), LiftOp::BrIf(d), old(self).types@, old(self).func_types@),
            final(self).same_env(old(self)),
    {
        let cond = self.pop();
        let target = self.get_branch_target(d);
        let rc = self.get_branch_result_count(d);
        if rc > 0 && !target.is_loop {
            proof {
                lemma_exprs_view(self.stack@);
            }
            let v = if self.stack.len() > 0 {
                self.stack[self.stack.len() - 1].duplicate()
            } else {
                Expr::i32_const(0)
            };
            let temp = self.ensure_block_result_local(d);
            let a = Stmt::LocalSet { local: temp, value: v };
            let b = Stmt::Br { label: target.label, is_loop: false };
            let mut inner: Vec<Stmt> = Vec::new();
            proof {
                lemma_stmts_view_push(inner@, a);
                lemma_stmts_view_push(inner@.push(a), b);
                assert(stmts_view(inner@) =~= Seq::<StmtV>::empty());
                assert(seq![a@, b@] =~= Seq::<StmtV>::empty().push(a@).push(b@));
            }
            inner.push(a);
            inner.push(b);
            self.emit(Stmt::If { cond, then_block: Block::with_stmts(inner), else_block: None });
        } else {
            self.emit(Stmt::BrIf { label: target.label, cond, is_loop: target.is_loop });
        }
    }

    fn do_br_table(&mut self, targets: &Vec<u32>, default: u32)
        ensures
            final(self).lv() == step_v(
                old(self).lv(),
                LiftOp::BrTable { targets: *targets, default },
                old(self).types@,
                old(self).func_types@,
            ),
            final(self).same_env(old(self)),
    {
        let index = self.pop();
        let ghost s1 = self.lv();
        let mut list: Vec<BranchTarget> = Vec::new();
        let mut k: usize = 0;
        while k < targets.len()
            invariant
                k <= targets@.len(),
                self.lv() == s1,
                list@ =~= targets@.subrange(0, k as int).map_values(|d: u32| branch_target_v(s1, d)),
            decreases targets@.len() - k,
        {
            let t = self.get_branch_target(targets[k]);
            list.push(t);
            k += 1;
        }
        proof {
            assert(targets@.subrange(0, k as int) =~= targets@);
        }
        let dt = self.get_branch_target(default);
        self.emit(Stmt::BrTable { index, targets: list, default: dt });
    }

    fn call_marker_expr(func: u32, args: Vec<Expr>) -> (r: Expr)
        ensures
            r@ == call_marker(func, exprs_view(args@)),
    {
        Expr::new(ExprKind::Call { func, args })
    }

    /// Lift one operator.
    pub fn process_op(&mut self, op: &LiftOp)
        ensures
            final(self).lv() == step_v(old(self).lv(), *op, old(self).types@, old(self).func_types@),
            final(self).same_env(old(self)),
    {
        match op {
            LiftOp::I32Const(v) => self.push(Expr::i32_const(*v)),
            LiftOp::I64Const(v) => self.push(Expr::i64_const(*v)),
            LiftOp::F32Const(v) => self.push(Expr::f32_const(*v)),
            LiftOp::F64Const(v) => self.push(Expr::f64_const(*v)),
            LiftOp::LocalGet(i) => self.push(Expr::local(*i)),
            LiftOp::LocalSet(i) => {
                let value = self.pop();
                self.save_local_if_conflicting(*i);
                self.emit(Stmt::LocalSet { local: *i, value });
            },
            LiftOp::LocalTee(i) => {
                let value = self.pop();
                self.save_local_if_conflicting(*i);
                self.emit(Stmt::LocalSet { local: *i, value });
                self.push(Expr::local(*i));
            },
            LiftOp::GlobalGet(i) => self.push(Expr::global(*i)),
            LiftOp::GlobalSet(i) => {
                let value = self.pop();
                self.emit(Stmt::GlobalSet { global: *i, value });
            },
            LiftOp::Load { size, signed, offset } => self.lift_load(*offset as u32, *size, *signed),
            LiftOp::Store { size, offset } => self.lift_store(*offset as u32, *size),
            LiftOp::Binary { op, ty } => self.lift_binop(*op, inferred_of(*ty)),
            LiftOp::Unary { op, ty } => self.lift_unaryop(*op, inferred_of(*ty)),
            LiftOp::Compare { op, ty } => self.lift_compare(*op, inferred_of(*ty)),
            LiftOp::Convert { op, ty } => self.lift_convert(*op, inferred_of(*ty)),
            LiftOp::Call(f) => self.do_call(*f),
            LiftOp::CallIndirect { type_index, table_index } => self.do_call_indirect(*type_index, *table_index),
            LiftOp::Block(bt) => self.open_block(ControlKind::Block, *bt, None),
            LiftOp::Loop(bt) => self.open_block(ControlKind::Loop, *bt, None),
            LiftOp::If(bt) => {
                let cond = self.pop();
                self.open_block(ControlKind::If, *bt, Some(cond));
            },
            LiftOp::Else => self.do_else(),
            LiftOp::End => self.do_end(),
            LiftOp::Br(d) => self.do_br(*d),
            LiftOp::BrIf(d) => self.do_br_if(*d),
            LiftOp::BrTable { targets, default } => self.do_br_table(targets, *default),
            LiftOp::Return => {
                if self.stack.len() > 0 {
                    proof {
                        lemma_exprs_view(self.stack@);
                    }
                    let v = self.pop();
                    self.emit(Stmt::Return(Some(v)));
                } else {
                    proof {
                        lemma_exprs_view(self.stack@);
                    }
                    self.emit(Stmt::Return(None));
                }
            },
            LiftOp::Select => {
                let cond = self.pop();
                let b = self.pop();
                let a = self.pop();
                self.push(Expr::new(ExprKind::Select { cond: boxed(cond), then_val: boxed(a), else_val: boxed(b) }));
            },
            LiftOp::Drop => {
                let v = self.pop();
                self.emit(Stmt::Drop(v));
            },
            LiftOp::Unreachable => self.emit(Stmt::Unreachable),
            LiftOp::Nop => self.emit(Stmt::Nop),
            LiftOp::MemorySize => {
                let args: Vec<Expr> = Vec::new();
                proof {
                    assert(exprs_view(args@) =~= Seq::<ExprV>::empty());
                }
                self.push(Self::call_marker_expr(u32::MAX, args));
            },
            LiftOp::MemoryGrow => {
                let pages = self.pop();
                let mut args: Vec<Expr> = Vec::new();
                proof {
                    lemma_exprs_view_push(args@, pages);
                    assert(exprs_view(args@) =~= Seq::<ExprV>::empty());
                    assert(seq![pages@] =~= Seq::<ExprV>::empty().push(pages@));
                }
                args.push(pages);
                self.push(Self::call_marker_expr(u32::MAX - 1, args));
            },
            LiftOp::MemoryFill => {
                let len = self.pop();
                let value = self.pop();
                let dest = self.pop();
                let args = three(dest, value, len);
                self.emit(Stmt::Expr(Self::call_marker_expr(u32::MAX - 2, args)));
            },
            LiftOp::MemoryCopy => {
                let len = self.pop();
                let src = self.pop();
                let dest = self.pop();
                let args = three(dest, src, len);
                self.emit(Stmt::Expr(Self::call_marker_expr(u32::MAX - 3, args)));
            },
            LiftOp::Other => {},
        }
    }

    /// The lifted body: what is left on the stack is returned.
    pub fn finish(self) -> (r: Block)
        ensures
            r@ == finish_v(self.lv()),
    {
        let mut lifter = self;
        if lifter.stack.len() > 0 {
            proof {
                lemma_exprs_view(lifter.stack@);
            }
            let v = lifter.pop();
            lifter.emit(Stmt::Return(Some(v)));
        }
        Block::with_stmts(lifter.stmts)
    }
}

fn three(a: Expr, b: Expr, c: Expr) -> (r: Vec<Expr>)
    ensures
        exprs_view(r@) == seq![a@, b@, c@],
{
    let mut v: Vec<Expr> = Vec::new();
    proof {
        assert(exprs_view(v@) =~= Seq::<ExprV>::empty());
        lemma_exprs_view_push(v@, a);
        lemma_exprs_view_push(v@.push(a), b);
        lemma_exprs_view_push(v@.push(a).push(b), c);
        assert(seq![a@, b@, c@] =~= Seq::<ExprV>::empty().push(a@).push(b@).push(c@));
    }
    v.push(a);
    v.push(b);
    v.push(c);
    v
}


/// Why a function body could not be lifted.
#[derive(Debug, Clone, Copy, PartialEq, Eq, Structural)]
pub enum LiftError {
    /// The function has no entry in the function section
    MissingFuncType(u32),
    /// The function's type index names no type
    MissingType(u32),
}

pub(crate) fn copy_val_types(v: &Vec<ValType>) -> (r: Vec<ValType>)
    ensures
        r@ == v@,
{
    let mut r: Vec<ValType> = Vec::new();
    let mut i: usize = 0;
    while i < v.len()
        invariant
            i <= v@.len(),
            r@ == v@.subrange(0, i as int),
        decreases v@.len() - i,
    {
        r.push(v[i]);
        i += 1;
    }
    proof {
        assert(v@.subrange(0, i as int) =~= v@);
    }
    r
}

/// The body lifted from a list of operators, in a module with the given
/// types.
pub open spec fn spec_lift_body(ops: Seq<LiftOp>, types: Seq<FuncType>, func_types: Seq<u32>) -> BlockV {
    finish_v(run_v(init_v(), ops, types, func_types))
}

/// Lift the body of defined function `func_idx`, given its declared locals,
/// its operators and its name.
pub fn lift_function(
    module: &Module,
    func_idx: u32,
    locals: Vec<ValType>,
    ops: &Vec<LiftOp>,
    name: Option<String>,
) -> (r: Result<Function, LiftError>)
    ensures
        func_idx >= module.func_types@.len() ==> r == Err::<Function, LiftError>(LiftError::MissingFuncType(func_idx)),
        func_idx < module.func_types@.len() && module.func_types@[func_idx as int] >= module.types@.len()
            ==> r == Err::<Function, LiftError>(LiftError::MissingType(module.func_types@[func_idx as int])),
        func_idx < module.func_types@.len() && module.func_types@[func_idx as int] < module.types@.len() ==> {
            let ft = module.types@[module.func_types@[func_idx as int] as int];
            &&& r is Ok
            &&& r->Ok_0.index == func_idx
            &&& r->Ok_0.name == name
            &&& r->Ok_0.params@ == ft.params@
            &&& r->Ok_0.results@ == ft.results@
            &&& r->Ok_0.locals == locals
            &&& !r->Ok_0.is_import
            &&& r->Ok_0.body@ == spec_lift_body(ops@, module.types@, module.func_types@)
        },
{
    if (func_idx as usize) >= module.func_types.len() {
        return Err(LiftError::MissingFuncType(func_idx));
    }
    let type_idx = module.func_types[func_idx as usize];
    if (type_idx as usize) >= module.types.len() {
        return Err(LiftError::MissingType(type_idx));
    }
    let func_type = &module.types[type_idx as usize];
    let mut lifter = FunctionLifter::new(
        func_type.params.len() as u32,
        module.types.as_slice(),
        module.func_types.as_slice(),
    );
    let mut k: usize = 0;
    proof {
        assert(ops@.subrange(0, 0) =~= Seq::<LiftOp>::empty());
    }
    while k < ops.len()
        invariant
            k <= ops@.len(),
            lifter.types@ == module.types@,
            lifter.func_types@ == module.func_types@,
            lifter.lv() == run_v(init_v(), ops@.subrange(0, k as int), module.types@, module.func_types@),
        decreases ops@.len() - k,
    {
        proof {
            assert(ops@.subrange(0, k + 1).drop_last() =~= ops@.subrange(0, k as int));
        }
        lifter.process_op(&ops[k]);
        k += 1;
    }
    proof {
        assert(ops@.subrange(0, k as int) =~= ops@);
    }
    let body = lifter.finish();
    Ok(Function {
        index: func_idx,
        name,
        params: copy_val_types(&func_type.params),
        results: copy_val_types(&func_type.results),
        locals,
        body,
        is_import: false,
    })
}

} // verus!
