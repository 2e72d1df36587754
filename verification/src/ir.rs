//! Intermediate representation of a decompiled module.
//!
//! Floating-point constants are carried by their IEEE-754 bit patterns so that
//! the representation holds plain integers only.
use vstd::prelude::*;
use vstd::utf8::{valid_utf8, decode_utf8};
use crate::text::str_from_utf8;

verus! {

/// Value types of the core instruction set.
#[derive(Debug, Clone, Copy, PartialEq, Eq, Structural)]
pub enum ValType {
    I32,
    I64,
    F32,
    F64,
}

/// Memory operation size
#[derive(Debug, Clone, Copy, PartialEq, Eq, Structural)]
pub enum MemSize {
    I8,
    I16,
    I32,
    I64,
    F32,
    F64,
}

/// Binary operators
#[derive(Debug, Clone, Copy, PartialEq, Eq, Structural)]
pub enum BinOp {
    // Integer
    Add,
    Sub,
    Mul,
    DivS,
    DivU,
    RemS,
    RemU,
    And,
    Or,
    Xor,
    Shl,
    ShrS,
    ShrU,
    Rotl,
    Rotr,
    // Float
    FAdd,
    FSub,
    FMul,
    FDiv,
    FMin,
    FMax,
    FCopysign,
}

/// Unary operators
#[derive(Debug, Clone, Copy, PartialEq, Eq, Structural)]
pub enum UnaryOp {
    // Integer
    Clz,
    Ctz,
    Popcnt,
    Eqz,
    // Float
    FAbs,
    FNeg,
    FCeil,
    FFloor,
    FTrunc,
    FNearest,
    FSqrt,
}

/// Comparison operators
#[derive(Debug, Clone, Copy, PartialEq, Eq, Structural)]
pub enum CmpOp {
    Eq,
    Ne,
    LtS,
    LtU,
    GtS,
    GtU,
    LeS,
    LeU,
    GeS,
    GeU,
    // Float
    FEq,
    FNe,
    FLt,
    FGt,
    FLe,
    FGe,
}

/// Type conversion operators
#[derive(Debug, Clone, Copy, PartialEq, Eq, Structural)]
pub enum ConvertOp {
    I32WrapI64,
    I64ExtendI32S,
    I64ExtendI32U,
    I32TruncF32S,
    I32TruncF32U,
    I32TruncF64S,
    I32TruncF64U,
    I64TruncF32S,
    I64TruncF32U,
    I64TruncF64S,
    I64TruncF64U,
    F32ConvertI32S,
    F32ConvertI32U,
    F32ConvertI64S,
    F32ConvertI64U,
    F64ConvertI32S,
    F64ConvertI32U,
    F64ConvertI64S,
    F64ConvertI64U,
    F32DemoteF64,
    F64PromoteF32,
    I32ReinterpretF32,
    I64ReinterpretF64,
    F32ReinterpretI32,
    F64ReinterpretI64,
    I32Extend8S,
    I32Extend16S,
    I64Extend8S,
    I64Extend16S,
    I64Extend32S,
    I32TruncSatF32S,
    I32TruncSatF32U,
    I32TruncSatF64S,
    I32TruncSatF64U,
    I64TruncSatF32S,
    I64TruncSatF32U,
    I64TruncSatF64S,
    I64TruncSatF64U,
}

/// Branch target of a branch table
#[derive(Debug, Clone, Copy, PartialEq, Eq, Structural)]
pub struct BranchTarget {
    pub label: u32,
    pub is_loop: bool,
}

/// Inferred type for expressions.
#[derive(Debug)]
pub enum InferredType {
    Unknown,
    I32,
    I64,
    F32,
    F64,
    /// Pointer to another type
    Pointer(Box<InferredType>),
    /// Go string (ptr, len)
    GoString,
    /// Go slice (ptr, len, cap)
    GoSlice(Box<InferredType>),
    /// Go interface (type, data)
    GoInterface,
    /// C null-terminated string
    CString,
    /// Array of T with known size
    Array(Box<InferredType>, usize),
    /// Boolean (result of comparison)
    Bool,
}

impl InferredType {
    pub open spec fn spec_is_integer(&self) -> bool {
        self is I32 || self is I64
    }

    pub open spec fn spec_is_float(&self) -> bool {
        self is F32 || self is F64
    }

    pub fn is_numeric(&self) -> (r: bool)
        ensures
            r == (self.spec_is_integer() || self.spec_is_float()),
    {
        matches!(self, InferredType::I32 | InferredType::I64 | InferredType::F32 | InferredType::F64)
    }

    pub fn is_integer(&self) -> (r: bool)
        ensures
            r == self.spec_is_integer(),
    {
        matches!(self, InferredType::I32 | InferredType::I64)
    }

    pub fn is_float(&self) -> (r: bool)
        ensures
            r == self.spec_is_float(),
    {
        matches!(self, InferredType::F32 | InferredType::F64)
    }

    /// A copy of this type, equal to it.
    pub fn duplicate(&self) -> (r: InferredType)
        ensures
            r == *self,
        decreases self,
    {
        match self {
            InferredType::Unknown => InferredType::Unknown,
            InferredType::I32 => InferredType::I32,
            InferredType::I64 => InferredType::I64,
            InferredType::F32 => InferredType::F32,
            InferredType::F64 => InferredType::F64,
            InferredType::Pointer(t) => InferredType::Pointer(Box::new((**t).duplicate())),
            InferredType::GoString => InferredType::GoString,
            InferredType::GoSlice(t) => InferredType::GoSlice(Box::new((**t).duplicate())),
            InferredType::GoInterface => InferredType::GoInterface,
            InferredType::CString => InferredType::CString,
            InferredType::Array(t, n) => InferredType::Array(Box::new((**t).duplicate()), *n),
            InferredType::Bool => InferredType::Bool,
        }
    }

    /// Structural equality of two types.
    pub fn same_as(&self, other: &InferredType) -> (r: bool)
        ensures
            r == (*self == *other),
        decreases self,
    {
        match (self, other) {
            (InferredType::Unknown, InferredType::Unknown) => true,
            (InferredType::I32, InferredType::I32) => true,
            (InferredType::I64, InferredType::I64) => true,
            (InferredType::F32, InferredType::F32) => true,
            (InferredType::F64, InferredType::F64) => true,
            (InferredType::Pointer(a), InferredType::Pointer(b)) => (**a).same_as(&**b),
            (InferredType::GoString, InferredType::GoString) => true,
            (InferredType::GoSlice(a), InferredType::GoSlice(b)) => (**a).same_as(&**b),
            (InferredType::GoInterface, InferredType::GoInterface) => true,
            (InferredType::CString, InferredType::CString) => true,
            (InferredType::Array(a, n), InferredType::Array(b, m)) => *n == *m && (**a).same_as(&**b),
            (InferredType::Bool, InferredType::Bool) => true,
            _ => false,
        }
    }
}

impl PartialEq for InferredType {
    fn eq(&self, other: &Self) -> (r: bool) {
        self.same_as(other)
    }
}

impl vstd::std_specs::cmp::PartialEqSpecImpl for InferredType {
    open spec fn obeys_eq_spec() -> bool {
        true
    }

    open spec fn eq_spec(&self, other: &Self) -> bool {
        *self == *other
    }
}

} // verus!

verus! {

/// Expression with type annotation
#[derive(Debug)]
pub struct Expr {
    pub kind: ExprKind,
    pub ty: InferredType,
}

/// Expression kinds
#[derive(Debug)]
#[allow(inconsistent_fields)]
pub enum ExprKind {
    // Constants
    I32Const(i32),
    I64Const(i64),
    /// An `f32` constant, by its bit pattern
    F32Const(u32),
    /// An `f64` constant, by its bit pattern
    F64Const(u64),
    // Variables
    Local(u32),
    Global(u32),
    // Binary operations
    BinOp(BinOp, Box<Expr>, Box<Expr>),
    // Unary operations
    UnaryOp(UnaryOp, Box<Expr>),
    // Comparison (op, left, right, operand_type)
    Compare(CmpOp, Box<Expr>, Box<Expr>, InferredType),
    // Memory load
    Load { addr: Box<Expr>, offset: u32, size: MemSize, signed: bool },
    // Function call
    Call { func: u32, args: Vec<Expr> },
    // Indirect call
    CallIndirect { type_idx: u32, table_idx: u32, index: Box<Expr>, args: Vec<Expr> },
    // Select (ternary)
    Select { cond: Box<Expr>, then_val: Box<Expr>, else_val: Box<Expr> },
    // Type conversions
    Convert { op: ConvertOp, expr: Box<Expr> },
    /// Resolved string literal from memory
    StringLiteral(String),
    /// Go string (ptr, len) pair
    GoString { ptr: Box<Expr>, len: Box<Expr> },
    /// Go slice (ptr, len, cap)
    GoSlice { ptr: Box<Expr>, len: Box<Expr>, cap: Box<Expr> },
    /// Go interface (type, data)
    GoInterface { type_ptr: Box<Expr>, data: Box<Expr> },
    /// Memory address that was resolved to point to a string
    ResolvedPointer { addr: u32, resolved: String },
}

/// Mathematical value of an expression: lists become sequences, strings become
/// sequences of characters.
pub struct ExprV {
    pub kind: ExprKindV,
    pub ty: InferredType,
}

/// Mathematical value of an expression kind.
#[allow(inconsistent_fields)]
pub enum ExprKindV {
    I32Const(i32),
    I64Const(i64),
    F32Const(u32),
    F64Const(u64),
    Local(u32),
    Global(u32),
    BinOp(BinOp, Box<ExprV>, Box<ExprV>),
    UnaryOp(UnaryOp, Box<ExprV>),
    Compare(CmpOp, Box<ExprV>, Box<ExprV>, InferredType),
    Load { addr: Box<ExprV>, offset: u32, size: MemSize, signed: bool },
    Call { func: u32, args: Seq<ExprV> },
    CallIndirect { type_idx: u32, table_idx: u32, index: Box<ExprV>, args: Seq<ExprV> },
    Select { cond: Box<ExprV>, then_val: Box<ExprV>, else_val: Box<ExprV> },
    Convert { op: ConvertOp, expr: Box<ExprV> },
    StringLiteral(Seq<char>),
    GoString { ptr: Box<ExprV>, len: Box<ExprV> },
    GoSlice { ptr: Box<ExprV>, len: Box<ExprV>, cap: Box<ExprV> },
    GoInterface { type_ptr: Box<ExprV>, data: Box<ExprV> },
    ResolvedPointer { addr: u32, resolved: Seq<char> },
}

/// The value of an expression.
pub open spec fn expr_view(e: Expr) -> ExprV
    decreases e,
{
    ExprV { kind: kind_view(e.kind), ty: e.ty }
}

/// The value of an expression kind.
pub open spec fn kind_view(k: ExprKind) -> ExprKindV
    decreases k,
{
    match k {
        ExprKind::I32Const(v) => ExprKindV::I32Const(v),
        ExprKind::I64Const(v) => ExprKindV::I64Const(v),
        ExprKind::F32Const(v) => ExprKindV::F32Const(v),
        ExprKind::F64Const(v) => ExprKindV::F64Const(v),
        ExprKind::Local(v) => ExprKindV::Local(v),
        ExprKind::Global(v) => ExprKindV::Global(v),
        ExprKind::BinOp(op, a, b) => ExprKindV::BinOp(op, Box::new(expr_view(*a)), Box::new(expr_view(*b))),
        ExprKind::UnaryOp(op, a) => ExprKindV::UnaryOp(op, Box::new(expr_view(*a))),
        ExprKind::Compare(op, a, b, t) => ExprKindV::Compare(op, Box::new(expr_view(*a)), Box::new(expr_view(*b)), t),
        ExprKind::Load { addr, offset, size, signed } => ExprKindV::Load {
            addr: Box::new(expr_view(*addr)),
            offset,
            size,
            signed,
        },
        ExprKind::Call { func, args } => ExprKindV::Call { func, args: exprs_view(args@) },
        ExprKind::CallIndirect { type_idx, table_idx, index, args } => ExprKindV::CallIndirect {
            type_idx,
            table_idx,
            index: Box::new(expr_view(*index)),
            args: exprs_view(args@),
        },
        ExprKind::Select { cond, then_val, else_val } => ExprKindV::Select {
            cond: Box::new(expr_view(*cond)),
            then_val: Box::new(expr_view(*then_val)),
            else_val: Box::new(expr_view(*else_val)),
        },
        ExprKind::Convert { op, expr } => ExprKindV::Convert { op, expr: Box::new(expr_view(*expr)) },
        ExprKind::StringLiteral(s) => ExprKindV::StringLiteral(s@),
        ExprKind::GoString { ptr, len } => ExprKindV::GoString {
            ptr: Box::new(expr_view(*ptr)),
            len: Box::new(expr_view(*len)),
        },
        ExprKind::GoSlice { ptr, len, cap } => ExprKindV::GoSlice {
            ptr: Box::new(expr_view(*ptr)),
            len: Box::new(expr_view(*len)),
            cap: Box::new(expr_view(*cap)),
        },
        ExprKind::GoInterface { type_ptr, data } => ExprKindV::GoInterface {
            type_ptr: Box::new(expr_view(*type_ptr)),
            data: Box::new(expr_view(*data)),
        },
        ExprKind::ResolvedPointer { addr, resolved } => ExprKindV::ResolvedPointer { addr, resolved: resolved@ },
    }
}

/// The values of a list of expressions.
pub open spec fn exprs_view(s: Seq<Expr>) -> Seq<ExprV>
    decreases s,
{
    if s.len() == 0 {
        Seq::empty()
    } else {
        exprs_view(s.drop_last()).push(expr_view(s.last()))
    }
}

impl View for Expr {
    type V = ExprV;

    open spec fn view(&self) -> ExprV {
        expr_view(*self)
    }
}

} // verus!

verus! {

/// Length and elements of the values of a list of expressions.
pub proof fn lemma_exprs_view(s: Seq<Expr>)
    ensures
        exprs_view(s).len() == s.len(),
        forall|i: int| 0 <= i < s.len() ==> #[trigger] exprs_view(s)[i] == expr_view(s[i]),
    decreases s.len(),
{
    if s.len() > 0 {
        lemma_exprs_view(s.drop_last());
    }
}

/// The values of a list extended by one expression.
pub proof fn lemma_exprs_view_push(s: Seq<Expr>, e: Expr)
    ensures
        exprs_view(s.push(e)) == exprs_view(s).push(expr_view(e)),
{
    assert(s.push(e).drop_last() =~= s);
}

impl Expr {
    pub fn new(kind: ExprKind) -> (r: Expr)
        ensures
            r.kind == kind,
            r.ty == InferredType::Unknown,
    {
        Expr { kind, ty: InferredType::Unknown }
    }

    pub fn with_type(kind: ExprKind, ty: InferredType) -> (r: Expr)
        ensures
            r.kind == kind,
            r.ty == ty,
    {
        Expr { kind, ty }
    }

    pub fn i32_const(val: i32) -> (r: Expr)
        ensures
            r.kind == ExprKind::I32Const(val),
            r.ty == InferredType::I32,
    {
        Expr::with_type(ExprKind::I32Const(val), InferredType::I32)
    }

    pub fn i64_const(val: i64) -> (r: Expr)
        ensures
            r.kind == ExprKind::I64Const(val),
            r.ty == InferredType::I64,
    {
        Expr::with_type(ExprKind::I64Const(val), InferredType::I64)
    }

    /// An `f32` constant given by its bit pattern.
    pub fn f32_const(bits: u32) -> (r: Expr)
        ensures
            r.kind == ExprKind::F32Const(bits),
            r.ty == InferredType::F32,
    {
        Expr::with_type(ExprKind::F32Const(bits), InferredType::F32)
    }

    /// An `f64` constant given by its bit pattern.
    pub fn f64_const(bits: u64) -> (r: Expr)
        ensures
            r.kind == ExprKind::F64Const(bits),
            r.ty == InferredType::F64,
    {
        Expr::with_type(ExprKind::F64Const(bits), InferredType::F64)
    }

    pub fn local(idx: u32) -> (r: Expr)
        ensures
            r.kind == ExprKind::Local(idx),
            r.ty == InferredType::Unknown,
    {
        Expr::new(ExprKind::Local(idx))
    }

    pub fn global(idx: u32) -> (r: Expr)
        ensures
            r.kind == ExprKind::Global(idx),
            r.ty == InferredType::Unknown,
    {
        Expr::new(ExprKind::Global(idx))
    }

    /// A copy of this expression, with the same value.
    pub fn duplicate(&self) -> (r: Expr)
        ensures
            r@ == self@,
        decreases self,
    {
        let kind = match &self.kind {
            ExprKind::I32Const(v) => ExprKind::I32Const(*v),
            ExprKind::I64Const(v) => ExprKind::I64Const(*v),
            ExprKind::F32Const(v) => ExprKind::F32Const(*v),
            ExprKind::F64Const(v) => ExprKind::F64Const(*v),
            ExprKind::Local(v) => ExprKind::Local(*v),
            ExprKind::Global(v) => ExprKind::Global(*v),
            ExprKind::BinOp(op, a, b) => ExprKind::BinOp(*op, Box::new((**a).duplicate()), Box::new((**b).duplicate())),
            ExprKind::UnaryOp(op, a) => ExprKind::UnaryOp(*op, Box::new((**a).duplicate())),
            ExprKind::Compare(op, a, b, t) => ExprKind::Compare(
                *op,
                Box::new((**a).duplicate()),
                Box::new((**b).duplicate()),
                t.duplicate(),
            ),
            ExprKind::Load { addr, offset, size, signed } => ExprKind::Load {
                addr: Box::new((**addr).duplicate()),
                offset: *offset,
                size: *size,
                signed: *signed,
            },
            ExprKind::Call { func, args } => ExprKind::Call { func: *func, args: duplicate_exprs(args) },
            ExprKind::CallIndirect { type_idx, table_idx, index, args } => ExprKind::CallIndirect {
                type_idx: *type_idx,
                table_idx: *table_idx,
                index: Box::new((**index).duplicate()),
                args: duplicate_exprs(args),
            },
            ExprKind::Select { cond, then_val, else_val } => ExprKind::Select {
                cond: Box::new((**cond).duplicate()),
                then_val: Box::new((**then_val).duplicate()),
                else_val: Box::new((**else_val).duplicate()),
            },
            ExprKind::Convert { op, expr } => ExprKind::Convert { op: *op, expr: Box::new((**expr).duplicate()) },
            ExprKind::StringLiteral(s) => ExprKind::StringLiteral(s.clone()),
            ExprKind::GoString { ptr, len } => ExprKind::GoString {
                ptr: Box::new((**ptr).duplicate()),
                len: Box::new((**len).duplicate()),
            },
            ExprKind::GoSlice { ptr, len, cap } => ExprKind::GoSlice {
                ptr: Box::new((**ptr).duplicate()),
                len: Box::new((**len).duplicate()),
                cap: Box::new((**cap).duplicate()),
            },
            ExprKind::GoInterface { type_ptr, data } => ExprKind::GoInterface {
                type_ptr: Box::new((**type_ptr).duplicate()),
                data: Box::new((**data).duplicate()),
            },
            ExprKind::ResolvedPointer { addr, resolved } => ExprKind::ResolvedPointer {
                addr: *addr,
                resolved: resolved.clone(),
            },
        };
        Expr { kind, ty: self.ty.duplicate() }
    }
}

/// A copy of a list of expressions, with the same values.
pub fn duplicate_exprs(v: &Vec<Expr>) -> (r: Vec<Expr>)
    ensures
        exprs_view(r@) == exprs_view(v@),
    decreases v,
{
    let mut out: Vec<Expr> = Vec::new();
    let mut i: usize = 0;
    while i < v.len()
        invariant
            i <= v.len(),
            exprs_view(out@) == exprs_view(v@.subrange(0, i as int)),
        decreases v.len() - i,
    {
        assert(decreases_to!(v => v@[i as int]));
        let e = v[i].duplicate();
        proof {
            lemma_exprs_view_push(out@, e);
            lemma_exprs_view_push(v@.subrange(0, i as int), v@[i as int]);
            assert(v@.subrange(0, i as int).push(v@[i as int]) =~= v@.subrange(0, i + 1));
        }
        out.push(e);
        i += 1;
    }
    assert(v@.subrange(0, i as int) =~= v@);
    out
}

} // verus!

verus! {

/// A block of statements
#[derive(Debug)]
pub struct Block {
    pub stmts: Vec<Stmt>,
}

/// A case in a switch statement
#[derive(Debug)]
pub struct SwitchCase {
    /// Which index values map to this case
    pub values: Vec<u32>,
    /// The case body
    pub body: Block,
}

/// Statement types
#[derive(Debug)]
#[allow(inconsistent_fields)]
pub enum Stmt {
    /// Local variable assignment
    LocalSet { local: u32, value: Expr },
    /// Global variable assignment
    GlobalSet { global: u32, value: Expr },
    /// Memory store
    Store { addr: Expr, offset: u32, value: Expr, size: MemSize },
    /// Expression statement (for side effects like calls)
    Expr(Expr),
    /// Return statement
    Return(Option<Expr>),
    /// If statement
    If { cond: Expr, then_block: Block, else_block: Option<Block> },
    /// Block (for structured control flow)
    Block { label: u32, body: Block },
    /// Loop
    Loop { label: u32, body: Block },
    /// Branch
    Br { label: u32, is_loop: bool },
    /// Conditional branch
    BrIf { label: u32, cond: Expr, is_loop: bool },
    /// Branch table
    BrTable { index: Expr, targets: Vec<BranchTarget>, default: BranchTarget },
    /// Do-while loop
    DoWhile { body: Block, cond: Expr },
    /// While loop
    While { cond: Expr, body: Block },
    /// Switch statement
    Switch { index: Expr, cases: Vec<SwitchCase>, default: Option<Block> },
    /// Try/finally
    TryFinally { body: Block, finally_block: Block },
    /// Unreachable
    Unreachable,
    /// No-op (placeholder)
    Nop,
    /// Drop value
    Drop(Expr),
}

/// Mathematical value of a block.
pub struct BlockV {
    pub stmts: Seq<StmtV>,
}

/// Mathematical value of a switch case.
pub struct SwitchCaseV {
    pub values: Seq<u32>,
    pub body: BlockV,
}

/// Mathematical value of a statement.
#[allow(inconsistent_fields)]
pub enum StmtV {
    LocalSet { local: u32, value: ExprV },
    GlobalSet { global: u32, value: ExprV },
    Store { addr: ExprV, offset: u32, value: ExprV, size: MemSize },
    Expr(ExprV),
    Return(Option<ExprV>),
    If { cond: ExprV, then_block: BlockV, else_block: Option<BlockV> },
    Block { label: u32, body: BlockV },
    Loop { label: u32, body: BlockV },
    Br { label: u32, is_loop: bool },
    BrIf { label: u32, cond: ExprV, is_loop: bool },
    BrTable { index: ExprV, targets: Seq<BranchTarget>, default: BranchTarget },
    DoWhile { body: BlockV, cond: ExprV },
    While { cond: ExprV, body: BlockV },
    Switch { index: ExprV, cases: Seq<SwitchCaseV>, default: Option<BlockV> },
    TryFinally { body: BlockV, finally_block: BlockV },
    Unreachable,
    Nop,
    Drop(ExprV),
}

/// The value of a statement.
pub open spec fn stmt_view(s: Stmt) -> StmtV
    decreases s,
{
    match s {
        Stmt::LocalSet { local, value } => StmtV::LocalSet { local, value: expr_view(value) },
        Stmt::GlobalSet { global, value } => StmtV::GlobalSet { global, value: expr_view(value) },
        Stmt::Store { addr, offset, value, size } => StmtV::Store {
            addr: expr_view(addr),
            offset,
            value: expr_view(value),
            size,
        },
        Stmt::Expr(e) => StmtV::Expr(expr_view(e)),
        Stmt::Return(v) => StmtV::Return(
            match v {
                Some(e) => Some(expr_view(e)),
                None => None,
            },
        ),
        Stmt::If { cond, then_block, else_block } => StmtV::If {
            cond: expr_view(cond),
            then_block: block_view(then_block),
            else_block: match else_block {
                Some(b) => Some(block_view(b)),
                None => None,
            },
        },
        Stmt::Block { label, body } => StmtV::Block { label, body: block_view(body) },
        Stmt::Loop { label, body } => StmtV::Loop { label, body: block_view(body) },
        Stmt::Br { label, is_loop } => StmtV::Br { label, is_loop },
        Stmt::BrIf { label, cond, is_loop } => StmtV::BrIf { label, cond: expr_view(cond), is_loop },
        Stmt::BrTable { index, targets, default } => StmtV::BrTable {
            index: expr_view(index),
            targets: targets@,
            default,
        },
        Stmt::DoWhile { body, cond } => StmtV::DoWhile { body: block_view(body), cond: expr_view(cond) },
        Stmt::While { cond, body } => StmtV::While { cond: expr_view(cond), body: block_view(body) },
        Stmt::Switch { index, cases, default } => StmtV::Switch {
            index: expr_view(index),
            cases: cases_view(cases@),
            default: match default {
                Some(b) => Some(block_view(b)),
                None => None,
            },
        },
        Stmt::TryFinally { body, finally_block } => StmtV::TryFinally {
            body: block_view(body),
            finally_block: block_view(finally_block),
        },
        Stmt::Unreachable => StmtV::Unreachable,
        Stmt::Nop => StmtV::Nop,
        Stmt::Drop(e) => StmtV::Drop(expr_view(e)),
    }
}

/// The value of a block.
pub open spec fn block_view(b: Block) -> BlockV
    decreases b,
{
    BlockV { stmts: stmts_view(b.stmts@) }
}

/// The values of a list of statements.
pub open spec fn stmts_view(s: Seq<Stmt>) -> Seq<StmtV>
    decreases s,
{
    if s.len() == 0 {
        Seq::empty()
    } else {
        stmts_view(s.drop_last()).push(stmt_view(s.last()))
    }
}

/// The values of a list of switch cases.
pub open spec fn cases_view(s: Seq<SwitchCase>) -> Seq<SwitchCaseV>
    decreases s,
{
    if s.len() == 0 {
        Seq::empty()
    } else {
        cases_view(s.drop_last()).push(
            SwitchCaseV { values: s.last().values@, body: block_view(s.last().body) },
        )
    }
}

impl View for Stmt {
    type V = StmtV;

    open spec fn view(&self) -> StmtV {
        stmt_view(*self)
    }
}

impl View for Block {
    type V = BlockV;

    open spec fn view(&self) -> BlockV {
        block_view(*self)
    }
}

/// Length and elements of the values of a list of statements.
pub proof fn lemma_stmts_view(s: Seq<Stmt>)
    ensures
        stmts_view(s).len() == s.len(),
        forall|i: int| 0 <= i < s.len() ==> #[trigger] stmts_view(s)[i] == stmt_view(s[i]),
    decreases s.len(),
{
    if s.len() > 0 {
        lemma_stmts_view(s.drop_last());
    }
}

/// The values of a list of statements extended by one statement.
pub proof fn lemma_stmts_view_push(s: Seq<Stmt>, e: Stmt)
    ensures
        stmts_view(s.push(e)) == stmts_view(s).push(stmt_view(e)),
{
    assert(s.push(e).drop_last() =~= s);
}

impl Block {
    pub fn new() -> (r: Block)
        ensures
            r.stmts@.len() == 0,
    {
        Block { stmts: Vec::new() }
    }

    pub fn with_stmts(stmts: Vec<Stmt>) -> (r: Block)
        ensures
            r.stmts == stmts,
    {
        Block { stmts }
    }
}

} // verus!

verus! {

/// An element segment (populates a function table)
#[derive(Debug)]
pub struct ElementSegment {
    /// Offset into the table
    pub offset: u32,
    /// Function indices in this segment
    pub func_indices: Vec<u32>,
}

/// Data segment with offset
#[derive(Debug)]
pub struct DataSegment {
    pub offset: u32,
    pub data: Vec<u8>,
}

/// Import entry
#[derive(Debug)]
pub struct Import {
    pub module: String,
    pub name: String,
    pub kind: ImportKind,
}

#[derive(Debug, Clone, Copy, PartialEq, Eq, Structural)]
pub enum ImportKind {
    Function(u32),
    Global(ValType),
    Memory,
    Table,
}

/// Function type signature
#[derive(Debug)]
pub struct FuncType {
    pub params: Vec<ValType>,
    pub results: Vec<ValType>,
}

/// Global variable
#[derive(Debug)]
pub struct Global {
    pub ty: ValType,
    pub mutable: bool,
    pub init: Expr,
}

/// A function in IR form
#[derive(Debug)]
pub struct Function {
    /// Function index
    pub index: u32,
    /// Optional name (from export or debug info)
    pub name: Option<String>,
    /// Parameter types
    pub params: Vec<ValType>,
    /// Return types
    pub results: Vec<ValType>,
    /// Local variable types (excluding params)
    pub locals: Vec<ValType>,
    /// Function body as a block
    pub body: Block,
    /// Whether this is an imported function
    pub is_import: bool,
}

/// A module in IR form
#[derive(Debug)]
pub struct Module {
    /// Functions in the module
    pub functions: Vec<Function>,
    /// Global variables
    pub globals: Vec<Global>,
    /// Memory sections (initial data)
    pub memory: Vec<u8>,
    /// Initial memory size in pages
    pub memory_pages: u32,
    /// Data segments with their offsets
    pub data_segments: Vec<DataSegment>,
    /// Imported functions
    pub imports: Vec<Import>,
    /// Exported names, by function index
    pub exports: Vec<(u32, String)>,
    /// Function type signatures
    pub types: Vec<FuncType>,
    /// Function index -> type index mapping
    pub func_types: Vec<u32>,
    /// Element segments (function tables)
    pub elements: Vec<ElementSegment>,
    /// Table size (from table section)
    pub table_size: u32,
}

impl Module {
    pub fn new() -> (r: Module)
        ensures
            r.functions@.len() == 0,
            r.globals@.len() == 0,
            r.memory@.len() == 0,
            r.memory_pages == 0,
            r.data_segments@.len() == 0,
            r.imports@.len() == 0,
            r.exports@.len() == 0,
            r.types@.len() == 0,
            r.func_types@.len() == 0,
            r.elements@.len() == 0,
            r.table_size == 0,
    {
        Module {
            functions: Vec::new(),
            globals: Vec::new(),
            memory: Vec::new(),
            memory_pages: 0,
            data_segments: Vec::new(),
            imports: Vec::new(),
            exports: Vec::new(),
            types: Vec::new(),
            func_types: Vec::new(),
            elements: Vec::new(),
            table_size: 0,
        }
    }

    /// The text that `memory[offset..offset + len]` encodes, when the range
    /// lies in memory and holds valid UTF-8.
    pub fn get_string(&self, offset: usize, len: usize) -> (r: Option<String>)
        requires
            offset + len <= usize::MAX,
        ensures
            text_view(r) == utf8_text_at(self.memory@, offset as int, offset + len),
    {
        if offset + len <= self.memory.len() {
            let bytes = slice_copy(&self.memory, offset, offset + len);
            match str_from_utf8(bytes.as_slice()) {
                Some(s) => Some(s.to_owned()),
                None => None,
            }
        } else {
            None
        }
    }

    /// The text of the zero-terminated string that starts at `offset`, when a
    /// zero byte follows it in memory and the bytes before it are valid UTF-8.
    pub fn get_cstring(&self, offset: usize) -> (r: Option<String>)
        ensures
            text_view(r) == (match first_zero_from(self.memory@, offset as int) {
                Some(end) => utf8_text_at(self.memory@, offset as int, end),
                None => None,
            }),
    {
        if offset >= self.memory.len() {
            return None;
        }
        let mut end: usize = offset;
        while end < self.memory.len()
            invariant
                offset <= end <= self.memory@.len(),
                offset < self.memory@.len(),
                forall|k: int| offset <= k < end ==> self.memory@[k] != 0,
            decreases self.memory@.len() - end,
        {
            if self.memory[end] == 0 {
                proof {
                    lemma_first_zero_from(self.memory@, offset as int, end as int);
                }
                let bytes = slice_copy(&self.memory, offset, end);
                return match str_from_utf8(bytes.as_slice()) {
                    Some(s) => Some(s.to_owned()),
                    None => None,
                };
            }
            end += 1;
        }
        proof {
            lemma_no_zero_from(self.memory@, offset as int);
        }
        None
    }
}

/// The text that `mem[start..end]` encodes, when the range lies in `mem` and
/// holds valid UTF-8.
pub open spec fn utf8_text_at(mem: Seq<u8>, start: int, end: int) -> Option<Seq<char>> {
    if 0 <= start <= end <= mem.len() && valid_utf8(mem.subrange(start, end)) {
        Some(decode_utf8(mem.subrange(start, end)))
    } else {
        None
    }
}

/// The characters of an optional string.
pub open spec fn text_view(r: Option<String>) -> Option<Seq<char>> {
    match r {
        Some(s) => Some(s@),
        None => None,
    }
}

/// The position of the first zero byte of `mem` at or after `start`.
pub open spec fn first_zero_from(mem: Seq<u8>, start: int) -> Option<int>
    decreases mem.len() - start,
{
    if start < 0 || start >= mem.len() {
        None
    } else if mem[start] == 0 {
        Some(start)
    } else {
        first_zero_from(mem, start + 1)
    }
}

proof fn lemma_first_zero_from(mem: Seq<u8>, start: int, end: int)
    requires
        0 <= start <= end < mem.len(),
        mem[end] == 0,
        forall|k: int| start <= k < end ==> mem[k] != 0,
    ensures
        first_zero_from(mem, start) == Some(end),
    decreases end - start,
{
    if start < end {
        lemma_first_zero_from(mem, start + 1, end);
    }
}

proof fn lemma_no_zero_from(mem: Seq<u8>, start: int)
    requires
        0 <= start <= mem.len(),
        forall|k: int| start <= k < mem.len() ==> mem[k] != 0,
    ensures
        first_zero_from(mem, start) is None,
    decreases mem.len() - start,
{
    if start < mem.len() {
        lemma_no_zero_from(mem, start + 1);
    }
}

/// A copy of `v[start..end]`.
fn slice_copy(v: &Vec<u8>, start: usize, end: usize) -> (r: Vec<u8>)
    requires
        start <= end <= v@.len(),
    ensures
        r@ == v@.subrange(start as int, end as int),
{
    let mut r: Vec<u8> = Vec::new();
    let mut i: usize = start;
    while i < end
        invariant
            start <= i <= end <= v@.len(),
            r@ == v@.subrange(start as int, i as int),
        decreases end - i,
    {
        r.push(v[i]);
        i += 1;
        assert(r@ =~= v@.subrange(start as int, i as int));
    }
    r
}

} // verus!

verus! {

/// The values of a list of switch cases extended by one case.
pub proof fn lemma_cases_view_push(s: Seq<SwitchCase>, c: SwitchCase)
    ensures
        cases_view(s.push(c)) == cases_view(s).push(SwitchCaseV { values: c.values@, body: block_view(c.body) }),
{
    assert(s.push(c).drop_last() =~= s);
}

/// A copy of a list of integers.
pub fn copy_u32s(v: &Vec<u32>) -> (r: Vec<u32>)
    ensures
        r@ == v@,
{
    let mut r: Vec<u32> = Vec::new();
    let mut i: usize = 0;
    while i < v.len()
        invariant
            i <= v@.len(),
            r@ == v@.subrange(0, i as int),
        decreases v@.len() - i,
    {
        r.push(v[i]);
        i += 1;
    }
    assert(v@.subrange(0, i as int) =~= v@);
    r
}

/// A copy of a list of branch targets.
pub fn copy_targets(v: &Vec<BranchTarget>) -> (r: Vec<BranchTarget>)
    ensures
        r@ == v@,
{
    let mut r: Vec<BranchTarget> = Vec::new();
    let mut i: usize = 0;
    while i < v.len()
        invariant
            i <= v@.len(),
            r@ == v@.subrange(0, i as int),
        decreases v@.len() - i,
    {
        r.push(v[i]);
        i += 1;
    }
    assert(v@.subrange(0, i as int) =~= v@);
    r
}

impl Stmt {
    /// A copy of this statement, with the same value.
    pub fn duplicate(&self) -> (r: Stmt)
        ensures
            r@ == self@,
        decreases self,
    {
        match self {
            Stmt::LocalSet { local, value } => Stmt::LocalSet { local: *local, value: value.duplicate() },
            Stmt::GlobalSet { global, value } => Stmt::GlobalSet { global: *global, value: value.duplicate() },
            Stmt::Store { addr, offset, value, size } => Stmt::Store {
                addr: addr.duplicate(),
                offset: *offset,
                value: value.duplicate(),
                size: *size,
            },
            Stmt::Expr(e) => Stmt::Expr(e.duplicate()),
            Stmt::Return(v) => Stmt::Return(
                match v {
                    Some(e) => Some(e.duplicate()),
                    None => None,
                },
            ),
            Stmt::If { cond, then_block, else_block } => Stmt::If {
                cond: cond.duplicate(),
                then_block: then_block.duplicate(),
                else_block: match else_block {
                    Some(b) => Some(b.duplicate()),
                    None => None,
                },
            },
            Stmt::Block { label, body } => Stmt::Block { label: *label, body: body.duplicate() },
            Stmt::Loop { label, body } => Stmt::Loop { label: *label, body: body.duplicate() },
            Stmt::Br { label, is_loop } => Stmt::Br { label: *label, is_loop: *is_loop },
            Stmt::BrIf { label, cond, is_loop } => Stmt::BrIf { label: *label, cond: cond.duplicate(), is_loop: *is_loop },
            Stmt::BrTable { index, targets, default } => Stmt::BrTable {
                index: index.duplicate(),
                targets: copy_targets(targets),
                default: *default,
            },
            Stmt::DoWhile { body, cond } => Stmt::DoWhile { body: body.duplicate(), cond: cond.duplicate() },
            Stmt::While { cond, body } => Stmt::While { cond: cond.duplicate(), body: body.duplicate() },
            Stmt::Switch { index, cases, default } => Stmt::Switch {
                index: index.duplicate(),
                cases: duplicate_cases(cases),
                default: match default {
                    Some(b) => Some(b.duplicate()),
                    None => None,
                },
            },
            Stmt::TryFinally { body, finally_block } => Stmt::TryFinally {
                body: body.duplicate(),
                finally_block: finally_block.duplicate(),
            },
            Stmt::Unreachable => Stmt::Unreachable,
            Stmt::Nop => Stmt::Nop,
            Stmt::Drop(e) => Stmt::Drop(e.duplicate()),
        }
    }
}

impl Block {
    /// A copy of this block, with the same value.
    pub fn duplicate(&self) -> (r: Block)
        ensures
            r@ == self@,
        decreases self,
    {
        Block { stmts: duplicate_stmts(&self.stmts) }
    }
}

/// A copy of a list of statements, with the same values.
pub fn duplicate_stmts(v: &Vec<Stmt>) -> (r: Vec<Stmt>)
    ensures
        stmts_view(r@) == stmts_view(v@),
    decreases v,
{
    let mut out: Vec<Stmt> = Vec::new();
    let mut i: usize = 0;
    while i < v.len()
        invariant
            i <= v.len(),
            stmts_view(out@) == stmts_view(v@.subrange(0, i as int)),
        decreases v.len() - i,
    {
        assert(decreases_to!(v => v@[i as int]));
        let e = v[i].duplicate();
        proof {
            lemma_stmts_view_push(out@, e);
            lemma_stmts_view_push(v@.subrange(0, i as int), v@[i as int]);
            assert(v@.subrange(0, i as int).push(v@[i as int]) =~= v@.subrange(0, i + 1));
        }
        out.push(e);
        i += 1;
    }
    assert(v@.subrange(0, i as int) =~= v@);
    out
}

/// A copy of a list of switch cases, with the same values.
pub fn duplicate_cases(v: &Vec<SwitchCase>) -> (r: Vec<SwitchCase>)
    ensures
        cases_view(r@) == cases_view(v@),
    decreases v,
{
    let mut out: Vec<SwitchCase> = Vec::new();
    let mut i: usize = 0;
    while i < v.len()
        invariant
            i <= v.len(),
            cases_view(out@) == cases_view(v@.subrange(0, i as int)),
        decreases v.len() - i,
    {
        assert(decreases_to!(v => v@[i as int]));
        let c = SwitchCase { values: copy_u32s(&v[i].values), body: v[i].body.duplicate() };
        proof {
            lemma_cases_view_push(out@, c);
            lemma_cases_view_push(v@.subrange(0, i as int), v@[i as int]);
            assert(v@.subrange(0, i as int).push(v@[i as int]) =~= v@.subrange(0, i + 1));
        }
        out.push(c);
        i += 1;
    }
    assert(v@.subrange(0, i as int) =~= v@);
    out
}

/// The name of each `MemSize` variant, as its `Debug` form writes it.
pub open spec fn mem_size_name(v: MemSize) -> Seq<char> {
    match v {
        MemSize::I8 => "I8"@,
        MemSize::I16 => "I16"@,
        MemSize::I32 => "I32"@,
        MemSize::I64 => "I64"@,
        MemSize::F32 => "F32"@,
        MemSize::F64 => "F64"@,
    }
}

impl MemSize {
    /// The variant's name.
    pub fn variant_name(&self) -> (r: &'static str)
        ensures
            r@ == mem_size_name(*self),
    {
        match self {
            MemSize::I8 => "I8",
            MemSize::I16 => "I16",
            MemSize::I32 => "I32",
            MemSize::I64 => "I64",
            MemSize::F32 => "F32",
            MemSize::F64 => "F64",
        }
    }
}

/// The name of each `BinOp` variant, as its `Debug` form writes it.
pub open spec fn bin_op_name(v: BinOp) -> Seq<char> {
    match v {
        BinOp::Add => "Add"@,
        BinOp::Sub => "Sub"@,
        BinOp::Mul => "Mul"@,
        BinOp::DivS => "DivS"@,
        BinOp::DivU => "DivU"@,
        BinOp::RemS => "RemS"@,
        BinOp::RemU => "RemU"@,
        BinOp::And => "And"@,
        BinOp::Or => "Or"@,
        BinOp::Xor => "Xor"@,
        BinOp::Shl => "Shl"@,
        BinOp::ShrS => "ShrS"@,
        BinOp::ShrU => "ShrU"@,
        BinOp::Rotl => "Rotl"@,
        BinOp::Rotr => "Rotr"@,
        BinOp::FAdd => "FAdd"@,
        BinOp::FSub => "FSub"@,
        BinOp::FMul => "FMul"@,
        BinOp::FDiv => "FDiv"@,
        BinOp::FMin => "FMin"@,
        BinOp::FMax => "FMax"@,
        BinOp::FCopysign => "FCopysign"@,
    }
}

impl BinOp {
    /// The variant's name.
    pub fn variant_name(&self) -> (r: &'static str)
        ensures
            r@ == bin_op_name(*self),
    {
        match self {
            BinOp::Add => "Add",
            BinOp::Sub => "Sub",
            BinOp::Mul => "Mul",
            BinOp::DivS => "DivS",
            BinOp::DivU => "DivU",
            BinOp::RemS => "RemS",
            BinOp::RemU => "RemU",
            BinOp::And => "And",
            BinOp::Or => "Or",
            BinOp::Xor => "Xor",
            BinOp::Shl => "Shl",
            BinOp::ShrS => "ShrS",
            BinOp::ShrU => "ShrU",
            BinOp::Rotl => "Rotl",
            BinOp::Rotr => "Rotr",
            BinOp::FAdd => "FAdd",
            BinOp::FSub => "FSub",
            BinOp::FMul => "FMul",
            BinOp::FDiv => "FDiv",
            BinOp::FMin => "FMin",
            BinOp::FMax => "FMax",
            BinOp::FCopysign => "FCopysign",
        }
    }
}

/// The name of each `UnaryOp` variant, as its `Debug` form writes it.
pub open spec fn unary_op_name(v: UnaryOp) -> Seq<char> {
    match v {
        UnaryOp::Clz => "Clz"@,
        UnaryOp::Ctz => "Ctz"@,
        UnaryOp::Popcnt => "Popcnt"@,
        UnaryOp::Eqz => "Eqz"@,
        UnaryOp::FAbs => "FAbs"@,
        UnaryOp::FNeg => "FNeg"@,
        UnaryOp::FCeil => "FCeil"@,
        UnaryOp::FFloor => "FFloor"@,
        UnaryOp::FTrunc => "FTrunc"@,
        UnaryOp::FNearest => "FNearest"@,
        UnaryOp::FSqrt => "FSqrt"@,
    }
}

impl UnaryOp {
    /// The variant's name.
    pub fn variant_name(&self) -> (r: &'static str)
        ensures
            r@ == unary_op_name(*self),
    {
        match self {
            UnaryOp::Clz => "Clz",
            UnaryOp::Ctz => "Ctz",
            UnaryOp::Popcnt => "Popcnt",
            UnaryOp::Eqz => "Eqz",
            UnaryOp::FAbs => "FAbs",
            UnaryOp::FNeg => "FNeg",
            UnaryOp::FCeil => "FCeil",
            UnaryOp::FFloor => "FFloor",
            UnaryOp::FTrunc => "FTrunc",
            UnaryOp::FNearest => "FNearest",
            UnaryOp::FSqrt => "FSqrt",
        }
    }
}

/// The name of each `CmpOp` variant, as its `Debug` form writes it.
pub open spec fn compare_op_name(v: CmpOp) -> Seq<char> {
    match v {
        CmpOp::Eq => "Eq"@,
        CmpOp::Ne => "Ne"@,
        CmpOp::LtS => "LtS"@,
        CmpOp::LtU => "LtU"@,
        CmpOp::GtS => "GtS"@,
        CmpOp::GtU => "GtU"@,
        CmpOp::LeS => "LeS"@,
        CmpOp::LeU => "LeU"@,
        CmpOp::GeS => "GeS"@,
        CmpOp::GeU => "GeU"@,
        CmpOp::FEq => "FEq"@,
        CmpOp::FNe => "FNe"@,
        CmpOp::FLt => "FLt"@,
        CmpOp::FGt => "FGt"@,
        CmpOp::FLe => "FLe"@,
        CmpOp::FGe => "FGe"@,
    }
}

impl CmpOp {
    /// The variant's name.
    pub fn variant_name(&self) -> (r: &'static str)
        ensures
            r@ == compare_op_name(*self),
    {
        match self {
            CmpOp::Eq => "Eq",
            CmpOp::Ne => "Ne",
            CmpOp::LtS => "LtS",
            CmpOp::LtU => "LtU",
            CmpOp::GtS => "GtS",
            CmpOp::GtU => "GtU",
            CmpOp::LeS => "LeS",
            CmpOp::LeU => "LeU",
            CmpOp::GeS => "GeS",
            CmpOp::GeU => "GeU",
            CmpOp::FEq => "FEq",
            CmpOp::FNe => "FNe",
            CmpOp::FLt => "FLt",
            CmpOp::FGt => "FGt",
            CmpOp::FLe => "FLe",
            CmpOp::FGe => "FGe",
        }
    }
}

/// The name of each `ConvertOp` variant, as its `Debug` form writes it.
pub open spec fn convert_op_name(v: ConvertOp) -> Seq<char> {
    match v {
        ConvertOp::I32WrapI64 => "I32WrapI64"@,
        ConvertOp::I64ExtendI32S => "I64ExtendI32S"@,
        ConvertOp::I64ExtendI32U => "I64ExtendI32U"@,
        ConvertOp::I32TruncF32S => "I32TruncF32S"@,
        ConvertOp::I32TruncF32U => "I32TruncF32U"@,
        ConvertOp::I32TruncF64S => "I32TruncF64S"@,
        ConvertOp::I32TruncF64U => "I32TruncF64U"@,
        ConvertOp::I64TruncF32S => "I64TruncF32S"@,
        ConvertOp::I64TruncF32U => "I64TruncF32U"@,
        ConvertOp::I64TruncF64S => "I64TruncF64S"@,
        ConvertOp::I64TruncF64U => "I64TruncF64U"@,
        ConvertOp::F32ConvertI32S => "F32ConvertI32S"@,
        ConvertOp::F32ConvertI32U => "F32ConvertI32U"@,
        ConvertOp::F32ConvertI64S => "F32ConvertI64S"@,
        ConvertOp::F32ConvertI64U => "F32ConvertI64U"@,
        ConvertOp::F64ConvertI32S => "F64ConvertI32S"@,
        ConvertOp::F64ConvertI32U => "F64ConvertI32U"@,
        ConvertOp::F64ConvertI64S => "F64ConvertI64S"@,
        ConvertOp::F64ConvertI64U => "F64ConvertI64U"@,
        ConvertOp::F32DemoteF64 => "F32DemoteF64"@,
        ConvertOp::F64PromoteF32 => "F64PromoteF32"@,
        ConvertOp::I32ReinterpretF32 => "I32ReinterpretF32"@,
        ConvertOp::I64ReinterpretF64 => "I64ReinterpretF64"@,
        ConvertOp::F32ReinterpretI32 => "F32ReinterpretI32"@,
        ConvertOp::F64ReinterpretI64 => "F64ReinterpretI64"@,
        ConvertOp::I32Extend8S => "I32Extend8S"@,
        ConvertOp::I32Extend16S => "I32Extend16S"@,
        ConvertOp::I64Extend8S => "I64Extend8S"@,
        ConvertOp::I64Extend16S => "I64Extend16S"@,
        ConvertOp::I64Extend32S => "I64Extend32S"@,
        ConvertOp::I32TruncSatF32S => "I32TruncSatF32S"@,
        ConvertOp::I32TruncSatF32U => "I32TruncSatF32U"@,
        ConvertOp::I32TruncSatF64S => "I32TruncSatF64S"@,
        ConvertOp::I32TruncSatF64U => "I32TruncSatF64U"@,
        ConvertOp::I64TruncSatF32S => "I64TruncSatF32S"@,
        ConvertOp::I64TruncSatF32U => "I64TruncSatF32U"@,
        ConvertOp::I64TruncSatF64S => "I64TruncSatF64S"@,
        ConvertOp::I64TruncSatF64U => "I64TruncSatF64U"@,
    }
}

impl ConvertOp {
    /// The variant's name.
    pub fn variant_name(&self) -> (r: &'static str)
        ensures
            r@ == convert_op_name(*self),
    {
        match self {
            ConvertOp::I32WrapI64 => "I32WrapI64",
            ConvertOp::I64ExtendI32S => "I64ExtendI32S",
            ConvertOp::I64ExtendI32U => "I64ExtendI32U",
            ConvertOp::I32TruncF32S => "I32TruncF32S",
            ConvertOp::I32TruncF32U => "I32TruncF32U",
            ConvertOp::I32TruncF64S => "I32TruncF64S",
            ConvertOp::I32TruncF64U => "I32TruncF64U",
            ConvertOp::I64TruncF32S => "I64TruncF32S",
            ConvertOp::I64TruncF32U => "I64TruncF32U",
            ConvertOp::I64TruncF64S => "I64TruncF64S",
            ConvertOp::I64TruncF64U => "I64TruncF64U",
            ConvertOp::F32ConvertI32S => "F32ConvertI32S",
            ConvertOp::F32ConvertI32U => "F32ConvertI32U",
            ConvertOp::F32ConvertI64S => "F32ConvertI64S",
            ConvertOp::F32ConvertI64U => "F32ConvertI64U",
            ConvertOp::F64ConvertI32S => "F64ConvertI32S",
            ConvertOp::F64ConvertI32U => "F64ConvertI32U",
            ConvertOp::F64ConvertI64S => "F64ConvertI64S",
            ConvertOp::F64ConvertI64U => "F64ConvertI64U",
            ConvertOp::F32DemoteF64 => "F32DemoteF64",
            ConvertOp::F64PromoteF32 => "F64PromoteF32",
            ConvertOp::I32ReinterpretF32 => "I32ReinterpretF32",
            ConvertOp::I64ReinterpretF64 => "I64ReinterpretF64",
            ConvertOp::F32ReinterpretI32 => "F32ReinterpretI32",
            ConvertOp::F64ReinterpretI64 => "F64ReinterpretI64",
            ConvertOp::I32Extend8S => "I32Extend8S",
            ConvertOp::I32Extend16S => "I32Extend16S",
            ConvertOp::I64Extend8S => "I64Extend8S",
            ConvertOp::I64Extend16S => "I64Extend16S",
            ConvertOp::I64Extend32S => "I64Extend32S",
            ConvertOp::I32TruncSatF32S => "I32TruncSatF32S",
            ConvertOp::I32TruncSatF32U => "I32TruncSatF32U",
            ConvertOp::I32TruncSatF64S => "I32TruncSatF64S",
            ConvertOp::I32TruncSatF64U => "I32TruncSatF64U",
            ConvertOp::I64TruncSatF32S => "I64TruncSatF32S",
            ConvertOp::I64TruncSatF32U => "I64TruncSatF32U",
            ConvertOp::I64TruncSatF64S => "I64TruncSatF64S",
            ConvertOp::I64TruncSatF64U => "I64TruncSatF64U",
        }
    }
}

/// The characters of an ASCII text as one number: the first character is
/// the lowest base-128 digit.
pub open spec fn ascii_code(s: Seq<char>, i: nat) -> int
    decreases s.len() - i,
{
    if i >= s.len() {
        0
    } else {
        (s[i as int] as int) + 128 * ascii_code(s, i + 1)
    }
}

/// The `MemSize` whose name has the given code, where one has.
spec fn mem_size_of_code(k: int) -> Option<MemSize> {
    if k == 7241 {
        Some(MemSize::I8)
    } else if k == 891081 {
        Some(MemSize::I16)
    } else if k == 825801 {
        Some(MemSize::I32)
    } else if k == 858953 {
        Some(MemSize::I64)
    } else if k == 825798 {
        Some(MemSize::F32)
    } else if k == 858950 {
        Some(MemSize::F64)
    } else {
        None
    }
}

proof fn lemma_mem_size_name_code(op: MemSize)
    ensures
        mem_size_of_code(ascii_code(mem_size_name(op), 0)) == Some(op),
{
    reveal_with_fuel(ascii_code, 20);
    match op {
        MemSize::I8 => {
            reveal_strlit("I8");
            assert(ascii_code(mem_size_name(op), 0) == 7241);
        },
        MemSize::I16 => {
            reveal_strlit("I16");
            assert(ascii_code(mem_size_name(op), 0) == 891081);
        },
        MemSize::I32 => {
            reveal_strlit("I32");
            assert(ascii_code(mem_size_name(op), 0) == 825801);
        },
        MemSize::I64 => {
            reveal_strlit("I64");
            assert(ascii_code(mem_size_name(op), 0) == 858953);
        },
        MemSize::F32 => {
            reveal_strlit("F32");
            assert(ascii_code(mem_size_name(op), 0) == 825798);
        },
        MemSize::F64 => {
            reveal_strlit("F64");
            assert(ascii_code(mem_size_name(op), 0) == 858950);
        },
    }
}

/// Law: distinct `MemSize` values have distinct names.
pub proof fn lemma_mem_size_names_distinct(a: MemSize, b: MemSize)
    requires
        mem_size_name(a) == mem_size_name(b),
    ensures
        a == b,
{
    lemma_mem_size_name_code(a);
    lemma_mem_size_name_code(b);
}

/// The `BinOp` whose name has the given code, where one has.
spec fn bin_op_of_code(k: int) -> Option<BinOp> {
    if k == 1651265 {
        Some(BinOp::Add)
    } else if k == 1620691 {
        Some(BinOp::Sub)
    } else if k == 1784525 {
        Some(BinOp::Mul)
    } else if k == 176010436 {
        Some(BinOp::DivS)
    } else if k == 180204740 {
        Some(BinOp::DivU)
    } else if k == 175862482 {
        Some(BinOp::RemS)
    } else if k == 180056786 {
        Some(BinOp::RemU)
    } else if k == 1652545 {
        Some(BinOp::And)
    } else if k == 14671 {
        Some(BinOp::Or)
    } else if k == 1882072 {
        Some(BinOp::Xor)
    } else if k == 1782867 {
        Some(BinOp::Shl)
    } else if k == 175944787 {
        Some(BinOp::ShrS)
    } else if k == 180139091 {
        Some(BinOp::ShrU)
    } else if k == 228407250 {
        Some(BinOp::Rotl)
    } else if k == 240990162 {
        Some(BinOp::Rotr)
    } else if k == 211361990 {
        Some(BinOp::FAdd)
    } else if k == 207448518 {
        Some(BinOp::FSub)
    } else if k == 228419270 {
        Some(BinOp::FMul)
    } else if k == 249193030 {
        Some(BinOp::FDiv)
    } else if k == 232416966 {
        Some(BinOp::FMin)
    } else if k == 253257414 {
        Some(BinOp::FMax)
    } else if k == 7984784968345444806 {
        Some(BinOp::FCopysign)
    } else {
        None
    }
}

proof fn lemma_bin_op_name_code(op: BinOp)
    ensures
        bin_op_of_code(ascii_code(bin_op_name(op), 0)) == Some(op),
{
    reveal_with_fuel(ascii_code, 20);
    match op {
        BinOp::Add => {
            reveal_strlit("Add");
            assert(ascii_code(bin_op_name(op), 0) == 1651265);
        },
        BinOp::Sub => {
            reveal_strlit("Sub");
            assert(ascii_code(bin_op_name(op), 0) == 1620691);
        },
        BinOp::Mul => {
            reveal_strlit("Mul");
            assert(ascii_code(bin_op_name(op), 0) == 1784525);
        },
        BinOp::DivS => {
            reveal_strlit("DivS");
            assert(ascii_code(bin_op_name(op), 0) == 176010436);
        },
        BinOp::DivU => {
            reveal_strlit("DivU");
            assert(ascii_code(bin_op_name(op), 0) == 180204740);
        },
        BinOp::RemS => {
            reveal_strlit("RemS");
            assert(ascii_code(bin_op_name(op), 0) == 175862482);
        },
        BinOp::RemU => {
            reveal_strlit("RemU");
            assert(ascii_code(bin_op_name(op), 0) == 180056786);
        },
        BinOp::And => {
            reveal_strlit("And");
            assert(ascii_code(bin_op_name(op), 0) == 1652545);
        },
        BinOp::Or => {
            reveal_strlit("Or");
            assert(ascii_code(bin_op_name(op), 0) == 14671);
        },
        BinOp::Xor => {
            reveal_strlit("Xor");
            assert(ascii_code(bin_op_name(op), 0) == 1882072);
        },
        BinOp::Shl => {
            reveal_strlit("Shl");
            assert(ascii_code(bin_op_name(op), 0) == 1782867);
        },
        BinOp::ShrS => {
            reveal_strlit("ShrS");
            assert(ascii_code(bin_op_name(op), 0) == 175944787);
        },
        BinOp::ShrU => {
            reveal_strlit("ShrU");
            assert(ascii_code(bin_op_name(op), 0) == 180139091);
        },
        BinOp::Rotl => {
            reveal_strlit("Rotl");
            assert(ascii_code(bin_op_name(op), 0) == 228407250);
        },
        BinOp::Rotr => {
            reveal_strlit("Rotr");
            assert(ascii_code(bin_op_name(op), 0) == 240990162);
        },
        BinOp::FAdd => {
            reveal_strlit("FAdd");
            assert(ascii_code(bin_op_name(op), 0) == 211361990);
        },
        BinOp::FSub => {
            reveal_strlit("FSub");
            assert(ascii_code(bin_op_name(op), 0) == 207448518);
        },
        BinOp::FMul => {
            reveal_strlit("FMul");
            assert(ascii_code(bin_op_name(op), 0) == 228419270);
        },
        BinOp::FDiv => {
            reveal_strlit("FDiv");
            assert(ascii_code(bin_op_name(op), 0) == 249193030);
        },
        BinOp::FMin => {
            reveal_strlit("FMin");
            assert(ascii_code(bin_op_name(op), 0) == 232416966);
        },
        BinOp::FMax => {
            reveal_strlit("FMax");
            assert(ascii_code(bin_op_name(op), 0) == 253257414);
        },
        BinOp::FCopysign => {
            reveal_strlit("FCopysign");
            assert(ascii_code(bin_op_name(op), 0) == 7984784968345444806);
        },
    }
}

/// Law: distinct `BinOp` values have distinct names.
pub proof fn lemma_bin_op_names_distinct(a: BinOp, b: BinOp)
    requires
        bin_op_name(a) == bin_op_name(b),
    ensures
        a == b,
{
    lemma_bin_op_name_code(a);
    lemma_bin_op_name_code(b);
}

/// The `UnaryOp` whose name has the given code, where one has.
spec fn unary_op_of_code(k: int) -> Option<UnaryOp> {
    if k == 2012739 {
        Some(UnaryOp::Clz)
    } else if k == 2013763 {
        Some(UnaryOp::Ctz)
    } else if k == 4015467018192 {
        Some(UnaryOp::Popcnt)
    } else if k == 2013381 {
        Some(UnaryOp::Eqz)
    } else if k == 242786502 {
        Some(UnaryOp::FAbs)
    } else if k == 217671494 {
        Some(UnaryOp::FNeg)
    } else if k == 29212893638 {
        Some(UnaryOp::FCeil)
    } else if k == 3947041071942 {
        Some(UnaryOp::FFloor)
    } else if k == 3431389243974 {
        Some(UnaryOp::FTrunc)
    } else if k == 65811471085954886 {
        Some(UnaryOp::FNearest)
    } else if k == 31379450310 {
        Some(UnaryOp::FSqrt)
    } else {
        None
    }
}

proof fn lemma_unary_op_name_code(op: UnaryOp)
    ensures
        unary_op_of_code(ascii_code(unary_op_name(op), 0)) == Some(op),
{
    reveal_with_fuel(ascii_code, 20);
    match op {
        UnaryOp::Clz => {
            reveal_strlit("Clz");
            assert(ascii_code(unary_op_name(op), 0) == 2012739);
        },
        UnaryOp::Ctz => {
            reveal_strlit("Ctz");
            assert(ascii_code(unary_op_name(op), 0) == 2013763);
        },
        UnaryOp::Popcnt => {
            reveal_strlit("Popcnt");
            assert(ascii_code(unary_op_name(op), 0) == 4015467018192);
        },
        UnaryOp::Eqz => {
            reveal_strlit("Eqz");
            assert(ascii_code(unary_op_name(op), 0) == 2013381);
        },
        UnaryOp::FAbs => {
            reveal_strlit("FAbs");
            assert(ascii_code(unary_op_name(op), 0) == 242786502);
        },
        UnaryOp::FNeg => {
            reveal_strlit("FNeg");
            assert(ascii_code(unary_op_name(op), 0) == 217671494);
        },
        UnaryOp::FCeil => {
            reveal_strlit("FCeil");
            assert(ascii_code(unary_op_name(op), 0) == 29212893638);
        },
        UnaryOp::FFloor => {
            reveal_strlit("FFloor");
            assert(ascii_code(unary_op_name(op), 0) == 3947041071942);
        },
        UnaryOp::FTrunc => {
            reveal_strlit("FTrunc");
            assert(ascii_code(unary_op_name(op), 0) == 3431389243974);
        },
        UnaryOp::FNearest => {
            reveal_strlit("FNearest");
            assert(ascii_code(unary_op_name(op), 0) == 65811471085954886);
        },
        UnaryOp::FSqrt => {
            reveal_strlit("FSqrt");
            assert(ascii_code(unary_op_name(op), 0) == 31379450310);
        },
    }
}

/// Law: distinct `UnaryOp` values have distinct names.
pub proof fn lemma_unary_op_names_distinct(a: UnaryOp, b: UnaryOp)
    requires
        unary_op_name(a) == unary_op_name(b),
    ensures
        a == b,
{
    lemma_unary_op_name_code(a);
    lemma_unary_op_name_code(b);
}

/// The `CmpOp` whose name has the given code, where one has.
spec fn compare_op_of_code(k: int) -> Option<CmpOp> {
    if k == 14533 {
        Some(CmpOp::Eq)
    } else if k == 13006 {
        Some(CmpOp::Ne)
    } else if k == 1374796 {
        Some(CmpOp::LtS)
    } else if k == 1407564 {
        Some(CmpOp::LtU)
    } else if k == 1374791 {
        Some(CmpOp::GtS)
    } else if k == 1407559 {
        Some(CmpOp::GtU)
    } else if k == 1372876 {
        Some(CmpOp::LeS)
    } else if k == 1405644 {
        Some(CmpOp::LeU)
    } else if k == 1372871 {
        Some(CmpOp::GeS)
    } else if k == 1405639 {
        Some(CmpOp::GeU)
    } else if k == 1860294 {
        Some(CmpOp::FEq)
    } else if k == 1664838 {
        Some(CmpOp::FNe)
    } else if k == 1910342 {
        Some(CmpOp::FLt)
    } else if k == 1909702 {
        Some(CmpOp::FGt)
    } else if k == 1664582 {
        Some(CmpOp::FLe)
    } else if k == 1663942 {
        Some(CmpOp::FGe)
    } else {
        None
    }
}

proof fn lemma_compare_op_name_code(op: CmpOp)
    ensures
        compare_op_of_code(ascii_code(compare_op_name(op), 0)) == Some(op),
{
    reveal_with_fuel(ascii_code, 20);
    match op {
        CmpOp::Eq => {
            reveal_strlit("Eq");
            assert(ascii_code(compare_op_name(op), 0) == 14533);
        },
        CmpOp::Ne => {
            reveal_strlit("Ne");
            assert(ascii_code(compare_op_name(op), 0) == 13006);
        },
        CmpOp::LtS => {
            reveal_strlit("LtS");
            assert(ascii_code(compare_op_name(op), 0) == 1374796);
        },
        CmpOp::LtU => {
            reveal_strlit("LtU");
            assert(ascii_code(compare_op_name(op), 0) == 1407564);
        },
        CmpOp::GtS => {
            reveal_strlit("GtS");
            assert(ascii_code(compare_op_name(op), 0) == 1374791);
        },
        CmpOp::GtU => {
            reveal_strlit("GtU");
            assert(ascii_code(compare_op_name(op), 0) == 1407559);
        },
        CmpOp::LeS => {
            reveal_strlit("LeS");
            assert(ascii_code(compare_op_name(op), 0) == 1372876);
        },
        CmpOp::LeU => {
            reveal_strlit("LeU");
            assert(ascii_code(compare_op_name(op), 0) == 1405644);
        },
        CmpOp::GeS => {
            reveal_strlit("GeS");
            assert(ascii_code(compare_op_name(op), 0) == 1372871);
        },
        CmpOp::GeU => {
            reveal_strlit("GeU");
            assert(ascii_code(compare_op_name(op), 0) == 1405639);
        },
        CmpOp::FEq => {
            reveal_strlit("FEq");
            assert(ascii_code(compare_op_name(op), 0) == 1860294);
        },
        CmpOp::FNe => {
            reveal_strlit("FNe");
            assert(ascii_code(compare_op_name(op), 0) == 1664838);
        },
        CmpOp::FLt => {
            reveal_strlit("FLt");
            assert(ascii_code(compare_op_name(op), 0) == 1910342);
        },
        CmpOp::FGt => {
            reveal_strlit("FGt");
            assert(ascii_code(compare_op_name(op), 0) == 1909702);
        },
        CmpOp::FLe => {
            reveal_strlit("FLe");
            assert(ascii_code(compare_op_name(op), 0) == 1664582);
        },
        CmpOp::FGe => {
            reveal_strlit("FGe");
            assert(ascii_code(compare_op_name(op), 0) == 1663942);
        },
    }
}

/// Law: distinct `CmpOp` values have distinct names.
pub proof fn lemma_compare_op_names_distinct(a: CmpOp, b: CmpOp)
    requires
        compare_op_name(a) == compare_op_name(b),
    ensures
        a == b,
{
    lemma_compare_op_name_code(a);
    lemma_compare_op_name_code(b);
}

/// The `ConvertOp` whose name has the given code, where one has.
spec fn convert_op_of_code(k: int) -> Option<ConvertOp> {
    if k == 483548047285984991689 {
        Some(ConvertOp::I32WrapI64)
    } else if k == 1613070165567766374181051209 {
        Some(ConvertOp::I64ExtendI32S)
    } else if k == 1651755791795434507771648841 {
        Some(ConvertOp::I64ExtendI32U)
    } else if k == 12602110451762991874218441 {
        Some(ConvertOp::I32TruncF32S)
    } else if k == 12904341906666649167894985 {
        Some(ConvertOp::I32TruncF32U)
    } else if k == 12604499305120537261152713 {
        Some(ConvertOp::I32TruncF64S)
    } else if k == 12906730760024194554829257 {
        Some(ConvertOp::I32TruncF64U)
    } else if k == 12602110451762991874251593 {
        Some(ConvertOp::I64TruncF32S)
    } else if k == 12904341906666649167928137 {
        Some(ConvertOp::I64TruncF32U)
    } else if k == 12604499305120537261185865 {
        Some(ConvertOp::I64TruncF64S)
    } else if k == 12906730760024194554862409 {
        Some(ConvertOp::I64TruncF64U)
    } else if k == 206472981340536287324803996102 {
        Some(ConvertOp::F32ConvertI32S)
    } else if k == 211424741497677808424400492998 {
        Some(ConvertOp::F32ConvertI32U)
    } else if k == 206512120313946310944335108550 {
        Some(ConvertOp::F32ConvertI64S)
    } else if k == 211463880471087832043931605446 {
        Some(ConvertOp::F32ConvertI64U)
    } else if k == 206472981340536287324804029254 {
        Some(ConvertOp::F64ConvertI32S)
    } else if k == 211424741497677808424400526150 {
        Some(ConvertOp::F64ConvertI32U)
    } else if k == 206512120313946310944335141702 {
        Some(ConvertOp::F64ConvertI64S)
    } else if k == 211463880471087832043931638598 {
        Some(ConvertOp::F64ConvertI64U)
    } else if k == 7922422754667557737503174 {
        Some(ConvertOp::F32DemoteF64)
    } else if k == 974931139187424126877637446 {
        Some(ConvertOp::F64PromoteF32)
    } else if k == 261706121764891562528805781171378633 {
        Some(ConvertOp::I32ReinterpretF32)
    } else if k == 272212409939583127808410457337568073 {
        Some(ConvertOp::I64ReinterpretF64)
    } else if k == 261707072502841733700856903698782662 {
        Some(ConvertOp::F32ReinterpretI32)
    } else if k == 272213360677533298980461579864972102 {
        Some(ConvertOp::F64ReinterpretI64)
    } else if k == 98512881485728459823561 {
        Some(ConvertOp::I32Extend8S)
    } else if k == 12606816539382443236170185 {
        Some(ConvertOp::I32Extend16S)
    } else if k == 98512881485728459856713 {
        Some(ConvertOp::I64Extend8S)
    } else if k == 12606816539382443236203337 {
        Some(ConvertOp::I64Extend16S)
    } else if k == 12602112619643647300541257 {
        Some(ConvertOp::I64Extend32S)
    } else if k == 26428541158083357364939488270793 {
        Some(ConvertOp::I32TruncSatF32S)
    } else if k == 27062366458197472065687839873481 {
        Some(ConvertOp::I32TruncSatF32U)
    } else if k == 26433550946679840388239470664137 {
        Some(ConvertOp::I32TruncSatF64S)
    } else if k == 27067376246793955088987822266825 {
        Some(ConvertOp::I32TruncSatF64U)
    } else if k == 26428541158083357364939488303945 {
        Some(ConvertOp::I64TruncSatF32S)
    } else if k == 27062366458197472065687839906633 {
        Some(ConvertOp::I64TruncSatF32U)
    } else if k == 26433550946679840388239470697289 {
        Some(ConvertOp::I64TruncSatF64S)
    } else if k == 27067376246793955088987822299977 {
        Some(ConvertOp::I64TruncSatF64U)
    } else {
        None
    }
}

proof fn lemma_convert_op_name_code(op: ConvertOp)
    ensures
        convert_op_of_code(ascii_code(convert_op_name(op), 0)) == Some(op),
{
    reveal_with_fuel(ascii_code, 20);
    match op {
        ConvertOp::I32WrapI64 => {
            reveal_strlit("I32WrapI64");
            assert(ascii_code(convert_op_name(op), 0) == 483548047285984991689);
        },
        ConvertOp::I64ExtendI32S => {
            reveal_strlit("I64ExtendI32S");
            assert(ascii_code(convert_op_name(op), 0) == 1613070165567766374181051209);
        },
        ConvertOp::I64ExtendI32U => {
            reveal_strlit("I64ExtendI32U");
            assert(ascii_code(convert_op_name(op), 0) == 1651755791795434507771648841);
        },
        ConvertOp::I32TruncF32S => {
            reveal_strlit("I32TruncF32S");
            assert(ascii_code(convert_op_name(op), 0) == 12602110451762991874218441);
        },
        ConvertOp::I32TruncF32U => {
            reveal_strlit("I32TruncF32U");
            assert(ascii_code(convert_op_name(op), 0) == 12904341906666649167894985);
        },
        ConvertOp::I32TruncF64S => {
            reveal_strlit("I32TruncF64S");
            assert(ascii_code(convert_op_name(op), 0) == 12604499305120537261152713);
        },
        ConvertOp::I32TruncF64U => {
            reveal_strlit("I32TruncF64U");
            assert(ascii_code(convert_op_name(op), 0) == 12906730760024194554829257);
        },
        ConvertOp::I64TruncF32S => {
            reveal_strlit("I64TruncF32S");
            assert(ascii_code(convert_op_name(op), 0) == 12602110451762991874251593);
        },
        ConvertOp::I64TruncF32U => {
            reveal_strlit("I64TruncF32U");
            assert(ascii_code(convert_op_name(op), 0) == 12904341906666649167928137);
        },
        ConvertOp::I64TruncF64S => {
            reveal_strlit("I64TruncF64S");
            assert(ascii_code(convert_op_name(op), 0) == 12604499305120537261185865);
        },
        ConvertOp::I64TruncF64U => {
            reveal_strlit("I64TruncF64U");
            assert(ascii_code(convert_op_name(op), 0) == 12906730760024194554862409);
        },
        ConvertOp::F32ConvertI32S => {
            reveal_strlit("F32ConvertI32S");
            assert(ascii_code(convert_op_name(op), 0) == 206472981340536287324803996102);
        },
        ConvertOp::F32ConvertI32U => {
            reveal_strlit("F32ConvertI32U");
            assert(ascii_code(convert_op_name(op), 0) == 211424741497677808424400492998);
        },
        ConvertOp::F32ConvertI64S => {
            reveal_strlit("F32ConvertI64S");
            assert(ascii_code(convert_op_name(op), 0) == 206512120313946310944335108550);
        },
        ConvertOp::F32ConvertI64U => {
            reveal_strlit("F32ConvertI64U");
            assert(ascii_code(convert_op_name(op), 0) == 211463880471087832043931605446);
        },
        ConvertOp::F64ConvertI32S => {
            reveal_strlit("F64ConvertI32S");
            assert(ascii_code(convert_op_name(op), 0) == 206472981340536287324804029254);
        },
        ConvertOp::F64ConvertI32U => {
            reveal_strlit("F64ConvertI32U");
            assert(ascii_code(convert_op_name(op), 0) == 211424741497677808424400526150);
        },
        ConvertOp::F64ConvertI64S => {
            reveal_strlit("F64ConvertI64S");
            assert(ascii_code(convert_op_name(op), 0) == 206512120313946310944335141702);
        },
        ConvertOp::F64ConvertI64U => {
            reveal_strlit("F64ConvertI64U");
            assert(ascii_code(convert_op_name(op), 0) == 211463880471087832043931638598);
        },
        ConvertOp::F32DemoteF64 => {
            reveal_strlit("F32DemoteF64");
            assert(ascii_code(convert_op_name(op), 0) == 7922422754667557737503174);
        },
        ConvertOp::F64PromoteF32 => {
            reveal_strlit("F64PromoteF32");
            assert(ascii_code(convert_op_name(op), 0) == 974931139187424126877637446);
        },
        ConvertOp::I32ReinterpretF32 => {
            reveal_strlit("I32ReinterpretF32");
            assert(ascii_code(convert_op_name(op), 0) == 261706121764891562528805781171378633);
        },
        ConvertOp::I64ReinterpretF64 => {
            reveal_strlit("I64ReinterpretF64");
            assert(ascii_code(convert_op_name(op), 0) == 272212409939583127808410457337568073);
        },
        ConvertOp::F32ReinterpretI32 => {
            reveal_strlit("F32ReinterpretI32");
            assert(ascii_code(convert_op_name(op), 0) == 261707072502841733700856903698782662);
        },
        ConvertOp::F64ReinterpretI64 => {
            reveal_strlit("F64ReinterpretI64");
            assert(ascii_code(convert_op_name(op), 0) == 272213360677533298980461579864972102);
        },
        ConvertOp::I32Extend8S => {
            reveal_strlit("I32Extend8S");
            assert(ascii_code(convert_op_name(op), 0) == 98512881485728459823561);
        },
        ConvertOp::I32Extend16S => {
            reveal_strlit("I32Extend16S");
            assert(ascii_code(convert_op_name(op), 0) == 12606816539382443236170185);
        },
        ConvertOp::I64Extend8S => {
            reveal_strlit("I64Extend8S");
            assert(ascii_code(convert_op_name(op), 0) == 98512881485728459856713);
        },
        ConvertOp::I64Extend16S => {
            reveal_strlit("I64Extend16S");
            assert(ascii_code(convert_op_name(op), 0) == 12606816539382443236203337);
        },
        ConvertOp::I64Extend32S => {
            reveal_strlit("I64Extend32S");
            assert(ascii_code(convert_op_name(op), 0) == 12602112619643647300541257);
        },
        ConvertOp::I32TruncSatF32S => {
            reveal_strlit("I32TruncSatF32S");
            assert(ascii_code(convert_op_name(op), 0) == 26428541158083357364939488270793);
        },
        ConvertOp::I32TruncSatF32U => {
            reveal_strlit("I32TruncSatF32U");
            assert(ascii_code(convert_op_name(op), 0) == 27062366458197472065687839873481);
        },
        ConvertOp::I32TruncSatF64S => {
            reveal_strlit("I32TruncSatF64S");
            assert(ascii_code(convert_op_name(op), 0) == 26433550946679840388239470664137);
        },
        ConvertOp::I32TruncSatF64U => {
            reveal_strlit("I32TruncSatF64U");
            assert(ascii_code(convert_op_name(op), 0) == 27067376246793955088987822266825);
        },
        ConvertOp::I64TruncSatF32S => {
            reveal_strlit("I64TruncSatF32S");
            assert(ascii_code(convert_op_name(op), 0) == 26428541158083357364939488303945);
        },
        ConvertOp::I64TruncSatF32U => {
            reveal_strlit("I64TruncSatF32U");
            assert(ascii_code(convert_op_name(op), 0) == 27062366458197472065687839906633);
        },
        ConvertOp::I64TruncSatF64S => {
            reveal_strlit("I64TruncSatF64S");
            assert(ascii_code(convert_op_name(op), 0) == 26433550946679840388239470697289);
        },
        ConvertOp::I64TruncSatF64U => {
            reveal_strlit("I64TruncSatF64U");
            assert(ascii_code(convert_op_name(op), 0) == 27067376246793955088987822299977);
        },
    }
}

/// Law: distinct `ConvertOp` values have distinct names.
pub proof fn lemma_convert_op_names_distinct(a: ConvertOp, b: ConvertOp)
    requires
        convert_op_name(a) == convert_op_name(b),
    ensures
        a == b,
{
    lemma_convert_op_name_code(a);
    lemma_convert_op_name_code(b);
}

} // verus!
