//! Instruction decoding: the length of each instruction is read by
//! `wasmparser`; the kind and the immediates are read from the opcode.
use vstd::prelude::*;
use vstd::arithmetic::power2::pow2;

verus! {

/// What an instruction does, as far as the analyses care.
#[derive(Debug, Clone, Copy, PartialEq, Eq, Structural)]
pub enum InstrKind {
    Normal,
    Block,
    Loop,
    If,
    Else,
    End,
    Branch,
    CondBranch,
    BrTable,
    Return,
    Call,
    Unreachable,
    /// Constants
    Const,
    /// Local/Global variable access
    LocalGet,
    LocalSet,
    LocalTee,
    GlobalGet,
    GlobalSet,
    /// Stack manipulation
    Drop,
    Select,
    /// Memory operations
    Load,
    Store,
    /// Arithmetic (binary: pop 2, push 1)
    BinOp,
    /// Unary (pop 1, push 1)
    UnaryOp,
    /// Comparison (pop 2, push 1 i32)
    Compare,
    /// Test (pop 1, push 1 i32) - like eqz
    Test,
    Nop,
    /// Bulk memory operations
    MemoryFill,
    MemoryCopy,
    /// Table operations
    TableGet,
    TableSet,
}

impl Default for InstrKind {
    fn default() -> (r: InstrKind)
        ensures
            r == InstrKind::Normal,
    {
        InstrKind::Normal
    }
}

/// How the immediates of an opcode are laid out.
#[derive(Debug, Clone, Copy, PartialEq, Eq, Structural)]
pub enum Imm {
    Nothing,
    BlockType,
    Index,
    Indexes,
    I32,
    I64,
    F32,
    F64,
    MemArg,
    BrTable,
}

/// The type of a structured block.
#[derive(Debug, Clone, Copy, PartialEq, Eq, Structural)]
pub enum BlockTypeOperand {
    /// No parameters, no results
    Empty,
    /// One result, of the value type with this encoding byte
    Value(u8),
    /// The type with this index
    FuncType(u32),
}

/// Immediate operands of an instruction.  Float constants are held by their bit patterns.
#[derive(Debug)]
pub enum Operands {
    Nothing,
    BlockType(BlockTypeOperand),
    Index(u32),
    Indexes(u32, u32),
    I32(i32),
    I64(i64),
    F32(u32),
    F64(u64),
    MemArg { align: u32, offset: u64 },
    BrTable { labels: Vec<u32>, default: u32 },
}

/// The value of the operands of an instruction.
pub enum OperandsV {
    Nothing,
    BlockType(BlockTypeOperand),
    Index(u32),
    Indexes(u32, u32),
    I32(i32),
    I64(i64),
    F32(u32),
    F64(u64),
    MemArg { align: u32, offset: u64 },
    BrTable { labels: Seq<u32>, default: u32 },
}

impl View for Operands {
    type V = OperandsV;

    open spec fn view(&self) -> OperandsV {
        match self {
            Operands::Nothing => OperandsV::Nothing,
            Operands::BlockType(b) => OperandsV::BlockType(*b),
            Operands::Index(i) => OperandsV::Index(*i),
            Operands::Indexes(a, b) => OperandsV::Indexes(*a, *b),
            Operands::I32(v) => OperandsV::I32(*v),
            Operands::I64(v) => OperandsV::I64(*v),
            Operands::F32(v) => OperandsV::F32(*v),
            Operands::F64(v) => OperandsV::F64(*v),
            Operands::MemArg { align, offset } => OperandsV::MemArg { align: *align, offset: *offset },
            Operands::BrTable { labels, default } => OperandsV::BrTable { labels: labels@, default: *default },
        }
    }
}

/// A decoded instruction.
#[derive(Debug)]
pub struct Instruction {
    /// Length in bytes
    pub len: usize,
    /// Mnemonic
    pub name: &'static str,
    pub kind: InstrKind,
    pub operands: Operands,
}

/// The length, kind and operands of a decoded instruction.
pub struct InstructionV {
    pub len: usize,
    /// The mnemonic
    pub name: &'static str,
    pub kind: InstrKind,
    pub operands: OperandsV,
}

impl View for Instruction {
    type V = InstructionV;

    open spec fn view(&self) -> InstructionV {
        InstructionV { len: self.len, name: self.name, kind: self.kind, operands: self.operands@ }
    }
}

/// What an operator carries, as far as constant expressions are read.
#[derive(Debug, Clone, Copy, PartialEq, Eq, Structural)]
pub enum ConstOperand {
    I32(i32),
    I64(i64),
    /// An `f32.const`, by its bits.
    F32(u32),
    /// An `f64.const`, by its bits.
    F64(u64),
    GlobalGet(u32),
    RefFunc(u32),
    End,
    Other,
}

/// The operator at `pos`, as `wasmparser` reads it, and the position after it.
pub uninterp spec fn wasm_operator(data: Seq<u8>, pos: usize) -> Option<(ConstOperand, usize)>;

/// The position after the operator at `pos`.
pub open spec fn wasm_operator_end(data: Seq<u8>, pos: usize) -> Option<usize> {
    match wasm_operator(data, pos) {
        Some((_, n)) => Some(n),
        None => None,
    }
}

/// The unsigned LEB128 number at `pos` of at most `n` bytes, whose byte, where
/// it is the `n`-th, is below `top`: its value and its length in bytes.
pub open spec fn uleb(data: Seq<u8>, pos: int, n: nat, top: nat) -> Option<(nat, nat)>
    decreases n,
{
    if pos < 0 || pos >= data.len() || n == 0 {
        None
    } else if n == 1 {
        if data[pos] < top { Some((data[pos] as nat, 1nat)) } else { None }
    } else if data[pos] < 128 {
        Some((data[pos] as nat, 1nat))
    } else {
        match uleb(data, pos + 1, (n - 1) as nat, top) {
            Some(r) => Some((((data[pos] - 128) + 128 * r.0) as nat, r.1 + 1)),
            None => None,
        }
    }
}

/// An unsigned 32-bit LEB128 read at `pos`, and the position after it: at
/// most five bytes, the fifth below 16.
pub open spec fn wasm_var_u32(data: Seq<u8>, pos: usize) -> Option<(u32, usize)> {
    match uleb(data, pos as int, 5, 16) {
        Some(r) => Some((r.0 as u32, (pos + r.1) as usize)),
        None => None,
    }
}

/// An unsigned 64-bit LEB128 read at `pos`, and the position after it: at
/// most ten bytes, the tenth below 2.
pub open spec fn wasm_var_u64(data: Seq<u8>, pos: usize) -> Option<(u64, usize)> {
    match uleb(data, pos as int, 10, 2) {
        Some(r) => Some((r.0 as u64, (pos + r.1) as usize)),
        None => None,
    }
}

/// The LEB128 digits at `pos` of at most `n` bytes, whose byte, where it is
/// the `n`-th, is below `m` or at least `128 - m` and below 128 (its unused
/// bits copy the sign): the unsigned number they make and their length.
pub open spec fn sleb_digits(data: Seq<u8>, pos: int, n: nat, m: nat) -> Option<(nat, nat)>
    decreases n,
{
    if pos < 0 || pos >= data.len() || n == 0 {
        None
    } else if n == 1 {
        if data[pos] < m || (128 - m <= data[pos] && data[pos] < 128) { Some((data[pos] as nat, 1nat)) } else { None }
    } else if data[pos] < 128 {
        Some((data[pos] as nat, 1nat))
    } else {
        match sleb_digits(data, pos + 1, (n - 1) as nat, m) {
            Some(r) => Some((((data[pos] - 128) + 128 * r.0) as nat, r.1 + 1)),
            None => None,
        }
    }
}

/// The number that `k` LEB128 bytes with digits `v` stand for, read as
/// signed: its top bit is the sign.
pub open spec fn signed_digits(v: nat, k: nat) -> int {
    if v >= pow2((7 * k - 1) as nat) { v - pow2(7 * k) } else { v as int }
}

/// A signed 32-bit LEB128 read at `pos`, and the position after it: at most
/// five bytes, the fifth's unused bits copying the sign.
pub open spec fn wasm_var_i32(data: Seq<u8>, pos: usize) -> Option<(i32, usize)> {
    match sleb_digits(data, pos as int, 5, 8) {
        Some(r) => Some((signed_digits(r.0, r.1) as i32, (pos + r.1) as usize)),
        None => None,
    }
}

/// A signed 64-bit LEB128 read at `pos`, and the position after it: at most
/// ten bytes, the tenth's unused bits copying the sign.
pub open spec fn wasm_var_i64(data: Seq<u8>, pos: usize) -> Option<(i64, usize)> {
    match sleb_digits(data, pos as int, 10, 1) {
        Some(r) => Some((signed_digits(r.0, r.1) as i64, (pos + r.1) as usize)),
        None => None,
    }
}

/// A signed 33-bit LEB128 read at `pos`, and the position after it: at most
/// five bytes, the fifth's unused bits copying the sign.
pub open spec fn wasm_var_s33(data: Seq<u8>, pos: usize) -> Option<(i64, usize)> {
    match sleb_digits(data, pos as int, 5, 16) {
        Some(r) => Some((signed_digits(r.0, r.1) as i64, (pos + r.1) as usize)),
        None => None,
    }
}

/// The little-endian number in the `k` bytes at `pos`.
pub open spec fn le_bytes(data: Seq<u8>, pos: int, k: nat) -> nat
    decreases k,
{
    if k == 0 { 0 } else { data[pos] as nat + 256 * le_bytes(data, pos + 1, (k - 1) as nat) }
}

/// The bits of an `f32` read at `pos`: four bytes, little-endian.
pub open spec fn wasm_f32_bits(data: Seq<u8>, pos: usize) -> Option<u32> {
    if pos + 4 <= data.len() { Some(le_bytes(data, pos as int, 4) as u32) } else { None }
}

/// The bits of an `f64` read at `pos`: eight bytes, little-endian.
pub open spec fn wasm_f64_bits(data: Seq<u8>, pos: usize) -> Option<u64> {
    if pos + 8 <= data.len() { Some(le_bytes(data, pos as int, 8) as u64) } else { None }
}

/// The operator at `pos`: `wasmparser`'s `OperatorsReader::read` on a fresh
/// reader over the bytes from `pos` on, what it carries if it is one that
/// constant expressions use, and the position it stops at. An operator takes
/// at least its opcode byte and lies within `data`.
#[verifier::external_body]
pub(crate) fn read_operator_at(data: &[u8], pos: usize) -> (r: Option<(ConstOperand, usize)>)
    requires
        pos <= data@.len(),
    ensures
        r == wasm_operator(data@, pos),
        r matches Some((_, n)) ==> pos < n <= data@.len(),
{
    let mut reader = wasmparser::OperatorsReader::new(wasmparser::BinaryReader::new(&data[pos..], pos as u64));
    let op = match reader.read().ok()? {
        wasmparser::Operator::I32Const { value } => ConstOperand::I32(value),
        wasmparser::Operator::I64Const { value } => ConstOperand::I64(value),
        wasmparser::Operator::F32Const { value } => ConstOperand::F32(value.bits()),
        wasmparser::Operator::F64Const { value } => ConstOperand::F64(value.bits()),
        wasmparser::Operator::GlobalGet { global_index } => ConstOperand::GlobalGet(global_index),
        wasmparser::Operator::RefFunc { function_index } => ConstOperand::RefFunc(function_index),
        wasmparser::Operator::End => ConstOperand::End,
        _ => ConstOperand::Other,
    };
    Some((op, reader.original_position() as usize))
}

/// `wasmparser`'s `BinaryReader::read_var_u32` at `pos`; a read takes at
/// least one byte and stays within `data`.
#[verifier::external_body]
pub(crate) fn read_var_u32_at(data: &[u8], pos: usize) -> (r: Option<(u32, usize)>)
    requires
        pos <= data@.len(),
    ensures
        r == wasm_var_u32(data@, pos),
        r matches Some((_, p)) ==> pos < p <= data@.len(),
{
    let mut reader = wasmparser::BinaryReader::new(&data[pos..], pos as u64);
    match reader.read_var_u32() {
        Ok(v) => Some((v, reader.original_position() as usize)),
        Err(_) => None,
    }
}

/// `wasmparser`'s `BinaryReader::read_var_u64` at `pos`; a read takes at
/// least one byte and stays within `data`.
#[verifier::external_body]
fn read_var_u64_at(data: &[u8], pos: usize) -> (r: Option<(u64, usize)>)
    requires
        pos <= data@.len(),
    ensures
        r == wasm_var_u64(data@, pos),
        r matches Some((_, p)) ==> pos < p <= data@.len(),
{
    let mut reader = wasmparser::BinaryReader::new(&data[pos..], pos as u64);
    match reader.read_var_u64() {
        Ok(v) => Some((v, reader.original_position() as usize)),
        Err(_) => None,
    }
}

/// `wasmparser`'s `BinaryReader::read_var_i32` at `pos`.
#[verifier::external_body]
fn read_var_i32_at(data: &[u8], pos: usize) -> (r: Option<(i32, usize)>)
    requires
        pos <= data@.len(),
    ensures
        r == wasm_var_i32(data@, pos),
{
    let mut reader = wasmparser::BinaryReader::new(&data[pos..], pos as u64);
    match reader.read_var_i32() {
        Ok(v) => Some((v, reader.original_position() as usize)),
        Err(_) => None,
    }
}

/// `wasmparser`'s `BinaryReader::read_var_i64` at `pos`.
#[verifier::external_body]
fn read_var_i64_at(data: &[u8], pos: usize) -> (r: Option<(i64, usize)>)
    requires
        pos <= data@.len(),
    ensures
        r == wasm_var_i64(data@, pos),
{
    let mut reader = wasmparser::BinaryReader::new(&data[pos..], pos as u64);
    match reader.read_var_i64() {
        Ok(v) => Some((v, reader.original_position() as usize)),
        Err(_) => None,
    }
}

/// `wasmparser`'s `BinaryReader::read_var_s33` at `pos`.
#[verifier::external_body]
fn read_var_s33_at(data: &[u8], pos: usize) -> (r: Option<(i64, usize)>)
    requires
        pos <= data@.len(),
    ensures
        r == wasm_var_s33(data@, pos),
{
    let mut reader = wasmparser::BinaryReader::new(&data[pos..], pos as u64);
    match reader.read_var_s33() {
        Ok(v) => Some((v, reader.original_position() as usize)),
        Err(_) => None,
    }
}

/// The bits of `wasmparser`'s `BinaryReader::read_f32` at `pos`.
#[verifier::external_body]
fn read_f32_bits_at(data: &[u8], pos: usize) -> (r: Option<u32>)
    requires
        pos <= data@.len(),
    ensures
        r == wasm_f32_bits(data@, pos),
{
    let mut reader = wasmparser::BinaryReader::new(&data[pos..], pos as u64);
    match reader.read_f32() {
        Ok(v) => Some(v.bits()),
        Err(_) => None,
    }
}

/// The bits of `wasmparser`'s `BinaryReader::read_f64` at `pos`.
#[verifier::external_body]
fn read_f64_bits_at(data: &[u8], pos: usize) -> (r: Option<u64>)
    requires
        pos <= data@.len(),
    ensures
        r == wasm_f64_bits(data@, pos),
{
    let mut reader = wasmparser::BinaryReader::new(&data[pos..], pos as u64);
    match reader.read_f64() {
        Ok(v) => Some(v.bits()),
        Err(_) => None,
    }
}

pub open spec fn opcode_kind(op: u8) -> InstrKind {
    if op == 0x00 {
        InstrKind::Unreachable
    } else if op == 0x01 {
        InstrKind::Nop
    } else if op == 0x02 {
        InstrKind::Block
    } else if op == 0x03 {
        InstrKind::Loop
    } else if op == 0x04 {
        InstrKind::If
    } else if op == 0x05 {
        InstrKind::Else
    } else if op == 0x0b {
        InstrKind::End
    } else if op == 0x0c {
        InstrKind::Branch
    } else if op == 0x0d {
        InstrKind::CondBranch
    } else if op == 0x0e {
        InstrKind::BrTable
    } else if op == 0x0f {
        InstrKind::Return
    } else if 0x10 <= op <= 0x11 {
        InstrKind::Call
    } else if op == 0x1a {
        InstrKind::Drop
    } else if 0x1b <= op <= 0x1c {
        InstrKind::Select
    } else if op == 0x20 {
        InstrKind::LocalGet
    } else if op == 0x21 {
        InstrKind::LocalSet
    } else if op == 0x22 {
        InstrKind::LocalTee
    } else if op == 0x23 {
        InstrKind::GlobalGet
    } else if op == 0x24 {
        InstrKind::GlobalSet
    } else if op == 0x25 {
        InstrKind::TableGet
    } else if op == 0x26 {
        InstrKind::TableSet
    } else if 0x28 <= op <= 0x35 {
        InstrKind::Load
    } else if 0x36 <= op <= 0x3e {
        InstrKind::Store
    } else if 0x41 <= op <= 0x44 {
        InstrKind::Const
    } else if op == 0x45 || op == 0x50 {
        InstrKind::Test
    } else if 0x46 <= op <= 0x4f || 0x51 <= op <= 0x66 {
        InstrKind::Compare
    } else if 0x67 <= op <= 0x69 || 0x79 <= op <= 0x7b || 0x8b <= op <= 0x91 || 0x99 <= op <= 0x9f || 0xa7 <= op <= 0xc4 {
        InstrKind::UnaryOp
    } else if 0x6a <= op <= 0x78 || 0x7c <= op <= 0x8a || 0x92 <= op <= 0x98 || 0xa0 <= op <= 0xa6 {
        InstrKind::BinOp
    } else {
        InstrKind::Normal
    }
}

pub open spec fn opcode_imm(op: u8) -> Imm {
    if 0x02 <= op <= 0x04 {
        Imm::BlockType
    } else if 0x0c <= op <= 0x0d || op == 0x10 || 0x20 <= op <= 0x26 || 0x3f <= op <= 0x40 || op == 0xd2 {
        Imm::Index
    } else if op == 0x0e {
        Imm::BrTable
    } else if op == 0x11 {
        Imm::Indexes
    } else if 0x28 <= op <= 0x3e {
        Imm::MemArg
    } else if op == 0x41 {
        Imm::I32
    } else if op == 0x42 {
        Imm::I64
    } else if op == 0x43 {
        Imm::F32
    } else if op == 0x44 {
        Imm::F64
    } else {
        Imm::Nothing
    }
}

pub open spec fn prefixed_kind(op: u32) -> InstrKind {
    if 0x00 <= op <= 0x07 {
        InstrKind::UnaryOp
    } else if op == 0x0a {
        InstrKind::MemoryCopy
    } else if op == 0x0b {
        InstrKind::MemoryFill
    } else {
        InstrKind::Normal
    }
}

pub open spec fn prefixed_imm(op: u32) -> Imm {
    if op == 0x08 || op == 0x0a || op == 0x0c || op == 0x0e {
        Imm::Indexes
    } else if op == 0x09 || op == 0x0b || op == 0x0d || 0x0f <= op <= 0x11 {
        Imm::Index
    } else {
        Imm::Nothing
    }
}

/// The mnemonic of a one-byte opcode.
pub open spec fn opcode_name(op: u8) -> &'static str {
    match op {
        0x00 => "unreachable",
        0x01 => "nop",
        0x02 => "block",
        0x03 => "loop",
        0x04 => "if",
        0x05 => "else",
        0x0b => "end",
        0x0c => "br",
        0x0d => "br_if",
        0x0e => "br_table",
        0x0f => "return",
        0x10 => "call",
        0x11 => "call_indirect",
        0x1a => "drop",
        0x1b => "select",
        0x1c => "select",
        0x20 => "local.get",
        0x21 => "local.set",
        0x22 => "local.tee",
        0x23 => "global.get",
        0x24 => "global.set",
        0x25 => "table.get",
        0x26 => "table.set",
        0x28 => "i32.load",
        0x29 => "i64.load",
        0x2a => "f32.load",
        0x2b => "f64.load",
        0x2c => "i32.load8_s",
        0x2d => "i32.load8_u",
        0x2e => "i32.load16_s",
        0x2f => "i32.load16_u",
        0x30 => "i64.load8_s",
        0x31 => "i64.load8_u",
        0x32 => "i64.load16_s",
        0x33 => "i64.load16_u",
        0x34 => "i64.load32_s",
        0x35 => "i64.load32_u",
        0x36 => "i32.store",
        0x37 => "i64.store",
        0x38 => "f32.store",
        0x39 => "f64.store",
        0x3a => "i32.store8",
        0x3b => "i32.store16",
        0x3c => "i64.store8",
        0x3d => "i64.store16",
        0x3e => "i64.store32",
        0x3f => "memory.size",
        0x40 => "memory.grow",
        0x41 => "i32.const",
        0x42 => "i64.const",
        0x43 => "f32.const",
        0x44 => "f64.const",
        0x45 => "i32.eqz",
        0x46 => "i32.eq",
        0x47 => "i32.ne",
        0x48 => "i32.lt_s",
        0x49 => "i32.lt_u",
        0x4a => "i32.gt_s",
        0x4b => "i32.gt_u",
        0x4c => "i32.le_s",
        0x4d => "i32.le_u",
        0x4e => "i32.ge_s",
        0x4f => "i32.ge_u",
        0x50 => "i64.eqz",
        0x51 => "i64.eq",
        0x52 => "i64.ne",
        0x53 => "i64.lt_s",
        0x54 => "i64.lt_u",
        0x55 => "i64.gt_s",
        0x56 => "i64.gt_u",
        0x57 => "i64.le_s",
        0x58 => "i64.le_u",
        0x59 => "i64.ge_s",
        0x5a => "i64.ge_u",
        0x5b => "f32.eq",
        0x5c => "f32.ne",
        0x5d => "f32.lt",
        0x5e => "f32.gt",
        0x5f => "f32.le",
        0x60 => "f32.ge",
        0x61 => "f64.eq",
        0x62 => "f64.ne",
        0x63 => "f64.lt",
        0x64 => "f64.gt",
        0x65 => "f64.le",
        0x66 => "f64.ge",
        0x67 => "i32.clz",
        0x68 => "i32.ctz",
        0x69 => "i32.popcnt",
        0x6a => "i32.add",
        0x6b => "i32.sub",
        0x6c => "i32.mul",
        0x6d => "i32.div_s",
        0x6e => "i32.div_u",
        0x6f => "i32.rem_s",
        0x70 => "i32.rem_u",
        0x71 => "i32.and",
        0x72 => "i32.or",
        0x73 => "i32.xor",
        0x74 => "i32.shl",
        0x75 => "i32.shr_s",
        0x76 => "i32.shr_u",
        0x77 => "i32.rotl",
        0x78 => "i32.rotr",
        0x79 => "i64.clz",
        0x7a => "i64.ctz",
        0x7b => "i64.popcnt",
        0x7c => "i64.add",
        0x7d => "i64.sub",
        0x7e => "i64.mul",
        0x7f => "i64.div_s",
        0x80 => "i64.div_u",
        0x81 => "i64.rem_s",
        0x82 => "i64.rem_u",
        0x83 => "i64.and",
        0x84 => "i64.or",
        0x85 => "i64.xor",
        0x86 => "i64.shl",
        0x87 => "i64.shr_s",
        0x88 => "i64.shr_u",
        0x89 => "i64.rotl",
        0x8a => "i64.rotr",
        0x8b => "f32.abs",
        0x8c => "f32.neg",
        0x8d => "f32.ceil",
        0x8e => "f32.floor",
        0x8f => "f32.trunc",
        0x90 => "f32.nearest",
        0x91 => "f32.sqrt",
        0x92 => "f32.add",
        0x93 => "f32.sub",
        0x94 => "f32.mul",
        0x95 => "f32.div",
        0x96 => "f32.min",
        0x97 => "f32.max",
        0x98 => "f32.copysign",
        0x99 => "f64.abs",
        0x9a => "f64.neg",
        0x9b => "f64.ceil",
        0x9c => "f64.floor",
        0x9d => "f64.trunc",
        0x9e => "f64.nearest",
        0x9f => "f64.sqrt",
        0xa0 => "f64.add",
        0xa1 => "f64.sub",
        0xa2 => "f64.mul",
        0xa3 => "f64.div",
        0xa4 => "f64.min",
        0xa5 => "f64.max",
        0xa6 => "f64.copysign",
        0xa7 => "i32.wrap_i64",
        0xa8 => "i32.trunc_f32_s",
        0xa9 => "i32.trunc_f32_u",
        0xaa => "i32.trunc_f64_s",
        0xab => "i32.trunc_f64_u",
        0xac => "i64.extend_i32_s",
        0xad => "i64.extend_i32_u",
        0xae => "i64.trunc_f32_s",
        0xaf => "i64.trunc_f32_u",
        0xb0 => "i64.trunc_f64_s",
        0xb1 => "i64.trunc_f64_u",
        0xb2 => "f32.convert_i32_s",
        0xb3 => "f32.convert_i32_u",
        0xb4 => "f32.convert_i64_s",
        0xb5 => "f32.convert_i64_u",
        0xb6 => "f32.demote_f64",
        0xb7 => "f64.convert_i32_s",
        0xb8 => "f64.convert_i32_u",
        0xb9 => "f64.convert_i64_s",
        0xba => "f64.convert_i64_u",
        0xbb => "f64.promote_f32",
        0xbc => "i32.reinterpret_f32",
        0xbd => "i64.reinterpret_f64",
        0xbe => "f32.reinterpret_i32",
        0xbf => "f64.reinterpret_i64",
        0xc0 => "i32.extend8_s",
        0xc1 => "i32.extend16_s",
        0xc2 => "i64.extend8_s",
        0xc3 => "i64.extend16_s",
        0xc4 => "i64.extend32_s",
        0xd0 => "ref.null",
        0xd1 => "ref.is_null",
        0xd2 => "ref.func",
        _ => "unknown",
    }
}

/// The mnemonic of an opcode after the `0xfc` prefix.
pub open spec fn prefixed_name(op: u32) -> &'static str {
    match op {
        0x00 => "i32.trunc_sat_f32_s",
        0x01 => "i32.trunc_sat_f32_u",
        0x02 => "i32.trunc_sat_f64_s",
        0x03 => "i32.trunc_sat_f64_u",
        0x04 => "i64.trunc_sat_f32_s",
        0x05 => "i64.trunc_sat_f32_u",
        0x06 => "i64.trunc_sat_f64_s",
        0x07 => "i64.trunc_sat_f64_u",
        0x08 => "memory.init",
        0x09 => "data.drop",
        0x0a => "memory.copy",
        0x0b => "memory.fill",
        0x0c => "table.init",
        0x0d => "elem.drop",
        0x0e => "table.copy",
        0x0f => "table.grow",
        0x10 => "table.size",
        0x11 => "table.fill",
        _ => "unknown",
    }
}

/// Name, kind and immediate layout of a one-byte opcode.
fn opcode_info(op: u8) -> (r: (&'static str, InstrKind, Imm))
    ensures
        r.0 == opcode_name(op),
        r.1 == opcode_kind(op),
        r.2 == opcode_imm(op),
{
    match op {
        0x00 => ("unreachable", InstrKind::Unreachable, Imm::Nothing),
        0x01 => ("nop", InstrKind::Nop, Imm::Nothing),
        0x02 => ("block", InstrKind::Block, Imm::BlockType),
        0x03 => ("loop", InstrKind::Loop, Imm::BlockType),
        0x04 => ("if", InstrKind::If, Imm::BlockType),
        0x05 => ("else", InstrKind::Else, Imm::Nothing),
        0x0b => ("end", InstrKind::End, Imm::Nothing),
        0x0c => ("br", InstrKind::Branch, Imm::Index),
        0x0d => ("br_if", InstrKind::CondBranch, Imm::Index),
        0x0e => ("br_table", InstrKind::BrTable, Imm::BrTable),
        0x0f => ("return", InstrKind::Return, Imm::Nothing),
        0x10 => ("call", InstrKind::Call, Imm::Index),
        0x11 => ("call_indirect", InstrKind::Call, Imm::Indexes),
        0x1a => ("drop", InstrKind::Drop, Imm::Nothing),
        0x1b => ("select", InstrKind::Select, Imm::Nothing),
        0x1c => ("select", InstrKind::Select, Imm::Nothing),
        0x20 => ("local.get", InstrKind::LocalGet, Imm::Index),
        0x21 => ("local.set", InstrKind::LocalSet, Imm::Index),
        0x22 => ("local.tee", InstrKind::LocalTee, Imm::Index),
        0x23 => ("global.get", InstrKind::GlobalGet, Imm::Index),
        0x24 => ("global.set", InstrKind::GlobalSet, Imm::Index),
        0x25 => ("table.get", InstrKind::TableGet, Imm::Index),
        0x26 => ("table.set", InstrKind::TableSet, Imm::Index),
        0x28 => ("i32.load", InstrKind::Load, Imm::MemArg),
        0x29 => ("i64.load", InstrKind::Load, Imm::MemArg),
        0x2a => ("f32.load", InstrKind::Load, Imm::MemArg),
        0x2b => ("f64.load", InstrKind::Load, Imm::MemArg),
        0x2c => ("i32.load8_s", InstrKind::Load, Imm::MemArg),
        0x2d => ("i32.load8_u", InstrKind::Load, Imm::MemArg),
        0x2e => ("i32.load16_s", InstrKind::Load, Imm::MemArg),
        0x2f => ("i32.load16_u", InstrKind::Load, Imm::MemArg),
        0x30 => ("i64.load8_s", InstrKind::Load, Imm::MemArg),
        0x31 => ("i64.load8_u", InstrKind::Load, Imm::MemArg),
        0x32 => ("i64.load16_s", InstrKind::Load, Imm::MemArg),
        0x33 => ("i64.load16_u", InstrKind::Load, Imm::MemArg),
        0x34 => ("i64.load32_s", InstrKind::Load, Imm::MemArg),
        0x35 => ("i64.load32_u", InstrKind::Load, Imm::MemArg),
        0x36 => ("i32.store", InstrKind::Store, Imm::MemArg),
        0x37 => ("i64.store", InstrKind::Store, Imm::MemArg),
        0x38 => ("f32.store", InstrKind::Store, Imm::MemArg),
        0x39 => ("f64.store", InstrKind::Store, Imm::MemArg),
        0x3a => ("i32.store8", InstrKind::Store, Imm::MemArg),
        0x3b => ("i32.store16", InstrKind::Store, Imm::MemArg),
        0x3c => ("i64.store8", InstrKind::Store, Imm::MemArg),
        0x3d => ("i64.store16", InstrKind::Store, Imm::MemArg),
        0x3e => ("i64.store32", InstrKind::Store, Imm::MemArg),
        0x3f => ("memory.size", InstrKind::Normal, Imm::Index),
        0x40 => ("memory.grow", InstrKind::Normal, Imm::Index),
        0x41 => ("i32.const", InstrKind::Const, Imm::I32),
        0x42 => ("i64.const", InstrKind::Const, Imm::I64),
        0x43 => ("f32.const", InstrKind::Const, Imm::F32),
        0x44 => ("f64.const", InstrKind::Const, Imm::F64),
        0x45 => ("i32.eqz", InstrKind::Test, Imm::Nothing),
        0x46 => ("i32.eq", InstrKind::Compare, Imm::Nothing),
        0x47 => ("i32.ne", InstrKind::Compare, Imm::Nothing),
        0x48 => ("i32.lt_s", InstrKind::Compare, Imm::Nothing),
        0x49 => ("i32.lt_u", InstrKind::Compare, Imm::Nothing),
        0x4a => ("i32.gt_s", InstrKind::Compare, Imm::Nothing),
        0x4b => ("i32.gt_u", InstrKind::Compare, Imm::Nothing),
        0x4c => ("i32.le_s", InstrKind::Compare, Imm::Nothing),
        0x4d => ("i32.le_u", InstrKind::Compare, Imm::Nothing),
        0x4e => ("i32.ge_s", InstrKind::Compare, Imm::Nothing),
        0x4f => ("i32.ge_u", InstrKind::Compare, Imm::Nothing),
        0x50 => ("i64.eqz", InstrKind::Test, Imm::Nothing),
        0x51 => ("i64.eq", InstrKind::Compare, Imm::Nothing),
        0x52 => ("i64.ne", InstrKind::Compare, Imm::Nothing),
        0x53 => ("i64.lt_s", InstrKind::Compare, Imm::Nothing),
        0x54 => ("i64.lt_u", InstrKind::Compare, Imm::Nothing),
        0x55 => ("i64.gt_s", InstrKind::Compare, Imm::Nothing),
        0x56 => ("i64.gt_u", InstrKind::Compare, Imm::Nothing),
        0x57 => ("i64.le_s", InstrKind::Compare, Imm::Nothing),
        0x58 => ("i64.le_u", InstrKind::Compare, Imm::Nothing),
        0x59 => ("i64.ge_s", InstrKind::Compare, Imm::Nothing),
        0x5a => ("i64.ge_u", InstrKind::Compare, Imm::Nothing),
        0x5b => ("f32.eq", InstrKind::Compare, Imm::Nothing),
        0x5c => ("f32.ne", InstrKind::Compare, Imm::Nothing),
        0x5d => ("f32.lt", InstrKind::Compare, Imm::Nothing),
        0x5e => ("f32.gt", InstrKind::Compare, Imm::Nothing),
        0x5f => ("f32.le", InstrKind::Compare, Imm::Nothing),
        0x60 => ("f32.ge", InstrKind::Compare, Imm::Nothing),
        0x61 => ("f64.eq", InstrKind::Compare, Imm::Nothing),
        0x62 => ("f64.ne", InstrKind::Compare, Imm::Nothing),
        0x63 => ("f64.lt", InstrKind::Compare, Imm::Nothing),
        0x64 => ("f64.gt", InstrKind::Compare, Imm::Nothing),
        0x65 => ("f64.le", InstrKind::Compare, Imm::Nothing),
        0x66 => ("f64.ge", InstrKind::Compare, Imm::Nothing),
        0x67 => ("i32.clz", InstrKind::UnaryOp, Imm::Nothing),
        0x68 => ("i32.ctz", InstrKind::UnaryOp, Imm::Nothing),
        0x69 => ("i32.popcnt", InstrKind::UnaryOp, Imm::Nothing),
        0x6a => ("i32.add", InstrKind::BinOp, Imm::Nothing),
        0x6b => ("i32.sub", InstrKind::BinOp, Imm::Nothing),
        0x6c => ("i32.mul", InstrKind::BinOp, Imm::Nothing),
        0x6d => ("i32.div_s", InstrKind::BinOp, Imm::Nothing),
        0x6e => ("i32.div_u", InstrKind::BinOp, Imm::Nothing),
        0x6f => ("i32.rem_s", InstrKind::BinOp, Imm::Nothing),
        0x70 => ("i32.rem_u", InstrKind::BinOp, Imm::Nothing),
        0x71 => ("i32.and", InstrKind::BinOp, Imm::Nothing),
        0x72 => ("i32.or", InstrKind::BinOp, Imm::Nothing),
        0x73 => ("i32.xor", InstrKind::BinOp, Imm::Nothing),
        0x74 => ("i32.shl", InstrKind::BinOp, Imm::Nothing),
        0x75 => ("i32.shr_s", InstrKind::BinOp, Imm::Nothing),
        0x76 => ("i32.shr_u", InstrKind::BinOp, Imm::Nothing),
        0x77 => ("i32.rotl", InstrKind::BinOp, Imm::Nothing),
        0x78 => ("i32.rotr", InstrKind::BinOp, Imm::Nothing),
        0x79 => ("i64.clz", InstrKind::UnaryOp, Imm::Nothing),
        0x7a => ("i64.ctz", InstrKind::UnaryOp, Imm::Nothing),
        0x7b => ("i64.popcnt", InstrKind::UnaryOp, Imm::Nothing),
        0x7c => ("i64.add", InstrKind::BinOp, Imm::Nothing),
        0x7d => ("i64.sub", InstrKind::BinOp, Imm::Nothing),
        0x7e => ("i64.mul", InstrKind::BinOp, Imm::Nothing),
        0x7f => ("i64.div_s", InstrKind::BinOp, Imm::Nothing),
        0x80 => ("i64.div_u", InstrKind::BinOp, Imm::Nothing),
        0x81 => ("i64.rem_s", InstrKind::BinOp, Imm::Nothing),
        0x82 => ("i64.rem_u", InstrKind::BinOp, Imm::Nothing),
        0x83 => ("i64.and", InstrKind::BinOp, Imm::Nothing),
        0x84 => ("i64.or", InstrKind::BinOp, Imm::Nothing),
        0x85 => ("i64.xor", InstrKind::BinOp, Imm::Nothing),
        0x86 => ("i64.shl", InstrKind::BinOp, Imm::Nothing),
        0x87 => ("i64.shr_s", InstrKind::BinOp, Imm::Nothing),
        0x88 => ("i64.shr_u", InstrKind::BinOp, Imm::Nothing),
        0x89 => ("i64.rotl", InstrKind::BinOp, Imm::Nothing),
        0x8a => ("i64.rotr", InstrKind::BinOp, Imm::Nothing),
        0x8b => ("f32.abs", InstrKind::UnaryOp, Imm::Nothing),
        0x8c => ("f32.neg", InstrKind::UnaryOp, Imm::Nothing),
        0x8d => ("f32.ceil", InstrKind::UnaryOp, Imm::Nothing),
        0x8e => ("f32.floor", InstrKind::UnaryOp, Imm::Nothing),
        0x8f => ("f32.trunc", InstrKind::UnaryOp, Imm::Nothing),
        0x90 => ("f32.nearest", InstrKind::UnaryOp, Imm::Nothing),
        0x91 => ("f32.sqrt", InstrKind::UnaryOp, Imm::Nothing),
        0x92 => ("f32.add", InstrKind::BinOp, Imm::Nothing),
        0x93 => ("f32.sub", InstrKind::BinOp, Imm::Nothing),
        0x94 => ("f32.mul", InstrKind::BinOp, Imm::Nothing),
        0x95 => ("f32.div", InstrKind::BinOp, Imm::Nothing),
        0x96 => ("f32.min", InstrKind::BinOp, Imm::Nothing),
        0x97 => ("f32.max", InstrKind::BinOp, Imm::Nothing),
        0x98 => ("f32.copysign", InstrKind::BinOp, Imm::Nothing),
        0x99 => ("f64.abs", InstrKind::UnaryOp, Imm::Nothing),
        0x9a => ("f64.neg", InstrKind::UnaryOp, Imm::Nothing),
        0x9b => ("f64.ceil", InstrKind::UnaryOp, Imm::Nothing),
        0x9c => ("f64.floor", InstrKind::UnaryOp, Imm::Nothing),
        0x9d => ("f64.trunc", InstrKind::UnaryOp, Imm::Nothing),
        0x9e => ("f64.nearest", InstrKind::UnaryOp, Imm::Nothing),
        0x9f => ("f64.sqrt", InstrKind::UnaryOp, Imm::Nothing),
        0xa0 => ("f64.add", InstrKind::BinOp, Imm::Nothing),
        0xa1 => ("f64.sub", InstrKind::BinOp, Imm::Nothing),
        0xa2 => ("f64.mul", InstrKind::BinOp, Imm::Nothing),
        0xa3 => ("f64.div", InstrKind::BinOp, Imm::Nothing),
        0xa4 => ("f64.min", InstrKind::BinOp, Imm::Nothing),
        0xa5 => ("f64.max", InstrKind::BinOp, Imm::Nothing),
        0xa6 => ("f64.copysign", InstrKind::BinOp, Imm::Nothing),
        0xa7 => ("i32.wrap_i64", InstrKind::UnaryOp, Imm::Nothing),
        0xa8 => ("i32.trunc_f32_s", InstrKind::UnaryOp, Imm::Nothing),
        0xa9 => ("i32.trunc_f32_u", InstrKind::UnaryOp, Imm::Nothing),
        0xaa => ("i32.trunc_f64_s", InstrKind::UnaryOp, Imm::Nothing),
        0xab => ("i32.trunc_f64_u", InstrKind::UnaryOp, Imm::Nothing),
        0xac => ("i64.extend_i32_s", InstrKind::UnaryOp, Imm::Nothing),
        0xad => ("i64.extend_i32_u", InstrKind::UnaryOp, Imm::Nothing),
        0xae => ("i64.trunc_f32_s", InstrKind::UnaryOp, Imm::Nothing),
        0xaf => ("i64.trunc_f32_u", InstrKind::UnaryOp, Imm::Nothing),
        0xb0 => ("i64.trunc_f64_s", InstrKind::UnaryOp, Imm::Nothing),
        0xb1 => ("i64.trunc_f64_u", InstrKind::UnaryOp, Imm::Nothing),
        0xb2 => ("f32.convert_i32_s", InstrKind::UnaryOp, Imm::Nothing),
        0xb3 => ("f32.convert_i32_u", InstrKind::UnaryOp, Imm::Nothing),
        0xb4 => ("f32.convert_i64_s", InstrKind::UnaryOp, Imm::Nothing),
        0xb5 => ("f32.convert_i64_u", InstrKind::UnaryOp, Imm::Nothing),
        0xb6 => ("f32.demote_f64", InstrKind::UnaryOp, Imm::Nothing),
        0xb7 => ("f64.convert_i32_s", InstrKind::UnaryOp, Imm::Nothing),
        0xb8 => ("f64.convert_i32_u", InstrKind::UnaryOp, Imm::Nothing),
        0xb9 => ("f64.convert_i64_s", InstrKind::UnaryOp, Imm::Nothing),
        0xba => ("f64.convert_i64_u", InstrKind::UnaryOp, Imm::Nothing),
        0xbb => ("f64.promote_f32", InstrKind::UnaryOp, Imm::Nothing),
        0xbc => ("i32.reinterpret_f32", InstrKind::UnaryOp, Imm::Nothing),
        0xbd => ("i64.reinterpret_f64", InstrKind::UnaryOp, Imm::Nothing),
        0xbe => ("f32.reinterpret_i32", InstrKind::UnaryOp, Imm::Nothing),
        0xbf => ("f64.reinterpret_i64", InstrKind::UnaryOp, Imm::Nothing),
        0xc0 => ("i32.extend8_s", InstrKind::UnaryOp, Imm::Nothing),
        0xc1 => ("i32.extend16_s", InstrKind::UnaryOp, Imm::Nothing),
        0xc2 => ("i64.extend8_s", InstrKind::UnaryOp, Imm::Nothing),
        0xc3 => ("i64.extend16_s", InstrKind::UnaryOp, Imm::Nothing),
        0xc4 => ("i64.extend32_s", InstrKind::UnaryOp, Imm::Nothing),
        0xd0 => ("ref.null", InstrKind::Normal, Imm::Nothing),
        0xd1 => ("ref.is_null", InstrKind::Normal, Imm::Nothing),
        0xd2 => ("ref.func", InstrKind::Normal, Imm::Index),
        _ => ("unknown", InstrKind::Normal, Imm::Nothing),
    }
}

/// Name, kind and immediate layout of an opcode after the `0xfc` prefix.
fn prefixed_info(op: u32) -> (r: (&'static str, InstrKind, Imm))
    ensures
        r.0 == prefixed_name(op),
        r.1 == prefixed_kind(op),
        r.2 == prefixed_imm(op),
{
    match op {
        0x00 => ("i32.trunc_sat_f32_s", InstrKind::UnaryOp, Imm::Nothing),
        0x01 => ("i32.trunc_sat_f32_u", InstrKind::UnaryOp, Imm::Nothing),
        0x02 => ("i32.trunc_sat_f64_s", InstrKind::UnaryOp, Imm::Nothing),
        0x03 => ("i32.trunc_sat_f64_u", InstrKind::UnaryOp, Imm::Nothing),
        0x04 => ("i64.trunc_sat_f32_s", InstrKind::UnaryOp, Imm::Nothing),
        0x05 => ("i64.trunc_sat_f32_u", InstrKind::UnaryOp, Imm::Nothing),
        0x06 => ("i64.trunc_sat_f64_s", InstrKind::UnaryOp, Imm::Nothing),
        0x07 => ("i64.trunc_sat_f64_u", InstrKind::UnaryOp, Imm::Nothing),
        0x08 => ("memory.init", InstrKind::Normal, Imm::Indexes),
        0x09 => ("data.drop", InstrKind::Normal, Imm::Index),
        0x0a => ("memory.copy", InstrKind::MemoryCopy, Imm::Indexes),
        0x0b => ("memory.fill", InstrKind::MemoryFill, Imm::Index),
        0x0c => ("table.init", InstrKind::Normal, Imm::Indexes),
        0x0d => ("elem.drop", InstrKind::Normal, Imm::Index),
        0x0e => ("table.copy", InstrKind::Normal, Imm::Indexes),
        0x0f => ("table.grow", InstrKind::Normal, Imm::Index),
        0x10 => ("table.size", InstrKind::Normal, Imm::Index),
        0x11 => ("table.fill", InstrKind::Normal, Imm::Index),
        _ => ("unknown", InstrKind::Normal, Imm::Nothing),
    }
}

/// The `k` labels of a branch table read from `p` on, and the position after them.
pub open spec fn spec_read_labels(data: Seq<u8>, p: usize, k: nat) -> Option<(Seq<u32>, usize)>
    decreases k,
{
    if k == 0 {
        Some((Seq::empty(), p))
    } else {
        match spec_read_labels(data, p, (k - 1) as nat) {
            Some((ls, q)) => if q <= data.len() {
                match wasm_var_u32(data, q) {
                    Some((v, q2)) => Some((ls.push(v), q2)),
                    None => None,
                }
            } else {
                None
            },
            None => None,
        }
    }
}

/// The type of a structured block whose immediate starts at `p`.
pub open spec fn spec_block_type(data: Seq<u8>, p: usize) -> OperandsV {
    if p >= data.len() {
        OperandsV::Nothing
    } else if data[p as int] == 0x40 {
        OperandsV::BlockType(BlockTypeOperand::Empty)
    } else if data[p as int] & 0x80 == 0 && data[p as int] & 0x40 != 0 {
        OperandsV::BlockType(BlockTypeOperand::Value(data[p as int]))
    } else {
        match wasm_var_s33(data, p) {
            Some((v, _)) => if 0 <= v <= u32::MAX { OperandsV::BlockType(BlockTypeOperand::FuncType(v as u32)) } else { OperandsV::Nothing },
            None => OperandsV::Nothing,
        }
    }
}

/// The offset and alignment of a memory access whose immediate starts at
/// `p`: the alignment is the low six bits of the flags; bit 6 announces a
/// memory index before the offset.
pub open spec fn spec_memarg(data: Seq<u8>, p: usize) -> OperandsV {
    match wasm_var_u32(data, p) {
        Some((flags, p1)) => {
            let p2 = if flags & 0x40 != 0 {
                match wasm_var_u32(data, p1) {
                    Some((_, q)) => Some(q),
                    None => None,
                }
            } else {
                Some(p1)
            };
            match p2 {
                Some(q) => if q <= data.len() {
                    match wasm_var_u64(data, q) {
                        Some((offset, _)) => OperandsV::MemArg { align: flags & 0x3f, offset },
                        None => OperandsV::Nothing,
                    }
                } else {
                    OperandsV::Nothing
                },
                None => OperandsV::Nothing,
            }
        },
        None => OperandsV::Nothing,
    }
}

/// The labels and default of a branch table whose immediate starts at `p`.
pub open spec fn spec_br_table(data: Seq<u8>, p: usize) -> OperandsV {
    match wasm_var_u32(data, p) {
        Some((count, p1)) => match spec_read_labels(data, p1, count as nat) {
            Some((labels, p2)) => if p2 <= data.len() {
                match wasm_var_u32(data, p2) {
                    Some((default, _)) => OperandsV::BrTable { labels, default },
                    None => OperandsV::Nothing,
                }
            } else {
                OperandsV::Nothing
            },
            None => OperandsV::Nothing,
        },
        None => OperandsV::Nothing,
    }
}

/// The operands laid out as `imm` says, starting at `p`; `Nothing` when they
/// cannot be read.
pub open spec fn spec_operands(imm: Imm, data: Seq<u8>, p: usize) -> OperandsV {
    match imm {
        Imm::Nothing => OperandsV::Nothing,
        Imm::BlockType => spec_block_type(data, p),
        Imm::Index => match wasm_var_u32(data, p) {
            Some((v, _)) => OperandsV::Index(v),
            None => OperandsV::Nothing,
        },
        Imm::Indexes => match wasm_var_u32(data, p) {
            Some((a, p1)) => if p1 <= data.len() {
                match wasm_var_u32(data, p1) {
                    Some((b, _)) => OperandsV::Indexes(a, b),
                    None => OperandsV::Nothing,
                }
            } else {
                OperandsV::Nothing
            },
            None => OperandsV::Nothing,
        },
        Imm::I32 => match wasm_var_i32(data, p) {
            Some((v, _)) => OperandsV::I32(v),
            None => OperandsV::Nothing,
        },
        Imm::I64 => match wasm_var_i64(data, p) {
            Some((v, _)) => OperandsV::I64(v),
            None => OperandsV::Nothing,
        },
        Imm::F32 => match wasm_f32_bits(data, p) {
            Some(v) => OperandsV::F32(v),
            None => OperandsV::Nothing,
        },
        Imm::F64 => match wasm_f64_bits(data, p) {
            Some(v) => OperandsV::F64(v),
            None => OperandsV::Nothing,
        },
        Imm::MemArg => spec_memarg(data, p),
        Imm::BrTable => spec_br_table(data, p),
    }
}

/// The instruction at offset `off` of `data`: none when `off` is past the end
/// or `wasmparser` cannot read an operator there; `else` is one byte long.
pub open spec fn spec_decode_at(data: Seq<u8>, off: usize) -> Option<InstructionV> {
    if off >= data.len() {
        None
    } else if data[off as int] == 0x05 {
        Some(InstructionV { len: 1, name: "else", kind: InstrKind::Else, operands: OperandsV::Nothing })
    } else if data[off as int] == 0x19 {
        Some(InstructionV { len: 1, name: "unknown", kind: InstrKind::Normal, operands: OperandsV::Nothing })
    } else if data[off as int] == 0x07 || data[off as int] == 0x18 {
        match wasm_var_u32(data, (off + 1) as usize) {
            Some((_, p)) => if off < p { Some(InstructionV { len: (p - off) as usize, name: "unknown", kind: InstrKind::Normal, operands: OperandsV::Nothing }) } else { None },
            None => None,
        }
    } else {
        match wasm_operator_end(data, off) {
            None => None,
            Some(end) => if data[off as int] == 0xfc {
                match wasm_var_u32(data, (off + 1) as usize) {
                    Some((sub, p)) => Some(InstructionV { len: (end - off) as usize, name: prefixed_name(sub), kind: prefixed_kind(sub), operands: spec_operands(prefixed_imm(sub), data, p) }),
                    None => Some(InstructionV { len: (end - off) as usize, name: "unknown", kind: InstrKind::Normal, operands: OperandsV::Nothing }),
                }
            } else {
                Some(InstructionV { len: (end - off) as usize, name: opcode_name(data[off as int]), kind: opcode_kind(data[off as int]), operands: spec_operands(opcode_imm(data[off as int]), data, (off + 1) as usize) })
            },
        }
    }
}

proof fn lemma_read_labels_stuck(data: Seq<u8>, p: usize, i: nat, k: nat)
    requires
        i <= k,
        spec_read_labels(data, p, i) is None,
    ensures
        spec_read_labels(data, p, k) is None,
    decreases k - i,
{
    if i < k {
        lemma_read_labels_stuck(data, p, i, (k - 1) as nat);
    }
}

fn read_labels(data: &[u8], p: usize, k: u32) -> (r: Option<(Vec<u32>, usize)>)
    requires
        p <= data@.len(),
    ensures
        match r {
            Some((ls, q)) => spec_read_labels(data@, p, k as nat) == Some((ls@, q)) && q <= data@.len(),
            None => spec_read_labels(data@, p, k as nat) is None,
        },
{
    let mut labels: Vec<u32> = Vec::new();
    let mut q = p;
    let mut i: u32 = 0;
    while i < k
        invariant
            i <= k,
            q <= data@.len(),
            spec_read_labels(data@, p, i as nat) == Some((labels@, q)),
        decreases k - i,
    {
        match read_var_u32_at(data, q) {
            Some((v, q2)) => {
                labels.push(v);
                q = q2;
            },
            None => {
                proof {
                    lemma_read_labels_stuck(data@, p, (i + 1) as nat, k as nat);
                }
                return None;
            },
        }
        i += 1;
    }
    Some((labels, q))
}

fn read_operands(imm: Imm, data: &[u8], p: usize) -> (r: Operands)
    requires
        p <= data@.len(),
    ensures
        r@ == spec_operands(imm, data@, p),
{
    match imm {
        Imm::Nothing => Operands::Nothing,
        Imm::BlockType => {
            if p >= data.len() {
                Operands::Nothing
            } else if data[p] == 0x40 {
                Operands::BlockType(BlockTypeOperand::Empty)
            } else if data[p] & 0x80 == 0 && data[p] & 0x40 != 0 {
                Operands::BlockType(BlockTypeOperand::Value(data[p]))
            } else {
                match read_var_s33_at(data, p) {
                    Some((v, _)) => if 0 <= v && v <= 0xffff_ffffi64 {
                        Operands::BlockType(BlockTypeOperand::FuncType(v as u32))
                    } else {
                        Operands::Nothing
                    },
                    None => Operands::Nothing,
                }
            }
        },
        Imm::Index => match read_var_u32_at(data, p) {
            Some((v, _)) => Operands::Index(v),
            None => Operands::Nothing,
        },
        Imm::Indexes => match read_var_u32_at(data, p) {
            Some((a, p1)) => match read_var_u32_at(data, p1) {
                Some((b, _)) => Operands::Indexes(a, b),
                None => Operands::Nothing,
            },
            None => Operands::Nothing,
        },
        Imm::I32 => match read_var_i32_at(data, p) {
            Some((v, _)) => Operands::I32(v),
            None => Operands::Nothing,
        },
        Imm::I64 => match read_var_i64_at(data, p) {
            Some((v, _)) => Operands::I64(v),
            None => Operands::Nothing,
        },
        Imm::F32 => match read_f32_bits_at(data, p) {
            Some(v) => Operands::F32(v),
            None => Operands::Nothing,
        },
        Imm::F64 => match read_f64_bits_at(data, p) {
            Some(v) => Operands::F64(v),
            None => Operands::Nothing,
        },
        Imm::MemArg => match read_var_u32_at(data, p) {
            Some((flags, p1)) => {
                let p2 = if flags & 0x40 != 0 {
                    match read_var_u32_at(data, p1) {
                        Some((_, q)) => Some(q),
                        None => None,
                    }
                } else {
                    Some(p1)
                };
                match p2 {
                    Some(q) => match read_var_u64_at(data, q) {
                        Some((offset, _)) => Operands::MemArg { align: flags & 0x3f, offset },
                        None => Operands::Nothing,
                    },
                    None => Operands::Nothing,
                }
            },
            None => Operands::Nothing,
        },
        Imm::BrTable => match read_var_u32_at(data, p) {
            Some((count, p1)) => match read_labels(data, p1, count) {
                Some((labels, p2)) => match read_var_u32_at(data, p2) {
                    Some((default, _)) => Operands::BrTable { labels, default },
                    None => Operands::Nothing,
                },
                None => Operands::Nothing,
            },
            None => Operands::Nothing,
        },
    }
}

/// Decode the instruction at offset `off` of `data`.
pub fn decode_at(data: &[u8], off: usize) -> (r: Option<Instruction>)
    ensures
        match r {
            Some(i) => spec_decode_at(data@, off) == Some(i@),
            None => spec_decode_at(data@, off) is None,
        },
        r matches Some(i) ==> 1 <= i.len && off + i.len <= data@.len(),
{
    if off >= data.len() {
        return None;
    }
    if data[off] == 0x05 {
        return Some(Instruction { len: 1, name: "else", kind: InstrKind::Else, operands: Operands::Nothing });
    }
    if data[off] == 0x19 {
        return Some(Instruction { len: 1, name: "unknown", kind: InstrKind::Normal, operands: Operands::Nothing });
    }
    if data[off] == 0x07 || data[off] == 0x18 {
        if off + 1 > data.len() {
            return None;
        }
        return match read_var_u32_at(data, off + 1) {
            Some((_, p)) => Some(Instruction { len: p - off, name: "unknown", kind: InstrKind::Normal, operands: Operands::Nothing }),
            None => None,
        };
    }
    let end = match read_operator_at(data, off) {
        Some((_, n)) => n,
        None => {
            return None;
        },
    };
    let len = end - off;
    if data[off] == 0xfc {
        match read_var_u32_at(data, off + 1) {
            Some((sub, p)) => {
                let (name, kind, imm) = prefixed_info(sub);
                Some(Instruction { len, name, kind, operands: read_operands(imm, data, p) })
            },
            None => Some(Instruction { len, name: "unknown", kind: InstrKind::Normal, operands: Operands::Nothing }),
        }
    } else {
        let (name, kind, imm) = opcode_info(data[off]);
        Some(Instruction { len, name, kind, operands: read_operands(imm, data, off + 1) })
    }
}

/// Decode the instruction at the start of `data`.
pub fn decode(data: &[u8]) -> (r: Option<Instruction>)
    ensures
        match r {
            Some(i) => spec_decode_at(data@, 0) == Some(i@),
            None => spec_decode_at(data@, 0) is None,
        },
        r matches Some(i) ==> 1 <= i.len <= data@.len(),
{
    decode_at(data, 0)
}

} // verus!
