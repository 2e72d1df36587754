//! The operators of a function body as the lifter reads them, decoded from
//! the body's bytes.
use vstd::prelude::*;
use crate::disasm::decode::{opcode_name, prefixed_name, decode_at, read_var_u32_at, spec_decode_at, wasm_var_u32, InstructionV, OperandsV, Operands};
use crate::disasm::reader::{read_code_start_at, wasm_code_start};
use crate::ir::{copy_u32s, compare_op_name, bin_op_name, unary_op_name, convert_op_name, BinOp, CmpOp, ConvertOp, MemSize, UnaryOp, ValType};
use crate::lift::LiftOp;

verus! {

/// The wasm mnemonic of a lifted operator; `result` picks between the
/// `i32` and `i64` forms of a load or store, which lift alike.
pub open spec fn mnemonic_of(op: LiftOp, result: ValType) -> &'static str {
    match op {
        LiftOp::Binary { op: o, ty } => match (o, ty) {
            (BinOp::Add, ValType::I32) => "i32.add",
            (BinOp::Add, ValType::I64) => "i64.add",
            (BinOp::And, ValType::I32) => "i32.and",
            (BinOp::And, ValType::I64) => "i64.and",
            (BinOp::DivS, ValType::I32) => "i32.div_s",
            (BinOp::DivS, ValType::I64) => "i64.div_s",
            (BinOp::DivU, ValType::I32) => "i32.div_u",
            (BinOp::DivU, ValType::I64) => "i64.div_u",
            (BinOp::FAdd, ValType::F32) => "f32.add",
            (BinOp::FAdd, ValType::F64) => "f64.add",
            (BinOp::FCopysign, ValType::F32) => "f32.copysign",
            (BinOp::FCopysign, ValType::F64) => "f64.copysign",
            (BinOp::FDiv, ValType::F32) => "f32.div",
            (BinOp::FDiv, ValType::F64) => "f64.div",
            (BinOp::FMax, ValType::F32) => "f32.max",
            (BinOp::FMax, ValType::F64) => "f64.max",
            (BinOp::FMin, ValType::F32) => "f32.min",
            (BinOp::FMin, ValType::F64) => "f64.min",
            (BinOp::FMul, ValType::F32) => "f32.mul",
            (BinOp::FMul, ValType::F64) => "f64.mul",
            (BinOp::FSub, ValType::F32) => "f32.sub",
            (BinOp::FSub, ValType::F64) => "f64.sub",
            (BinOp::Mul, ValType::I32) => "i32.mul",
            (BinOp::Mul, ValType::I64) => "i64.mul",
            (BinOp::Or, ValType::I32) => "i32.or",
            (BinOp::Or, ValType::I64) => "i64.or",
            (BinOp::RemS, ValType::I32) => "i32.rem_s",
            (BinOp::RemS, ValType::I64) => "i64.rem_s",
            (BinOp::RemU, ValType::I32) => "i32.rem_u",
            (BinOp::RemU, ValType::I64) => "i64.rem_u",
            (BinOp::Rotl, ValType::I32) => "i32.rotl",
            (BinOp::Rotl, ValType::I64) => "i64.rotl",
            (BinOp::Rotr, ValType::I32) => "i32.rotr",
            (BinOp::Rotr, ValType::I64) => "i64.rotr",
            (BinOp::Shl, ValType::I32) => "i32.shl",
            (BinOp::Shl, ValType::I64) => "i64.shl",
            (BinOp::ShrS, ValType::I32) => "i32.shr_s",
            (BinOp::ShrS, ValType::I64) => "i64.shr_s",
            (BinOp::ShrU, ValType::I32) => "i32.shr_u",
            (BinOp::ShrU, ValType::I64) => "i64.shr_u",
            (BinOp::Sub, ValType::I32) => "i32.sub",
            (BinOp::Sub, ValType::I64) => "i64.sub",
            (BinOp::Xor, ValType::I32) => "i32.xor",
            (BinOp::Xor, ValType::I64) => "i64.xor",
            _ => "",
        },
        LiftOp::Unary { op: o, ty } => match (o, ty) {
            (UnaryOp::Clz, ValType::I32) => "i32.clz",
            (UnaryOp::Clz, ValType::I64) => "i64.clz",
            (UnaryOp::Ctz, ValType::I32) => "i32.ctz",
            (UnaryOp::Ctz, ValType::I64) => "i64.ctz",
            (UnaryOp::Eqz, ValType::I32) => "i32.eqz",
            (UnaryOp::Eqz, ValType::I64) => "i64.eqz",
            (UnaryOp::FAbs, ValType::F32) => "f32.abs",
            (UnaryOp::FAbs, ValType::F64) => "f64.abs",
            (UnaryOp::FCeil, ValType::F32) => "f32.ceil",
            (UnaryOp::FCeil, ValType::F64) => "f64.ceil",
            (UnaryOp::FFloor, ValType::F32) => "f32.floor",
            (UnaryOp::FFloor, ValType::F64) => "f64.floor",
            (UnaryOp::FNearest, ValType::F32) => "f32.nearest",
            (UnaryOp::FNearest, ValType::F64) => "f64.nearest",
            (UnaryOp::FNeg, ValType::F32) => "f32.neg",
            (UnaryOp::FNeg, ValType::F64) => "f64.neg",
            (UnaryOp::FSqrt, ValType::F32) => "f32.sqrt",
            (UnaryOp::FSqrt, ValType::F64) => "f64.sqrt",
            (UnaryOp::FTrunc, ValType::F32) => "f32.trunc",
            (UnaryOp::FTrunc, ValType::F64) => "f64.trunc",
            (UnaryOp::Popcnt, ValType::I32) => "i32.popcnt",
            (UnaryOp::Popcnt, ValType::I64) => "i64.popcnt",
            _ => "",
        },
        LiftOp::Compare { op: o, ty } => match (o, ty) {
            (CmpOp::Eq, ValType::I32) => "i32.eq",
            (CmpOp::Eq, ValType::I64) => "i64.eq",
            (CmpOp::FEq, ValType::F32) => "f32.eq",
            (CmpOp::FEq, ValType::F64) => "f64.eq",
            (CmpOp::FGe, ValType::F32) => "f32.ge",
            (CmpOp::FGe, ValType::F64) => "f64.ge",
            (CmpOp::FGt, ValType::F32) => "f32.gt",
            (CmpOp::FGt, ValType::F64) => "f64.gt",
            (CmpOp::FLe, ValType::F32) => "f32.le",
            (CmpOp::FLe, ValType::F64) => "f64.le",
            (CmpOp::FLt, ValType::F32) => "f32.lt",
            (CmpOp::FLt, ValType::F64) => "f64.lt",
            (CmpOp::FNe, ValType::F32) => "f32.ne",
            (CmpOp::FNe, ValType::F64) => "f64.ne",
            (CmpOp::GeS, ValType::I32) => "i32.ge_s",
            (CmpOp::GeS, ValType::I64) => "i64.ge_s",
            (CmpOp::GeU, ValType::I32) => "i32.ge_u",
            (CmpOp::GeU, ValType::I64) => "i64.ge_u",
            (CmpOp::GtS, ValType::I32) => "i32.gt_s",
            (CmpOp::GtS, ValType::I64) => "i64.gt_s",
            (CmpOp::GtU, ValType::I32) => "i32.gt_u",
            (CmpOp::GtU, ValType::I64) => "i64.gt_u",
            (CmpOp::LeS, ValType::I32) => "i32.le_s",
            (CmpOp::LeS, ValType::I64) => "i64.le_s",
            (CmpOp::LeU, ValType::I32) => "i32.le_u",
            (CmpOp::LeU, ValType::I64) => "i64.le_u",
            (CmpOp::LtS, ValType::I32) => "i32.lt_s",
            (CmpOp::LtS, ValType::I64) => "i64.lt_s",
            (CmpOp::LtU, ValType::I32) => "i32.lt_u",
            (CmpOp::LtU, ValType::I64) => "i64.lt_u",
            (CmpOp::Ne, ValType::I32) => "i32.ne",
            (CmpOp::Ne, ValType::I64) => "i64.ne",
            _ => "",
        },
        LiftOp::Convert { op: o, ty } => match (o, ty) {
            (ConvertOp::F32ConvertI32S, ValType::F32) => "f32.convert_i32_s",
            (ConvertOp::F32ConvertI32U, ValType::F32) => "f32.convert_i32_u",
            (ConvertOp::F32ConvertI64S, ValType::F32) => "f32.convert_i64_s",
            (ConvertOp::F32ConvertI64U, ValType::F32) => "f32.convert_i64_u",
            (ConvertOp::F32DemoteF64, ValType::F32) => "f32.demote_f64",
            (ConvertOp::F32ReinterpretI32, ValType::F32) => "f32.reinterpret_i32",
            (ConvertOp::F64ConvertI32S, ValType::F64) => "f64.convert_i32_s",
            (ConvertOp::F64ConvertI32U, ValType::F64) => "f64.convert_i32_u",
            (ConvertOp::F64ConvertI64S, ValType::F64) => "f64.convert_i64_s",
            (ConvertOp::F64ConvertI64U, ValType::F64) => "f64.convert_i64_u",
            (ConvertOp::F64PromoteF32, ValType::F64) => "f64.promote_f32",
            (ConvertOp::F64ReinterpretI64, ValType::F64) => "f64.reinterpret_i64",
            (ConvertOp::I32Extend16S, ValType::I32) => "i32.extend16_s",
            (ConvertOp::I32Extend8S, ValType::I32) => "i32.extend8_s",
            (ConvertOp::I32ReinterpretF32, ValType::I32) => "i32.reinterpret_f32",
            (ConvertOp::I32TruncF32S, ValType::I32) => "i32.trunc_f32_s",
            (ConvertOp::I32TruncF32U, ValType::I32) => "i32.trunc_f32_u",
            (ConvertOp::I32TruncF64S, ValType::I32) => "i32.trunc_f64_s",
            (ConvertOp::I32TruncF64U, ValType::I32) => "i32.trunc_f64_u",
            (ConvertOp::I32TruncSatF32S, ValType::I32) => "i32.trunc_sat_f32_s",
            (ConvertOp::I32TruncSatF32U, ValType::I32) => "i32.trunc_sat_f32_u",
            (ConvertOp::I32TruncSatF64S, ValType::I32) => "i32.trunc_sat_f64_s",
            (ConvertOp::I32TruncSatF64U, ValType::I32) => "i32.trunc_sat_f64_u",
            (ConvertOp::I32WrapI64, ValType::I32) => "i32.wrap_i64",
            (ConvertOp::I64Extend16S, ValType::I64) => "i64.extend16_s",
            (ConvertOp::I64Extend32S, ValType::I64) => "i64.extend32_s",
            (ConvertOp::I64Extend8S, ValType::I64) => "i64.extend8_s",
            (ConvertOp::I64ExtendI32S, ValType::I64) => "i64.extend_i32_s",
            (ConvertOp::I64ExtendI32U, ValType::I64) => "i64.extend_i32_u",
            (ConvertOp::I64ReinterpretF64, ValType::I64) => "i64.reinterpret_f64",
            (ConvertOp::I64TruncF32S, ValType::I64) => "i64.trunc_f32_s",
            (ConvertOp::I64TruncF32U, ValType::I64) => "i64.trunc_f32_u",
            (ConvertOp::I64TruncF64S, ValType::I64) => "i64.trunc_f64_s",
            (ConvertOp::I64TruncF64U, ValType::I64) => "i64.trunc_f64_u",
            (ConvertOp::I64TruncSatF32S, ValType::I64) => "i64.trunc_sat_f32_s",
            (ConvertOp::I64TruncSatF32U, ValType::I64) => "i64.trunc_sat_f32_u",
            (ConvertOp::I64TruncSatF64S, ValType::I64) => "i64.trunc_sat_f64_s",
            (ConvertOp::I64TruncSatF64U, ValType::I64) => "i64.trunc_sat_f64_u",
            _ => "",
        },
        LiftOp::Load { size, signed, .. } => match (size, signed, result) {
            (MemSize::F32, false, ValType::I32) => "f32.load",
            (MemSize::F32, false, ValType::I64) => "f32.load",
            (MemSize::F64, false, ValType::I32) => "f64.load",
            (MemSize::F64, false, ValType::I64) => "f64.load",
            (MemSize::I16, false, ValType::I32) => "i32.load16_u",
            (MemSize::I16, false, ValType::I64) => "i64.load16_u",
            (MemSize::I16, true, ValType::I32) => "i32.load16_s",
            (MemSize::I16, true, ValType::I64) => "i64.load16_s",
            (MemSize::I32, false, ValType::I32) => "i32.load",
            (MemSize::I32, false, ValType::I64) => "i64.load32_u",
            (MemSize::I32, true, ValType::I32) => "i64.load32_s",
            (MemSize::I32, true, ValType::I64) => "i64.load32_s",
            (MemSize::I64, false, ValType::I32) => "i64.load",
            (MemSize::I64, false, ValType::I64) => "i64.load",
            (MemSize::I8, false, ValType::I32) => "i32.load8_u",
            (MemSize::I8, false, ValType::I64) => "i64.load8_u",
            (MemSize::I8, true, ValType::I32) => "i32.load8_s",
            (MemSize::I8, true, ValType::I64) => "i64.load8_s",
            _ => "",
        },
        LiftOp::Store { size, .. } => match (size, result) {
            (MemSize::F32, ValType::I32) => "f32.store",
            (MemSize::F32, ValType::I64) => "f32.store",
            (MemSize::F64, ValType::I32) => "f64.store",
            (MemSize::F64, ValType::I64) => "f64.store",
            (MemSize::I16, ValType::I32) => "i32.store16",
            (MemSize::I16, ValType::I64) => "i64.store16",
            (MemSize::I32, ValType::I32) => "i32.store",
            (MemSize::I32, ValType::I64) => "i64.store32",
            (MemSize::I64, ValType::I32) => "i64.store",
            (MemSize::I64, ValType::I64) => "i64.store",
            (MemSize::I8, ValType::I32) => "i32.store8",
            (MemSize::I8, ValType::I64) => "i64.store8",
            _ => "",
        },
        LiftOp::Block(_) => "block",
        LiftOp::Br(_) => "br",
        LiftOp::BrIf(_) => "br_if",
        LiftOp::BrTable { .. } => "br_table",
        LiftOp::Call(_) => "call",
        LiftOp::CallIndirect { .. } => "call_indirect",
        LiftOp::Drop => "drop",
        LiftOp::Else => "else",
        LiftOp::End => "end",
        LiftOp::F32Const(_) => "f32.const",
        LiftOp::F64Const(_) => "f64.const",
        LiftOp::GlobalGet(_) => "global.get",
        LiftOp::GlobalSet(_) => "global.set",
        LiftOp::I32Const(_) => "i32.const",
        LiftOp::I64Const(_) => "i64.const",
        LiftOp::If(_) => "if",
        LiftOp::LocalGet(_) => "local.get",
        LiftOp::LocalSet(_) => "local.set",
        LiftOp::LocalTee(_) => "local.tee",
        LiftOp::Loop(_) => "loop",
        LiftOp::MemoryCopy => "memory.copy",
        LiftOp::MemoryFill => "memory.fill",
        LiftOp::MemoryGrow => "memory.grow",
        LiftOp::MemorySize => "memory.size",
        LiftOp::Nop => "nop",
        LiftOp::Return => "return",
        LiftOp::Select => "select",
        LiftOp::Unreachable => "unreachable",
        _ => "",
    }
}

/// An upper-case ASCII letter.
pub open spec fn is_upper(c: char) -> bool {
    'A' <= c && c <= 'Z'
}

/// The lower-case form of an ASCII letter; other characters as they are.
pub open spec fn to_lower(c: char) -> char {
    if is_upper(c) { ((c as u32) + 32) as char } else { c }
}

/// The characters of `s` from `i` on in lower case, an underscore before
/// each upper-case letter after position `start`.
pub open spec fn snake_from(s: Seq<char>, i: nat, start: nat) -> Seq<char>
    decreases s.len() - i,
{
    if i >= s.len() {
        Seq::empty()
    } else {
        let c = s[i as int];
        let head = if is_upper(c) && i > start { seq!['_', to_lower(c)] } else { seq![to_lower(c)] };
        head + snake_from(s, i + 1, start)
    }
}

/// The wasm spelling of an operator's name: `DivS` is `div_s`, `LtU` is
/// `lt_u`; the `F` that marks a float operator is dropped (`FCopysign` is
/// `copysign`).
pub open spec fn wasm_word(name: Seq<char>) -> Seq<char> {
    if name.len() >= 2 && name[0] == 'F' && is_upper(name[1]) { snake_from(name, 1, 1) } else { snake_from(name, 0, 0) }
}

/// The prefix that names a value type in a mnemonic.
pub open spec fn type_prefix(t: ValType) -> Seq<char> {
    match t {
        ValType::I32 => seq!['i', '3', '2', '.'],
        ValType::I64 => seq!['i', '6', '4', '.'],
        ValType::F32 => seq!['f', '3', '2', '.'],
        ValType::F64 => seq!['f', '6', '4', '.'],
    }
}

/// Law: the name of each comparison is its wasm mnemonic in other spelling:
/// the mnemonic the lifter reads for a comparison on a value type is that
/// type's prefix followed by the comparison's name spelled the wasm way.
pub proof fn lemma_compare_names_spell_mnemonics(op: CmpOp, ty: ValType)
    requires
        mnemonic_of(LiftOp::Compare { op, ty }, ValType::I32) != "",
    ensures
        mnemonic_of(LiftOp::Compare { op, ty }, ValType::I32)@ == type_prefix(ty) + wasm_word(compare_op_name(op)),
{
    reveal_with_fuel(snake_from, 20);
    reveal_strlit("");
    match (op, ty) {
        (CmpOp::Eq, ValType::I32) => {
            reveal_strlit("i32.eq");
            reveal_strlit("Eq");
            assert(mnemonic_of(LiftOp::Compare { op, ty }, ValType::I32)@ =~= type_prefix(ty) + wasm_word(compare_op_name(op)));
        },
        (CmpOp::Eq, ValType::I64) => {
            reveal_strlit("i64.eq");
            reveal_strlit("Eq");
            assert(mnemonic_of(LiftOp::Compare { op, ty }, ValType::I32)@ =~= type_prefix(ty) + wasm_word(compare_op_name(op)));
        },
        (CmpOp::FEq, ValType::F32) => {
            reveal_strlit("f32.eq");
            reveal_strlit("FEq");
            assert(mnemonic_of(LiftOp::Compare { op, ty }, ValType::I32)@ =~= type_prefix(ty) + wasm_word(compare_op_name(op)));
        },
        (CmpOp::FEq, ValType::F64) => {
            reveal_strlit("f64.eq");
            reveal_strlit("FEq");
            assert(mnemonic_of(LiftOp::Compare { op, ty }, ValType::I32)@ =~= type_prefix(ty) + wasm_word(compare_op_name(op)));
        },
        (CmpOp::FGe, ValType::F32) => {
            reveal_strlit("f32.ge");
            reveal_strlit("FGe");
            assert(mnemonic_of(LiftOp::Compare { op, ty }, ValType::I32)@ =~= type_prefix(ty) + wasm_word(compare_op_name(op)));
        },
        (CmpOp::FGe, ValType::F64) => {
            reveal_strlit("f64.ge");
            reveal_strlit("FGe");
            assert(mnemonic_of(LiftOp::Compare { op, ty }, ValType::I32)@ =~= type_prefix(ty) + wasm_word(compare_op_name(op)));
        },
        (CmpOp::FGt, ValType::F32) => {
            reveal_strlit("f32.gt");
            reveal_strlit("FGt");
            assert(mnemonic_of(LiftOp::Compare { op, ty }, ValType::I32)@ =~= type_prefix(ty) + wasm_word(compare_op_name(op)));
        },
        (CmpOp::FGt, ValType::F64) => {
            reveal_strlit("f64.gt");
            reveal_strlit("FGt");
            assert(mnemonic_of(LiftOp::Compare { op, ty }, ValType::I32)@ =~= type_prefix(ty) + wasm_word(compare_op_name(op)));
        },
        (CmpOp::FLe, ValType::F32) => {
            reveal_strlit("f32.le");
            reveal_strlit("FLe");
            assert(mnemonic_of(LiftOp::Compare { op, ty }, ValType::I32)@ =~= type_prefix(ty) + wasm_word(compare_op_name(op)));
        },
        (CmpOp::FLe, ValType::F64) => {
            reveal_strlit("f64.le");
            reveal_strlit("FLe");
            assert(mnemonic_of(LiftOp::Compare { op, ty }, ValType::I32)@ =~= type_prefix(ty) + wasm_word(compare_op_name(op)));
        },
        (CmpOp::FLt, ValType::F32) => {
            reveal_strlit("f32.lt");
            reveal_strlit("FLt");
            assert(mnemonic_of(LiftOp::Compare { op, ty }, ValType::I32)@ =~= type_prefix(ty) + wasm_word(compare_op_name(op)));
        },
        (CmpOp::FLt, ValType::F64) => {
            reveal_strlit("f64.lt");
            reveal_strlit("FLt");
            assert(mnemonic_of(LiftOp::Compare { op, ty }, ValType::I32)@ =~= type_prefix(ty) + wasm_word(compare_op_name(op)));
        },
        (CmpOp::FNe, ValType::F32) => {
            reveal_strlit("f32.ne");
            reveal_strlit("FNe");
            assert(mnemonic_of(LiftOp::Compare { op, ty }, ValType::I32)@ =~= type_prefix(ty) + wasm_word(compare_op_name(op)));
        },
        (CmpOp::FNe, ValType::F64) => {
            reveal_strlit("f64.ne");
            reveal_strlit("FNe");
            assert(mnemonic_of(LiftOp::Compare { op, ty }, ValType::I32)@ =~= type_prefix(ty) + wasm_word(compare_op_name(op)));
        },
        (CmpOp::GeS, ValType::I32) => {
            reveal_strlit("i32.ge_s");
            reveal_strlit("GeS");
            assert(mnemonic_of(LiftOp::Compare { op, ty }, ValType::I32)@ =~= type_prefix(ty) + wasm_word(compare_op_name(op)));
        },
        (CmpOp::GeS, ValType::I64) => {
            reveal_strlit("i64.ge_s");
            reveal_strlit("GeS");
            assert(mnemonic_of(LiftOp::Compare { op, ty }, ValType::I32)@ =~= type_prefix(ty) + wasm_word(compare_op_name(op)));
        },
        (CmpOp::GeU, ValType::I32) => {
            reveal_strlit("i32.ge_u");
            reveal_strlit("GeU");
            assert(mnemonic_of(LiftOp::Compare { op, ty }, ValType::I32)@ =~= type_prefix(ty) + wasm_word(compare_op_name(op)));
        },
        (CmpOp::GeU, ValType::I64) => {
            reveal_strlit("i64.ge_u");
            reveal_strlit("GeU");
            assert(mnemonic_of(LiftOp::Compare { op, ty }, ValType::I32)@ =~= type_prefix(ty) + wasm_word(compare_op_name(op)));
        },
        (CmpOp::GtS, ValType::I32) => {
            reveal_strlit("i32.gt_s");
            reveal_strlit("GtS");
            assert(mnemonic_of(LiftOp::Compare { op, ty }, ValType::I32)@ =~= type_prefix(ty) + wasm_word(compare_op_name(op)));
        },
        (CmpOp::GtS, ValType::I64) => {
            reveal_strlit("i64.gt_s");
            reveal_strlit("GtS");
            assert(mnemonic_of(LiftOp::Compare { op, ty }, ValType::I32)@ =~= type_prefix(ty) + wasm_word(compare_op_name(op)));
        },
        (CmpOp::GtU, ValType::I32) => {
            reveal_strlit("i32.gt_u");
            reveal_strlit("GtU");
            assert(mnemonic_of(LiftOp::Compare { op, ty }, ValType::I32)@ =~= type_prefix(ty) + wasm_word(compare_op_name(op)));
        },
        (CmpOp::GtU, ValType::I64) => {
            reveal_strlit("i64.gt_u");
            reveal_strlit("GtU");
            assert(mnemonic_of(LiftOp::Compare { op, ty }, ValType::I32)@ =~= type_prefix(ty) + wasm_word(compare_op_name(op)));
        },
        (CmpOp::LeS, ValType::I32) => {
            reveal_strlit("i32.le_s");
            reveal_strlit("LeS");
            assert(mnemonic_of(LiftOp::Compare { op, ty }, ValType::I32)@ =~= type_prefix(ty) + wasm_word(compare_op_name(op)));
        },
        (CmpOp::LeS, ValType::I64) => {
            reveal_strlit("i64.le_s");
            reveal_strlit("LeS");
            assert(mnemonic_of(LiftOp::Compare { op, ty }, ValType::I32)@ =~= type_prefix(ty) + wasm_word(compare_op_name(op)));
        },
        (CmpOp::LeU, ValType::I32) => {
            reveal_strlit("i32.le_u");
            reveal_strlit("LeU");
            assert(mnemonic_of(LiftOp::Compare { op, ty }, ValType::I32)@ =~= type_prefix(ty) + wasm_word(compare_op_name(op)));
        },
        (CmpOp::LeU, ValType::I64) => {
            reveal_strlit("i64.le_u");
            reveal_strlit("LeU");
            assert(mnemonic_of(LiftOp::Compare { op, ty }, ValType::I32)@ =~= type_prefix(ty) + wasm_word(compare_op_name(op)));
        },
        (CmpOp::LtS, ValType::I32) => {
            reveal_strlit("i32.lt_s");
            reveal_strlit("LtS");
            assert(mnemonic_of(LiftOp::Compare { op, ty }, ValType::I32)@ =~= type_prefix(ty) + wasm_word(compare_op_name(op)));
        },
        (CmpOp::LtS, ValType::I64) => {
            reveal_strlit("i64.lt_s");
            reveal_strlit("LtS");
            assert(mnemonic_of(LiftOp::Compare { op, ty }, ValType::I32)@ =~= type_prefix(ty) + wasm_word(compare_op_name(op)));
        },
        (CmpOp::LtU, ValType::I32) => {
            reveal_strlit("i32.lt_u");
            reveal_strlit("LtU");
            assert(mnemonic_of(LiftOp::Compare { op, ty }, ValType::I32)@ =~= type_prefix(ty) + wasm_word(compare_op_name(op)));
        },
        (CmpOp::LtU, ValType::I64) => {
            reveal_strlit("i64.lt_u");
            reveal_strlit("LtU");
            assert(mnemonic_of(LiftOp::Compare { op, ty }, ValType::I32)@ =~= type_prefix(ty) + wasm_word(compare_op_name(op)));
        },
        (CmpOp::Ne, ValType::I32) => {
            reveal_strlit("i32.ne");
            reveal_strlit("Ne");
            assert(mnemonic_of(LiftOp::Compare { op, ty }, ValType::I32)@ =~= type_prefix(ty) + wasm_word(compare_op_name(op)));
        },
        (CmpOp::Ne, ValType::I64) => {
            reveal_strlit("i64.ne");
            reveal_strlit("Ne");
            assert(mnemonic_of(LiftOp::Compare { op, ty }, ValType::I32)@ =~= type_prefix(ty) + wasm_word(compare_op_name(op)));
        },
        _ => {},
    }
}

/// The wasm mnemonic that a conversion's name spells: the result type in
/// lower case, a dot, and the rest spelled the wasm way (`I64ExtendI32S` is
/// `i64.extend_i32_s`).
pub open spec fn convert_spelling(name: Seq<char>) -> Seq<char> {
    seq![to_lower(name[0]), name[1], name[2], '.'] + snake_from(name, 3, 3)
}

/// Law: the name of each binary operator is its wasm mnemonic in other spelling:
/// the mnemonic the lifter reads for it on a value type is that type's prefix
/// followed by the name spelled the wasm way.
pub proof fn lemma_binary_names_spell_mnemonics(op: BinOp, ty: ValType)
    requires
        mnemonic_of(LiftOp::Binary { op, ty }, ValType::I32) != "",
    ensures
        mnemonic_of(LiftOp::Binary { op, ty }, ValType::I32)@ == type_prefix(ty) + wasm_word(bin_op_name(op)),
{
    reveal_with_fuel(snake_from, 20);
    reveal_strlit("");
    match (op, ty) {
        (BinOp::Add, ValType::I32) => {
            reveal_strlit("i32.add");
            reveal_strlit("Add");
            assert(mnemonic_of(LiftOp::Binary { op, ty }, ValType::I32)@ =~= type_prefix(ty) + wasm_word(bin_op_name(op)));
        },
        (BinOp::Add, ValType::I64) => {
            reveal_strlit("i64.add");
            reveal_strlit("Add");
            assert(mnemonic_of(LiftOp::Binary { op, ty }, ValType::I32)@ =~= type_prefix(ty) + wasm_word(bin_op_name(op)));
        },
        (BinOp::And, ValType::I32) => {
            reveal_strlit("i32.and");
            reveal_strlit("And");
            assert(mnemonic_of(LiftOp::Binary { op, ty }, ValType::I32)@ =~= type_prefix(ty) + wasm_word(bin_op_name(op)));
        },
        (BinOp::And, ValType::I64) => {
            reveal_strlit("i64.and");
            reveal_strlit("And");
            assert(mnemonic_of(LiftOp::Binary { op, ty }, ValType::I32)@ =~= type_prefix(ty) + wasm_word(bin_op_name(op)));
        },
        (BinOp::DivS, ValType::I32) => {
            reveal_strlit("i32.div_s");
            reveal_strlit("DivS");
            assert(mnemonic_of(LiftOp::Binary { op, ty }, ValType::I32)@ =~= type_prefix(ty) + wasm_word(bin_op_name(op)));
        },
        (BinOp::DivS, ValType::I64) => {
            reveal_strlit("i64.div_s");
            reveal_strlit("DivS");
            assert(mnemonic_of(LiftOp::Binary { op, ty }, ValType::I32)@ =~= type_prefix(ty) + wasm_word(bin_op_name(op)));
        },
        (BinOp::DivU, ValType::I32) => {
            reveal_strlit("i32.div_u");
            reveal_strlit("DivU");
            assert(mnemonic_of(LiftOp::Binary { op, ty }, ValType::I32)@ =~= type_prefix(ty) + wasm_word(bin_op_name(op)));
        },
        (BinOp::DivU, ValType::I64) => {
            reveal_strlit("i64.div_u");
            reveal_strlit("DivU");
            assert(mnemonic_of(LiftOp::Binary { op, ty }, ValType::I32)@ =~= type_prefix(ty) + wasm_word(bin_op_name(op)));
        },
        (BinOp::FAdd, ValType::F32) => {
            reveal_strlit("f32.add");
            reveal_strlit("FAdd");
            assert(mnemonic_of(LiftOp::Binary { op, ty }, ValType::I32)@ =~= type_prefix(ty) + wasm_word(bin_op_name(op)));
        },
        (BinOp::FAdd, ValType::F64) => {
            reveal_strlit("f64.add");
            reveal_strlit("FAdd");
            assert(mnemonic_of(LiftOp::Binary { op, ty }, ValType::I32)@ =~= type_prefix(ty) + wasm_word(bin_op_name(op)));
        },
        (BinOp::FCopysign, ValType::F32) => {
            reveal_strlit("f32.copysign");
            reveal_strlit("FCopysign");
            assert(mnemonic_of(LiftOp::Binary { op, ty }, ValType::I32)@ =~= type_prefix(ty) + wasm_word(bin_op_name(op)));
        },
        (BinOp::FCopysign, ValType::F64) => {
            reveal_strlit("f64.copysign");
            reveal_strlit("FCopysign");
            assert(mnemonic_of(LiftOp::Binary { op, ty }, ValType::I32)@ =~= type_prefix(ty) + wasm_word(bin_op_name(op)));
        },
        (BinOp::FDiv, ValType::F32) => {
            reveal_strlit("f32.div");
            reveal_strlit("FDiv");
            assert(mnemonic_of(LiftOp::Binary { op, ty }, ValType::I32)@ =~= type_prefix(ty) + wasm_word(bin_op_name(op)));
        },
        (BinOp::FDiv, ValType::F64) => {
            reveal_strlit("f64.div");
            reveal_strlit("FDiv");
            assert(mnemonic_of(LiftOp::Binary { op, ty }, ValType::I32)@ =~= type_prefix(ty) + wasm_word(bin_op_name(op)));
        },
        (BinOp::FMax, ValType::F32) => {
            reveal_strlit("f32.max");
            reveal_strlit("FMax");
            assert(mnemonic_of(LiftOp::Binary { op, ty }, ValType::I32)@ =~= type_prefix(ty) + wasm_word(bin_op_name(op)));
        },
        (BinOp::FMax, ValType::F64) => {
            reveal_strlit("f64.max");
            reveal_strlit("FMax");
            assert(mnemonic_of(LiftOp::Binary { op, ty }, ValType::I32)@ =~= type_prefix(ty) + wasm_word(bin_op_name(op)));
        },
        (BinOp::FMin, ValType::F32) => {
            reveal_strlit("f32.min");
            reveal_strlit("FMin");
            assert(mnemonic_of(LiftOp::Binary { op, ty }, ValType::I32)@ =~= type_prefix(ty) + wasm_word(bin_op_name(op)));
        },
        (BinOp::FMin, ValType::F64) => {
            reveal_strlit("f64.min");
            reveal_strlit("FMin");
            assert(mnemonic_of(LiftOp::Binary { op, ty }, ValType::I32)@ =~= type_prefix(ty) + wasm_word(bin_op_name(op)));
        },
        (BinOp::FMul, ValType::F32) => {
            reveal_strlit("f32.mul");
            reveal_strlit("FMul");
            assert(mnemonic_of(LiftOp::Binary { op, ty }, ValType::I32)@ =~= type_prefix(ty) + wasm_word(bin_op_name(op)));
        },
        (BinOp::FMul, ValType::F64) => {
            reveal_strlit("f64.mul");
            reveal_strlit("FMul");
            assert(mnemonic_of(LiftOp::Binary { op, ty }, ValType::I32)@ =~= type_prefix(ty) + wasm_word(bin_op_name(op)));
        },
        (BinOp::FSub, ValType::F32) => {
            reveal_strlit("f32.sub");
            reveal_strlit("FSub");
            assert(mnemonic_of(LiftOp::Binary { op, ty }, ValType::I32)@ =~= type_prefix(ty) + wasm_word(bin_op_name(op)));
        },
        (BinOp::FSub, ValType::F64) => {
            reveal_strlit("f64.sub");
            reveal_strlit("FSub");
            assert(mnemonic_of(LiftOp::Binary { op, ty }, ValType::I32)@ =~= type_prefix(ty) + wasm_word(bin_op_name(op)));
        },
        (BinOp::Mul, ValType::I32) => {
            reveal_strlit("i32.mul");
            reveal_strlit("Mul");
            assert(mnemonic_of(LiftOp::Binary { op, ty }, ValType::I32)@ =~= type_prefix(ty) + wasm_word(bin_op_name(op)));
        },
        (BinOp::Mul, ValType::I64) => {
            reveal_strlit("i64.mul");
            reveal_strlit("Mul");
            assert(mnemonic_of(LiftOp::Binary { op, ty }, ValType::I32)@ =~= type_prefix(ty) + wasm_word(bin_op_name(op)));
        },
        (BinOp::Or, ValType::I32) => {
            reveal_strlit("i32.or");
            reveal_strlit("Or");
            assert(mnemonic_of(LiftOp::Binary { op, ty }, ValType::I32)@ =~= type_prefix(ty) + wasm_word(bin_op_name(op)));
        },
        (BinOp::Or, ValType::I64) => {
            reveal_strlit("i64.or");
            reveal_strlit("Or");
            assert(mnemonic_of(LiftOp::Binary { op, ty }, ValType::I32)@ =~= type_prefix(ty) + wasm_word(bin_op_name(op)));
        },
        (BinOp::RemS, ValType::I32) => {
            reveal_strlit("i32.rem_s");
            reveal_strlit("RemS");
            assert(mnemonic_of(LiftOp::Binary { op, ty }, ValType::I32)@ =~= type_prefix(ty) + wasm_word(bin_op_name(op)));
        },
        (BinOp::RemS, ValType::I64) => {
            reveal_strlit("i64.rem_s");
            reveal_strlit("RemS");
            assert(mnemonic_of(LiftOp::Binary { op, ty }, ValType::I32)@ =~= type_prefix(ty) + wasm_word(bin_op_name(op)));
        },
        (BinOp::RemU, ValType::I32) => {
            reveal_strlit("i32.rem_u");
            reveal_strlit("RemU");
            assert(mnemonic_of(LiftOp::Binary { op, ty }, ValType::I32)@ =~= type_prefix(ty) + wasm_word(bin_op_name(op)));
        },
        (BinOp::RemU, ValType::I64) => {
            reveal_strlit("i64.rem_u");
            reveal_strlit("RemU");
            assert(mnemonic_of(LiftOp::Binary { op, ty }, ValType::I32)@ =~= type_prefix(ty) + wasm_word(bin_op_name(op)));
        },
        (BinOp::Rotl, ValType::I32) => {
            reveal_strlit("i32.rotl");
            reveal_strlit("Rotl");
            assert(mnemonic_of(LiftOp::Binary { op, ty }, ValType::I32)@ =~= type_prefix(ty) + wasm_word(bin_op_name(op)));
        },
        (BinOp::Rotl, ValType::I64) => {
            reveal_strlit("i64.rotl");
            reveal_strlit("Rotl");
            assert(mnemonic_of(LiftOp::Binary { op, ty }, ValType::I32)@ =~= type_prefix(ty) + wasm_word(bin_op_name(op)));
        },
        (BinOp::Rotr, ValType::I32) => {
            reveal_strlit("i32.rotr");
            reveal_strlit("Rotr");
            assert(mnemonic_of(LiftOp::Binary { op, ty }, ValType::I32)@ =~= type_prefix(ty) + wasm_word(bin_op_name(op)));
        },
        (BinOp::Rotr, ValType::I64) => {
            reveal_strlit("i64.rotr");
            reveal_strlit("Rotr");
            assert(mnemonic_of(LiftOp::Binary { op, ty }, ValType::I32)@ =~= type_prefix(ty) + wasm_word(bin_op_name(op)));
        },
        (BinOp::Shl, ValType::I32) => {
            reveal_strlit("i32.shl");
            reveal_strlit("Shl");
            assert(mnemonic_of(LiftOp::Binary { op, ty }, ValType::I32)@ =~= type_prefix(ty) + wasm_word(bin_op_name(op)));
        },
        (BinOp::Shl, ValType::I64) => {
            reveal_strlit("i64.shl");
            reveal_strlit("Shl");
            assert(mnemonic_of(LiftOp::Binary { op, ty }, ValType::I32)@ =~= type_prefix(ty) + wasm_word(bin_op_name(op)));
        },
        (BinOp::ShrS, ValType::I32) => {
            reveal_strlit("i32.shr_s");
            reveal_strlit("ShrS");
            assert(mnemonic_of(LiftOp::Binary { op, ty }, ValType::I32)@ =~= type_prefix(ty) + wasm_word(bin_op_name(op)));
        },
        (BinOp::ShrS, ValType::I64) => {
            reveal_strlit("i64.shr_s");
            reveal_strlit("ShrS");
            assert(mnemonic_of(LiftOp::Binary { op, ty }, ValType::I32)@ =~= type_prefix(ty) + wasm_word(bin_op_name(op)));
        },
        (BinOp::ShrU, ValType::I32) => {
            reveal_strlit("i32.shr_u");
            reveal_strlit("ShrU");
            assert(mnemonic_of(LiftOp::Binary { op, ty }, ValType::I32)@ =~= type_prefix(ty) + wasm_word(bin_op_name(op)));
        },
        (BinOp::ShrU, ValType::I64) => {
            reveal_strlit("i64.shr_u");
            reveal_strlit("ShrU");
            assert(mnemonic_of(LiftOp::Binary { op, ty }, ValType::I32)@ =~= type_prefix(ty) + wasm_word(bin_op_name(op)));
        },
        (BinOp::Sub, ValType::I32) => {
            reveal_strlit("i32.sub");
            reveal_strlit("Sub");
            assert(mnemonic_of(LiftOp::Binary { op, ty }, ValType::I32)@ =~= type_prefix(ty) + wasm_word(bin_op_name(op)));
        },
        (BinOp::Sub, ValType::I64) => {
            reveal_strlit("i64.sub");
            reveal_strlit("Sub");
            assert(mnemonic_of(LiftOp::Binary { op, ty }, ValType::I32)@ =~= type_prefix(ty) + wasm_word(bin_op_name(op)));
        },
        (BinOp::Xor, ValType::I32) => {
            reveal_strlit("i32.xor");
            reveal_strlit("Xor");
            assert(mnemonic_of(LiftOp::Binary { op, ty }, ValType::I32)@ =~= type_prefix(ty) + wasm_word(bin_op_name(op)));
        },
        (BinOp::Xor, ValType::I64) => {
            reveal_strlit("i64.xor");
            reveal_strlit("Xor");
            assert(mnemonic_of(LiftOp::Binary { op, ty }, ValType::I32)@ =~= type_prefix(ty) + wasm_word(bin_op_name(op)));
        },
        _ => {},
    }
}

/// Law: the name of each unary operator is its wasm mnemonic in other spelling:
/// the mnemonic the lifter reads for it on a value type is that type's prefix
/// followed by the name spelled the wasm way.
pub proof fn lemma_unary_names_spell_mnemonics(op: UnaryOp, ty: ValType)
    requires
        mnemonic_of(LiftOp::Unary { op, ty }, ValType::I32) != "",
    ensures
        mnemonic_of(LiftOp::Unary { op, ty }, ValType::I32)@ == type_prefix(ty) + wasm_word(unary_op_name(op)),
{
    reveal_with_fuel(snake_from, 20);
    reveal_strlit("");
    match (op, ty) {
        (UnaryOp::Clz, ValType::I32) => {
            reveal_strlit("i32.clz");
            reveal_strlit("Clz");
            assert(mnemonic_of(LiftOp::Unary { op, ty }, ValType::I32)@ =~= type_prefix(ty) + wasm_word(unary_op_name(op)));
        },
        (UnaryOp::Clz, ValType::I64) => {
            reveal_strlit("i64.clz");
            reveal_strlit("Clz");
            assert(mnemonic_of(LiftOp::Unary { op, ty }, ValType::I32)@ =~= type_prefix(ty) + wasm_word(unary_op_name(op)));
        },
        (UnaryOp::Ctz, ValType::I32) => {
            reveal_strlit("i32.ctz");
            reveal_strlit("Ctz");
            assert(mnemonic_of(LiftOp::Unary { op, ty }, ValType::I32)@ =~= type_prefix(ty) + wasm_word(unary_op_name(op)));
        },
        (UnaryOp::Ctz, ValType::I64) => {
            reveal_strlit("i64.ctz");
            reveal_strlit("Ctz");
            assert(mnemonic_of(LiftOp::Unary { op, ty }, ValType::I32)@ =~= type_prefix(ty) + wasm_word(unary_op_name(op)));
        },
        (UnaryOp::Eqz, ValType::I32) => {
            reveal_strlit("i32.eqz");
            reveal_strlit("Eqz");
            assert(mnemonic_of(LiftOp::Unary { op, ty }, ValType::I32)@ =~= type_prefix(ty) + wasm_word(unary_op_name(op)));
        },
        (UnaryOp::Eqz, ValType::I64) => {
            reveal_strlit("i64.eqz");
            reveal_strlit("Eqz");
            assert(mnemonic_of(LiftOp::Unary { op, ty }, ValType::I32)@ =~= type_prefix(ty) + wasm_word(unary_op_name(op)));
        },
        (UnaryOp::FAbs, ValType::F32) => {
            reveal_strlit("f32.abs");
            reveal_strlit("FAbs");
            assert(mnemonic_of(LiftOp::Unary { op, ty }, ValType::I32)@ =~= type_prefix(ty) + wasm_word(unary_op_name(op)));
        },
        (UnaryOp::FAbs, ValType::F64) => {
            reveal_strlit("f64.abs");
            reveal_strlit("FAbs");
            assert(mnemonic_of(LiftOp::Unary { op, ty }, ValType::I32)@ =~= type_prefix(ty) + wasm_word(unary_op_name(op)));
        },
        (UnaryOp::FCeil, ValType::F32) => {
            reveal_strlit("f32.ceil");
            reveal_strlit("FCeil");
            assert(mnemonic_of(LiftOp::Unary { op, ty }, ValType::I32)@ =~= type_prefix(ty) + wasm_word(unary_op_name(op)));
        },
        (UnaryOp::FCeil, ValType::F64) => {
            reveal_strlit("f64.ceil");
            reveal_strlit("FCeil");
            assert(mnemonic_of(LiftOp::Unary { op, ty }, ValType::I32)@ =~= type_prefix(ty) + wasm_word(unary_op_name(op)));
        },
        (UnaryOp::FFloor, ValType::F32) => {
            reveal_strlit("f32.floor");
            reveal_strlit("FFloor");
            assert(mnemonic_of(LiftOp::Unary { op, ty }, ValType::I32)@ =~= type_prefix(ty) + wasm_word(unary_op_name(op)));
        },
        (UnaryOp::FFloor, ValType::F64) => {
            reveal_strlit("f64.floor");
            reveal_strlit("FFloor");
            assert(mnemonic_of(LiftOp::Unary { op, ty }, ValType::I32)@ =~= type_prefix(ty) + wasm_word(unary_op_name(op)));
        },
        (UnaryOp::FNearest, ValType::F32) => {
            reveal_strlit("f32.nearest");
            reveal_strlit("FNearest");
            assert(mnemonic_of(LiftOp::Unary { op, ty }, ValType::I32)@ =~= type_prefix(ty) + wasm_word(unary_op_name(op)));
        },
        (UnaryOp::FNearest, ValType::F64) => {
            reveal_strlit("f64.nearest");
            reveal_strlit("FNearest");
            assert(mnemonic_of(LiftOp::Unary { op, ty }, ValType::I32)@ =~= type_prefix(ty) + wasm_word(unary_op_name(op)));
        },
        (UnaryOp::FNeg, ValType::F32) => {
            reveal_strlit("f32.neg");
            reveal_strlit("FNeg");
            assert(mnemonic_of(LiftOp::Unary { op, ty }, ValType::I32)@ =~= type_prefix(ty) + wasm_word(unary_op_name(op)));
        },
        (UnaryOp::FNeg, ValType::F64) => {
            reveal_strlit("f64.neg");
            reveal_strlit("FNeg");
            assert(mnemonic_of(LiftOp::Unary { op, ty }, ValType::I32)@ =~= type_prefix(ty) + wasm_word(unary_op_name(op)));
        },
        (UnaryOp::FSqrt, ValType::F32) => {
            reveal_strlit("f32.sqrt");
            reveal_strlit("FSqrt");
            assert(mnemonic_of(LiftOp::Unary { op, ty }, ValType::I32)@ =~= type_prefix(ty) + wasm_word(unary_op_name(op)));
        },
        (UnaryOp::FSqrt, ValType::F64) => {
            reveal_strlit("f64.sqrt");
            reveal_strlit("FSqrt");
            assert(mnemonic_of(LiftOp::Unary { op, ty }, ValType::I32)@ =~= type_prefix(ty) + wasm_word(unary_op_name(op)));
        },
        (UnaryOp::FTrunc, ValType::F32) => {
            reveal_strlit("f32.trunc");
            reveal_strlit("FTrunc");
            assert(mnemonic_of(LiftOp::Unary { op, ty }, ValType::I32)@ =~= type_prefix(ty) + wasm_word(unary_op_name(op)));
        },
        (UnaryOp::FTrunc, ValType::F64) => {
            reveal_strlit("f64.trunc");
            reveal_strlit("FTrunc");
            assert(mnemonic_of(LiftOp::Unary { op, ty }, ValType::I32)@ =~= type_prefix(ty) + wasm_word(unary_op_name(op)));
        },
        (UnaryOp::Popcnt, ValType::I32) => {
            reveal_strlit("i32.popcnt");
            reveal_strlit("Popcnt");
            assert(mnemonic_of(LiftOp::Unary { op, ty }, ValType::I32)@ =~= type_prefix(ty) + wasm_word(unary_op_name(op)));
        },
        (UnaryOp::Popcnt, ValType::I64) => {
            reveal_strlit("i64.popcnt");
            reveal_strlit("Popcnt");
            assert(mnemonic_of(LiftOp::Unary { op, ty }, ValType::I32)@ =~= type_prefix(ty) + wasm_word(unary_op_name(op)));
        },
        _ => {},
    }
}

#[verifier::spinoff_prover]
proof fn lemma_convert_spelling_part0(op: ConvertOp, ty: ValType)
    requires
        (op, ty) == (ConvertOp::F32ConvertI32S, ValType::F32) || (op, ty) == (ConvertOp::F32ConvertI32U, ValType::F32) || (op, ty) == (ConvertOp::F32ConvertI64S, ValType::F32) || (op, ty) == (ConvertOp::F32ConvertI64U, ValType::F32) || (op, ty) == (ConvertOp::F32DemoteF64, ValType::F32) || (op, ty) == (ConvertOp::F32ReinterpretI32, ValType::F32),
    ensures
        mnemonic_of(LiftOp::Convert { op, ty }, ValType::I32)@ == convert_spelling(convert_op_name(op)),
{
    reveal_with_fuel(snake_from, 20);
    match (op, ty) {
        (ConvertOp::F32ConvertI32S, ValType::F32) => {
            reveal_strlit("f32.convert_i32_s");
            reveal_strlit("F32ConvertI32S");
            assert(mnemonic_of(LiftOp::Convert { op, ty }, ValType::I32)@ =~= convert_spelling(convert_op_name(op)));
        },
        (ConvertOp::F32ConvertI32U, ValType::F32) => {
            reveal_strlit("f32.convert_i32_u");
            reveal_strlit("F32ConvertI32U");
            assert(mnemonic_of(LiftOp::Convert { op, ty }, ValType::I32)@ =~= convert_spelling(convert_op_name(op)));
        },
        (ConvertOp::F32ConvertI64S, ValType::F32) => {
            reveal_strlit("f32.convert_i64_s");
            reveal_strlit("F32ConvertI64S");
            assert(mnemonic_of(LiftOp::Convert { op, ty }, ValType::I32)@ =~= convert_spelling(convert_op_name(op)));
        },
        (ConvertOp::F32ConvertI64U, ValType::F32) => {
            reveal_strlit("f32.convert_i64_u");
            reveal_strlit("F32ConvertI64U");
            assert(mnemonic_of(LiftOp::Convert { op, ty }, ValType::I32)@ =~= convert_spelling(convert_op_name(op)));
        },
        (ConvertOp::F32DemoteF64, ValType::F32) => {
            reveal_strlit("f32.demote_f64");
            reveal_strlit("F32DemoteF64");
            assert(mnemonic_of(LiftOp::Convert { op, ty }, ValType::I32)@ =~= convert_spelling(convert_op_name(op)));
        },
        (ConvertOp::F32ReinterpretI32, ValType::F32) => {
            reveal_strlit("f32.reinterpret_i32");
            reveal_strlit("F32ReinterpretI32");
            assert(mnemonic_of(LiftOp::Convert { op, ty }, ValType::I32)@ =~= convert_spelling(convert_op_name(op)));
        },
        _ => {},
    }
}

#[verifier::spinoff_prover]
proof fn lemma_convert_spelling_part1(op: ConvertOp, ty: ValType)
    requires
        (op, ty) == (ConvertOp::F64ConvertI32S, ValType::F64) || (op, ty) == (ConvertOp::F64ConvertI32U, ValType::F64) || (op, ty) == (ConvertOp::F64ConvertI64S, ValType::F64) || (op, ty) == (ConvertOp::F64ConvertI64U, ValType::F64) || (op, ty) == (ConvertOp::F64PromoteF32, ValType::F64) || (op, ty) == (ConvertOp::F64ReinterpretI64, ValType::F64),
    ensures
        mnemonic_of(LiftOp::Convert { op, ty }, ValType::I32)@ == convert_spelling(convert_op_name(op)),
{
    reveal_with_fuel(snake_from, 20);
    match (op, ty) {
        (ConvertOp::F64ConvertI32S, ValType::F64) => {
            reveal_strlit("f64.convert_i32_s");
            reveal_strlit("F64ConvertI32S");
            assert(mnemonic_of(LiftOp::Convert { op, ty }, ValType::I32)@ =~= convert_spelling(convert_op_name(op)));
        },
        (ConvertOp::F64ConvertI32U, ValType::F64) => {
            reveal_strlit("f64.convert_i32_u");
            reveal_strlit("F64ConvertI32U");
            assert(mnemonic_of(LiftOp::Convert { op, ty }, ValType::I32)@ =~= convert_spelling(convert_op_name(op)));
        },
        (ConvertOp::F64ConvertI64S, ValType::F64) => {
            reveal_strlit("f64.convert_i64_s");
            reveal_strlit("F64ConvertI64S");
            assert(mnemonic_of(LiftOp::Convert { op, ty }, ValType::I32)@ =~= convert_spelling(convert_op_name(op)));
        },
        (ConvertOp::F64ConvertI64U, ValType::F64) => {
            reveal_strlit("f64.convert_i64_u");
            reveal_strlit("F64ConvertI64U");
            assert(mnemonic_of(LiftOp::Convert { op, ty }, ValType::I32)@ =~= convert_spelling(convert_op_name(op)));
        },
        (ConvertOp::F64PromoteF32, ValType::F64) => {
            reveal_strlit("f64.promote_f32");
            reveal_strlit("F64PromoteF32");
            assert(mnemonic_of(LiftOp::Convert { op, ty }, ValType::I32)@ =~= convert_spelling(convert_op_name(op)));
        },
        (ConvertOp::F64ReinterpretI64, ValType::F64) => {
            reveal_strlit("f64.reinterpret_i64");
            reveal_strlit("F64ReinterpretI64");
            assert(mnemonic_of(LiftOp::Convert { op, ty }, ValType::I32)@ =~= convert_spelling(convert_op_name(op)));
        },
        _ => {},
    }
}

#[verifier::spinoff_prover]
proof fn lemma_convert_spelling_part2(op: ConvertOp, ty: ValType)
    requires
        (op, ty) == (ConvertOp::I32Extend16S, ValType::I32) || (op, ty) == (ConvertOp::I32Extend8S, ValType::I32) || (op, ty) == (ConvertOp::I32ReinterpretF32, ValType::I32) || (op, ty) == (ConvertOp::I32TruncF32S, ValType::I32) || (op, ty) == (ConvertOp::I32TruncF32U, ValType::I32) || (op, ty) == (ConvertOp::I32TruncF64S, ValType::I32),
    ensures
        mnemonic_of(LiftOp::Convert { op, ty }, ValType::I32)@ == convert_spelling(convert_op_name(op)),
{
    reveal_with_fuel(snake_from, 20);
    match (op, ty) {
        (ConvertOp::I32Extend16S, ValType::I32) => {
            reveal_strlit("i32.extend16_s");
            reveal_strlit("I32Extend16S");
            assert(mnemonic_of(LiftOp::Convert { op, ty }, ValType::I32)@ =~= convert_spelling(convert_op_name(op)));
        },
        (ConvertOp::I32Extend8S, ValType::I32) => {
            reveal_strlit("i32.extend8_s");
            reveal_strlit("I32Extend8S");
            assert(mnemonic_of(LiftOp::Convert { op, ty }, ValType::I32)@ =~= convert_spelling(convert_op_name(op)));
        },
        (ConvertOp::I32ReinterpretF32, ValType::I32) => {
            reveal_strlit("i32.reinterpret_f32");
            reveal_strlit("I32ReinterpretF32");
            assert(mnemonic_of(LiftOp::Convert { op, ty }, ValType::I32)@ =~= convert_spelling(convert_op_name(op)));
        },
        (ConvertOp::I32TruncF32S, ValType::I32) => {
            reveal_strlit("i32.trunc_f32_s");
            reveal_strlit("I32TruncF32S");
            assert(mnemonic_of(LiftOp::Convert { op, ty }, ValType::I32)@ =~= convert_spelling(convert_op_name(op)));
        },
        (ConvertOp::I32TruncF32U, ValType::I32) => {
            reveal_strlit("i32.trunc_f32_u");
            reveal_strlit("I32TruncF32U");
            assert(mnemonic_of(LiftOp::Convert { op, ty }, ValType::I32)@ =~= convert_spelling(convert_op_name(op)));
        },
        (ConvertOp::I32TruncF64S, ValType::I32) => {
            reveal_strlit("i32.trunc_f64_s");
            reveal_strlit("I32TruncF64S");
            assert(mnemonic_of(LiftOp::Convert { op, ty }, ValType::I32)@ =~= convert_spelling(convert_op_name(op)));
        },
        _ => {},
    }
}

#[verifier::spinoff_prover]
proof fn lemma_convert_spelling_part3(op: ConvertOp, ty: ValType)
    requires
        (op, ty) == (ConvertOp::I32TruncF64U, ValType::I32) || (op, ty) == (ConvertOp::I32TruncSatF32S, ValType::I32) || (op, ty) == (ConvertOp::I32TruncSatF32U, ValType::I32) || (op, ty) == (ConvertOp::I32TruncSatF64S, ValType::I32) || (op, ty) == (ConvertOp::I32TruncSatF64U, ValType::I32) || (op, ty) == (ConvertOp::I32WrapI64, ValType::I32),
    ensures
        mnemonic_of(LiftOp::Convert { op, ty }, ValType::I32)@ == convert_spelling(convert_op_name(op)),
{
    reveal_with_fuel(snake_from, 20);
    match (op, ty) {
        (ConvertOp::I32TruncF64U, ValType::I32) => {
            reveal_strlit("i32.trunc_f64_u");
            reveal_strlit("I32TruncF64U");
            assert(mnemonic_of(LiftOp::Convert { op, ty }, ValType::I32)@ =~= convert_spelling(convert_op_name(op)));
        },
        (ConvertOp::I32TruncSatF32S, ValType::I32) => {
            reveal_strlit("i32.trunc_sat_f32_s");
            reveal_strlit("I32TruncSatF32S");
            assert(mnemonic_of(LiftOp::Convert { op, ty }, ValType::I32)@ =~= convert_spelling(convert_op_name(op)));
        },
        (ConvertOp::I32TruncSatF32U, ValType::I32) => {
            reveal_strlit("i32.trunc_sat_f32_u");
            reveal_strlit("I32TruncSatF32U");
            assert(mnemonic_of(LiftOp::Convert { op, ty }, ValType::I32)@ =~= convert_spelling(convert_op_name(op)));
        },
        (ConvertOp::I32TruncSatF64S, ValType::I32) => {
            reveal_strlit("i32.trunc_sat_f64_s");
            reveal_strlit("I32TruncSatF64S");
            assert(mnemonic_of(LiftOp::Convert { op, ty }, ValType::I32)@ =~= convert_spelling(convert_op_name(op)));
        },
        (ConvertOp::I32TruncSatF64U, ValType::I32) => {
            reveal_strlit("i32.trunc_sat_f64_u");
            reveal_strlit("I32TruncSatF64U");
            assert(mnemonic_of(LiftOp::Convert { op, ty }, ValType::I32)@ =~= convert_spelling(convert_op_name(op)));
        },
        (ConvertOp::I32WrapI64, ValType::I32) => {
            reveal_strlit("i32.wrap_i64");
            reveal_strlit("I32WrapI64");
            assert(mnemonic_of(LiftOp::Convert { op, ty }, ValType::I32)@ =~= convert_spelling(convert_op_name(op)));
        },
        _ => {},
    }
}

#[verifier::spinoff_prover]
proof fn lemma_convert_spelling_part4(op: ConvertOp, ty: ValType)
    requires
        (op, ty) == (ConvertOp::I64Extend16S, ValType::I64) || (op, ty) == (ConvertOp::I64Extend32S, ValType::I64) || (op, ty) == (ConvertOp::I64Extend8S, ValType::I64) || (op, ty) == (ConvertOp::I64ExtendI32S, ValType::I64) || (op, ty) == (ConvertOp::I64ExtendI32U, ValType::I64) || (op, ty) == (ConvertOp::I64ReinterpretF64, ValType::I64),
    ensures
        mnemonic_of(LiftOp::Convert { op, ty }, ValType::I32)@ == convert_spelling(convert_op_name(op)),
{
    reveal_with_fuel(snake_from, 20);
    match (op, ty) {
        (ConvertOp::I64Extend16S, ValType::I64) => {
            reveal_strlit("i64.extend16_s");
            reveal_strlit("I64Extend16S");
            assert(mnemonic_of(LiftOp::Convert { op, ty }, ValType::I32)@ =~= convert_spelling(convert_op_name(op)));
        },
        (ConvertOp::I64Extend32S, ValType::I64) => {
            reveal_strlit("i64.extend32_s");
            reveal_strlit("I64Extend32S");
            assert(mnemonic_of(LiftOp::Convert { op, ty }, ValType::I32)@ =~= convert_spelling(convert_op_name(op)));
        },
        (ConvertOp::I64Extend8S, ValType::I64) => {
            reveal_strlit("i64.extend8_s");
            reveal_strlit("I64Extend8S");
            assert(mnemonic_of(LiftOp::Convert { op, ty }, ValType::I32)@ =~= convert_spelling(convert_op_name(op)));
        },
        (ConvertOp::I64ExtendI32S, ValType::I64) => {
            reveal_strlit("i64.extend_i32_s");
            reveal_strlit("I64ExtendI32S");
            assert(mnemonic_of(LiftOp::Convert { op, ty }, ValType::I32)@ =~= convert_spelling(convert_op_name(op)));
        },
        (ConvertOp::I64ExtendI32U, ValType::I64) => {
            reveal_strlit("i64.extend_i32_u");
            reveal_strlit("I64ExtendI32U");
            assert(mnemonic_of(LiftOp::Convert { op, ty }, ValType::I32)@ =~= convert_spelling(convert_op_name(op)));
        },
        (ConvertOp::I64ReinterpretF64, ValType::I64) => {
            reveal_strlit("i64.reinterpret_f64");
            reveal_strlit("I64ReinterpretF64");
            assert(mnemonic_of(LiftOp::Convert { op, ty }, ValType::I32)@ =~= convert_spelling(convert_op_name(op)));
        },
        _ => {},
    }
}

#[verifier::spinoff_prover]
proof fn lemma_convert_spelling_part5(op: ConvertOp, ty: ValType)
    requires
        (op, ty) == (ConvertOp::I64TruncF32S, ValType::I64) || (op, ty) == (ConvertOp::I64TruncF32U, ValType::I64) || (op, ty) == (ConvertOp::I64TruncF64S, ValType::I64) || (op, ty) == (ConvertOp::I64TruncF64U, ValType::I64) || (op, ty) == (ConvertOp::I64TruncSatF32S, ValType::I64) || (op, ty) == (ConvertOp::I64TruncSatF32U, ValType::I64),
    ensures
        mnemonic_of(LiftOp::Convert { op, ty }, ValType::I32)@ == convert_spelling(convert_op_name(op)),
{
    reveal_with_fuel(snake_from, 20);
    match (op, ty) {
        (ConvertOp::I64TruncF32S, ValType::I64) => {
            reveal_strlit("i64.trunc_f32_s");
            reveal_strlit("I64TruncF32S");
            assert(mnemonic_of(LiftOp::Convert { op, ty }, ValType::I32)@ =~= convert_spelling(convert_op_name(op)));
        },
        (ConvertOp::I64TruncF32U, ValType::I64) => {
            reveal_strlit("i64.trunc_f32_u");
            reveal_strlit("I64TruncF32U");
            assert(mnemonic_of(LiftOp::Convert { op, ty }, ValType::I32)@ =~= convert_spelling(convert_op_name(op)));
        },
        (ConvertOp::I64TruncF64S, ValType::I64) => {
            reveal_strlit("i64.trunc_f64_s");
            reveal_strlit("I64TruncF64S");
            assert(mnemonic_of(LiftOp::Convert { op, ty }, ValType::I32)@ =~= convert_spelling(convert_op_name(op)));
        },
        (ConvertOp::I64TruncF64U, ValType::I64) => {
            reveal_strlit("i64.trunc_f64_u");
            reveal_strlit("I64TruncF64U");
            assert(mnemonic_of(LiftOp::Convert { op, ty }, ValType::I32)@ =~= convert_spelling(convert_op_name(op)));
        },
        (ConvertOp::I64TruncSatF32S, ValType::I64) => {
            reveal_strlit("i64.trunc_sat_f32_s");
            reveal_strlit("I64TruncSatF32S");
            assert(mnemonic_of(LiftOp::Convert { op, ty }, ValType::I32)@ =~= convert_spelling(convert_op_name(op)));
        },
        (ConvertOp::I64TruncSatF32U, ValType::I64) => {
            reveal_strlit("i64.trunc_sat_f32_u");
            reveal_strlit("I64TruncSatF32U");
            assert(mnemonic_of(LiftOp::Convert { op, ty }, ValType::I32)@ =~= convert_spelling(convert_op_name(op)));
        },
        _ => {},
    }
}

#[verifier::spinoff_prover]
proof fn lemma_convert_spelling_part6(op: ConvertOp, ty: ValType)
    requires
        (op, ty) == (ConvertOp::I64TruncSatF64S, ValType::I64) || (op, ty) == (ConvertOp::I64TruncSatF64U, ValType::I64),
    ensures
        mnemonic_of(LiftOp::Convert { op, ty }, ValType::I32)@ == convert_spelling(convert_op_name(op)),
{
    reveal_with_fuel(snake_from, 20);
    match (op, ty) {
        (ConvertOp::I64TruncSatF64S, ValType::I64) => {
            reveal_strlit("i64.trunc_sat_f64_s");
            reveal_strlit("I64TruncSatF64S");
            assert(mnemonic_of(LiftOp::Convert { op, ty }, ValType::I32)@ =~= convert_spelling(convert_op_name(op)));
        },
        (ConvertOp::I64TruncSatF64U, ValType::I64) => {
            reveal_strlit("i64.trunc_sat_f64_u");
            reveal_strlit("I64TruncSatF64U");
            assert(mnemonic_of(LiftOp::Convert { op, ty }, ValType::I32)@ =~= convert_spelling(convert_op_name(op)));
        },
        _ => {},
    }
}

/// Law: the name of each conversion spells its wasm mnemonic: the mnemonic
/// the lifter reads for it is the name in the wasm spelling.
pub proof fn lemma_convert_names_spell_mnemonics(op: ConvertOp, ty: ValType)
    requires
        mnemonic_of(LiftOp::Convert { op, ty }, ValType::I32) != "",
    ensures
        mnemonic_of(LiftOp::Convert { op, ty }, ValType::I32)@ == convert_spelling(convert_op_name(op)),
{
    reveal_strlit("");
    match op {
        ConvertOp::F32ConvertI32S => if ty == ValType::F32 {
            lemma_convert_spelling_part0(op, ty);
        },
        ConvertOp::F32ConvertI32U => if ty == ValType::F32 {
            lemma_convert_spelling_part0(op, ty);
        },
        ConvertOp::F32ConvertI64S => if ty == ValType::F32 {
            lemma_convert_spelling_part0(op, ty);
        },
        ConvertOp::F32ConvertI64U => if ty == ValType::F32 {
            lemma_convert_spelling_part0(op, ty);
        },
        ConvertOp::F32DemoteF64 => if ty == ValType::F32 {
            lemma_convert_spelling_part0(op, ty);
        },
        ConvertOp::F32ReinterpretI32 => if ty == ValType::F32 {
            lemma_convert_spelling_part0(op, ty);
        },
        ConvertOp::F64ConvertI32S => if ty == ValType::F64 {
            lemma_convert_spelling_part1(op, ty);
        },
        ConvertOp::F64ConvertI32U => if ty == ValType::F64 {
            lemma_convert_spelling_part1(op, ty);
        },
        ConvertOp::F64ConvertI64S => if ty == ValType::F64 {
            lemma_convert_spelling_part1(op, ty);
        },
        ConvertOp::F64ConvertI64U => if ty == ValType::F64 {
            lemma_convert_spelling_part1(op, ty);
        },
        ConvertOp::F64PromoteF32 => if ty == ValType::F64 {
            lemma_convert_spelling_part1(op, ty);
        },
        ConvertOp::F64ReinterpretI64 => if ty == ValType::F64 {
            lemma_convert_spelling_part1(op, ty);
        },
        ConvertOp::I32Extend16S => if ty == ValType::I32 {
            lemma_convert_spelling_part2(op, ty);
        },
        ConvertOp::I32Extend8S => if ty == ValType::I32 {
            lemma_convert_spelling_part2(op, ty);
        },
        ConvertOp::I32ReinterpretF32 => if ty == ValType::I32 {
            lemma_convert_spelling_part2(op, ty);
        },
        ConvertOp::I32TruncF32S => if ty == ValType::I32 {
            lemma_convert_spelling_part2(op, ty);
        },
        ConvertOp::I32TruncF32U => if ty == ValType::I32 {
            lemma_convert_spelling_part2(op, ty);
        },
        ConvertOp::I32TruncF64S => if ty == ValType::I32 {
            lemma_convert_spelling_part2(op, ty);
        },
        ConvertOp::I32TruncF64U => if ty == ValType::I32 {
            lemma_convert_spelling_part3(op, ty);
        },
        ConvertOp::I32TruncSatF32S => if ty == ValType::I32 {
            lemma_convert_spelling_part3(op, ty);
        },
        ConvertOp::I32TruncSatF32U => if ty == ValType::I32 {
            lemma_convert_spelling_part3(op, ty);
        },
        ConvertOp::I32TruncSatF64S => if ty == ValType::I32 {
            lemma_convert_spelling_part3(op, ty);
        },
        ConvertOp::I32TruncSatF64U => if ty == ValType::I32 {
            lemma_convert_spelling_part3(op, ty);
        },
        ConvertOp::I32WrapI64 => if ty == ValType::I32 {
            lemma_convert_spelling_part3(op, ty);
        },
        ConvertOp::I64Extend16S => if ty == ValType::I64 {
            lemma_convert_spelling_part4(op, ty);
        },
        ConvertOp::I64Extend32S => if ty == ValType::I64 {
            lemma_convert_spelling_part4(op, ty);
        },
        ConvertOp::I64Extend8S => if ty == ValType::I64 {
            lemma_convert_spelling_part4(op, ty);
        },
        ConvertOp::I64ExtendI32S => if ty == ValType::I64 {
            lemma_convert_spelling_part4(op, ty);
        },
        ConvertOp::I64ExtendI32U => if ty == ValType::I64 {
            lemma_convert_spelling_part4(op, ty);
        },
        ConvertOp::I64ReinterpretF64 => if ty == ValType::I64 {
            lemma_convert_spelling_part4(op, ty);
        },
        ConvertOp::I64TruncF32S => if ty == ValType::I64 {
            lemma_convert_spelling_part5(op, ty);
        },
        ConvertOp::I64TruncF32U => if ty == ValType::I64 {
            lemma_convert_spelling_part5(op, ty);
        },
        ConvertOp::I64TruncF64S => if ty == ValType::I64 {
            lemma_convert_spelling_part5(op, ty);
        },
        ConvertOp::I64TruncF64U => if ty == ValType::I64 {
            lemma_convert_spelling_part5(op, ty);
        },
        ConvertOp::I64TruncSatF32S => if ty == ValType::I64 {
            lemma_convert_spelling_part5(op, ty);
        },
        ConvertOp::I64TruncSatF32U => if ty == ValType::I64 {
            lemma_convert_spelling_part5(op, ty);
        },
        ConvertOp::I64TruncSatF64S => if ty == ValType::I64 {
            lemma_convert_spelling_part6(op, ty);
        },
        ConvertOp::I64TruncSatF64U => if ty == ValType::I64 {
            lemma_convert_spelling_part6(op, ty);
        },
    }
}

/// Law: every opcode the lifter does not pass over lifts to the operator the
/// disassembler names it by: its wasm mnemonic is the opcode's name.
pub proof fn lemma_lift_agrees_with_names(op: LiftOp, code: u8, ops: OperandsV)
    requires
        lift_op_is(op, code, ops),
        !(op is Other),
    ensures
        opcode_name(code) == mnemonic_of(op, ValType::I32) || opcode_name(code) == mnemonic_of(op, ValType::I64),
{
}

/// Law: a lifted operator carries the instruction's immediates as they were
/// decoded: constants, indices, branch depths, table targets, block types and
/// memory offsets pass through unchanged.
pub proof fn lemma_lift_keeps_immediates(op: LiftOp, code: u8, ops: OperandsV)
    requires
        lift_op_is(op, code, ops),
    ensures
        op matches LiftOp::I32Const(v) ==> ops == OperandsV::I32(v),
        op matches LiftOp::I64Const(v) ==> ops == OperandsV::I64(v),
        op matches LiftOp::F32Const(v) ==> ops == OperandsV::F32(v),
        op matches LiftOp::F64Const(v) ==> ops == OperandsV::F64(v),
        op matches LiftOp::LocalGet(i) ==> ops == OperandsV::Index(i),
        op matches LiftOp::LocalSet(i) ==> ops == OperandsV::Index(i),
        op matches LiftOp::LocalTee(i) ==> ops == OperandsV::Index(i),
        op matches LiftOp::GlobalGet(i) ==> ops == OperandsV::Index(i),
        op matches LiftOp::GlobalSet(i) ==> ops == OperandsV::Index(i),
        op matches LiftOp::Call(i) ==> ops == OperandsV::Index(i),
        op matches LiftOp::CallIndirect { type_index, table_index } ==> ops == OperandsV::Indexes(type_index, table_index),
        op matches LiftOp::Br(i) ==> ops == OperandsV::Index(i),
        op matches LiftOp::BrIf(i) ==> ops == OperandsV::Index(i),
        op matches LiftOp::BrTable { targets, default } ==> ops == (OperandsV::BrTable { labels: targets@, default }),
        op matches LiftOp::Block(b) ==> ops == OperandsV::BlockType(b),
        op matches LiftOp::Loop(b) ==> ops == OperandsV::BlockType(b),
        op matches LiftOp::If(b) ==> ops == OperandsV::BlockType(b),
        op matches LiftOp::Load { offset, .. } ==> ops matches OperandsV::MemArg { offset: o, .. } && o == offset,
        op matches LiftOp::Store { offset, .. } ==> ops matches OperandsV::MemArg { offset: o, .. } && o == offset,
{
}

/// Law: every `0xfc`-prefixed opcode the lifter does not pass over lifts to
/// the operator the disassembler names it by.
pub proof fn lemma_prefixed_lift_agrees_with_names(op: LiftOp, sub: u32, ops: OperandsV)
    requires
        prefixed_lift_op_is(op, sub, ops),
        !(op is Other),
    ensures
        prefixed_name(sub) == mnemonic_of(op, ValType::I32) || prefixed_name(sub) == mnemonic_of(op, ValType::I64),
{
}

/// `op` is the lifter's operator for the instruction with one-byte opcode
/// `code` and immediates `ops`; an operator the lifter passes over, or one
/// whose immediates are not of its kind, is `Other`.
pub open spec fn lift_op_is(op: LiftOp, code: u8, ops: OperandsV) -> bool {
    match code {
        0x00 => op == LiftOp::Unreachable,
        0x01 => op == LiftOp::Nop,
        0x02 => match ops { OperandsV::BlockType(b) => op == LiftOp::Block(b), _ => op == LiftOp::Other },
        0x03 => match ops { OperandsV::BlockType(b) => op == LiftOp::Loop(b), _ => op == LiftOp::Other },
        0x04 => match ops { OperandsV::BlockType(b) => op == LiftOp::If(b), _ => op == LiftOp::Other },
        0x05 => op == LiftOp::Else,
        0x0b => op == LiftOp::End,
        0x0c => match ops { OperandsV::Index(i) => op == LiftOp::Br(i), _ => op == LiftOp::Other },
        0x0d => match ops { OperandsV::Index(i) => op == LiftOp::BrIf(i), _ => op == LiftOp::Other },
        0x0e => match ops { OperandsV::BrTable { labels, default } => (op matches LiftOp::BrTable { targets, default: d } && targets@ == labels && d == default), _ => op == LiftOp::Other },
        0x0f => op == LiftOp::Return,
        0x10 => match ops { OperandsV::Index(i) => op == LiftOp::Call(i), _ => op == LiftOp::Other },
        0x11 => match ops { OperandsV::Indexes(a, b) => op == (LiftOp::CallIndirect { type_index: a, table_index: b }), _ => op == LiftOp::Other },
        0x1a => op == LiftOp::Drop,
        0x1b => op == LiftOp::Select,
        0x1c => op == LiftOp::Other,
        0x20 => match ops { OperandsV::Index(i) => op == LiftOp::LocalGet(i), _ => op == LiftOp::Other },
        0x21 => match ops { OperandsV::Index(i) => op == LiftOp::LocalSet(i), _ => op == LiftOp::Other },
        0x22 => match ops { OperandsV::Index(i) => op == LiftOp::LocalTee(i), _ => op == LiftOp::Other },
        0x23 => match ops { OperandsV::Index(i) => op == LiftOp::GlobalGet(i), _ => op == LiftOp::Other },
        0x24 => match ops { OperandsV::Index(i) => op == LiftOp::GlobalSet(i), _ => op == LiftOp::Other },
        0x25 => op == LiftOp::Other,
        0x26 => op == LiftOp::Other,
        0x28 => match ops { OperandsV::MemArg { offset, .. } => op == LiftOp::Load { size: MemSize::I32, signed: false, offset }, _ => op == LiftOp::Other },
        0x29 => match ops { OperandsV::MemArg { offset, .. } => op == LiftOp::Load { size: MemSize::I64, signed: false, offset }, _ => op == LiftOp::Other },
        0x2a => match ops { OperandsV::MemArg { offset, .. } => op == LiftOp::Load { size: MemSize::F32, signed: false, offset }, _ => op == LiftOp::Other },
        0x2b => match ops { OperandsV::MemArg { offset, .. } => op == LiftOp::Load { size: MemSize::F64, signed: false, offset }, _ => op == LiftOp::Other },
        0x2c => match ops { OperandsV::MemArg { offset, .. } => op == LiftOp::Load { size: MemSize::I8, signed: true, offset }, _ => op == LiftOp::Other },
        0x2d => match ops { OperandsV::MemArg { offset, .. } => op == LiftOp::Load { size: MemSize::I8, signed: false, offset }, _ => op == LiftOp::Other },
        0x2e => match ops { OperandsV::MemArg { offset, .. } => op == LiftOp::Load { size: MemSize::I16, signed: true, offset }, _ => op == LiftOp::Other },
        0x2f => match ops { OperandsV::MemArg { offset, .. } => op == LiftOp::Load { size: MemSize::I16, signed: false, offset }, _ => op == LiftOp::Other },
        0x30 => match ops { OperandsV::MemArg { offset, .. } => op == LiftOp::Load { size: MemSize::I8, signed: true, offset }, _ => op == LiftOp::Other },
        0x31 => match ops { OperandsV::MemArg { offset, .. } => op == LiftOp::Load { size: MemSize::I8, signed: false, offset }, _ => op == LiftOp::Other },
        0x32 => match ops { OperandsV::MemArg { offset, .. } => op == LiftOp::Load { size: MemSize::I16, signed: true, offset }, _ => op == LiftOp::Other },
        0x33 => match ops { OperandsV::MemArg { offset, .. } => op == LiftOp::Load { size: MemSize::I16, signed: false, offset }, _ => op == LiftOp::Other },
        0x34 => match ops { OperandsV::MemArg { offset, .. } => op == LiftOp::Load { size: MemSize::I32, signed: true, offset }, _ => op == LiftOp::Other },
        0x35 => match ops { OperandsV::MemArg { offset, .. } => op == LiftOp::Load { size: MemSize::I32, signed: false, offset }, _ => op == LiftOp::Other },
        0x36 => match ops { OperandsV::MemArg { offset, .. } => op == LiftOp::Store { size: MemSize::I32, offset }, _ => op == LiftOp::Other },
        0x37 => match ops { OperandsV::MemArg { offset, .. } => op == LiftOp::Store { size: MemSize::I64, offset }, _ => op == LiftOp::Other },
        0x38 => match ops { OperandsV::MemArg { offset, .. } => op == LiftOp::Store { size: MemSize::F32, offset }, _ => op == LiftOp::Other },
        0x39 => match ops { OperandsV::MemArg { offset, .. } => op == LiftOp::Store { size: MemSize::F64, offset }, _ => op == LiftOp::Other },
        0x3a => match ops { OperandsV::MemArg { offset, .. } => op == LiftOp::Store { size: MemSize::I8, offset }, _ => op == LiftOp::Other },
        0x3b => match ops { OperandsV::MemArg { offset, .. } => op == LiftOp::Store { size: MemSize::I16, offset }, _ => op == LiftOp::Other },
        0x3c => match ops { OperandsV::MemArg { offset, .. } => op == LiftOp::Store { size: MemSize::I8, offset }, _ => op == LiftOp::Other },
        0x3d => match ops { OperandsV::MemArg { offset, .. } => op == LiftOp::Store { size: MemSize::I16, offset }, _ => op == LiftOp::Other },
        0x3e => match ops { OperandsV::MemArg { offset, .. } => op == LiftOp::Store { size: MemSize::I32, offset }, _ => op == LiftOp::Other },
        0x3f => op == LiftOp::MemorySize,
        0x40 => op == LiftOp::MemoryGrow,
        0x41 => match ops { OperandsV::I32(v) => op == LiftOp::I32Const(v), _ => op == LiftOp::Other },
        0x42 => match ops { OperandsV::I64(v) => op == LiftOp::I64Const(v), _ => op == LiftOp::Other },
        0x43 => match ops { OperandsV::F32(v) => op == LiftOp::F32Const(v), _ => op == LiftOp::Other },
        0x44 => match ops { OperandsV::F64(v) => op == LiftOp::F64Const(v), _ => op == LiftOp::Other },
        0x45 => op == LiftOp::Unary { op: UnaryOp::Eqz, ty: ValType::I32 },
        0x46 => op == LiftOp::Compare { op: CmpOp::Eq, ty: ValType::I32 },
        0x47 => op == LiftOp::Compare { op: CmpOp::Ne, ty: ValType::I32 },
        0x48 => op == LiftOp::Compare { op: CmpOp::LtS, ty: ValType::I32 },
        0x49 => op == LiftOp::Compare { op: CmpOp::LtU, ty: ValType::I32 },
        0x4a => op == LiftOp::Compare { op: CmpOp::GtS, ty: ValType::I32 },
        0x4b => op == LiftOp::Compare { op: CmpOp::GtU, ty: ValType::I32 },
        0x4c => op == LiftOp::Compare { op: CmpOp::LeS, ty: ValType::I32 },
        0x4d => op == LiftOp::Compare { op: CmpOp::LeU, ty: ValType::I32 },
        0x4e => op == LiftOp::Compare { op: CmpOp::GeS, ty: ValType::I32 },
        0x4f => op == LiftOp::Compare { op: CmpOp::GeU, ty: ValType::I32 },
        0x50 => op == LiftOp::Unary { op: UnaryOp::Eqz, ty: ValType::I64 },
        0x51 => op == LiftOp::Compare { op: CmpOp::Eq, ty: ValType::I64 },
        0x52 => op == LiftOp::Compare { op: CmpOp::Ne, ty: ValType::I64 },
        0x53 => op == LiftOp::Compare { op: CmpOp::LtS, ty: ValType::I64 },
        0x54 => op == LiftOp::Compare { op: CmpOp::LtU, ty: ValType::I64 },
        0x55 => op == LiftOp::Compare { op: CmpOp::GtS, ty: ValType::I64 },
        0x56 => op == LiftOp::Compare { op: CmpOp::GtU, ty: ValType::I64 },
        0x57 => op == LiftOp::Compare { op: CmpOp::LeS, ty: ValType::I64 },
        0x58 => op == LiftOp::Compare { op: CmpOp::LeU, ty: ValType::I64 },
        0x59 => op == LiftOp::Compare { op: CmpOp::GeS, ty: ValType::I64 },
        0x5a => op == LiftOp::Compare { op: CmpOp::GeU, ty: ValType::I64 },
        0x5b => op == LiftOp::Compare { op: CmpOp::FEq, ty: ValType::F32 },
        0x5c => op == LiftOp::Compare { op: CmpOp::FNe, ty: ValType::F32 },
        0x5d => op == LiftOp::Compare { op: CmpOp::FLt, ty: ValType::F32 },
        0x5e => op == LiftOp::Compare { op: CmpOp::FGt, ty: ValType::F32 },
        0x5f => op == LiftOp::Compare { op: CmpOp::FLe, ty: ValType::F32 },
        0x60 => op == LiftOp::Compare { op: CmpOp::FGe, ty: ValType::F32 },
        0x61 => op == LiftOp::Compare { op: CmpOp::FEq, ty: ValType::F64 },
        0x62 => op == LiftOp::Compare { op: CmpOp::FNe, ty: ValType::F64 },
        0x63 => op == LiftOp::Compare { op: CmpOp::FLt, ty: ValType::F64 },
        0x64 => op == LiftOp::Compare { op: CmpOp::FGt, ty: ValType::F64 },
        0x65 => op == LiftOp::Compare { op: CmpOp::FLe, ty: ValType::F64 },
        0x66 => op == LiftOp::Compare { op: CmpOp::FGe, ty: ValType::F64 },
        0x67 => op == LiftOp::Unary { op: UnaryOp::Clz, ty: ValType::I32 },
        0x68 => op == LiftOp::Unary { op: UnaryOp::Ctz, ty: ValType::I32 },
        0x69 => op == LiftOp::Unary { op: UnaryOp::Popcnt, ty: ValType::I32 },
        0x6a => op == LiftOp::Binary { op: BinOp::Add, ty: ValType::I32 },
        0x6b => op == LiftOp::Binary { op: BinOp::Sub, ty: ValType::I32 },
        0x6c => op == LiftOp::Binary { op: BinOp::Mul, ty: ValType::I32 },
        0x6d => op == LiftOp::Binary { op: BinOp::DivS, ty: ValType::I32 },
        0x6e => op == LiftOp::Binary { op: BinOp::DivU, ty: ValType::I32 },
        0x6f => op == LiftOp::Binary { op: BinOp::RemS, ty: ValType::I32 },
        0x70 => op == LiftOp::Binary { op: BinOp::RemU, ty: ValType::I32 },
        0x71 => op == LiftOp::Binary { op: BinOp::And, ty: ValType::I32 },
        0x72 => op == LiftOp::Binary { op: BinOp::Or, ty: ValType::I32 },
        0x73 => op == LiftOp::Binary { op: BinOp::Xor, ty: ValType::I32 },
        0x74 => op == LiftOp::Binary { op: BinOp::Shl, ty: ValType::I32 },
        0x75 => op == LiftOp::Binary { op: BinOp::ShrS, ty: ValType::I32 },
        0x76 => op == LiftOp::Binary { op: BinOp::ShrU, ty: ValType::I32 },
        0x77 => op == LiftOp::Binary { op: BinOp::Rotl, ty: ValType::I32 },
        0x78 => op == LiftOp::Binary { op: BinOp::Rotr, ty: ValType::I32 },
        0x79 => op == LiftOp::Unary { op: UnaryOp::Clz, ty: ValType::I64 },
        0x7a => op == LiftOp::Unary { op: UnaryOp::Ctz, ty: ValType::I64 },
        0x7b => op == LiftOp::Unary { op: UnaryOp::Popcnt, ty: ValType::I64 },
        0x7c => op == LiftOp::Binary { op: BinOp::Add, ty: ValType::I64 },
        0x7d => op == LiftOp::Binary { op: BinOp::Sub, ty: ValType::I64 },
        0x7e => op == LiftOp::Binary { op: BinOp::Mul, ty: ValType::I64 },
        0x7f => op == LiftOp::Binary { op: BinOp::DivS, ty: ValType::I64 },
        0x80 => op == LiftOp::Binary { op: BinOp::DivU, ty: ValType::I64 },
        0x81 => op == LiftOp::Binary { op: BinOp::RemS, ty: ValType::I64 },
        0x82 => op == LiftOp::Binary { op: BinOp::RemU, ty: ValType::I64 },
        0x83 => op == LiftOp::Binary { op: BinOp::And, ty: ValType::I64 },
        0x84 => op == LiftOp::Binary { op: BinOp::Or, ty: ValType::I64 },
        0x85 => op == LiftOp::Binary { op: BinOp::Xor, ty: ValType::I64 },
        0x86 => op == LiftOp::Binary { op: BinOp::Shl, ty: ValType::I64 },
        0x87 => op == LiftOp::Binary { op: BinOp::ShrS, ty: ValType::I64 },
        0x88 => op == LiftOp::Binary { op: BinOp::ShrU, ty: ValType::I64 },
        0x89 => op == LiftOp::Binary { op: BinOp::Rotl, ty: ValType::I64 },
        0x8a => op == LiftOp::Binary { op: BinOp::Rotr, ty: ValType::I64 },
        0x8b => op == LiftOp::Unary { op: UnaryOp::FAbs, ty: ValType::F32 },
        0x8c => op == LiftOp::Unary { op: UnaryOp::FNeg, ty: ValType::F32 },
        0x8d => op == LiftOp::Unary { op: UnaryOp::FCeil, ty: ValType::F32 },
        0x8e => op == LiftOp::Unary { op: UnaryOp::FFloor, ty: ValType::F32 },
        0x8f => op == LiftOp::Unary { op: UnaryOp::FTrunc, ty: ValType::F32 },
        0x90 => op == LiftOp::Unary { op: UnaryOp::FNearest, ty: ValType::F32 },
        0x91 => op == LiftOp::Unary { op: UnaryOp::FSqrt, ty: ValType::F32 },
        0x92 => op == LiftOp::Binary { op: BinOp::FAdd, ty: ValType::F32 },
        0x93 => op == LiftOp::Binary { op: BinOp::FSub, ty: ValType::F32 },
        0x94 => op == LiftOp::Binary { op: BinOp::FMul, ty: ValType::F32 },
        0x95 => op == LiftOp::Binary { op: BinOp::FDiv, ty: ValType::F32 },
        0x96 => op == LiftOp::Binary { op: BinOp::FMin, ty: ValType::F32 },
        0x97 => op == LiftOp::Binary { op: BinOp::FMax, ty: ValType::F32 },
        0x98 => op == LiftOp::Binary { op: BinOp::FCopysign, ty: ValType::F32 },
        0x99 => op == LiftOp::Unary { op: UnaryOp::FAbs, ty: ValType::F64 },
        0x9a => op == LiftOp::Unary { op: UnaryOp::FNeg, ty: ValType::F64 },
        0x9b => op == LiftOp::Unary { op: UnaryOp::FCeil, ty: ValType::F64 },
        0x9c => op == LiftOp::Unary { op: UnaryOp::FFloor, ty: ValType::F64 },
        0x9d => op == LiftOp::Unary { op: UnaryOp::FTrunc, ty: ValType::F64 },
        0x9e => op == LiftOp::Unary { op: UnaryOp::FNearest, ty: ValType::F64 },
        0x9f => op == LiftOp::Unary { op: UnaryOp::FSqrt, ty: ValType::F64 },
        0xa0 => op == LiftOp::Binary { op: BinOp::FAdd, ty: ValType::F64 },
        0xa1 => op == LiftOp::Binary { op: BinOp::FSub, ty: ValType::F64 },
        0xa2 => op == LiftOp::Binary { op: BinOp::FMul, ty: ValType::F64 },
        0xa3 => op == LiftOp::Binary { op: BinOp::FDiv, ty: ValType::F64 },
        0xa4 => op == LiftOp::Binary { op: BinOp::FMin, ty: ValType::F64 },
        0xa5 => op == LiftOp::Binary { op: BinOp::FMax, ty: ValType::F64 },
        0xa6 => op == LiftOp::Binary { op: BinOp::FCopysign, ty: ValType::F64 },
        0xa7 => op == LiftOp::Convert { op: ConvertOp::I32WrapI64, ty: ValType::I32 },
        0xa8 => op == LiftOp::Convert { op: ConvertOp::I32TruncF32S, ty: ValType::I32 },
        0xa9 => op == LiftOp::Convert { op: ConvertOp::I32TruncF32U, ty: ValType::I32 },
        0xaa => op == LiftOp::Convert { op: ConvertOp::I32TruncF64S, ty: ValType::I32 },
        0xab => op == LiftOp::Convert { op: ConvertOp::I32TruncF64U, ty: ValType::I32 },
        0xac => op == LiftOp::Convert { op: ConvertOp::I64ExtendI32S, ty: ValType::I64 },
        0xad => op == LiftOp::Convert { op: ConvertOp::I64ExtendI32U, ty: ValType::I64 },
        0xae => op == LiftOp::Convert { op: ConvertOp::I64TruncF32S, ty: ValType::I64 },
        0xaf => op == LiftOp::Convert { op: ConvertOp::I64TruncF32U, ty: ValType::I64 },
        0xb0 => op == LiftOp::Convert { op: ConvertOp::I64TruncF64S, ty: ValType::I64 },
        0xb1 => op == LiftOp::Convert { op: ConvertOp::I64TruncF64U, ty: ValType::I64 },
        0xb2 => op == LiftOp::Convert { op: ConvertOp::F32ConvertI32S, ty: ValType::F32 },
        0xb3 => op == LiftOp::Convert { op: ConvertOp::F32ConvertI32U, ty: ValType::F32 },
        0xb4 => op == LiftOp::Convert { op: ConvertOp::F32ConvertI64S, ty: ValType::F32 },
        0xb5 => op == LiftOp::Convert { op: ConvertOp::F32ConvertI64U, ty: ValType::F32 },
        0xb6 => op == LiftOp::Convert { op: ConvertOp::F32DemoteF64, ty: ValType::F32 },
        0xb7 => op == LiftOp::Convert { op: ConvertOp::F64ConvertI32S, ty: ValType::F64 },
        0xb8 => op == LiftOp::Convert { op: ConvertOp::F64ConvertI32U, ty: ValType::F64 },
        0xb9 => op == LiftOp::Convert { op: ConvertOp::F64ConvertI64S, ty: ValType::F64 },
        0xba => op == LiftOp::Convert { op: ConvertOp::F64ConvertI64U, ty: ValType::F64 },
        0xbb => op == LiftOp::Convert { op: ConvertOp::F64PromoteF32, ty: ValType::F64 },
        0xbc => op == LiftOp::Convert { op: ConvertOp::I32ReinterpretF32, ty: ValType::I32 },
        0xbd => op == LiftOp::Convert { op: ConvertOp::I64ReinterpretF64, ty: ValType::I64 },
        0xbe => op == LiftOp::Convert { op: ConvertOp::F32ReinterpretI32, ty: ValType::F32 },
        0xbf => op == LiftOp::Convert { op: ConvertOp::F64ReinterpretI64, ty: ValType::F64 },
        0xc0 => op == LiftOp::Convert { op: ConvertOp::I32Extend8S, ty: ValType::I32 },
        0xc1 => op == LiftOp::Convert { op: ConvertOp::I32Extend16S, ty: ValType::I32 },
        0xc2 => op == LiftOp::Convert { op: ConvertOp::I64Extend8S, ty: ValType::I64 },
        0xc3 => op == LiftOp::Convert { op: ConvertOp::I64Extend16S, ty: ValType::I64 },
        0xc4 => op == LiftOp::Convert { op: ConvertOp::I64Extend32S, ty: ValType::I64 },
        0xd0 => op == LiftOp::Other,
        0xd1 => op == LiftOp::Other,
        0xd2 => op == LiftOp::Other,
        _ => op == LiftOp::Other,
    }
}

/// The same for an opcode after the `0xfc` prefix.
pub open spec fn prefixed_lift_op_is(op: LiftOp, sub: u32, ops: OperandsV) -> bool {
    match sub {
        0x00 => op == LiftOp::Convert { op: ConvertOp::I32TruncSatF32S, ty: ValType::I32 },
        0x01 => op == LiftOp::Convert { op: ConvertOp::I32TruncSatF32U, ty: ValType::I32 },
        0x02 => op == LiftOp::Convert { op: ConvertOp::I32TruncSatF64S, ty: ValType::I32 },
        0x03 => op == LiftOp::Convert { op: ConvertOp::I32TruncSatF64U, ty: ValType::I32 },
        0x04 => op == LiftOp::Convert { op: ConvertOp::I64TruncSatF32S, ty: ValType::I64 },
        0x05 => op == LiftOp::Convert { op: ConvertOp::I64TruncSatF32U, ty: ValType::I64 },
        0x06 => op == LiftOp::Convert { op: ConvertOp::I64TruncSatF64S, ty: ValType::I64 },
        0x07 => op == LiftOp::Convert { op: ConvertOp::I64TruncSatF64U, ty: ValType::I64 },
        0x08 => op == LiftOp::Other,
        0x09 => op == LiftOp::Other,
        0x0a => op == LiftOp::MemoryCopy,
        0x0b => op == LiftOp::MemoryFill,
        0x0c => op == LiftOp::Other,
        0x0d => op == LiftOp::Other,
        0x0e => op == LiftOp::Other,
        0x0f => op == LiftOp::Other,
        0x10 => op == LiftOp::Other,
        0x11 => op == LiftOp::Other,
        _ => op == LiftOp::Other,
    }
}

/// The lifter's operator for the instruction with one-byte opcode `code`.
pub fn lift_op_from(code: u8, ops: &Operands) -> (r: LiftOp)
    ensures
        lift_op_is(r, code, ops@),
{
    match code {
        0x00 => LiftOp::Unreachable,
        0x01 => LiftOp::Nop,
        0x02 => match ops { Operands::BlockType(b) => LiftOp::Block(*b), _ => LiftOp::Other },
        0x03 => match ops { Operands::BlockType(b) => LiftOp::Loop(*b), _ => LiftOp::Other },
        0x04 => match ops { Operands::BlockType(b) => LiftOp::If(*b), _ => LiftOp::Other },
        0x05 => LiftOp::Else,
        0x0b => LiftOp::End,
        0x0c => match ops { Operands::Index(i) => LiftOp::Br(*i), _ => LiftOp::Other },
        0x0d => match ops { Operands::Index(i) => LiftOp::BrIf(*i), _ => LiftOp::Other },
        0x0e => match ops { Operands::BrTable { labels, default } => LiftOp::BrTable { targets: copy_u32s(labels), default: *default }, _ => LiftOp::Other },
        0x0f => LiftOp::Return,
        0x10 => match ops { Operands::Index(i) => LiftOp::Call(*i), _ => LiftOp::Other },
        0x11 => match ops { Operands::Indexes(a, b) => LiftOp::CallIndirect { type_index: *a, table_index: *b }, _ => LiftOp::Other },
        0x1a => LiftOp::Drop,
        0x1b => LiftOp::Select,
        0x1c => LiftOp::Other,
        0x20 => match ops { Operands::Index(i) => LiftOp::LocalGet(*i), _ => LiftOp::Other },
        0x21 => match ops { Operands::Index(i) => LiftOp::LocalSet(*i), _ => LiftOp::Other },
        0x22 => match ops { Operands::Index(i) => LiftOp::LocalTee(*i), _ => LiftOp::Other },
        0x23 => match ops { Operands::Index(i) => LiftOp::GlobalGet(*i), _ => LiftOp::Other },
        0x24 => match ops { Operands::Index(i) => LiftOp::GlobalSet(*i), _ => LiftOp::Other },
        0x25 => LiftOp::Other,
        0x26 => LiftOp::Other,
        0x28 => match ops { Operands::MemArg { offset, .. } => LiftOp::Load { size: MemSize::I32, signed: false, offset: *offset }, _ => LiftOp::Other },
        0x29 => match ops { Operands::MemArg { offset, .. } => LiftOp::Load { size: MemSize::I64, signed: false, offset: *offset }, _ => LiftOp::Other },
        0x2a => match ops { Operands::MemArg { offset, .. } => LiftOp::Load { size: MemSize::F32, signed: false, offset: *offset }, _ => LiftOp::Other },
        0x2b => match ops { Operands::MemArg { offset, .. } => LiftOp::Load { size: MemSize::F64, signed: false, offset: *offset }, _ => LiftOp::Other },
        0x2c => match ops { Operands::MemArg { offset, .. } => LiftOp::Load { size: MemSize::I8, signed: true, offset: *offset }, _ => LiftOp::Other },
        0x2d => match ops { Operands::MemArg { offset, .. } => LiftOp::Load { size: MemSize::I8, signed: false, offset: *offset }, _ => LiftOp::Other },
        0x2e => match ops { Operands::MemArg { offset, .. } => LiftOp::Load { size: MemSize::I16, signed: true, offset: *offset }, _ => LiftOp::Other },
        0x2f => match ops { Operands::MemArg { offset, .. } => LiftOp::Load { size: MemSize::I16, signed: false, offset: *offset }, _ => LiftOp::Other },
        0x30 => match ops { Operands::MemArg { offset, .. } => LiftOp::Load { size: MemSize::I8, signed: true, offset: *offset }, _ => LiftOp::Other },
        0x31 => match ops { Operands::MemArg { offset, .. } => LiftOp::Load { size: MemSize::I8, signed: false, offset: *offset }, _ => LiftOp::Other },
        0x32 => match ops { Operands::MemArg { offset, .. } => LiftOp::Load { size: MemSize::I16, signed: true, offset: *offset }, _ => LiftOp::Other },
        0x33 => match ops { Operands::MemArg { offset, .. } => LiftOp::Load { size: MemSize::I16, signed: false, offset: *offset }, _ => LiftOp::Other },
        0x34 => match ops { Operands::MemArg { offset, .. } => LiftOp::Load { size: MemSize::I32, signed: true, offset: *offset }, _ => LiftOp::Other },
        0x35 => match ops { Operands::MemArg { offset, .. } => LiftOp::Load { size: MemSize::I32, signed: false, offset: *offset }, _ => LiftOp::Other },
        0x36 => match ops { Operands::MemArg { offset, .. } => LiftOp::Store { size: MemSize::I32, offset: *offset }, _ => LiftOp::Other },
        0x37 => match ops { Operands::MemArg { offset, .. } => LiftOp::Store { size: MemSize::I64, offset: *offset }, _ => LiftOp::Other },
        0x38 => match ops { Operands::MemArg { offset, .. } => LiftOp::Store { size: MemSize::F32, offset: *offset }, _ => LiftOp::Other },
        0x39 => match ops { Operands::MemArg { offset, .. } => LiftOp::Store { size: MemSize::F64, offset: *offset }, _ => LiftOp::Other },
        0x3a => match ops { Operands::MemArg { offset, .. } => LiftOp::Store { size: MemSize::I8, offset: *offset }, _ => LiftOp::Other },
        0x3b => match ops { Operands::MemArg { offset, .. } => LiftOp::Store { size: MemSize::I16, offset: *offset }, _ => LiftOp::Other },
        0x3c => match ops { Operands::MemArg { offset, .. } => LiftOp::Store { size: MemSize::I8, offset: *offset }, _ => LiftOp::Other },
        0x3d => match ops { Operands::MemArg { offset, .. } => LiftOp::Store { size: MemSize::I16, offset: *offset }, _ => LiftOp::Other },
        0x3e => match ops { Operands::MemArg { offset, .. } => LiftOp::Store { size: MemSize::I32, offset: *offset }, _ => LiftOp::Other },
        0x3f => LiftOp::MemorySize,
        0x40 => LiftOp::MemoryGrow,
        0x41 => match ops { Operands::I32(v) => LiftOp::I32Const(*v), _ => LiftOp::Other },
        0x42 => match ops { Operands::I64(v) => LiftOp::I64Const(*v), _ => LiftOp::Other },
        0x43 => match ops { Operands::F32(v) => LiftOp::F32Const(*v), _ => LiftOp::Other },
        0x44 => match ops { Operands::F64(v) => LiftOp::F64Const(*v), _ => LiftOp::Other },
        0x45 => LiftOp::Unary { op: UnaryOp::Eqz, ty: ValType::I32 },
        0x46 => LiftOp::Compare { op: CmpOp::Eq, ty: ValType::I32 },
        0x47 => LiftOp::Compare { op: CmpOp::Ne, ty: ValType::I32 },
        0x48 => LiftOp::Compare { op: CmpOp::LtS, ty: ValType::I32 },
        0x49 => LiftOp::Compare { op: CmpOp::LtU, ty: ValType::I32 },
        0x4a => LiftOp::Compare { op: CmpOp::GtS, ty: ValType::I32 },
        0x4b => LiftOp::Compare { op: CmpOp::GtU, ty: ValType::I32 },
        0x4c => LiftOp::Compare { op: CmpOp::LeS, ty: ValType::I32 },
        0x4d => LiftOp::Compare { op: CmpOp::LeU, ty: ValType::I32 },
        0x4e => LiftOp::Compare { op: CmpOp::GeS, ty: ValType::I32 },
        0x4f => LiftOp::Compare { op: CmpOp::GeU, ty: ValType::I32 },
        0x50 => LiftOp::Unary { op: UnaryOp::Eqz, ty: ValType::I64 },
        0x51 => LiftOp::Compare { op: CmpOp::Eq, ty: ValType::I64 },
        0x52 => LiftOp::Compare { op: CmpOp::Ne, ty: ValType::I64 },
        0x53 => LiftOp::Compare { op: CmpOp::LtS, ty: ValType::I64 },
        0x54 => LiftOp::Compare { op: CmpOp::LtU, ty: ValType::I64 },
        0x55 => LiftOp::Compare { op: CmpOp::GtS, ty: ValType::I64 },
        0x56 => LiftOp::Compare { op: CmpOp::GtU, ty: ValType::I64 },
        0x57 => LiftOp::Compare { op: CmpOp::LeS, ty: ValType::I64 },
        0x58 => LiftOp::Compare { op: CmpOp::LeU, ty: ValType::I64 },
        0x59 => LiftOp::Compare { op: CmpOp::GeS, ty: ValType::I64 },
        0x5a => LiftOp::Compare { op: CmpOp::GeU, ty: ValType::I64 },
        0x5b => LiftOp::Compare { op: CmpOp::FEq, ty: ValType::F32 },
        0x5c => LiftOp::Compare { op: CmpOp::FNe, ty: ValType::F32 },
        0x5d => LiftOp::Compare { op: CmpOp::FLt, ty: ValType::F32 },
        0x5e => LiftOp::Compare { op: CmpOp::FGt, ty: ValType::F32 },
        0x5f => LiftOp::Compare { op: CmpOp::FLe, ty: ValType::F32 },
        0x60 => LiftOp::Compare { op: CmpOp::FGe, ty: ValType::F32 },
        0x61 => LiftOp::Compare { op: CmpOp::FEq, ty: ValType::F64 },
        0x62 => LiftOp::Compare { op: CmpOp::FNe, ty: ValType::F64 },
        0x63 => LiftOp::Compare { op: CmpOp::FLt, ty: ValType::F64 },
        0x64 => LiftOp::Compare { op: CmpOp::FGt, ty: ValType::F64 },
        0x65 => LiftOp::Compare { op: CmpOp::FLe, ty: ValType::F64 },
        0x66 => LiftOp::Compare { op: CmpOp::FGe, ty: ValType::F64 },
        0x67 => LiftOp::Unary { op: UnaryOp::Clz, ty: ValType::I32 },
        0x68 => LiftOp::Unary { op: UnaryOp::Ctz, ty: ValType::I32 },
        0x69 => LiftOp::Unary { op: UnaryOp::Popcnt, ty: ValType::I32 },
        0x6a => LiftOp::Binary { op: BinOp::Add, ty: ValType::I32 },
        0x6b => LiftOp::Binary { op: BinOp::Sub, ty: ValType::I32 },
        0x6c => LiftOp::Binary { op: BinOp::Mul, ty: ValType::I32 },
        0x6d => LiftOp::Binary { op: BinOp::DivS, ty: ValType::I32 },
        0x6e => LiftOp::Binary { op: BinOp::DivU, ty: ValType::I32 },
        0x6f => LiftOp::Binary { op: BinOp::RemS, ty: ValType::I32 },
        0x70 => LiftOp::Binary { op: BinOp::RemU, ty: ValType::I32 },
        0x71 => LiftOp::Binary { op: BinOp::And, ty: ValType::I32 },
        0x72 => LiftOp::Binary { op: BinOp::Or, ty: ValType::I32 },
        0x73 => LiftOp::Binary { op: BinOp::Xor, ty: ValType::I32 },
        0x74 => LiftOp::Binary { op: BinOp::Shl, ty: ValType::I32 },
        0x75 => LiftOp::Binary { op: BinOp::ShrS, ty: ValType::I32 },
        0x76 => LiftOp::Binary { op: BinOp::ShrU, ty: ValType::I32 },
        0x77 => LiftOp::Binary { op: BinOp::Rotl, ty: ValType::I32 },
        0x78 => LiftOp::Binary { op: BinOp::Rotr, ty: ValType::I32 },
        0x79 => LiftOp::Unary { op: UnaryOp::Clz, ty: ValType::I64 },
        0x7a => LiftOp::Unary { op: UnaryOp::Ctz, ty: ValType::I64 },
        0x7b => LiftOp::Unary { op: UnaryOp::Popcnt, ty: ValType::I64 },
        0x7c => LiftOp::Binary { op: BinOp::Add, ty: ValType::I64 },
        0x7d => LiftOp::Binary { op: BinOp::Sub, ty: ValType::I64 },
        0x7e => LiftOp::Binary { op: BinOp::Mul, ty: ValType::I64 },
        0x7f => LiftOp::Binary { op: BinOp::DivS, ty: ValType::I64 },
        0x80 => LiftOp::Binary { op: BinOp::DivU, ty: ValType::I64 },
        0x81 => LiftOp::Binary { op: BinOp::RemS, ty: ValType::I64 },
        0x82 => LiftOp::Binary { op: BinOp::RemU, ty: ValType::I64 },
        0x83 => LiftOp::Binary { op: BinOp::And, ty: ValType::I64 },
        0x84 => LiftOp::Binary { op: BinOp::Or, ty: ValType::I64 },
        0x85 => LiftOp::Binary { op: BinOp::Xor, ty: ValType::I64 },
        0x86 => LiftOp::Binary { op: BinOp::Shl, ty: ValType::I64 },
        0x87 => LiftOp::Binary { op: BinOp::ShrS, ty: ValType::I64 },
        0x88 => LiftOp::Binary { op: BinOp::ShrU, ty: ValType::I64 },
        0x89 => LiftOp::Binary { op: BinOp::Rotl, ty: ValType::I64 },
        0x8a => LiftOp::Binary { op: BinOp::Rotr, ty: ValType::I64 },
        0x8b => LiftOp::Unary { op: UnaryOp::FAbs, ty: ValType::F32 },
        0x8c => LiftOp::Unary { op: UnaryOp::FNeg, ty: ValType::F32 },
        0x8d => LiftOp::Unary { op: UnaryOp::FCeil, ty: ValType::F32 },
        0x8e => LiftOp::Unary { op: UnaryOp::FFloor, ty: ValType::F32 },
        0x8f => LiftOp::Unary { op: UnaryOp::FTrunc, ty: ValType::F32 },
        0x90 => LiftOp::Unary { op: UnaryOp::FNearest, ty: ValType::F32 },
        0x91 => LiftOp::Unary { op: UnaryOp::FSqrt, ty: ValType::F32 },
        0x92 => LiftOp::Binary { op: BinOp::FAdd, ty: ValType::F32 },
        0x93 => LiftOp::Binary { op: BinOp::FSub, ty: ValType::F32 },
        0x94 => LiftOp::Binary { op: BinOp::FMul, ty: ValType::F32 },
        0x95 => LiftOp::Binary { op: BinOp::FDiv, ty: ValType::F32 },
        0x96 => LiftOp::Binary { op: BinOp::FMin, ty: ValType::F32 },
        0x97 => LiftOp::Binary { op: BinOp::FMax, ty: ValType::F32 },
        0x98 => LiftOp::Binary { op: BinOp::FCopysign, ty: ValType::F32 },
        0x99 => LiftOp::Unary { op: UnaryOp::FAbs, ty: ValType::F64 },
        0x9a => LiftOp::Unary { op: UnaryOp::FNeg, ty: ValType::F64 },
        0x9b => LiftOp::Unary { op: UnaryOp::FCeil, ty: ValType::F64 },
        0x9c => LiftOp::Unary { op: UnaryOp::FFloor, ty: ValType::F64 },
        0x9d => LiftOp::Unary { op: UnaryOp::FTrunc, ty: ValType::F64 },
        0x9e => LiftOp::Unary { op: UnaryOp::FNearest, ty: ValType::F64 },
        0x9f => LiftOp::Unary { op: UnaryOp::FSqrt, ty: ValType::F64 },
        0xa0 => LiftOp::Binary { op: BinOp::FAdd, ty: ValType::F64 },
        0xa1 => LiftOp::Binary { op: BinOp::FSub, ty: ValType::F64 },
        0xa2 => LiftOp::Binary { op: BinOp::FMul, ty: ValType::F64 },
        0xa3 => LiftOp::Binary { op: BinOp::FDiv, ty: ValType::F64 },
        0xa4 => LiftOp::Binary { op: BinOp::FMin, ty: ValType::F64 },
        0xa5 => LiftOp::Binary { op: BinOp::FMax, ty: ValType::F64 },
        0xa6 => LiftOp::Binary { op: BinOp::FCopysign, ty: ValType::F64 },
        0xa7 => LiftOp::Convert { op: ConvertOp::I32WrapI64, ty: ValType::I32 },
        0xa8 => LiftOp::Convert { op: ConvertOp::I32TruncF32S, ty: ValType::I32 },
        0xa9 => LiftOp::Convert { op: ConvertOp::I32TruncF32U, ty: ValType::I32 },
        0xaa => LiftOp::Convert { op: ConvertOp::I32TruncF64S, ty: ValType::I32 },
        0xab => LiftOp::Convert { op: ConvertOp::I32TruncF64U, ty: ValType::I32 },
        0xac => LiftOp::Convert { op: ConvertOp::I64ExtendI32S, ty: ValType::I64 },
        0xad => LiftOp::Convert { op: ConvertOp::I64ExtendI32U, ty: ValType::I64 },
        0xae => LiftOp::Convert { op: ConvertOp::I64TruncF32S, ty: ValType::I64 },
        0xaf => LiftOp::Convert { op: ConvertOp::I64TruncF32U, ty: ValType::I64 },
        0xb0 => LiftOp::Convert { op: ConvertOp::I64TruncF64S, ty: ValType::I64 },
        0xb1 => LiftOp::Convert { op: ConvertOp::I64TruncF64U, ty: ValType::I64 },
        0xb2 => LiftOp::Convert { op: ConvertOp::F32ConvertI32S, ty: ValType::F32 },
        0xb3 => LiftOp::Convert { op: ConvertOp::F32ConvertI32U, ty: ValType::F32 },
        0xb4 => LiftOp::Convert { op: ConvertOp::F32ConvertI64S, ty: ValType::F32 },
        0xb5 => LiftOp::Convert { op: ConvertOp::F32ConvertI64U, ty: ValType::F32 },
        0xb6 => LiftOp::Convert { op: ConvertOp::F32DemoteF64, ty: ValType::F32 },
        0xb7 => LiftOp::Convert { op: ConvertOp::F64ConvertI32S, ty: ValType::F64 },
        0xb8 => LiftOp::Convert { op: ConvertOp::F64ConvertI32U, ty: ValType::F64 },
        0xb9 => LiftOp::Convert { op: ConvertOp::F64ConvertI64S, ty: ValType::F64 },
        0xba => LiftOp::Convert { op: ConvertOp::F64ConvertI64U, ty: ValType::F64 },
        0xbb => LiftOp::Convert { op: ConvertOp::F64PromoteF32, ty: ValType::F64 },
        0xbc => LiftOp::Convert { op: ConvertOp::I32ReinterpretF32, ty: ValType::I32 },
        0xbd => LiftOp::Convert { op: ConvertOp::I64ReinterpretF64, ty: ValType::I64 },
        0xbe => LiftOp::Convert { op: ConvertOp::F32ReinterpretI32, ty: ValType::F32 },
        0xbf => LiftOp::Convert { op: ConvertOp::F64ReinterpretI64, ty: ValType::F64 },
        0xc0 => LiftOp::Convert { op: ConvertOp::I32Extend8S, ty: ValType::I32 },
        0xc1 => LiftOp::Convert { op: ConvertOp::I32Extend16S, ty: ValType::I32 },
        0xc2 => LiftOp::Convert { op: ConvertOp::I64Extend8S, ty: ValType::I64 },
        0xc3 => LiftOp::Convert { op: ConvertOp::I64Extend16S, ty: ValType::I64 },
        0xc4 => LiftOp::Convert { op: ConvertOp::I64Extend32S, ty: ValType::I64 },
        0xd0 => LiftOp::Other,
        0xd1 => LiftOp::Other,
        0xd2 => LiftOp::Other,
        _ => LiftOp::Other,
    }
}

/// The lifter's operator for the instruction with opcode `sub` after the `0xfc` prefix.
pub fn prefixed_lift_op_from(sub: u32, ops: &Operands) -> (r: LiftOp)
    ensures
        prefixed_lift_op_is(r, sub, ops@),
{
    match sub {
        0x00 => LiftOp::Convert { op: ConvertOp::I32TruncSatF32S, ty: ValType::I32 },
        0x01 => LiftOp::Convert { op: ConvertOp::I32TruncSatF32U, ty: ValType::I32 },
        0x02 => LiftOp::Convert { op: ConvertOp::I32TruncSatF64S, ty: ValType::I32 },
        0x03 => LiftOp::Convert { op: ConvertOp::I32TruncSatF64U, ty: ValType::I32 },
        0x04 => LiftOp::Convert { op: ConvertOp::I64TruncSatF32S, ty: ValType::I64 },
        0x05 => LiftOp::Convert { op: ConvertOp::I64TruncSatF32U, ty: ValType::I64 },
        0x06 => LiftOp::Convert { op: ConvertOp::I64TruncSatF64S, ty: ValType::I64 },
        0x07 => LiftOp::Convert { op: ConvertOp::I64TruncSatF64U, ty: ValType::I64 },
        0x08 => LiftOp::Other,
        0x09 => LiftOp::Other,
        0x0a => LiftOp::MemoryCopy,
        0x0b => LiftOp::MemoryFill,
        0x0c => LiftOp::Other,
        0x0d => LiftOp::Other,
        0x0e => LiftOp::Other,
        0x0f => LiftOp::Other,
        0x10 => LiftOp::Other,
        0x11 => LiftOp::Other,
        _ => LiftOp::Other,
    }
}

/// `op` is the lifter's operator for the instruction `i` decoded at `p`.
pub open spec fn lift_op_at(op: LiftOp, data: Seq<u8>, p: usize, i: InstructionV) -> bool {
    if data[p as int] == 0xfc {
        match wasm_var_u32(data, (p + 1) as usize) {
            Some((sub, _)) => prefixed_lift_op_is(op, sub, i.operands),
            None => op == LiftOp::Other,
        }
    } else {
        lift_op_is(op, data[p as int], i.operands)
    }
}

/// `ops` are the lifter's operators for the instructions from `p` to `end`.
pub open spec fn ops_at(data: Seq<u8>, end: usize, p: usize, ops: Seq<LiftOp>) -> bool
    decreases ops.len(),
{
    if ops.len() == 0 {
        p == end
    } else {
        p < end && match spec_decode_at(data, p) {
            Some(i) => 1 <= i.len && p + i.len <= end && lift_op_at(ops[0], data, p, i)
                && ops_at(data, end, (p + i.len) as usize, ops.drop_first()),
            None => false,
        }
    }
}

/// The instructions from `p` on decode, each within `end`, up to `end`.
pub open spec fn decodes_to_end(data: Seq<u8>, end: usize, p: usize) -> bool
    decreases end - p,
{
    if p >= end {
        p == end
    } else {
        match spec_decode_at(data, p) {
            Some(i) => 1 <= i.len && p + i.len <= end && decodes_to_end(data, end, (p + i.len) as usize),
            None => false,
        }
    }
}

/// The operators of the function body from `start` to `end` decode.
pub open spec fn body_decodes(data: Seq<u8>, start: usize, end: usize) -> bool {
    match wasm_code_start(data, start, end) {
        Some(c) => decodes_to_end(data, end, c),
        None => false,
    }
}

/// `ops` are the lifter's operators of the function body from `start` to `end`.
pub open spec fn body_ops(data: Seq<u8>, start: usize, end: usize, ops: Seq<LiftOp>) -> bool {
    match wasm_code_start(data, start, end) {
        Some(c) => ops_at(data, end, c, ops),
        None => false,
    }
}

proof fn lemma_ops_at_step(data: Seq<u8>, end: usize, p: usize, op: LiftOp, rest: Seq<LiftOp>)
    requires
        p < end,
        spec_decode_at(data, p) matches Some(i) && 1 <= i.len && p + i.len <= end && lift_op_at(op, data, p, i)
            && ops_at(data, end, (p + i.len) as usize, rest),
    ensures
        ops_at(data, end, p, seq![op] + rest),
{
    assert((seq![op] + rest).drop_first() =~= rest);
}

/// The lifter's operators of the function body from `start` to `end`,
/// decoded from its bytes after its local declarations; none where one does
/// not decode within the body.
pub fn read_body_ops(data: &[u8], start: usize, end: usize) -> (r: Option<Vec<LiftOp>>)
    requires
        start <= end <= data@.len(),
    ensures
        r is Some <==> body_decodes(data@, start, end),
        r matches Some(v) ==> body_ops(data@, start, end, v@),
{
    let c = match read_code_start_at(data, start, end) {
        Some(c) => c,
        None => return None,
    };
    let mut v: Vec<LiftOp> = Vec::new();
    let mut p = c;
    while p < end
        invariant
            c <= p <= end <= data@.len(),
            wasm_code_start(data@, start, end) == Some(c),
            decodes_to_end(data@, end, p) == decodes_to_end(data@, end, c),
            forall|rest: Seq<LiftOp>| #[trigger] ops_at(data@, end, p, rest) ==> ops_at(data@, end, c, v@ + rest),
        decreases end - p,
    {
        let instr = match decode_at(data, p) {
            Some(i) => i,
            None => {
                assert(!decodes_to_end(data@, end, p));
                return None;
            },
        };
        if instr.len > end - p {
            assert(!decodes_to_end(data@, end, p));
            return None;
        }
        let op = if data[p] == 0xfc {
            match read_var_u32_at(data, p + 1) {
                Some((sub, _)) => prefixed_lift_op_from(sub, &instr.operands),
                None => LiftOp::Other,
            }
        } else {
            lift_op_from(data[p], &instr.operands)
        };
        let q = p + instr.len;
        assert(decodes_to_end(data@, end, p) == decodes_to_end(data@, end, q));
        let ghost vv = v@;
        proof {
            assert forall|rest: Seq<LiftOp>| #[trigger] ops_at(data@, end, q, rest) implies ops_at(data@, end, c, vv.push(op) + rest) by {
                lemma_ops_at_step(data@, end, p, op, rest);
                assert(vv.push(op) + rest =~= vv + (seq![op] + rest));
            }
        }
        v.push(op);
        p = q;
    }
    proof {
        assert(ops_at(data@, end, p, Seq::<LiftOp>::empty()));
        assert(v@ + Seq::<LiftOp>::empty() =~= v@);
    }
    Some(v)
}

} // verus!
