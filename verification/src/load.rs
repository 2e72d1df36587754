//! Reading a binary module into IR: the sections are read with `wasmparser`,
//! payload by payload, and the function bodies are lifted from the operators
//! handed in for them.
use vstd::prelude::*;
use crate::disasm::decode::{read_operator_at, read_var_u32_at, wasm_operator, ConstOperand};
use crate::disasm::module::{ExportKind, GlobalValType};
use crate::disasm::parse::{
    import_name, in_module, joined_name, name_is_name, names_from, names_view, read_function_names, section_count,
    type_indices_from, wrap_add, wrap_inc,
};
use crate::disasm::reader::{
    read_payloads, wasm_payloads, read_custom_at, wasm_custom, read_const_expr_end_at, read_data_at, read_element_items_at,
    read_element_place_at, read_export_at, read_func_param_at, read_func_result_at, read_global_at,
    read_import_count_at, read_import_global_type_at, read_import_names_at, read_import_type_at, read_local_decl_at,
    read_memory_type_at, read_rec_group_at, wasm_const_expr_end, wasm_data, wasm_element_items, wasm_element_place,
    wasm_export, wasm_func_param, wasm_func_result, wasm_global, wasm_import_count, wasm_import_global_type,
    wasm_import_names, wasm_import_type, wasm_local_decl, wasm_memory_type, wasm_rec_group, ElementItemsAt,
    ElementPlace, ImportType, PayloadInfo, SegmentKind,
};
use crate::ir::{
    Block, DataSegment, ElementSegment, Expr, ExprKindV, ExprV, FuncType, Function, Global, Import, ImportKind,
    InferredType, Module, ValType,
};
use crate::lift::{copy_val_types, lift_function, spec_lift_body, LiftError, LiftOp};
use crate::names::{deduplicate_func_names, is_deduplicated};
use crate::ops::{body_decodes, body_ops, read_body_ops};

verus! {

/// Why a module could not be read into IR: the part of it that failed.
#[derive(Debug, Clone, Copy, PartialEq, Eq, Structural)]
pub enum LoadError {
    Payload,
    Type,
    Import,
    Function,
    Global,
    Export,
    Memory,
    Data,
    Element,
    Locals,
    /// The operators handed in are not one list per function body.
    BodyCount,
    /// A function body could not be lifted.
    Lift(LiftError),
    /// The operators of a function body do not decode.
    Operators,
}

/// A function type as plain values.
pub struct FuncTypeV {
    pub params: Seq<ValType>,
    pub results: Seq<ValType>,
}

pub open spec fn func_types_view(v: Seq<FuncType>) -> Seq<FuncTypeV> {
    v.map_values(|t: FuncType| FuncTypeV { params: t.params@, results: t.results@ })
}

/// The numeric types among the parameters `k` to `n` of the `t`-th type of the
/// group at `pos`, after `acc`.
pub open spec fn param_types(data: Seq<u8>, pos: usize, end: usize, t: usize, k: nat, n: nat, acc: Seq<ValType>) -> Option<Seq<ValType>>
    decreases n - k,
{
    if k >= n {
        Some(acc)
    } else {
        match wasm_func_param(data, pos, end, t, k as usize) {
            Some(Some(v)) => param_types(data, pos, end, t, k + 1, n, acc.push(v)),
            Some(None) => param_types(data, pos, end, t, k + 1, n, acc),
            None => None,
        }
    }
}

/// The numeric types among the results `k` to `n` of the `t`-th type of the
/// group at `pos`, after `acc`.
pub open spec fn result_types(data: Seq<u8>, pos: usize, end: usize, t: usize, k: nat, n: nat, acc: Seq<ValType>) -> Option<Seq<ValType>>
    decreases n - k,
{
    if k >= n {
        Some(acc)
    } else {
        match wasm_func_result(data, pos, end, t, k as usize) {
            Some(Some(v)) => result_types(data, pos, end, t, k + 1, n, acc.push(v)),
            Some(None) => result_types(data, pos, end, t, k + 1, n, acc),
            None => None,
        }
    }
}

/// The function types among the types `t` on of the group at `pos`, whose
/// parameter and result counts are `g`, after `acc`.
pub open spec fn group_types(
    data: Seq<u8>,
    pos: usize,
    end: usize,
    g: Seq<Option<(usize, usize)>>,
    t: nat,
    acc: Seq<FuncTypeV>,
) -> Option<Seq<FuncTypeV>>
    decreases g.len() - t,
{
    if t >= g.len() {
        Some(acc)
    } else {
        match g[t as int] {
            Some((np, nr)) => match (
                param_types(data, pos, end, t as usize, 0, np as nat, Seq::empty()),
                result_types(data, pos, end, t as usize, 0, nr as nat, Seq::empty()),
            ) {
                (Some(ps), Some(rs)) => group_types(data, pos, end, g, t + 1, acc.push(FuncTypeV { params: ps, results: rs })),
                _ => None,
            },
            None => group_types(data, pos, end, g, t + 1, acc),
        }
    }
}

/// The function types of `n` recursion groups read from `pos` on, after
/// `acc`, and the position after them.
pub open spec fn types_from(data: Seq<u8>, end: usize, pos: usize, n: nat, acc: Seq<FuncTypeV>) -> Option<(Seq<FuncTypeV>, usize)>
    decreases n,
{
    if n == 0 {
        Some((acc, pos))
    } else if pos > end {
        None
    } else {
        match wasm_rec_group(data, pos, end) {
            Some((g, p)) => match group_types(data, pos, end, g, 0, acc) {
                Some(a2) => types_from(data, end, p, (n - 1) as nat, a2),
                None => None,
            },
            None => None,
        }
    }
}

/// `n` items of a section from `pos` on, all read and the section ending
/// after them.
pub open spec fn whole<T>(r: Option<(T, usize)>, end: usize) -> Option<T> {
    match r {
        Some((x, q)) => if q == end { Some(x) } else { None },
        None => None,
    }
}

/// The type section from `start` to `end`.
pub open spec fn type_section(data: Seq<u8>, types: Seq<FuncTypeV>, start: usize, end: usize) -> Option<Seq<FuncTypeV>> {
    match section_count(data, start, end) {
        Some((n, p)) => whole(types_from(data, end, p, n as nat, types), end),
        None => None,
    }
}

/// The function section from `start` to `end`.
pub open spec fn function_section(data: Seq<u8>, func_types: Seq<u32>, start: usize, end: usize) -> Option<Seq<u32>> {
    match section_count(data, start, end) {
        Some((n, p)) => whole(type_indices_from(data, end, p, n as nat, func_types), end),
        None => None,
    }
}

/// An import as plain values.
pub struct ImportV {
    pub module: Seq<char>,
    pub name: Seq<char>,
    pub kind: ImportKind,
}

pub open spec fn imports_view(v: Seq<Import>) -> Seq<ImportV> {
    v.map_values(|i: Import| ImportV { module: i.module@, name: i.name@, kind: i.kind })
}

/// An imported function as plain values.
pub struct ImportedFnV {
    pub index: u32,
    pub name: Option<Seq<char>>,
    pub params: Seq<ValType>,
    pub results: Seq<ValType>,
}

pub open spec fn opt_text(s: Option<String>) -> Option<Seq<char>> {
    match s {
        Some(t) => Some(t@),
        None => None,
    }
}

pub open spec fn imported_fns_view(v: Seq<Function>) -> Seq<ImportedFnV> {
    v.map_values(|f: Function| ImportedFnV { index: f.index, name: opt_text(f.name), params: f.params@, results: f.results@ })
}

/// Every function is an import: no locals and no body.
pub open spec fn all_imports(v: Seq<Function>) -> bool {
    forall|i: int| 0 <= i < v.len() ==> {
        &&& (#[trigger] v[i]).is_import
        &&& v[i].locals@.len() == 0
        &&& v[i].body.stmts@.len() == 0
    }
}

/// What the import section adds to: the function type indices, the imported
/// functions, the imports, and the count of imported functions.
pub struct ImportAcc {
    pub func_types: Seq<u32>,
    pub fns: Seq<ImportedFnV>,
    pub imports: Seq<ImportV>,
    pub count: u32,
}

/// A global's type as a value type; one that is no number counts as `i32`.
pub open spec fn num_type(t: Option<GlobalValType>) -> ValType {
    match t {
        Some(GlobalValType::I32) => ValType::I32,
        Some(GlobalValType::I64) => ValType::I64,
        Some(GlobalValType::F32) => ValType::F32,
        Some(GlobalValType::F64) => ValType::F64,
        None => ValType::I32,
    }
}

/// A function import of type `idx`: a function entry where the type exists.
pub open spec fn add_function_import(types: Seq<FuncTypeV>, a: ImportAcc, m: Seq<char>, n: Seq<char>, idx: u32) -> ImportAcc {
    let fns = if idx < types.len() {
        a.fns.push(
            ImportedFnV {
                index: a.count,
                name: Some(import_name(m, n)),
                params: types[idx as int].params,
                results: types[idx as int].results,
            },
        )
    } else {
        a.fns
    };
    ImportAcc {
        func_types: a.func_types.push(idx),
        fns,
        imports: a.imports.push(ImportV { module: m, name: n, kind: ImportKind::Function(idx) }),
        count: wrap_inc(a.count),
    }
}

/// The imports after one more; a tag is passed over.
pub open spec fn add_lift_import(
    types: Seq<FuncTypeV>,
    a: ImportAcc,
    m: Seq<char>,
    n: Seq<char>,
    ty: ImportType,
    gt: Option<GlobalValType>,
) -> ImportAcc {
    match ty {
        ImportType::Func(idx) => add_function_import(types, a, m, n, idx),
        ImportType::FuncExact(idx) => add_function_import(types, a, m, n, idx),
        ImportType::Global(_) => ImportAcc {
            imports: a.imports.push(ImportV { module: m, name: n, kind: ImportKind::Global(num_type(gt)) }),
            ..a
        },
        ImportType::Memory(_, _) => ImportAcc { imports: a.imports.push(ImportV { module: m, name: n, kind: ImportKind::Memory }), ..a },
        ImportType::Table => ImportAcc { imports: a.imports.push(ImportV { module: m, name: n, kind: ImportKind::Table }), ..a },
        ImportType::Tag => a,
    }
}

/// The imports after the items `k` to `c` of the group at `pos`.
pub open spec fn lift_import_items(
    data: Seq<u8>,
    types: Seq<FuncTypeV>,
    pos: usize,
    end: usize,
    k: nat,
    c: nat,
    a: ImportAcc,
) -> Option<ImportAcc>
    decreases c - k,
{
    if k >= c {
        Some(a)
    } else {
        match (wasm_import_names(data, pos, end, k as usize), wasm_import_type(data, pos, end, k as usize)) {
            (Some((m, n)), Some(ty)) => lift_import_items(
                data,
                types,
                pos,
                end,
                k + 1,
                c,
                add_lift_import(types, a, m, n, ty, wasm_import_global_type(data, pos, end, k as usize)),
            ),
            _ => None,
        }
    }
}

/// The imports after `n` import groups read from `pos` on, and the position after them.
pub open spec fn lift_imports_from(data: Seq<u8>, types: Seq<FuncTypeV>, end: usize, pos: usize, n: nat, a: ImportAcc) -> Option<(ImportAcc, usize)>
    decreases n,
{
    if n == 0 {
        Some((a, pos))
    } else if pos > end {
        None
    } else {
        match wasm_import_count(data, pos, end) {
            Some((c, p)) => match lift_import_items(data, types, pos, end, 0, c as nat, a) {
                Some(a2) => lift_imports_from(data, types, end, p, (n - 1) as nat, a2),
                None => None,
            },
            None => None,
        }
    }
}

/// The import section from `start` to `end`; its count of imported functions starts at zero.
pub open spec fn import_section(data: Seq<u8>, types: Seq<FuncTypeV>, a: ImportAcc, start: usize, end: usize) -> Option<ImportAcc> {
    match section_count(data, start, end) {
        Some((n, p)) => whole(lift_imports_from(data, types, end, p, n as nat, ImportAcc { count: 0, ..a }), end),
        None => None,
    }
}

pub open spec fn const_v(k: ExprKindV, ty: InferredType) -> ExprV {
    ExprV { kind: k, ty }
}

/// The value of a global's initializer from `pos` to `end`: the first constant
/// or global read in it, or `i32` zero where it ends without one.
pub open spec fn init_expr(data: Seq<u8>, pos: usize, end: usize) -> Option<ExprV>
    decreases end - pos,
{
    if pos >= end || end > data.len() {
        Some(const_v(ExprKindV::I32Const(0), InferredType::I32))
    } else {
        match wasm_operator(data, pos) {
            Some((op, n)) => if n <= pos || n > end {
                None
            } else {
                match op {
                    ConstOperand::I32(v) => Some(const_v(ExprKindV::I32Const(v), InferredType::I32)),
                    ConstOperand::I64(v) => Some(const_v(ExprKindV::I64Const(v), InferredType::I64)),
                    ConstOperand::F32(b) => Some(const_v(ExprKindV::F32Const(b), InferredType::F32)),
                    ConstOperand::F64(b) => Some(const_v(ExprKindV::F64Const(b), InferredType::F64)),
                    ConstOperand::GlobalGet(g) => Some(const_v(ExprKindV::Global(g), InferredType::Unknown)),
                    ConstOperand::End => Some(const_v(ExprKindV::I32Const(0), InferredType::I32)),
                    _ => init_expr(data, n, end),
                }
            },
            None => None,
        }
    }
}

/// The value of a constant offset expression from `pos` to `end`: the first
/// integer constant in it, or zero where it ends without one.
pub open spec fn eval_expr(data: Seq<u8>, pos: usize, end: usize) -> Option<i64>
    decreases end - pos,
{
    if pos >= end || end > data.len() {
        Some(0)
    } else {
        match wasm_operator(data, pos) {
            Some((op, n)) => if n <= pos || n > end {
                None
            } else {
                match op {
                    ConstOperand::I32(v) => Some(v as i64),
                    ConstOperand::I64(v) => Some(v),
                    ConstOperand::End => Some(0),
                    _ => eval_expr(data, n, end),
                }
            },
            None => None,
        }
    }
}

/// A global as plain values.
pub struct GlobalV {
    pub ty: ValType,
    pub mutable: bool,
    pub init: ExprV,
}

pub open spec fn globals_view(v: Seq<Global>) -> Seq<GlobalV> {
    v.map_values(|g: Global| GlobalV { ty: g.ty, mutable: g.mutable, init: g.init@ })
}

/// The globals after `n` globals read from `pos` on, and the position after them.
pub open spec fn globals_from(data: Seq<u8>, end: usize, pos: usize, n: nat, gs: Seq<GlobalV>) -> Option<(Seq<GlobalV>, usize)>
    decreases n,
{
    if n == 0 {
        Some((gs, pos))
    } else if pos > end {
        None
    } else {
        match wasm_global(data, pos, end) {
            Some(((t, m, s, e), p)) => match init_expr(data, s, e) {
                Some(init) => globals_from(data, end, p, (n - 1) as nat, gs.push(GlobalV { ty: num_type(t), mutable: m, init })),
                None => None,
            },
            None => None,
        }
    }
}

/// The global section from `start` to `end`.
pub open spec fn global_section(data: Seq<u8>, gs: Seq<GlobalV>, start: usize, end: usize) -> Option<Seq<GlobalV>> {
    match section_count(data, start, end) {
        Some((n, p)) => whole(globals_from(data, end, p, n as nat, gs), end),
        None => None,
    }
}

/// The export names without the one for function `idx`.
pub open spec fn without_index(v: Seq<(u32, Seq<char>)>, idx: u32) -> Seq<(u32, Seq<char>)>
    decreases v.len(),
{
    if v.len() == 0 {
        v
    } else if v.last().0 == idx {
        without_index(v.drop_last(), idx)
    } else {
        without_index(v.drop_last(), idx).push(v.last())
    }
}

/// The export names after `n` exports read from `pos` on: a function's export
/// replaces an earlier one of the same function; other exports are passed over.
pub open spec fn exports_from(data: Seq<u8>, end: usize, pos: usize, n: nat, ex: Seq<(u32, Seq<char>)>) -> Option<(Seq<(u32, Seq<char>)>, usize)>
    decreases n,
{
    if n == 0 {
        Some((ex, pos))
    } else if pos > end {
        None
    } else {
        match wasm_export(data, pos, end) {
            Some(((name, k, i), p)) => exports_from(
                data,
                end,
                p,
                (n - 1) as nat,
                if k == Some(ExportKind::Func) { without_index(ex, i).push((i, name)) } else { ex },
            ),
            None => None,
        }
    }
}

/// The export section from `start` to `end`.
pub open spec fn export_section(data: Seq<u8>, ex: Seq<(u32, Seq<char>)>, start: usize, end: usize) -> Option<Seq<(u32, Seq<char>)>> {
    match section_count(data, start, end) {
        Some((n, p)) => whole(exports_from(data, end, p, n as nat, ex), end),
        None => None,
    }
}

pub open spec fn segments_view(v: Seq<DataSegment>) -> Seq<(u32, Seq<u8>)> {
    v.map_values(|d: DataSegment| (d.offset, d.data@))
}

pub open spec fn elements_view(v: Seq<ElementSegment>) -> Seq<(u32, Seq<u32>)> {
    v.map_values(|e: ElementSegment| (e.offset, e.func_indices@))
}

/// `m` with `b` written at `off`, made longer with zeros where `b` reaches past its end.
pub open spec fn write_bytes(m: Seq<u8>, off: nat, b: Seq<u8>) -> Seq<u8> {
    let m2 = if off + b.len() > m.len() { resized(m, off + b.len()) } else { m };
    Seq::new(m2.len(), |i: int| if off <= i < off + b.len() { b[i - off] } else { m2[i] })
}

/// The memory and segments after `n` data segments read from `pos` on: an
/// active one is written into memory at the offset its expression gives.
pub open spec fn data_from(
    data: Seq<u8>,
    end: usize,
    pos: usize,
    n: nat,
    mem: Seq<u8>,
    segs: Seq<(u32, Seq<u8>)>,
) -> Option<((Seq<u8>, Seq<(u32, Seq<u8>)>), usize)>
    decreases n,
{
    if n == 0 {
        Some(((mem, segs), pos))
    } else if pos > end {
        None
    } else {
        match wasm_data(data, pos, end) {
            Some(((SegmentKind::Active(_, es, ee), bytes), p)) => match eval_expr(data, es, ee) {
                Some(v) => {
                    let off = v as usize;
                    if off + bytes.len() > usize::MAX {
                        None
                    } else {
                        data_from(data, end, p, (n - 1) as nat, write_bytes(mem, off as nat, bytes), segs.push((off as u32, bytes)))
                    }
                },
                None => None,
            },
            Some(((SegmentKind::Passive, bytes), p)) => data_from(data, end, p, (n - 1) as nat, mem, segs.push((0, bytes))),
            None => None,
        }
    }
}

/// The data section from `start` to `end`.
pub open spec fn data_section(data: Seq<u8>, mem: Seq<u8>, segs: Seq<(u32, Seq<u8>)>, start: usize, end: usize) -> Option<(Seq<u8>, Seq<(u32, Seq<u8>)>)> {
    match section_count(data, start, end) {
        Some((n, p)) => whole(data_from(data, end, p, n as nat, mem, segs), end),
        None => None,
    }
}

/// `c` function indices read from `pos` on, after `acc`.
pub open spec fn elem_funcs_from(data: Seq<u8>, end: usize, pos: usize, c: nat, acc: Seq<u32>) -> Option<(Seq<u32>, usize)>
    decreases c,
{
    if c == 0 {
        Some((acc, pos))
    } else {
        match section_count(data, pos, end) {
            Some((f, p)) => elem_funcs_from(data, end, p, (c - 1) as nat, acc.push(f)),
            None => None,
        }
    }
}

/// The function the expression from `pos` to `end` refers to: the last
/// `ref.func` before its end, or `idx`.
pub open spec fn ref_func_in(data: Seq<u8>, pos: usize, end: usize, idx: u32) -> Option<u32>
    decreases end - pos,
{
    if pos >= end || end > data.len() {
        Some(idx)
    } else {
        match wasm_operator(data, pos) {
            Some((op, n)) => if n <= pos || n > end {
                None
            } else {
                match op {
                    ConstOperand::RefFunc(f) => ref_func_in(data, n, end, f),
                    ConstOperand::End => Some(idx),
                    _ => ref_func_in(data, n, end, idx),
                }
            },
            None => None,
        }
    }
}

/// The functions that `c` expressions read from `pos` on refer to (zero where
/// one names none), after `acc`.
pub open spec fn elem_exprs_from(data: Seq<u8>, end: usize, pos: usize, c: nat, acc: Seq<u32>) -> Option<(Seq<u32>, usize)>
    decreases c,
{
    if c == 0 {
        Some((acc, pos))
    } else if pos > end {
        None
    } else {
        match wasm_const_expr_end(data, pos, end) {
            Some(q) => if q <= pos || q > end {
                None
            } else {
                match ref_func_in(data, pos, q, 0) {
                    Some(f) => elem_exprs_from(data, end, q, (c - 1) as nat, acc.push(f)),
                    None => None,
                }
            },
            None => None,
        }
    }
}

/// The function indices of the items of the element segment at `pos`.
pub open spec fn elem_items(data: Seq<u8>, pos: usize, end: usize) -> Option<Seq<u32>> {
    match wasm_element_items(data, pos, end) {
        Some(ElementItemsAt::Functions(s, c, e)) => if s <= e <= data.len() {
            whole(elem_funcs_from(data, e, s, c as nat, Seq::empty()), e)
        } else {
            None
        },
        Some(ElementItemsAt::Expressions(s, c, e)) => if s <= e <= data.len() {
            whole(elem_exprs_from(data, e, s, c as nat, Seq::empty()), e)
        } else {
            None
        },
        None => None,
    }
}

/// The element segments after `n` read from `pos` on: only active segments of
/// table 0 are kept.
pub open spec fn elements_from(data: Seq<u8>, end: usize, pos: usize, n: nat, els: Seq<(u32, Seq<u32>)>) -> Option<(Seq<(u32, Seq<u32>)>, usize)>
    decreases n,
{
    if n == 0 {
        Some((els, pos))
    } else if pos > end {
        None
    } else {
        match wasm_element_place(data, pos, end) {
            Some((ElementPlace::Active(t, es, ee), p)) => if t is Some && t->0 != 0 {
                elements_from(data, end, p, (n - 1) as nat, els)
            } else {
                match (eval_expr(data, es, ee), elem_items(data, pos, end)) {
                    (Some(v), Some(fs)) => elements_from(data, end, p, (n - 1) as nat, els.push((v as u32, fs))),
                    _ => None,
                }
            },
            Some((_, p)) => elements_from(data, end, p, (n - 1) as nat, els),
            None => None,
        }
    }
}

/// The element section from `start` to `end`.
pub open spec fn element_section(data: Seq<u8>, els: Seq<(u32, Seq<u32>)>, start: usize, end: usize) -> Option<Seq<(u32, Seq<u32>)>> {
    match section_count(data, start, end) {
        Some((n, p)) => whole(elements_from(data, end, p, n as nat, els), end),
        None => None,
    }
}

/// The locals of the declarations `k` to `n` of the body from `s` to `e`,
/// after `acc`: each declaration adds its count of its type, where that is a number.
pub open spec fn locals_from(data: Seq<u8>, s: usize, e: usize, k: nat, n: nat, acc: Seq<ValType>) -> Option<Seq<ValType>>
    decreases n - k,
{
    if k >= n {
        Some(acc)
    } else {
        match wasm_local_decl(data, s, e, k as usize) {
            Some((c, Some(t))) => locals_from(data, s, e, k + 1, n, acc + Seq::new(c as nat, |i: int| t)),
            Some((_, None)) => locals_from(data, s, e, k + 1, n, acc),
            None => None,
        }
    }
}

/// The locals the function body from `s` to `e` declares.
pub open spec fn body_locals(data: Seq<u8>, s: usize, e: usize) -> Option<Seq<ValType>> {
    match section_count(data, s, e) {
        Some((n, _)) => locals_from(data, s, e, 0, n as nat, Seq::empty()),
        None => None,
    }
}

/// `m` made `n` bytes long: cut, or filled with zeros.
pub open spec fn resized(m: Seq<u8>, n: nat) -> Seq<u8> {
    if n <= m.len() {
        m.subrange(0, n as int)
    } else {
        m + Seq::new((n - m.len()) as nat, |i: int| 0u8)
    }
}

/// The largest page count whose size in bytes is counted here.
pub open spec fn max_pages() -> u64 {
    0xffff_ffff_ffff
}

/// The memory and page count after `n` memories read from `pos` on: each sets
/// the page count and makes the memory that many pages long.
pub open spec fn memories_from(data: Seq<u8>, end: usize, pos: usize, n: nat, mem: Seq<u8>, pages: u32) -> Option<((Seq<u8>, u32), usize)>
    decreases n,
{
    if n == 0 {
        Some(((mem, pages), pos))
    } else if pos > end {
        None
    } else {
        match wasm_memory_type(data, pos, end) {
            Some(((i, _), p)) => if i > max_pages() {
                None
            } else {
                memories_from(data, end, p, (n - 1) as nat, resized(mem, ((i * 65536) as usize) as nat), i as u32)
            },
            None => None,
        }
    }
}

/// The memory section from `start` to `end`.
pub open spec fn memory_section(data: Seq<u8>, mem: Seq<u8>, pages: u32, start: usize, end: usize) -> Option<(Seq<u8>, u32)> {
    match section_count(data, start, end) {
        Some((n, p)) => whole(memories_from(data, end, p, n as nat, mem, pages), end),
        None => None,
    }
}

/// Read the import section from `start` to `end` into `module`; the count of
/// imported functions it names.
fn read_import_section(data: &[u8], start: usize, end: usize, module: &mut Module) -> (r: Option<u32>)
    requires
        start <= end <= data@.len(),
        all_imports(old(module).functions@),
    ensures
        all_imports(final(module).functions@),
        final(module).types == old(module).types,
        final(module).globals == old(module).globals,
        final(module).memory == old(module).memory,
        final(module).memory_pages == old(module).memory_pages,
        final(module).data_segments == old(module).data_segments,
        final(module).exports == old(module).exports,
        final(module).elements == old(module).elements,
        final(module).table_size == old(module).table_size,
        match import_section(
            data@,
            func_types_view(old(module).types@),
            ImportAcc {
                func_types: old(module).func_types@,
                fns: imported_fns_view(old(module).functions@),
                imports: imports_view(old(module).imports@),
                count: 0,
            },
            start,
            end,
        ) {
            Some(a) => r == Some(a.count) && final(module).func_types@ == a.func_types
                && imported_fns_view(final(module).functions@) == a.fns && imports_view(final(module).imports@) == a.imports,
            None => r is None,
        },
{
    let (n, mut pos) = match read_var_u32_at(data, start) {
        Some((n, p)) => if p <= end { (n, p) } else { return None },
        None => return None,
    };
    let ghost p0 = pos;
    let ghost types = func_types_view(module.types@);
    let ghost a0 = ImportAcc {
        func_types: module.func_types@,
        fns: imported_fns_view(module.functions@),
        imports: imports_view(module.imports@),
        count: 0,
    };
    let mut count: u32 = 0;
    let mut i: u32 = 0;
    while i < n
        invariant
            0 <= i <= n,
            pos <= end <= data@.len(),
            section_count(data@, start, end) == Some((n, p0)),
            types == func_types_view(module.types@),
            all_imports(module.functions@),
            module.types == old(module).types,
            module.globals == old(module).globals,
            module.memory == old(module).memory,
            module.memory_pages == old(module).memory_pages,
            module.data_segments == old(module).data_segments,
            module.exports == old(module).exports,
            module.elements == old(module).elements,
            module.table_size == old(module).table_size,
            a0.count == 0,
            a0 == (ImportAcc {
                func_types: old(module).func_types@,
                fns: imported_fns_view(old(module).functions@),
                imports: imports_view(old(module).imports@),
                count: 0,
            }),
            lift_imports_from(
                data@,
                types,
                end,
                pos,
                (n - i) as nat,
                ImportAcc { func_types: module.func_types@, fns: imported_fns_view(module.functions@), imports: imports_view(module.imports@), count },
            ) == lift_imports_from(data@, types, end, p0, n as nat, a0),
        decreases n - i,
    {
        let ghost k = (n - i) as nat;
        let (c, p) = match read_import_count_at(data, pos, end) {
            Some(x) => x,
            None => return None,
        };
        let ghost before = ImportAcc { func_types: module.func_types@, fns: imported_fns_view(module.functions@), imports: imports_view(module.imports@), count };
        let mut j: usize = 0;
        while j < c
            invariant
                0 <= j <= c,
                pos <= end <= data@.len(),
                wasm_import_count(data@, pos, end) == Some((c, p)),
                types == func_types_view(module.types@),
                all_imports(module.functions@),
                module.types == old(module).types,
                module.globals == old(module).globals,
                module.memory == old(module).memory,
                module.memory_pages == old(module).memory_pages,
                module.data_segments == old(module).data_segments,
                module.exports == old(module).exports,
                module.elements == old(module).elements,
                module.table_size == old(module).table_size,
                k == n - i,
                i < n,
                a0 == (ImportAcc {
                    func_types: old(module).func_types@,
                    fns: imported_fns_view(old(module).functions@),
                    imports: imports_view(old(module).imports@),
                    count: 0,
                }),
                section_count(data@, start, end) == Some((n, p0)),
                lift_imports_from(data@, types, end, pos, k, before) == lift_imports_from(data@, types, end, p0, n as nat, a0),
                lift_import_items(
                    data@,
                    types,
                    pos,
                    end,
                    j as nat,
                    c as nat,
                    ImportAcc { func_types: module.func_types@, fns: imported_fns_view(module.functions@), imports: imports_view(module.imports@), count },
                ) == lift_import_items(data@, types, pos, end, 0, c as nat, before),
            decreases c - j,
        {
            let names = read_import_names_at(data, pos, end, j);
            let ty = read_import_type_at(data, pos, end, j);
            let (module_name, item_name, ty) = match (names, ty) {
                (Some((m, n)), Some(t)) => (m, n, t),
                _ => {
                    proof {
                        let cur0 = ImportAcc { func_types: module.func_types@, fns: imported_fns_view(module.functions@), imports: imports_view(module.imports@), count };
                        assert(lift_import_items(data@, types, pos, end, j as nat, c as nat, cur0) is None);
                        assert(lift_imports_from(data@, types, end, pos, k, before) == match lift_import_items(data@, types, pos, end, 0, c as nat, before) {
                            Some(a2) => lift_imports_from(data@, types, end, p, (k - 1) as nat, a2),
                            None => None,
                        });
                        assert(lift_imports_from(data@, types, end, p0, n as nat, a0) is None);
                        assert(section_count(data@, start, end) == Some((n, p0)));
                    }
                    return None;
                },
            };
            let ghost cur = ImportAcc { func_types: module.func_types@, fns: imported_fns_view(module.functions@), imports: imports_view(module.imports@), count };
            let ghost gt = wasm_import_global_type(data@, pos, end, j);
            let ghost next = add_lift_import(types, cur, module_name@, item_name@, ty, gt);
            let ghost old_imports = module.imports@;
            let ghost old_fns = module.functions@;
            let kind = match ty {
                ImportType::Func(idx) | ImportType::FuncExact(idx) => {
                    module.func_types.push(idx);
                    if (idx as usize) < module.types.len() {
                        let name = joined_name(&module_name, &item_name);
                        let f = Function {
                            index: count,
                            name: Some(name),
                            params: copy_val_types(&module.types[idx as usize].params),
                            results: copy_val_types(&module.types[idx as usize].results),
                            locals: Vec::new(),
                            body: Block::new(),
                            is_import: true,
                        };
                        module.functions.push(f);
                        proof {
                            assert(imported_fns_view(module.functions@) =~= next.fns);
                        }
                    } else {
                        assert(imported_fns_view(module.functions@) =~= next.fns);
                    }
                    count = count.wrapping_add(1);
                    Some(ImportKind::Function(idx))
                },
                ImportType::Global(_) => {
                    let vt = match read_import_global_type_at(data, pos, end, j) {
                        Some(GlobalValType::I32) => ValType::I32,
                        Some(GlobalValType::I64) => ValType::I64,
                        Some(GlobalValType::F32) => ValType::F32,
                        Some(GlobalValType::F64) => ValType::F64,
                        None => ValType::I32,
                    };
                    Some(ImportKind::Global(vt))
                },
                ImportType::Memory(_, _) => Some(ImportKind::Memory),
                ImportType::Table => Some(ImportKind::Table),
                ImportType::Tag => None,
            };
            match kind {
                Some(kd) => {
                    module.imports.push(Import { module: module_name, name: item_name, kind: kd });
                    proof {
                        assert(imports_view(module.imports@) =~= next.imports);
                    }
                },
                None => {},
            }
            proof {
                assert(imports_view(module.imports@) =~= next.imports);
                assert(imported_fns_view(module.functions@) =~= next.fns);
                assert(module.func_types@ == next.func_types);
                assert(count == next.count);
            }
            j += 1;
        }
        pos = p;
        i += 1;
    }
    if pos == end {
        Some(count)
    } else {
        None
    }
}

/// The value of the global initializer from `pos` to `end`.
fn read_init_expr(data: &[u8], pos: usize, end: usize) -> (r: Option<Expr>)
    requires
        pos <= end <= data@.len(),
    ensures
        match init_expr(data@, pos, end) {
            Some(e) => r matches Some(x) && x@ == e,
            None => r is None,
        },
{
    let mut at = pos;
    while at < end
        invariant
            pos <= at <= end <= data@.len(),
            init_expr(data@, at, end) == init_expr(data@, pos, end),
        decreases end - at,
    {
        let (op, n) = match read_operator_at(data, at) {
            Some(x) => x,
            None => return None,
        };
        if n > end {
            return None;
        }
        match op {
            ConstOperand::I32(v) => return Some(Expr::i32_const(v)),
            ConstOperand::I64(v) => return Some(Expr::i64_const(v)),
            ConstOperand::F32(b) => return Some(Expr::f32_const(b)),
            ConstOperand::F64(b) => return Some(Expr::f64_const(b)),
            ConstOperand::GlobalGet(g) => return Some(Expr::global(g)),
            ConstOperand::End => return Some(Expr::i32_const(0)),
            _ => {},
        }
        at = n;
    }
    Some(Expr::i32_const(0))
}

/// The value of the constant offset expression from `pos` to `end`.
fn read_eval_expr(data: &[u8], pos: usize, end: usize) -> (r: Option<i64>)
    requires
        pos <= end <= data@.len(),
    ensures
        r == eval_expr(data@, pos, end),
{
    let mut at = pos;
    while at < end
        invariant
            pos <= at <= end <= data@.len(),
            eval_expr(data@, at, end) == eval_expr(data@, pos, end),
        decreases end - at,
    {
        let (op, n) = match read_operator_at(data, at) {
            Some(x) => x,
            None => return None,
        };
        if n > end {
            return None;
        }
        match op {
            ConstOperand::I32(v) => return Some(v as i64),
            ConstOperand::I64(v) => return Some(v),
            ConstOperand::End => return Some(0),
            _ => {},
        }
        at = n;
    }
    Some(0)
}

/// Read the global section from `start` to `end` into `globals`.
fn read_global_section(data: &[u8], start: usize, end: usize, globals: &mut Vec<Global>) -> (r: bool)
    requires
        start <= end <= data@.len(),
    ensures
        match global_section(data@, globals_view(old(globals)@), start, end) {
            Some(v) => r && globals_view(final(globals)@) == v,
            None => !r,
        },
{
    let (n, mut pos) = match read_var_u32_at(data, start) {
        Some((n, p)) => if p <= end { (n, p) } else { return false },
        None => return false,
    };
    let ghost p0 = pos;
    let mut i: u32 = 0;
    while i < n
        invariant
            0 <= i <= n,
            pos <= end <= data@.len(),
            section_count(data@, start, end) == Some((n, p0)),
            globals_from(data@, end, pos, (n - i) as nat, globals_view(globals@))
                == globals_from(data@, end, p0, n as nat, globals_view(old(globals)@)),
        decreases n - i,
    {
        let ((t, m, s, e), p) = match read_global_at(data, pos, end) {
            Some(x) => x,
            None => return false,
        };
        let init = match read_init_expr(data, s, e) {
            Some(x) => x,
            None => return false,
        };
        let ty = match t {
            Some(GlobalValType::I32) => ValType::I32,
            Some(GlobalValType::I64) => ValType::I64,
            Some(GlobalValType::F32) => ValType::F32,
            Some(GlobalValType::F64) => ValType::F64,
            None => ValType::I32,
        };
        let ghost old_gs = globals@;
        globals.push(Global { ty, mutable: m, init });
        proof {
            assert(globals_view(globals@) =~= globals_view(old_gs).push(GlobalV { ty: num_type(t), mutable: m, init: init@ }));
        }
        pos = p;
        i += 1;
    }
    pos == end
}

/// `v` without the entries for function `idx`.
fn remove_index(v: &Vec<(u32, String)>, idx: u32) -> (r: Vec<(u32, String)>)
    ensures
        names_view(r@) == without_index(names_view(v@), idx),
{
    let mut r: Vec<(u32, String)> = Vec::new();
    let mut j: usize = 0;
    while j < v.len()
        invariant
            0 <= j <= v@.len(),
            names_view(r@) == without_index(names_view(v@).take(j as int), idx),
        decreases v@.len() - j,
    {
        proof {
            assert(names_view(v@).take(j + 1).drop_last() =~= names_view(v@).take(j as int));
        }
        if v[j].0 != idx {
            let ghost old_r = r@;
            r.push((v[j].0, v[j].1.clone()));
            proof {
                assert(names_view(r@) =~= names_view(old_r).push(names_view(v@)[j as int]));
            }
        }
        j += 1;
    }
    proof {
        assert(names_view(v@).take(v@.len() as int) =~= names_view(v@));
    }
    r
}

/// Read the export section from `start` to `end` into `exports`.
fn read_export_section(data: &[u8], start: usize, end: usize, exports: &mut Vec<(u32, String)>) -> (r: bool)
    requires
        start <= end <= data@.len(),
    ensures
        match export_section(data@, names_view(old(exports)@), start, end) {
            Some(v) => r && names_view(final(exports)@) == v,
            None => !r,
        },
{
    let (n, mut pos) = match read_var_u32_at(data, start) {
        Some((n, p)) => if p <= end { (n, p) } else { return false },
        None => return false,
    };
    let ghost p0 = pos;
    let mut i: u32 = 0;
    while i < n
        invariant
            0 <= i <= n,
            pos <= end <= data@.len(),
            section_count(data@, start, end) == Some((n, p0)),
            exports_from(data@, end, pos, (n - i) as nat, names_view(exports@))
                == exports_from(data@, end, p0, n as nat, names_view(old(exports)@)),
        decreases n - i,
    {
        let ((name, kind, index), p) = match read_export_at(data, pos, end) {
            Some(x) => x,
            None => return false,
        };
        match kind {
            Some(ExportKind::Func) => {
                let mut kept = remove_index(exports, index);
                let ghost old_kept = kept@;
                kept.push((index, name));
                proof {
                    assert(names_view(kept@) =~= names_view(old_kept).push((index, name@)));
                }
                *exports = kept;
            },
            _ => {},
        }
        pos = p;
        i += 1;
    }
    pos == end
}

/// Write `b` into `mem` at `off`, making it longer where needed.
fn write_into(mem: &mut Vec<u8>, off: usize, b: &Vec<u8>)
    requires
        off + b@.len() <= usize::MAX,
    ensures
        final(mem)@ == write_bytes(old(mem)@, off as nat, b@),
{
    let end = off + b.len();
    if end > mem.len() {
        resize_bytes(mem, end);
    }
    let ghost m2 = mem@;
    let mut k: usize = 0;
    while k < b.len()
        invariant
            0 <= k <= b@.len(),
            end == off + b@.len(),
            end <= m2.len(),
            mem@.len() == m2.len(),
            forall|i: int| 0 <= i < m2.len() ==> #[trigger] mem@[i] == if off <= i < off + k { b@[i - off] } else { m2[i] },
        decreases b@.len() - k,
    {
        mem.set(off + k, b[k]);
        k += 1;
    }
    assert(mem@ =~= write_bytes(old(mem)@, off as nat, b@));
}

/// Read the data section from `start` to `end` into `memory` and `segments`.
fn read_data_section(data: &[u8], start: usize, end: usize, memory: &mut Vec<u8>, segments: &mut Vec<DataSegment>) -> (r: bool)
    requires
        start <= end <= data@.len(),
    ensures
        match data_section(data@, old(memory)@, segments_view(old(segments)@), start, end) {
            Some((m, sg)) => r && final(memory)@ == m && segments_view(final(segments)@) == sg,
            None => !r,
        },
{
    let (n, mut pos) = match read_var_u32_at(data, start) {
        Some((n, p)) => if p <= end { (n, p) } else { return false },
        None => return false,
    };
    let ghost p0 = pos;
    let mut i: u32 = 0;
    while i < n
        invariant
            0 <= i <= n,
            pos <= end <= data@.len(),
            section_count(data@, start, end) == Some((n, p0)),
            data_from(data@, end, pos, (n - i) as nat, memory@, segments_view(segments@))
                == data_from(data@, end, p0, n as nat, old(memory)@, segments_view(old(segments)@)),
        decreases n - i,
    {
        let ((kind, bytes), p) = match read_data_at(data, pos, end) {
            Some(x) => x,
            None => return false,
        };
        let ghost old_segs = segments@;
        match kind {
            SegmentKind::Active(_, es, ee) => {
                let v = match read_eval_expr(data, es, ee) {
                    Some(v) => v,
                    None => return false,
                };
                let off = #[verifier::truncate] (v as usize);
                if off > usize::MAX - bytes.len() {
                    return false;
                }
                write_into(memory, off, &bytes);
                segments.push(DataSegment { offset: #[verifier::truncate] (off as u32), data: bytes });
            },
            SegmentKind::Passive => {
                segments.push(DataSegment { offset: 0, data: bytes });
            },
        }
        proof {
            assert(segments_view(segments@) =~= segments_view(old_segs).push(segments_view(segments@).last()));
        }
        pos = p;
        i += 1;
    }
    pos == end
}

/// The function the expression from `pos` to `end` refers to.
fn read_ref_func(data: &[u8], pos: usize, end: usize) -> (r: Option<u32>)
    requires
        pos <= end <= data@.len(),
    ensures
        r == ref_func_in(data@, pos, end, 0),
{
    let mut at = pos;
    let mut idx: u32 = 0;
    while at < end
        invariant
            pos <= at <= end <= data@.len(),
            ref_func_in(data@, at, end, idx) == ref_func_in(data@, pos, end, 0),
        decreases end - at,
    {
        let (op, n) = match read_operator_at(data, at) {
            Some(x) => x,
            None => return None,
        };
        if n > end {
            return None;
        }
        match op {
            ConstOperand::RefFunc(f) => {
                idx = f;
            },
            ConstOperand::End => return Some(idx),
            _ => {},
        }
        at = n;
    }
    Some(idx)
}

/// The function indices of the items of the element segment at `pos`.
fn read_elem_items(data: &[u8], pos: usize, end: usize) -> (r: Option<Vec<u32>>)
    requires
        pos <= end <= data@.len(),
    ensures
        match elem_items(data@, pos, end) {
            Some(v) => r matches Some(x) && x@ == v,
            None => r is None,
        },
{
    let (is_funcs, s, c, e) = match read_element_items_at(data, pos, end) {
        Some(ElementItemsAt::Functions(s, c, e)) => (true, s, c, e),
        Some(ElementItemsAt::Expressions(s, c, e)) => (false, s, c, e),
        None => return None,
    };
    let mut out: Vec<u32> = Vec::new();
    let mut at = s;
    let mut i: u32 = 0;
    while i < c
        invariant
            0 <= i <= c,
            s <= at <= e <= end <= data@.len(),
            is_funcs ==> elem_funcs_from(data@, e, at, (c - i) as nat, out@) == elem_funcs_from(data@, e, s, c as nat, Seq::empty()),
            !is_funcs ==> elem_exprs_from(data@, e, at, (c - i) as nat, out@) == elem_exprs_from(data@, e, s, c as nat, Seq::empty()),
            is_funcs ==> wasm_element_items(data@, pos, end) == Some(ElementItemsAt::Functions(s, c, e)),
            !is_funcs ==> wasm_element_items(data@, pos, end) == Some(ElementItemsAt::Expressions(s, c, e)),
        decreases c - i,
    {
        if is_funcs {
            match read_var_u32_at(data, at) {
                Some((f, p)) => {
                    if p > e {
                        return None;
                    }
                    out.push(f);
                    at = p;
                },
                None => return None,
            }
        } else {
            let q = match read_const_expr_end_at(data, at, e) {
                Some(q) => q,
                None => return None,
            };
            match read_ref_func(data, at, q) {
                Some(f) => out.push(f),
                None => return None,
            }
            at = q;
        }
        i += 1;
    }
    if at == e {
        Some(out)
    } else {
        None
    }
}

/// Read the element section from `start` to `end` into `elements`.
fn read_element_section(data: &[u8], start: usize, end: usize, elements: &mut Vec<ElementSegment>) -> (r: bool)
    requires
        start <= end <= data@.len(),
    ensures
        match element_section(data@, elements_view(old(elements)@), start, end) {
            Some(v) => r && elements_view(final(elements)@) == v,
            None => !r,
        },
{
    let (n, mut pos) = match read_var_u32_at(data, start) {
        Some((n, p)) => if p <= end { (n, p) } else { return false },
        None => return false,
    };
    let ghost p0 = pos;
    let mut i: u32 = 0;
    while i < n
        invariant
            0 <= i <= n,
            pos <= end <= data@.len(),
            section_count(data@, start, end) == Some((n, p0)),
            elements_from(data@, end, pos, (n - i) as nat, elements_view(elements@))
                == elements_from(data@, end, p0, n as nat, elements_view(old(elements)@)),
        decreases n - i,
    {
        let (place, p) = match read_element_place_at(data, pos, end) {
            Some(x) => x,
            None => return false,
        };
        match place {
            ElementPlace::Active(t, es, ee) => {
                let table = match t {
                    Some(x) => x,
                    None => 0,
                };
                if table == 0 {
                    let v = match read_eval_expr(data, es, ee) {
                        Some(v) => v,
                        None => return false,
                    };
                    let fs = match read_elem_items(data, pos, end) {
                        Some(fs) => fs,
                        None => return false,
                    };
                    let ghost old_els = elements@;
                    elements.push(ElementSegment { offset: #[verifier::truncate] (v as u32), func_indices: fs });
                    proof {
                        assert(elements_view(elements@) =~= elements_view(old_els).push((v as u32, fs@)));
                    }
                }
            },
            _ => {},
        }
        pos = p;
        i += 1;
    }
    pos == end
}

/// The locals the function body from `s` to `e` declares.
fn read_body_locals(data: &[u8], s: usize, e: usize) -> (r: Option<Vec<ValType>>)
    requires
        s <= e <= data@.len(),
    ensures
        match body_locals(data@, s, e) {
            Some(v) => r matches Some(x) && x@ == v,
            None => r is None,
        },
{
    let n = match read_var_u32_at(data, s) {
        Some((n, p)) => if p <= e { n } else { return None },
        None => return None,
    };
    let mut locals: Vec<ValType> = Vec::new();
    let mut k: u32 = 0;
    while k < n
        invariant
            0 <= k <= n,
            s <= e <= data@.len(),
            section_count(data@, s, e) matches Some((m, _)) && m == n,
            locals_from(data@, s, e, k as nat, n as nat, locals@) == locals_from(data@, s, e, 0, n as nat, Seq::empty()),
        decreases n - k,
    {
        match read_local_decl_at(data, s, e, k as usize) {
            Some((c, Some(t))) => {
                let ghost before = locals@;
                let mut j: u32 = 0;
                while j < c
                    invariant
                        0 <= j <= c,
                        locals@ == before + Seq::new(j as nat, |i: int| t),
                    decreases c - j,
                {
                    locals.push(t);
                    j += 1;
                    assert(locals@ =~= before + Seq::new(j as nat, |i: int| t));
                }
            },
            Some((_, None)) => {},
            None => return None,
        }
        k += 1;
    }
    Some(locals)
}

/// Make `v` `n` bytes long: cut, or fill with zeros.
fn resize_bytes(v: &mut Vec<u8>, n: usize)
    ensures
        final(v)@ == resized(old(v)@, n as nat),
{
    if n <= v.len() {
        v.truncate(n);
    } else {
        let ghost m = v@;
        while v.len() < n
            invariant
                m.len() <= v@.len() <= n,
                v@ == m + Seq::new((v@.len() - m.len()) as nat, |i: int| 0u8),
            decreases n - v@.len(),
        {
            v.push(0);
            assert(v@ =~= m + Seq::new((v@.len() - m.len()) as nat, |i: int| 0u8));
        }
    }
}

/// Read the type section from `start` to `end` into `types`.
fn read_type_section(data: &[u8], start: usize, end: usize, types: &mut Vec<FuncType>) -> (r: bool)
    requires
        start <= end <= data@.len(),
    ensures
        match type_section(data@, func_types_view(old(types)@), start, end) {
            Some(v) => r && func_types_view(final(types)@) == v,
            None => !r,
        },
{
    let (n, mut pos) = match read_var_u32_at(data, start) {
        Some((n, p)) => if p <= end { (n, p) } else { return false },
        None => return false,
    };
    let ghost p0 = pos;
    let mut i: u32 = 0;
    while i < n
        invariant
            0 <= i <= n,
            pos <= end <= data@.len(),
            section_count(data@, start, end) == Some((n, p0)),
            types_from(data@, end, pos, (n - i) as nat, func_types_view(types@))
                == types_from(data@, end, p0, n as nat, func_types_view(old(types)@)),
        decreases n - i,
    {
        let ghost k = (n - i) as nat;
        let (g, p) = match read_rec_group_at(data, pos, end) {
            Some(x) => x,
            None => return false,
        };
        let ghost before = func_types_view(types@);
        let mut t: usize = 0;
        while t < g.len()
            invariant
                0 <= t <= g@.len(),
                pos <= end <= data@.len(),
                wasm_rec_group(data@, pos, end) == Some((g@, p)),
                section_count(data@, start, end) == Some((n, p0)),
                types_from(data@, end, pos, k, before) == types_from(data@, end, p0, n as nat, func_types_view(old(types)@)),
                k == n - i,
                i < n,
                group_types(data@, pos, end, g@, t as nat, func_types_view(types@)) == group_types(data@, pos, end, g@, 0, before),
            decreases g@.len() - t,
        {
            match g[t] {
                Some((np, nr)) => {
                    let mut params: Vec<ValType> = Vec::new();
                    let mut j: usize = 0;
                    while j < np
                        invariant
                            0 <= j <= np,
                            pos <= end <= data@.len(),
                            param_types(data@, pos, end, t, j as nat, np as nat, params@)
                                == param_types(data@, pos, end, t, 0, np as nat, Seq::empty()),
                            t < g@.len(),
                            g@[t as int] == Some((np, nr)),
                            wasm_rec_group(data@, pos, end) == Some((g@, p)),
                            types_from(data@, end, pos, k, before) == types_from(data@, end, p0, n as nat, func_types_view(old(types)@)),
                            k == n - i,
                            i < n,
                            section_count(data@, start, end) == Some((n, p0)),
                            group_types(data@, pos, end, g@, t as nat, func_types_view(types@)) == group_types(data@, pos, end, g@, 0, before),
                        decreases np - j,
                    {
                        match read_func_param_at(data, pos, end, t, j) {
                            Some(Some(v)) => params.push(v),
                            Some(None) => {},
                            None => {
                                proof {
                                    assert(param_types(data@, pos, end, t, 0, np as nat, Seq::empty()) is None);
                                    assert(group_types(data@, pos, end, g@, t as nat, func_types_view(types@)) is None);
                                    assert(types_from(data@, end, pos, k, before) is None);
                                }
                                return false;
                            },
                        }
                        j += 1;
                    }
                    let mut results: Vec<ValType> = Vec::new();
                    let mut j: usize = 0;
                    while j < nr
                        invariant
                            0 <= j <= nr,
                            pos <= end <= data@.len(),
                            result_types(data@, pos, end, t, j as nat, nr as nat, results@)
                                == result_types(data@, pos, end, t, 0, nr as nat, Seq::empty()),
                            param_types(data@, pos, end, t, 0, np as nat, Seq::empty()) == Some(params@),
                            t < g@.len(),
                            g@[t as int] == Some((np, nr)),
                            wasm_rec_group(data@, pos, end) == Some((g@, p)),
                            types_from(data@, end, pos, k, before) == types_from(data@, end, p0, n as nat, func_types_view(old(types)@)),
                            k == n - i,
                            i < n,
                            section_count(data@, start, end) == Some((n, p0)),
                            group_types(data@, pos, end, g@, t as nat, func_types_view(types@)) == group_types(data@, pos, end, g@, 0, before),
                        decreases nr - j,
                    {
                        match read_func_result_at(data, pos, end, t, j) {
                            Some(Some(v)) => results.push(v),
                            Some(None) => {},
                            None => {
                                proof {
                                    assert(result_types(data@, pos, end, t, 0, nr as nat, Seq::empty()) is None);
                                    assert(group_types(data@, pos, end, g@, t as nat, func_types_view(types@)) is None);
                                    assert(types_from(data@, end, pos, k, before) is None);
                                }
                                return false;
                            },
                        }
                        j += 1;
                    }
                    let ghost old_types = types@;
                    types.push(FuncType { params, results });
                    proof {
                        assert(func_types_view(types@) =~= func_types_view(old_types).push(
                            FuncTypeV { params: params@, results: results@ },
                        ));
                    }
                },
                None => {},
            }
            t += 1;
        }
        pos = p;
        i += 1;
    }
    pos == end
}

/// Read the function section from `start` to `end` into `func_types`.
fn read_function_section(data: &[u8], start: usize, end: usize, func_types: &mut Vec<u32>) -> (r: bool)
    requires
        start <= end <= data@.len(),
    ensures
        match function_section(data@, old(func_types)@, start, end) {
            Some(v) => r && final(func_types)@ == v,
            None => !r,
        },
{
    let (n, mut pos) = match read_var_u32_at(data, start) {
        Some((n, p)) => if p <= end { (n, p) } else { return false },
        None => return false,
    };
    let ghost p0 = pos;
    let mut i: u32 = 0;
    while i < n
        invariant
            0 <= i <= n,
            pos <= end <= data@.len(),
            section_count(data@, start, end) == Some((n, p0)),
            type_indices_from(data@, end, pos, (n - i) as nat, func_types@)
                == type_indices_from(data@, end, p0, n as nat, old(func_types)@),
        decreases n - i,
    {
        match read_var_u32_at(data, pos) {
            Some((t, p)) => {
                if p > end {
                    return false;
                }
                func_types.push(t);
                pos = p;
            },
            None => return false,
        }
        i += 1;
    }
    pos == end
}

/// Read the memory section from `start` to `end` into `memory` and `pages`.
fn read_memory_section(data: &[u8], start: usize, end: usize, memory: &mut Vec<u8>, pages: &mut u32) -> (r: bool)
    requires
        start <= end <= data@.len(),
    ensures
        match memory_section(data@, old(memory)@, *old(pages), start, end) {
            Some((m, n)) => r && final(memory)@ == m && *final(pages) == n,
            None => !r,
        },
{
    let (n, mut pos) = match read_var_u32_at(data, start) {
        Some((n, p)) => if p <= end { (n, p) } else { return false },
        None => return false,
    };
    let ghost p0 = pos;
    let mut i: u32 = 0;
    while i < n
        invariant
            0 <= i <= n,
            pos <= end <= data@.len(),
            section_count(data@, start, end) == Some((n, p0)),
            memories_from(data@, end, pos, (n - i) as nat, memory@, *pages)
                == memories_from(data@, end, p0, n as nat, old(memory)@, *old(pages)),
        decreases n - i,
    {
        match read_memory_type_at(data, pos, end) {
            Some(((initial, _), p)) => {
                if initial > 0xffff_ffff_ffff {
                    return false;
                }
                let bytes: u64 = initial * 65536;
                resize_bytes(memory, #[verifier::truncate] (bytes as usize));
                *pages = #[verifier::truncate] (initial as u32);
                pos = p;
            },
            None => return false,
        }
        i += 1;
    }
    pos == end
}

/// What the reading has gathered so far, as plain values.
pub struct LoadSt {
    pub types: Seq<FuncTypeV>,
    pub func_types: Seq<u32>,
    pub fns: Seq<ImportedFnV>,
    pub imports: Seq<ImportV>,
    pub globals: Seq<GlobalV>,
    pub exports: Seq<(u32, Seq<char>)>,
    pub memory: Seq<u8>,
    pub memory_pages: u32,
    pub data_segments: Seq<(u32, Seq<u8>)>,
    pub elements: Seq<(u32, Seq<u32>)>,
    pub table_size: u32,
    pub func_names: Seq<(u32, Seq<char>)>,
    pub num_imported: u32,
    pub bodies: Seq<(usize, usize)>,
}

/// The state after one payload.
pub open spec fn load_step(data: Seq<u8>, st: LoadSt, info: PayloadInfo) -> Result<LoadSt, LoadError> {
    match info {
        PayloadInfo::Section(id, s, e) => if !(s <= e) {
            Err(LoadError::Payload)
        } else if !(e <= data.len()) {
            if id == 0 || id == 1 || id == 2 || id == 3 || id == 5 || id == 6 || id == 7 || id == 9 || id == 11 {
                Err(LoadError::Payload)
            } else {
                Ok(st)
            }
        } else if id == 0 {
            match wasm_custom(data, s, e) {
                Some((name, off)) => if name == seq!['n', 'a', 'm', 'e'] && off <= e {
                    Ok(LoadSt { func_names: names_from(data, off, e, 0, st.func_names), ..st })
                } else {
                    Ok(st)
                },
                None => Err(LoadError::Payload),
            }
        } else if id == 1 {
            match type_section(data, st.types, s, e) {
                Some(v) => Ok(LoadSt { types: v, ..st }),
                None => Err(LoadError::Type),
            }
        } else if id == 2 {
            let a = ImportAcc { func_types: st.func_types, fns: st.fns, imports: st.imports, count: 0 };
            match import_section(data, st.types, a, s, e) {
                Some(a2) => Ok(LoadSt { func_types: a2.func_types, fns: a2.fns, imports: a2.imports, num_imported: a2.count, ..st }),
                None => Err(LoadError::Import),
            }
        } else if id == 3 {
            match function_section(data, st.func_types, s, e) {
                Some(v) => Ok(LoadSt { func_types: v, ..st }),
                None => Err(LoadError::Function),
            }
        } else if id == 5 {
            match memory_section(data, st.memory, st.memory_pages, s, e) {
                Some((m, n)) => Ok(LoadSt { memory: m, memory_pages: n, ..st }),
                None => Err(LoadError::Memory),
            }
        } else if id == 6 {
            match global_section(data, st.globals, s, e) {
                Some(v) => Ok(LoadSt { globals: v, ..st }),
                None => Err(LoadError::Global),
            }
        } else if id == 7 {
            match export_section(data, st.exports, s, e) {
                Some(v) => Ok(LoadSt { exports: v, ..st }),
                None => Err(LoadError::Export),
            }
        } else if id == 9 {
            match element_section(data, st.elements, s, e) {
                Some(v) => Ok(LoadSt { elements: v, ..st }),
                None => Err(LoadError::Element),
            }
        } else if id == 11 {
            match data_section(data, st.memory, st.data_segments, s, e) {
                Some((m, sg)) => Ok(LoadSt { memory: m, data_segments: sg, ..st }),
                None => Err(LoadError::Data),
            }
        } else {
            Ok(st)
        },
        PayloadInfo::CodeEntry(s, e) => if s <= e <= data.len() {
            Ok(LoadSt { bodies: st.bodies.push((s, e)), ..st })
        } else {
            Err(LoadError::Payload)
        },
        PayloadInfo::Custom(name, s, e) => if name@ == seq!['n', 'a', 'm', 'e'] {
            if s <= e <= data.len() {
                Ok(LoadSt { func_names: names_from(data, s, e, 0, st.func_names), ..st })
            } else {
                Err(LoadError::Payload)
            }
        } else {
            Ok(st)
        },
        _ => Ok(st),
    }
}

/// The reading's state: the module gathered so far, the names from the name
/// section, the count of imported functions and where each function body lies.
pub struct ModuleLoader {
    pub module: Module,
    pub func_names: Vec<(u32, String)>,
    pub num_imported_funcs: u32,
    pub bodies: Vec<(usize, usize)>,
}

impl View for ModuleLoader {
    type V = LoadSt;

    open spec fn view(&self) -> LoadSt {
        LoadSt {
            types: func_types_view(self.module.types@),
            func_types: self.module.func_types@,
            fns: imported_fns_view(self.module.functions@),
            imports: imports_view(self.module.imports@),
            globals: globals_view(self.module.globals@),
            exports: names_view(self.module.exports@),
            memory: self.module.memory@,
            memory_pages: self.module.memory_pages,
            data_segments: segments_view(self.module.data_segments@),
            elements: elements_view(self.module.elements@),
            table_size: self.module.table_size,
            func_names: names_view(self.func_names@),
            num_imported: self.num_imported_funcs,
            bodies: self.bodies@,
        }
    }
}

impl ModuleLoader {
    /// Whether every function gathered so far is an import.
    pub open spec fn wf(&self) -> bool {
        all_imports(self.module.functions@)
    }

    pub fn new() -> (r: ModuleLoader)
        ensures
            r.wf(),
            r@.types.len() == 0,
            r@.func_types.len() == 0,
            r@.fns.len() == 0,
            r@.imports.len() == 0,
            r@.globals.len() == 0,
            r@.exports.len() == 0,
            r@.memory.len() == 0,
            r@.memory_pages == 0,
            r@.data_segments.len() == 0,
            r@.elements.len() == 0,
            r@.table_size == 0,
            r@.func_names.len() == 0,
            r@.num_imported == 0,
            r@.bodies.len() == 0,
    {
        ModuleLoader { module: Module::new(), func_names: Vec::new(), num_imported_funcs: 0, bodies: Vec::new() }
    }

    /// A loader that has read nothing.
    pub fn empty() -> (r: ModuleLoader)
        ensures
            r.wf(),
            r@ == init_load(),
            bodies_within(r@.bodies, 0),
    {
        let r = ModuleLoader::new();
        assert(r@.types =~= Seq::<FuncTypeV>::empty());
        assert(r@.func_types =~= Seq::<u32>::empty());
        assert(r@.fns =~= Seq::<ImportedFnV>::empty());
        assert(r@.imports =~= Seq::<ImportV>::empty());
        assert(r@.globals =~= Seq::<GlobalV>::empty());
        assert(r@.exports =~= Seq::<(u32, Seq<char>)>::empty());
        assert(r@.memory =~= Seq::<u8>::empty());
        assert(r@.data_segments =~= Seq::<(u32, Seq<u8>)>::empty());
        assert(r@.elements =~= Seq::<(u32, Seq<u32>)>::empty());
        assert(r@.func_names =~= Seq::<(u32, Seq<char>)>::empty());
        assert(r@.bodies =~= Seq::<(usize, usize)>::empty());
        r
    }

    /// Take in one payload.
    pub fn apply(&mut self, data: &[u8], info: &PayloadInfo) -> (r: Result<(), LoadError>)
        requires
            old(self).wf(),
            bodies_within(old(self)@.bodies, data@.len()),
        ensures
            final(self).wf(),
            bodies_within(final(self)@.bodies, data@.len()),
            match load_step(data@, old(self)@, *info) {
                Ok(st) => r is Ok && final(self)@ == st,
                Err(e) => r == Err::<(), LoadError>(e),
            },
    {
        match info {
            PayloadInfo::Section(id, s, e) => {
                let (id, s, e) = (*id, *s, *e);
                if !(s <= e) {
                    return Err(LoadError::Payload);
                }
                if !(e <= data.len()) {
                    return if id == 0 || id == 1 || id == 2 || id == 3 || id == 5 || id == 6 || id == 7 || id == 9 || id == 11 {
                        Err(LoadError::Payload)
                    } else {
                        Ok(())
                    };
                }
                if id == 0 {
                    return match read_custom_at(data, s, e) {
                        Some((name, off)) => {
                            if name_is_name(&name) {
                                read_function_names(data, off, e, &mut self.func_names);
                            }
                            Ok(())
                        },
                        None => Err(LoadError::Payload),
                    };
                }
                if id == 1 {
                    if read_type_section(data, s, e, &mut self.module.types) { Ok(()) } else { Err(LoadError::Type) }
                } else if id == 2 {
                    match read_import_section(data, s, e, &mut self.module) {
                        Some(c) => {
                            self.num_imported_funcs = c;
                            Ok(())
                        },
                        None => Err(LoadError::Import),
                    }
                } else if id == 3 {
                    if read_function_section(data, s, e, &mut self.module.func_types) { Ok(()) } else { Err(LoadError::Function) }
                } else if id == 5 {
                    if read_memory_section(data, s, e, &mut self.module.memory, &mut self.module.memory_pages) {
                        Ok(())
                    } else {
                        Err(LoadError::Memory)
                    }
                } else if id == 6 {
                    if read_global_section(data, s, e, &mut self.module.globals) { Ok(()) } else { Err(LoadError::Global) }
                } else if id == 7 {
                    if read_export_section(data, s, e, &mut self.module.exports) { Ok(()) } else { Err(LoadError::Export) }
                } else if id == 9 {
                    if read_element_section(data, s, e, &mut self.module.elements) { Ok(()) } else { Err(LoadError::Element) }
                } else if id == 11 {
                    if read_data_section(data, s, e, &mut self.module.memory, &mut self.module.data_segments) {
                        Ok(())
                    } else {
                        Err(LoadError::Data)
                    }
                } else {
                    Ok(())
                }
            },
            PayloadInfo::CodeEntry(s, e) => {
                if *s <= *e && *e <= data.len() {
                    self.bodies.push((*s, *e));
                    Ok(())
                } else {
                    Err(LoadError::Payload)
                }
            },
            PayloadInfo::Custom(name, s, e) => {
                if name_is_name(name) {
                    if *s <= *e && *e <= data.len() {
                        read_function_names(data, *s, *e, &mut self.func_names);
                        Ok(())
                    } else {
                        Err(LoadError::Payload)
                    }
                } else {
                    Ok(())
                }
            },
            _ => Ok(()),
        }
    }
}

pub open spec fn ops_view(ops: Seq<Vec<LiftOp>>) -> Seq<Seq<LiftOp>> {
    ops.map_values(|v: Vec<LiftOp>| v@)
}

/// `m` is the module that the state `st` and the operators `ops` make: the
/// tables as gathered, the imported functions (each one without a name named
/// by the deduplicated names), then one function per body, lifted from its
/// operators, with its declared locals and its deduplicated name.
pub open spec fn lifted(data: Seq<u8>, st: LoadSt, ops: Seq<Seq<LiftOp>>, m: Module) -> bool {
    &&& func_types_view(m.types@) == st.types
    &&& m.func_types@ == st.func_types
    &&& imports_view(m.imports@) == st.imports
    &&& globals_view(m.globals@) == st.globals
    &&& names_view(m.exports@) == st.exports
    &&& m.memory@ == st.memory
    &&& m.memory_pages == st.memory_pages
    &&& segments_view(m.data_segments@) == st.data_segments
    &&& elements_view(m.elements@) == st.elements
    &&& m.table_size == st.table_size
    &&& m.functions@.len() == st.fns.len() + ops.len()
    &&& exists|fnames: Seq<(u32, String)>, exports: Seq<(u32, String)>, u: Seq<(u32, String)>| {
        &&& names_view(fnames) == st.func_names
        &&& names_view(exports) == st.exports
        &&& #[trigger] is_deduplicated(fnames, exports, u)
        &&& forall|i: int| 0 <= i < st.fns.len() ==> {
            let f = #[trigger] m.functions@[i];
            let g = st.fns[i];
            &&& f.index == g.index
            &&& f.params@ == g.params
            &&& f.results@ == g.results
            &&& f.is_import
            &&& f.locals@.len() == 0
            &&& f.body.stmts@.len() == 0
            &&& opt_text(f.name) == if g.name is None { lookup_name(u, g.index) } else { g.name }
        }
        &&& forall|j: int| 0 <= j < ops.len() ==> {
            let f = #[trigger] m.functions@[st.fns.len() + j];
            let idx = defined_index(st, j);
            let ft = m.types@[m.func_types@[idx as int] as int];
            &&& f.index == idx
            &&& opt_text(f.name) == lookup_name(u, idx)
            &&& f.params@ == ft.params@
            &&& f.results@ == ft.results@
            &&& Some(f.locals@) == body_locals(data, st.bodies[j].0, st.bodies[j].1)
            &&& !f.is_import
            &&& f.body@ == spec_lift_body(ops[j], m.types@, m.func_types@)
        }
    }
}

/// Why lifting the bodies of state `st` from `n` operator lists fails with `e`:
/// the counts differ, or `e` is the error of the first body that cannot be lifted.
pub open spec fn finish_fails(data: Seq<u8>, st: LoadSt, n: nat, e: LoadError) -> bool {
    if n != st.bodies.len() {
        e == LoadError::BodyCount
    } else {
        exists|j: int| 0 <= j < n && #[trigger] body_error(data, st, j) == Some(e)
            && forall|k: int| 0 <= k < j ==> body_error(data, st, k) is None
    }
}

/// Nothing read yet.
pub open spec fn init_load() -> LoadSt {
    LoadSt {
        types: Seq::empty(),
        func_types: Seq::empty(),
        fns: Seq::empty(),
        imports: Seq::empty(),
        globals: Seq::empty(),
        exports: Seq::empty(),
        memory: Seq::empty(),
        memory_pages: 0,
        data_segments: Seq::empty(),
        elements: Seq::empty(),
        table_size: 0,
        func_names: Seq::empty(),
        num_imported: 0,
        bodies: Seq::empty(),
    }
}

/// One payload, with the stack of what is being read (`true` for a
/// component): a header opens a module or component, an end closes one, and
/// only a module's own payloads are taken in.
pub open spec fn load_module_step(data: Seq<u8>, st: LoadSt, stack: Seq<bool>, info: PayloadInfo) -> Result<(LoadSt, Seq<bool>), LoadError> {
    match info {
        PayloadInfo::Version(_, comp) => Ok((st, stack.push(comp))),
        PayloadInfo::End => Ok((st, if stack.len() > 0 { stack.drop_last() } else { stack })),
        _ => if in_module(stack) {
            match load_step(data, st, info) {
                Ok(s2) => Ok((s2, stack)),
                Err(e) => Err(e),
            }
        } else {
            Ok((st, stack))
        },
    }
}

/// The state after the payloads `infos`, in order, or the error of the first
/// one that fails.
pub open spec fn run_load_infos(data: Seq<u8>, infos: Seq<PayloadInfo>) -> Result<(LoadSt, Seq<bool>), LoadError>
    decreases infos.len(),
{
    if infos.len() == 0 {
        Ok((init_load(), Seq::empty()))
    } else {
        match run_load_infos(data, infos.drop_last()) {
            Ok((s, stack)) => load_module_step(data, s, stack, infos.last()),
            Err(e) => Err(e),
        }
    }
}

/// Once a prefix of the payloads fails, so do all of them, with that error.
proof fn lemma_run_load_err(data: Seq<u8>, infos: Seq<PayloadInfo>, k: int)
    requires
        0 <= k <= infos.len(),
        run_load_infos(data, infos.take(k)) is Err,
    ensures
        run_load_infos(data, infos) == run_load_infos(data, infos.take(k)),
    decreases infos.len() - k,
{
    if k < infos.len() {
        assert(infos.take(k + 1).drop_last() =~= infos.take(k));
        lemma_run_load_err(data, infos, k + 1);
    } else {
        assert(infos.take(k) =~= infos);
    }
}

/// What lifting the bodies of state `st` from `ops` gives: a module `lifted`
/// from them, or why it failed; it succeeds whenever there is one operator
/// list per body and every body can be lifted.
pub open spec fn finished(data: Seq<u8>, st: LoadSt, ops: Seq<Vec<LiftOp>>, r: Result<Module, LoadError>) -> bool {
    &&& r matches Ok(m) ==> lifted(data, st, ops_view(ops), m)
    &&& r matches Err(e) ==> finish_fails(data, st, ops.len(), e)
    &&& ops.len() == st.bodies.len() && (forall|j: int| 0 <= j < ops.len() ==> body_error(data, st, j) is None) ==> r is Ok
}

/// Every function body lies within the first `len` bytes.
pub open spec fn bodies_within(b: Seq<(usize, usize)>, len: nat) -> bool {
    forall|i: int| 0 <= i < b.len() ==> (#[trigger] b[i]).0 <= b[i].1 <= len
}

/// The name recorded last for function `idx`.
pub open spec fn lookup_name(u: Seq<(u32, String)>, idx: u32) -> Option<Seq<char>>
    decreases u.len(),
{
    if u.len() == 0 {
        None
    } else if u.last().0 == idx {
        Some(u.last().1@)
    } else {
        lookup_name(u.drop_last(), idx)
    }
}

/// The name recorded last for function `idx`.
fn name_for(u: &Vec<(u32, String)>, idx: u32) -> (r: Option<String>)
    ensures
        opt_text(r) == lookup_name(u@, idx),
{
    let mut k = u.len();
    assert(u@.take(k as int) =~= u@);
    while k > 0
        invariant
            k <= u@.len(),
            lookup_name(u@.take(k as int), idx) == lookup_name(u@, idx),
        decreases k,
    {
        assert(u@.take(k as int).drop_last() =~= u@.take(k - 1));
        if u[k - 1].0 == idx {
            return Some(u[k - 1].1.clone());
        }
        k -= 1;
    }
    None
}

/// The index of the `j`-th defined function.
pub open spec fn defined_index(st: LoadSt, j: int) -> u32 {
    wrap_add(st.num_imported, j as u32)
}

/// Why the `j`-th function body cannot be lifted, if it cannot.
pub open spec fn body_error(data: Seq<u8>, st: LoadSt, j: int) -> Option<LoadError> {
    let idx = defined_index(st, j);
    if body_locals(data, st.bodies[j].0, st.bodies[j].1) is None {
        Some(LoadError::Locals)
    } else if idx >= st.func_types.len() {
        Some(LoadError::Lift(LiftError::MissingFuncType(idx)))
    } else if st.func_types[idx as int] >= st.types.len() {
        Some(LoadError::Lift(LiftError::MissingType(st.func_types[idx as int])))
    } else {
        None
    }
}

impl ModuleLoader {
    /// The module read: each function body lifted from its operators (the
    /// `j`-th list of `ops` for the `j`-th body), with the locals it declares
    /// and the name the deduplicated names give its index; an import without
    /// a name takes its name from them too.
    pub fn finish(self, data: &[u8], ops: &Vec<Vec<LiftOp>>) -> (r: Result<Module, LoadError>)
        requires
            self.wf(),
            bodies_within(self@.bodies, data@.len()),
        ensures
            ops@.len() != self@.bodies.len() ==> r == Err::<Module, LoadError>(LoadError::BodyCount),
            ops@.len() == self@.bodies.len() && (forall|j: int| 0 <= j < ops@.len() ==> body_error(data@, self@, j) is None)
                ==> r is Ok,
            ops@.len() == self@.bodies.len() ==> (r matches Err(e) ==> exists|j: int|
                0 <= j < ops@.len() && body_error(data@, self@, j) == Some(e)
                    && forall|k: int| 0 <= k < j ==> body_error(data@, self@, k) is None),
            r matches Err(e) ==> finish_fails(data@, self@, ops@.len(), e),
            r matches Ok(m) ==> lifted(data@, self@, ops_view(ops@), m),
            r matches Ok(m) ==> {
                &&& m.types == self.module.types
                &&& m.func_types == self.module.func_types
                &&& m.imports == self.module.imports
                &&& m.globals == self.module.globals
                &&& m.exports == self.module.exports
                &&& m.memory == self.module.memory
                &&& m.memory_pages == self.module.memory_pages
                &&& m.data_segments == self.module.data_segments
                &&& m.elements == self.module.elements
                &&& m.table_size == self.module.table_size
                &&& m.functions@.len() == self@.fns.len() + ops@.len()
                &&& exists|u: Seq<(u32, String)>| {
                    &&& is_deduplicated(self.func_names@, self.module.exports@, u)
                    &&& forall|i: int| 0 <= i < self@.fns.len() ==> {
                        let f = #[trigger] m.functions@[i];
                        let g = self.module.functions@[i];
                        &&& f.index == g.index
                        &&& f.params == g.params
                        &&& f.results == g.results
                        &&& f.locals == g.locals
                        &&& f.body == g.body
                        &&& f.is_import == g.is_import
                        &&& opt_text(f.name) == if g.name is None { lookup_name(u, g.index) } else { opt_text(g.name) }
                    }
                    &&& forall|j: int| 0 <= j < ops@.len() ==> {
                        let f = #[trigger] m.functions@[self@.fns.len() + j];
                        let idx = defined_index(self@, j);
                        let ft = m.types@[m.func_types@[idx as int] as int];
                        &&& f.index == idx
                        &&& opt_text(f.name) == lookup_name(u, idx)
                        &&& f.params@ == ft.params@
                        &&& f.results@ == ft.results@
                        &&& Some(f.locals@) == body_locals(data@, self@.bodies[j].0, self@.bodies[j].1)
                        &&& !f.is_import
                        &&& f.body@ == spec_lift_body(ops@[j]@, m.types@, m.func_types@)
                    }
                }
            },
    {
        if ops.len() != self.bodies.len() {
            return Err(LoadError::BodyCount);
        }
        let ghost st = self@;
        let ghost fs0 = self.module.functions@;
        assert(all_imports(fs0));
        let ModuleLoader { module, func_names, num_imported_funcs, bodies } = self;
        let mut module = module;
        let unique = deduplicate_func_names(&func_names, &module.exports);
        let nf = module.functions.len();
        let mut j: usize = 0;
        while j < bodies.len()
            invariant
                0 <= j <= bodies@.len(),
                bodies@ == st.bodies,
                ops@.len() == bodies@.len(),
                nf == fs0.len(),
                st.fns == imported_fns_view(fs0),
                num_imported_funcs == st.num_imported,
                bodies_within(st.bodies, data@.len()),
                module.types == self.module.types,
                module.func_types == self.module.func_types,
                module.imports == self.module.imports,
                module.globals == self.module.globals,
                module.exports == self.module.exports,
                module.memory == self.module.memory,
                module.memory_pages == self.module.memory_pages,
                module.data_segments == self.module.data_segments,
                module.elements == self.module.elements,
                module.table_size == self.module.table_size,
                st == self@,
                module.functions@.len() == nf + j,
                forall|i: int| 0 <= i < nf ==> #[trigger] module.functions@[i] == fs0[i],
                forall|k: int| 0 <= k < j ==> body_error(data@, st, k) is None,
                forall|k: int| 0 <= k < j ==> {
                    let f = #[trigger] module.functions@[nf + k];
                    let idx = defined_index(st, k);
                    let ft = module.types@[module.func_types@[idx as int] as int];
                    &&& f.index == idx
                    &&& opt_text(f.name) == lookup_name(unique@, idx)
                    &&& f.params@ == ft.params@
                    &&& f.results@ == ft.results@
                    &&& Some(f.locals@) == body_locals(data@, st.bodies[k].0, st.bodies[k].1)
                    &&& !f.is_import
                    &&& f.body@ == spec_lift_body(ops@[k]@, module.types@, module.func_types@)
                },
            decreases bodies@.len() - j,
        {
            let (s, e) = bodies[j];
            let idx = num_imported_funcs.wrapping_add(#[verifier::truncate] (j as u32));
            assert(idx == defined_index(st, j as int));
            let locals = match read_body_locals(data, s, e) {
                Some(l) => l,
                None => {
                    assert(body_error(data@, st, j as int) == Some(LoadError::Locals));
                    return Err(LoadError::Locals);
                },
            };
            let name = name_for(&unique, idx);
            let f = match lift_function(&module, idx, locals, &ops[j], name) {
                Ok(f) => f,
                Err(err) => {
                    assert(body_error(data@, st, j as int) == Some(LoadError::Lift(err)));
                    return Err(LoadError::Lift(err));
                },
            };
            assert(body_error(data@, st, j as int) is None);
            module.functions.push(f);
            j += 1;
        }
        let ghost fs1 = module.functions@;
        let mut i: usize = 0;
        while i < nf
            invariant
                0 <= i <= nf,
                nf == fs0.len(),
                all_imports(fs0),
                module.functions@.len() == fs1.len(),
                fs1.len() == nf + ops@.len(),
                forall|k: int| nf <= k < fs1.len() ==> #[trigger] module.functions@[k] == fs1[k],
                forall|k: int| i <= k < nf ==> #[trigger] module.functions@[k] == fs0[k],
                forall|k: int| 0 <= k < i ==> {
                    let f = #[trigger] module.functions@[k];
                    let g = fs0[k];
                    &&& f.index == g.index
                    &&& f.params == g.params
                    &&& f.results == g.results
                    &&& f.locals == g.locals
                    &&& f.body == g.body
                    &&& f.is_import == g.is_import
                    &&& opt_text(f.name) == if g.name is None { lookup_name(unique@, g.index) } else { opt_text(g.name) }
                },
                module.types == self.module.types,
                module.func_types == self.module.func_types,
                module.imports == self.module.imports,
                module.globals == self.module.globals,
                module.exports == self.module.exports,
                module.memory == self.module.memory,
                module.memory_pages == self.module.memory_pages,
                module.data_segments == self.module.data_segments,
                module.elements == self.module.elements,
                module.table_size == self.module.table_size,
            decreases nf - i,
        {
            if module.functions[i].is_import && module.functions[i].name.is_none() {
                let name = name_for(&unique, module.functions[i].index);
                let ghost before = module.functions@;
                let mut f = module.functions.remove(i);
                f.name = name;
                let ghost fv = f;
                module.functions.insert(i, f);
                assert(module.functions@ =~= before.update(i as int, fv));
            }
            i += 1;
        }
        proof {
            assert(is_deduplicated(func_names@, self.module.exports@, unique@));
            let ov = ops_view(ops@);
            assert forall|i: int| 0 <= i < st.fns.len() implies {
                let f = #[trigger] module.functions@[i];
                let g = st.fns[i];
                &&& f.index == g.index
                &&& f.params@ == g.params
                &&& f.results@ == g.results
                &&& f.is_import
                &&& f.locals@.len() == 0
                &&& f.body.stmts@.len() == 0
                &&& opt_text(f.name) == if g.name is None { lookup_name(unique@, g.index) } else { g.name }
            } by {
                assert(st.fns[i] == imported_fns_view(fs0)[i]);
            }
            assert forall|j: int| 0 <= j < ov.len() implies {
                let f = #[trigger] module.functions@[st.fns.len() + j];
                let idx = defined_index(st, j);
                let ft = module.types@[module.func_types@[idx as int] as int];
                &&& f.index == idx
                &&& opt_text(f.name) == lookup_name(unique@, idx)
                &&& f.params@ == ft.params@
                &&& f.results@ == ft.results@
                &&& Some(f.locals@) == body_locals(data@, st.bodies[j].0, st.bodies[j].1)
                &&& !f.is_import
                &&& f.body@ == spec_lift_body(ov[j], module.types@, module.func_types@)
            } by {
                assert(ov[j] == ops@[j]@);
            }
            assert(names_view(func_names@) == st.func_names);
            assert(names_view(self.module.exports@) == st.exports);
        }
        Ok(module)
    }
}

/// Take in the payloads `infos` in order, stopping at the first that fails.
fn load_all(wasm: &[u8], infos: &Vec<PayloadInfo>) -> (r: Result<ModuleLoader, LoadError>)
    ensures
        match run_load_infos(wasm@, infos@) {
            Ok((st, _)) => r matches Ok(ld) && ld@ == st && ld.wf() && bodies_within(ld@.bodies, wasm@.len()),
            Err(e) => r is Err && r->Err_0 == e,
        },
{
    let mut loader = ModuleLoader::empty();
    let mut stack: Vec<bool> = Vec::new();
    let mut i: usize = 0;
    assert(infos@.take(0) =~= Seq::<PayloadInfo>::empty());
    assert(stack@ =~= Seq::<bool>::empty());
    while i < infos.len()
        invariant
            0 <= i <= infos@.len(),
            loader.wf(),
            bodies_within(loader@.bodies, wasm@.len()),
            run_load_infos(wasm@, infos@.take(i as int)) == Ok::<(LoadSt, Seq<bool>), LoadError>((loader@, stack@)),
        decreases infos@.len() - i,
    {
        proof {
            assert(infos@.take(i + 1).drop_last() =~= infos@.take(i as int));
        }
        let info = &infos[i];
        match info {
            PayloadInfo::Version(_, comp) => {
                stack.push(*comp);
            },
            PayloadInfo::End => {
                if stack.len() > 0 {
                    stack.pop();
                }
            },
            _ => {
                let n = stack.len();
                if n > 0 && !stack[n - 1] {
                    match loader.apply(wasm, info) {
                        Ok(()) => {},
                        Err(e) => {
                            proof {
                                lemma_run_load_err(wasm@, infos@, (i + 1) as int);
                            }
                            return Err(e);
                        },
                    }
                }
            },
        }
        i += 1;
    }
    assert(infos@.take(infos@.len() as int) =~= infos@);
    Ok(loader)
}

/// The module that the payloads `infos`, read in order from `wasm`, and the
/// operators `ops` make; or the error of the first payload that fails, or why
/// the bodies could not be lifted.
pub fn lift_payloads(wasm: &[u8], infos: &Vec<PayloadInfo>, ops: &Vec<Vec<LiftOp>>) -> (r: Result<Module, LoadError>)
    ensures
        match run_load_infos(wasm@, infos@) {
            Ok((st, _)) => finished(wasm@, st, ops@, r),
            Err(e) => r is Err && r->Err_0 == e,
        },
{
    match load_all(wasm, infos) {
        Ok(loader) => loader.finish(wasm, ops),
        Err(e) => Err(e),
    }
}

/// Read a binary module into IR, payload by payload as `wasmparser`'s parser
/// yields them (descending into the modules a component holds), lifting the
/// `j`-th function body from the `j`-th list of `ops`. A payload that does
/// not parse, or a section entry that does not read, fails the whole reading
/// with the part that failed; the reading succeeds whenever every payload and
/// entry reads, there is one operator list per body, and every body can be
/// lifted.
pub fn lift_with_ops(wasm: &[u8], ops: &Vec<Vec<LiftOp>>) -> (r: Result<Module, LoadError>)
    ensures
        match run_load_infos(wasm@, wasm_payloads(wasm@).0) {
            Ok((st, _)) => if wasm_payloads(wasm@).1 {
                finished(wasm@, st, ops@, r)
            } else {
                r is Err && r->Err_0 == LoadError::Payload
            },
            Err(e) => r is Err && r->Err_0 == e,
        },
{
    let (infos, complete) = read_payloads(wasm);
    match load_all(wasm, &infos) {
        Ok(loader) => {
            if !complete {
                return Err(LoadError::Payload);
            }
            loader.finish(wasm, ops)
        },
        Err(e) => Err(e),
    }
}

/// Every function body of `st` has operators that decode.
pub open spec fn all_bodies_decode(data: Seq<u8>, st: LoadSt) -> bool {
    forall|j: int| 0 <= j < st.bodies.len() ==> #[trigger] body_decodes(data, st.bodies[j].0, st.bodies[j].1)
}

/// Read a binary module into IR, payload by payload as `wasmparser`'s parser
/// yields them (descending into the modules a component holds), each function
/// body lifted from the operators decoded from its bytes. A payload that does
/// not parse, a section entry that does not read, or a body whose operators do
/// not decode fails the reading with the part that failed; otherwise it
/// succeeds whenever every body can be lifted.
pub fn lift(wasm: &[u8]) -> (r: Result<Module, LoadError>)
    ensures
        match run_load_infos(wasm@, wasm_payloads(wasm@).0) {
            Ok((st, _)) => if !wasm_payloads(wasm@).1 {
                r is Err && r->Err_0 == LoadError::Payload
            } else if !all_bodies_decode(wasm@, st) {
                r is Err && r->Err_0 == LoadError::Operators
            } else {
                exists|ops: Seq<Vec<LiftOp>>| {
                    &&& ops.len() == st.bodies.len()
                    &&& forall|j: int| 0 <= j < ops.len() ==> #[trigger] body_ops(wasm@, st.bodies[j].0, st.bodies[j].1, ops[j]@)
                    &&& finished(wasm@, st, ops, r)
                }
            },
            Err(e) => r is Err && r->Err_0 == e,
        },
{
    let (infos, complete) = read_payloads(wasm);
    let loader = match load_all(wasm, &infos) {
        Ok(l) => l,
        Err(e) => return Err(e),
    };
    if !complete {
        return Err(LoadError::Payload);
    }
    let ghost st = loader@;
    let mut ops: Vec<Vec<LiftOp>> = Vec::new();
    let mut j: usize = 0;
    while j < loader.bodies.len()
        invariant
            0 <= j <= loader.bodies@.len(),
            st == loader@,
            (infos@, complete) == wasm_payloads(wasm@),
            complete,
            run_load_infos(wasm@, infos@) matches Ok((s2, _)) && s2 == st,
            bodies_within(loader@.bodies, wasm@.len()),
            ops@.len() == j,
            forall|k: int| 0 <= k < j ==> #[trigger] body_decodes(wasm@, st.bodies[k].0, st.bodies[k].1),
            forall|k: int| 0 <= k < j ==> #[trigger] body_ops(wasm@, st.bodies[k].0, st.bodies[k].1, ops@[k]@),
        decreases loader.bodies@.len() - j,
    {
        let (s, e) = loader.bodies[j];
        match read_body_ops(wasm, s, e) {
            Some(v) => {
                ops.push(v);
            },
            None => {
                assert(!all_bodies_decode(wasm@, st));
                return Err(LoadError::Operators);
            },
        }
        j += 1;
    }
    assert(all_bodies_decode(wasm@, st));
    let r = loader.finish(wasm, &ops);
    assert(finished(wasm@, st, ops@, r));
    r
}

} // verus!
