//! Reading a module's layout: its functions and where their code lies, its
//! globals, exports, memory and data, payload by payload as `wasmparser` hands
//! them out.
use vstd::prelude::*;
use crate::disasm::decode::{read_operator_at, read_var_u32_at, wasm_operator, wasm_var_u32, ConstOperand};
use crate::disasm::module::{
    functions_view, globals_view, exports_view, sections_view, segments_view, ExportKind, GlobalValType,
    WasmDataSegment, WasmDataSegmentV, WasmExport, WasmExportV, WasmFunction, WasmFunctionV, WasmGlobal,
    WasmGlobalV, WasmMemory, WasmModule, WasmModuleV, WasmSection, WasmSectionV,
};
use crate::disasm::reader::{
    read_payloads, wasm_payloads, read_custom_at, wasm_custom,
    read_export_at, read_global_at, read_import_count_at, read_import_global_type_at, read_import_names_at,
    read_import_type_at, read_memory_type_at, read_rec_group_at, wasm_export, wasm_global, wasm_import_count,
    wasm_import_global_type, wasm_import_names, wasm_import_type, wasm_memory_type, wasm_rec_group, ImportType,
    PayloadInfo, read_data_at, read_name_entry, read_naming_at, read_val_type_end_at, wasm_data, wasm_name_entry,
    wasm_naming, wasm_val_type_end, NameEntry, SegmentKind,
};

verus! {

/// Why a module does not read: the part of it that failed.
#[derive(Debug, Clone, Copy, PartialEq, Eq, Structural)]
pub enum ParseError {
    Payload,
    Type,
    FunctionTypeIndex,
    Import,
    Memory,
    Global,
    Export,
}

/// What the reading has gathered so far.
pub struct ParseSt {
    pub module: WasmModuleV,
    pub func_index: u32,
    pub global_index: u32,
    pub import_func_count: u32,
    pub import_global_count: u32,
    pub func_names: Seq<(u32, Seq<char>)>,
    pub func_types: Seq<(usize, usize)>,
    pub func_type_indices: Seq<u32>,
}

pub open spec fn wrap_inc(x: u32) -> u32 {
    if x == u32::MAX { 0 } else { (x + 1) as u32 }
}

pub open spec fn wrap_add(x: u32, y: u32) -> u32 {
    if x + y > u32::MAX { (x + y - 0x1_0000_0000) as u32 } else { (x + y) as u32 }
}

/// Nothing gathered yet.
pub open spec fn init_st() -> ParseSt {
    ParseSt {
        module: WasmModuleV {
            version: 1,
            sections: Seq::empty(),
            functions: Seq::empty(),
            globals: Seq::empty(),
            start_function: None,
            exports: Seq::empty(),
            memory: None,
            data_segments: Seq::empty(),
        },
        func_index: 0,
        global_index: 0,
        import_func_count: 0,
        import_global_count: 0,
        func_names: Seq::empty(),
        func_types: Seq::empty(),
        func_type_indices: Seq::empty(),
    }
}

/// A section's item count, read at its start, where it lies within the section.
pub open spec fn section_count(data: Seq<u8>, start: usize, end: usize) -> Option<(u32, usize)> {
    match wasm_var_u32(data, start) {
        Some((n, p)) => if p <= end { Some((n, p)) } else { None },
        None => None,
    }
}

/// The type indices of `n` functions read from `pos` on, after `acc`, and the
/// position after them.
pub open spec fn type_indices_from(data: Seq<u8>, end: usize, pos: usize, n: nat, acc: Seq<u32>) -> Option<(Seq<u32>, usize)>
    decreases n,
{
    if n == 0 {
        Some((acc, pos))
    } else {
        match section_count(data, pos, end) {
            Some((t, p)) => type_indices_from(data, end, p, (n - 1) as nat, acc.push(t)),
            None => None,
        }
    }
}

/// The function section from `start` to `end`.
pub open spec fn function_section(data: Seq<u8>, st: ParseSt, start: usize, end: usize) -> Result<ParseSt, ParseError> {
    match section_count(data, start, end) {
        Some((n, p)) => match type_indices_from(data, end, p, n as nat, st.func_type_indices) {
            Some((v, q)) => if q == end { Ok(ParseSt { func_type_indices: v, ..st }) } else { Err(ParseError::FunctionTypeIndex) },
            None => Err(ParseError::FunctionTypeIndex),
        },
        None => Err(ParseError::FunctionTypeIndex),
    }
}

/// The parameter and result counts of the function types among a recursion
/// group's types, in order.
pub open spec fn func_shapes(g: Seq<Option<(usize, usize)>>) -> Seq<(usize, usize)>
    decreases g.len(),
{
    if g.len() == 0 {
        Seq::empty()
    } else {
        func_shapes(g.drop_last()) + match g.last() {
            Some(x) => seq![x],
            None => Seq::<(usize, usize)>::empty(),
        }
    }
}

/// The function shapes of `n` recursion groups read from `pos` on, after
/// `acc`, and the position after them.
pub open spec fn types_from(data: Seq<u8>, end: usize, pos: usize, n: nat, acc: Seq<(usize, usize)>) -> Option<(Seq<(usize, usize)>, usize)>
    decreases n,
{
    if n == 0 {
        Some((acc, pos))
    } else if pos > end {
        None
    } else {
        match wasm_rec_group(data, pos, end) {
            Some((g, p)) => types_from(data, end, p, (n - 1) as nat, acc + func_shapes(g)),
            None => None,
        }
    }
}

/// The type section from `start` to `end`.
pub open spec fn type_section(data: Seq<u8>, st: ParseSt, start: usize, end: usize) -> Result<ParseSt, ParseError> {
    match section_count(data, start, end) {
        Some((n, p)) => match types_from(data, end, p, n as nat, st.func_types) {
            Some((v, q)) => if q == end { Ok(ParseSt { func_types: v, ..st }) } else { Err(ParseError::Type) },
            None => Err(ParseError::Type),
        },
        None => Err(ParseError::Type),
    }
}

/// A global's value type; one that is no number counts as `i32`.
pub open spec fn val_type_or_i32(t: Option<GlobalValType>) -> GlobalValType {
    match t {
        Some(v) => v,
        None => GlobalValType::I32,
    }
}

/// The state after a global of the global section.
pub open spec fn add_global(st: ParseSt, t: Option<GlobalValType>, mutable: bool) -> ParseSt {
    let g = WasmGlobalV {
        index: wrap_add(st.import_global_count, st.global_index),
        name: None,
        val_type: val_type_or_i32(t),
        mutable,
    };
    ParseSt {
        module: WasmModuleV { globals: st.module.globals.push(g), ..st.module },
        global_index: wrap_inc(st.global_index),
        ..st
    }
}

/// The state after `n` globals read from `pos` on, and the position after them.
pub open spec fn globals_from(data: Seq<u8>, end: usize, pos: usize, n: nat, st: ParseSt) -> Option<(ParseSt, usize)>
    decreases n,
{
    if n == 0 {
        Some((st, pos))
    } else if pos > end {
        None
    } else {
        match wasm_global(data, pos, end) {
            Some(((t, m, _, _), p)) => globals_from(data, end, p, (n - 1) as nat, add_global(st, t, m)),
            None => None,
        }
    }
}

/// The global section from `start` to `end`.
pub open spec fn global_section(data: Seq<u8>, st: ParseSt, start: usize, end: usize) -> Result<ParseSt, ParseError> {
    match section_count(data, start, end) {
        Some((n, p)) => match globals_from(data, end, p, n as nat, st) {
            Some((s2, q)) => if q == end { Ok(s2) } else { Err(ParseError::Global) },
            None => Err(ParseError::Global),
        },
        None => Err(ParseError::Global),
    }
}

/// The state after an export; a tag's export is passed over.
pub open spec fn add_export(st: ParseSt, name: Seq<char>, kind: Option<ExportKind>, index: u32) -> ParseSt {
    match kind {
        Some(k) => ParseSt {
            module: WasmModuleV {
                exports: st.module.exports.push(WasmExportV { name, kind: k, index }),
                ..st.module
            },
            ..st
        },
        None => st,
    }
}

/// The state after `n` exports read from `pos` on, and the position after them.
pub open spec fn exports_from(data: Seq<u8>, end: usize, pos: usize, n: nat, st: ParseSt) -> Option<(ParseSt, usize)>
    decreases n,
{
    if n == 0 {
        Some((st, pos))
    } else if pos > end {
        None
    } else {
        match wasm_export(data, pos, end) {
            Some(((name, k, i), p)) => exports_from(data, end, p, (n - 1) as nat, add_export(st, name, k, i)),
            None => None,
        }
    }
}

/// The export section from `start` to `end`.
pub open spec fn export_section(data: Seq<u8>, st: ParseSt, start: usize, end: usize) -> Result<ParseSt, ParseError> {
    match section_count(data, start, end) {
        Some((n, p)) => match exports_from(data, end, p, n as nat, st) {
            Some((s2, q)) => if q == end { Ok(s2) } else { Err(ParseError::Export) },
            None => Err(ParseError::Export),
        },
        None => Err(ParseError::Export),
    }
}

/// Page counts as the module records them.
pub open spec fn memory_of(initial: u64, maximum: Option<u64>) -> WasmMemory {
    WasmMemory {
        initial_pages: initial as u32,
        max_pages: match maximum {
            Some(m) => Some(#[verifier::truncate] (m as u32)),
            None => None,
        },
    }
}

/// The memory section from `start` to `end`: only its first memory is read.
pub open spec fn memory_section(data: Seq<u8>, st: ParseSt, start: usize, end: usize) -> Result<ParseSt, ParseError> {
    match section_count(data, start, end) {
        Some((n, p)) => if n == 0 {
            if p == end { Ok(st) } else { Err(ParseError::Memory) }
        } else {
            match wasm_memory_type(data, p, end) {
                Some(((i, m), _)) => Ok(
                    ParseSt { module: WasmModuleV { memory: Some(memory_of(i, m)), ..st.module }, ..st },
                ),
                None => Err(ParseError::Memory),
            }
        },
        None => Err(ParseError::Memory),
    }
}

/// The name an import gets: its module's name, an underscore and its own name.
pub open spec fn import_name(module: Seq<char>, name: Seq<char>) -> Seq<char> {
    module + seq!['_'] + name
}

/// The parameter and result counts of type `t`, or none where there is no such type.
pub open spec fn func_shape(st: ParseSt, t: u32) -> (usize, usize) {
    if t < st.func_types.len() { st.func_types[t as int] } else { (0, 0) }
}

/// The state after an import.
pub open spec fn add_import(st: ParseSt, module: Seq<char>, name: Seq<char>, ty: ImportType, gt: Option<GlobalValType>) -> ParseSt {
    match ty {
        ImportType::Func(t) => {
            let f = WasmFunctionV {
                index: st.import_func_count,
                code_offset: 0,
                code_size: 0,
                name: Some(import_name(module, name)),
                param_count: func_shape(st, t).0,
                return_count: func_shape(st, t).1,
            };
            ParseSt {
                module: WasmModuleV { functions: st.module.functions.push(f), ..st.module },
                import_func_count: wrap_inc(st.import_func_count),
                ..st
            }
        },
        ImportType::Global(m) => {
            let g = WasmGlobalV {
                index: st.import_global_count,
                name: Some(import_name(module, name)),
                val_type: val_type_or_i32(gt),
                mutable: m,
            };
            ParseSt {
                module: WasmModuleV { globals: st.module.globals.push(g), ..st.module },
                import_global_count: wrap_inc(st.import_global_count),
                ..st
            }
        },
        ImportType::Memory(i, m) => ParseSt { module: WasmModuleV { memory: Some(memory_of(i, m)), ..st.module }, ..st },
        _ => st,
    }
}

/// The state after the imports `k` to `c` of the group at `pos`.
pub open spec fn import_items(data: Seq<u8>, pos: usize, end: usize, k: nat, c: nat, st: ParseSt) -> Option<ParseSt>
    decreases c - k,
{
    if k >= c {
        Some(st)
    } else {
        match (wasm_import_names(data, pos, end, k as usize), wasm_import_type(data, pos, end, k as usize)) {
            (Some((m, n)), Some(ty)) => import_items(
                data,
                pos,
                end,
                k + 1,
                c,
                add_import(st, m, n, ty, wasm_import_global_type(data, pos, end, k as usize)),
            ),
            _ => None,
        }
    }
}

/// The state after `n` import groups read from `pos` on, and the position after them.
pub open spec fn imports_from(data: Seq<u8>, end: usize, pos: usize, n: nat, st: ParseSt) -> Option<(ParseSt, usize)>
    decreases n,
{
    if n == 0 {
        Some((st, pos))
    } else if pos > end {
        None
    } else {
        match wasm_import_count(data, pos, end) {
            Some((c, p)) => match import_items(data, pos, end, 0, c as nat, st) {
                Some(s2) => imports_from(data, end, p, (n - 1) as nat, s2),
                None => None,
            },
            None => None,
        }
    }
}

/// The import section from `start` to `end`.
pub open spec fn import_section(data: Seq<u8>, st: ParseSt, start: usize, end: usize) -> Result<ParseSt, ParseError> {
    match section_count(data, start, end) {
        Some((n, p)) => match imports_from(data, end, p, n as nat, st) {
            Some((s2, q)) => if q == end { Ok(s2) } else { Err(ParseError::Import) },
            None => Err(ParseError::Import),
        },
        None => Err(ParseError::Import),
    }
}

/// The position after `c` local declarations (a count and a value type each)
/// read from `pos` on; the reading stops at the first one that does not read.
pub open spec fn skip_locals(data: Seq<u8>, end: usize, pos: usize, c: nat) -> usize
    decreases c,
{
    if c == 0 || pos > end {
        pos
    } else {
        match section_count(data, pos, end) {
            Some((_, p)) => match wasm_val_type_end(data, p, end) {
                Some(q) => if q <= end { skip_locals(data, end, q, (c - 1) as nat) } else { p },
                None => p,
            },
            None => pos,
        }
    }
}

/// Where the instructions of the function body from `start` to `end` begin:
/// after its local declarations.
pub open spec fn code_start(data: Seq<u8>, start: usize, end: usize) -> usize {
    match section_count(data, start, end) {
        Some((c, p)) => skip_locals(data, end, p, c as nat),
        None => start,
    }
}

/// The parameter and result counts of the next defined function.
pub open spec fn next_shape(st: ParseSt) -> (usize, usize) {
    if st.func_index < st.func_type_indices.len() {
        func_shape(st, st.func_type_indices[st.func_index as int])
    } else {
        (0, 0)
    }
}

/// The state after the function body from `start` to `end`.
pub open spec fn code_entry(data: Seq<u8>, st: ParseSt, start: usize, end: usize) -> ParseSt {
    let cs = code_start(data, start, end);
    let f = WasmFunctionV {
        index: wrap_add(st.import_func_count, st.func_index),
        code_offset: cs,
        code_size: (end - cs) as usize,
        name: None,
        param_count: next_shape(st).0,
        return_count: next_shape(st).1,
    };
    ParseSt {
        module: WasmModuleV { functions: st.module.functions.push(f), ..st.module },
        func_index: wrap_inc(st.func_index),
        ..st
    }
}

/// Where an active segment of memory 0 is placed: the constant its offset
/// expression starts with, where that is an `i32.const` or `i64.const`.
pub open spec fn segment_offset(data: Seq<u8>, kind: SegmentKind) -> Option<u32> {
    match kind {
        SegmentKind::Active(mi, es, ee) => if mi == 0 && es <= ee <= data.len() {
            match wasm_operator(data, es) {
                Some((ConstOperand::I32(v), n)) => if n <= ee { Some(v as u32) } else { None },
                Some((ConstOperand::I64(v), n)) => if n <= ee { Some(v as u32) } else { None },
                _ => None,
            }
        } else {
            None
        },
        SegmentKind::Passive => None,
    }
}

/// The segments after up to `n` data segments read from `pos` on; the reading
/// stops at the first one that does not read.
pub open spec fn segments_from(data: Seq<u8>, end: usize, pos: usize, n: nat, segs: Seq<WasmDataSegmentV>) -> Seq<WasmDataSegmentV>
    decreases n,
{
    if n == 0 || pos > end {
        segs
    } else {
        match wasm_data(data, pos, end) {
            Some(((kind, bytes), p)) => segments_from(
                data,
                end,
                p,
                (n - 1) as nat,
                match segment_offset(data, kind) {
                    Some(o) => segs.push(WasmDataSegmentV { memory_offset: o, data: bytes }),
                    None => segs,
                },
            ),
            None => segs,
        }
    }
}

/// The data section from `start` to `end`: its place, and the segments that read.
pub open spec fn data_section(data: Seq<u8>, st: ParseSt, start: usize, end: usize) -> ParseSt {
    let sections = st.module.sections.push(WasmSectionV::Data { offset: start, size: (end - start) as usize });
    let segs = match section_count(data, start, end) {
        Some((n, p)) => segments_from(data, end, p, n as nat, st.module.data_segments),
        None => st.module.data_segments,
    };
    ParseSt { module: WasmModuleV { sections, data_segments: segs, ..st.module }, ..st }
}

/// The function names after up to `c` namings read from `pos` on; a naming
/// whose index is not above the last one taken is passed over, and the reading
/// stops at the first one that does not read.
pub open spec fn namings_from(
    data: Seq<u8>,
    end: usize,
    pos: usize,
    c: nat,
    last: Option<u32>,
    acc: Seq<(u32, Seq<char>)>,
) -> Seq<(u32, Seq<char>)>
    decreases c,
{
    if c == 0 || pos > end {
        acc
    } else {
        match wasm_naming(data, pos, end) {
            Some(((i, n), p)) => if last matches Some(l) && i <= l {
                namings_from(data, end, p, (c - 1) as nat, last, acc)
            } else {
                namings_from(data, end, p, (c - 1) as nat, Some(i), acc.push((i, n)))
            },
            None => acc,
        }
    }
}

/// The function names after the items `k` on of the name section from `start` to `end`.
pub open spec fn names_from(data: Seq<u8>, start: usize, end: usize, k: nat, acc: Seq<(u32, Seq<char>)>) -> Seq<(u32, Seq<char>)>
    decreases end - start - k,
{
    if start > end || k >= end - start {
        acc
    } else {
        match wasm_name_entry(data, start, end, k as usize) {
            Some(NameEntry::Functions(p, c, e)) => names_from(data, start, end, k + 1, namings_from(data, e, p, c as nat, None, acc)),
            Some(_) => names_from(data, start, end, k + 1, acc),
            None => acc,
        }
    }
}

/// A custom section: the function names of a `name` section are taken in,
/// and the section's place is recorded.
pub open spec fn custom_section(data: Seq<u8>, st: ParseSt, name: Seq<char>, start: usize, end: usize) -> ParseSt {
    let names = if name == seq!['n', 'a', 'm', 'e'] && end <= data.len() {
        names_from(data, start, end, 0, st.func_names)
    } else {
        st.func_names
    };
    let sections = st.module.sections.push(WasmSectionV::Other { name, offset: start, size: (end - start) as usize });
    ParseSt { module: WasmModuleV { sections, ..st.module }, func_names: names, ..st }
}

/// The state after one payload.
pub open spec fn step_v(data: Seq<u8>, st: ParseSt, info: PayloadInfo) -> Result<ParseSt, ParseError> {
    match info {
        PayloadInfo::Version(num, _) => Ok(ParseSt { module: WasmModuleV { version: num as u32, ..st.module }, ..st }),
        PayloadInfo::Start(f) => Ok(ParseSt { module: WasmModuleV { start_function: Some(f), ..st.module }, ..st }),
        PayloadInfo::Section(id, s, e) => if !(s <= e) {
            Err(ParseError::Payload)
        } else if id == 10 {
            Ok(
                ParseSt {
                    module: WasmModuleV {
                        sections: st.module.sections.push(WasmSectionV::Code { offset: s, size: (e - s) as usize }),
                        ..st.module
                    },
                    ..st
                },
            )
        } else if !(e <= data.len()) {
            if id == 0 || id == 1 || id == 2 || id == 11 || id == 3 || id == 5 || id == 6 || id == 7 { Err(ParseError::Payload) } else { Ok(st) }
        } else if id == 0 {
            match wasm_custom(data, s, e) {
                Some((name, off)) => if off <= e { Ok(custom_section(data, st, name, off, e)) } else { Err(ParseError::Payload) },
                None => Err(ParseError::Payload),
            }
        } else if id == 1 {
            type_section(data, st, s, e)
        } else if id == 2 {
            import_section(data, st, s, e)
        } else if id == 3 {
            function_section(data, st, s, e)
        } else if id == 5 {
            memory_section(data, st, s, e)
        } else if id == 6 {
            global_section(data, st, s, e)
        } else if id == 7 {
            export_section(data, st, s, e)
        } else if id == 11 {
            Ok(data_section(data, st, s, e))
        } else {
            Ok(st)
        },
        PayloadInfo::CodeEntry(s, e) => if s <= e <= data.len() {
            Ok(code_entry(data, st, s, e))
        } else {
            Err(ParseError::Payload)
        },
        PayloadInfo::Custom(name, s, e) => if s <= e {
            Ok(custom_section(data, st, name@, s, e))
        } else {
            Err(ParseError::Payload)
        },
        PayloadInfo::End => Ok(st),
        PayloadInfo::Other => Ok(st),
    }
}

/// The first function from the `j`-th on with index `idx`.
pub open spec fn find_function(fs: Seq<WasmFunctionV>, idx: u32, j: nat) -> Option<int>
    decreases fs.len() - j,
{
    if j >= fs.len() {
        None
    } else if fs[j as int].index == idx {
        Some(j as int)
    } else {
        find_function(fs, idx, j + 1)
    }
}

/// The first global from the `j`-th on with index `idx`.
pub open spec fn find_global(gs: Seq<WasmGlobalV>, idx: u32, j: nat) -> Option<int>
    decreases gs.len() - j,
{
    if j >= gs.len() {
        None
    } else if gs[j as int].index == idx {
        Some(j as int)
    } else {
        find_global(gs, idx, j + 1)
    }
}

/// The functions after the name-section names, in order: each names the
/// first function with its index.
pub open spec fn apply_names(fs: Seq<WasmFunctionV>, names: Seq<(u32, Seq<char>)>) -> Seq<WasmFunctionV>
    decreases names.len(),
{
    if names.len() == 0 {
        fs
    } else {
        let next = match find_function(fs, names[0].0, 0) {
            Some(j) => fs.update(j, WasmFunctionV { name: Some(names[0].1), ..fs[j] }),
            None => fs,
        };
        apply_names(next, names.drop_first())
    }
}

/// The functions after the exports, in order: an exported function that has
/// no name yet takes its export's name.
pub open spec fn export_function_names(fs: Seq<WasmFunctionV>, exports: Seq<WasmExportV>) -> Seq<WasmFunctionV>
    decreases exports.len(),
{
    if exports.len() == 0 {
        fs
    } else {
        let e = exports[0];
        let next = if e.kind == ExportKind::Func {
            match find_function(fs, e.index, 0) {
                Some(j) => if fs[j].name is None { fs.update(j, WasmFunctionV { name: Some(e.name), ..fs[j] }) } else { fs },
                None => fs,
            }
        } else {
            fs
        };
        export_function_names(next, exports.drop_first())
    }
}

/// The globals after the exports, in order: an exported global that has no
/// name yet takes its export's name.
pub open spec fn export_global_names(gs: Seq<WasmGlobalV>, exports: Seq<WasmExportV>) -> Seq<WasmGlobalV>
    decreases exports.len(),
{
    if exports.len() == 0 {
        gs
    } else {
        let e = exports[0];
        let next = if e.kind == ExportKind::Global {
            match find_global(gs, e.index, 0) {
                Some(j) => if gs[j].name is None { gs.update(j, WasmGlobalV { name: Some(e.name), ..gs[j] }) } else { gs },
                None => gs,
            }
        } else {
            gs
        };
        export_global_names(next, exports.drop_first())
    }
}

/// The module once everything is read: names given to functions and globals.
pub open spec fn finish_v(st: ParseSt) -> WasmModuleV {
    WasmModuleV {
        functions: export_function_names(apply_names(st.module.functions, st.func_names), st.module.exports),
        globals: export_global_names(st.module.globals, st.module.exports),
        ..st.module
    }
}

/// Every function's code lies within the first `len` bytes.
pub open spec fn code_within(fs: Seq<WasmFunctionV>, len: nat) -> bool {
    forall|i: int| 0 <= i < fs.len() ==> #[trigger] fs[i].code_offset + fs[i].code_size <= len
}

proof fn lemma_globals_from_functions(data: Seq<u8>, end: usize, pos: usize, n: nat, st: ParseSt)
    ensures
        globals_from(data, end, pos, n, st) matches Some((s2, _)) ==> s2.module.functions == st.module.functions,
    decreases n,
{
    if n > 0 && pos <= end {
        if let Some(((t, m, _, _), p)) = wasm_global(data, pos, end) {
            lemma_globals_from_functions(data, end, p, (n - 1) as nat, add_global(st, t, m));
        }
    }
}

proof fn lemma_exports_from_functions(data: Seq<u8>, end: usize, pos: usize, n: nat, st: ParseSt)
    ensures
        exports_from(data, end, pos, n, st) matches Some((s2, _)) ==> s2.module.functions == st.module.functions,
    decreases n,
{
    if n > 0 && pos <= end {
        if let Some(((name, k, i), p)) = wasm_export(data, pos, end) {
            lemma_exports_from_functions(data, end, p, (n - 1) as nat, add_export(st, name, k, i));
        }
    }
}

proof fn lemma_import_items_code(data: Seq<u8>, pos: usize, end: usize, k: nat, c: nat, st: ParseSt, len: nat)
    requires
        code_within(st.module.functions, len),
    ensures
        import_items(data, pos, end, k, c, st) matches Some(s2) ==> code_within(s2.module.functions, len),
    decreases c - k,
{
    if k < c {
        if let (Some((m, n)), Some(ty)) = (wasm_import_names(data, pos, end, k as usize), wasm_import_type(data, pos, end, k as usize)) {
            let s1 = add_import(st, m, n, ty, wasm_import_global_type(data, pos, end, k as usize));
            assert(code_within(s1.module.functions, len));
            lemma_import_items_code(data, pos, end, k + 1, c, s1, len);
        }
    }
}

proof fn lemma_imports_from_code(data: Seq<u8>, end: usize, pos: usize, n: nat, st: ParseSt, len: nat)
    requires
        code_within(st.module.functions, len),
    ensures
        imports_from(data, end, pos, n, st) matches Some((s2, _)) ==> code_within(s2.module.functions, len),
    decreases n,
{
    if n > 0 && pos <= end {
        if let Some((c, p)) = wasm_import_count(data, pos, end) {
            lemma_import_items_code(data, pos, end, 0, c as nat, st, len);
            if let Some(s2) = import_items(data, pos, end, 0, c as nat, st) {
                lemma_imports_from_code(data, end, p, (n - 1) as nat, s2, len);
            }
        }
    }
}

proof fn lemma_skip_locals_bound(data: Seq<u8>, end: usize, pos: usize, c: nat)
    requires
        pos <= end,
    ensures
        skip_locals(data, end, pos, c) <= end,
    decreases c,
{
    if c > 0 {
        if let Some((_, p)) = section_count(data, pos, end) {
            if let Some(q) = wasm_val_type_end(data, p, end) {
                if q <= end {
                    lemma_skip_locals_bound(data, end, q, (c - 1) as nat);
                }
            }
        }
    }
}

/// Each payload keeps every function's code within the data.
proof fn lemma_step_code_within(data: Seq<u8>, st: ParseSt, info: PayloadInfo)
    requires
        code_within(st.module.functions, data.len()),
    ensures
        step_v(data, st, info) matches Ok(s2) ==> code_within(s2.module.functions, data.len()),
{
    match info {
        PayloadInfo::Section(id, s, e) => {
            if s <= e && e <= data.len() {
                if let Some((n, p)) = section_count(data, s, e) {
                    if id == 2 {
                        lemma_imports_from_code(data, e, p, n as nat, st, data.len());
                    } else if id == 6 {
                        lemma_globals_from_functions(data, e, p, n as nat, st);
                    } else if id == 7 {
                        lemma_exports_from_functions(data, e, p, n as nat, st);
                    }
                }
            }
        },
        PayloadInfo::CodeEntry(s, e) => {
            if s <= e <= data.len() {
                if let Some((c, p)) = section_count(data, s, e) {
                    lemma_skip_locals_bound(data, e, p, c as nat);
                }
                let s2 = code_entry(data, st, s, e);
                assert(code_within(s2.module.functions, data.len()));
            }
        },
        _ => {},
    }
}

proof fn lemma_apply_names_code(fs: Seq<WasmFunctionV>, names: Seq<(u32, Seq<char>)>, len: nat)
    requires
        code_within(fs, len),
    ensures
        code_within(apply_names(fs, names), len),
    decreases names.len(),
{
    if names.len() > 0 {
        lemma_find_function(fs, names[0].0, 0);
        let next = match find_function(fs, names[0].0, 0) {
            Some(j) => fs.update(j, WasmFunctionV { name: Some(names[0].1), ..fs[j] }),
            None => fs,
        };
        assert(code_within(next, len));
        lemma_apply_names_code(next, names.drop_first(), len);
    }
}

proof fn lemma_export_names_code(fs: Seq<WasmFunctionV>, exports: Seq<WasmExportV>, len: nat)
    requires
        code_within(fs, len),
    ensures
        code_within(export_function_names(fs, exports), len),
    decreases exports.len(),
{
    if exports.len() > 0 {
        let e = exports[0];
        lemma_find_function(fs, e.index, 0);
        let next = if e.kind == ExportKind::Func {
            match find_function(fs, e.index, 0) {
                Some(j) => if fs[j].name is None { fs.update(j, WasmFunctionV { name: Some(e.name), ..fs[j] }) } else { fs },
                None => fs,
            }
        } else {
            fs
        };
        assert(code_within(next, len));
        lemma_export_names_code(next, exports.drop_first(), len);
    }
}

/// `module`, an underscore and `name`.
pub(crate) fn joined_name(module: &String, name: &String) -> (r: String)
    ensures
        r@ == import_name(module@, name@),
{
    let mut r = module.clone();
    r.append("_");
    r.append(name.as_str());
    proof {
        reveal_strlit("_");
    }
    r
}

/// Whether a custom section's name is `name`.
pub(crate) fn name_is_name(name: &String) -> (r: bool)
    ensures
        r == (name@ == seq!['n', 'a', 'm', 'e']),
{
    let lit = String::from_str("name");
    proof {
        reveal_strlit("name");
        assert("name"@ =~= seq!['n', 'a', 'm', 'e']);
    }
    *name == lit
}

proof fn lemma_find_function(fs: Seq<WasmFunctionV>, idx: u32, k: nat)
    ensures
        find_function(fs, idx, k) matches Some(j) ==> k <= j < fs.len() && fs[j].index == idx,
    decreases fs.len() - k,
{
    if k < fs.len() && fs[k as int].index != idx {
        lemma_find_function(fs, idx, k + 1);
    }
}

proof fn lemma_find_global(gs: Seq<WasmGlobalV>, idx: u32, k: nat)
    ensures
        find_global(gs, idx, k) matches Some(j) ==> k <= j < gs.len() && gs[j].index == idx,
    decreases gs.len() - k,
{
    if k < gs.len() && gs[k as int].index != idx {
        lemma_find_global(gs, idx, k + 1);
    }
}

/// The first function with index `idx`.
fn function_with_index(fs: &Vec<WasmFunction>, idx: u32) -> (r: Option<usize>)
    ensures
        match r {
            Some(j) => find_function(functions_view(fs@), idx, 0) == Some(j as int) && j < fs@.len(),
            None => find_function(functions_view(fs@), idx, 0) is None,
        },
{
    proof {
        lemma_find_function(functions_view(fs@), idx, 0);
    }
    let mut j: usize = 0;
    while j < fs.len()
        invariant
            0 <= j <= fs@.len(),
            find_function(functions_view(fs@), idx, j as nat) == find_function(functions_view(fs@), idx, 0),
        decreases fs@.len() - j,
    {
        if fs[j].index == idx {
            return Some(j);
        }
        j += 1;
    }
    None
}

/// The first global with index `idx`.
fn global_with_index(gs: &Vec<WasmGlobal>, idx: u32) -> (r: Option<usize>)
    ensures
        match r {
            Some(j) => find_global(globals_view(gs@), idx, 0) == Some(j as int) && j < gs@.len(),
            None => find_global(globals_view(gs@), idx, 0) is None,
        },
{
    proof {
        lemma_find_global(globals_view(gs@), idx, 0);
    }
    let mut j: usize = 0;
    while j < gs.len()
        invariant
            0 <= j <= gs@.len(),
            find_global(globals_view(gs@), idx, j as nat) == find_global(globals_view(gs@), idx, 0),
        decreases gs@.len() - j,
    {
        if gs[j].index == idx {
            return Some(j);
        }
        j += 1;
    }
    None
}

/// Give the `j`-th function the name `name`.
fn set_function_name(fs: &mut Vec<WasmFunction>, j: usize, name: String)
    requires
        j < old(fs)@.len(),
    ensures
        functions_view(final(fs)@) == functions_view(old(fs)@).update(
            j as int,
            WasmFunctionV { name: Some(name@), ..old(fs)@[j as int]@ },
        ),
{
    let f = WasmFunction {
        index: fs[j].index,
        code_offset: fs[j].code_offset,
        code_size: fs[j].code_size,
        name: Some(name),
        param_count: fs[j].param_count,
        return_count: fs[j].return_count,
    };
    let ghost old_fs = fs@;
    fs.set(j, f);
    proof {
        assert(functions_view(fs@) =~= functions_view(old_fs).update(
            j as int,
            WasmFunctionV { name: Some(name@), ..old_fs[j as int]@ },
        ));
    }
}

/// Give the `j`-th global the name `name`.
fn set_global_name(gs: &mut Vec<WasmGlobal>, j: usize, name: String)
    requires
        j < old(gs)@.len(),
    ensures
        globals_view(final(gs)@) == globals_view(old(gs)@).update(
            j as int,
            WasmGlobalV { name: Some(name@), ..old(gs)@[j as int]@ },
        ),
{
    let g = WasmGlobal { index: gs[j].index, name: Some(name), val_type: gs[j].val_type, mutable: gs[j].mutable };
    let ghost old_gs = gs@;
    gs.set(j, g);
    proof {
        assert(globals_view(gs@) =~= globals_view(old_gs).update(
            j as int,
            WasmGlobalV { name: Some(name@), ..old_gs[j as int]@ },
        ));
    }
}

/// Take in the function names of the name section whose data lies from
/// `start` to `end`.
pub(crate) fn read_function_names(data: &[u8], start: usize, end: usize, names: &mut Vec<(u32, String)>)
    requires
        start <= end <= data@.len(),
    ensures
        names_view(final(names)@) == names_from(data@, start, end, 0, names_view(old(names)@)),
{
    let mut k: usize = 0;
    let mut stopped = false;
    while k < end - start && !stopped
        invariant
            start <= end <= data@.len(),
            0 <= k <= end - start,
            !stopped ==> names_from(data@, start, end, k as nat, names_view(names@))
                == names_from(data@, start, end, 0, names_view(old(names)@)),
            stopped ==> names_view(names@) == names_from(data@, start, end, 0, names_view(old(names)@)),
        decreases end - start - k,
    {
        match read_name_entry(data, start, end, k) {
            Some(NameEntry::Functions(p, c, e)) => {
                read_namings(data, p, c, e, names);
            },
            Some(_) => {},
            None => {
                stopped = true;
            },
        }
        k += 1;
    }
}

/// Take in up to `c` function namings from `pos` on.
fn read_namings(data: &[u8], pos: usize, c: u32, end: usize, names: &mut Vec<(u32, String)>)
    requires
        pos <= end <= data@.len(),
    ensures
        names_view(final(names)@) == namings_from(data@, end, pos, c as nat, None, names_view(old(names)@)),
{
    let mut at = pos;
    let mut last: Option<u32> = None;
    let mut i: u32 = 0;
    let mut stopped = false;
    while i < c && !stopped
        invariant
            0 <= i <= c,
            at <= end <= data@.len(),
            !stopped ==> namings_from(data@, end, at, (c - i) as nat, last, names_view(names@))
                == namings_from(data@, end, pos, c as nat, None, names_view(old(names)@)),
            stopped ==> names_view(names@) == namings_from(data@, end, pos, c as nat, None, names_view(old(names)@)),
        decreases c - i,
    {
        match read_naming_at(data, at, end) {
            Some(((index, name), p)) => {
                let take = match last {
                    Some(l) => index > l,
                    None => true,
                };
                if take {
                    let ghost old_names = names@;
                    names.push((index, name));
                    proof {
                        assert(names_view(names@) =~= names_view(old_names).push((index, name@)));
                    }
                    last = Some(index);
                }
                at = p;
            },
            None => {
                stopped = true;
            },
        }
        i += 1;
    }
}

/// The reader's state: what it has gathered so far.
pub struct ModuleReader {
    pub module: WasmModule,
    pub func_index: u32,
    pub global_index: u32,
    pub import_func_count: u32,
    pub import_global_count: u32,
    pub func_names: Vec<(u32, String)>,
    pub func_types: Vec<(usize, usize)>,
    pub func_type_indices: Vec<u32>,
}

pub open spec fn names_view(v: Seq<(u32, String)>) -> Seq<(u32, Seq<char>)> {
    v.map_values(|p: (u32, String)| (p.0, p.1@))
}

impl View for ModuleReader {
    type V = ParseSt;

    open spec fn view(&self) -> ParseSt {
        ParseSt {
            module: self.module@,
            func_index: self.func_index,
            global_index: self.global_index,
            import_func_count: self.import_func_count,
            import_global_count: self.import_global_count,
            func_names: names_view(self.func_names@),
            func_types: self.func_types@,
            func_type_indices: self.func_type_indices@,
        }
    }
}

impl ModuleReader {
    pub fn new() -> (r: ModuleReader)
        ensures
            r@ == init_st(),
    {
        let r = ModuleReader {
            module: WasmModule {
                version: 1,
                sections: Vec::new(),
                functions: Vec::new(),
                globals: Vec::new(),
                start_function: None,
                _exports: Vec::new(),
                memory: None,
                data_segments: Vec::new(),
            },
            func_index: 0,
            global_index: 0,
            import_func_count: 0,
            import_global_count: 0,
            func_names: Vec::new(),
            func_types: Vec::new(),
            func_type_indices: Vec::new(),
        };
        proof {
            assert(r@.module.sections =~= Seq::<WasmSectionV>::empty());
            assert(r@.module.functions =~= Seq::<WasmFunctionV>::empty());
            assert(r@.module.globals =~= Seq::<WasmGlobalV>::empty());
            assert(r@.module.exports =~= Seq::<WasmExportV>::empty());
            assert(r@.module.data_segments =~= Seq::<WasmDataSegmentV>::empty());
            assert(r@.func_names =~= Seq::<(u32, Seq<char>)>::empty());
        }
        r
    }

    /// Read the function section from `start` to `end`.
    fn function_section(&mut self, data: &[u8], start: usize, end: usize) -> (r: Result<(), ParseError>)
        requires
            start <= end <= data@.len(),
        ensures
            match function_section(data@, old(self)@, start, end) {
                Ok(st) => r is Ok && final(self)@ == st,
                Err(e) => r == Err::<(), ParseError>(e),
            },
    {
        let (n, mut pos) = match read_var_u32_at(data, start) {
            Some((n, p)) => if p <= end { (n, p) } else { return Err(ParseError::FunctionTypeIndex) },
            None => return Err(ParseError::FunctionTypeIndex),
        };
        let ghost st0 = self@;
        let mut i: u32 = 0;
        while i < n
            invariant
                0 <= i <= n,
                pos <= end <= data@.len(),
                type_indices_from(data@, end, pos, (n - i) as nat, self.func_type_indices@)
                    == type_indices_from(data@, end, section_count(data@, start, end)->Some_0.1, n as nat, st0.func_type_indices),
                self@ == (ParseSt { func_type_indices: self.func_type_indices@, ..st0 }),
                section_count(data@, start, end) is Some,
                section_count(data@, start, end)->Some_0.0 == n,
                st0 == old(self)@,
            decreases n - i,
        {
            let ghost k = (n - i) as nat;
            assert(type_indices_from(data@, end, pos, k, self.func_type_indices@) == match section_count(data@, pos, end) {
                Some((t, p)) => type_indices_from(data@, end, p, (k - 1) as nat, self.func_type_indices@.push(t)),
                None => None,
            });
            match read_var_u32_at(data, pos) {
                Some((t, p)) => {
                    if p > end {
                        return Err(ParseError::FunctionTypeIndex);
                    }
                    self.func_type_indices.push(t);
                    pos = p;
                },
                None => return Err(ParseError::FunctionTypeIndex),
            }
            i += 1;
        }
        if pos != end {
            return Err(ParseError::FunctionTypeIndex);
        }
        Ok(())
    }

    /// Read the type section from `start` to `end`.
    fn type_section(&mut self, data: &[u8], start: usize, end: usize) -> (r: Result<(), ParseError>)
        requires
            start <= end <= data@.len(),
        ensures
            match type_section(data@, old(self)@, start, end) {
                Ok(st) => r is Ok && final(self)@ == st,
                Err(e) => r == Err::<(), ParseError>(e),
            },
    {
        let (n, mut pos) = match read_var_u32_at(data, start) {
            Some((n, p)) => if p <= end { (n, p) } else { return Err(ParseError::Type) },
            None => return Err(ParseError::Type),
        };
        let ghost st0 = self@;
        let mut i: u32 = 0;
        while i < n
            invariant
                0 <= i <= n,
                pos <= end <= data@.len(),
                st0 == old(self)@,
                section_count(data@, start, end) is Some,
                section_count(data@, start, end)->Some_0.0 == n,
                types_from(data@, end, pos, (n - i) as nat, self.func_types@)
                    == types_from(data@, end, section_count(data@, start, end)->Some_0.1, n as nat, st0.func_types),
                self@ == (ParseSt { func_types: self.func_types@, ..st0 }),
            decreases n - i,
        {
            let ghost k = (n - i) as nat;
            match read_rec_group_at(data, pos, end) {
                Some((g, p)) => {
                    let ghost before = self.func_types@;
                    assert(types_from(data@, end, pos, k, before) == types_from(data@, end, p, (k - 1) as nat, before + func_shapes(g@)));
                    let mut j: usize = 0;
                    while j < g.len()
                        invariant
                            0 <= j <= g@.len(),
                            self.func_types@ == before + func_shapes(g@.take(j as int)),
                            self@ == (ParseSt { func_types: self.func_types@, ..st0 }),
                        decreases g@.len() - j,
                    {
                        proof {
                            assert(g@.take(j + 1).drop_last() =~= g@.take(j as int));
                        }
                        match g[j] {
                            Some(x) => {
                                self.func_types.push(x);
                                assert(self.func_types@ =~= before + func_shapes(g@.take(j + 1)));
                            },
                            None => {
                                assert(func_shapes(g@.take(j + 1)) =~= func_shapes(g@.take(j as int)));
                            },
                        }
                        j += 1;
                    }
                    assert(g@.take(g@.len() as int) =~= g@);
                    pos = p;
                },
                None => return Err(ParseError::Type),
            }
            i += 1;
        }
        if pos != end {
            return Err(ParseError::Type);
        }
        Ok(())
    }

    /// Read the import section from `start` to `end`.
    fn import_section(&mut self, data: &[u8], start: usize, end: usize) -> (r: Result<(), ParseError>)
        requires
            start <= end <= data@.len(),
        ensures
            match import_section(data@, old(self)@, start, end) {
                Ok(st) => r is Ok && final(self)@ == st,
                Err(e) => r == Err::<(), ParseError>(e),
            },
    {
        let (n, mut pos) = match read_var_u32_at(data, start) {
            Some((n, p)) => if p <= end { (n, p) } else { return Err(ParseError::Import) },
            None => return Err(ParseError::Import),
        };
        let mut i: u32 = 0;
        while i < n
            invariant
                0 <= i <= n,
                pos <= end <= data@.len(),
                section_count(data@, start, end) is Some,
                section_count(data@, start, end)->Some_0.0 == n,
                imports_from(data@, end, pos, (n - i) as nat, self@)
                    == imports_from(data@, end, section_count(data@, start, end)->Some_0.1, n as nat, old(self)@),
            decreases n - i,
        {
            let ghost k = (n - i) as nat;
            let (c, p) = match read_import_count_at(data, pos, end) {
                Some(x) => x,
                None => return Err(ParseError::Import),
            };
            let ghost before = self@;
            let mut j: usize = 0;
            while j < c
                invariant
                    0 <= j <= c,
                    pos <= end <= data@.len(),
                    wasm_import_count(data@, pos, end) == Some((c, p)),
                    import_items(data@, pos, end, j as nat, c as nat, self@) == import_items(data@, pos, end, 0, c as nat, before),
                    k == n - i,
                    i < n,
                    section_count(data@, start, end) is Some,
                    section_count(data@, start, end)->Some_0.0 == n,
                    imports_from(data@, end, pos, k, before)
                        == imports_from(data@, end, section_count(data@, start, end)->Some_0.1, n as nat, old(self)@),
                decreases c - j,
            {
                let names = read_import_names_at(data, pos, end, j);
                let ty = read_import_type_at(data, pos, end, j);
                let (module_name, item_name, ty) = match (names, ty) {
                    (Some((m, n)), Some(t)) => (m, n, t),
                    _ => {
                        assert(import_items(data@, pos, end, j as nat, c as nat, self@) is None);
                        assert(imports_from(data@, end, pos, k, before) == match import_items(data@, pos, end, 0, c as nat, before) {
                            Some(s2) => imports_from(data@, end, p, (k - 1) as nat, s2),
                            None => None,
                        });
                        return Err(ParseError::Import);
                    },
                };
                let ghost cur = self@;
                let ghost gt = wasm_import_global_type(data@, pos, end, j);
                assert(import_items(data@, pos, end, j as nat, c as nat, cur) == import_items(data@, pos, end, (j + 1) as nat, c as nat, add_import(cur, module_name@, item_name@, ty, gt)));
                match ty {
                    ImportType::Func(t) => {
                        let (pc, rc) = if (t as usize) < self.func_types.len() { self.func_types[t as usize] } else { (0, 0) };
                        let ghost old_fns = self.module.functions@;
                        let name = joined_name(&module_name, &item_name);
                        self.module.functions.push(WasmFunction {
                            index: self.import_func_count,
                            code_offset: 0,
                            code_size: 0,
                            name: Some(name),
                            param_count: pc,
                            return_count: rc,
                        });
                        self.import_func_count = self.import_func_count.wrapping_add(1);
                        proof {
                            assert(functions_view(self.module.functions@) =~= add_import(cur, module_name@, item_name@, ty, gt).module.functions);
                        }
                    },
                    ImportType::Global(m) => {
                        let vt = match read_import_global_type_at(data, pos, end, j) {
                            Some(v) => v,
                            None => GlobalValType::I32,
                        };
                        let ghost old_globals = self.module.globals@;
                        let name = joined_name(&module_name, &item_name);
                        self.module.globals.push(WasmGlobal {
                            index: self.import_global_count,
                            name: Some(name),
                            val_type: vt,
                            mutable: m,
                        });
                        self.import_global_count = self.import_global_count.wrapping_add(1);
                        proof {
                            assert(globals_view(self.module.globals@) =~= add_import(cur, module_name@, item_name@, ty, gt).module.globals);
                        }
                    },
                    ImportType::Memory(initial, maximum) => {
                        let max_pages = match maximum {
                            Some(m) => Some(#[verifier::truncate] (m as u32)),
                            None => None,
                        };
                        self.module.memory = Some(WasmMemory { initial_pages: #[verifier::truncate] (initial as u32), max_pages });
                    },
                    _ => {},
                }
                assert(self@ == add_import(cur, module_name@, item_name@, ty, gt));
                j += 1;
            }
            assert(imports_from(data@, end, pos, k, before) == match import_items(data@, pos, end, 0, c as nat, before) {
                Some(s2) => imports_from(data@, end, p, (k - 1) as nat, s2),
                None => None,
            });
            pos = p;
            i += 1;
        }
        if pos != end {
            return Err(ParseError::Import);
        }
        Ok(())
    }

    /// Read the global section from `start` to `end`.
    fn global_section(&mut self, data: &[u8], start: usize, end: usize) -> (r: Result<(), ParseError>)
        requires
            start <= end <= data@.len(),
        ensures
            match global_section(data@, old(self)@, start, end) {
                Ok(st) => r is Ok && final(self)@ == st,
                Err(e) => r == Err::<(), ParseError>(e),
            },
    {
        let (n, mut pos) = match read_var_u32_at(data, start) {
            Some((n, p)) => if p <= end { (n, p) } else { return Err(ParseError::Global) },
            None => return Err(ParseError::Global),
        };
        let mut i: u32 = 0;
        while i < n
            invariant
                0 <= i <= n,
                pos <= end <= data@.len(),
                section_count(data@, start, end) is Some,
                section_count(data@, start, end)->Some_0.0 == n,
                globals_from(data@, end, pos, (n - i) as nat, self@)
                    == globals_from(data@, end, section_count(data@, start, end)->Some_0.1, n as nat, old(self)@),
            decreases n - i,
        {
            let ghost k = (n - i) as nat;
            match read_global_at(data, pos, end) {
                Some(((t, m, _, _), p)) => {
                    let ghost before = self@;
                    assert(globals_from(data@, end, pos, k, before) == globals_from(data@, end, p, (k - 1) as nat, add_global(before, t, m)));
                    let vt = match t {
                        Some(v) => v,
                        None => GlobalValType::I32,
                    };
                    let ghost old_globals = self.module.globals@;
                    self.module.globals.push(WasmGlobal {
                        index: self.import_global_count.wrapping_add(self.global_index),
                        name: None,
                        val_type: vt,
                        mutable: m,
                    });
                    self.global_index = self.global_index.wrapping_add(1);
                    proof {
                        assert(globals_view(self.module.globals@) =~= add_global(before, t, m).module.globals);
                        assert(self@ == add_global(before, t, m));
                    }
                    pos = p;
                },
                None => return Err(ParseError::Global),
            }
            i += 1;
        }
        if pos != end {
            return Err(ParseError::Global);
        }
        Ok(())
    }

    /// Read the export section from `start` to `end`.
    fn export_section(&mut self, data: &[u8], start: usize, end: usize) -> (r: Result<(), ParseError>)
        requires
            start <= end <= data@.len(),
        ensures
            match export_section(data@, old(self)@, start, end) {
                Ok(st) => r is Ok && final(self)@ == st,
                Err(e) => r == Err::<(), ParseError>(e),
            },
    {
        let (n, mut pos) = match read_var_u32_at(data, start) {
            Some((n, p)) => if p <= end { (n, p) } else { return Err(ParseError::Export) },
            None => return Err(ParseError::Export),
        };
        let mut i: u32 = 0;
        while i < n
            invariant
                0 <= i <= n,
                pos <= end <= data@.len(),
                section_count(data@, start, end) is Some,
                section_count(data@, start, end)->Some_0.0 == n,
                exports_from(data@, end, pos, (n - i) as nat, self@)
                    == exports_from(data@, end, section_count(data@, start, end)->Some_0.1, n as nat, old(self)@),
            decreases n - i,
        {
            let ghost k = (n - i) as nat;
            match read_export_at(data, pos, end) {
                Some(((name, kind, index), p)) => {
                    let ghost before = self@;
                    assert(exports_from(data@, end, pos, k, before) == exports_from(data@, end, p, (k - 1) as nat, add_export(before, name@, kind, index)));
                    match kind {
                        Some(kd) => {
                            let ghost old_exports = self.module._exports@;
                            self.module._exports.push(WasmExport { name, kind: kd, index });
                            proof {
                                assert(exports_view(self.module._exports@) =~= add_export(before, name@, kind, index).module.exports);
                            }
                        },
                        None => {},
                    }
                    assert(self@ == add_export(before, name@, kind, index));
                    pos = p;
                },
                None => return Err(ParseError::Export),
            }
            i += 1;
        }
        if pos != end {
            return Err(ParseError::Export);
        }
        Ok(())
    }

    /// Read the memory section from `start` to `end`: its first memory.
    fn memory_section(&mut self, data: &[u8], start: usize, end: usize) -> (r: Result<(), ParseError>)
        requires
            start <= end <= data@.len(),
        ensures
            match memory_section(data@, old(self)@, start, end) {
                Ok(st) => r is Ok && final(self)@ == st,
                Err(e) => r == Err::<(), ParseError>(e),
            },
    {
        let (n, pos) = match read_var_u32_at(data, start) {
            Some((n, p)) => if p <= end { (n, p) } else { return Err(ParseError::Memory) },
            None => return Err(ParseError::Memory),
        };
        if n == 0 {
            return if pos == end { Ok(()) } else { Err(ParseError::Memory) };
        }
        match read_memory_type_at(data, pos, end) {
            Some(((initial, maximum), _)) => {
                let max_pages = match maximum {
                    Some(m) => Some(#[verifier::truncate] (m as u32)),
                    None => None,
                };
                self.module.memory = Some(WasmMemory { initial_pages: #[verifier::truncate] (initial as u32), max_pages });
                Ok(())
            },
            None => Err(ParseError::Memory),
        }
    }

    /// Take in the function body from `start` to `end`.
    fn code_entry(&mut self, data: &[u8], start: usize, end: usize)
        requires
            start <= end <= data@.len(),
        ensures
            final(self)@ == code_entry(data@, old(self)@, start, end),
    {
        let mut pos = start;
        match read_var_u32_at(data, start) {
            Some((c, p)) => {
                if p <= end {
                    pos = p;
                    let mut i: u32 = 0;
                    let mut stopped = false;
                    while i < c && !stopped
                        invariant
                            0 <= i <= c,
                            start <= pos <= end <= data@.len(),
                            section_count(data@, start, end) == Some((c, p)),
                            stopped ==> code_start(data@, start, end) == pos,
                            !stopped ==> skip_locals(data@, end, pos, (c - i) as nat) == code_start(data@, start, end),
                        decreases c - i,
                    {
                        let ghost k = (c - i) as nat;
                        match read_var_u32_at(data, pos) {
                            Some((_, q)) => {
                                if q <= end {
                                    match read_val_type_end_at(data, q, end) {
                                        Some(t) => {
                                            if t <= end {
                                                pos = t;
                                            } else {
                                                pos = q;
                                                stopped = true;
                                            }
                                        },
                                        None => {
                                            pos = q;
                                            stopped = true;
                                        },
                                    }
                                } else {
                                    stopped = true;
                                }
                            },
                            None => {
                                stopped = true;
                            },
                        }
                        i += 1;
                    }
                }
            },
            None => {},
        }
        let (pc, rc) = if (self.func_index as usize) < self.func_type_indices.len() {
            let t = self.func_type_indices[self.func_index as usize];
            if (t as usize) < self.func_types.len() { self.func_types[t as usize] } else { (0, 0) }
        } else {
            (0, 0)
        };
        let ghost old_fns = self.module.functions@;
        let ghost st0 = self@;
        self.module.functions.push(WasmFunction {
            index: self.import_func_count.wrapping_add(self.func_index),
            code_offset: pos,
            code_size: end - pos,
            name: None,
            param_count: pc,
            return_count: rc,
        });
        self.func_index = self.func_index.wrapping_add(1);
        proof {
            assert(functions_view(self.module.functions@) =~= code_entry(data@, st0, start, end).module.functions);
        }
    }

    /// Take in the data section from `start` to `end`.
    fn data_section(&mut self, data: &[u8], start: usize, end: usize)
        requires
            start <= end <= data@.len(),
        ensures
            final(self)@ == data_section(data@, old(self)@, start, end),
    {
        let ghost old_secs = self.module.sections@;
        self.module.sections.push(WasmSection::Data { offset: start, size: end - start });
        proof {
            assert(sections_view(self.module.sections@) =~= data_section(data@, old(self)@, start, end).module.sections);
        }
        let (n, mut pos) = match read_var_u32_at(data, start) {
            Some((n, p)) => if p <= end { (n, p) } else { return },
            None => return,
        };
        let ghost segs0 = old(self)@.module.data_segments;
        let mut i: u32 = 0;
        while i < n
            invariant
                0 <= i <= n,
                pos <= end <= data@.len(),
                section_count(data@, start, end) == Some((n, section_count(data@, start, end)->Some_0.1)),
                segments_from(data@, end, pos, (n - i) as nat, self@.module.data_segments)
                    == data_section(data@, old(self)@, start, end).module.data_segments,
                self@ == (ParseSt {
                    module: WasmModuleV { data_segments: self@.module.data_segments, ..data_section(data@, old(self)@, start, end).module },
                    ..data_section(data@, old(self)@, start, end)
                }),
            decreases n - i,
        {
            let ghost k = (n - i) as nat;
            match read_data_at(data, pos, end) {
                Some(((kind, bytes), p)) => {
                    let ghost before = self@.module.data_segments;
                    let offset = match kind {
                        SegmentKind::Active(mi, es, ee) => {
                            if mi == 0 {
                                match read_operator_at(data, es) {
                                    Some((ConstOperand::I32(v), q)) => if q <= ee { Some(v as u32) } else { None },
                                    Some((ConstOperand::I64(v), q)) => if q <= ee { Some(#[verifier::truncate] (v as u32)) } else { None },
                                    _ => None,
                                }
                            } else {
                                None
                            }
                        },
                        SegmentKind::Passive => None,
                    };
                    assert(offset == segment_offset(data@, kind));
                    match offset {
                        Some(o) => {
                            let ghost old_segs = self.module.data_segments@;
                            self.module.data_segments.push(WasmDataSegment { memory_offset: o, data: bytes });
                            proof {
                                assert(segments_view(self.module.data_segments@) =~= segments_view(old_segs).push(
                                    WasmDataSegmentV { memory_offset: o, data: bytes@ },
                                ));
                            }
                        },
                        None => {},
                    }
                    pos = p;
                },
                None => {
                    return;
                },
            }
            i += 1;
        }
    }

    /// Take in a custom section whose data lies from `start` to `end`.
    fn custom_section(&mut self, data: &[u8], name: &String, start: usize, end: usize)
        requires
            start <= end,
        ensures
            final(self)@ == custom_section(data@, old(self)@, name@, start, end),
    {
        let is_name = name_is_name(name);
        if is_name && end <= data.len() {
            read_function_names(data, start, end, &mut self.func_names);
        }
        let ghost old_secs = self.module.sections@;
        self.module.sections.push(WasmSection::Other { name: name.clone(), offset: start, size: end - start });
        proof {
            assert(sections_view(self.module.sections@) =~= custom_section(data@, old(self)@, name@, start, end).module.sections);
        }
    }

    /// The module read: the functions named by the name section, then
    /// exported functions and globals that have no name yet named by their
    /// exports.
    pub fn finish(self) -> (r: WasmModule)
        ensures
            r@ == finish_v(self@),
    {
        let ModuleReader { module, func_names, .. } = self;
        let mut module = module;
        let ghost fs0 = functions_view(module.functions@);
        let ghost names = names_view(func_names@);
        assert(names.skip(0) =~= names);
        let mut i: usize = 0;
        while i < func_names.len()
            invariant
                0 <= i <= func_names@.len(),
                names == names_view(func_names@),
                apply_names(functions_view(module.functions@), names.skip(i as int)) == apply_names(fs0, names),
                module.globals == self.module.globals,
                module._exports == self.module._exports,
                module.version == self.module.version,
                module.sections == self.module.sections,
                module.start_function == self.module.start_function,
                module.memory == self.module.memory,
                module.data_segments == self.module.data_segments,
            decreases func_names@.len() - i,
        {
            assert(names.skip(i as int).drop_first() =~= names.skip(i + 1));
            assert(names.skip(i as int)[0] == names[i as int]);
            let idx = func_names[i].0;
            match function_with_index(&module.functions, idx) {
                Some(j) => {
                    set_function_name(&mut module.functions, j, func_names[i].1.clone());
                },
                None => {},
            }
            i += 1;
        }
        assert(names.skip(func_names@.len() as int) =~= Seq::<(u32, Seq<char>)>::empty());
        let ghost fs1 = functions_view(module.functions@);
        let ghost gs0 = globals_view(module.globals@);
        let ghost exports = exports_view(module._exports@);
        assert(exports.skip(0) =~= exports);
        let mut i: usize = 0;
        while i < module._exports.len()
            invariant
                0 <= i <= module._exports@.len(),
                exports == exports_view(module._exports@),
                export_function_names(functions_view(module.functions@), exports.skip(i as int)) == export_function_names(fs1, exports),
                export_global_names(globals_view(module.globals@), exports.skip(i as int)) == export_global_names(gs0, exports),
                fs1 == apply_names(fs0, names),
                gs0 == globals_view(self.module.globals@),
                module._exports == self.module._exports,
                module.version == self.module.version,
                module.sections == self.module.sections,
                module.start_function == self.module.start_function,
                module.memory == self.module.memory,
                module.data_segments == self.module.data_segments,
            decreases module._exports@.len() - i,
        {
            assert(exports.skip(i as int).drop_first() =~= exports.skip(i + 1));
            assert(exports.skip(i as int)[0] == exports[i as int]);
            let idx = module._exports[i].index;
            match module._exports[i].kind {
                ExportKind::Func => {
                    match function_with_index(&module.functions, idx) {
                        Some(j) => {
                            if module.functions[j].name.is_none() {
                                let name = module._exports[i].name.clone();
                                set_function_name(&mut module.functions, j, name);
                            }
                        },
                        None => {},
                    }
                },
                ExportKind::Global => {
                    match global_with_index(&module.globals, idx) {
                        Some(j) => {
                            if module.globals[j].name.is_none() {
                                let name = module._exports[i].name.clone();
                                set_global_name(&mut module.globals, j, name);
                            }
                        },
                        None => {},
                    }
                },
                _ => {},
            }
            i += 1;
        }
        assert(exports.skip(module._exports@.len() as int) =~= Seq::<WasmExportV>::empty());
        module
    }

    /// Take in one payload.
    pub fn apply(&mut self, data: &[u8], info: &PayloadInfo) -> (r: Result<(), ParseError>)
        ensures
            match step_v(data@, old(self)@, *info) {
                Ok(st) => r is Ok && final(self)@ == st,
                Err(e) => r == Err::<(), ParseError>(e),
            },
    {
        match info {
            PayloadInfo::Version(num, _) => {
                self.module.version = *num as u32;
                Ok(())
            },
            PayloadInfo::Start(f) => {
                self.module.start_function = Some(*f);
                Ok(())
            },
            PayloadInfo::Section(id, s, e) => {
                let (id, s, e) = (*id, *s, *e);
                if !(s <= e) {
                    return Err(ParseError::Payload);
                }
                if id == 10 {
                    let ghost old_secs = self.module.sections@;
                    self.module.sections.push(WasmSection::Code { offset: s, size: e - s });
                    proof {
                        assert(sections_view(self.module.sections@) =~= sections_view(old_secs).push(
                            WasmSectionV::Code { offset: s, size: (e - s) as usize },
                        ));
                    }
                    return Ok(());
                }
                if !(e <= data.len()) {
                    return if id == 0 || id == 1 || id == 2 || id == 11 || id == 3 || id == 5 || id == 6 || id == 7 { Err(ParseError::Payload) } else { Ok(()) };
                }
                if id == 0 {
                    return match read_custom_at(data, s, e) {
                        Some((name, off)) => {
                            self.custom_section(data, &name, off, e);
                            Ok(())
                        },
                        None => Err(ParseError::Payload),
                    };
                }
                if id == 1 {
                    self.type_section(data, s, e)
                } else if id == 2 {
                    self.import_section(data, s, e)
                } else if id == 3 {
                    self.function_section(data, s, e)
                } else if id == 5 {
                    self.memory_section(data, s, e)
                } else if id == 6 {
                    self.global_section(data, s, e)
                } else if id == 7 {
                    self.export_section(data, s, e)
                } else if id == 11 {
                    self.data_section(data, s, e);
                    Ok(())
                } else {
                    Ok(())
                }
            },
            PayloadInfo::CodeEntry(s, e) => {
                if *s <= *e && *e <= data.len() {
                    self.code_entry(data, *s, *e);
                    Ok(())
                } else {
                    Err(ParseError::Payload)
                }
            },
            PayloadInfo::Custom(name, s, e) => {
                if *s <= *e {
                    self.custom_section(data, name, *s, *e);
                    Ok(())
                } else {
                    Err(ParseError::Payload)
                }
            },
            PayloadInfo::End => Ok(()),
            PayloadInfo::Other => Ok(()),
        }
    }
}

/// Whether the innermost module or component being read is a module.
pub open spec fn in_module(stack: Seq<bool>) -> bool {
    stack.len() > 0 && !stack.last()
}

/// One payload, with the stack of what is being read (`true` for a
/// component): a header opens a module or component, an end closes one, and
/// only a module's own payloads are taken in.
pub open spec fn module_step(data: Seq<u8>, st: ParseSt, stack: Seq<bool>, info: PayloadInfo) -> Result<(ParseSt, Seq<bool>), ParseError> {
    match info {
        PayloadInfo::Version(_, comp) => match step_v(data, st, info) {
            Ok(s2) => Ok((s2, stack.push(comp))),
            Err(e) => Err(e),
        },
        PayloadInfo::End => Ok((st, if stack.len() > 0 { stack.drop_last() } else { stack })),
        _ => if in_module(stack) {
            match step_v(data, st, info) {
                Ok(s2) => Ok((s2, stack)),
                Err(e) => Err(e),
            }
        } else {
            Ok((st, stack))
        },
    }
}

/// The state after the payloads `infos`, in order, or the error of the first
/// one that fails.
pub open spec fn run_infos(data: Seq<u8>, infos: Seq<PayloadInfo>) -> Result<(ParseSt, Seq<bool>), ParseError>
    decreases infos.len(),
{
    if infos.len() == 0 {
        Ok((init_st(), Seq::empty()))
    } else {
        match run_infos(data, infos.drop_last()) {
            Ok((s, stack)) => module_step(data, s, stack, infos.last()),
            Err(e) => Err(e),
        }
    }
}

/// The module that the payloads `infos` make (`complete` when the parser read
/// all of the bytes): the error of the first payload that fails, else a
/// payload error where the parser failed, else the module once the names are given.
pub open spec fn module_of(data: Seq<u8>, infos: Seq<PayloadInfo>, complete: bool) -> Result<WasmModuleV, ParseError> {
    match run_infos(data, infos) {
        Ok((st, _)) => if complete { Ok(finish_v(st)) } else { Err(ParseError::Payload) },
        Err(e) => Err(e),
    }
}

/// The module a reading of `data` gives.
pub open spec fn parsed_module(data: Seq<u8>) -> Result<WasmModuleV, ParseError> {
    module_of(data, wasm_payloads(data).0, wasm_payloads(data).1)
}

/// Once a prefix of the payloads fails, so do all of them, with that error.
proof fn lemma_run_infos_err(data: Seq<u8>, infos: Seq<PayloadInfo>, k: int)
    requires
        0 <= k <= infos.len(),
        run_infos(data, infos.take(k)) is Err,
    ensures
        run_infos(data, infos) == run_infos(data, infos.take(k)),
    decreases infos.len() - k,
{
    if k < infos.len() {
        assert(infos.take(k + 1).drop_last() =~= infos.take(k));
        lemma_run_infos_err(data, infos, k + 1);
    } else {
        assert(infos.take(k) =~= infos);
    }
}

/// Take in one payload, with the stack of what is being read.
fn apply_in(reader: &mut ModuleReader, stack: &mut Vec<bool>, data: &[u8], info: &PayloadInfo) -> (r: Result<(), ParseError>)
    ensures
        match module_step(data@, old(reader)@, old(stack)@, *info) {
            Ok((st, stk)) => r is Ok && final(reader)@ == st && final(stack)@ == stk,
            Err(e) => r == Err::<(), ParseError>(e),
        },
{
    match info {
        PayloadInfo::Version(_, comp) => {
            let r = reader.apply(data, info);
            if r.is_ok() {
                stack.push(*comp);
            }
            r
        },
        PayloadInfo::End => {
            if stack.len() > 0 {
                stack.pop();
            }
            Ok(())
        },
        _ => {
            let n = stack.len();
            if n > 0 && !stack[n - 1] {
                reader.apply(data, info)
            } else {
                Ok(())
            }
        },
    }
}

/// Take in the payloads `infos` in order, stopping at the first that fails.
fn apply_all(data: &[u8], infos: &Vec<PayloadInfo>) -> (r: Result<ModuleReader, ParseError>)
    ensures
        match run_infos(data@, infos@) {
            Ok((st, _)) => r matches Ok(rd) && rd@ == st && code_within(rd@.module.functions, data@.len()),
            Err(e) => r is Err && r->Err_0 == e,
        },
{
    let mut reader = ModuleReader::new();
    let mut stack: Vec<bool> = Vec::new();
    let mut i: usize = 0;
    assert(infos@.take(0) =~= Seq::<PayloadInfo>::empty());
    assert(stack@ =~= Seq::<bool>::empty());
    while i < infos.len()
        invariant
            0 <= i <= infos@.len(),
            run_infos(data@, infos@.take(i as int)) == Ok::<(ParseSt, Seq<bool>), ParseError>((reader@, stack@)),
            code_within(reader@.module.functions, data@.len()),
        decreases infos@.len() - i,
    {
        proof {
            assert(infos@.take(i + 1).drop_last() =~= infos@.take(i as int));
            lemma_step_code_within(data@, reader@, infos@[i as int]);
        }
        match apply_in(&mut reader, &mut stack, data, &infos[i]) {
            Ok(()) => {},
            Err(e) => {
                proof {
                    lemma_run_infos_err(data@, infos@, (i + 1) as int);
                }
                return Err(e);
            },
        }
        i += 1;
    }
    assert(infos@.take(infos@.len() as int) =~= infos@);
    Ok(reader)
}

impl WasmModule {
    /// The module that the payloads `infos` make, read in order from the
    /// bytes `data`, or the error of the first payload that fails.
    pub fn from_payloads(data: &[u8], infos: &Vec<PayloadInfo>) -> (r: Result<WasmModule, ParseError>)
        ensures
            match module_of(data@, infos@, true) {
                Ok(mv) => r matches Ok(m) && m@ == mv,
                Err(e) => r is Err && r->Err_0 == e,
            },
    {
        match apply_all(data, infos) {
            Ok(reader) => Ok(reader.finish()),
            Err(e) => Err(e),
        }
    }

    /// Read a module's layout from its bytes, payload by payload as
    /// `wasmparser`'s parser yields them (descending into the modules a
    /// component holds). A payload that does not parse, or a type, function,
    /// import, memory, global or export entry that does not read, fails the
    /// whole reading with the part that failed. The code of every function
    /// read lies within `data`.
    pub fn parse(data: &[u8]) -> (r: Result<WasmModule, ParseError>)
        ensures
            match parsed_module(data@) {
                Ok(mv) => r matches Ok(m) && m@ == mv,
                Err(e) => r is Err && r->Err_0 == e,
            },
            r matches Ok(m) ==> code_within(m@.functions, data@.len()),
    {
        let (infos, complete) = read_payloads(data);
        match apply_all(data, &infos) {
            Ok(reader) => {
                if !complete {
                    return Err(ParseError::Payload);
                }
                proof {
                    lemma_apply_names_code(reader@.module.functions, reader@.func_names, data@.len() as nat);
                    lemma_export_names_code(
                        apply_names(reader@.module.functions, reader@.func_names),
                        reader@.module.exports,
                        data@.len() as nat,
                    );
                }
                Ok(reader.finish())
            },
            Err(e) => Err(e),
        }
    }
}

} // verus!
