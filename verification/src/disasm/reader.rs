//! The calls into `wasmparser` that read a module's payloads and the items of
//! its sections. Each call reads from a fresh reader at a byte position and
//! hands back plain values and the position it stopped at.
use vstd::prelude::*;
use wasmparser::{BinaryReader, Encoding, Parser, ValType};
use wasmparser::Payload::{CodeSectionEntry, End, StartSection, Version};
use self::PayloadInfo as P;
use crate::disasm::module::{ExportKind, GlobalValType};
use crate::ir::ValType as NumType;

verus! {

/// What a payload holds, as plain values.
#[derive(Debug)]
pub enum PayloadInfo {
    /// The header: its version number, and whether it starts a component.
    Version(u16, bool),
    /// The start section, with the function it names.
    Start(u32),
    /// A function body: the range of its bytes after the size prefix.
    CodeEntry(usize, usize),
    /// A custom section: its name and the range of its data.
    Custom(String, usize, usize),
    /// Any other section: its id and the range of its contents.
    Section(u8, usize, usize),
    /// The end of a module or component.
    End,
    /// A payload that is no section.
    Other,
}

/// The payloads that `wasmparser`'s `Parser::parse_all` yields over `data`,
/// as plain values, up to the first that does not parse; and whether none failed.
pub uninterp spec fn wasm_payloads(data: Seq<u8>) -> (Seq<PayloadInfo>, bool);

/// `Parser::new(0).parse_all(data)`: each payload as plain values
/// (`Payload::as_section` for sections, custom ones among them, and the
/// fields of the header, the start section and function bodies), until one fails.
#[verifier::external_body]
pub(crate) fn read_payloads(data: &[u8]) -> (r: (Vec<PayloadInfo>, bool))
    ensures
        (r.0@, r.1) == wasm_payloads(data@),
{
    let mut v = Vec::new();
    for p in Parser::new(0).parse_all(data) {
        let Ok(p) = p else { return (v, false) };
        v.push(match &p {
            Version { num, encoding, .. } => P::Version(*num, *encoding == Encoding::Component),
            StartSection { func, .. } => P::Start(*func),
            CodeSectionEntry(b) => P::CodeEntry(b.range().start as usize, b.range().end as usize),
            End(_) => P::End,
            _ => match p.as_section() { Some((i, r)) => P::Section(i, r.start as usize, r.end as usize), None => P::Other },
        });
    }
    (v, true)
}

/// The name of the custom section from `start` to `end`, and where its data starts.
pub uninterp spec fn wasm_custom(data: Seq<u8>, start: usize, end: usize) -> Option<(Seq<char>, usize)>;

/// `wasmparser`'s `CustomSectionReader` over the section from `start` to `end`:
/// its name and the offset of its data.
#[verifier::external_body]
pub(crate) fn read_custom_at(data: &[u8], start: usize, end: usize) -> (r: Option<(String, usize)>)
    requires
        start <= end <= data@.len(),
    ensures
        match (r, wasm_custom(data@, start, end)) {
            (Some((n, o)), Some((m, p))) => n@ == m && o == p,
            (None, None) => true,
            _ => false,
        },
        r matches Some((_, o)) ==> start <= o <= end,
{
    let c = wasmparser::CustomSectionReader::new(BinaryReader::new(&data[start..end], start as u64)).ok()?;
    Some((c.name().into(), c.data_offset() as usize))
}

/// Where the operators of the function body from `start` to `end` begin.
pub uninterp spec fn wasm_code_start(data: Seq<u8>, start: usize, end: usize) -> Option<usize>;

/// `wasmparser`'s `FunctionBody::get_operators_reader` over the body from
/// `start` to `end`: the position after its local declarations.
#[verifier::external_body]
pub(crate) fn read_code_start_at(data: &[u8], start: usize, end: usize) -> (r: Option<usize>)
    requires
        start <= end <= data@.len(),
    ensures
        r == wasm_code_start(data@, start, end),
        r matches Some(c) ==> start <= c <= end,
{
    let body = wasmparser::FunctionBody::new(BinaryReader::new(&data[start..end], start as u64));
    Some(body.get_operators_reader().ok()?.original_position() as usize)
}

/// What an import brings in, as plain values.
#[derive(Debug, Clone, Copy, PartialEq, Eq, Structural)]
pub enum ImportType {
    Func(u32),
    FuncExact(u32),
    Table,
    /// A memory: its initial and maximum number of pages.
    Memory(u64, Option<u64>),
    /// A global, and whether it is mutable.
    Global(bool),
    Tag,
}

/// An item of the name section.
#[derive(Debug, Clone, Copy, PartialEq, Eq, Structural)]
pub enum NameEntry {
    /// The function names: where their first naming starts, how many there
    /// are, and where the subsection ends.
    Functions(usize, u32, usize),
    /// Another subsection.
    Other,
    /// A subsection that does not read.
    Failed,
}

/// How an element segment is placed.
#[derive(Debug, Clone, Copy, PartialEq, Eq, Structural)]
pub enum ElementPlace {
    Passive,
    Declared,
    /// Active in a table (where one is named), with the range of its offset expression.
    Active(Option<u32>, usize, usize),
}

/// Where the items of an element segment lie: the position of the first,
/// their count, and the end of the list.
#[derive(Debug, Clone, Copy, PartialEq, Eq, Structural)]
pub enum ElementItemsAt {
    /// Function indices.
    Functions(usize, u32, usize),
    /// Constant expressions.
    Expressions(usize, u32, usize),
}

/// How a data segment is placed.
#[derive(Debug, Clone, Copy, PartialEq, Eq, Structural)]
pub enum SegmentKind {
    Passive,
    /// Active in a memory, with the range of its offset expression.
    Active(u32, usize, usize),
}

/// The function signatures of the recursion group at `pos` (the counts of
/// parameters and results of each function type, `None` for other types), and
/// the position after the group.
pub uninterp spec fn wasm_rec_group(data: Seq<u8>, pos: usize, end: usize) -> Option<(Seq<Option<(usize, usize)>>, usize)>;

/// The number of imports in the import group at `pos`, and the position after it.
pub uninterp spec fn wasm_import_count(data: Seq<u8>, pos: usize, end: usize) -> Option<(usize, usize)>;

/// The module and item names of the `k`-th import of the group at `pos`.
pub uninterp spec fn wasm_import_names(data: Seq<u8>, pos: usize, end: usize, k: usize) -> Option<(Seq<char>, Seq<char>)>;

/// What the `k`-th import of the group at `pos` brings in.
pub uninterp spec fn wasm_import_type(data: Seq<u8>, pos: usize, end: usize, k: usize) -> Option<ImportType>;

/// The value type of the `k`-th import of the group at `pos`, where it is a
/// global of a number type.
pub uninterp spec fn wasm_import_global_type(data: Seq<u8>, pos: usize, end: usize, k: usize) -> Option<GlobalValType>;

/// The initial and maximum page counts of the memory type at `pos`, and the position after it.
pub uninterp spec fn wasm_memory_type(data: Seq<u8>, pos: usize, end: usize) -> Option<((u64, Option<u64>), usize)>;

/// The value type, mutability and range of the initializer expression of the
/// global at `pos`, and the position after it.
pub uninterp spec fn wasm_global(data: Seq<u8>, pos: usize, end: usize) -> Option<((Option<GlobalValType>, bool, usize, usize), usize)>;

/// The name, kind (`None` for a tag) and index of the export at `pos`, and the position after it.
pub uninterp spec fn wasm_export(data: Seq<u8>, pos: usize, end: usize) -> Option<((Seq<char>, Option<ExportKind>, u32), usize)>;

/// The placement and bytes of the data segment at `pos`, and the position after it.
pub uninterp spec fn wasm_data(data: Seq<u8>, pos: usize, end: usize) -> Option<((SegmentKind, Seq<u8>), usize)>;

/// The `k`-th item of the name section from `start` to `end`.
pub uninterp spec fn wasm_name_entry(data: Seq<u8>, start: usize, end: usize, k: usize) -> Option<NameEntry>;

/// The index and name of the naming at `pos`, and the position after it.
pub uninterp spec fn wasm_naming(data: Seq<u8>, pos: usize, end: usize) -> Option<((u32, Seq<char>), usize)>;

/// The `k`-th parameter of the `t`-th type of the group at `pos`.
pub uninterp spec fn wasm_func_param(data: Seq<u8>, pos: usize, end: usize, t: usize, k: usize) -> Option<Option<NumType>>;

/// The `k`-th result of the `t`-th type of the group at `pos`.
pub uninterp spec fn wasm_func_result(data: Seq<u8>, pos: usize, end: usize, t: usize, k: usize) -> Option<Option<NumType>>;

/// The `k`-th local declaration of the function body from `start` to `end`.
pub uninterp spec fn wasm_local_decl(data: Seq<u8>, start: usize, end: usize, k: usize) -> Option<(u32, Option<NumType>)>;

/// The placement of the element segment at `pos`, and the position after it.
pub uninterp spec fn wasm_element_place(data: Seq<u8>, pos: usize, end: usize) -> Option<(ElementPlace, usize)>;

/// Where the items of the element segment at `pos` lie.
pub uninterp spec fn wasm_element_items(data: Seq<u8>, pos: usize, end: usize) -> Option<ElementItemsAt>;

/// The position after the constant expression at `pos`.
pub uninterp spec fn wasm_const_expr_end(data: Seq<u8>, pos: usize, end: usize) -> Option<usize>;

/// The position after the value type at `pos`.
pub uninterp spec fn wasm_val_type_end(data: Seq<u8>, pos: usize, end: usize) -> Option<usize>;

/// `wasmparser`'s `RecGroup` read at `pos` from the bytes up to `end`: the
/// parameter and result counts of each of its function types.
#[verifier::external_body]
pub(crate) fn read_rec_group_at(data: &[u8], pos: usize, end: usize) -> (r: Option<(Vec<Option<(usize, usize)>>, usize)>)
    requires
        pos <= end <= data@.len(),
    ensures
        match (r, wasm_rec_group(data@, pos, end)) {
            (Some((v, p)), Some((s, q))) => v@ == s && p == q,
            (None, None) => true,
            _ => false,
        },
        r matches Some((_, p)) ==> pos < p <= end,
{
    let mut reader = BinaryReader::new(&data[pos..end], pos as u64);
    let group: wasmparser::RecGroup = reader.read().ok()?;
    let mut sigs = Vec::new();
    for t in group.into_types() {
        sigs.push(match t.composite_type.inner {
            wasmparser::CompositeInnerType::Func(f) => Some((f.params().len(), f.results().len())),
            _ => None,
        });
    }
    Some((sigs, reader.original_position() as usize))
}

/// `wasmparser`'s `Imports` group read at `pos`: how many imports it holds.
#[verifier::external_body]
pub(crate) fn read_import_count_at(data: &[u8], pos: usize, end: usize) -> (r: Option<(usize, usize)>)
    requires
        pos <= end <= data@.len(),
    ensures
        r == wasm_import_count(data@, pos, end),
        r matches Some((_, p)) ==> pos < p <= end,
{
    let mut reader = BinaryReader::new(&data[pos..end], pos as u64);
    let group: wasmparser::Imports = reader.read().ok()?;
    Some((group.into_iter().count(), reader.original_position() as usize))
}

/// The `k`-th import of `wasmparser`'s `Imports` group at `pos`: its module and
/// item names.
#[verifier::external_body]
pub(crate) fn read_import_names_at(data: &[u8], pos: usize, end: usize, k: usize) -> (r: Option<(String, String)>)
    requires
        pos <= end <= data@.len(),
    ensures
        match (r, wasm_import_names(data@, pos, end, k)) {
            (Some((a, b)), Some((x, y))) => a@ == x && b@ == y,
            (None, None) => true,
            _ => false,
        },
{
    let mut reader = BinaryReader::new(&data[pos..end], pos as u64);
    let group: wasmparser::Imports = reader.read().ok()?;
    let (_, import) = group.into_iter().nth(k)?.ok()?;
    Some((import.module.to_string(), import.name.to_string()))
}

/// The `k`-th import of `wasmparser`'s `Imports` group at `pos`: its `TypeRef`.
#[verifier::external_body]
pub(crate) fn read_import_type_at(data: &[u8], pos: usize, end: usize, k: usize) -> (r: Option<ImportType>)
    requires
        pos <= end <= data@.len(),
    ensures
        r == wasm_import_type(data@, pos, end, k),
{
    let mut reader = BinaryReader::new(&data[pos..end], pos as u64);
    let group: wasmparser::Imports = reader.read().ok()?;
    let (_, import) = group.into_iter().nth(k)?.ok()?;
    Some(match import.ty {
        wasmparser::TypeRef::Func(t) => ImportType::Func(t),
        wasmparser::TypeRef::FuncExact(t) => ImportType::FuncExact(t),
        wasmparser::TypeRef::Table(_) => ImportType::Table,
        wasmparser::TypeRef::Memory(m) => ImportType::Memory(m.initial, m.maximum),
        wasmparser::TypeRef::Global(g) => ImportType::Global(g.mutable),
        wasmparser::TypeRef::Tag(_) => ImportType::Tag,
    })
}

/// The `k`-th import of `wasmparser`'s `Imports` group at `pos`, where it is a
/// global: its value type where that is a number.
#[verifier::external_body]
pub(crate) fn read_import_global_type_at(data: &[u8], pos: usize, end: usize, k: usize) -> (r: Option<GlobalValType>)
    requires
        pos <= end <= data@.len(),
    ensures
        r == wasm_import_global_type(data@, pos, end, k),
{
    let mut reader = BinaryReader::new(&data[pos..end], pos as u64);
    let group: wasmparser::Imports = reader.read().ok()?;
    let (_, import) = group.into_iter().nth(k)?.ok()?;
    match import.ty {
        wasmparser::TypeRef::Global(g) => match g.content_type {
            ValType::I32 => Some(GlobalValType::I32),
            ValType::I64 => Some(GlobalValType::I64),
            ValType::F32 => Some(GlobalValType::F32),
            ValType::F64 => Some(GlobalValType::F64),
            _ => None,
        },
        _ => None,
    }
}

/// `wasmparser`'s `MemoryType` read at `pos`: its initial and maximum page counts.
#[verifier::external_body]
pub(crate) fn read_memory_type_at(data: &[u8], pos: usize, end: usize) -> (r: Option<((u64, Option<u64>), usize)>)
    requires
        pos <= end <= data@.len(),
    ensures
        r == wasm_memory_type(data@, pos, end),
        r matches Some((_, p)) ==> pos < p <= end,
{
    let mut reader = BinaryReader::new(&data[pos..end], pos as u64);
    let m: wasmparser::MemoryType = reader.read().ok()?;
    Some(((m.initial, m.maximum), reader.original_position() as usize))
}

/// `wasmparser`'s `Global` read at `pos`: its value type where that is a
/// number, whether it is mutable, and the range of its initializer.
#[verifier::external_body]
pub(crate) fn read_global_at(data: &[u8], pos: usize, end: usize) -> (r: Option<((Option<GlobalValType>, bool, usize, usize), usize)>)
    requires
        pos <= end <= data@.len(),
    ensures
        r == wasm_global(data@, pos, end),
        r matches Some((_, p)) ==> pos < p <= end,
        r matches Some(((_, _, s, e), _)) ==> s <= e <= end,
{
    let mut reader = BinaryReader::new(&data[pos..end], pos as u64);
    let g: wasmparser::Global = reader.read().ok()?;
    let t = match g.ty.content_type {
        ValType::I32 => Some(GlobalValType::I32),
        ValType::I64 => Some(GlobalValType::I64),
        ValType::F32 => Some(GlobalValType::F32),
        ValType::F64 => Some(GlobalValType::F64),
        _ => None,
    };
    let init = g.init_expr.get_binary_reader().range();
    Some(((t, g.ty.mutable, init.start as usize, init.end as usize), reader.original_position() as usize))
}

/// `wasmparser`'s `Export` read at `pos`: its name, kind (`None` for a tag) and index.
#[verifier::external_body]
pub(crate) fn read_export_at(data: &[u8], pos: usize, end: usize) -> (r: Option<((String, Option<ExportKind>, u32), usize)>)
    requires
        pos <= end <= data@.len(),
    ensures
        match (r, wasm_export(data@, pos, end)) {
            (Some(((n, k, i), p)), Some(((m, l, j), q))) => n@ == m && k == l && i == j && p == q,
            (None, None) => true,
            _ => false,
        },
        r matches Some((_, p)) ==> pos < p <= end,
{
    let mut reader = BinaryReader::new(&data[pos..end], pos as u64);
    let e: wasmparser::Export = reader.read().ok()?;
    let kind = match e.kind {
        wasmparser::ExternalKind::Func => Some(ExportKind::Func),
        wasmparser::ExternalKind::Table => Some(ExportKind::Table),
        wasmparser::ExternalKind::Memory => Some(ExportKind::Memory),
        wasmparser::ExternalKind::Global => Some(ExportKind::Global),
        _ => None,
    };
    Some(((e.name.to_string(), kind, e.index), reader.original_position() as usize))
}

/// `wasmparser`'s `Data` segment read at `pos`: its placement, with the range
/// of its offset expression, and its bytes.
#[verifier::external_body]
pub(crate) fn read_data_at(data: &[u8], pos: usize, end: usize) -> (r: Option<((SegmentKind, Vec<u8>), usize)>)
    requires
        pos <= end <= data@.len(),
    ensures
        match (r, wasm_data(data@, pos, end)) {
            (Some(((k, b), p)), Some(((l, c), q))) => k == l && b@ == c && p == q,
            (None, None) => true,
            _ => false,
        },
        r matches Some((_, p)) ==> pos < p <= end,
        r matches Some(((SegmentKind::Active(_, s, e), _), _)) ==> s <= e <= end,
{
    let mut reader = BinaryReader::new(&data[pos..end], pos as u64);
    let d: wasmparser::Data = reader.read().ok()?;
    let kind = match d.kind {
        wasmparser::DataKind::Passive => SegmentKind::Passive,
        wasmparser::DataKind::Active { memory_index, offset_expr } => {
            let r = offset_expr.get_binary_reader().range();
            SegmentKind::Active(memory_index, r.start as usize, r.end as usize)
        },
    };
    Some(((kind, d.data.to_vec()), reader.original_position() as usize))
}

/// The `k`-th item that `wasmparser`'s `NameSectionReader` yields over the
/// name section's data from `start` to `end`: for the function names, the
/// position of their first naming, their count and the end of the subsection.
/// Each item takes at least one byte.
#[verifier::external_body]
pub(crate) fn read_name_entry(data: &[u8], start: usize, end: usize, k: usize) -> (r: Option<NameEntry>)
    requires
        start <= end <= data@.len(),
    ensures
        r == wasm_name_entry(data@, start, end, k),
        r is Some ==> k < end - start,
        r matches Some(NameEntry::Functions(p, _, e)) ==> start <= p <= e <= end,
{
    let mut reader = wasmparser::NameSectionReader::new(BinaryReader::new(&data[start..end], start as u64));
    Some(match reader.nth(k)? {
        Ok(wasmparser::Name::Function(map)) => {
            let names = wasmparser::SectionLimited::from(map.names);
            NameEntry::Functions(names.original_position() as usize, names.count(), names.range().end as usize)
        },
        Ok(_) => NameEntry::Other,
        Err(_) => NameEntry::Failed,
    })
}

/// `wasmparser`'s `Naming` read at `pos`: the index and the name.
#[verifier::external_body]
pub(crate) fn read_naming_at(data: &[u8], pos: usize, end: usize) -> (r: Option<((u32, String), usize)>)
    requires
        pos <= end <= data@.len(),
    ensures
        match (r, wasm_naming(data@, pos, end)) {
            (Some(((i, n), p)), Some(((j, m), q))) => i == j && n@ == m && p == q,
            (None, None) => true,
            _ => false,
        },
        r matches Some((_, p)) ==> pos < p <= end,
{
    let mut reader = BinaryReader::new(&data[pos..end], pos as u64);
    let n: wasmparser::Naming = reader.read().ok()?;
    Some(((n.index, n.name.to_string()), reader.original_position() as usize))
}

/// The position after `wasmparser`'s `ValType` read at `pos`.
#[verifier::external_body]
pub(crate) fn read_val_type_end_at(data: &[u8], pos: usize, end: usize) -> (r: Option<usize>)
    requires
        pos <= end <= data@.len(),
    ensures
        r == wasm_val_type_end(data@, pos, end),
        r matches Some(p) ==> pos < p <= end,
{
    let mut reader = BinaryReader::new(&data[pos..end], pos as u64);
    let _: ValType = reader.read().ok()?;
    Some(reader.original_position() as usize)
}

/// The `k`-th parameter of the `t`-th type of `wasmparser`'s `RecGroup` at
/// `pos`, where that type is a function type: its value type where it is a number.
#[verifier::external_body]
pub(crate) fn read_func_param_at(data: &[u8], pos: usize, end: usize, t: usize, k: usize) -> (r: Option<Option<NumType>>)
    requires
        pos <= end <= data@.len(),
    ensures
        r == wasm_func_param(data@, pos, end, t, k),
{
    let mut reader = BinaryReader::new(&data[pos..end], pos as u64);
    let group: wasmparser::RecGroup = reader.read().ok()?;
    let sub = group.into_types().nth(t)?;
    match &sub.composite_type.inner {
        wasmparser::CompositeInnerType::Func(f) => Some(match f.params().get(k)? {
            ValType::I32 => Some(NumType::I32),
            ValType::I64 => Some(NumType::I64),
            ValType::F32 => Some(NumType::F32),
            ValType::F64 => Some(NumType::F64),
            _ => None,
        }),
        _ => None,
    }
}

/// The `k`-th result of the `t`-th type of `wasmparser`'s `RecGroup` at
/// `pos`, where that type is a function type: its value type where it is a number.
#[verifier::external_body]
pub(crate) fn read_func_result_at(data: &[u8], pos: usize, end: usize, t: usize, k: usize) -> (r: Option<Option<NumType>>)
    requires
        pos <= end <= data@.len(),
    ensures
        r == wasm_func_result(data@, pos, end, t, k),
{
    let mut reader = BinaryReader::new(&data[pos..end], pos as u64);
    let group: wasmparser::RecGroup = reader.read().ok()?;
    let sub = group.into_types().nth(t)?;
    match &sub.composite_type.inner {
        wasmparser::CompositeInnerType::Func(f) => Some(match f.results().get(k)? {
            ValType::I32 => Some(NumType::I32),
            ValType::I64 => Some(NumType::I64),
            ValType::F32 => Some(NumType::F32),
            ValType::F64 => Some(NumType::F64),
            _ => None,
        }),
        _ => None,
    }
}

/// The `k`-th local declaration that `wasmparser`'s `LocalsReader` reads from
/// the function body from `start` to `end`: how many locals it declares, and
/// their value type where it is a number.
#[verifier::external_body]
pub(crate) fn read_local_decl_at(data: &[u8], start: usize, end: usize, k: usize) -> (r: Option<(u32, Option<NumType>)>)
    requires
        start <= end <= data@.len(),
    ensures
        r == wasm_local_decl(data@, start, end, k),
{
    let body = wasmparser::FunctionBody::new(BinaryReader::new(&data[start..end], start as u64));
    let (count, ty) = body.get_locals_reader().ok()?.into_iter().nth(k)?.ok()?;
    Some((count, match ty {
        ValType::I32 => Some(NumType::I32),
        ValType::I64 => Some(NumType::I64),
        ValType::F32 => Some(NumType::F32),
        ValType::F64 => Some(NumType::F64),
        _ => None,
    }))
}

/// `wasmparser`'s `Element` segment read at `pos`: where it is placed.
#[verifier::external_body]
pub(crate) fn read_element_place_at(data: &[u8], pos: usize, end: usize) -> (r: Option<(ElementPlace, usize)>)
    requires
        pos <= end <= data@.len(),
    ensures
        r == wasm_element_place(data@, pos, end),
        r matches Some((_, p)) ==> pos < p <= end,
        r matches Some((ElementPlace::Active(_, s, e), _)) ==> s <= e <= end,
{
    let mut reader = BinaryReader::new(&data[pos..end], pos as u64);
    let e: wasmparser::Element = reader.read().ok()?;
    let place = match e.kind {
        wasmparser::ElementKind::Passive => ElementPlace::Passive,
        wasmparser::ElementKind::Declared => ElementPlace::Declared,
        wasmparser::ElementKind::Active { table_index, offset_expr } => {
            let r = offset_expr.get_binary_reader().range();
            ElementPlace::Active(table_index, r.start as usize, r.end as usize)
        },
    };
    Some((place, reader.original_position() as usize))
}

/// `wasmparser`'s `Element` segment read at `pos`: its items, as the position
/// of the first, their count, and the end of the list.
#[verifier::external_body]
pub(crate) fn read_element_items_at(data: &[u8], pos: usize, end: usize) -> (r: Option<ElementItemsAt>)
    requires
        pos <= end <= data@.len(),
    ensures
        r == wasm_element_items(data@, pos, end),
        r matches Some(ElementItemsAt::Functions(s, _, e)) ==> s <= e <= end,
        r matches Some(ElementItemsAt::Expressions(s, _, e)) ==> s <= e <= end,
{
    let mut reader = BinaryReader::new(&data[pos..end], pos as u64);
    let e: wasmparser::Element = reader.read().ok()?;
    Some(match e.items {
        wasmparser::ElementItems::Functions(s) => {
            ElementItemsAt::Functions(s.original_position() as usize, s.count(), s.range().end as usize)
        },
        wasmparser::ElementItems::Expressions(_, s) => {
            ElementItemsAt::Expressions(s.original_position() as usize, s.count(), s.range().end as usize)
        },
    })
}

/// The position after `wasmparser`'s `ConstExpr` read at `pos`.
#[verifier::external_body]
pub(crate) fn read_const_expr_end_at(data: &[u8], pos: usize, end: usize) -> (r: Option<usize>)
    requires
        pos <= end <= data@.len(),
    ensures
        r == wasm_const_expr_end(data@, pos, end),
        r matches Some(p) ==> pos < p <= end,
{
    let mut reader = BinaryReader::new(&data[pos..end], pos as u64);
    let _: wasmparser::ConstExpr = reader.read().ok()?;
    Some(reader.original_position() as usize)
}

} // verus!
