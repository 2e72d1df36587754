//! The parts of a module that the disassembler front end reads.
use vstd::prelude::*;

verus! {

#[derive(Debug)]
pub struct WasmModule {
    pub version: u32,
    pub sections: Vec<WasmSection>,
    pub functions: Vec<WasmFunction>,
    pub globals: Vec<WasmGlobal>,
    pub start_function: Option<u32>,
    pub _exports: Vec<WasmExport>,
    /// Linear memory limits (min pages, max pages). Each page is 64KB.
    pub memory: Option<WasmMemory>,
    /// Data segments that initialize linear memory.
    pub data_segments: Vec<WasmDataSegment>,
}

#[derive(Debug, Clone, Copy)]
pub struct WasmMemory {
    /// Minimum number of 64KB pages.
    pub initial_pages: u32,
    /// Maximum number of 64KB pages (if specified).
    pub max_pages: Option<u32>,
}

#[derive(Debug)]
pub struct WasmDataSegment {
    /// Offset in linear memory where this segment starts.
    pub memory_offset: u32,
    /// The data bytes.
    pub data: Vec<u8>,
}

#[derive(Debug)]
pub enum WasmSection {
    Code { offset: usize, size: usize },
    Data { offset: usize, size: usize },
    Other { name: String, offset: usize, size: usize },
}

#[derive(Debug)]
pub struct WasmFunction {
    pub index: u32,
    pub code_offset: usize,
    pub code_size: usize,
    pub name: Option<String>,
    pub param_count: usize,
    pub return_count: usize,
}

#[derive(Debug)]
pub struct WasmExport {
    pub name: String,
    pub kind: ExportKind,
    pub index: u32,
}

#[derive(Debug)]
pub struct WasmGlobal {
    pub index: u32,
    pub name: Option<String>,
    pub val_type: GlobalValType,
    pub mutable: bool,
}

#[derive(Debug, Clone, Copy, PartialEq, Eq, Structural)]
pub enum GlobalValType {
    I32,
    I64,
    F32,
    F64,
}

#[derive(Debug, Clone, Copy, PartialEq, Eq, Structural)]
pub enum ExportKind {
    Func,
    Table,
    Memory,
    Global,
}

/// A function as plain values.
pub struct WasmFunctionV {
    pub index: u32,
    pub code_offset: usize,
    pub code_size: usize,
    pub name: Option<Seq<char>>,
    pub param_count: usize,
    pub return_count: usize,
}

/// A global as plain values.
pub struct WasmGlobalV {
    pub index: u32,
    pub name: Option<Seq<char>>,
    pub val_type: GlobalValType,
    pub mutable: bool,
}

/// An export as plain values.
pub struct WasmExportV {
    pub name: Seq<char>,
    pub kind: ExportKind,
    pub index: u32,
}

/// A section as plain values.
pub enum WasmSectionV {
    Code { offset: usize, size: usize },
    Data { offset: usize, size: usize },
    Other { name: Seq<char>, offset: usize, size: usize },
}

/// A data segment as plain values.
pub struct WasmDataSegmentV {
    pub memory_offset: u32,
    pub data: Seq<u8>,
}

/// A module as plain values.
pub struct WasmModuleV {
    pub version: u32,
    pub sections: Seq<WasmSectionV>,
    pub functions: Seq<WasmFunctionV>,
    pub globals: Seq<WasmGlobalV>,
    pub start_function: Option<u32>,
    pub exports: Seq<WasmExportV>,
    pub memory: Option<WasmMemory>,
    pub data_segments: Seq<WasmDataSegmentV>,
}

pub open spec fn opt_str_view(s: Option<String>) -> Option<Seq<char>> {
    match s {
        Some(t) => Some(t@),
        None => None,
    }
}

impl View for WasmFunction {
    type V = WasmFunctionV;

    open spec fn view(&self) -> WasmFunctionV {
        WasmFunctionV {
            index: self.index,
            code_offset: self.code_offset,
            code_size: self.code_size,
            name: opt_str_view(self.name),
            param_count: self.param_count,
            return_count: self.return_count,
        }
    }
}

impl View for WasmGlobal {
    type V = WasmGlobalV;

    open spec fn view(&self) -> WasmGlobalV {
        WasmGlobalV { index: self.index, name: opt_str_view(self.name), val_type: self.val_type, mutable: self.mutable }
    }
}

impl View for WasmExport {
    type V = WasmExportV;

    open spec fn view(&self) -> WasmExportV {
        WasmExportV { name: self.name@, kind: self.kind, index: self.index }
    }
}

impl View for WasmSection {
    type V = WasmSectionV;

    open spec fn view(&self) -> WasmSectionV {
        match self {
            WasmSection::Code { offset, size } => WasmSectionV::Code { offset: *offset, size: *size },
            WasmSection::Data { offset, size } => WasmSectionV::Data { offset: *offset, size: *size },
            WasmSection::Other { name, offset, size } => WasmSectionV::Other { name: name@, offset: *offset, size: *size },
        }
    }
}

impl View for WasmDataSegment {
    type V = WasmDataSegmentV;

    open spec fn view(&self) -> WasmDataSegmentV {
        WasmDataSegmentV { memory_offset: self.memory_offset, data: self.data@ }
    }
}

pub open spec fn functions_view(v: Seq<WasmFunction>) -> Seq<WasmFunctionV> {
    v.map_values(|f: WasmFunction| f@)
}

pub open spec fn globals_view(v: Seq<WasmGlobal>) -> Seq<WasmGlobalV> {
    v.map_values(|g: WasmGlobal| g@)
}

pub open spec fn exports_view(v: Seq<WasmExport>) -> Seq<WasmExportV> {
    v.map_values(|e: WasmExport| e@)
}

pub open spec fn sections_view(v: Seq<WasmSection>) -> Seq<WasmSectionV> {
    v.map_values(|s: WasmSection| s@)
}

pub open spec fn segments_view(v: Seq<WasmDataSegment>) -> Seq<WasmDataSegmentV> {
    v.map_values(|d: WasmDataSegment| d@)
}

impl View for WasmModule {
    type V = WasmModuleV;

    open spec fn view(&self) -> WasmModuleV {
        WasmModuleV {
            version: self.version,
            sections: sections_view(self.sections@),
            functions: functions_view(self.functions@),
            globals: globals_view(self.globals@),
            start_function: self.start_function,
            exports: exports_view(self._exports@),
            memory: self.memory,
            data_segments: segments_view(self.data_segments@),
        }
    }
}

} // verus!
