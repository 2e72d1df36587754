//! A module's bytes as a disassembler views them: where it may be read,
//! where code lies, and where execution starts.
use vstd::prelude::*;
use crate::disasm::module::{WasmModule, WasmSection, WasmSectionV, sections_view, functions_view, WasmFunctionV};
use crate::disasm::parse::{code_within, parsed_module, ParseError};

verus! {

/// A module's bytes and what was read from them.
pub struct WasmViewArgs {
    pub data: Vec<u8>,
    pub module: WasmModule,
}

impl WasmViewArgs {
    /// Read the module in `data`; the bytes are kept for the view.
    pub fn parse(data: Vec<u8>) -> (r: Result<WasmViewArgs, ParseError>)
        ensures
            match parsed_module(data@) {
                Ok(mv) => r matches Ok(a) && a.data@ == data@ && a.module@ == mv && code_within(a.module@.functions, data@.len()),
                Err(e) => r is Err && r->Err_0 == e,
            },
    {
        match WasmModule::parse(data.as_slice()) {
            Ok(module) => Ok(WasmViewArgs { data, module }),
            Err(e) => Err(e),
        }
    }
}

/// The entry point: the code of the function at the position the start
/// section names, else of the first function with code past offset zero, else zero.
pub open spec fn entry_point_v(fs: Seq<WasmFunctionV>, start: Option<u32>) -> u64 {
    if start is Some && start->0 < fs.len() {
        fs[start->0 as int].code_offset as u64
    } else {
        first_code_from(fs, 0)
    }
}

/// The code offset of the first function from the `i`-th on whose code starts past zero.
pub open spec fn first_code_from(fs: Seq<WasmFunctionV>, i: nat) -> u64
    decreases fs.len() - i,
{
    if i >= fs.len() {
        0
    } else if fs[i as int].code_offset > 0 {
        fs[i as int].code_offset as u64
    } else {
        first_code_from(fs, i + 1)
    }
}

/// Whether `offset` lies in a code section.
pub open spec fn in_code(secs: Seq<WasmSectionV>, offset: u64) -> bool {
    exists|i: int| 0 <= i < secs.len() && match #[trigger] secs[i] {
        WasmSectionV::Code { offset: s, size } => s <= offset < s + size,
        _ => false,
    }
}

impl WasmViewArgs {
    /// Copy bytes from `offset` on into `buf`, as many as fit and remain; how many.
    pub fn read(&self, buf: &mut [u8], offset: u64) -> (r: usize)
        ensures
            final(buf)@.len() == old(buf)@.len(),
            offset >= self.data@.len() ==> r == 0 && final(buf)@ == old(buf)@,
            offset < self.data@.len() ==> {
                &&& r as int == if old(buf)@.len() < self.data@.len() - offset { old(buf)@.len() as int } else { self.data@.len() - offset }
                &&& forall|i: int| 0 <= i < r ==> final(buf)@[i] == self.data@[offset + i]
                &&& forall|i: int| r <= i < old(buf)@.len() ==> final(buf)@[i] == old(buf)@[i]
            },
    {
        if offset >= self.data.len() as u64 {
            return 0;
        }
        let off = offset as usize;
        assert(off as int == offset);
        let available = self.data.len() - off;
        let to_read = if buf.len() < available { buf.len() } else { available };
        let dl = self.data.len();
        let mut i: usize = 0;
        while i < to_read
            invariant
                0 <= i <= to_read,
                dl == self.data@.len(),
                to_read <= buf@.len(),
                buf@.len() == old(buf)@.len(),
                off as int == offset,
                off + to_read <= self.data@.len(),
                forall|k: int| 0 <= k < i ==> buf@[k] == self.data@[off + k],
                forall|k: int| i <= k < buf@.len() ==> buf@[k] == old(buf)@[k],
            decreases to_read - i,
        {
            assert(off + i < self.data@.len());
            let b = self.data[off + i];
            buf[i] = b;
            i += 1;
        }
        to_read
    }

    /// The number of bytes.
    pub fn len(&self) -> (r: u64)
        ensures
            r == self.data@.len(),
    {
        self.data.len() as u64
    }

    /// Where execution starts.
    pub fn entry_point(&self) -> (r: u64)
        ensures
            r == entry_point_v(self.module@.functions, self.module.start_function),
    {
        let fs = &self.module.functions;
        match self.module.start_function {
            Some(s) => {
                if (s as usize) < fs.len() {
                    return fs[s as usize].code_offset as u64;
                }
            },
            None => {},
        }
        let mut i: usize = 0;
        while i < fs.len()
            invariant
                0 <= i <= fs@.len(),
                fs == self.module.functions,
                entry_point_v(self.module@.functions, self.module.start_function) == first_code_from(functions_view(fs@), 0),
                first_code_from(functions_view(fs@), i as nat) == first_code_from(functions_view(fs@), 0),
            decreases fs@.len() - i,
        {
            if fs[i].code_offset > 0 {
                return fs[i].code_offset as u64;
            }
            i += 1;
        }
        0
    }

    /// Whether `offset` lies within the bytes.
    pub fn offset_valid(&self, offset: u64) -> (r: bool)
        ensures
            r == (offset < self.data@.len()),
    {
        offset < self.data.len() as u64
    }

    /// Whether `offset` lies in a code section.
    pub fn offset_executable(&self, offset: u64) -> (r: bool)
        ensures
            r == in_code(sections_view(self.module.sections@), offset),
    {
        let secs = &self.module.sections;
        let mut i: usize = 0;
        while i < secs.len()
            invariant
                0 <= i <= secs@.len(),
                secs == &self.module.sections,
                forall|k: int| 0 <= k < i ==> !(match #[trigger] sections_view(secs@)[k] {
                    WasmSectionV::Code { offset: s, size } => s <= offset < s + size,
                    _ => false,
                }),
            decreases secs@.len() - i,
        {
            match &secs[i] {
                WasmSection::Code { offset: start, size } => {
                    if offset >= *start as u64 && offset - (*start as u64) < *size as u64 {
                        assert(sections_view(secs@)[i as int] == secs@[i as int]@);
                        assert(match sections_view(secs@)[i as int] {
                            WasmSectionV::Code { offset: s, size } => s <= offset < s + size,
                            _ => false,
                        });
                        assert(in_code(sections_view(secs@), offset));
                        assert(secs@ == self.module.sections@);
                        return true;
                    }
                },
                _ => {},
            }
            i += 1;
        }
        false
    }

    /// The next offset worth reading after `offset`.
    pub fn next_valid_offset_after(&self, offset: u64) -> (r: u64)
        ensures
            r == if offset < self.data@.len() { (offset + 1) as u64 } else { offset },
    {
        if offset < self.data.len() as u64 {
            offset + 1
        } else {
            offset
        }
    }
}

} // verus!
