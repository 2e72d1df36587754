//! Decompiler library for WebAssembly modules: an intermediate representation,
//! control-flow-graph analyses (dominators, natural loops), IR simplification
//! passes, and the instruction-level analyses used by a disassembler front end.
pub mod cfg;
pub mod disasm;
pub mod dump;
pub mod ir;
pub mod lift;
pub mod load;
pub mod names;
pub mod ops;
pub mod passes;
pub mod text;

use vstd::prelude::*;

verus! {

/// Target compiler/runtime for specialized passes
#[derive(Debug, Clone, Copy, PartialEq, Eq, Structural)]
pub enum Target {
    /// Generic WASM (default passes only)
    Generic,
    /// Go-compiled WASM
    Go,
    /// Rust-compiled WASM
    Rust,
    /// C/C++-compiled WASM (Emscripten)
    C,
}

impl Default for Target {
    fn default() -> (r: Target)
        ensures
            r == Target::Generic,
    {
        Target::Generic
    }
}

/// Options for decompilation
#[derive(Debug, Clone, Copy)]
pub struct DecompileOptions {
    /// Target compiler/runtime
    pub target: Target,
    /// Enable debug output
    pub debug: bool,
    /// Dump IR after each pass
    pub dump_ir: bool,
}

impl Default for DecompileOptions {
    fn default() -> (r: DecompileOptions)
        ensures
            r.target == Target::Generic,
            !r.debug,
            !r.dump_ir,
    {
        DecompileOptions { target: Target::Generic, debug: false, dump_ir: false }
    }
}

impl DecompileOptions {
    /// The default options: generic target, no debug output, no IR dump.
    pub fn new() -> (r: DecompileOptions)
        ensures
            r.target == Target::Generic,
            !r.debug,
            !r.dump_ir,
    {
        DecompileOptions { target: Target::Generic, debug: false, dump_ir: false }
    }

    pub fn with_target(self, target: Target) -> (r: DecompileOptions)
        ensures
            r.target == target,
            r.debug == self.debug,
            r.dump_ir == self.dump_ir,
    {
        let mut s = self;
        s.target = target;
        s
    }

    pub fn with_debug(self, debug: bool) -> (r: DecompileOptions)
        ensures
            r.target == self.target,
            r.debug == debug,
            r.dump_ir == self.dump_ir,
    {
        let mut s = self;
        s.debug = debug;
        s
    }

    pub fn with_dump_ir(self, dump_ir: bool) -> (r: DecompileOptions)
        ensures
            r.target == self.target,
            r.debug == self.debug,
            r.dump_ir == dump_ir,
    {
        let mut s = self;
        s.dump_ir = dump_ir;
        s
    }
}

} // verus!
