//! Instruction-level analyses of function bodies for a disassembler front end.
pub mod decode;
pub mod module;
pub mod analysis;
pub mod blocks;
pub mod regs;
pub mod reader;
pub mod parse;
pub mod tokens;
pub mod view;
