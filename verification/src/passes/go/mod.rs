//! Passes that recognize the runtime patterns of Go-compiled modules.
pub mod slice;
pub mod string;

pub use slice::{GoInterfacePass, GoSlicePass};
pub use string::GoStringPass;
