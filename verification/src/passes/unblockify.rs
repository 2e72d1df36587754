//! The unblockify pass.
use vstd::prelude::*;
use crate::ir::Module;
use crate::passes::PassContext;

verus! {

/// Pass that would lift the loops of a block-structured `factorial` out of
/// their enclosing block; it rewrites nothing.
pub struct UnblockifyPass;

impl UnblockifyPass {
    /// The pass's name, as logs show it.
    pub fn name(&self) -> (r: &'static str)
        ensures
            r@ == "unblockify"@,
    {
        "unblockify"
    }

    /// Leaves the module and the context as they are.
    pub fn run(&self, module: &mut Module, ctx: &mut PassContext)
        ensures
            *final(module) == *old(module),
            *final(ctx) == *old(ctx),
    {
    }
}

} // verus!
