//! Registers and calling convention the disassembler presents, and the
//! value-stack slots used when lifting instructions.
use vstd::prelude::*;

verus! {

/// Registers of the architecture.
#[derive(Debug, Clone, Copy, PartialEq, Eq, Structural)]
pub enum WasmRegister {
    /// Stack pointer
    Sp,
    /// Return value register
    Ret,
    /// Argument/local registers
    Arg0,
    Arg1,
    Arg2,
    Arg3,
    Arg4,
    Arg5,
    Arg6,
    Arg7,
}

/// The register with the given id.
pub open spec fn register_with_id(id: u32) -> Option<WasmRegister> {
    if id == 0 {
        Some(WasmRegister::Sp)
    } else if id == 1 {
        Some(WasmRegister::Ret)
    } else if id == 2 {
        Some(WasmRegister::Arg0)
    } else if id == 3 {
        Some(WasmRegister::Arg1)
    } else if id == 4 {
        Some(WasmRegister::Arg2)
    } else if id == 5 {
        Some(WasmRegister::Arg3)
    } else if id == 6 {
        Some(WasmRegister::Arg4)
    } else if id == 7 {
        Some(WasmRegister::Arg5)
    } else if id == 8 {
        Some(WasmRegister::Arg6)
    } else if id == 9 {
        Some(WasmRegister::Arg7)
    } else {
        None
    }
}

impl WasmRegister {
    /// The register's number: 0 for `sp`, 1 for `ret`, 2 to 9 for the arguments.
    pub open spec fn spec_id(self) -> u32 {
        match self {
            WasmRegister::Sp => 0,
            WasmRegister::Ret => 1,
            WasmRegister::Arg0 => 2,
            WasmRegister::Arg1 => 3,
            WasmRegister::Arg2 => 4,
            WasmRegister::Arg3 => 5,
            WasmRegister::Arg4 => 6,
            WasmRegister::Arg5 => 7,
            WasmRegister::Arg6 => 8,
            WasmRegister::Arg7 => 9,
        }
    }

    /// The register's name.
    pub fn name(&self) -> (r: &'static str)
        ensures
            r@ == match *self {
                WasmRegister::Sp => "sp"@,
                WasmRegister::Ret => "ret"@,
                WasmRegister::Arg0 => "arg0"@,
                WasmRegister::Arg1 => "arg1"@,
                WasmRegister::Arg2 => "arg2"@,
                WasmRegister::Arg3 => "arg3"@,
                WasmRegister::Arg4 => "arg4"@,
                WasmRegister::Arg5 => "arg5"@,
                WasmRegister::Arg6 => "arg6"@,
                WasmRegister::Arg7 => "arg7"@,
            },
    {
        match self {
            WasmRegister::Sp => "sp",
            WasmRegister::Ret => "ret",
            WasmRegister::Arg0 => "arg0",
            WasmRegister::Arg1 => "arg1",
            WasmRegister::Arg2 => "arg2",
            WasmRegister::Arg3 => "arg3",
            WasmRegister::Arg4 => "arg4",
            WasmRegister::Arg5 => "arg5",
            WasmRegister::Arg6 => "arg6",
            WasmRegister::Arg7 => "arg7",
        }
    }

    pub fn id(&self) -> (r: u32)
        ensures
            r == self.spec_id(),
    {
        match self {
            WasmRegister::Sp => 0,
            WasmRegister::Ret => 1,
            WasmRegister::Arg0 => 2,
            WasmRegister::Arg1 => 3,
            WasmRegister::Arg2 => 4,
            WasmRegister::Arg3 => 5,
            WasmRegister::Arg4 => 6,
            WasmRegister::Arg5 => 7,
            WasmRegister::Arg6 => 8,
            WasmRegister::Arg7 => 9,
        }
    }

    /// Registers are 8 bytes wide.
    pub fn size(&self) -> (r: usize)
        ensures
            r == 8,
    {
        8
    }

    pub fn offset(&self) -> (r: usize)
        ensures
            r == 0,
    {
        0
    }

    /// All registers, in id order.
    pub fn all() -> (r: Vec<WasmRegister>)
        ensures
            r@.len() == 10,
            forall|i: int| 0 <= i < 10 ==> (#[trigger] r@[i]).spec_id() == i,
    {
        vec![
            WasmRegister::Sp,
            WasmRegister::Ret,
            WasmRegister::Arg0,
            WasmRegister::Arg1,
            WasmRegister::Arg2,
            WasmRegister::Arg3,
            WasmRegister::Arg4,
            WasmRegister::Arg5,
            WasmRegister::Arg6,
            WasmRegister::Arg7,
        ]
    }

    /// The argument registers, in order.
    pub fn args() -> (r: Vec<WasmRegister>)
        ensures
            r@.len() == 8,
            forall|i: int| 0 <= i < 8 ==> (#[trigger] r@[i]).spec_id() == i + 2,
    {
        vec![
            WasmRegister::Arg0,
            WasmRegister::Arg1,
            WasmRegister::Arg2,
            WasmRegister::Arg3,
            WasmRegister::Arg4,
            WasmRegister::Arg5,
            WasmRegister::Arg6,
            WasmRegister::Arg7,
        ]
    }

    /// The register with the given id, if any.
    pub fn from_id(id: u32) -> (r: Option<WasmRegister>)
        ensures
            r == register_with_id(id),
            r matches Some(reg) ==> reg.spec_id() == id,
    {
        match id {
            0 => Some(WasmRegister::Sp),
            1 => Some(WasmRegister::Ret),
            2 => Some(WasmRegister::Arg0),
            3 => Some(WasmRegister::Arg1),
            4 => Some(WasmRegister::Arg2),
            5 => Some(WasmRegister::Arg3),
            6 => Some(WasmRegister::Arg4),
            7 => Some(WasmRegister::Arg5),
            8 => Some(WasmRegister::Arg6),
            9 => Some(WasmRegister::Arg7),
            _ => None,
        }
    }
}

/// Calling convention: arguments in the argument registers, results in `ret`.
pub struct WasmCallingConvention;

impl WasmCallingConvention {
    pub fn caller_saved_registers(&self) -> (r: Vec<u32>)
        ensures
            r@.len() == 0,
    {
        Vec::new()
    }

    pub fn callee_saved_registers(&self) -> (r: Vec<u32>)
        ensures
            r@.len() == 0,
    {
        Vec::new()
    }

    /// The ids of the argument registers.
    pub fn int_arg_registers(&self) -> (r: Vec<u32>)
        ensures
            r@ == seq![2u32, 3, 4, 5, 6, 7, 8, 9],
    {
        let args = WasmRegister::args();
        let mut ids: Vec<u32> = Vec::new();
        let mut i: usize = 0;
        while i < args.len()
            invariant
                args@.len() == 8,
                forall|k: int| 0 <= k < 8 ==> (#[trigger] args@[k]).spec_id() == k + 2,
                i <= 8,
                ids@.len() == i,
                forall|k: int| 0 <= k < i ==> ids@[k] == k + 2,
            decreases 8 - i,
        {
            ids.push(args[i].id());
            i += 1;
        }
        assert(ids@ =~= seq![2u32, 3, 4, 5, 6, 7, 8, 9]);
        ids
    }

    pub fn float_arg_registers(&self) -> (r: Vec<u32>)
        ensures
            r@.len() == 0,
    {
        Vec::new()
    }

    pub fn arg_registers_shared_index(&self) -> (r: bool)
        ensures
            r,
    {
        true
    }

    pub fn reserved_stack_space_for_arg_registers(&self) -> (r: bool)
        ensures
            !r,
    {
        false
    }

    pub fn stack_adjusted_on_return(&self) -> (r: bool)
        ensures
            !r,
    {
        false
    }

    pub fn is_eligible_for_heuristics(&self) -> (r: bool)
        ensures
            !r,
    {
        false
    }

    pub fn return_int_reg(&self) -> (r: Option<u32>)
        ensures
            r == Some(1u32),
    {
        Some(WasmRegister::Ret.id())
    }

    pub fn return_hi_int_reg(&self) -> (r: Option<u32>)
        ensures
            r is None,
    {
        None
    }

    pub fn return_float_reg(&self) -> (r: Option<u32>)
        ensures
            r == Some(1u32),
    {
        Some(WasmRegister::Ret.id())
    }

    pub fn global_pointer_reg(&self) -> (r: Option<u32>)
        ensures
            r is None,
    {
        None
    }

    /// `ret` is defined by every call.
    pub fn implicitly_defined_registers(&self) -> (r: Vec<u32>)
        ensures
            r@ == seq![1u32],
    {
        let mut v: Vec<u32> = Vec::new();
        v.push(WasmRegister::Ret.id());
        v
    }

    pub fn are_argument_registers_used_for_var_args(&self) -> (r: bool)
        ensures
            r,
    {
        true
    }
}

/// Base number of the temporary registers standing for value-stack slots.
pub const STACK_TEMP_BASE: u32 = 0xFFFF;

/// The value-stack depth while lifting; slot `d` is temporary register
/// `STACK_TEMP_BASE + d`.
pub struct StackState {
    pub depth: u32,
}

impl StackState {
    pub fn new(initial_depth: u32) -> (r: StackState)
        ensures
            r.depth == initial_depth,
    {
        StackState { depth: initial_depth }
    }

    /// Push a value: the temporary register of the new slot.
    pub fn push(&mut self) -> (r: u32)
        requires
            STACK_TEMP_BASE + old(self).depth + 1 <= u32::MAX,
        ensures
            r == STACK_TEMP_BASE + old(self).depth,
            final(self).depth == old(self).depth + 1,
    {
        let temp = STACK_TEMP_BASE + self.depth;
        self.depth = self.depth + 1;
        temp
    }

    /// Pop a value: the temporary register of the popped slot (the depth
    /// stays at zero on an empty stack).
    pub fn pop(&mut self) -> (r: u32)
        requires
            STACK_TEMP_BASE + old(self).depth <= u32::MAX,
        ensures
            final(self).depth == if old(self).depth > 0 { old(self).depth - 1 } else { 0 },
            r == STACK_TEMP_BASE + final(self).depth,
    {
        self.depth = self.depth.saturating_sub(1);
        STACK_TEMP_BASE + self.depth
    }
}

} // verus!
