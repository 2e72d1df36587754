//! The sequences of passes run for each target.
use vstd::prelude::*;
use crate::Target;

verus! {

/// A pass of the library.
#[derive(Debug, Clone, Copy, PartialEq, Eq, Structural)]
pub enum PassKind {
    Simplify,
    ControlFlow,
    TypeInfer,
    MemResolve,
    GoString,
    GoSlice,
    Stackifier,
    Unblockify,
}

/// A sequence of passes, run in order.
pub struct Pipeline {
    pub passes: Vec<PassKind>,
}

impl Pipeline {
    /// An empty pipeline.
    pub fn new() -> (r: Pipeline)
        ensures
            r.passes@ == Seq::<PassKind>::empty(),
    {
        Pipeline { passes: Vec::new() }
    }

    /// The default pipeline, with the basic passes: simplification, control
    /// flow, structured emission, block removal, types and memory strings.
    pub fn default_pipeline() -> (r: Pipeline)
        ensures
            r.passes@ == Pipeline::default_passes(),
    {
        let r = Pipeline {
            passes: vec![
                PassKind::Simplify,
                PassKind::ControlFlow,
                PassKind::Stackifier,
                PassKind::Unblockify,
                PassKind::TypeInfer,
                PassKind::MemResolve,
            ],
        };
        assert(r.passes@ =~= Pipeline::default_passes());
        r
    }

    /// The passes of the default pipeline.
    pub open spec fn default_passes() -> Seq<PassKind> {
        seq![
            PassKind::Simplify,
            PassKind::ControlFlow,
            PassKind::Stackifier,
            PassKind::Unblockify,
            PassKind::TypeInfer,
            PassKind::MemResolve,
        ]
    }

    /// The pipeline for Go-compiled modules: simplification, control flow,
    /// types, Go strings and slices, memory strings, and simplification again.
    pub fn for_go() -> (r: Pipeline)
        ensures
            r.passes@ == seq![
                PassKind::Simplify,
                PassKind::ControlFlow,
                PassKind::TypeInfer,
                PassKind::GoString,
                PassKind::GoSlice,
                PassKind::MemResolve,
                PassKind::Simplify,
            ],
    {
        let r = Pipeline {
            passes: vec![
                PassKind::Simplify,
                PassKind::ControlFlow,
                PassKind::TypeInfer,
                PassKind::GoString,
                PassKind::GoSlice,
                PassKind::MemResolve,
                PassKind::Simplify,
            ],
        };
        assert(r.passes@ =~= seq![
            PassKind::Simplify,
            PassKind::ControlFlow,
            PassKind::TypeInfer,
            PassKind::GoString,
            PassKind::GoSlice,
            PassKind::MemResolve,
            PassKind::Simplify,
        ]);
        r
    }

    /// The pipeline for Rust-compiled modules: simplification, control flow,
    /// types and memory strings.
    pub fn for_rust() -> (r: Pipeline)
        ensures
            r.passes@ == seq![PassKind::Simplify, PassKind::ControlFlow, PassKind::TypeInfer, PassKind::MemResolve],
    {
        let r = Pipeline {
            passes: vec![PassKind::Simplify, PassKind::ControlFlow, PassKind::TypeInfer, PassKind::MemResolve],
        };
        assert(r.passes@ =~= seq![PassKind::Simplify, PassKind::ControlFlow, PassKind::TypeInfer, PassKind::MemResolve]);
        r
    }

    /// The pipeline for a target: Go's and Rust's have their own, the others
    /// the default one.
    pub fn for_target(target: Target) -> (r: Pipeline)
        ensures
            target == Target::Go ==> r.passes@ == Pipeline::for_go_passes(),
            target == Target::Rust ==> r.passes@ == seq![PassKind::Simplify, PassKind::ControlFlow, PassKind::TypeInfer, PassKind::MemResolve],
            target != Target::Go && target != Target::Rust ==> r.passes@ == Pipeline::default_passes(),
    {
        match target {
            Target::Go => Self::for_go(),
            Target::Rust => Self::for_rust(),
            _ => Self::default_pipeline(),
        }
    }

    /// The passes of the Go pipeline.
    pub open spec fn for_go_passes() -> Seq<PassKind> {
        seq![
            PassKind::Simplify,
            PassKind::ControlFlow,
            PassKind::TypeInfer,
            PassKind::GoString,
            PassKind::GoSlice,
            PassKind::MemResolve,
            PassKind::Simplify,
        ]
    }

    /// Add a pass at the end.
    pub fn add_pass(&mut self, pass: PassKind)
        ensures
            final(self).passes@ == old(self).passes@.push(pass),
    {
        self.passes.push(pass);
    }
}

} // verus!
