//! Transformation passes on the IR and the context they share.
pub mod control_flow;
pub mod emit;
pub mod go;
pub mod intops;
pub mod mem_resolve;
pub mod pipeline;
pub mod simplify;
pub mod stackifier;
pub mod type_infer;
pub mod unblockify;

use vstd::prelude::*;
use crate::ir::InferredType;

verus! {

/// Known function types for pattern recognition
#[derive(Debug)]
pub enum KnownFunction {
    // Memory allocation
    Malloc,
    Free,
    Realloc,
    MemCopy,
    MemSet,
    // String operations
    StringConcat,
    StringLen,
    StringCmp,
    // Go runtime
    GoRuntimeMalloc,
    GoRuntimeSliceAppend,
    GoRuntimeStringConcat,
    GoPanic,
    GoMakeSlice,
    GoMakeMap,
    GoMakeChan,
    // Rust runtime
    RustPanic,
    RustAlloc,
    RustDealloc,
    // I/O
    Print,
    PrintLn,
    Read,
    Write,
    // Custom/user-defined
    Custom(String),
}

/// Diagnostic message from a pass
#[derive(Debug)]
pub enum Diagnostic {
    Info(String),
    Warning(String),
    Error(String),
}

/// Context shared between passes
#[derive(Debug)]
pub struct PassContext {
    /// Inferred types for variables: (function index, local index, type),
    /// each (function, local) pair once
    pub var_types: Vec<(u32, u32, InferredType)>,
    /// Known function signatures/purposes, each function index once
    pub known_functions: Vec<(u32, KnownFunction)>,
    /// Diagnostics and warnings
    pub diagnostics: Vec<Diagnostic>,
    /// Whether to emit debug info
    pub debug: bool,
}

/// The variable types recorded in a context, as a map.
pub open spec fn var_type_map(v: Seq<(u32, u32, InferredType)>) -> Map<(u32, u32), InferredType>
    decreases v.len(),
{
    if v.len() == 0 {
        Map::empty()
    } else {
        var_type_map(v.drop_last()).insert((v.last().0, v.last().1), v.last().2)
    }
}

/// Each (function, local) pair is recorded once.
pub open spec fn var_keys_unique(v: Seq<(u32, u32, InferredType)>) -> bool {
    forall|i: int, j: int| 0 <= i < v.len() && 0 <= j < v.len() && i != j
        ==> ((#[trigger] v[i]).0, v[i].1) != ((#[trigger] v[j]).0, v[j].1)
}

/// Overwriting the last entry of a key sets that key in the map.
pub proof fn lemma_var_type_map_update(v: Seq<(u32, u32, InferredType)>, j: int, t: InferredType)
    requires
        0 <= j < v.len(),
        forall|i: int| j < i < v.len() ==> ((#[trigger] v[i]).0, v[i].1) != (v[j].0, v[j].1),
    ensures
        var_type_map(v.update(j, (v[j].0, v[j].1, t))) == var_type_map(v).insert((v[j].0, v[j].1), t),
    decreases v.len(),
{
    let w = v.update(j, (v[j].0, v[j].1, t));
    assert(w.drop_last() =~= if j == v.len() - 1 { v.drop_last() } else { v.drop_last().update(j, (v[j].0, v[j].1, t)) });
    if j < v.len() - 1 {
        lemma_var_type_map_update(v.drop_last(), j, t);
        assert(var_type_map(w) =~= var_type_map(v).insert((v[j].0, v[j].1), t));
    } else {
        assert(var_type_map(w) =~= var_type_map(v).insert((v[j].0, v[j].1), t));
    }
}

/// A key that occurs in no entry is not in the map.
pub proof fn lemma_var_type_map_absent(v: Seq<(u32, u32, InferredType)>, f: u32, l: u32)
    requires
        forall|i: int| 0 <= i < v.len() ==> ((#[trigger] v[i]).0, v[i].1) != (f, l),
    ensures
        !var_type_map(v).contains_key((f, l)),
    decreases v.len(),
{
    if v.len() > 0 {
        lemma_var_type_map_absent(v.drop_last(), f, l);
    }
}

impl PassContext {
    /// Record the type of local `local` of function `func`, replacing the
    /// type recorded before, if any.
    pub fn set_var_type(&mut self, func: u32, local: u32, ty: InferredType)
        ensures
            var_type_map(final(self).var_types@) == var_type_map(old(self).var_types@).insert((func, local), ty),
            var_keys_unique(old(self).var_types@) ==> var_keys_unique(final(self).var_types@),
            final(self).known_functions == old(self).known_functions,
            final(self).diagnostics == old(self).diagnostics,
            final(self).debug == old(self).debug,
    {
        let n = self.var_types.len();
        let mut k: usize = n;
        while k > 0
            invariant
                k <= n,
                n == self.var_types@.len(),
                self.var_types == old(self).var_types,
                self.known_functions == old(self).known_functions,
                self.diagnostics == old(self).diagnostics,
                self.debug == old(self).debug,
                forall|i: int| k <= i < n ==> ((#[trigger] self.var_types@[i]).0, self.var_types@[i].1) != (func, local),
            decreases k,
        {
            if self.var_types[k - 1].0 == func && self.var_types[k - 1].1 == local {
                let ghost v = self.var_types@;
                proof {
                    lemma_var_type_map_update(v, k - 1, ty);
                }
                self.var_types.set(k - 1, (func, local, ty));
                proof {
                    assert(self.var_types@ == v.update(k - 1, (v[k - 1].0, v[k - 1].1, ty)));
                    let w = self.var_types@;
                    assert forall|i: int, j: int| var_keys_unique(v) && 0 <= i < w.len() && 0 <= j < w.len() && i != j
                        implies ((#[trigger] w[i]).0, w[i].1) != ((#[trigger] w[j]).0, w[j].1) by {
                        assert(v[i].0 == w[i].0 && v[i].1 == w[i].1);
                        assert(v[j].0 == w[j].0 && v[j].1 == w[j].1);
                    }
                }
                return;
            }
            k -= 1;
        }
        let ghost v = self.var_types@;
        proof {
            lemma_var_type_map_absent(v, func, local);
        }
        self.var_types.push((func, local, ty));
        proof {
            let w = self.var_types@;
            assert(w.drop_last() =~= v);
            assert forall|i: int, j: int| var_keys_unique(v) && 0 <= i < w.len() && 0 <= j < w.len() && i != j
                implies ((#[trigger] w[i]).0, w[i].1) != ((#[trigger] w[j]).0, w[j].1) by {
                if i < v.len() {
                    assert(w[i] == v[i]);
                }
                if j < v.len() {
                    assert(w[j] == v[j]);
                }
            }
        }
    }

    pub fn new() -> (r: PassContext)
        ensures
            r.var_types@.len() == 0,
            r.known_functions@.len() == 0,
            r.diagnostics@.len() == 0,
            !r.debug,
    {
        PassContext { var_types: Vec::new(), known_functions: Vec::new(), diagnostics: Vec::new(), debug: false }
    }

    pub fn with_debug(self, debug: bool) -> (r: PassContext)
        ensures
            r.var_types == self.var_types,
            r.known_functions == self.known_functions,
            r.diagnostics == self.diagnostics,
            r.debug == debug,
    {
        let mut s = self;
        s.debug = debug;
        s
    }

    /// Record an informational message when debugging is on.
    pub fn log(&mut self, message: String)
        ensures
            final(self).var_types == old(self).var_types,
            final(self).known_functions == old(self).known_functions,
            final(self).debug == old(self).debug,
            old(self).debug ==> final(self).diagnostics@ == old(self).diagnostics@.push(Diagnostic::Info(message)),
            !old(self).debug ==> final(self).diagnostics@ == old(self).diagnostics@,
    {
        if self.debug {
            self.diagnostics.push(Diagnostic::Info(message));
        }
    }

    /// Record a warning.
    pub fn warn(&mut self, message: String)
        ensures
            final(self).var_types == old(self).var_types,
            final(self).known_functions == old(self).known_functions,
            final(self).debug == old(self).debug,
            final(self).diagnostics@ == old(self).diagnostics@.push(Diagnostic::Warning(message)),
    {
        self.diagnostics.push(Diagnostic::Warning(message));
    }
}

} // verus!
