# wasm_decompile

A WebAssembly decompiler library whose logic is verified with Verus, and a
small command-line front end around it.

## Layout

- `src/ir.rs` — the intermediate representation (expressions, statements,
  functions, modules) and the mathematical views the contracts speak of.
- `src/load.rs`, `src/ops.rs`, `src/lift.rs` — reading a binary module into
  IR: payloads and section entries are read through `wasmparser`, each
  function body's operators are decoded from its bytes, and the body is lifted
  by a stack-machine simulation (`FunctionLifter`).
- `src/cfg/` — control-flow graphs built from structured IR, dominators and
  natural loops, and the proof that both depend on the graph alone.
- `src/passes/` — the IR passes: simplification and constant folding, type
  inference, control-flow recovery (loops, conditionals, switches, early
  returns), structured emission from control-flow graphs (`emit.rs`,
  `stackifier.rs`), memory-string resolution, and the Go-specific string, slice and
  interface patterns.
- `src/names.rs`, `src/text.rs`, `src/dump.rs` — function naming, text
  decoding, and the IR dump (as text, and as tokens where float constants
  occur).
- `src/disasm/` — a disassembler front end: instruction decoding, module
  layout, per-function branch and stack-depth analysis, the outgoing edges of
  each basic block, instruction text, and
  the view of a module's bytes.
- `app/` — the command line: file I/O, argument handling, running the pass
  pipelines with the folding of float constants, and writing float constants
  in the dump.

Every function in `src/` is verified; the calls into `wasmparser` and a few
std formatting functions are trusted items whose contracts are stated beside
them.

## What is not here

- The asynchronous-call and Go `defer` rewriting passes are not part of the
  library: both rewrite the output of a JavaScript emitter, which this project
  does not have.
