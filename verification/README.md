# zyl

The back half of a compiler for the Zyl language, written in Verus and proved
against its specifications.

- `ir` — the SSA intermediate representation (blocks of instructions) and its
  abstract view.
- `codegen` — the register allocator, the AT&T-syntax x86_64 assembly
  generator and the LLVM IR printer, each specified line by line over the
  abstract view.
- `debug_text` — the debug text of IR values and instructions, which error
  messages and the LLVM printer show.
- `lowering` — lowering a checked program to the IR: branches and loops open
  blocks of their own, lambdas become functions of their own.
- `dce` — dead-block elimination: every block whose label is reached from the
  entry stays, every other block goes.
- `compiler` — the pipeline: lowering, optimization, code generation, linking
  and the SHA-256 hash of the object code.
- `contract_injection` — turns contract forms (`requires`, `ensures`,
  `invariant`, `recover`, `checkpoint`, `contracts off`) into plain checks.
- `ffi` — the pinned arguments and results of foreign calls, and the safety
  check made before a call.
- `symbols` — symbol names, the stack-slot hash of names, register widths.
- `ast`, `error`, `eval`, `text` — syntax trees, error codes, and the decimal
  and hexadecimal text the generators print.

`app/` holds what runs around the library: the system assembler, the error
types with their messages, the registry of foreign functions (closures) with
the built-in `print`, `read-line` and `exit`, and the driver that assembles the
generated text and finishes the compilation.

## Not part of this crate

- The direct Intel-syntax x86 generator that works on the typed, optimized
  ICNF (`CodeGen`, with its struct layout and tail-call frame reuse): its input
  types, the ICNF module and the type system, are not part of this code base,
  so only its self-contained helpers (labels, frame sizes, symbol names,
  register names) are here, in `symbols`.
- The tree-walking evaluator (`Evaluator`, `Env`, `Value` and the built-in
  functions it runs): it rests on the actor runtime and on floating-point
  arithmetic, and the actor runtime is not part of this code base. Its error
  type and the test-registry entries are in `eval`.
- The parser: the compiler starts from a checked `Program`.
