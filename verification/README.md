# asmvm

A small RISC-style instruction set, a virtual machine that runs it, and an assembler for it,
written in Verus: the behaviour of each function is stated in its `requires`/`ensures` and
proved.

Layout of `src/`:

- `shared` — traits and helpers shared by the parts (`EnumCount`, `EnumVariants`,
  `VMInstruction`, range chunks).
- `isa` — registers `x0`..`x31`, 14- and 19-bit immediates, instructions and their 32-bit
  encoding; decoding an encoding gives the instruction back.
- `vm` — the machine for `isa`: registers, program counter, memory with regions and
  permissions, and `step`/`run` stated against a model of one step. Also the instruction set
  on calling-convention registers (`vm::instruction`) and the first operand-based set
  (`vm::register`).
- `bytevm` — a byte-code machine whose opcodes are single bytes.
- `assembler` — the lexer (source bytes to tokens and spans, stated as a function on bytes),
  the parser (tokens to an intermediate representation, stated step by step), the string
  interner, sections, constants and the symbol table. Maps are rustc-hash's `FxHashMap`.

`tests/` holds the tests, `app/` the program entry point.
