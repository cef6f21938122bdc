# chip8

A CHIP-8 virtual machine whose instruction decoder, instruction semantics and
fetch/decode/execute cycle are verified with Verus.

- `src/state.rs` — the mathematical model of the machine (`Chip8State`), when an
  instruction is defined (`step_defined`) and what it does (`step`).
- `src/instructions.rs` — the `Op` type, the opcode table (`decode_spec`), decoding and
  execution of every instruction.
- `src/draw.rs` — sprite drawing, proved against `Chip8State::draw`.
- `src/lib.rs` — the `Chip8` machine: construction, ROM loading and the cycle.
- `src/memory.rs`, `src/registers.rs`, `src/keypad.rs`, `src/display.rs` — memory and the
  font, registers, key events and the text rendering of the display.
- `src/laws.rs` — laws of the machine proved over the model.
- `app/` — a terminal runner and a browser front end around the library.
