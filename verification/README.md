# chip8-rust

A CHIP-8 interpreter core verified with Verus.

- `src/model.rs`: the machine state as sequences (`CpuState`), one
  specification per instruction, `step` (the effect of one opcode) and
  `can_execute` (the opcodes and states on which an instruction is defined).
- `src/chip8.rs`: the executable `CPU`, whose view is a `CpuState`; every
  instruction method is proved to refine its specification, and `execute`
  to refine `step`. `CXNN` draws its byte from `rand`.
- `src/laws.rs`: properties proved of `step`: call/return, stack bound,
  binary screen, decimal conversion, key wait, carry and borrow, shifts,
  skips, the font sprite that `FX29` points at.
- `src/lib.rs`: the fixture machine used by the tests.
- `app/main.rs`: loads a ROM from disk and prints the screen.
