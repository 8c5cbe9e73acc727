# rx82

An emulator for the RX82 fantasy retro computer and its R8 8-bit CPU, with an
assembler and a disassembler for R8 assembly language, written in Verus: each
function's behaviour is stated in its contract and proved.

## Layout

- `src/regs.rs`, `src/instructions.rs`: registers, register pairs and operand bytes;
  the instruction set, its opcodes and operand counts.
- `src/bus.rs`, `src/memory.rs`, `src/rom.rs`, `src/device.rs`: the system bus with its
  first-come bus grant, RAM and ROM.
- `src/cpu.rs`: the CPU as a state machine advanced one clock cycle at a time, with a
  mathematical model (`CpuView::step`) that every operation is proved against.
- `src/system.rs`: the whole machine, the boot ROM image, bus timing traces and the
  status display.
- `src/assembler/`: tokenizer, two-pass assembler and disassembler, each specified over
  sequences of characters, tokens and bytes; `passes.rs` proves that the two passes
  agree on every label, `spacing.rs` that spaces in front of a token change nothing,
  `roundtrip.rs` that the line the disassembler shows for an instruction assembles back
  to that instruction.
- `src/monitor.rs`, `src/clock.rs`, `src/phase.rs`, `src/doc.rs`: the monitor's commands
  and output, clock pacing, CPU phases and the opcode table.
- `app/main.rs`: the `rx82` command line (files, terminal, sleeping for the clock).
- `tests/`: scenario tests and concrete instances of the proved laws.
