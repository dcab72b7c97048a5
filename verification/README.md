# emu8

A verified model of a small 8-bit processor emulator.

- `src/hex.rs`: hexadecimal digits, program image headers, the port text format.
- `src/alu.rs`: the ten ALU operations and the four conditional branches.
- `src/cpu.rs`: the processor state and one instruction cycle (`Cpu::emulate`),
  with the cycle's meaning as the spec function `emulate_spec` and its fault-free
  inputs as `emulate_ok`; program loading; laws of the stack and the cycle.
- `src/keyboard.rs`: the keyboard controller's event FIFO and key codes.
- `src/screen.rs`: the screen's `0xHH` line decoder.
- `app/`: the command-line emulator, the keyboard window and the screen reader,
  which do the file, terminal and window-system I/O around the library.
