# chipd

A CHIP-8 emulator. The library (`src/`) is the machine itself, verified
with Verus; `app/` is the SDL2 front end (window, keyboard, timing, ROM
file).

- `src/machine.rs` — the mathematical model of the machine (`CpuState`) and
  the meaning of every instruction (`step`), of a reset, of key presses and
  of a timer tick.
- `src/screen.rs` — sprite geometry: which screen pixels a sprite covers,
  with wrapping at the edges.
- `src/cpu.rs` — the executable machine `Cpu`; each operation is proved to
  act on `Cpu`'s view exactly as the model says.
- `src/keypad.rs` — the host keyboard block 1234/QWER/ASDF/ZXCV standing for
  the hexadecimal keypad 123C/456D/789E/A0BF.
- `src/laws.rs` — properties across operations: the machine stays well
  formed, a call and a return undo each other, drawing twice erases,
  stored registers load back, and more.

Usage: `chipd-rust [rom location]`. Ctrl+R resets, Ctrl+P pauses and resumes
execution, Escape quits.
