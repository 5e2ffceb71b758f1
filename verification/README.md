# onwemu

Game Boy and NES emulator cores, written in Verus and proved against their contracts.

- `src/` is the verified library. `cpu`, `bus`, `cartridge`, `ppu`, `timer`,
  `joypad` and `emulator` make up the Game Boy; `nes/` holds the NES (6502 CPU, 2C02
  PPU, controller and NROM cartridge). `frontend` chooses a system and a button by
  name and colours frames into RGBA; `verdict` reads a test program's result from
  its serial output.
- Each type has an abstract view (a `…State` struct of sequences and integers) and the
  executable code is proved to follow spec functions over those views. Laws that span
  several operations (a write read back, push then pop, a call undone by a return,
  bank switching, timer reload timing, frame timing) are public proof functions next to
  the code they speak of.
- `tests/` runs the library on concrete programs and ROM images.
- `app/` is the unverified shell: the desktop window (minifb), the headless test
  runner, the wasm-bindgen boundary for the browser, and the error messages.
