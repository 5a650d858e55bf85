# GeeBee

A barebones Game Boy emulator whose core is written in Verus: the CPU, the
memory bus and the cartridge controllers, the timer, the joypad and the
display controller carry `requires` / `ensures` contracts that Verus proves.

## Layout

* `src/` is the verified library.
  * `bytes` splits and joins 16-bit words.
  * `cart` reads the cartridge header and checks its header check value.
  * `mbc/` holds the cartridge controllers (ROM only, MBC1, MBC2, MBC3) and
    the boot ROM overlay, behind the `MBC` trait.
  * `memory` is the address space outside the CPU's and the display's
    registers.
  * `cpu` holds the registers, the bus of the console and the instruction
    helpers; `instructions` decodes and runs opcodes, steps and frames.
  * `timer`, `joypad` are the timer unit and the joypad register.
  * `lcd` is the display controller: its registers, its scan-line state
    machine and its transfers; `render` draws a line of the screen.
* `tests/` runs the library on concrete programs, ROM images and screens.
* `app/` is the program around it: argument handling, reading ROM files,
  the window and the keyboard.

## Controls

* `WASD` for the directional pad
* `N` and `M` for `B` and `A`
* `Z` for `Start` and `X` for `Select`
