//! Game Boy and NES emulator cores.

use vstd::prelude::*;

pub mod bus;
pub mod cartridge;
pub mod cpu;
pub mod emulator;
pub mod frontend;
pub mod joypad;
pub mod nes;
pub mod ppu;
pub mod timer;
pub mod verdict;

pub use emulator::{Button, Emulator, FRAME_CYCLES};

verus! {

} // verus!
