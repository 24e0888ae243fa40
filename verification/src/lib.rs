//! A verified interpreter for a fixed, historical 8-bit instruction set:
//! a 4096-byte memory seeded with a bitmap font, sixteen 8-bit registers,
//! a call stack, two timers, a 16-key input latch, and a 64x32 monochrome
//! display driven by XOR sprite drawing.

use vstd::prelude::*;

pub mod draw;
pub mod laws;
pub mod step;
pub mod machine;
pub mod view;

pub use machine::Emu;
pub use machine::EmuError;

verus! {

pub const SCREEN_WIDTH: usize = 64;
pub const SCREEN_HEIGHT: usize = 32;

} // verus!
