//! An interpreter for a small 8-bit virtual computer of the CHIP-8 family.
//!
//! The machine state, the instruction decoder, the instruction handlers and
//! the timer logic are verified; rendering, key polling and sound are reached
//! through the [`ChipIO`] boundary that the embedding program implements.
use vstd::prelude::*;

pub mod config;
pub mod error;
pub mod instruction;
pub mod io;
pub mod laws;
pub mod machine;

pub mod state;

pub use config::ChipConfig;
pub use error::ChipError;
pub use instruction::Instruction;
pub use io::{ChipIO, Screen};
pub use machine::ChipOxide;
pub use state::ChipState;

verus! {

/// Width of the framebuffer, in pixels.
pub const SCREEN_WIDTH: usize = 64;

/// Height of the framebuffer, in pixels.
pub const SCREEN_HEIGHT: usize = 32;

/// Number of keys on the keypad.
pub const KEYBOARD_SIZE: usize = 16;

/// Number of addressable bytes of memory.
pub const MEM_SIZE: usize = 4096;

/// Number of general-purpose registers.
pub const REGISTER_COUNT: usize = 16;

/// Address at which programs are loaded and execution starts.
pub const PROGRAM_START: usize = 0x200;

/// Size of one instruction word, in bytes.
pub const INSTRUCTION_SIZE: u16 = 2;

/// Bytes per font glyph.
pub const FONT_STRIDE: u16 = 5;

/// Index of the flag register.
pub const VF: usize = 0xF;

/// The built-in font: sixteen 5-byte glyphs for the hex digits 0 to F,
/// preloaded at address 0.
pub const FONT_DATA: [u8; 80] = [
    0xF0, 0x90, 0x90, 0x90, 0xF0, // 0
    0x20, 0x60, 0x20, 0x20, 0x70, // 1
    0xF0, 0x10, 0xF0, 0x80, 0xF0, // 2
    0xF0, 0x10, 0xF0, 0x10, 0xF0, // 3
    0x90, 0x90, 0xF0, 0x10, 0x10, // 4
    0xF0, 0x80, 0xF0, 0x10, 0xF0, // 5
    0xF0, 0x80, 0xF0, 0x90, 0xF0, // 6
    0xF0, 0x10, 0x20, 0x40, 0x40, // 7
    0xF0, 0x90, 0xF0, 0x90, 0xF0, // 8
    0xF0, 0x90, 0xF0, 0x10, 0xF0, // 9
    0xF0, 0x90, 0xF0, 0x90, 0x90, // A
    0xE0, 0x90, 0xE0, 0x90, 0xE0, // B
    0xF0, 0x80, 0x80, 0x80, 0xF0, // C
    0xE0, 0x90, 0x90, 0x90, 0xE0, // D
    0xF0, 0x80, 0xF0, 0x80, 0xF0, // E
    0xF0, 0x80, 0xF0, 0x80, 0x80, // F
];

} // verus!
