//! Execution core of a CHIP-8 virtual machine: bit-exact instruction
//! decoding, register/stack/memory state transitions, and XOR sprite
//! drawing with collision detection, all specified and verified.
//!
//! The host front end (window, keyboard, ROM file) stays outside; it talks
//! to the core through plain values: `load_program`, `update`, `screen`,
//! `on_input` and `tick_timers`.

use vstd::prelude::*;

mod chip8;
mod display;
mod error;
mod font;
mod instruction;
mod laws;
mod memory;
mod state;

pub use chip8::Chip8;
pub use display::Display;
pub use display::Screen;
pub use error::Chip8Error;
pub use font::font_data;
pub use font::font_seq;
pub use instruction::get_bits;
pub use instruction::nth_nibble;
pub use instruction::sprite_bit;
pub use instruction::Instruction;
pub use laws::is_skip;
pub use laws::lemma_add_register_keeps_flag;
pub use laws::lemma_call_then_return;
pub use laws::lemma_draw_twice_restores;
pub use laws::lemma_jump_then_fetch;
pub use laws::lemma_skip_reg_complementary;
pub use laws::lemma_skip_tick_advance;
pub use laws::lemma_skip_val_complementary;
pub use laws::skip_condition;
pub use memory::Memory;
pub use state::draw_collides;
pub use state::draw_display;
pub use state::exec_spec;
pub use state::fetch_ok;
pub use state::fetched_word;
pub use state::initial_state;
pub use state::run_spec;
pub use state::step_spec;
pub use state::wf_state;
pub use state::VmState;

verus! {

/// Size of the emulated address space in bytes.
pub const RAM_SIZE: usize = 4096;

/// Width of the monochrome display in pixels.
pub const DISPLAY_WIDTH: usize = 64;

/// Height of the monochrome display in pixels.
pub const DISPLAY_HEIGHT: usize = 32;

/// Number of general-purpose 8-bit registers.
pub const VARIABLE_REGISTER_SIZE: usize = 16;

/// Index of the register repurposed as the carry/collision flag.
pub const FLAG_REGISTER: usize = 15;

/// Address where loaded programs begin; addresses below are reserved.
pub const PROGRAM_START: u16 = 0x200;

/// Address where the built-in font glyphs are stored.
pub const FONT_START: u16 = 0x50;

/// Number of keys on the CHIP-8 keypad.
pub const KEY_COUNT: usize = 16;

} // verus!
