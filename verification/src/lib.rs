//! A CHIP-8 interpreter core: the machine state, the instruction decoder, the
//! meaning of every instruction, and the timer cadence, each with a contract
//! over a mathematical model of the machine.
//!
//! Rendering, sound and input devices are left to the program that drives the
//! machine; this crate tells it what to show, when to sound and which key an
//! event names.

pub mod cpu;
pub mod display;
pub mod keypad;
pub mod laws;
pub mod machine;
pub mod opcode;
mod random;

pub use cpu::Cpu;
pub use display::{block, Block, Pixel, DISPLAY_CELLS, DISPLAY_HEIGHT, DISPLAY_WIDTH, MAX_SCALE};
pub use keypad::{keypad_index, InputEvent, KeyState, ESCAPE_KEY, KEY_CODES, KEY_COUNT};
pub use machine::{
    Frame, MachineState, SoundSignal, FONTSET, MAX_ROM_SIZE, MEMORY_SIZE, PROGRAM_START,
};
pub use opcode::{CpuError, Opcode};
