//! A verified CHIP-8 virtual-machine core.
//!
//! The crate owns the machine state and its fetch-decode-execute engine.
//! Every executable function carries a contract over [`machine::Machine`],
//! the mathematical model of the state, and is proved against it.

pub mod machine;
pub mod emu;
pub mod frontend;
pub mod laws;

pub use emu::Emu;
pub use frontend::{cell_rect, key2btn, CellRect, SCALE};
pub use machine::{
    Fault, FONTSET, FONTSET_SIZE, NUM_KEYS, NUM_REGS, PROGRAM_CAPACITY, RAM_SIZE, SCREEN_HEIGHT,
    SCREEN_SIZE, SCREEN_WIDTH, STACK_SIZE, START_ADDR, TICKS_PER_FRAME,
};
