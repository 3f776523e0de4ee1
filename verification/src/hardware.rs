//! The machine's state: condition flags, registers and memory.

pub mod flags;
pub mod memory;
pub mod registers;
