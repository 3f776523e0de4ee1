//! An emulator of the LC-3, a 16-bit teaching computer.
//!
//! The machine has 65,536 words of memory, eight general registers, a
//! program counter, a condition register and fifteen instructions. This
//! library holds the whole of it as verified code: every function states in
//! its contract what it does to the registers and to memory. It performs no
//! input or output itself. Keys are handed to it by its host and the bytes
//! that a program prints are handed back.

pub mod hardware;
pub mod isa;
pub mod utils;
pub mod vm;
