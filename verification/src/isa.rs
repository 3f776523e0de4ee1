//! The instruction set: the fifteen instructions and the trap routines.

pub mod instructions;
pub mod traps;
