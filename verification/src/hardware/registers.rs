//! The register file.

use vstd::prelude::*;
use crate::hardware::flags::Flag;

verus! {

/// Where the program counter points when the machine is created.
pub const PC_START: u16 = 0x3000;

/// The number of registers: eight general ones, `PC` and `COND`.
pub const REGISTER_COUNT: usize = 10;

/// The name of a register.
#[derive(Clone, Copy, Debug, PartialEq, Eq, Structural)]
pub enum Register {
    R0,
    R1,
    R2,
    R3,
    R4,
    R5,
    R6,
    R7,
    /// The program counter.
    PC,
    /// The condition register.
    COND,
}

impl Register {
    /// The register's number: 0 to 7 for `R0` to `R7`, 8 for `PC`, 9 for `COND`.
    pub open spec fn number(self) -> u16 {
        match self {
            Register::R0 => 0,
            Register::R1 => 1,
            Register::R2 => 2,
            Register::R3 => 3,
            Register::R4 => 4,
            Register::R5 => 5,
            Register::R6 => 6,
            Register::R7 => 7,
            Register::PC => 8,
            Register::COND => 9,
        }
    }

    /// The register with the given number; numbers above 9 name no register.
    pub open spec fn numbered(value: u16) -> Register {
        match value {
            0 => Register::R0,
            1 => Register::R1,
            2 => Register::R2,
            3 => Register::R3,
            4 => Register::R4,
            5 => Register::R5,
            6 => Register::R6,
            7 => Register::R7,
            8 => Register::PC,
            _ => Register::COND,
        }
    }

    /// Returns the register's number.
    pub fn index(self) -> (i: usize)
        ensures
            i == self.number(),
            i < REGISTER_COUNT,
    {
        match self {
            Register::R0 => 0,
            Register::R1 => 1,
            Register::R2 => 2,
            Register::R3 => 3,
            Register::R4 => 4,
            Register::R5 => 5,
            Register::R6 => 6,
            Register::R7 => 7,
            Register::PC => 8,
            Register::COND => 9,
        }
    }

    /// Returns the register with the given number.
    pub fn from(value: u16) -> (reg: Register)
        requires
            value <= 9,
        ensures
            reg == Register::numbered(value),
            reg.number() == value,
    {
        match value {
            0 => Register::R0,
            1 => Register::R1,
            2 => Register::R2,
            3 => Register::R3,
            4 => Register::R4,
            5 => Register::R5,
            6 => Register::R6,
            7 => Register::R7,
            8 => Register::PC,
            _ => Register::COND,
        }
    }
}

/// The registers of the machine.
pub struct Registers {
    registers: [u16; REGISTER_COUNT],
}

impl View for Registers {
    type V = Map<Register, u16>;

    /// The word that each register holds.
    closed spec fn view(&self) -> Map<Register, u16> {
        Map::total(|reg: Register| self.registers@[reg.number() as int])
    }
}

/// What the registers of a machine hold before it has run: `PC` is
/// `PC_START`, `COND` shows the flag of zero, every other register is zero.
pub open spec fn fresh_registers() -> Map<Register, u16> {
    Map::total(
        |reg: Register|
            match reg {
                Register::PC => PC_START,
                Register::COND => Flag::ZRO.mask(),
                _ => 0u16,
            },
    )
}

/// Every register holds a word.
pub broadcast proof fn lemma_registers_are_total(registers: Registers)
    ensures
        #[trigger] registers@.dom() == Set::<Register>::full(),
{
}

impl Default for Registers {
    /// The registers of a machine that has not run yet.
    fn default() -> (registers: Registers)
        ensures
            registers@ == fresh_registers(),
    {
        Registers::new()
    }
}

impl Registers {
    /// Creates the registers of a machine that has not run yet.
    pub fn new() -> (registers: Registers)
        ensures
            registers@ == fresh_registers(),
    {
        let mut registers = [0u16; REGISTER_COUNT];
        registers[Register::PC.index()] = PC_START;
        registers[Register::COND.index()] = Flag::ZRO.bits();
        Registers { registers }
    }

    /// Returns the word in `reg`.
    pub fn read(&self, reg: Register) -> (value: u16)
        ensures
            value == self@[reg],
    {
        self.registers[reg.index()]
    }

    /// Puts `value` into `reg` and leaves the other registers as they are.
    pub fn write(&mut self, reg: Register, value: u16)
        ensures
            final(self)@ == old(self)@.insert(reg, value),
    {
        self.registers[reg.index()] = value;
    }

    /// Sets `COND` to the flag that describes the word in `reg`.
    pub fn update_flags(&mut self, reg: Register)
        ensures
            final(self)@ == old(self)@.insert(Register::COND, Flag::of(old(self)@[reg]).mask()),
    {
        let value = self.read(reg);
        self.write(Register::COND, Flag::classify(value).bits());
    }
}

} // verus!
