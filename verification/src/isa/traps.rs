//! The trap routines: character input and output, and halt.
//!
//! A trap routine performs no input or output itself. What it prints is
//! returned as bytes for the host to write, and a key is taken from the
//! keyboard of the machine's memory, to which the host has handed it. Where
//! a routine needs a key and none is waiting, it says so and stops half way:
//! the host then reads a key and completes the routine with `receive_key`.

use vstd::prelude::*;
use vstd::string::*;
use crate::hardware::memory::{Memory, MemoryMappedRegister, MemoryView};
use crate::hardware::registers::{Register, Registers};
use crate::isa::instructions::arrived;
use crate::utils::{high_byte, high_byte_of, low_byte, low_byte_of};

verus! {

/// What IN prints before it reads a key.
pub const IN_PROMPT: &'static str = "Enter a character: ";

/// What HALT prints.
pub const HALT_NOTICE: &'static str = "Program halted\n";

/// The trap routines, named by the low byte of a TRAP instruction.
#[derive(Clone, Copy, Debug, PartialEq, Eq, Structural)]
pub enum Trapcode {
    /// Reads a key into `R0` without echo.
    GETC,
    /// Prints the character in `R0`.
    OUT,
    /// Prints a string of one character to a word.
    PUTS,
    /// Prompts, reads a key into `R0` and echoes it.
    IN,
    /// Prints a string of two characters to a word.
    PUTSP,
    /// Halts the machine.
    HALT,
}

impl Trapcode {
    /// The trap vector of a routine: `0x20` for `GETC` up to `0x25` for `HALT`.
    pub open spec fn vector(self) -> u16 {
        match self {
            Trapcode::GETC => 0x20,
            Trapcode::OUT => 0x21,
            Trapcode::PUTS => 0x22,
            Trapcode::IN => 0x23,
            Trapcode::PUTSP => 0x24,
            Trapcode::HALT => 0x25,
        }
    }

    /// The routine that a trap vector names, if it names one.
    pub open spec fn named(value: u16) -> Option<Trapcode> {
        match value {
            0x20 => Some(Trapcode::GETC),
            0x21 => Some(Trapcode::OUT),
            0x22 => Some(Trapcode::PUTS),
            0x23 => Some(Trapcode::IN),
            0x24 => Some(Trapcode::PUTSP),
            0x25 => Some(Trapcode::HALT),
            _ => None,
        }
    }

    /// Returns the routine with the given trap vector.
    pub fn from(value: u16) -> (code: Trapcode)
        requires
            0x20 <= value <= 0x25,
        ensures
            Trapcode::named(value) == Some(code),
            code.vector() == value,
    {
        match value {
            0x20 => Trapcode::GETC,
            0x21 => Trapcode::OUT,
            0x22 => Trapcode::PUTS,
            0x23 => Trapcode::IN,
            0x24 => Trapcode::PUTSP,
            _ => Trapcode::HALT,
        }
    }

    /// Looks a trap vector up: the routine that it names, or `None` for a
    /// vector outside `0x20..=0x25`.
    pub fn decode(value: u16) -> (code: Option<Trapcode>)
        ensures
            code == Trapcode::named(value),
    {
        if 0x20 <= value && value <= 0x25 {
            Some(Trapcode::from(value))
        } else {
            None
        }
    }
}

/// What the machine does after a trap routine has returned.
#[derive(Clone, Copy, Debug, PartialEq, Eq, Structural)]
pub enum Signal {
    /// The routine is done: the machine goes on with the next instruction.
    Continue,
    /// The routine needs a key and none was waiting. It is completed by
    /// `receive_key`, called with the key that the host has read and with
    /// `echo`.
    AwaitKey { echo: bool },
    /// The machine halts.
    Halt,
}

/// What a trap routine hands back: the bytes to print, in order, and what
/// the machine does next.
#[derive(Debug)]
pub struct TrapOutcome {
    pub output: Vec<u8>,
    pub signal: Signal,
}

/// Why a TRAP instruction failed.
#[derive(Clone, Copy, Debug, PartialEq, Eq, Structural)]
pub enum TrapError {
    /// The trap vector, carried here, names no routine.
    UnknownTrap(u8),
}

/// A bound on the number of words that a string scan can still read. A scan
/// moves up through memory one address at a time, wrapping round. When it
/// reads the keyboard status register it either finds a key, which is then
/// gone, or reads zero and ends.
pub open spec fn scan_budget(mem: MemoryView, address: u16) -> nat {
    let status = MemoryMappedRegister::KBSR.location();
    let ahead: nat = if address <= status {
        (status - address) as nat
    } else {
        (0x10000 - address + status) as nat
    };
    if mem.key.is_some() {
        0x10000 + ahead
    } else {
        ahead
    }
}

/// The bytes that PUTS prints for the string at `address`: the low byte of
/// each word, up to the first word that reads as zero.
pub open spec fn word_string(mem: MemoryView, address: u16) -> Seq<u8>
    decreases scan_budget(mem, address),
{
    let word = mem.word_read(address);
    if word == 0 {
        Seq::empty()
    } else {
        seq![low_byte_of(word)] + word_string(mem.after_read(address), address.wrapping_add(1))
    }
}

/// The memory after PUTS has read the string at `address`, terminator
/// included.
pub open spec fn after_word_string(mem: MemoryView, address: u16) -> MemoryView
    decreases scan_budget(mem, address),
{
    if mem.word_read(address) == 0 {
        mem.after_read(address)
    } else {
        after_word_string(mem.after_read(address), address.wrapping_add(1))
    }
}

/// The bytes that PUTSP prints for the packed string at `address`: the low
/// byte and then the high byte of each word, up to the first byte that is
/// zero. A zero low byte ends the string at once, whatever the high byte of
/// that word holds; a zero high byte ends it after the low byte of that word
/// has been printed.
pub open spec fn packed_string(mem: MemoryView, address: u16) -> Seq<u8>
    decreases scan_budget(mem, address),
{
    let word = mem.word_read(address);
    if low_byte_of(word) == 0 {
        Seq::empty()
    } else if high_byte_of(word) == 0 {
        seq![low_byte_of(word)]
    } else {
        seq![low_byte_of(word), high_byte_of(word)] + packed_string(
            mem.after_read(address),
            address.wrapping_add(1),
        )
    }
}

/// The memory after PUTSP has read the packed string at `address`, the word
/// with the first zero byte included.
pub open spec fn after_packed_string(mem: MemoryView, address: u16) -> MemoryView
    decreases scan_budget(mem, address),
{
    let word = mem.word_read(address);
    if low_byte_of(word) == 0 || high_byte_of(word) == 0 {
        mem.after_read(address)
    } else {
        after_packed_string(mem.after_read(address), address.wrapping_add(1))
    }
}

/// The address `steps` words above `address`, wrapping round at the end of
/// memory.
pub open spec fn address_after(address: u16, steps: int) -> u16 {
    ((address + steps) % 0x10000) as u16
}

/// A string of `len` words that lies clear of the keyboard status register
/// is printed word for word. If the `len` words from `address` on are not
/// zero, the word after them is, and none of these addresses is the status
/// register, then PUTS prints the low bytes of the `len` words in order and
/// leaves memory as it is.
pub proof fn lemma_word_string_of_plain_words(mem: MemoryView, address: u16, len: nat)
    requires
        len < 0x10000,
        forall|i: int|
            0 <= i <= len ==> #[trigger] address_after(address, i)
                != MemoryMappedRegister::KBSR.location(),
        forall|i: int| 0 <= i < len ==> mem.cells[#[trigger] address_after(address, i)] != 0,
        mem.cells[address_after(address, len as int)] == 0,
    ensures
        word_string(mem, address) == Seq::new(
            len,
            |i: int| low_byte_of(mem.cells[address_after(address, i)]),
        ),
        after_word_string(mem, address) == mem,
    decreases len,
{
    assert(address_after(address, 0) == address);
    if len > 0 {
        // By induction on the string that starts one word further on.
        let next = address.wrapping_add(1);
        assert forall|i: int| 0 <= i <= len - 1 implies #[trigger] address_after(next, i)
            != MemoryMappedRegister::KBSR.location() by {
            assert(address_after(next, i) == address_after(address, i + 1));
        }
        assert forall|i: int| 0 <= i < len - 1 implies mem.cells[#[trigger] address_after(next, i)]
            != 0 by {
            assert(address_after(next, i) == address_after(address, i + 1));
        }
        lemma_word_string_of_plain_words(mem, next, (len - 1) as nat);
    }
}

/// The byte at position `i` of a packed string that starts at `address`: the
/// low byte of a word comes before its high byte.
pub open spec fn packed_byte(mem: MemoryView, address: u16, i: int) -> u8 {
    let word = mem.cells[address_after(address, i / 2)];
    if i % 2 == 0 {
        low_byte_of(word)
    } else {
        high_byte_of(word)
    }
}

/// A packed string of `len` bytes that lies clear of the keyboard status
/// register is printed byte for byte. If the `len` bytes from the low byte at
/// `address` on are not zero, the byte after them is, and none of the words
/// that hold these bytes is the status register, then PUTSP prints the `len`
/// bytes in order and leaves memory as it is.
pub proof fn lemma_packed_string_of_plain_bytes(mem: MemoryView, address: u16, len: nat)
    requires
        len < 0x20000,
        forall|i: int|
            0 <= i <= len / 2 ==> #[trigger] address_after(address, i)
                != MemoryMappedRegister::KBSR.location(),
        forall|i: int| 0 <= i < len ==> #[trigger] packed_byte(mem, address, i) != 0,
        packed_byte(mem, address, len as int) == 0,
    ensures
        packed_string(mem, address) == Seq::new(len, |i: int| packed_byte(mem, address, i)),
        after_packed_string(mem, address) == mem,
    decreases len,
{
    if len >= 1 {
        assert(packed_byte(mem, address, 0) == low_byte_of(mem.cells[address]));
    }
    if len >= 2 {
        // By induction on the string that starts one word further on.
        let next = address.wrapping_add(1);
        assert(packed_byte(mem, address, 1) == high_byte_of(mem.cells[address]));
        assert forall|i: int| 0 <= i <= len - 2 implies #[trigger] packed_byte(mem, next, i)
            == packed_byte(mem, address, i + 2) by {
            assert(address_after(next, i / 2) == address_after(address, (i + 2) / 2));
        }
        assert forall|i: int| 0 <= i <= (len - 2) / 2 implies #[trigger] address_after(next, i)
            != MemoryMappedRegister::KBSR.location() by {
            assert(address_after(next, i) == address_after(address, i + 1));
        }
        lemma_packed_string_of_plain_bytes(mem, next, (len - 2) as nat);
    }
}

/// What a trap routine does, given the registers in which `R7` already
/// holds the return address.
pub struct TrapEffect {
    /// The registers afterwards.
    pub registers: Map<Register, u16>,
    /// The memory afterwards.
    pub memory: MemoryView,
    /// The bytes printed.
    pub output: Seq<u8>,
    /// What the machine does next.
    pub signal: Signal,
}

/// The registers after a key has been read: `R0` holds it and `COND`
/// describes it.
pub open spec fn key_read(regs: Map<Register, u16>, key: u8) -> Map<Register, u16> {
    arrived(regs, Register::R0, key as u16)
}

/// The memory once the waiting key has been taken from the keyboard.
pub open spec fn key_taken(mem: MemoryView) -> MemoryView {
    MemoryView { cells: mem.cells, key: None }
}

/// What each trap routine does.
pub open spec fn service(code: Trapcode, regs: Map<Register, u16>, mem: MemoryView) -> TrapEffect {
    match code {
        Trapcode::GETC => match mem.key {
            Some(key) => TrapEffect {
                registers: key_read(regs, key),
                memory: key_taken(mem),
                output: Seq::empty(),
                signal: Signal::Continue,
            },
            None => TrapEffect {
                registers: regs,
                memory: mem,
                output: Seq::empty(),
                signal: Signal::AwaitKey { echo: false },
            },
        },
        Trapcode::OUT => TrapEffect {
            registers: regs,
            memory: mem,
            output: seq![low_byte_of(regs[Register::R0])],
            signal: Signal::Continue,
        },
        Trapcode::PUTS => TrapEffect {
            registers: regs,
            memory: after_word_string(mem, regs[Register::R0]),
            output: word_string(mem, regs[Register::R0]),
            signal: Signal::Continue,
        },
        Trapcode::IN => match mem.key {
            Some(key) => TrapEffect {
                registers: key_read(regs, key),
                memory: key_taken(mem),
                output: IN_PROMPT.spec_bytes().push(key),
                signal: Signal::Continue,
            },
            None => TrapEffect {
                registers: regs,
                memory: mem,
                output: IN_PROMPT.spec_bytes(),
                signal: Signal::AwaitKey { echo: true },
            },
        },
        Trapcode::PUTSP => TrapEffect {
            registers: regs,
            memory: after_packed_string(mem, regs[Register::R0]),
            output: packed_string(mem, regs[Register::R0]),
            signal: Signal::Continue,
        },
        Trapcode::HALT => TrapEffect {
            registers: regs,
            memory: mem,
            output: HALT_NOTICE.spec_bytes(),
            signal: Signal::Halt,
        },
    }
}

/// The trap vector of a TRAP instruction: its low byte.
pub open spec fn trap_vector(instr: u16) -> u8 {
    low_byte_of(instr)
}

/// Whether `outcome` is what `effect` describes.
pub open spec fn reports(outcome: TrapOutcome, effect: TrapEffect) -> bool {
    outcome.output@ == effect.output && outcome.signal == effect.signal
}

/// Executes a TRAP instruction: saves `PC` in `R7`, then runs the routine
/// that the low byte of `instr` names. A byte that names no routine is an
/// error, reported after `R7` was written.
pub fn execute(registers: &mut Registers, memory: &mut Memory, instr: u16) -> (result: Result<
    TrapOutcome,
    TrapError,
>)
    ensures
        match Trapcode::named(trap_vector(instr) as u16) {
            Some(code) => {
                let effect = service(
                    code,
                    old(registers)@.insert(Register::R7, old(registers)@[Register::PC]),
                    old(memory)@,
                );
                &&& result is Ok
                &&& reports(result->Ok_0, effect)
                &&& final(registers)@ == effect.registers
                &&& final(memory)@ == effect.memory
            },
            None => {
                &&& result == Err::<TrapOutcome, TrapError>(
                    TrapError::UnknownTrap(trap_vector(instr)),
                )
                &&& final(registers)@ == old(registers)@.insert(
                    Register::R7,
                    old(registers)@[Register::PC],
                )
                &&& final(memory)@ == old(memory)@
            },
        },
{
    let pc = registers.read(Register::PC);
    registers.write(Register::R7, pc);

    let vector = low_byte(instr);
    match Trapcode::decode(vector as u16) {
        Some(Trapcode::GETC) => Ok(getc(registers, memory)),
        Some(Trapcode::OUT) => Ok(out(registers)),
        Some(Trapcode::PUTS) => Ok(puts(registers, memory)),
        Some(Trapcode::IN) => Ok(in_(registers, memory)),
        Some(Trapcode::PUTSP) => Ok(putsp(registers, memory)),
        Some(Trapcode::HALT) => Ok(halt()),
        None => Err(TrapError::UnknownTrap(vector)),
    }
}

/// Completes a GETC or IN that found no key waiting: puts `key` into `R0`,
/// sets `COND` by it, and returns what is left to print, which is the key
/// itself if `echo` is set and nothing otherwise.
pub fn receive_key(registers: &mut Registers, key: u8, echo: bool) -> (output: Vec<u8>)
    ensures
        final(registers)@ == key_read(old(registers)@, key),
        output@ == (if echo {
            seq![key]
        } else {
            Seq::<u8>::empty()
        }),
{
    let mut output = Vec::new();
    if echo {
        output.push(key);
    }
    registers.write(Register::R0, key as u16);
    registers.update_flags(Register::R0);
    output
}

/// GETC: takes the waiting key into `R0`, or asks for one.
fn getc(registers: &mut Registers, memory: &mut Memory) -> (outcome: TrapOutcome)
    ensures
        reports(outcome, service(Trapcode::GETC, old(registers)@, old(memory)@)),
        final(registers)@ == service(Trapcode::GETC, old(registers)@, old(memory)@).registers,
        final(memory)@ == service(Trapcode::GETC, old(registers)@, old(memory)@).memory,
{
    match memory.take_key() {
        Some(key) => {
            let output = receive_key(registers, key, false);
            TrapOutcome { output, signal: Signal::Continue }
        },
        None => TrapOutcome { output: Vec::new(), signal: Signal::AwaitKey { echo: false } },
    }
}

/// OUT: prints the low byte of `R0`.
fn out(registers: &Registers) -> (outcome: TrapOutcome)
    ensures
        outcome.output@ == seq![low_byte_of(registers@[Register::R0])],
        outcome.signal == Signal::Continue,
{
    let ch = registers.read(Register::R0);
    let mut output = Vec::new();
    output.push(low_byte(ch));
    TrapOutcome { output, signal: Signal::Continue }
}

/// PUTS: prints the string of words that starts at the address in `R0`.
fn puts(registers: &Registers, memory: &mut Memory) -> (outcome: TrapOutcome)
    ensures
        outcome.output@ == word_string(old(memory)@, registers@[Register::R0]),
        outcome.signal == Signal::Continue,
        final(memory)@ == after_word_string(old(memory)@, registers@[Register::R0]),
{
    let ghost start = memory@;
    let mut output: Vec<u8> = Vec::new();
    let mut address = registers.read(Register::R0);
    loop
        invariant_except_break
            output@ + word_string(memory@, address) == word_string(start, registers@[Register::R0]),
            after_word_string(memory@, address) == after_word_string(
                start,
                registers@[Register::R0],
            ),
        ensures
            output@ == word_string(start, registers@[Register::R0]),
            memory@ == after_word_string(start, registers@[Register::R0]),
        decreases scan_budget(memory@, address),
    {
        let word = memory.read(address);
        if word == 0 {
            break;
        }
        output.push(low_byte(word));
        address = address.wrapping_add(1);
    }
    TrapOutcome { output, signal: Signal::Continue }
}

/// IN: prints the prompt, then takes the waiting key into `R0` and echoes
/// it, or asks for one.
fn in_(registers: &mut Registers, memory: &mut Memory) -> (outcome: TrapOutcome)
    ensures
        reports(outcome, service(Trapcode::IN, old(registers)@, old(memory)@)),
        final(registers)@ == service(Trapcode::IN, old(registers)@, old(memory)@).registers,
        final(memory)@ == service(Trapcode::IN, old(registers)@, old(memory)@).memory,
{
    let mut output = IN_PROMPT.as_bytes_vec();
    match memory.take_key() {
        Some(key) => {
            let _ = receive_key(registers, key, true);
            output.push(key);
            TrapOutcome { output, signal: Signal::Continue }
        },
        None => TrapOutcome { output, signal: Signal::AwaitKey { echo: true } },
    }
}

/// PUTSP: prints the packed string that starts at the address in `R0`.
fn putsp(registers: &Registers, memory: &mut Memory) -> (outcome: TrapOutcome)
    ensures
        outcome.output@ == packed_string(old(memory)@, registers@[Register::R0]),
        outcome.signal == Signal::Continue,
        final(memory)@ == after_packed_string(old(memory)@, registers@[Register::R0]),
{
    let ghost start = memory@;
    let mut output: Vec<u8> = Vec::new();
    let mut address = registers.read(Register::R0);
    loop
        invariant_except_break
            output@ + packed_string(memory@, address) == packed_string(
                start,
                registers@[Register::R0],
            ),
            after_packed_string(memory@, address) == after_packed_string(
                start,
                registers@[Register::R0],
            ),
        ensures
            output@ == packed_string(start, registers@[Register::R0]),
            memory@ == after_packed_string(start, registers@[Register::R0]),
        decreases scan_budget(memory@, address),
    {
        let word = memory.read(address);
        let char1 = low_byte(word);
        let char2 = high_byte(word);

        if char1 == 0 {
            break;
        }
        output.push(char1);
        if char2 == 0 {
            break;
        }
        output.push(char2);
        address = address.wrapping_add(1);
    }
    TrapOutcome { output, signal: Signal::Continue }
}

/// HALT: prints the halt notice and stops the machine.
fn halt() -> (outcome: TrapOutcome)
    ensures
        outcome.output@ == HALT_NOTICE.spec_bytes(),
        outcome.signal == Signal::Halt,
{
    TrapOutcome { output: HALT_NOTICE.as_bytes_vec(), signal: Signal::Halt }
}

} // verus!
