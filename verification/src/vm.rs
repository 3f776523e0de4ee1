//! The machine as a whole: image loading and the fetch-execute cycle.
//!
//! The machine runs under a host, which owns the terminal. Before and
//! between runs the host hands over the keys that have been typed, with
//! `key_pressed`; `step` and `run` append what the program prints to a buffer
//! of the host's. A program that reads a key when none is waiting stops the
//! machine in `Status::AwaitingKey` until the next `key_pressed`.

use byteorder::{BigEndian, ByteOrder};
use vstd::prelude::*;
use vstd::slice::slice_subrange;
use vstd::string::*;
use crate::hardware::flags::Flag;
use crate::hardware::memory::{lemma_memory_is_total, Memory, MemoryView};
use crate::hardware::registers::{
    fresh_registers, lemma_registers_are_total, Register, Registers,
};
use crate::isa::instructions::{
    add_effect, and_effect, branch_effect, jump_effect, jump_to_subroutine_effect,
    load_effect, load_effective_address_effect, load_indirect_effect, load_register_effect,
    not_effect, store_effect, store_indirect_effect, store_register_effect, Opcode,
};
use crate::isa::instructions;
use crate::isa::traps::{
    execute, key_read, receive_key, service, trap_vector, Signal, TrapError, Trapcode,
    HALT_NOTICE,
};

verus! {

broadcast use {lemma_memory_is_total, lemma_registers_are_total};

/// What the machine prints when it meets RTI or RES, which it does not
/// implement.
pub const UNIMPLEMENTED_NOTICE: &'static str = "RTI and RES are not implemented\n";

/// Whether the machine runs.
#[derive(Clone, Copy, Debug, PartialEq, Eq, Structural)]
pub enum Status {
    /// The next cycle executes the instruction at `PC`.
    Running,
    /// A GETC or IN found no key waiting. The machine stands still until
    /// `key_pressed` brings one, which is echoed if `echo` is set.
    AwaitingKey { echo: bool },
    /// A HALT was executed. Nothing resumes the machine.
    Halted,
}

/// Why an image could not be loaded.
#[derive(Clone, Copy, Debug, PartialEq, Eq, Structural)]
pub enum LoadError {
    /// The image is shorter than the two bytes of its origin.
    MissingOrigin,
    /// The image holds more words than fit between its origin and the end
    /// of memory.
    MemoryOverflow,
}

/// The state of a machine.
pub struct VmView {
    pub registers: Map<Register, u16>,
    pub memory: MemoryView,
    pub status: Status,
}

/// What one cycle, or a run of cycles, does.
pub struct Cycle {
    /// The machine afterwards.
    pub next: VmView,
    /// The bytes printed.
    pub output: Seq<u8>,
    /// The error that ended it, if one did.
    pub fault: Option<TrapError>,
}

/// The 16-bit word that two bytes make, most significant byte first.
pub open spec fn big_endian_word(high: u8, low: u8) -> u16 {
    (high * 256 + low) as u16
}

/// The address at which an image asks to be loaded: its first word.
pub open spec fn image_origin(image: Seq<u8>) -> u16 {
    big_endian_word(image[0], image[1])
}

/// The number of whole words that follow the origin. An odd byte at the end
/// of an image belongs to no word.
pub open spec fn image_len(image: Seq<u8>) -> int {
    (image.len() - 2) / 2
}

/// The `i`-th word after the origin.
pub open spec fn image_word(image: Seq<u8>, i: int) -> u16 {
    big_endian_word(image[2 + 2 * i], image[3 + 2 * i])
}

/// Memory after the first `count` words of `image` have been stored from its
/// origin upwards. Words that would lie beyond the last address are not
/// stored anywhere.
pub open spec fn image_stored(mem: MemoryView, image: Seq<u8>, count: int) -> MemoryView {
    MemoryView {
        cells: Map::total(
            |address: u16|
                if image_origin(image) <= address && address - image_origin(image) < count {
                    image_word(image, address - image_origin(image))
                } else {
                    mem.cells[address]
                },
        ),
        key: mem.key,
    }
}

/// The status that a trap routine's signal leaves the machine in.
pub open spec fn status_after(signal: Signal) -> Status {
    match signal {
        Signal::Continue => Status::Running,
        Signal::AwaitKey { echo } => Status::AwaitingKey { echo },
        Signal::Halt => Status::Halted,
    }
}

/// A cycle that prints nothing and leaves the machine running.
pub open spec fn silent(registers: Map<Register, u16>, memory: MemoryView) -> Cycle {
    Cycle {
        next: VmView { registers, memory, status: Status::Running },
        output: Seq::empty(),
        fault: None,
    }
}

/// What a TRAP instruction does, given the registers and the memory after
/// the fetch.
pub open spec fn trap_cycle(regs: Map<Register, u16>, mem: MemoryView, instr: u16) -> Cycle {
    let saved = regs.insert(Register::R7, regs[Register::PC]);
    match Trapcode::named(trap_vector(instr) as u16) {
        Some(code) => {
            let effect = service(code, saved, mem);
            Cycle {
                next: VmView {
                    registers: effect.registers,
                    memory: effect.memory,
                    status: status_after(effect.signal),
                },
                output: effect.output,
                fault: None,
            }
        },
        None => Cycle {
            next: VmView { registers: saved, memory: mem, status: Status::Running },
            output: Seq::empty(),
            fault: Some(TrapError::UnknownTrap(trap_vector(instr))),
        },
    }
}

/// What the instruction `instr` does, given the registers and the memory
/// after the fetch: `PC` already points past the instruction.
pub open spec fn executed(regs: Map<Register, u16>, mem: MemoryView, instr: u16) -> Cycle {
    match Opcode::of(instr) {
        Opcode::BR => silent(branch_effect(regs, instr), mem),
        Opcode::ADD => silent(add_effect(regs, instr), mem),
        Opcode::LD => {
            let effect = load_effect(regs, mem, instr);
            silent(effect.registers, effect.memory)
        },
        Opcode::ST => {
            let effect = store_effect(regs, mem, instr);
            silent(effect.registers, effect.memory)
        },
        Opcode::JSR => silent(jump_to_subroutine_effect(regs, instr), mem),
        Opcode::AND => silent(and_effect(regs, instr), mem),
        Opcode::LDR => {
            let effect = load_register_effect(regs, mem, instr);
            silent(effect.registers, effect.memory)
        },
        Opcode::STR => {
            let effect = store_register_effect(regs, mem, instr);
            silent(effect.registers, effect.memory)
        },
        Opcode::NOT => silent(not_effect(regs, instr), mem),
        Opcode::LDI => {
            let effect = load_indirect_effect(regs, mem, instr);
            silent(effect.registers, effect.memory)
        },
        Opcode::STI => {
            let effect = store_indirect_effect(regs, mem, instr);
            silent(effect.registers, effect.memory)
        },
        Opcode::JMP => silent(jump_effect(regs, instr), mem),
        Opcode::LEA => silent(load_effective_address_effect(regs, instr), mem),
        Opcode::TRAP => trap_cycle(regs, mem, instr),
        Opcode::RTI | Opcode::RES => Cycle {
            next: VmView { registers: regs, memory: mem, status: Status::Running },
            output: UNIMPLEMENTED_NOTICE.spec_bytes(),
            fault: None,
        },
    }
}

impl VmView {
    /// A machine that has not run yet: it is running, its registers are
    /// fresh and its memory is blank.
    pub open spec fn fresh() -> VmView {
        VmView {
            registers: fresh_registers(),
            memory: MemoryView::blank(),
            status: Status::Running,
        }
    }

    /// What holds of every machine: `COND` holds the mask of exactly one
    /// flag, and a machine that awaits a key has none waiting.
    pub open spec fn well_formed(self) -> bool {
        &&& Flag::is_mask(self.registers[Register::COND])
        &&& (self.status is AwaitingKey ==> self.memory.key is None)
    }

    /// One cycle of a running machine: the word at `PC` is fetched, which is
    /// a read of memory like any other, `PC` moves on by one, wrapping round
    /// at the end of memory, and the instruction is executed.
    pub open spec fn cycle(self) -> Cycle {
        let pc = self.registers[Register::PC];
        executed(
            self.registers.insert(Register::PC, pc.wrapping_add(1)),
            self.memory.after_read(pc),
            self.memory.word_read(pc),
        )
    }

    /// One step: a cycle if the machine is running, and nothing otherwise.
    pub open spec fn step(self) -> Cycle {
        if self.status is Running {
            self.cycle()
        } else {
            Cycle { next: self, output: Seq::empty(), fault: None }
        }
    }

    /// A run of at most `limit` cycles. It ends before the limit when the
    /// machine stops running, and after a cycle that fails.
    pub open spec fn run(self, limit: nat) -> Cycle
        decreases limit,
    {
        if limit == 0 || !(self.status is Running) {
            Cycle { next: self, output: Seq::empty(), fault: None }
        } else {
            let first = self.cycle();
            if first.fault is Some {
                first
            } else {
                let rest = first.next.run((limit - 1) as nat);
                Cycle { next: rest.next, output: first.output + rest.output, fault: rest.fault }
            }
        }
    }

    /// The machine after a key has come from the host. A machine that awaits
    /// a key takes it into `R0` and runs again; any other machine leaves it
    /// to the keyboard, which holds at most one key.
    pub open spec fn key_pressed(self, key: u8) -> VmView {
        match self.status {
            Status::AwaitingKey { echo } => VmView {
                registers: key_read(self.registers, key),
                memory: self.memory,
                status: Status::Running,
            },
            _ => VmView {
                registers: self.registers,
                memory: MemoryView {
                    cells: self.memory.cells,
                    key: if self.memory.key is None {
                        Some(key)
                    } else {
                        self.memory.key
                    },
                },
                status: self.status,
            },
        }
    }
}

/// The machine: its memory, its registers and whether it runs.
pub struct VM {
    memory: Memory,
    registers: Registers,
    status: Status,
}

impl View for VM {
    type V = VmView;

    closed spec fn view(&self) -> VmView {
        VmView { registers: self.registers@, memory: self.memory@, status: self.status }
    }
}

/// A cycle leaves a well-formed machine well-formed: whatever an
/// instruction puts into `COND` is the mask of a flag, and a trap routine
/// waits for a key only when none is waiting.
pub proof fn lemma_cycle_keeps_well_formed(s: VmView)
    requires
        s.well_formed(),
    ensures
        s.cycle().next.well_formed(),
        s.step().next.well_formed(),
{
}

/// A run leaves a well-formed machine well-formed.
pub proof fn lemma_run_keeps_well_formed(s: VmView, limit: nat)
    requires
        s.well_formed(),
    ensures
        s.run(limit).next.well_formed(),
    decreases limit,
{
    if limit > 0 && s.status is Running {
        lemma_cycle_keeps_well_formed(s);
        if s.cycle().fault is None {
            lemma_run_keeps_well_formed(s.cycle().next, (limit - 1) as nat);
        }
    }
}

/// A key leaves a well-formed machine well-formed.
pub proof fn lemma_key_pressed_keeps_well_formed(s: VmView, key: u8)
    requires
        s.well_formed(),
    ensures
        s.key_pressed(key).well_formed(),
{
}

/// A run may be made in batches: to run for `first` cycles and then, unless
/// that failed, for `second` more is to run for `first + second`.
pub proof fn lemma_run_in_batches(s: VmView, first: nat, second: nat)
    ensures
        s.run(first).fault is Some ==> s.run(first + second) == s.run(first),
        s.run(first).fault is None ==> s.run(first + second) == (Cycle {
            next: s.run(first).next.run(second).next,
            output: s.run(first).output + s.run(first).next.run(second).output,
            fault: s.run(first).next.run(second).fault,
        }),
    decreases first,
{
    let then = s.run(first).next.run(second);
    if first == 0 || !(s.status is Running) {
    } else {
        let cycle = s.cycle();
        if cycle.fault is None {
            lemma_run_in_batches(cycle.next, (first - 1) as nat, second);
            let rest = cycle.next.run((first - 1) as nat);
            assert(cycle.output + (rest.output + then.output) == (cycle.output + rest.output)
                + then.output);
        }
    }
}

/// Nothing resumes a machine that has halted, and only a key resumes one
/// that awaits a key: a step or a run changes nothing, prints nothing and
/// fetches nothing.
pub proof fn lemma_stopped_machine_stands_still(s: VmView, limit: nat)
    requires
        !(s.status is Running),
    ensures
        s.step() == (Cycle { next: s, output: Seq::empty(), fault: None }),
        s.run(limit) == (Cycle { next: s, output: Seq::empty(), fault: None }),
{
}

/// HALT ends a run. The cycle that executes a HALT fetches it, moves `PC`
/// past it, saves `PC` in `R7`, prints the halt notice and halts the
/// machine; the run then ends, however many cycles it was given.
pub proof fn lemma_halt_ends_the_run(s: VmView, limit: nat)
    requires
        s.status is Running,
        limit >= 1,
        Opcode::of(s.memory.word_read(s.registers[Register::PC])) == Opcode::TRAP,
        trap_vector(s.memory.word_read(s.registers[Register::PC])) == Trapcode::HALT.vector(),
    ensures
        s.run(limit) == s.cycle(),
        s.cycle().next.status is Halted,
        s.cycle().fault is None,
        s.cycle().output == HALT_NOTICE.spec_bytes(),
        s.cycle().next.memory == s.memory.after_read(s.registers[Register::PC]),
        s.cycle().next.registers == s.registers.insert(
            Register::PC,
            s.registers[Register::PC].wrapping_add(1),
        ).insert(Register::R7, s.registers[Register::PC].wrapping_add(1)),
{
    let halted = s.cycle();
    lemma_stopped_machine_stands_still(halted.next, (limit - 1) as nat);
}

/// Only HALT halts: a cycle that leaves the machine halted has executed a
/// TRAP whose vector is that of HALT.
pub proof fn lemma_only_halt_halts(s: VmView)
    requires
        s.cycle().next.status is Halted,
    ensures
        Opcode::of(s.memory.word_read(s.registers[Register::PC])) == Opcode::TRAP,
        trap_vector(s.memory.word_read(s.registers[Register::PC])) == Trapcode::HALT.vector(),
{
}

/// Reads a 16-bit word, most significant byte first, from the start of
/// `bytes`, with `byteorder::BigEndian::read_u16`. That function takes the
/// first two bytes of the slice and panics on a slice of fewer.
#[verifier::external_body]
fn read_word(bytes: &[u8]) -> (word: u16)
    requires
        bytes@.len() >= 2,
    ensures
        word == big_endian_word(bytes@[0], bytes@[1]),
{
    BigEndian::read_u16(bytes)
}

impl Default for VM {
    /// A machine that is ready to run, as `VM::new` creates it.
    fn default() -> (vm: VM)
        ensures
            vm@ == VmView::fresh(),
            vm@.well_formed(),
    {
        VM::new()
    }
}

impl VM {
    /// Creates a machine that is ready to run.
    pub fn new() -> (vm: VM)
        ensures
            vm@ == VmView::fresh(),
            vm@.well_formed(),
    {
        VM { memory: Memory::new(), registers: Registers::new(), status: Status::Running }
    }

    /// The machine's memory.
    pub fn memory(&self) -> (memory: &Memory)
        ensures
            memory@ == self@.memory,
    {
        &self.memory
    }

    /// The machine's registers.
    pub fn registers(&self) -> (registers: &Registers)
        ensures
            registers@ == self@.registers,
    {
        &self.registers
    }

    /// Whether the machine runs, waits for a key or has halted.
    pub fn status(&self) -> (status: Status)
        ensures
            status == self@.status,
    {
        self.status
    }

    /// Loads the contents of an image file into memory. The first two bytes
    /// give the origin; each further pair of bytes is a word, most
    /// significant byte first, and the words are stored from the origin
    /// upwards.
    ///
    /// An image without an origin is refused and changes nothing. An image
    /// with more words than fit below the end of memory is refused after the
    /// words that fit have been stored: loading does not wrap round.
    pub fn read_image_file(&mut self, image: &[u8]) -> (result: Result<(), LoadError>)
        ensures
            old(self)@.well_formed() ==> final(self)@.well_formed(),
            final(self)@.registers == old(self)@.registers,
            final(self)@.status == old(self)@.status,
            image@.len() < 2 ==> result == Err::<(), LoadError>(LoadError::MissingOrigin)
                && final(self)@.memory == old(self)@.memory,
            image@.len() >= 2 ==> final(self)@.memory == image_stored(
                old(self)@.memory,
                image@,
                image_len(image@),
            ),
            image@.len() >= 2 && image_origin(image@) + image_len(image@) <= 0x10000 ==> result
                == Ok::<(), LoadError>(()),
            image@.len() >= 2 && image_origin(image@) + image_len(image@) > 0x10000 ==> result
                == Err::<(), LoadError>(LoadError::MemoryOverflow),
    {
        if image.len() < 2 {
            return Err(LoadError::MissingOrigin);
        }
        let ghost start = self.memory@;
        let origin = read_word(slice_subrange(image, 0, 2));
        let count: usize = (image.len() - 2) / 2;
        let mut next: Option<u16> = Some(origin);
        let mut loaded: usize = 0;
        assert(self.memory@.cells =~= image_stored(start, image@, 0).cells);
        while loaded < count
            invariant
                image@.len() >= 2,
                count == image_len(image@),
                origin == image_origin(image@),
                loaded <= count,
                origin + loaded <= 0x10000,
                next == (if origin + loaded < 0x10000 {
                    Some((origin + loaded) as u16)
                } else {
                    None
                }),
                start == old(self).memory@,
                self.memory@ == image_stored(start, image@, loaded as int),
                self.registers@ == old(self).registers@,
                self.status == old(self).status,
            decreases count - loaded,
        {
            match next {
                Some(address) => {
                    let at: usize = 2 + 2 * loaded;
                    let word = read_word(slice_subrange(image, at, at + 2));
                    self.memory.write(address, word);
                    next = address.checked_add(1);
                    loaded = loaded + 1;
                    assert(self.memory@.cells =~= image_stored(start, image@, loaded as int).cells);
                },
                None => {
                    assert(self.memory@.cells =~= image_stored(
                        start,
                        image@,
                        image_len(image@),
                    ).cells);
                    return Err(LoadError::MemoryOverflow);
                },
            }
        }
        Ok(())
    }

    /// Hands the machine a key that the host has read. A machine that awaits
    /// a key takes it at once: the key goes into `R0`, `COND` is set by it,
    /// it is appended to `output` if it is to be echoed, and the machine
    /// runs again. Any other machine leaves the key to the keyboard, which
    /// accepts it unless it holds one already. Returns whether the key was
    /// taken or accepted.
    pub fn key_pressed(&mut self, key: u8, output: &mut Vec<u8>) -> (accepted: bool)
        ensures
            old(self)@.well_formed() ==> final(self)@.well_formed(),
            accepted == (old(self)@.status is AwaitingKey || old(self)@.memory.key is None),
            final(self)@ == old(self)@.key_pressed(key),
            final(output)@ == old(output)@ + (if old(self)@.status == (Status::AwaitingKey {
                echo: true,
            }) {
                seq![key]
            } else {
                Seq::<u8>::empty()
            }),
    {
        match self.status {
            Status::AwaitingKey { echo } => {
                let mut echoed = receive_key(&mut self.registers, key, echo);
                output.append(&mut echoed);
                self.status = Status::Running;
                true
            },
            _ => self.memory.offer_key(key),
        }
    }

    /// Runs one step: a cycle if the machine is running, nothing otherwise.
    /// What the cycle prints is appended to `output`. A TRAP whose vector
    /// names no routine is an error; the machine has then fetched the
    /// instruction and written `R7`, and still counts as running.
    pub fn step(&mut self, output: &mut Vec<u8>) -> (result: Result<(), TrapError>)
        ensures
            old(self)@.well_formed() ==> final(self)@.well_formed(),
            final(self)@ == old(self)@.step().next,
            final(output)@ == old(output)@ + old(self)@.step().output,
            result == match old(self)@.step().fault {
                Some(error) => Err::<(), TrapError>(error),
                None => Ok::<(), TrapError>(()),
            },
    {
        if !matches!(self.status, Status::Running) {
            return Ok(());
        }
        let pc = self.registers.read(Register::PC);
        let instr = self.memory.read(pc);
        self.registers.write(Register::PC, pc.wrapping_add(1));
        let op = Opcode::decode(instr);
        match op {
            Opcode::BR => instructions::branch(&mut self.registers, instr),
            Opcode::ADD => instructions::add(&mut self.registers, instr),
            Opcode::LD => instructions::load(&mut self.registers, &mut self.memory, instr),
            Opcode::ST => instructions::store(&mut self.registers, &mut self.memory, instr),
            Opcode::JSR => instructions::jump_to_subroutine(&mut self.registers, instr),
            Opcode::AND => instructions::and(&mut self.registers, instr),
            Opcode::LDR => instructions::load_register(
                &mut self.registers,
                &mut self.memory,
                instr,
            ),
            Opcode::STR => instructions::store_register(
                &mut self.registers,
                &mut self.memory,
                instr,
            ),
            Opcode::NOT => instructions::not(&mut self.registers, instr),
            Opcode::LDI => instructions::load_indirect(
                &mut self.registers,
                &mut self.memory,
                instr,
            ),
            Opcode::STI => instructions::store_indirect(
                &mut self.registers,
                &mut self.memory,
                instr,
            ),
            Opcode::JMP => instructions::jump(&mut self.registers, instr),
            Opcode::LEA => instructions::load_effective_address(&mut self.registers, instr),
            Opcode::TRAP => {
                match execute(&mut self.registers, &mut self.memory, instr) {
                    Ok(outcome) => {
                        let mut printed = outcome.output;
                        output.append(&mut printed);
                        self.status = match outcome.signal {
                            Signal::Continue => Status::Running,
                            Signal::AwaitKey { echo } => Status::AwaitingKey { echo },
                            Signal::Halt => Status::Halted,
                        };
                    },
                    Err(error) => {
                        return Err(error);
                    },
                }
            },
            Opcode::RTI | Opcode::RES => {
                let mut notice = UNIMPLEMENTED_NOTICE.as_bytes_vec();
                output.append(&mut notice);
            },
        }
        Ok(())
    }

    /// Runs the machine for at most `limit` cycles and appends what it
    /// prints to `output`. The run ends early when the machine halts, when
    /// it comes to wait for a key, and when a cycle fails; after a failure
    /// `output` still holds everything printed before it.
    pub fn run(&mut self, limit: usize, output: &mut Vec<u8>) -> (result: Result<(), TrapError>)
        ensures
            old(self)@.well_formed() ==> final(self)@.well_formed(),
            final(self)@ == old(self)@.run(limit as nat).next,
            final(output)@ == old(output)@ + old(self)@.run(limit as nat).output,
            result == match old(self)@.run(limit as nat).fault {
                Some(error) => Err::<(), TrapError>(error),
                None => Ok::<(), TrapError>(()),
            },
    {
        let mut cycles: usize = 0;
        proof {
            if self@.well_formed() {
                lemma_run_keeps_well_formed(self@, limit as nat);
            }
        }
        while cycles < limit && matches!(self.status, Status::Running)
            invariant
                cycles <= limit,
                old(self)@.well_formed() ==> old(self)@.run(limit as nat).next.well_formed(),
                self@.run((limit - cycles) as nat).next == old(self)@.run(limit as nat).next,
                self@.run((limit - cycles) as nat).fault == old(self)@.run(limit as nat).fault,
                output@ + self@.run((limit - cycles) as nat).output == old(output)@ + old(
                    self,
                )@.run(limit as nat).output,
            decreases limit - cycles,
        {
            let result = self.step(output);
            if let Err(error) = result {
                return Err(error);
            }
            cycles = cycles + 1;
        }
        Ok(())
    }
}

} // verus!
