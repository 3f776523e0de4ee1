//! The opcodes and what each instruction does to the registers and to memory.
//!
//! Every instruction is a function of the registers, of memory where it
//! touches memory, and of the instruction word. The program counter that an
//! instruction sees has already been advanced past it.

use vstd::arithmetic::power2::lemma2_to64;
use vstd::prelude::*;
use crate::hardware::flags::Flag;
use crate::hardware::memory::{Memory, MemoryMappedRegister, MemoryView};
use crate::hardware::registers::{Register, Registers};
use crate::utils::{
    field_value, lemma_sign_extend_keeps_value, lemma_wrapping_add_is_signed, sign_extend,
    sign_extended, word_value,
};

verus! {

/// The operation that the top four bits of an instruction word select.
#[derive(Clone, Copy, Debug, PartialEq, Eq, Structural)]
pub enum Opcode {
    /// Branch.
    BR,
    /// Add.
    ADD,
    /// Load.
    LD,
    /// Store.
    ST,
    /// Jump to subroutine.
    JSR,
    /// Bitwise and.
    AND,
    /// Load through a base register.
    LDR,
    /// Store through a base register.
    STR,
    /// Return from interrupt: does nothing on this machine.
    RTI,
    /// Bitwise not.
    NOT,
    /// Load indirect.
    LDI,
    /// Store indirect.
    STI,
    /// Jump.
    JMP,
    /// Reserved: does nothing on this machine.
    RES,
    /// Load effective address.
    LEA,
    /// Call a trap routine.
    TRAP,
}

impl Opcode {
    /// The opcode with the given number; every number from 0 to 15 is one.
    pub open spec fn numbered(value: u16) -> Opcode {
        match value {
            0 => Opcode::BR,
            1 => Opcode::ADD,
            2 => Opcode::LD,
            3 => Opcode::ST,
            4 => Opcode::JSR,
            5 => Opcode::AND,
            6 => Opcode::LDR,
            7 => Opcode::STR,
            8 => Opcode::RTI,
            9 => Opcode::NOT,
            10 => Opcode::LDI,
            11 => Opcode::STI,
            12 => Opcode::JMP,
            13 => Opcode::RES,
            14 => Opcode::LEA,
            _ => Opcode::TRAP,
        }
    }

    /// The opcode of an instruction word: its top four bits.
    pub open spec fn of(instr: u16) -> Opcode {
        Opcode::numbered(instr >> 12)
    }

    /// Returns the opcode with the given number.
    pub fn from(value: u16) -> (op: Opcode)
        requires
            value <= 15,
        ensures
            op == Opcode::numbered(value),
    {
        match value {
            0 => Opcode::BR,
            1 => Opcode::ADD,
            2 => Opcode::LD,
            3 => Opcode::ST,
            4 => Opcode::JSR,
            5 => Opcode::AND,
            6 => Opcode::LDR,
            7 => Opcode::STR,
            8 => Opcode::RTI,
            9 => Opcode::NOT,
            10 => Opcode::LDI,
            11 => Opcode::STI,
            12 => Opcode::JMP,
            13 => Opcode::RES,
            14 => Opcode::LEA,
            _ => Opcode::TRAP,
        }
    }

    /// Decodes the opcode of an instruction word. Every word has one.
    pub fn decode(instr: u16) -> (op: Opcode)
        ensures
            op == Opcode::of(instr),
    {
        let number = instr >> 12;
        assert(instr >> 12 <= 15) by (bit_vector);
        Opcode::from(number)
    }
}

/// The general register that the three bits of `instr` from bit `low`
/// upwards name.
pub open spec fn register_field(instr: u16, low: usize) -> Register {
    Register::numbered((instr >> low) & 0x7)
}

/// The destination register of an instruction that loads or computes, and
/// the source register of one that stores: bits 11 to 9.
pub open spec fn dr(instr: u16) -> Register {
    register_field(instr, 9)
}

/// The first source register, or the base register: bits 8 to 6.
pub open spec fn sr1(instr: u16) -> Register {
    register_field(instr, 6)
}

/// The second source register: bits 2 to 0.
pub open spec fn sr2(instr: u16) -> Register {
    register_field(instr, 0)
}

/// Whether bit 5 selects an immediate second operand.
pub open spec fn immediate_mode(instr: u16) -> bool {
    (instr >> 5) & 0x1 == 1
}

/// Whether bit 11 selects the form of JSR with an offset.
pub open spec fn long_mode(instr: u16) -> bool {
    (instr >> 11) & 0x1 == 1
}

/// The condition field of a branch: bits 11 to 9, one bit for each flag.
pub open spec fn condition(instr: u16) -> u16 {
    (instr >> 9) & 0x7
}

/// The 5-bit immediate operand, sign-extended.
pub open spec fn imm5(instr: u16) -> u16 {
    sign_extended(instr & 0x1F, 5)
}

/// The 6-bit offset from a base register, sign-extended.
pub open spec fn offset6(instr: u16) -> u16 {
    sign_extended(instr & 0x3F, 6)
}

/// The 9-bit offset from the program counter, sign-extended.
pub open spec fn offset9(instr: u16) -> u16 {
    sign_extended(instr & 0x1FF, 9)
}

/// The 11-bit offset from the program counter, sign-extended.
pub open spec fn offset11(instr: u16) -> u16 {
    sign_extended(instr & 0x7FF, 11)
}

/// The address that lies `offset9(instr)` words from the program counter,
/// wrapping round at the end of memory.
pub open spec fn pc_relative(regs: Map<Register, u16>, instr: u16) -> u16 {
    regs[Register::PC].wrapping_add(offset9(instr))
}

/// The address that lies `offset6(instr)` words from the word in the base
/// register, wrapping round at the end of memory.
pub open spec fn base_relative(regs: Map<Register, u16>, instr: u16) -> u16 {
    regs[sr1(instr)].wrapping_add(offset6(instr))
}

/// The registers after `value` has arrived in `reg`: `reg` holds it and
/// `COND` holds the flag that describes it.
pub open spec fn arrived(regs: Map<Register, u16>, reg: Register, value: u16) -> Map<
    Register,
    u16,
> {
    regs.insert(reg, value).insert(Register::COND, Flag::of(value).mask())
}

/// Whether a branch is taken: its condition field and `COND` share a bit.
pub open spec fn branch_taken(regs: Map<Register, u16>, instr: u16) -> bool {
    condition(instr) & regs[Register::COND] != 0
}

/// The second operand of ADD and AND: the immediate or the second source
/// register, as bit 5 says.
pub open spec fn second_operand(regs: Map<Register, u16>, instr: u16) -> u16 {
    if immediate_mode(instr) {
        imm5(instr)
    } else {
        regs[sr2(instr)]
    }
}

/// The registers and the memory after an instruction that touches memory.
pub struct Effect {
    pub registers: Map<Register, u16>,
    pub memory: MemoryView,
}

/// BR: if the condition field names the flag in `COND`, `PC` moves by the
/// 9-bit offset; otherwise nothing changes.
pub open spec fn branch_effect(regs: Map<Register, u16>, instr: u16) -> Map<Register, u16> {
    if branch_taken(regs, instr) {
        regs.insert(Register::PC, pc_relative(regs, instr))
    } else {
        regs
    }
}

/// ADD: the destination register receives the sum, modulo 2^16, of the
/// first source register and the second operand.
pub open spec fn add_effect(regs: Map<Register, u16>, instr: u16) -> Map<Register, u16> {
    arrived(regs, dr(instr), regs[sr1(instr)].wrapping_add(second_operand(regs, instr)))
}

/// AND: the destination register receives the bitwise and of the first
/// source register and the second operand.
pub open spec fn and_effect(regs: Map<Register, u16>, instr: u16) -> Map<Register, u16> {
    arrived(regs, dr(instr), regs[sr1(instr)] & second_operand(regs, instr))
}

/// NOT: the destination register receives the bitwise complement of the
/// source register.
pub open spec fn not_effect(regs: Map<Register, u16>, instr: u16) -> Map<Register, u16> {
    arrived(regs, dr(instr), !regs[sr1(instr)])
}

/// LD: the destination register receives the word read at `pc_relative`.
pub open spec fn load_effect(regs: Map<Register, u16>, mem: MemoryView, instr: u16) -> Effect {
    let address = pc_relative(regs, instr);
    Effect {
        registers: arrived(regs, dr(instr), mem.word_read(address)),
        memory: mem.after_read(address),
    }
}

/// ST: the word of the source register is written at `pc_relative`.
pub open spec fn store_effect(regs: Map<Register, u16>, mem: MemoryView, instr: u16) -> Effect {
    Effect {
        registers: regs,
        memory: mem.after_write(pc_relative(regs, instr), regs[dr(instr)]),
    }
}

/// JSR and JSRR: `R7` receives `PC`, then `PC` receives the target. With
/// bit 11 set the target lies `offset11` words from `PC`; otherwise it is the
/// word in the base register, read after `R7` was written, so that a jump
/// through `R7` lands on the return address.
pub open spec fn jump_to_subroutine_effect(regs: Map<Register, u16>, instr: u16) -> Map<
    Register,
    u16,
> {
    let saved = regs.insert(Register::R7, regs[Register::PC]);
    if long_mode(instr) {
        saved.insert(Register::PC, regs[Register::PC].wrapping_add(offset11(instr)))
    } else {
        saved.insert(Register::PC, saved[sr1(instr)])
    }
}

/// LDR: the destination register receives the word read at `base_relative`.
pub open spec fn load_register_effect(
    regs: Map<Register, u16>,
    mem: MemoryView,
    instr: u16,
) -> Effect {
    let address = base_relative(regs, instr);
    Effect {
        registers: arrived(regs, dr(instr), mem.word_read(address)),
        memory: mem.after_read(address),
    }
}

/// STR: the word of the source register is written at `base_relative`.
pub open spec fn store_register_effect(
    regs: Map<Register, u16>,
    mem: MemoryView,
    instr: u16,
) -> Effect {
    Effect {
        registers: regs,
        memory: mem.after_write(base_relative(regs, instr), regs[dr(instr)]),
    }
}

/// LDI: a pointer is read at `pc_relative`, then the destination register
/// receives the word read where it points. Both are reads of memory, and
/// either may poll the keyboard.
pub open spec fn load_indirect_effect(
    regs: Map<Register, u16>,
    mem: MemoryView,
    instr: u16,
) -> Effect {
    let pointer = mem.word_read(pc_relative(regs, instr));
    let mem = mem.after_read(pc_relative(regs, instr));
    Effect {
        registers: arrived(regs, dr(instr), mem.word_read(pointer)),
        memory: mem.after_read(pointer),
    }
}

/// STI: a pointer is read at `pc_relative`, then the word of the source
/// register is written where it points.
pub open spec fn store_indirect_effect(
    regs: Map<Register, u16>,
    mem: MemoryView,
    instr: u16,
) -> Effect {
    let pointer = mem.word_read(pc_relative(regs, instr));
    let mem = mem.after_read(pc_relative(regs, instr));
    Effect { registers: regs, memory: mem.after_write(pointer, regs[dr(instr)]) }
}

/// JMP: `PC` receives the word in the base register.
pub open spec fn jump_effect(regs: Map<Register, u16>, instr: u16) -> Map<Register, u16> {
    regs.insert(Register::PC, regs[sr1(instr)])
}

/// LEA: the destination register receives the address `pc_relative` itself.
pub open spec fn load_effective_address_effect(regs: Map<Register, u16>, instr: u16) -> Map<
    Register,
    u16,
> {
    arrived(regs, dr(instr), pc_relative(regs, instr))
}

/// Decodes the general register named by three bits of the instruction.
fn register_at(instr: u16, low: usize) -> (reg: Register)
    requires
        low <= 9,
    ensures
        reg == register_field(instr, low),
{
    let shifted = instr >> low;
    assert(shifted & 0x7 <= 7) by (bit_vector);
    Register::from(shifted & 0x7)
}

/// Sets `COND` to the flag that describes the word in `reg`.
pub fn update_flags(registers: &mut Registers, reg: Register)
    ensures
        final(registers)@ == old(registers)@.insert(
            Register::COND,
            Flag::of(old(registers)@[reg]).mask(),
        ),
{
    registers.update_flags(reg);
}

/// Executes BR: branches if a flag named by the condition field is set.
pub fn branch(registers: &mut Registers, instr: u16)
    ensures
        final(registers)@ == branch_effect(old(registers)@, instr),
{
    let pc_offset = sign_extend(instr & 0x1FF, 9);
    let instr_cond = (instr >> 9) & 0x7;
    let reg_cond = registers.read(Register::COND);

    if (instr_cond & reg_cond) != 0 {
        let pc = registers.read(Register::PC);
        registers.write(Register::PC, pc.wrapping_add(pc_offset));
    }
}

/// Executes ADD, with a register or an immediate as the second operand.
pub fn add(registers: &mut Registers, instr: u16)
    ensures
        final(registers)@ == add_effect(old(registers)@, instr),
{
    let r0 = register_at(instr, 9);
    let r1 = register_at(instr, 6);
    let imm_flag = (instr >> 5) & 0x1;

    if imm_flag == 1 {
        let imm5 = sign_extend(instr & 0x1F, 5);
        let result = registers.read(r1).wrapping_add(imm5);
        registers.write(r0, result);
    } else {
        let r2 = register_at(instr, 0);
        let result = registers.read(r1).wrapping_add(registers.read(r2));
        registers.write(r0, result);
    }

    registers.update_flags(r0);
}

/// Executes LD: loads from an address relative to `PC`.
pub fn load(registers: &mut Registers, memory: &mut Memory, instr: u16)
    ensures
        final(registers)@ == load_effect(old(registers)@, old(memory)@, instr).registers,
        final(memory)@ == load_effect(old(registers)@, old(memory)@, instr).memory,
{
    let r0 = register_at(instr, 9);
    let pc_offset = sign_extend(instr & 0x1FF, 9);
    let pc = registers.read(Register::PC);

    let address = pc.wrapping_add(pc_offset);
    let value = memory.read(address);
    registers.write(r0, value);

    registers.update_flags(r0);
}

/// Executes ST: stores at an address relative to `PC`.
pub fn store(registers: &mut Registers, memory: &mut Memory, instr: u16)
    ensures
        final(registers)@ == store_effect(old(registers)@, old(memory)@, instr).registers,
        final(memory)@ == store_effect(old(registers)@, old(memory)@, instr).memory,
{
    let r0 = register_at(instr, 9);
    let pc_offset = sign_extend(instr & 0x1FF, 9);
    let pc = registers.read(Register::PC);

    let address = pc.wrapping_add(pc_offset);
    let value = registers.read(r0);
    memory.write(address, value);
}

/// Executes JSR or JSRR: saves `PC` in `R7` and jumps.
pub fn jump_to_subroutine(registers: &mut Registers, instr: u16)
    ensures
        final(registers)@ == jump_to_subroutine_effect(old(registers)@, instr),
{
    let current_pc = registers.read(Register::PC);
    registers.write(Register::R7, current_pc);

    let long_flag = (instr >> 11) & 0x1;
    if long_flag == 1 {
        let long_pc_offset = sign_extend(instr & 0x7FF, 11);
        let new_pc = current_pc.wrapping_add(long_pc_offset);
        registers.write(Register::PC, new_pc);
    } else {
        let r1 = register_at(instr, 6);
        let new_pc = registers.read(r1);
        registers.write(Register::PC, new_pc);
    }
}

/// Executes AND, with a register or an immediate as the second operand.
pub fn and(registers: &mut Registers, instr: u16)
    ensures
        final(registers)@ == and_effect(old(registers)@, instr),
{
    let r0 = register_at(instr, 9);
    let r1 = register_at(instr, 6);
    let imm_flag = (instr >> 5) & 0x1;

    if imm_flag == 1 {
        let imm5 = sign_extend(instr & 0x1F, 5);
        let result = registers.read(r1) & imm5;
        registers.write(r0, result);
    } else {
        let r2 = register_at(instr, 0);
        let result = registers.read(r1) & registers.read(r2);
        registers.write(r0, result);
    }

    registers.update_flags(r0);
}

/// Executes LDR: loads from an address relative to a base register.
pub fn load_register(registers: &mut Registers, memory: &mut Memory, instr: u16)
    ensures
        final(registers)@ == load_register_effect(old(registers)@, old(memory)@, instr).registers,
        final(memory)@ == load_register_effect(old(registers)@, old(memory)@, instr).memory,
{
    let r0 = register_at(instr, 9);
    let r1 = register_at(instr, 6);
    let offset = sign_extend(instr & 0x3F, 6);

    let base_address = registers.read(r1);
    let final_address = base_address.wrapping_add(offset);
    let value = memory.read(final_address);
    registers.write(r0, value);

    registers.update_flags(r0);
}

/// Executes STR: stores at an address relative to a base register.
pub fn store_register(registers: &mut Registers, memory: &mut Memory, instr: u16)
    ensures
        final(registers)@ == store_register_effect(old(registers)@, old(memory)@, instr).registers,
        final(memory)@ == store_register_effect(old(registers)@, old(memory)@, instr).memory,
{
    let r0 = register_at(instr, 9);
    let r1 = register_at(instr, 6);
    let offset = sign_extend(instr & 0x3F, 6);

    let base_address = registers.read(r1);
    let final_address = base_address.wrapping_add(offset);
    let value = registers.read(r0);
    memory.write(final_address, value);
}

/// Executes NOT.
pub fn not(registers: &mut Registers, instr: u16)
    ensures
        final(registers)@ == not_effect(old(registers)@, instr),
{
    let r0 = register_at(instr, 9);
    let r1 = register_at(instr, 6);

    let result = !registers.read(r1);
    registers.write(r0, result);

    registers.update_flags(r0);
}

/// Executes LDI: loads through a pointer found relative to `PC`.
pub fn load_indirect(registers: &mut Registers, memory: &mut Memory, instr: u16)
    ensures
        final(registers)@ == load_indirect_effect(old(registers)@, old(memory)@, instr).registers,
        final(memory)@ == load_indirect_effect(old(registers)@, old(memory)@, instr).memory,
{
    let r0 = register_at(instr, 9);
    let pc_offset = sign_extend(instr & 0x1FF, 9);
    let pc = registers.read(Register::PC);

    let address = memory.read(pc.wrapping_add(pc_offset));
    let value = memory.read(address);
    registers.write(r0, value);

    registers.update_flags(r0);
}

/// Executes STI: stores through a pointer found relative to `PC`.
pub fn store_indirect(registers: &mut Registers, memory: &mut Memory, instr: u16)
    ensures
        final(registers)@ == store_indirect_effect(old(registers)@, old(memory)@, instr).registers,
        final(memory)@ == store_indirect_effect(old(registers)@, old(memory)@, instr).memory,
{
    let r0 = register_at(instr, 9);
    let pc_offset = sign_extend(instr & 0x1FF, 9);
    let pc = registers.read(Register::PC);

    let intermediate_address = pc.wrapping_add(pc_offset);
    let final_address = memory.read(intermediate_address);
    let value = registers.read(r0);
    memory.write(final_address, value);
}

/// Executes JMP. With `R7` as the base register this returns from a
/// subroutine.
pub fn jump(registers: &mut Registers, instr: u16)
    ensures
        final(registers)@ == jump_effect(old(registers)@, instr),
{
    let r1 = register_at(instr, 6);
    let target = registers.read(r1);
    registers.write(Register::PC, target);
}

/// Executes LEA.
pub fn load_effective_address(registers: &mut Registers, instr: u16)
    ensures
        final(registers)@ == load_effective_address_effect(old(registers)@, instr),
{
    let r0 = register_at(instr, 9);
    let pc_offset = sign_extend(instr & 0x1FF, 9);
    let pc = registers.read(Register::PC);

    let effective_address = pc.wrapping_add(pc_offset);
    registers.write(r0, effective_address);

    registers.update_flags(r0);
}

/// Every register field of an instruction names one of `R0` to `R7`: no
/// instruction word can name `PC` or `COND` as an operand.
pub proof fn lemma_register_fields_are_general(instr: u16)
    ensures
        dr(instr).number() <= 7,
        sr1(instr).number() <= 7,
        sr2(instr).number() <= 7,
{
    assert((instr >> 9usize) & 0x7 <= 7 && (instr >> 6usize) & 0x7 <= 7 && (instr >> 0usize) & 0x7
        <= 7) by (bit_vector);
}

/// The immediate and the offsets of an instruction are signed: the word that
/// takes part in the addition stands for the number that the field stands
/// for, which is negative where the top bit of the field is set.
pub proof fn lemma_fields_are_signed(instr: u16)
    ensures
        word_value(imm5(instr)) == field_value(instr & 0x1F, 5),
        word_value(offset6(instr)) == field_value(instr & 0x3F, 6),
        word_value(offset9(instr)) == field_value(instr & 0x1FF, 9),
        word_value(offset11(instr)) == field_value(instr & 0x7FF, 11),
        -16 <= word_value(imm5(instr)) < 16,
        -32 <= word_value(offset6(instr)) < 32,
        -256 <= word_value(offset9(instr)) < 256,
        -1024 <= word_value(offset11(instr)) < 1024,
{
    assert(instr & 0x1F < 32 && instr & 0x3F < 64 && instr & 0x1FF < 512 && instr & 0x7FF < 2048)
        by (bit_vector);
    lemma2_to64();
    lemma_sign_extend_keeps_value(instr & 0x1F, 5);
    lemma_sign_extend_keeps_value(instr & 0x3F, 6);
    lemma_sign_extend_keeps_value(instr & 0x1FF, 9);
    lemma_sign_extend_keeps_value(instr & 0x7FF, 11);
}

/// `COND` follows the destination register. After ADD, AND, NOT, LD, LDR,
/// LDI and LEA it shows the flag of the word that the destination register
/// has just received; BR, ST, STR, STI, JMP, JSR and JSRR leave it as it is.
pub proof fn lemma_cond_follows_destination(regs: Map<Register, u16>, mem: MemoryView, instr: u16)
    ensures
        add_effect(regs, instr)[Register::COND] == Flag::of(
            add_effect(regs, instr)[dr(instr)],
        ).mask(),
        and_effect(regs, instr)[Register::COND] == Flag::of(
            and_effect(regs, instr)[dr(instr)],
        ).mask(),
        not_effect(regs, instr)[Register::COND] == Flag::of(
            not_effect(regs, instr)[dr(instr)],
        ).mask(),
        load_effective_address_effect(regs, instr)[Register::COND] == Flag::of(
            load_effective_address_effect(regs, instr)[dr(instr)],
        ).mask(),
        load_effect(regs, mem, instr).registers[Register::COND] == Flag::of(
            load_effect(regs, mem, instr).registers[dr(instr)],
        ).mask(),
        load_register_effect(regs, mem, instr).registers[Register::COND] == Flag::of(
            load_register_effect(regs, mem, instr).registers[dr(instr)],
        ).mask(),
        load_indirect_effect(regs, mem, instr).registers[Register::COND] == Flag::of(
            load_indirect_effect(regs, mem, instr).registers[dr(instr)],
        ).mask(),
        branch_effect(regs, instr)[Register::COND] == regs[Register::COND],
        jump_effect(regs, instr)[Register::COND] == regs[Register::COND],
        jump_to_subroutine_effect(regs, instr)[Register::COND] == regs[Register::COND],
        store_effect(regs, mem, instr).registers[Register::COND] == regs[Register::COND],
        store_register_effect(regs, mem, instr).registers[Register::COND] == regs[Register::COND],
        store_indirect_effect(regs, mem, instr).registers[Register::COND] == regs[Register::COND],
{
    lemma_register_fields_are_general(instr);
}

/// A branch whose condition field names the flag in `COND` moves `PC` by the
/// signed 9-bit offset, modulo 2^16; any other branch changes nothing. No
/// branch changes another register.
pub proof fn lemma_branch(regs: Map<Register, u16>, instr: u16)
    ensures
        branch_taken(regs, instr) ==> branch_effect(regs, instr)[Register::PC] == (
        regs[Register::PC] + word_value(offset9(instr))) % 0x10000,
        !branch_taken(regs, instr) ==> branch_effect(regs, instr) == regs,
        forall|reg: Register|
            reg != Register::PC ==> #[trigger] branch_effect(regs, instr)[reg] == regs[reg],
{
    lemma_wrapping_add_is_signed(regs[Register::PC], offset9(instr));
}

/// JSR and JSRR save `PC` in `R7`. JSR then moves `PC` by the signed 11-bit
/// offset, modulo 2^16; JSRR sets `PC` to the word that the base register
/// then holds, which for `R7` is the saved `PC`. No other register changes.
pub proof fn lemma_jump_to_subroutine(regs: Map<Register, u16>, instr: u16)
    ensures
        jump_to_subroutine_effect(regs, instr)[Register::R7] == regs[Register::PC],
        long_mode(instr) ==> jump_to_subroutine_effect(regs, instr)[Register::PC] == (
        regs[Register::PC] + word_value(offset11(instr))) % 0x10000,
        !long_mode(instr) && sr1(instr) != Register::R7 ==> jump_to_subroutine_effect(
            regs,
            instr,
        )[Register::PC] == regs[sr1(instr)],
        !long_mode(instr) && sr1(instr) == Register::R7 ==> jump_to_subroutine_effect(
            regs,
            instr,
        )[Register::PC] == regs[Register::PC],
        forall|reg: Register|
            reg != Register::PC && reg != Register::R7 ==> #[trigger] jump_to_subroutine_effect(
                regs,
                instr,
            )[reg] == regs[reg],
{
    lemma_wrapping_add_is_signed(regs[Register::PC], offset11(instr));
}

/// LDI through a pointer: once `pointer` has been written at `pc_relative`,
/// LDI loads the word that `pointer` points to, and leaves memory as it is.
/// This holds where neither the pointer's place nor the pointer is the
/// keyboard status register, a read of which polls the keyboard.
pub proof fn lemma_load_indirect_follows_pointer(
    regs: Map<Register, u16>,
    mem: MemoryView,
    instr: u16,
    pointer: u16,
)
    requires
        pc_relative(regs, instr) != MemoryMappedRegister::KBSR.location(),
        pointer != MemoryMappedRegister::KBSR.location(),
    ensures
        ({
            let pointed = mem.after_write(pc_relative(regs, instr), pointer);
            let loaded = load_indirect_effect(regs, pointed, instr);
            &&& loaded.registers[dr(instr)] == pointed.cells[pointer]
            &&& loaded.memory == pointed
        }),
{
    lemma_register_fields_are_general(instr);
}

/// STI through a pointer: once `pointer` has been written at `pc_relative`,
/// STI stores the word of the source register where `pointer` points, and
/// changes no other word. This holds where the pointer's place is not the
/// keyboard status register.
pub proof fn lemma_store_indirect_follows_pointer(
    regs: Map<Register, u16>,
    mem: MemoryView,
    instr: u16,
    pointer: u16,
)
    requires
        pc_relative(regs, instr) != MemoryMappedRegister::KBSR.location(),
    ensures
        ({
            let pointed = mem.after_write(pc_relative(regs, instr), pointer);
            let stored = store_indirect_effect(regs, pointed, instr);
            &&& stored.memory == pointed.after_write(pointer, regs[dr(instr)])
            &&& stored.memory.cells[pointer] == regs[dr(instr)]
            &&& stored.registers == regs
        }),
{
}

/// STI and LDI are inverse to each other: a word stored by STI through the
/// pointer at some place is the word that LDI then loads through the pointer
/// at that place. This holds where neither the place nor the pointer is the
/// keyboard status register and the pointer does not point to its own
/// place, where the store would overwrite it.
pub proof fn lemma_store_indirect_then_load_indirect(
    regs: Map<Register, u16>,
    mem: MemoryView,
    store: u16,
    load: u16,
)
    requires
        pc_relative(regs, store) == pc_relative(regs, load),
        pc_relative(regs, store) != MemoryMappedRegister::KBSR.location(),
        mem.cells[pc_relative(regs, store)] != MemoryMappedRegister::KBSR.location(),
        mem.cells[pc_relative(regs, store)] != pc_relative(regs, store),
    ensures
        ({
            let stored = store_indirect_effect(regs, mem, store);
            let loaded = load_indirect_effect(stored.registers, stored.memory, load);
            &&& loaded.registers[dr(load)] == regs[dr(store)]
            &&& loaded.memory == stored.memory
        }),
{
    lemma_register_fields_are_general(load);
}

} // verus!
