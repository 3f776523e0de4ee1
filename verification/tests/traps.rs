use lc3_vm::hardware::flags::Flag;
use lc3_vm::hardware::memory::Memory;
use lc3_vm::hardware::registers::{Register, Registers, PC_START};
use lc3_vm::isa::traps::{
    execute, receive_key, Signal, TrapError, Trapcode, HALT_NOTICE, IN_PROMPT,
};

const GETC: u16 = 0xF020;
const OUT: u16 = 0xF021;
const PUTS: u16 = 0xF022;
const IN: u16 = 0xF023;
const PUTSP: u16 = 0xF024;
const HALT: u16 = 0xF025;

fn write_words(memory: &mut Memory, origin: u16, words: &[u16]) {
    let mut address = origin;
    for word in words {
        memory.write(address, *word);
        address = address.wrapping_add(1);
    }
}

#[test]
fn trap_vectors() {
    assert_eq!(Trapcode::decode(0x20), Some(Trapcode::GETC));
    assert_eq!(Trapcode::decode(0x21), Some(Trapcode::OUT));
    assert_eq!(Trapcode::decode(0x22), Some(Trapcode::PUTS));
    assert_eq!(Trapcode::decode(0x23), Some(Trapcode::IN));
    assert_eq!(Trapcode::decode(0x24), Some(Trapcode::PUTSP));
    assert_eq!(Trapcode::decode(0x25), Some(Trapcode::HALT));
    assert_eq!(Trapcode::decode(0x1F), None);
    assert_eq!(Trapcode::decode(0x26), None);
    assert_eq!(Trapcode::decode(0), None);
    assert_eq!(Trapcode::decode(0x120), None);
    assert_eq!(Trapcode::from(0x20), Trapcode::GETC);
    assert_eq!(Trapcode::from(0x25), Trapcode::HALT);
}

#[test]
fn notices() {
    assert_eq!(IN_PROMPT, "Enter a character: ");
    assert_eq!(HALT_NOTICE, "Program halted\n");
}

#[test]
fn every_trap_saves_pc_in_r7() {
    for instr in [GETC, OUT, PUTS, IN, PUTSP, HALT, 0xF0FF] {
        let mut registers = Registers::new();
        let mut memory = Memory::new();
        registers.write(Register::PC, 0x3456);
        let _ = execute(&mut registers, &mut memory, instr);
        assert_eq!(registers.read(Register::R7), 0x3456);
        assert_eq!(registers.read(Register::PC), 0x3456);
    }
}

#[test]
fn getc_takes_the_waiting_key() {
    let mut registers = Registers::new();
    let mut memory = Memory::new();
    assert!(memory.offer_key(b'A'));
    let outcome = execute(&mut registers, &mut memory, GETC).unwrap();
    assert_eq!(outcome.signal, Signal::Continue);
    assert!(outcome.output.is_empty());
    assert_eq!(registers.read(Register::R0), 0x41);
    assert_eq!(registers.read(Register::COND), Flag::POS.bits());
    assert!(!memory.key_pending());
    // The keyboard registers are not touched by a trap.
    assert_eq!(memory.peek(0xFE00), 0);
    assert_eq!(memory.peek(0xFE02), 0);
}

#[test]
fn getc_of_a_zero_key_sets_the_zero_flag() {
    let mut registers = Registers::new();
    let mut memory = Memory::new();
    registers.write(Register::R0, 5);
    registers.write(Register::COND, Flag::POS.bits());
    assert!(memory.offer_key(0));
    let outcome = execute(&mut registers, &mut memory, GETC).unwrap();
    assert_eq!(outcome.signal, Signal::Continue);
    assert_eq!(registers.read(Register::R0), 0);
    assert_eq!(registers.read(Register::COND), Flag::ZRO.bits());
}

#[test]
fn getc_without_key_waits() {
    let mut registers = Registers::new();
    let mut memory = Memory::new();
    registers.write(Register::R0, 0x1111);
    let outcome = execute(&mut registers, &mut memory, GETC).unwrap();
    assert_eq!(outcome.signal, Signal::AwaitKey { echo: false });
    assert!(outcome.output.is_empty());
    assert_eq!(registers.read(Register::R0), 0x1111);
    assert_eq!(registers.read(Register::R7), PC_START);

    let output = receive_key(&mut registers, 0xE9, false);
    assert!(output.is_empty());
    assert_eq!(registers.read(Register::R0), 0x00E9);
    assert_eq!(registers.read(Register::COND), Flag::POS.bits());
}

#[test]
fn out_prints_the_low_byte_of_r0() {
    let mut registers = Registers::new();
    let mut memory = Memory::new();
    registers.write(Register::R0, 0x1248);
    let outcome = execute(&mut registers, &mut memory, OUT).unwrap();
    assert_eq!(outcome.output, vec![0x48]);
    assert_eq!(outcome.signal, Signal::Continue);
    assert_eq!(registers.read(Register::R0), 0x1248);
    assert_eq!(registers.read(Register::COND), Flag::ZRO.bits());
}

#[test]
fn puts_prints_up_to_the_zero_word() {
    let mut registers = Registers::new();
    let mut memory = Memory::new();
    write_words(&mut memory, 0x4000, &[0x48, 0x69, 0x21, 0, 0x58]);
    registers.write(Register::R0, 0x4000);
    let outcome = execute(&mut registers, &mut memory, PUTS).unwrap();
    assert_eq!(outcome.output, b"Hi!".to_vec());
    assert_eq!(outcome.signal, Signal::Continue);
    assert_eq!(registers.read(Register::R0), 0x4000);
}

#[test]
fn puts_of_an_empty_string_prints_nothing() {
    let mut registers = Registers::new();
    let mut memory = Memory::new();
    registers.write(Register::R0, 0x4000);
    let outcome = execute(&mut registers, &mut memory, PUTS).unwrap();
    assert!(outcome.output.is_empty());
}

#[test]
fn puts_prints_one_character_to_a_word() {
    let mut registers = Registers::new();
    let mut memory = Memory::new();
    // The high byte of a word is not a second character.
    write_words(&mut memory, 0x4000, &[0x4142, 0x0100, 0x0043, 0]);
    registers.write(Register::R0, 0x4000);
    let outcome = execute(&mut registers, &mut memory, PUTS).unwrap();
    assert_eq!(outcome.output, vec![0x42, 0x00, 0x43]);
}

#[test]
fn puts_wraps_round_the_end_of_memory() {
    let mut registers = Registers::new();
    let mut memory = Memory::new();
    write_words(&mut memory, 0xFFFE, &[0x61, 0x62, 0x63, 0]);
    registers.write(Register::R0, 0xFFFE);
    let outcome = execute(&mut registers, &mut memory, PUTS).unwrap();
    assert_eq!(outcome.output, b"abc".to_vec());
}

#[test]
fn puts_reads_the_status_register_like_any_read() {
    let mut registers = Registers::new();
    let mut memory = Memory::new();
    write_words(&mut memory, 0xFDFE, &[0x61, 0x62, 0x1234, 0x63]);
    registers.write(Register::R0, 0xFDFE);
    // Without a key the status register reads as zero and ends the string.
    let outcome = execute(&mut registers, &mut memory, PUTS).unwrap();
    assert_eq!(outcome.output, b"ab".to_vec());
    assert_eq!(memory.peek(0xFE00), 0);

    // With a key it reads as 0x8000, whose low byte is printed, and the key
    // moves to the data register, which the scan reads next.
    write_words(&mut memory, 0xFE01, &[0x63, 0, 0]);
    assert!(memory.offer_key(b'k'));
    let outcome = execute(&mut registers, &mut memory, PUTS).unwrap();
    assert_eq!(outcome.output, vec![0x61, 0x62, 0x00, 0x63, b'k']);
    assert!(!memory.key_pending());
    assert_eq!(memory.peek(0xFE00), 0x8000);
}

#[test]
fn puts_ends_in_a_memory_without_zero() {
    let mut registers = Registers::new();
    let mut memory = Memory::new();
    for address in 0..=0xFFFFu16 {
        memory.write(address, 0x41);
    }
    registers.write(Register::R0, 0xFE01);
    let outcome = execute(&mut registers, &mut memory, PUTS).unwrap();
    // Every word but the status register is printed once.
    assert_eq!(outcome.output.len(), 0xFFFF);
    assert!(outcome.output.iter().all(|byte| *byte == 0x41));
}

#[test]
fn in_with_waiting_key_prompts_and_echoes() {
    let mut registers = Registers::new();
    let mut memory = Memory::new();
    assert!(memory.offer_key(b'y'));
    let outcome = execute(&mut registers, &mut memory, IN).unwrap();
    assert_eq!(outcome.output, b"Enter a character: y".to_vec());
    assert_eq!(outcome.signal, Signal::Continue);
    assert_eq!(registers.read(Register::R0), u16::from(b'y'));
    assert_eq!(registers.read(Register::COND), Flag::POS.bits());
    assert!(!memory.key_pending());
}

#[test]
fn in_without_key_prompts_and_waits() {
    let mut registers = Registers::new();
    let mut memory = Memory::new();
    let outcome = execute(&mut registers, &mut memory, IN).unwrap();
    assert_eq!(outcome.output, b"Enter a character: ".to_vec());
    assert_eq!(outcome.signal, Signal::AwaitKey { echo: true });
    assert_eq!(registers.read(Register::R0), 0);

    let output = receive_key(&mut registers, b'n', true);
    assert_eq!(output, vec![b'n']);
    assert_eq!(registers.read(Register::R0), u16::from(b'n'));
    assert_eq!(registers.read(Register::COND), Flag::POS.bits());
}

#[test]
fn putsp_prints_two_characters_to_a_word() {
    let mut registers = Registers::new();
    let mut memory = Memory::new();
    // "Hello!" packed low byte first.
    write_words(&mut memory, 0x4000, &[0x6548, 0x6C6C, 0x216F, 0x0000]);
    registers.write(Register::R0, 0x4000);
    let outcome = execute(&mut registers, &mut memory, PUTSP).unwrap();
    assert_eq!(outcome.output, b"Hello!".to_vec());
    assert_eq!(outcome.signal, Signal::Continue);
}

#[test]
fn putsp_of_odd_length_prints_the_last_low_byte() {
    let mut registers = Registers::new();
    let mut memory = Memory::new();
    // "Hey": the last word holds 'y' and a zero high byte.
    write_words(&mut memory, 0x4000, &[0x6548, 0x0079, 0x0000]);
    registers.write(Register::R0, 0x4000);
    let outcome = execute(&mut registers, &mut memory, PUTSP).unwrap();
    assert_eq!(outcome.output, b"Hey".to_vec());
}

#[test]
fn putsp_stops_at_the_first_zero_byte() {
    let mut registers = Registers::new();
    let mut memory = Memory::new();
    // A zero high byte ends the string although more words follow.
    write_words(&mut memory, 0x4000, &[0x0041, 0x4342, 0x0000]);
    registers.write(Register::R0, 0x4000);
    let outcome = execute(&mut registers, &mut memory, PUTSP).unwrap();
    assert_eq!(outcome.output, b"A".to_vec());

    // A zero low byte ends the string at once: the high byte is not printed.
    write_words(&mut memory, 0x5000, &[0x4241, 0x4300, 0x4544]);
    registers.write(Register::R0, 0x5000);
    let outcome = execute(&mut registers, &mut memory, PUTSP).unwrap();
    assert_eq!(outcome.output, b"AB".to_vec());
}

#[test]
fn putsp_of_an_empty_string_prints_nothing() {
    let mut registers = Registers::new();
    let mut memory = Memory::new();
    registers.write(Register::R0, 0x4000);
    let outcome = execute(&mut registers, &mut memory, PUTSP).unwrap();
    assert!(outcome.output.is_empty());
}

#[test]
fn putsp_ends_at_the_status_register() {
    let mut registers = Registers::new();
    let mut memory = Memory::new();
    for address in 0..=0xFFFFu16 {
        memory.write(address, 0x4241);
    }
    assert!(memory.offer_key(b'k'));
    registers.write(Register::R0, 0xFDFF);
    let outcome = execute(&mut registers, &mut memory, PUTSP).unwrap();
    // The status register reads as 0x8000, whose low byte is zero.
    assert_eq!(outcome.output, b"AB".to_vec());
    assert!(!memory.key_pending());
    assert_eq!(memory.peek(0xFE02), u16::from(b'k'));
}

#[test]
fn halt_prints_the_notice_and_signals() {
    let mut registers = Registers::new();
    let mut memory = Memory::new();
    registers.write(Register::R0, 9);
    let outcome = execute(&mut registers, &mut memory, HALT).unwrap();
    assert_eq!(outcome.output, b"Program halted\n".to_vec());
    assert_eq!(outcome.signal, Signal::Halt);
    assert_eq!(registers.read(Register::R0), 9);
    assert_eq!(registers.read(Register::PC), PC_START);
}

#[test]
fn unknown_trap_is_an_error() {
    let mut registers = Registers::new();
    let mut memory = Memory::new();
    let result = execute(&mut registers, &mut memory, 0xF026);
    assert_eq!(result.unwrap_err(), TrapError::UnknownTrap(0x26));
    let result = execute(&mut registers, &mut memory, 0xF000);
    assert_eq!(result.unwrap_err(), TrapError::UnknownTrap(0x00));
    let result = execute(&mut registers, &mut memory, 0xF0FF);
    assert_eq!(result.unwrap_err(), TrapError::UnknownTrap(0xFF));
    let result = execute(&mut registers, &mut memory, 0xF01F);
    assert_eq!(result.unwrap_err(), TrapError::UnknownTrap(0x1F));
}

#[test]
fn only_the_low_byte_selects_the_routine() {
    let mut registers = Registers::new();
    let mut memory = Memory::new();
    // Bits 11 to 8 of a TRAP instruction are ignored.
    let outcome = execute(&mut registers, &mut memory, 0xFF25).unwrap();
    assert_eq!(outcome.signal, Signal::Halt);
    let outcome = execute(&mut registers, &mut memory, 0x0025).unwrap();
    assert_eq!(outcome.signal, Signal::Halt);
}
