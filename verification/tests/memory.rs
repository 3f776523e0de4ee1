use lc3_vm::hardware::memory::{Memory, MemoryMappedRegister, KEY_READY, MEMORY_SIZE};

#[test]
fn create_new_memory() {
    let memory = Memory::new();
    assert_eq!(memory.len(), MEMORY_SIZE);
    for address in 0..MEMORY_SIZE {
        assert_eq!(memory.peek(address as u16), 0);
    }
}

#[test]
fn read_regular_address() {
    let mut memory = Memory::new();
    memory.write(100, 1234);
    assert_eq!(memory.read(100), 1234);
}

#[test]
fn test_memory_write() {
    let mut memory = Memory::new();
    memory.write(200, 5678);
    assert_eq!(memory.read(200), 5678);
}

#[test]
fn memory_mapped_register_addresses() {
    assert_eq!(MemoryMappedRegister::KBSR.address(), 0xFE00);
    assert_eq!(MemoryMappedRegister::KBDR.address(), 0xFE02);
    assert_eq!(KEY_READY, 1 << 15);
    assert_eq!(MEMORY_SIZE, 1 << 16);
}

#[test]
fn write_reaches_first_and_last_address() {
    let mut memory = Memory::new();
    memory.write(0x0000, 0xAAAA);
    memory.write(0xFFFF, 0x5555);
    assert_eq!(memory.read(0x0000), 0xAAAA);
    assert_eq!(memory.read(0xFFFF), 0x5555);
    assert_eq!(memory.read(0x0001), 0);
    assert_eq!(memory.read(0xFFFE), 0);
}

#[test]
fn write_replaces_only_the_addressed_word() {
    let mut memory = Memory::new();
    memory.write(300, 1);
    memory.write(301, 2);
    memory.write(300, 3);
    assert_eq!(memory.read(300), 3);
    assert_eq!(memory.read(301), 2);
}

#[test]
fn status_read_without_key_clears_the_status() {
    let mut memory = Memory::new();
    memory.write(0xFE00, 0x1234);
    assert_eq!(memory.read(0xFE00), 0);
    assert_eq!(memory.peek(0xFE00), 0);
    assert_eq!(memory.peek(0xFE02), 0);
}

#[test]
fn status_read_with_key_latches_the_key() {
    let mut memory = Memory::new();
    assert!(memory.offer_key(b'a'));
    assert!(memory.key_pending());
    assert_eq!(memory.read(0xFE00), 0x8000);
    assert_eq!(memory.read(0xFE02), u16::from(b'a'));
    assert!(!memory.key_pending());
    // The key was consumed: the next poll finds none.
    assert_eq!(memory.read(0xFE00), 0);
    // The data register keeps the last key.
    assert_eq!(memory.read(0xFE02), u16::from(b'a'));
}

#[test]
fn status_read_latches_a_zero_key() {
    let mut memory = Memory::new();
    memory.write(0xFE02, 0x00FF);
    assert!(memory.offer_key(0));
    assert_eq!(memory.read(0xFE00), 0x8000);
    assert_eq!(memory.read(0xFE02), 0);
}

#[test]
fn data_read_does_not_poll() {
    let mut memory = Memory::new();
    assert!(memory.offer_key(b'x'));
    assert_eq!(memory.read(0xFE02), 0);
    assert!(memory.key_pending());
    assert_eq!(memory.peek(0xFE00), 0);
}

#[test]
fn peek_does_not_poll() {
    let mut memory = Memory::new();
    assert!(memory.offer_key(b'x'));
    assert_eq!(memory.peek(0xFE00), 0);
    assert!(memory.key_pending());
}

#[test]
fn keyboard_holds_one_key() {
    let mut memory = Memory::new();
    assert!(!memory.key_pending());
    assert!(memory.offer_key(b'1'));
    assert!(!memory.offer_key(b'2'));
    assert_eq!(memory.take_key(), Some(b'1'));
    assert_eq!(memory.take_key(), None);
    assert!(memory.offer_key(b'3'));
    assert_eq!(memory.take_key(), Some(b'3'));
}

#[test]
fn write_to_status_has_no_side_effect() {
    let mut memory = Memory::new();
    assert!(memory.offer_key(b'k'));
    memory.write(0xFE00, 0x4242);
    assert_eq!(memory.peek(0xFE00), 0x4242);
    assert!(memory.key_pending());
}

#[test]
fn default_memory_is_new() {
    let mut memory = Memory::default();
    assert!(!memory.key_pending());
    assert_eq!(memory.read(0x3000), 0);
    assert_eq!(memory.len(), MEMORY_SIZE);
}
