//! Memory, with the keyboard mapped into it.

use vstd::prelude::*;

verus! {

/// The number of words of memory: one for each 16-bit address.
pub const MEMORY_SIZE: usize = 65536;

/// What the keyboard status register holds when a key is ready: bit 15.
pub const KEY_READY: u16 = 0x8000;

/// The addresses through which a program sees the keyboard.
#[derive(Clone, Copy, Debug, PartialEq, Eq, Structural)]
pub enum MemoryMappedRegister {
    /// Keyboard status register: reading it polls the keyboard.
    KBSR,
    /// Keyboard data register: holds the key that the last poll found.
    KBDR,
}

impl MemoryMappedRegister {
    /// The register's address: `0xFE00` for `KBSR`, `0xFE02` for `KBDR`.
    pub open spec fn location(self) -> u16 {
        match self {
            MemoryMappedRegister::KBSR => 0xFE00,
            MemoryMappedRegister::KBDR => 0xFE02,
        }
    }

    /// Returns the register's address.
    pub fn address(self) -> (a: u16)
        ensures
            a == self.location(),
    {
        match self {
            MemoryMappedRegister::KBSR => 0xFE00,
            MemoryMappedRegister::KBDR => 0xFE02,
        }
    }
}

/// What a `Memory` holds: a word at every address, and the key that the host
/// has handed over and no program has taken yet, if there is one.
pub struct MemoryView {
    pub cells: Map<u16, u16>,
    pub key: Option<u8>,
}

impl MemoryView {
    /// A memory of zeros with no key waiting.
    pub open spec fn blank() -> MemoryView {
        MemoryView { cells: Map::total(|address: u16| 0u16), key: None }
    }

    /// The memory after a poll of the keyboard. A waiting key moves into the
    /// data register and the status register shows `KEY_READY`; with no key
    /// waiting the status register is cleared.
    pub open spec fn polled(self) -> MemoryView {
        match self.key {
            Some(key) => MemoryView {
                cells: self.cells.insert(MemoryMappedRegister::KBSR.location(), KEY_READY).insert(
                    MemoryMappedRegister::KBDR.location(),
                    key as u16,
                ),
                key: None,
            },
            None => MemoryView {
                cells: self.cells.insert(MemoryMappedRegister::KBSR.location(), 0),
                key: None,
            },
        }
    }

    /// The memory after a read at `address`: a read of the status register
    /// polls the keyboard, a read anywhere else changes nothing.
    pub open spec fn after_read(self, address: u16) -> MemoryView {
        if address == MemoryMappedRegister::KBSR.location() {
            self.polled()
        } else {
            self
        }
    }

    /// The word that a read at `address` returns.
    pub open spec fn word_read(self, address: u16) -> u16 {
        self.after_read(address).cells[address]
    }

    /// The memory after `value` is written at `address`.
    pub open spec fn after_write(self, address: u16, value: u16) -> MemoryView {
        MemoryView { cells: self.cells.insert(address, value), key: self.key }
    }
}

/// The memory of the machine.
pub struct Memory {
    memory: [u16; MEMORY_SIZE],
    keyboard: Option<u8>,
}

impl View for Memory {
    type V = MemoryView;

    closed spec fn view(&self) -> MemoryView {
        MemoryView {
            cells: Map::total(|address: u16| self.memory@[address as int]),
            key: self.keyboard,
        }
    }
}

/// A read returns what was last written. Away from the keyboard status
/// register, a read at an address that was just written returns the value
/// written and changes nothing, and a write changes no other address.
pub proof fn lemma_read_returns_last_write(mem: MemoryView, address: u16, value: u16, other: u16)
    requires
        address != MemoryMappedRegister::KBSR.location(),
        other != address,
    ensures
        mem.after_write(address, value).word_read(address) == value,
        mem.after_write(address, value).after_read(address) == mem.after_write(address, value),
        mem.after_write(address, value).cells[other] == mem.cells[other],
        mem.after_write(address, value).key == mem.key,
{
}

/// Every address holds a word.
pub broadcast proof fn lemma_memory_is_total(memory: Memory)
    ensures
        #[trigger] memory@.cells.dom() == Set::<u16>::full(),
{
}

impl Default for Memory {
    /// A memory of zeros with no key waiting.
    fn default() -> (memory: Memory)
        ensures
            memory@ == MemoryView::blank(),
    {
        Memory::new()
    }
}

impl Memory {
    /// Creates a memory of zeros with no key waiting.
    pub fn new() -> (memory: Memory)
        ensures
            memory@ == MemoryView::blank(),
    {
        let memory = Memory { memory: [0u16; MEMORY_SIZE], keyboard: None };
        assert(memory@.cells =~= MemoryView::blank().cells);
        memory
    }

    /// Returns the number of words.
    pub fn len(&self) -> (n: usize)
        ensures
            n == MEMORY_SIZE,
    {
        MEMORY_SIZE
    }

    /// Reads the word at `address`. Reading the keyboard status register
    /// polls the keyboard first, which never waits: it finds the key that the
    /// host has handed over or finds none. No other read changes anything.
    pub fn read(&mut self, address: u16) -> (word: u16)
        ensures
            word == old(self)@.word_read(address),
            final(self)@ == old(self)@.after_read(address),
    {
        if address == MemoryMappedRegister::KBSR.address() {
            match self.keyboard {
                Some(key) => {
                    self.memory[address as usize] = KEY_READY;
                    self.memory[MemoryMappedRegister::KBDR.address() as usize] = key as u16;
                    self.keyboard = None;
                },
                None => {
                    self.memory[address as usize] = 0;
                },
            }
        }
        assert(self@.cells =~= old(self)@.after_read(address).cells);
        self.memory[address as usize]
    }

    /// Returns the word at `address` without polling the keyboard.
    pub fn peek(&self, address: u16) -> (word: u16)
        ensures
            word == self@.cells[address],
    {
        self.memory[address as usize]
    }

    /// Stores `value` at `address`. No address is protected and no write has
    /// a side effect.
    pub fn write(&mut self, address: u16, value: u16)
        ensures
            final(self)@ == old(self)@.after_write(address, value),
    {
        self.memory[address as usize] = value;
        assert(self@.cells =~= old(self)@.after_write(address, value).cells);
    }

    /// Tells whether a key is waiting to be taken.
    pub fn key_pending(&self) -> (pending: bool)
        ensures
            pending == self@.key.is_some(),
    {
        self.keyboard.is_some()
    }

    /// Hands a key from the host to the keyboard. The keyboard holds one key
    /// at a time: the key is accepted if none is waiting and refused
    /// otherwise.
    pub fn offer_key(&mut self, key: u8) -> (accepted: bool)
        ensures
            accepted == old(self)@.key.is_none(),
            final(self)@.cells == old(self)@.cells,
            final(self)@.key == (if accepted {
                Some(key)
            } else {
                old(self)@.key
            }),
    {
        if self.keyboard.is_none() {
            self.keyboard = Some(key);
            true
        } else {
            false
        }
    }

    /// Takes the waiting key, if there is one, without touching any word.
    pub fn take_key(&mut self) -> (key: Option<u8>)
        ensures
            key == old(self)@.key,
            final(self)@.cells == old(self)@.cells,
            final(self)@.key.is_none(),
    {
        let key = self.keyboard;
        self.keyboard = None;
        key
    }
}

} // verus!
