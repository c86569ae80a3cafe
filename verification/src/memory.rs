//! Byte-addressed read-write memory, stored word by word.

use vstd::prelude::*;
use std::collections::HashMap;
use crate::error::VMError;

verus! {

broadcast use vstd::std_specs::hash::group_hash_axioms;

/// Width of a memory access.
#[derive(Debug, Copy, Clone, PartialEq, Eq, Structural, Hash)]
pub enum MemAccessSize {
    Byte,
    HalfWord,
    Word,
}

impl MemAccessSize {
    /// Number of bytes that an access of this width touches.
    pub open spec fn bytes(self) -> u32 {
        match self {
            MemAccessSize::Byte => 1,
            MemAccessSize::HalfWord => 2,
            MemAccessSize::Word => 4,
        }
    }

    /// The bits of a value that an access of this width transfers.
    pub open spec fn mask(self) -> u32 {
        match self {
            MemAccessSize::Byte => 0xff,
            MemAccessSize::HalfWord => 0xffff,
            MemAccessSize::Word => 0xffff_ffff,
        }
    }
}

/// Whether `address` is a multiple of the access width.
pub open spec fn is_aligned(address: u32, size: MemAccessSize) -> bool {
    address % size.bytes() == 0
}

/// Address of the word that holds the byte at `address`.
pub open spec fn word_address(address: u32) -> u32 {
    (address - address % 4) as u32
}

/// Bit position, inside its word, of the byte at `address`.
pub open spec fn bit_offset(address: u32) -> u32 {
    (8 * (address % 4)) as u32
}

/// The word `word` after `value` was stored at `address` with width `size`.
pub open spec fn stored_word(word: u32, address: u32, size: MemAccessSize, value: u32) -> u32 {
    (word & !(size.mask() << bit_offset(address))) | ((value & size.mask()) << bit_offset(address))
}

/// The value that a load of width `size` from `address` finds in `word`.
pub open spec fn loaded_value(word: u32, address: u32, size: MemAccessSize) -> u32 {
    (word >> bit_offset(address)) & size.mask()
}

/// Record of one store.
#[derive(Debug, Copy, Clone, PartialEq, Eq, Structural)]
pub struct StoreOp {
    pub size: MemAccessSize,
    pub address: u32,
    /// The bits that were stored.
    pub value: u32,
    /// The bits that they replaced; zero where the word was never written.
    pub prev_value: u32,
}

/// Memory without a fixed size: a word exists once any of its bytes was stored to.
pub struct VariableMemory {
    words: HashMap<u32, u32>,
}

impl View for VariableMemory {
    type V = Map<u32, u32>;

    /// The words written so far, by word address.
    closed spec fn view(&self) -> Map<u32, u32> {
        self.words@
    }
}

impl VariableMemory {
    /// The word at `word_address`, zero where none was written.
    pub open spec fn word_or_zero(&self, word_address: u32) -> u32 {
        if self@.contains_key(word_address) {
            self@[word_address]
        } else {
            0
        }
    }

    /// Memory in which nothing was written.
    pub fn new() -> (memory: Self)
        ensures
            memory@ == Map::<u32, u32>::empty(),
    {
        VariableMemory { words: HashMap::new() }
    }

    /// Stores the low bits of `value` at `address`. The address must be a
    /// multiple of the access width; the other bytes of the word stay as they are.
    pub fn write(&mut self, address: u32, size: MemAccessSize, value: u32) -> (result: Result<
        StoreOp,
        VMError,
    >)
        ensures
            match result {
                Ok(op) => {
                    &&& is_aligned(address, size)
                    &&& final(self)@ == old(self)@.insert(
                        word_address(address),
                        stored_word(
                            old(self).word_or_zero(word_address(address)),
                            address,
                            size,
                            value,
                        ),
                    )
                    &&& op == (StoreOp {
                        size,
                        address,
                        value: value & size.mask(),
                        prev_value: loaded_value(
                            old(self).word_or_zero(word_address(address)),
                            address,
                            size,
                        ),
                    })
                },
                Err(e) => {
                    &&& !is_aligned(address, size)
                    &&& e == VMError::UnalignedMemoryWrite(address)
                    &&& final(self)@ == old(self)@
                },
            },
    {
        let (bytes, mask): (u32, u32) = match size {
            MemAccessSize::Byte => (1, 0xff),
            MemAccessSize::HalfWord => (2, 0xffff),
            MemAccessSize::Word => (4, 0xffff_ffff),
        };
        if address % bytes != 0 {
            return Err(VMError::UnalignedMemoryWrite(address));
        }
        let offset: u32 = 8 * (address % 4);
        let base: u32 = address - address % 4;
        let word: u32 = match self.words.get(&base) {
            Some(word) => *word,
            None => 0,
        };
        let data: u32 = value & mask;
        let updated: u32 = (word & !(mask << offset)) | (data << offset);
        let prev_value: u32 = (word >> offset) & mask;
        self.words.insert(base, updated);
        Ok(StoreOp { size, address, value: data, prev_value })
    }

    /// Loads the value of width `size` at `address`, zero-extended. The
    /// address must be a multiple of the access width and its word must have
    /// been written before.
    pub fn read(&self, address: u32, size: MemAccessSize) -> (result: Result<u32, VMError>)
        ensures
            result == if !is_aligned(address, size) {
                Err::<u32, VMError>(VMError::UnalignedMemoryRead(address))
            } else if !self@.contains_key(word_address(address)) {
                Err(VMError::InvalidMemoryAccess(address))
            } else {
                Ok(loaded_value(self@[word_address(address)], address, size))
            },
    {
        let (bytes, mask): (u32, u32) = match size {
            MemAccessSize::Byte => (1, 0xff),
            MemAccessSize::HalfWord => (2, 0xffff),
            MemAccessSize::Word => (4, 0xffff_ffff),
        };
        if address % bytes != 0 {
            return Err(VMError::UnalignedMemoryRead(address));
        }
        let offset: u32 = 8 * (address % 4);
        let base: u32 = address - address % 4;
        match self.words.get(&base) {
            Some(word) => Ok((*word >> offset) & mask),
            None => Err(VMError::InvalidMemoryAccess(address)),
        }
    }
}

impl Default for VariableMemory {
    fn default() -> (memory: Self)
        ensures
            memory@ == Map::<u32, u32>::empty(),
    {
        VariableMemory::new()
    }
}

/// A load sees what the last store of the same width to the same address left there.
pub proof fn lemma_load_after_store(word: u32, address: u32, size: MemAccessSize, value: u32)
    requires
        is_aligned(address, size),
    ensures
        loaded_value(stored_word(word, address, size, value), address, size) == value & size.mask(),
{
    let k: u32 = bit_offset(address);
    assert(k == 0 || k == 8 || k == 16 || k == 24);
    match size {
        MemAccessSize::Byte => {
            assert((((word & !(0xffu32 << k)) | ((value & 0xff) << k)) >> k) & 0xff == value & 0xff)
                by (bit_vector)
                requires
                    k == 0 || k == 8 || k == 16 || k == 24,
            ;
        },
        MemAccessSize::HalfWord => {
            assert(address % 2 == 0 ==> address % 4 == 0 || address % 4 == 2) by (bit_vector);
            assert(k == 0 || k == 16);
            assert((((word & !(0xffffu32 << k)) | ((value & 0xffff) << k)) >> k) & 0xffff == value
                & 0xffff) by (bit_vector)
                requires
                    k == 0 || k == 16,
            ;
        },
        MemAccessSize::Word => {
            assert(k == 0);
            assert((((word & !(0xffff_ffffu32 << 0u32)) | ((value & 0xffff_ffff) << 0u32)) >> 0u32)
                & 0xffff_ffff == value & 0xffff_ffff) by (bit_vector);
        },
    }
}

/// A store leaves the bytes of its word that it does not address as they were.
pub proof fn lemma_store_keeps_other_bytes(
    word: u32,
    address: u32,
    size: MemAccessSize,
    value: u32,
    other: u32,
)
    requires
        is_aligned(address, size),
        word_address(other) == word_address(address),
        other % 4 < address % 4 || other % 4 >= address % 4 + size.bytes(),
    ensures
        loaded_value(stored_word(word, address, size, value), other, MemAccessSize::Byte)
            == loaded_value(word, other, MemAccessSize::Byte),
{
    let k: u32 = bit_offset(address);
    let j: u32 = bit_offset(other);
    assert(k == 0 || k == 8 || k == 16 || k == 24);
    assert(j == 0 || j == 8 || j == 16 || j == 24);
    match size {
        MemAccessSize::Byte => {
            assert(j != k);
            assert((((word & !(0xffu32 << k)) | ((value & 0xff) << k)) >> j) & 0xff == (word >> j)
                & 0xff) by (bit_vector)
                requires
                    k == 0 || k == 8 || k == 16 || k == 24,
                    j == 0 || j == 8 || j == 16 || j == 24,
                    j != k,
            ;
        },
        MemAccessSize::HalfWord => {
            assert(address % 2 == 0 ==> address % 4 == 0 || address % 4 == 2) by (bit_vector);
            assert(k == 0 || k == 16);
            assert(k == 0 ==> j >= 16);
            assert(k == 16 ==> j < 16);
            assert((((word & !(0xffffu32 << k)) | ((value & 0xffff) << k)) >> j) & 0xff == (word
                >> j) & 0xff) by (bit_vector)
                requires
                    (k == 0 && (j == 16 || j == 24)) || (k == 16 && (j == 0 || j == 8)),
            ;
        },
        MemAccessSize::Word => {
            assert(false);
        },
    }
}

} // verus!
