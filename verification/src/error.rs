//! Errors raised while executing a program.

use vstd::prelude::*;

verus! {

/// Why the machine refused an instruction.
#[derive(Debug, Copy, Clone, PartialEq, Eq, Structural)]
pub enum VMError {
    /// The effective address of a load or store does not fit in 32 bits.
    AddressCalculationOverflow,
    /// A store to an address that is not a multiple of the access size.
    UnalignedMemoryWrite(u32),
    /// A load from an address that is not a multiple of the access size.
    UnalignedMemoryRead(u32),
    /// A load from a word that was never written.
    InvalidMemoryAccess(u32),
}

} // verus!
