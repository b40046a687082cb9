//! The reasons for which an access or an instruction is refused.
use vstd::prelude::*;

verus! {

/// Why a memory access or an instruction could not be carried out.
#[derive(Debug, Clone, Copy, PartialEq, Eq, Structural)]
pub enum Fault {
    /// The address lies below the memory base, or the access runs past the
    /// end of the byte store.
    AddressRange,
    /// The access width is none of 8, 16, 32 and 64 bits.
    UnsupportedWidth,
    /// The low seven bits of the instruction word name no known format.
    UnimplementedOpcode,
    /// The format is known, but its function fields select an operation that
    /// the core does not carry out.
    DecodeFailure,
}

} // verus!
