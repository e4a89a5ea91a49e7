//! Space accounting for a stored journal record.
//!
//! Every record is allocated at its maximum declared size, independent of the
//! actual payload length: a fixed header (discriminator plus owner identity)
//! followed by the maximum-length encodings of the title and of the message,
//! each a four-byte length prefix plus the capped payload bytes.

use vstd::prelude::*;

verus! {

/// Bytes of the leading discriminator tag of every stored record.
pub const DISCRIMINATOR_SIZE: usize = 8;

/// Bytes of the fixed-width owner identity stored after the discriminator.
pub const OWNER_SIZE: usize = 32;

/// Bytes of the little-endian length prefix in front of each payload field.
pub const LEN_PREFIX_SIZE: usize = 4;

/// Maximum length, in bytes, of a record title.
pub const MAX_TITLE_LEN: usize = 50;

/// Maximum length, in bytes, of a record message.
pub const MAX_MESSAGE_LEN: usize = 1000;

/// Fixed header: discriminator plus owner identity.
pub const HEADER_SIZE: usize = DISCRIMINATOR_SIZE + OWNER_SIZE;

/// Bytes reserved for the title: length prefix plus maximum title length.
pub const MAX_TITLE_SPACE: usize = LEN_PREFIX_SIZE + MAX_TITLE_LEN;

/// Bytes reserved for the message: length prefix plus maximum message length.
pub const MAX_MESSAGE_SPACE: usize = LEN_PREFIX_SIZE + MAX_MESSAGE_LEN;

/// Total allocation of one record: header plus maximum-length encodings of
/// title and message.  Every record occupies exactly this many bytes.
pub const RECORD_SPACE: usize = HEADER_SIZE + MAX_TITLE_SPACE + MAX_MESSAGE_SPACE;

/// Offset of the title's length prefix inside a stored record.
pub const TITLE_LEN_OFFSET: usize = HEADER_SIZE;

/// Offset of the title's payload bytes inside a stored record.
pub const TITLE_OFFSET: usize = HEADER_SIZE + LEN_PREFIX_SIZE;

/// Offset of the message's length prefix inside a stored record.
pub const MESSAGE_LEN_OFFSET: usize = HEADER_SIZE + MAX_TITLE_SPACE;

/// Offset of the message's payload bytes inside a stored record.
pub const MESSAGE_OFFSET: usize = HEADER_SIZE + MAX_TITLE_SPACE + LEN_PREFIX_SIZE;

/// Lamports charged per allocated byte.
pub const RENT_PER_BYTE: u64 = 10;

/// Rent owed for one record's allocation.
pub const RECORD_RENT: u64 = 10980;

/// The rent owed for an allocation of `space` bytes.
pub open spec fn spec_rent_for(space: int) -> int {
    space * RENT_PER_BYTE
}

/// Computes the rent owed for an allocation of `space` bytes.
pub fn rent_for(space: usize) -> (r: u64)
    requires
        space <= RECORD_SPACE,
    ensures
        r == spec_rent_for(space as int),
{
    (space as u64) * RENT_PER_BYTE
}

} // verus!
