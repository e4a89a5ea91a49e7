//! The reasons a journal operation can be rejected.

use vstd::prelude::*;

verus! {

/// Why an operation on the journal was rejected.  Every rejection leaves the
/// journal, the record allocations, and all balances exactly as they were
/// before the call.
#[derive(Clone, Copy, Debug, PartialEq, Eq, Structural)]
pub enum JournalError {
    /// A create collided with a record already stored at the derived address.
    AlreadyExists,
    /// An update, delete, or read found no record at the derived address.
    NotFound,
    /// The authenticated signer does not match the record's stored owner.
    Unauthorized,
    /// The payer cannot fund the allocation of a new record.
    InsufficientFunds,
    /// The payer cannot fund the growth of an existing allocation.
    PayerShortfall,
    /// The bump search found no viable derived address for the seeds.
    DerivationFailed,
    /// The title or the message exceeds its declared maximum length.
    CapacityExceeded,
}

} // verus!
