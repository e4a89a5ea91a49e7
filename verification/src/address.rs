//! Deterministic derivation of a record's storage address.
//!
//! A record lives at an address derived from the seeds `(title, owner)` under
//! the journal's fixed program id, together with a bump discriminant chosen by
//! the derivation search so that the address is a valid storage slot.  The
//! derivation is pure: the same seeds always yield the same outcome, so any
//! caller can re-derive both the address and the bump from the seeds alone.

use crate::errors::JournalError;
use vstd::prelude::*;

verus! {

/// A 32-byte identity: the key of a signer, a payer, or a derived storage
/// address.
pub type Pubkey = [u8; 32];

/// The outcome of the derivation search for seeds `(title, owner)` under
/// `program_id`: `None` when no viable bump exists, otherwise the 32-byte
/// address and the bump discriminant that produced it.
pub uninterp spec fn derived_address(
    title: Seq<u8>,
    owner: Seq<u8>,
    program_id: Seq<u8>,
) -> Option<(Seq<u8>, u8)>;

/// Relies on `Pubkey::try_find_program_address` of `solana-pubkey`, the crate
/// behind `anchor_lang`'s `Pubkey`: the bump search hashes the seed slices and
/// the program id and nothing else, so its outcome is a function of the three
/// arguments alone, and the returned address is 32 bytes.
#[verifier::external_body]
fn find_address(title: &Vec<u8>, owner: &Pubkey, program_id: &Pubkey) -> (r: Option<(
    [u8; 32],
    u8,
)>)
    ensures
        match r {
            Some(p) => derived_address(title@, owner@, program_id@) == Some((p.0@, p.1)),
            None => derived_address(title@, owner@, program_id@) is None,
        },
{
    let id = anchor_lang::prelude::Pubkey::new_from_array(*program_id);
    let seeds: [&[u8]; 2] = [title.as_slice(), owner.as_slice()];
    match anchor_lang::prelude::Pubkey::try_find_program_address(&seeds, &id) {
        Some((pk, bump)) => Some((pk.to_bytes(), bump)),
        None => None,
    }
}

/// The fixed program id under which every journal record is derived.
pub open spec fn spec_program_id() -> Seq<u8> {
    seq![
        186u8, 65u8, 205u8, 71u8, 58u8, 46u8, 122u8, 207u8, 119u8, 16u8, 115u8, 10u8, 114u8,
        223u8, 100u8, 138u8, 91u8, 97u8, 10u8, 61u8, 23u8, 208u8, 221u8, 9u8, 105u8, 242u8,
        214u8, 126u8, 117u8, 89u8, 139u8, 23u8,
    ]
}

/// Returns the journal's fixed program id.
pub fn program_id() -> (r: Pubkey)
    ensures
        r@ == spec_program_id(),
{
    let id: Pubkey = [
        186u8, 65u8, 205u8, 71u8, 58u8, 46u8, 122u8, 207u8, 119u8, 16u8, 115u8, 10u8, 114u8,
        223u8, 100u8, 138u8, 91u8, 97u8, 10u8, 61u8, 23u8, 208u8, 221u8, 9u8, 105u8, 242u8,
        214u8, 126u8, 117u8, 89u8, 139u8, 23u8,
    ];
    proof {
        assert(id@ =~= spec_program_id());
    }
    id
}

/// The derivation outcome for `(title, owner)` under the journal's program id.
pub open spec fn journal_address(title: Seq<u8>, owner: Seq<u8>) -> Option<(Seq<u8>, u8)> {
    derived_address(title, owner, spec_program_id())
}

/// Derives the storage address and bump discriminant of the record keyed by
/// `(title, owner)`, or reports that the derivation search is exhausted.
pub fn derive(title: &Vec<u8>, owner: &Pubkey) -> (r: Result<(Pubkey, u8), JournalError>)
    ensures
        match r {
            Ok(p) => journal_address(title@, owner@) == Some((p.0@, p.1)),
            Err(e) => {
                &&& e == JournalError::DerivationFailed
                &&& journal_address(title@, owner@) is None
            },
        },
{
    let id = program_id();
    match find_address(title, owner, &id) {
        Some(p) => Ok(p),
        None => Err(JournalError::DerivationFailed),
    }
}

/// Law: derivation is a pure function.  Any two derivation outcomes for the
/// same `(title, owner)` seeds — as two calls of `derive` return them — are
/// the same address and the same bump discriminant.
pub proof fn lemma_derive_deterministic(
    title: Seq<u8>,
    owner: Seq<u8>,
    r1: Option<(Seq<u8>, u8)>,
    r2: Option<(Seq<u8>, u8)>,
)
    requires
        r1 == journal_address(title, owner),
        r2 == journal_address(title, owner),
    ensures
        r1 == r2,
{
}

/// Compares two 32-byte identities.
pub fn pubkey_eq(a: &Pubkey, b: &Pubkey) -> (r: bool)
    ensures
        r == (a@ == b@),
{
    let mut i: usize = 0;
    while i < 32
        invariant
            0 <= i <= 32,
            forall|j: int| 0 <= j < i ==> a@[j] == b@[j],
        decreases 32 - i,
    {
        if a[i] != b[i] {
            assert(a@[i as int] != b@[i as int]);
            return false;
        }
        i += 1;
    }
    proof {
        assert(a@ =~= b@);
    }
    true
}

/// Authorization gate: a request may touch a record only when the presented,
/// signature-verified identity equals the record's stored owner.  Signature
/// verification itself happens at the runtime boundary before this check.
pub fn authorize(stored_owner: &Pubkey, presented: &Pubkey) -> (r: bool)
    ensures
        r == (stored_owner@ == presented@),
{
    pubkey_eq(stored_owner, presented)
}

} // verus!
