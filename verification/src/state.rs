//! The record schema: one journal entry per `(title, owner)` pair.

use crate::address::Pubkey;
use crate::space::{MAX_MESSAGE_LEN, MAX_TITLE_LEN, OWNER_SIZE};
use vstd::prelude::*;

verus! {

/// The mathematical model of a journal record: the owner identity, the title
/// key, and the message payload, each as a byte sequence.
pub struct RecordModel {
    pub owner: Seq<u8>,
    pub title: Seq<u8>,
    pub message: Seq<u8>,
}

/// A stored journal record.  `owner` and `title` are fixed at creation;
/// `message` is the only field an update may replace.
#[derive(Debug, PartialEq, Eq)]
pub struct JournalEntryState {
    /// The identity authorized to mutate and delete this record.
    pub owner: Pubkey,
    /// The short key of the record, part of the address-derivation seeds.
    pub title: Vec<u8>,
    /// The variable-length payload.
    pub message: Vec<u8>,
}

impl View for JournalEntryState {
    type V = RecordModel;

    open spec fn view(&self) -> RecordModel {
        RecordModel { owner: self.owner@, title: self.title@, message: self.message@ }
    }
}

/// A record the journal may hold: the owner is a full-width identity and the
/// two payload fields respect their declared maximum lengths.
pub open spec fn valid_record(r: RecordModel) -> bool {
    &&& r.owner.len() == OWNER_SIZE
    &&& r.title.len() <= MAX_TITLE_LEN
    &&& r.message.len() <= MAX_MESSAGE_LEN
}

/// Copies a byte vector.
pub fn copy_bytes(src: &Vec<u8>) -> (r: Vec<u8>)
    ensures
        r@ == src@,
{
    let mut r: Vec<u8> = Vec::new();
    let mut i: usize = 0;
    while i < src.len()
        invariant
            0 <= i <= src.len(),
            r@ == src@.take(i as int),
        decreases src.len() - i,
    {
        r.push(src[i]);
        proof {
            assert(r@ =~= src@.take(i + 1));
        }
        i += 1;
    }
    proof {
        assert(src@.take(src@.len() as int) =~= src@);
    }
    r
}

} // verus!
