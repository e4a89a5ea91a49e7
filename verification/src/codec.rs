//! The persisted byte layout of a journal record.
//!
//! A record is stored in exactly [`RECORD_SPACE`](crate::space::RECORD_SPACE)
//! bytes: the eight-byte discriminator tag, the 32-byte owner identity, then
//! the title and the message, each as a four-byte little-endian length prefix
//! followed by the payload padded with zero bytes up to its maximum length.
//! Padding with zeros on every write is what keeps a shrinking message from
//! leaving stale payload bytes behind in the allocation.

use crate::address::Pubkey;
use crate::space::{
    DISCRIMINATOR_SIZE, HEADER_SIZE, MAX_MESSAGE_LEN, MAX_TITLE_LEN, MESSAGE_LEN_OFFSET,
    MESSAGE_OFFSET, RECORD_SPACE, TITLE_LEN_OFFSET, TITLE_OFFSET,
};
use crate::state::{valid_record, JournalEntryState, RecordModel};
use vstd::bytes::{
    lemma_auto_spec_u32_to_from_le_bytes, spec_u32_from_le_bytes, spec_u32_to_le_bytes,
    u32_from_le_bytes, u32_to_le_bytes,
};
use vstd::prelude::*;
use vstd::slice::slice_subrange;

verus! {

/// The eight tag bytes that open every stored record.
pub open spec fn discriminator_bytes() -> Seq<u8> {
    seq![106u8, 111u8, 117u8, 114u8, 110u8, 97u8, 108u8, 33u8]
}

/// `n` zero bytes.
pub open spec fn zero_bytes(n: nat) -> Seq<u8> {
    Seq::new(n, |i: int| 0u8)
}

/// A payload field as stored: its length as a little-endian `u32`, the payload
/// bytes, and zero padding up to the field's maximum length `cap`.
pub open spec fn spec_len_prefixed(bytes: Seq<u8>, cap: int) -> Seq<u8>
    recommends
        bytes.len() <= cap,
{
    spec_u32_to_le_bytes(bytes.len() as u32) + bytes + zero_bytes((cap - bytes.len()) as nat)
}

/// The full stored form of a record.
pub open spec fn spec_encode(r: RecordModel) -> Seq<u8> {
    discriminator_bytes() + r.owner + spec_len_prefixed(r.title, MAX_TITLE_LEN as int)
        + spec_len_prefixed(r.message, MAX_MESSAGE_LEN as int)
}

/// The stored form of a valid record fills its allocation exactly.
pub proof fn lemma_spec_encode_len(r: RecordModel)
    requires
        valid_record(r),
    ensures
        spec_encode(r).len() == RECORD_SPACE,
{
    lemma_auto_spec_u32_to_from_le_bytes();
}

/// Appends `src` to `d`.
fn push_bytes(d: &mut Vec<u8>, src: &Vec<u8>)
    ensures
        final(d)@ == old(d)@ + src@,
{
    let mut i: usize = 0;
    while i < src.len()
        invariant
            0 <= i <= src.len(),
            d@ == old(d)@ + src@.take(i as int),
        decreases src.len() - i,
    {
        d.push(src[i]);
        proof {
            assert(d@ =~= old(d)@ + src@.take(i + 1));
        }
        i += 1;
    }
    proof {
        assert(old(d)@ + src@.take(src@.len() as int) =~= old(d)@ + src@);
    }
}

/// Appends `n` zero bytes to `d`.
fn push_zeros(d: &mut Vec<u8>, n: usize)
    ensures
        final(d)@ == old(d)@ + zero_bytes(n as nat),
{
    let mut i: usize = 0;
    while i < n
        invariant
            0 <= i <= n,
            d@ == old(d)@ + zero_bytes(i as nat),
        decreases n - i,
    {
        d.push(0u8);
        proof {
            assert(d@ =~= old(d)@ + zero_bytes((i + 1) as nat));
        }
        i += 1;
    }
}

/// Appends the 32 owner bytes to `d`.
fn push_owner(d: &mut Vec<u8>, owner: &Pubkey)
    ensures
        final(d)@ == old(d)@ + owner@,
{
    let mut i: usize = 0;
    while i < 32
        invariant
            0 <= i <= 32,
            d@ == old(d)@ + owner@.take(i as int),
        decreases 32 - i,
    {
        d.push(owner[i]);
        proof {
            assert(d@ =~= old(d)@ + owner@.take(i + 1));
        }
        i += 1;
    }
    proof {
        assert(old(d)@ + owner@.take(32) =~= old(d)@ + owner@);
    }
}

/// Appends a length-prefixed, zero-padded payload field to `d`.
fn push_len_prefixed(d: &mut Vec<u8>, src: &Vec<u8>, cap: usize)
    requires
        src@.len() <= cap,
        cap <= MAX_MESSAGE_LEN,
    ensures
        final(d)@ == old(d)@ + spec_len_prefixed(src@, cap as int),
{
    let len_bytes = u32_to_le_bytes(src.len() as u32);
    push_bytes(d, &len_bytes);
    push_bytes(d, src);
    push_zeros(d, cap - src.len());
    proof {
        assert(d@ =~= old(d)@ + spec_len_prefixed(src@, cap as int));
    }
}

/// Serializes a record into its stored form: the discriminator, the owner,
/// and the two zero-padded payload fields, in exactly `RECORD_SPACE` bytes.
pub fn encode_journal_entry(state: &JournalEntryState) -> (r: Vec<u8>)
    requires
        valid_record(state@),
    ensures
        r@ == spec_encode(state@),
        r@.len() == RECORD_SPACE,
{
    let mut d: Vec<u8> = Vec::new();
    d.push(106u8);
    d.push(111u8);
    d.push(117u8);
    d.push(114u8);
    d.push(110u8);
    d.push(97u8);
    d.push(108u8);
    d.push(33u8);
    proof {
        assert(d@ =~= discriminator_bytes());
    }
    push_owner(&mut d, &state.owner);
    push_len_prefixed(&mut d, &state.title, MAX_TITLE_LEN);
    push_len_prefixed(&mut d, &state.message, MAX_MESSAGE_LEN);
    proof {
        assert(d@ =~= spec_encode(state@));
        lemma_spec_encode_len(state@);
    }
    d
}

/// The record a stored byte string holds, if it is well formed: the right
/// total length, the discriminator tag, in-range field lengths, and zero
/// padding behind both payload fields.
pub open spec fn spec_decode(d: Seq<u8>) -> Option<RecordModel> {
    if d.len() != RECORD_SPACE {
        None
    } else if d.subrange(0, DISCRIMINATOR_SIZE as int) != discriminator_bytes() {
        None
    } else {
        let tlen = spec_u32_from_le_bytes(
            d.subrange(TITLE_LEN_OFFSET as int, TITLE_OFFSET as int),
        ) as int;
        let mlen = spec_u32_from_le_bytes(
            d.subrange(MESSAGE_LEN_OFFSET as int, MESSAGE_OFFSET as int),
        ) as int;
        if tlen > MAX_TITLE_LEN || mlen > MAX_MESSAGE_LEN {
            None
        } else if d.subrange(TITLE_OFFSET + tlen, MESSAGE_LEN_OFFSET as int) != zero_bytes(
            (MAX_TITLE_LEN - tlen) as nat,
        ) {
            None
        } else if d.subrange(MESSAGE_OFFSET + mlen, RECORD_SPACE as int) != zero_bytes(
            (MAX_MESSAGE_LEN - mlen) as nat,
        ) {
            None
        } else {
            Some(
                RecordModel {
                    owner: d.subrange(DISCRIMINATOR_SIZE as int, HEADER_SIZE as int),
                    title: d.subrange(TITLE_OFFSET as int, TITLE_OFFSET + tlen),
                    message: d.subrange(MESSAGE_OFFSET as int, MESSAGE_OFFSET + mlen),
                },
            )
        }
    }
}

/// Law: decoding inverts encoding.  The stored form of any valid record reads
/// back as exactly that record.
pub proof fn lemma_encode_decode(r: RecordModel)
    requires
        valid_record(r),
    ensures
        spec_decode(spec_encode(r)) == Some(r),
{
    lemma_auto_spec_u32_to_from_le_bytes();
    let e = spec_encode(r);
    let tlen = r.title.len() as int;
    let mlen = r.message.len() as int;
    assert(e.len() == RECORD_SPACE);
    assert(e.subrange(0, DISCRIMINATOR_SIZE as int) =~= discriminator_bytes());
    assert(e.subrange(TITLE_LEN_OFFSET as int, TITLE_OFFSET as int) =~= spec_u32_to_le_bytes(
        r.title.len() as u32,
    ));
    assert(e.subrange(MESSAGE_LEN_OFFSET as int, MESSAGE_OFFSET as int) =~= spec_u32_to_le_bytes(
        r.message.len() as u32,
    ));
    assert(e.subrange(TITLE_OFFSET + tlen, MESSAGE_LEN_OFFSET as int) =~= zero_bytes(
        (MAX_TITLE_LEN - tlen) as nat,
    ));
    assert(e.subrange(MESSAGE_OFFSET + mlen, RECORD_SPACE as int) =~= zero_bytes(
        (MAX_MESSAGE_LEN - mlen) as nat,
    ));
    assert(e.subrange(DISCRIMINATOR_SIZE as int, HEADER_SIZE as int) =~= r.owner);
    assert(e.subrange(TITLE_OFFSET as int, TITLE_OFFSET + tlen) =~= r.title);
    assert(e.subrange(MESSAGE_OFFSET as int, MESSAGE_OFFSET + mlen) =~= r.message);
}

/// Law: a record's stored form never leaks stale payload.  Every byte of the
/// message region beyond the message's actual length is zero, and likewise in
/// the title region.
pub proof fn lemma_padding_zeroed(r: RecordModel)
    requires
        valid_record(r),
    ensures
        forall|i: int|
            MESSAGE_OFFSET + r.message.len() <= i < RECORD_SPACE ==> spec_encode(r)[i] == 0,
        forall|i: int|
            TITLE_OFFSET + r.title.len() <= i < MESSAGE_LEN_OFFSET ==> spec_encode(r)[i] == 0,
{
    lemma_auto_spec_u32_to_from_le_bytes();
    let e = spec_encode(r);
    let tlen = r.title.len() as int;
    let mlen = r.message.len() as int;
    assert(e.subrange(TITLE_OFFSET + tlen, MESSAGE_LEN_OFFSET as int) =~= zero_bytes(
        (MAX_TITLE_LEN - tlen) as nat,
    ));
    assert(e.subrange(MESSAGE_OFFSET + mlen, RECORD_SPACE as int) =~= zero_bytes(
        (MAX_MESSAGE_LEN - mlen) as nat,
    ));
    assert forall|i: int|
        MESSAGE_OFFSET + r.message.len() <= i < RECORD_SPACE implies spec_encode(r)[i] == 0 by {
        assert(e[i] == e.subrange(MESSAGE_OFFSET + mlen, RECORD_SPACE as int)[i - (MESSAGE_OFFSET
            + mlen)]);
    }
    assert forall|i: int|
        TITLE_OFFSET + r.title.len() <= i < MESSAGE_LEN_OFFSET implies spec_encode(r)[i] == 0 by {
        assert(e[i] == e.subrange(TITLE_OFFSET + tlen, MESSAGE_LEN_OFFSET as int)[i - (TITLE_OFFSET
            + tlen)]);
    }
}

/// Copies `src[start..end]` into a fresh vector.
fn copy_range(src: &Vec<u8>, start: usize, end: usize) -> (r: Vec<u8>)
    requires
        start <= end <= src@.len(),
    ensures
        r@ == src@.subrange(start as int, end as int),
{
    let mut r: Vec<u8> = Vec::new();
    let mut i: usize = start;
    while i < end
        invariant
            start <= i <= end <= src@.len(),
            r@ == src@.subrange(start as int, i as int),
        decreases end - i,
    {
        r.push(src[i]);
        proof {
            assert(r@ =~= src@.subrange(start as int, i + 1));
        }
        i += 1;
    }
    r
}

/// Deserializes a stored byte string, or reports that it is not the
/// well-formed stored form of any record.
#[verifier::loop_isolation(false)]
pub fn decode_journal_entry(data: &Vec<u8>) -> (r: Option<JournalEntryState>)
    ensures
        match r {
            Some(st) => spec_decode(data@) == Some(st@) && valid_record(st@),
            None => spec_decode(data@) is None,
        },
{
    if data.len() != RECORD_SPACE {
        return None;
    }
    let disc: [u8; 8] = [106u8, 111u8, 117u8, 114u8, 110u8, 97u8, 108u8, 33u8];
    proof {
        assert(disc@ =~= discriminator_bytes());
    }
    let mut i: usize = 0;
    while i < DISCRIMINATOR_SIZE
        invariant
            0 <= i <= DISCRIMINATOR_SIZE,
            forall|j: int| 0 <= j < i ==> data@[j] == discriminator_bytes()[j],
        decreases DISCRIMINATOR_SIZE - i,
    {
        if data[i] != disc[i] {
            proof {
                assert(data@.subrange(0, DISCRIMINATOR_SIZE as int)[i as int]
                    != discriminator_bytes()[i as int]);
            }
            return None;
        }
        i += 1;
    }
    proof {
        assert(data@.subrange(0, DISCRIMINATOR_SIZE as int) =~= discriminator_bytes());
    }
    let tl32 = u32_from_le_bytes(slice_subrange(data.as_slice(), TITLE_LEN_OFFSET, TITLE_OFFSET));
    let ml32 = u32_from_le_bytes(
        slice_subrange(data.as_slice(), MESSAGE_LEN_OFFSET, MESSAGE_OFFSET),
    );
    if tl32 > 50u32 || ml32 > 1000u32 {
        return None;
    }
    let tlen = tl32 as usize;
    let mlen = ml32 as usize;
    let mut i: usize = TITLE_OFFSET + tlen;
    while i < MESSAGE_LEN_OFFSET
        invariant
            TITLE_OFFSET + tlen <= i <= MESSAGE_LEN_OFFSET,
            forall|j: int| TITLE_OFFSET + tlen <= j < i ==> data@[j] == 0,
        decreases MESSAGE_LEN_OFFSET - i,
    {
        if data[i] != 0 {
            proof {
                assert(data@.subrange(TITLE_OFFSET + tlen, MESSAGE_LEN_OFFSET as int)[i - (
                TITLE_OFFSET + tlen)] != 0);
            }
            return None;
        }
        i += 1;
    }
    proof {
        assert(data@.subrange(TITLE_OFFSET + tlen, MESSAGE_LEN_OFFSET as int) =~= zero_bytes(
            (MAX_TITLE_LEN - tlen) as nat,
        ));
    }
    let mut i: usize = MESSAGE_OFFSET + mlen;
    while i < RECORD_SPACE
        invariant
            MESSAGE_OFFSET + mlen <= i <= RECORD_SPACE,
            forall|j: int| MESSAGE_OFFSET + mlen <= j < i ==> data@[j] == 0,
        decreases RECORD_SPACE - i,
    {
        if data[i] != 0 {
            proof {
                assert(data@.subrange(MESSAGE_OFFSET + mlen, RECORD_SPACE as int)[i - (
                MESSAGE_OFFSET + mlen)] != 0);
            }
            return None;
        }
        i += 1;
    }
    proof {
        assert(data@.subrange(MESSAGE_OFFSET + mlen, RECORD_SPACE as int) =~= zero_bytes(
            (MAX_MESSAGE_LEN - mlen) as nat,
        ));
    }
    let mut owner: Pubkey = [0u8; 32];
    let mut i: usize = 0;
    while i < 32
        invariant
            0 <= i <= 32,
            forall|j: int| 0 <= j < i ==> owner@[j] == data@[DISCRIMINATOR_SIZE + j],
        decreases 32 - i,
    {
        owner[i] = data[DISCRIMINATOR_SIZE + i];
        i += 1;
    }
    proof {
        assert(owner@ =~= data@.subrange(DISCRIMINATOR_SIZE as int, HEADER_SIZE as int));
    }
    let title = copy_range(data, TITLE_OFFSET, TITLE_OFFSET + tlen);
    let message = copy_range(data, MESSAGE_OFFSET, MESSAGE_OFFSET + mlen);
    let st = JournalEntryState { owner, title, message };
    proof {
        assert(spec_decode(data@) == Some(st@));
    }
    Some(st)
}

} // verus!
