//! The record store: create, update-with-resize, and delete-with-reclaim.
//!
//! The journal holds at most one live record per derived address.  Every
//! operation re-derives the address from the `(title, owner)` seeds the caller
//! presents, so a caller can only reach a record whose original seeds it
//! knows.  Each operation runs as one atomic unit: it either performs its full
//! effect — record change, allocation resize, and the matching fund transfer —
//! or rejects with an error and changes nothing.
//!
//! The journal's view is the map from each live derived address to the record
//! model stored there; every contract below is stated over that map.

use crate::address::{authorize, journal_address, pubkey_eq, Pubkey};
use crate::codec::{encode_journal_entry, spec_encode};
use crate::errors::JournalError;
use crate::space::{MAX_MESSAGE_LEN, MAX_TITLE_LEN, RECORD_RENT, RECORD_SPACE};
use crate::state::{copy_bytes, valid_record, JournalEntryState, RecordModel};
use vstd::prelude::*;

verus! {

/// One live allocation: a record stored at its derived address, together with
/// the bump discriminant of the derivation, the stored bytes backing the
/// record, and the lamports funding the allocation.
struct Entry {
    address: Pubkey,
    bump: u8,
    state: JournalEntryState,
    data: Vec<u8>,
    lamports: u64,
}

/// An entry is internally consistent: a valid record, stored at the address
/// its own seeds derive, backed by its exact stored form, and funded with the
/// rent of its full allocation.
spec fn entry_wf(e: Entry) -> bool {
    &&& valid_record(e.state@)
    &&& journal_address(e.state.title@, e.state.owner@) == Some((e.address@, e.bump))
    &&& e.data@ == spec_encode(e.state@)
    &&& e.lamports == RECORD_RENT
}

/// All entries are consistent and no two live at the same address.
spec fn wf_entries(s: Seq<Entry>) -> bool {
    &&& forall|i: int| 0 <= i < s.len() ==> entry_wf(#[trigger] s[i])
    &&& forall|i: int, j: int|
        0 <= i < s.len() && 0 <= j < s.len() && i != j ==> #[trigger] s[i].address@
            != #[trigger] s[j].address@
}

/// The map from each live derived address to the record stored there.
spec fn as_map(s: Seq<Entry>) -> Map<Seq<u8>, RecordModel>
    decreases s.len(),
{
    if s.len() == 0 {
        Map::empty()
    } else {
        as_map(s.drop_last()).insert(s.last().address@, s.last().state@)
    }
}

/// An address is in the map exactly when some entry lives at it.
proof fn lemma_as_map_contains(s: Seq<Entry>, a: Seq<u8>)
    ensures
        as_map(s).contains_key(a) <==> exists|i: int| 0 <= i < s.len() && s[i].address@ == a,
    decreases s.len(),
{
    if s.len() > 0 {
        lemma_as_map_contains(s.drop_last(), a);
        if s.last().address@ == a {
            assert(s[s.len() - 1].address@ == a);
        } else {
            if exists|i: int| 0 <= i < s.len() && s[i].address@ == a {
                let i = choose|i: int| 0 <= i < s.len() && s[i].address@ == a;
                assert(i < s.len() - 1);
                assert(s.drop_last()[i].address@ == a);
            }
        }
    }
}

/// With distinct addresses, the map sends each entry's address to its record.
proof fn lemma_as_map_index(s: Seq<Entry>, i: int)
    requires
        wf_entries(s),
        0 <= i < s.len(),
    ensures
        as_map(s).contains_key(s[i].address@),
        as_map(s)[s[i].address@] == s[i].state@,
    decreases s.len(),
{
    if i == s.len() - 1 {
    } else {
        assert(wf_entries(s.drop_last())) by {
            assert(forall|k: int|
                0 <= k < s.len() - 1 ==> s.drop_last()[k] == #[trigger] s[k]);
        }
        lemma_as_map_index(s.drop_last(), i);
        assert(s.drop_last()[i] == s[i]);
        assert(s.last().address@ != s[i].address@);
    }
}

/// Replacing the entry at index `i` by one at the same address updates the
/// map at that address alone.
proof fn lemma_as_map_update(s: Seq<Entry>, i: int, e: Entry)
    requires
        wf_entries(s),
        0 <= i < s.len(),
        e.address@ == s[i].address@,
    ensures
        as_map(s.update(i, e)) =~= as_map(s).insert(e.address@, e.state@),
    decreases s.len(),
{
    let t = s.update(i, e);
    if i == s.len() - 1 {
        assert(t.drop_last() =~= s.drop_last());
        assert(t.last() == e);
    } else {
        assert(wf_entries(s.drop_last())) by {
            assert(forall|k: int|
                0 <= k < s.len() - 1 ==> s.drop_last()[k] == #[trigger] s[k]);
        }
        lemma_as_map_update(s.drop_last(), i, e);
        assert(t.drop_last() =~= s.drop_last().update(i, e));
        assert(t.last() == s.last());
        assert(s.last().address@ != e.address@);
    }
}

/// Removing the entry at index `i` removes exactly its address from the map.
proof fn lemma_as_map_remove(s: Seq<Entry>, i: int)
    requires
        wf_entries(s),
        0 <= i < s.len(),
    ensures
        as_map(s.remove(i)) =~= as_map(s).remove(s[i].address@),
    decreases s.len(),
{
    let a = s[i].address@;
    if i == s.len() - 1 {
        assert(s.remove(i) =~= s.drop_last());
        lemma_as_map_contains(s.drop_last(), a);
        assert(forall|k: int|
            0 <= k < s.len() - 1 ==> s.drop_last()[k] == #[trigger] s[k]);
        assert(!as_map(s.drop_last()).contains_key(a));
    } else {
        assert(wf_entries(s.drop_last())) by {
            assert(forall|k: int|
                0 <= k < s.len() - 1 ==> s.drop_last()[k] == #[trigger] s[k]);
        }
        lemma_as_map_remove(s.drop_last(), i);
        assert(s.remove(i).drop_last() =~= s.drop_last().remove(i));
        assert(s.remove(i).last() == s.last());
        assert(s.last().address@ != a);
    }
}

/// Appending an entry inserts exactly its address into the map.
proof fn lemma_as_map_push(s: Seq<Entry>, e: Entry)
    ensures
        as_map(s.push(e)) == as_map(s).insert(e.address@, e.state@),
{
    assert(s.push(e).drop_last() =~= s);
    assert(s.push(e).last() == e);
}

/// The accounts a create request presents.  The runtime boundary has already
/// verified a signature of both the owner and the payer before the request
/// reaches the journal.
pub struct CreateEntry {
    /// The signature-verified identity that will own the new record.
    pub owner: Pubkey,
    /// The signature-verified identity funding the allocation.
    pub payer: Pubkey,
    /// The payer's balance, debited by the allocation's rent on success.
    pub payer_lamports: u64,
}

/// The accounts an update request presents.  The runtime boundary has already
/// verified a signature of `signer`.
pub struct UpdateEntry {
    /// The owner identity used to re-derive the record's address.
    pub owner: Pubkey,
    /// The signature-verified identity presenting the request; it must match
    /// the record's stored owner.
    pub signer: Pubkey,
}

/// The accounts a delete request presents.  The runtime boundary has already
/// verified a signature of `signer`.
pub struct DeleteEntry {
    /// The owner identity used to re-derive the record's address.
    pub owner: Pubkey,
    /// The signature-verified identity presenting the request; it must match
    /// the record's stored owner, and it receives the reclaimed funds.
    pub signer: Pubkey,
    /// The signer's balance, credited with the reclaimed rent on success.
    pub signer_lamports: u64,
}

/// What a create request does to the journal map and the payer balance, and
/// what it returns: rejection of an over-long field, of an exhausted
/// derivation, of an occupied address, or of an underfunded payer — otherwise
/// the new record is inserted at its derived address and the payer is debited
/// the allocation's rent.
pub open spec fn spec_create(
    m: Map<Seq<u8>, RecordModel>,
    title: Seq<u8>,
    owner: Seq<u8>,
    message: Seq<u8>,
    payer_lamports: u64,
) -> (Map<Seq<u8>, RecordModel>, u64, Result<(), JournalError>) {
    if title.len() > MAX_TITLE_LEN || message.len() > MAX_MESSAGE_LEN {
        (m, payer_lamports, Err(JournalError::CapacityExceeded))
    } else {
        match journal_address(title, owner) {
            None => (m, payer_lamports, Err(JournalError::DerivationFailed)),
            Some(p) => {
                if m.contains_key(p.0) {
                    (m, payer_lamports, Err(JournalError::AlreadyExists))
                } else if payer_lamports < RECORD_RENT {
                    (m, payer_lamports, Err(JournalError::InsufficientFunds))
                } else {
                    (
                        m.insert(p.0, RecordModel { owner, title, message }),
                        (payer_lamports - RECORD_RENT) as u64,
                        Ok(()),
                    )
                }
            },
        }
    }
}

/// What an update request does to the journal map and what it returns: the
/// record at the derived address keeps its owner and title and carries the new
/// message; the allocation is re-sized to the full record space, which it
/// already occupies, so no funds move.
pub open spec fn spec_update(
    m: Map<Seq<u8>, RecordModel>,
    title: Seq<u8>,
    owner: Seq<u8>,
    signer: Seq<u8>,
    message: Seq<u8>,
) -> (Map<Seq<u8>, RecordModel>, Result<(), JournalError>) {
    if message.len() > MAX_MESSAGE_LEN {
        (m, Err(JournalError::CapacityExceeded))
    } else {
        match journal_address(title, owner) {
            None => (m, Err(JournalError::DerivationFailed)),
            Some(p) => {
                if !m.contains_key(p.0) {
                    (m, Err(JournalError::NotFound))
                } else if m[p.0].owner != signer {
                    (m, Err(JournalError::Unauthorized))
                } else {
                    (
                        m.insert(
                            p.0,
                            RecordModel { owner: m[p.0].owner, title: m[p.0].title, message },
                        ),
                        Ok(()),
                    )
                }
            },
        }
    }
}

/// What a delete request does to the journal map and the signer balance, and
/// what it returns: the record at the derived address is removed, its address
/// becomes free for a future create, and the allocation's funds return to the
/// signer.
pub open spec fn spec_delete(
    m: Map<Seq<u8>, RecordModel>,
    title: Seq<u8>,
    owner: Seq<u8>,
    signer: Seq<u8>,
    signer_lamports: u64,
) -> (Map<Seq<u8>, RecordModel>, u64, Result<(), JournalError>) {
    match journal_address(title, owner) {
        None => (m, signer_lamports, Err(JournalError::DerivationFailed)),
        Some(p) => {
            if !m.contains_key(p.0) {
                (m, signer_lamports, Err(JournalError::NotFound))
            } else if m[p.0].owner != signer {
                (m, signer_lamports, Err(JournalError::Unauthorized))
            } else {
                (m.remove(p.0), (signer_lamports + RECORD_RENT) as u64, Ok(()))
            }
        },
    }
}

/// What a read returns: the record at the derived address, if one lives
/// there.
pub open spec fn spec_read(
    m: Map<Seq<u8>, RecordModel>,
    title: Seq<u8>,
    owner: Seq<u8>,
) -> Result<RecordModel, JournalError> {
    match journal_address(title, owner) {
        None => Err(JournalError::DerivationFailed),
        Some(p) => {
            if m.contains_key(p.0) {
                Ok(m[p.0])
            } else {
                Err(JournalError::NotFound)
            }
        },
    }
}

/// The journal: every live record, each stored at its derived address.
pub struct Journal {
    entries: Vec<Entry>,
}

impl View for Journal {
    type V = Map<Seq<u8>, RecordModel>;

    closed spec fn view(&self) -> Map<Seq<u8>, RecordModel> {
        as_map(self.entries@)
    }
}

impl Journal {
    /// The journal's internal consistency: see [`wf_entries`].
    pub closed spec fn wf(&self) -> bool {
        wf_entries(self.entries@)
    }

    /// Creates an empty journal: no address holds a record.
    pub fn new() -> (r: Journal)
        ensures
            r.wf(),
            r@ == Map::<Seq<u8>, RecordModel>::empty(),
    {
        Journal { entries: Vec::new() }
    }

    /// Finds the entry stored at `addr`.
    fn find_entry(&self, addr: &Pubkey) -> (r: Option<usize>)
        requires
            self.wf(),
        ensures
            match r {
                Some(i) => {
                    &&& i < self.entries@.len()
                    &&& self.entries@[i as int].address@ == addr@
                    &&& self@.contains_key(addr@)
                    &&& self@[addr@] == self.entries@[i as int].state@
                },
                None => !self@.contains_key(addr@),
            },
    {
        let mut i: usize = 0;
        while i < self.entries.len()
            invariant
                self.wf(),
                0 <= i <= self.entries@.len(),
                forall|j: int| 0 <= j < i ==> self.entries@[j].address@ != addr@,
            decreases self.entries@.len() - i,
        {
            if pubkey_eq(&self.entries[i].address, addr) {
                proof {
                    lemma_as_map_index(self.entries@, i as int);
                }
                return Some(i);
            }
            i += 1;
        }
        proof {
            lemma_as_map_contains(self.entries@, addr@);
        }
        None
    }

    /// Creates the record keyed by `(title, ctx.owner)`: allocates the full
    /// record space at the derived address, funded by the payer, and stores
    /// the owner, the title, and the initial message.
    pub fn create_journal_entry(
        &mut self,
        ctx: &mut CreateEntry,
        title: Vec<u8>,
        message: Vec<u8>,
    ) -> (r: Result<(), JournalError>)
        requires
            old(self).wf(),
        ensures
            final(self).wf(),
            final(self)@ == spec_create(
                old(self)@,
                title@,
                old(ctx).owner@,
                message@,
                old(ctx).payer_lamports,
            ).0,
            final(ctx).payer_lamports == spec_create(
                old(self)@,
                title@,
                old(ctx).owner@,
                message@,
                old(ctx).payer_lamports,
            ).1,
            r == spec_create(old(self)@, title@, old(ctx).owner@, message@, old(ctx).payer_lamports).2,
            final(ctx).owner == old(ctx).owner,
            final(ctx).payer == old(ctx).payer,
    {
        if title.len() > MAX_TITLE_LEN || message.len() > MAX_MESSAGE_LEN {
            return Err(JournalError::CapacityExceeded);
        }
        let p = match crate::address::derive(&title, &ctx.owner) {
            Ok(p) => p,
            Err(e) => {
                return Err(e);
            },
        };
        let addr = p.0;
        let bump = p.1;
        match self.find_entry(&addr) {
            Some(_) => Err(JournalError::AlreadyExists),
            None => {
                let rent = crate::space::rent_for(RECORD_SPACE);
                if ctx.payer_lamports < rent {
                    return Err(JournalError::InsufficientFunds);
                }
                let ghost title0 = title@;
                let ghost message0 = message@;
                let state = JournalEntryState { owner: ctx.owner, title, message };
                let data = encode_journal_entry(&state);
                ctx.payer_lamports = ctx.payer_lamports - rent;
                let e = Entry { address: addr, bump, state, data, lamports: rent };
                let ghost s0 = self.entries@;
                proof {
                    lemma_as_map_contains(s0, addr@);
                }
                self.entries.push(e);
                proof {
                    lemma_as_map_push(s0, e);
                    assert(e.state@ == RecordModel {
                        owner: old(ctx).owner@,
                        title: title0,
                        message: message0,
                    });
                    assert(wf_entries(s0.push(e))) by {
                        assert(forall|k: int|
                            0 <= k < s0.len() ==> #[trigger] s0.push(e)[k] == s0[k]);
                        assert(s0.push(e)[s0.len() as int] == e);
                        assert(forall|k: int|
                            0 <= k < s0.len() ==> #[trigger] s0[k].address@ != addr@);
                    }
                }
                Ok(())
            },
        }
    }

    /// Replaces the message of the record keyed by `(title, ctx.owner)`.  The
    /// signer must match the stored owner; owner and title stay untouched.
    /// The allocation is re-sized to the full record space — which it already
    /// occupies, so no funds move — and rewritten with zeroed padding.
    pub fn update_journal_entry(
        &mut self,
        ctx: &UpdateEntry,
        title: &Vec<u8>,
        message: Vec<u8>,
    ) -> (r: Result<(), JournalError>)
        requires
            old(self).wf(),
        ensures
            final(self).wf(),
            final(self)@ == spec_update(old(self)@, title@, ctx.owner@, ctx.signer@, message@).0,
            r == spec_update(old(self)@, title@, ctx.owner@, ctx.signer@, message@).1,
    {
        if message.len() > MAX_MESSAGE_LEN {
            return Err(JournalError::CapacityExceeded);
        }
        let p = match crate::address::derive(title, &ctx.owner) {
            Ok(p) => p,
            Err(e) => {
                return Err(e);
            },
        };
        let addr = p.0;
        match self.find_entry(&addr) {
            None => Err(JournalError::NotFound),
            Some(i) => {
                if !authorize(&self.entries[i].state.owner, &ctx.signer) {
                    return Err(JournalError::Unauthorized);
                }
                let ghost message0 = message@;
                let new_state = JournalEntryState {
                    owner: self.entries[i].state.owner,
                    title: copy_bytes(&self.entries[i].state.title),
                    message,
                };
                let data = encode_journal_entry(&new_state);
                let e = Entry {
                    address: self.entries[i].address,
                    bump: self.entries[i].bump,
                    state: new_state,
                    data,
                    lamports: self.entries[i].lamports,
                };
                let ghost s0 = self.entries@;
                self.entries[i] = e;
                proof {
                    lemma_as_map_update(s0, i as int, e);
                    assert(e.state@ == RecordModel {
                        owner: as_map(s0)[addr@].owner,
                        title: as_map(s0)[addr@].title,
                        message: message0,
                    });
                    assert(wf_entries(s0.update(i as int, e))) by {
                        assert(forall|k: int|
                            0 <= k < s0.len() && k != i ==> #[trigger] s0.update(i as int, e)[k]
                                == s0[k]);
                        assert(s0.update(i as int, e)[i as int] == e);
                    }
                }
                Ok(())
            },
        }
    }

    /// Deletes the record keyed by `(title, ctx.owner)`: the signer must
    /// match the stored owner; the whole allocation is reclaimed, its funds
    /// return to the signer, and the address becomes free for a future
    /// create.
    pub fn delete_journal_entry(&mut self, ctx: &mut DeleteEntry, title: &Vec<u8>) -> (r: Result<
        (),
        JournalError,
    >)
        requires
            old(self).wf(),
            old(ctx).signer_lamports <= u64::MAX - RECORD_RENT,
        ensures
            final(self).wf(),
            final(self)@ == spec_delete(
                old(self)@,
                title@,
                old(ctx).owner@,
                old(ctx).signer@,
                old(ctx).signer_lamports,
            ).0,
            final(ctx).signer_lamports == spec_delete(
                old(self)@,
                title@,
                old(ctx).owner@,
                old(ctx).signer@,
                old(ctx).signer_lamports,
            ).1,
            r == spec_delete(
                old(self)@,
                title@,
                old(ctx).owner@,
                old(ctx).signer@,
                old(ctx).signer_lamports,
            ).2,
            final(ctx).owner == old(ctx).owner,
            final(ctx).signer == old(ctx).signer,
    {
        let p = match crate::address::derive(title, &ctx.owner) {
            Ok(p) => p,
            Err(e) => {
                return Err(e);
            },
        };
        let addr = p.0;
        match self.find_entry(&addr) {
            None => Err(JournalError::NotFound),
            Some(i) => {
                if !authorize(&self.entries[i].state.owner, &ctx.signer) {
                    return Err(JournalError::Unauthorized);
                }
                let ghost s0 = self.entries@;
                let e = self.entries.remove(i);
                ctx.signer_lamports = ctx.signer_lamports + e.lamports;
                proof {
                    lemma_as_map_remove(s0, i as int);
                    assert(wf_entries(s0.remove(i as int))) by {
                        assert(forall|k: int|
                            0 <= k < s0.len() - 1 ==> #[trigger] s0.remove(i as int)[k] == (
                            if k < i {
                                s0[k]
                            } else {
                                s0[k + 1]
                            }));
                    }
                }
                Ok(())
            },
        }
    }

    /// Reads back the record keyed by `(title, owner)` by decoding the bytes
    /// stored at the derived address.
    pub fn read_journal_entry(&self, title: &Vec<u8>, owner: &Pubkey) -> (r: Result<
        JournalEntryState,
        JournalError,
    >)
        requires
            self.wf(),
        ensures
            match r {
                Ok(st) => {
                    &&& spec_read(self@, title@, owner@) == Ok::<RecordModel, JournalError>(st@)
                    &&& valid_record(st@)
                },
                Err(e) => spec_read(self@, title@, owner@) == Err::<RecordModel, JournalError>(e),
            },
    {
        let p = match crate::address::derive(title, owner) {
            Ok(p) => p,
            Err(e) => {
                return Err(e);
            },
        };
        let addr = p.0;
        match self.find_entry(&addr) {
            None => Err(JournalError::NotFound),
            Some(i) => {
                proof {
                    crate::codec::lemma_encode_decode(self.entries@[i as int].state@);
                }
                match crate::codec::decode_journal_entry(&self.entries[i].data) {
                    Some(st) => Ok(st),
                    None => {
                        proof {
                            assert(false);
                        }
                        Err(JournalError::NotFound)
                    },
                }
            },
        }
    }

    /// Hands out a copy of the raw bytes allocated at the derived address of
    /// `(title, owner)`, exactly as stored.
    pub fn account_data(&self, title: &Vec<u8>, owner: &Pubkey) -> (r: Option<Vec<u8>>)
        requires
            self.wf(),
        ensures
            match r {
                Some(d) => {
                    &&& spec_read(self@, title@, owner@) is Ok
                    &&& d@ == spec_encode(spec_read(self@, title@, owner@)->Ok_0)
                    &&& d@.len() == RECORD_SPACE
                },
                None => !(spec_read(self@, title@, owner@) is Ok),
            },
    {
        let p = match crate::address::derive(title, owner) {
            Ok(p) => p,
            Err(_) => {
                return None;
            },
        };
        let addr = p.0;
        match self.find_entry(&addr) {
            None => None,
            Some(i) => {
                proof {
                    crate::codec::lemma_spec_encode_len(self.entries@[i as int].state@);
                }
                Some(copy_bytes(&self.entries[i].data))
            },
        }
    }
}

/// Law: a record read back right after its creation is exactly what was
/// supplied — the same owner, title, and message.
pub proof fn lemma_create_then_read(
    m: Map<Seq<u8>, RecordModel>,
    title: Seq<u8>,
    owner: Seq<u8>,
    message: Seq<u8>,
    payer_lamports: u64,
)
    requires
        spec_create(m, title, owner, message, payer_lamports).2 is Ok,
    ensures
        spec_read(spec_create(m, title, owner, message, payer_lamports).0, title, owner)
            == Ok::<RecordModel, JournalError>(RecordModel { owner, title, message }),
{
}

/// Law: creating the same `(title, owner)` pair twice fails with
/// `AlreadyExists`, and the second attempt changes neither the journal nor
/// the balance it was offered.
pub proof fn lemma_create_twice_fails(
    m: Map<Seq<u8>, RecordModel>,
    title: Seq<u8>,
    owner: Seq<u8>,
    message1: Seq<u8>,
    payer_lamports1: u64,
    message2: Seq<u8>,
    payer_lamports2: u64,
)
    requires
        spec_create(m, title, owner, message1, payer_lamports1).2 is Ok,
        message2.len() <= MAX_MESSAGE_LEN,
    ensures
        spec_create(
            spec_create(m, title, owner, message1, payer_lamports1).0,
            title,
            owner,
            message2,
            payer_lamports2,
        ) == (
            spec_create(m, title, owner, message1, payer_lamports1).0,
            payer_lamports2,
            Err::<(), JournalError>(JournalError::AlreadyExists),
        ),
{
}

/// Law: an update presented by a signer other than the stored owner fails
/// with `Unauthorized` and leaves every stored record — the message included
/// — unchanged.
pub proof fn lemma_update_unauthorized(
    m: Map<Seq<u8>, RecordModel>,
    title: Seq<u8>,
    owner: Seq<u8>,
    signer: Seq<u8>,
    message: Seq<u8>,
)
    requires
        message.len() <= MAX_MESSAGE_LEN,
        journal_address(title, owner) is Some,
        m.contains_key((journal_address(title, owner)->Some_0).0),
        m[(journal_address(title, owner)->Some_0).0].owner != signer,
    ensures
        spec_update(m, title, owner, signer, message) == (
            m,
            Err::<(), JournalError>(JournalError::Unauthorized),
        ),
{
}

/// Law: after a successful update the record's allocation still holds
/// exactly the full record space — header plus both maximum-length fields —
/// and every stored byte beyond the new message's actual length is zero.
pub proof fn lemma_update_keeps_space_and_zeroes(
    m: Map<Seq<u8>, RecordModel>,
    title: Seq<u8>,
    owner: Seq<u8>,
    signer: Seq<u8>,
    message: Seq<u8>,
)
    requires
        spec_update(m, title, owner, signer, message).1 is Ok,
        valid_record(m[(journal_address(title, owner)->Some_0).0]),
    ensures
        ({
            let stored = spec_update(m, title, owner, signer, message).0[(journal_address(
                title,
                owner,
            )->Some_0).0];
            &&& spec_encode(stored).len() == RECORD_SPACE
            &&& forall|i: int|
                crate::space::MESSAGE_OFFSET + message.len() <= i < RECORD_SPACE
                    ==> spec_encode(stored)[i] == 0
        }),
{
    let a = (journal_address(title, owner)->Some_0).0;
    let stored = spec_update(m, title, owner, signer, message).0[a];
    assert(valid_record(stored));
    crate::codec::lemma_spec_encode_len(stored);
    crate::codec::lemma_padding_zeroed(stored);
}

/// Law: deleting a record frees its address — a create with the same
/// `(title, owner)` succeeds again, and the fresh record carries only the
/// newly supplied message, with no residue of the deleted record.
pub proof fn lemma_delete_then_create(
    m: Map<Seq<u8>, RecordModel>,
    title: Seq<u8>,
    owner: Seq<u8>,
    signer: Seq<u8>,
    signer_lamports: u64,
    message2: Seq<u8>,
    payer_lamports: u64,
)
    requires
        spec_delete(m, title, owner, signer, signer_lamports).2 is Ok,
        title.len() <= MAX_TITLE_LEN,
        message2.len() <= MAX_MESSAGE_LEN,
        payer_lamports >= RECORD_RENT,
    ensures
        spec_create(
            spec_delete(m, title, owner, signer, signer_lamports).0,
            title,
            owner,
            message2,
            payer_lamports,
        ).2 is Ok,
        spec_read(
            spec_create(
                spec_delete(m, title, owner, signer, signer_lamports).0,
                title,
                owner,
                message2,
                payer_lamports,
            ).0,
            title,
            owner,
        ) == Ok::<RecordModel, JournalError>(RecordModel { owner, title, message: message2 }),
{
}

} // verus!
