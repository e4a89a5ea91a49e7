//! An authenticated, address-derived record store.
//!
//! Each record — an owner identity, a fixed title, and a mutable message —
//! lives at a storage address derived deterministically from its `(title,
//! owner)` seeds, so at most one record can ever exist per pair.  Records are
//! created, updated, and deleted by their owner alone; storage is allocated
//! at the record's maximum declared size, billed to a payer, zero-padded on
//! every write, and reclaimed (with its funds) on delete.
//!
//! - [`address`]: derivation of the storage address and the authorization
//!   gate.
//! - [`state`]: the record schema and its validity.
//! - [`codec`]: the persisted byte layout, its encoder and decoder.
//! - [`space`]: the space-accounting and rent constants.
//! - [`journal`]: the record store with its lifecycle operations and laws.
//! - [`errors`]: the rejection taxonomy.

pub mod address;
pub mod codec;
pub mod errors;
pub mod journal;
pub mod space;
pub mod state;
