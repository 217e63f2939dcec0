//! The execution engine's own transaction type, reached through two calls:
//! one that parses bytes and one that derives a parsed transaction's
//! identifier. Nothing here is proved; the contracts say what is taken on
//! trust from the engine.

use crate::frame::frame_fits;
use fuel_core_types::fuel_tx::{Cacheable, Transaction, UniqueIdentifier};
use fuel_core_types::fuel_types::bytes::Deserializable;
use vstd::prelude::*;

verus! {

/// Whether the engine's parser accepts `bytes` as a transaction.
pub uninterp spec fn tx_parses(bytes: Seq<u8>) -> bool;

/// The 32-byte identifier of the transaction that the engine parses from
/// `bytes`.
pub uninterp spec fn tx_digest(bytes: Seq<u8>) -> Seq<u8>;

/// `Transaction::from_bytes`: whether it returns a transaction.
///
/// The parser reads lengths and counts from the bytes and indexes and
/// allocates by them before it looks at what follows, so it is only called
/// on bytes whose every announced part lies inside them. Its verdict
/// depends on the bytes alone.
#[verifier::external_body]
pub(crate) fn parses(bytes: &[u8]) -> (ok: bool)
    requires
        frame_fits(bytes@),
    ensures
        ok == tx_parses(bytes@),
{
    Transaction::from_bytes(bytes).is_ok()
}

/// `Cacheable::precompute` and `UniqueIdentifier::id` on the transaction
/// that `Transaction::from_bytes` returns: the identifier is a hash over
/// the parsed transaction, so it depends on the bytes alone, and there is
/// one exactly where the bytes parse.
#[verifier::external_body]
pub(crate) fn digest(bytes: &[u8]) -> (id: Option<[u8; 32]>)
    requires
        frame_fits(bytes@),
    ensures
        id.is_some() == tx_parses(bytes@),
        id matches Some(d) ==> d@ == tx_digest(bytes@),
{
    match Transaction::from_bytes(bytes) {
        Ok(mut tx) => {
            tx.precompute();
            Some(*tx.id())
        },
        Err(_) => None,
    }
}

} // verus!
