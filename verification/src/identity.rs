//! The identifier of a transaction, derived from its content.

use crate::codec::{DecodedTransaction, TransactionView};
use crate::engine::{digest, tx_digest};
use vstd::pervasive::unreached;
use vstd::prelude::*;

verus! {

/// The content-derived identifier of a transaction: 32 bytes.
#[derive(Clone, Copy, Debug, PartialEq, Eq)]
pub struct TransactionIdentity {
    digest: [u8; 32],
}

impl View for TransactionIdentity {
    type V = Seq<u8>;

    closed spec fn view(&self) -> Seq<u8> {
        self.digest@
    }
}

impl TransactionIdentity {
    /// The 32 bytes.
    pub fn as_bytes(&self) -> (bytes: &[u8; 32])
        ensures
            bytes@ == self@,
    {
        &self.digest
    }
}

/// A transaction with its identifier computed.
pub open spec fn identified(tx: TransactionView) -> TransactionView {
    TransactionView { identity: Some(tx_digest(tx.bytes)), ..tx }
}

/// Computes the identifier of a transaction and keeps it with the
/// transaction. The identifier depends on the transaction's bytes alone;
/// kind and bytes stay as they were, and a second call returns what the
/// first returned.
pub fn compute_identity(tx: &mut DecodedTransaction) -> (id: TransactionIdentity)
    ensures
        id@ == tx_digest(old(tx)@.bytes),
        final(tx)@ == identified(old(tx)@),
{
    if let Some(id) = tx.identity() {
        return id;
    }
    match digest(tx.bytes()) {
        Some(d) => {
            let id = TransactionIdentity { digest: d };
            tx.keep_identity(id);
            id
        },
        None => unreached(),
    }
}

/// The identifier is a function of the bytes: transactions decoded from the
/// same bytes get the same identifier, however often it is computed.
pub proof fn lemma_identity_deterministic(a: TransactionView, b: TransactionView)
    requires
        a.bytes == b.bytes,
    ensures
        identified(a).identity == identified(b).identity,
        identified(identified(a)) == identified(a),
{
}

} // verus!
