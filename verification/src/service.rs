//! The two operations on a transaction: a dry run against a fork of the
//! engine's state, and a submission to consensus.
//!
//! Each operation is taken in two steps around the one outside call it
//! needs. The first step takes a request from received, through decoded, to
//! identified, and yields the call to make; a text that does not decode
//! ends the request there. The caller makes that call, once, and hands its
//! outcome to the second step, which uses the call up and yields the
//! response. No state is kept between requests.

use crate::codec::{decode, decoded, digits_of, encode, encoded, lemma_decodes_iff, well_formed};
use crate::codec::{CodecError, DecodedTransaction, EncodedTransaction, TransactionView};
use crate::digits::hex_bytes;
use crate::engine::tx_digest;
use crate::error::{codec_message, engine_message, relay_kind, relay_message};
use crate::error::{EngineError, ErrorKind, ServiceError};
use crate::frame::TransactionKind;
use crate::identity::{compute_identity, identified, TransactionIdentity};
use crate::receipt::{records_of, show_all, ExecutionReceipt, ReceiptRecord};
use crate::relay::{commit_request, ConsensusAck, RelayError};
use vstd::pervasive::unreached;
use vstd::prelude::*;

verus! {

/// The entry point of both operations. It holds nothing.
#[derive(Clone, Copy, Debug, PartialEq, Eq, Structural)]
pub struct TxMutation;

impl Default for TxMutation {
    fn default() -> (service: TxMutation)
        ensures
            service == TxMutation,
    {
        TxMutation
    }
}

/// A dry run that is ready for the engine: the transaction, decoded and
/// identified, and the parameters of the run.
#[derive(Debug, PartialEq, Eq)]
pub struct SimulationCall {
    tx: DecodedTransaction,
    block_height: Option<u64>,
    utxo_validation: Option<bool>,
}

/// What a dry run asks of the engine.
pub struct SimulationView {
    pub tx: TransactionView,
    pub block_height: Option<u64>,
    pub utxo_validation: Option<bool>,
}

impl View for SimulationCall {
    type V = SimulationView;

    closed spec fn view(&self) -> SimulationView {
        SimulationView {
            tx: self.tx@,
            block_height: self.block_height,
            utxo_validation: self.utxo_validation,
        }
    }
}

impl SimulationCall {
    /// The transaction to run.
    pub fn transaction(&self) -> (tx: &DecodedTransaction)
        ensures
            tx@ == self@.tx,
    {
        &self.tx
    }

    /// The height to run at; `None` for the current one.
    pub fn block_height(&self) -> (height: Option<u64>)
        ensures
            height == self@.block_height,
    {
        self.block_height
    }

    /// `Some(false)` lets the run use inputs that do not exist and skips
    /// their signatures; `None` and `Some(true)` leave the engine's
    /// validation as it is configured.
    pub fn utxo_validation(&self) -> (flag: Option<bool>)
        ensures
            flag == self@.utxo_validation,
    {
        self.utxo_validation
    }
}

/// A submission that is ready for the relay: the transaction, decoded and
/// identified, and the request to send.
#[derive(Debug, PartialEq, Eq)]
pub struct RelayCall {
    tx: DecodedTransaction,
    body: String,
}

impl View for RelayCall {
    type V = TransactionView;

    /// The transaction that is being submitted.
    closed spec fn view(&self) -> TransactionView {
        self.tx@
    }
}

impl RelayCall {
    #[verifier::type_invariant]
    closed spec fn identified(&self) -> bool {
        self.tx@.identity is Some
    }

    /// The text of the request that was made for this call when the
    /// submission began. It is made once and kept as it was made.
    pub closed spec fn request(&self) -> Seq<char> {
        self.body@
    }

    /// The transaction that is being submitted.
    pub fn transaction(&self) -> (tx: &DecodedTransaction)
        ensures
            tx@ == self@,
    {
        &self.tx
    }

    /// The bytes that go to consensus: those that were decoded, not a
    /// second encoding of them.
    pub fn payload(&self) -> (bytes: &[u8])
        ensures
            bytes@ == self@.bytes,
    {
        self.tx.bytes()
    }

    /// The JSON-RPC request that carries the payload, to be posted to the
    /// endpoint's root: the text that the call holds, as it was made.
    pub fn body(&self) -> (text: &str)
        ensures
            text@ == self.request(),
    {
        self.body.as_str()
    }
}

/// A submitted transaction as it is echoed back.
#[derive(Debug, PartialEq, Eq)]
pub struct TransactionRecord {
    pub id: TransactionIdentity,
    pub kind: TransactionKind,
    pub raw_payload: EncodedTransaction,
}

/// `record` echoes `tx`: its identifier, its kind, and its bytes as text.
pub open spec fn echoes(record: TransactionRecord, tx: TransactionView) -> bool {
    &&& tx.identity == Some(record.id@)
    &&& record.kind == tx.kind
    &&& record.raw_payload@ == encoded(tx)
}

/// `error` is what a caller sees of a text that does not decode.
pub open spec fn is_decode_error(error: ServiceError, cause: CodecError) -> bool {
    &&& error.kind == ErrorKind::Decode
    &&& error.message@ == codec_message(cause)
}

/// `error` is what a caller sees of a failed dry run.
pub open spec fn is_engine_error(error: ServiceError, cause: EngineError) -> bool {
    &&& error.kind == ErrorKind::Engine
    &&& error.message@ == engine_message(cause)
}

/// `error` is what a caller sees of a failed broadcast.
pub open spec fn is_relay_error(error: ServiceError, cause: RelayError) -> bool {
    &&& error.kind == relay_kind(cause)
    &&& error.message@ == relay_message(cause)
}

/// Decodes a text and computes the identifier of what it holds.
fn prepare(text: &EncodedTransaction) -> (r: Result<DecodedTransaction, ServiceError>)
    ensures
        match r {
            Ok(tx) => decoded(text@) matches Ok(found) && tx@ == identified(found),
            Err(error) => decoded(text@) matches Err(cause) && is_decode_error(error, cause),
        },
{
    match decode(text) {
        Ok(tx) => {
            let mut tx = tx;
            let _ = compute_identity(&mut tx);
            Ok(tx)
        },
        Err(cause) => Err(ServiceError::from_codec(cause)),
    }
}

impl TxMutation {
    /// First step of a dry run.
    ///
    /// A text that decodes gives the call for the engine: the transaction
    /// with its identifier computed, no block height, and the validation
    /// flag as it was given. A text that does not decode gives the decode
    /// error, and the engine is not to be called.
    pub fn dry_run(&self, tx: &EncodedTransaction, utxo_validation: Option<bool>) -> (r: Result<
        SimulationCall,
        ServiceError,
    >)
        ensures
            match r {
                Ok(call) => decoded(tx@) matches Ok(found) && call@ == (SimulationView {
                    tx: identified(found),
                    block_height: None,
                    utxo_validation,
                }),
                Err(error) => decoded(tx@) matches Err(cause) && is_decode_error(error, cause),
            },
    {
        match prepare(tx) {
            Ok(tx) => Ok(SimulationCall { tx, block_height: None, utxo_validation }),
            Err(error) => Err(error),
        }
    }

    /// Second step of a dry run: the engine's receipts become records, one
    /// for one and in the engine's order; the engine's error becomes the
    /// caller's. The call is used up, and nothing is tried again.
    pub fn dry_run_reply(
        &self,
        call: SimulationCall,
        reply: Result<Vec<ExecutionReceipt>, EngineError>,
    ) -> (r: Result<Vec<ReceiptRecord>, ServiceError>)
        ensures
            match r {
                Ok(records) => reply matches Ok(receipts) && show_all(records@, receipts@),
                Err(error) => reply matches Err(cause) && is_engine_error(error, cause),
            },
    {
        match reply {
            Ok(receipts) => Ok(records_of(&receipts)),
            Err(cause) => Err(ServiceError::from_engine(cause)),
        }
    }

    /// First step of a submission.
    ///
    /// A text that decodes gives the call for the relay: the transaction
    /// with its identifier computed, whose bytes are the payload. A text
    /// that does not decode gives the decode error, and nothing is to be
    /// sent.
    pub fn submit(&self, tx: &EncodedTransaction) -> (r: Result<RelayCall, ServiceError>)
        ensures
            match r {
                Ok(call) => decoded(tx@) matches Ok(found) && call@ == identified(found),
                Err(error) => decoded(tx@) matches Err(cause) && is_decode_error(error, cause),
            },
    {
        match prepare(tx) {
            Ok(tx) => {
                let body = commit_request(tx.bytes());
                Ok(RelayCall { tx, body })
            },
            Err(error) => Err(error),
        }
    }

    /// Second step of a submission: after a commit the transaction is
    /// echoed back as it was decoded; a relay error becomes the caller's
    /// error of the matching kind. The call is used up, and nothing is sent
    /// again.
    pub fn submit_reply(&self, call: RelayCall, reply: Result<ConsensusAck, RelayError>) -> (r:
        Result<TransactionRecord, ServiceError>)
        ensures
            match r {
                Ok(record) => reply is Ok && echoes(record, call@),
                Err(error) => reply matches Err(cause) && is_relay_error(error, cause),
            },
    {
        proof {
            use_type_invariant(&call);
        }
        match reply {
            Ok(_) => match call.tx.identity() {
                Some(id) => Ok(
                    TransactionRecord {
                        id,
                        kind: call.tx.kind(),
                        raw_payload: encode(&call.tx),
                    },
                ),
                None => unreached(),
            },
            Err(cause) => Err(ServiceError::from_relay(cause)),
        }
    }
}

/// Whatever reaches the engine or the relay was decoded first: the bytes of
/// a call are those that the text stands for, they are a transaction, and
/// their identifier is computed.
pub proof fn lemma_only_decoded_is_dispatched(text: Seq<u8>, call: TransactionView)
    requires
        decoded(text) matches Ok(found) && call == identified(found),
    ensures
        well_formed(call),
        call.bytes == hex_bytes(digits_of(text)),
        call.identity == Some(tx_digest(call.bytes)),
{
    lemma_decodes_iff(text);
}

} // verus!
