//! The one error that a request can end in: a kind and a message.

use crate::codec::CodecError;
use crate::relay::RelayError;
use vstd::prelude::*;

verus! {

/// Why the engine did not return receipts.
#[derive(Clone, Copy, Debug, PartialEq, Eq, Structural)]
pub enum EngineError {
    /// The transaction is well formed but was refused: a bad signature, a
    /// missing input, too few resources.
    ValidationFailed,
    /// The run itself broke down.
    ExecutionFailed,
}

/// What went wrong, as coarsely as a caller needs it to choose what to do
/// next.
#[derive(Clone, Copy, Debug, PartialEq, Eq, Structural)]
pub enum ErrorKind {
    /// The text is no transaction. Nothing was sent anywhere.
    Decode,
    /// The engine failed the dry run.
    Engine,
    /// Consensus refused the transaction.
    Rejected,
    /// No commit was confirmed in time; the transaction may yet be
    /// committed.
    Timeout,
    /// Consensus could not be reached.
    Unreachable,
}

/// The error a caller sees.
#[derive(Clone, Debug, PartialEq, Eq)]
pub struct ServiceError {
    pub kind: ErrorKind,
    pub message: String,
}

/// The message for a text that is no transaction.
pub open spec fn codec_message(e: CodecError) -> Seq<char> {
    match e {
        CodecError::InvalidHex => "transaction is not valid hexadecimal text"@,
        CodecError::InvalidTransactionFormat => "bytes are not a well-formed transaction"@,
    }
}

/// The message for a failed dry run.
pub open spec fn engine_message(e: EngineError) -> Seq<char> {
    match e {
        EngineError::ValidationFailed => "transaction failed validation"@,
        EngineError::ExecutionFailed => "transaction execution failed"@,
    }
}

/// The kind of a failed broadcast: each relay error keeps a kind of its
/// own.
pub open spec fn relay_kind(e: RelayError) -> ErrorKind {
    match e {
        RelayError::Rejected => ErrorKind::Rejected,
        RelayError::Timeout => ErrorKind::Timeout,
        RelayError::Unreachable => ErrorKind::Unreachable,
    }
}

/// The message for a failed broadcast.
pub open spec fn relay_message(e: RelayError) -> Seq<char> {
    match e {
        RelayError::Rejected => "consensus rejected the transaction"@,
        RelayError::Timeout => "no commit confirmation in time; the transaction may still be committed"@,
        RelayError::Unreachable => "consensus endpoint is unreachable"@,
    }
}

impl ServiceError {
    /// The error for a text that is no transaction.
    pub fn from_codec(e: CodecError) -> (error: ServiceError)
        ensures
            error.kind == ErrorKind::Decode,
            error.message@ == codec_message(e),
    {
        let message = match e {
            CodecError::InvalidHex => String::from_str("transaction is not valid hexadecimal text"),
            CodecError::InvalidTransactionFormat => String::from_str(
                "bytes are not a well-formed transaction",
            ),
        };
        ServiceError { kind: ErrorKind::Decode, message }
    }

    /// The error for a failed dry run.
    pub fn from_engine(e: EngineError) -> (error: ServiceError)
        ensures
            error.kind == ErrorKind::Engine,
            error.message@ == engine_message(e),
    {
        let message = match e {
            EngineError::ValidationFailed => String::from_str("transaction failed validation"),
            EngineError::ExecutionFailed => String::from_str("transaction execution failed"),
        };
        ServiceError { kind: ErrorKind::Engine, message }
    }

    /// The error for a failed broadcast.
    pub fn from_relay(e: RelayError) -> (error: ServiceError)
        ensures
            error.kind == relay_kind(e),
            error.message@ == relay_message(e),
    {
        match e {
            RelayError::Rejected => ServiceError {
                kind: ErrorKind::Rejected,
                message: String::from_str("consensus rejected the transaction"),
            },
            RelayError::Timeout => ServiceError {
                kind: ErrorKind::Timeout,
                message: String::from_str(
                    "no commit confirmation in time; the transaction may still be committed",
                ),
            },
            RelayError::Unreachable => ServiceError {
                kind: ErrorKind::Unreachable,
                message: String::from_str("consensus endpoint is unreachable"),
            },
        }
    }
}

/// A timeout is never reported as a rejection, nor a rejection as a
/// timeout: the kind of a failed broadcast tells the three relay errors
/// apart.
pub proof fn lemma_relay_kinds_distinct(a: RelayError, b: RelayError)
    ensures
        relay_kind(a) == relay_kind(b) <==> a == b,
        relay_kind(a) != ErrorKind::Decode,
        relay_kind(a) != ErrorKind::Engine,
{
}

} // verus!
