//! The consensus relay: the request that is sent to it, and what its
//! answer, or the lack of one, means.

use tendermint_rpc::endpoint::broadcast::tx_commit::Request;
use tendermint_rpc::request::RequestMessage;
use vstd::prelude::*;

verus! {

/// What consensus assigned to a committed transaction.
#[derive(Clone, Copy, Debug, PartialEq, Eq, Structural)]
pub struct ConsensusAck {
    /// The height of the block that holds it, where the relay reported one.
    pub height: Option<u64>,
}

/// Why a broadcast did not end in a commit.
#[derive(Clone, Copy, Debug, PartialEq, Eq, Structural)]
pub enum RelayError {
    /// Consensus refused the transaction before commit.
    Rejected,
    /// No confirmation came in time. The transaction may still be
    /// committed later.
    Timeout,
    /// The endpoint could not be contacted at all.
    Unreachable,
}

/// What became of the one request that was sent.
#[derive(Clone, Copy, Debug, PartialEq, Eq, Structural)]
pub enum Delivery {
    /// The endpoint answered, with this HTTP status.
    Answered { status: u16, height: Option<u64> },
    /// The deadline passed without an answer.
    TimedOut,
    /// No connection could be made.
    ConnectFailed,
}

/// What a delivery means: an answer with a status from 200 to 299 is a
/// commit, any other answer a rejection; a passed deadline and a failed
/// connection are each their own error.
pub open spec fn outcome_of(delivery: Delivery) -> Result<ConsensusAck, RelayError> {
    match delivery {
        Delivery::Answered { status, height } => if 200 <= status <= 299 {
            Ok(ConsensusAck { height })
        } else {
            Err(RelayError::Rejected)
        },
        Delivery::TimedOut => Err(RelayError::Timeout),
        Delivery::ConnectFailed => Err(RelayError::Unreachable),
    }
}

/// Tells a commit from the three ways a broadcast can fail.
pub fn relay_outcome(delivery: Delivery) -> (outcome: Result<ConsensusAck, RelayError>)
    ensures
        outcome == outcome_of(delivery),
{
    match delivery {
        Delivery::Answered { status, height } => {
            if 200 <= status && status <= 299 {
                Ok(ConsensusAck { height })
            } else {
                Err(RelayError::Rejected)
            }
        },
        Delivery::TimedOut => Err(RelayError::Timeout),
        Delivery::ConnectFailed => Err(RelayError::Unreachable),
    }
}

/// `Request::new` and `RequestMessage::into_json` of the commit broadcast:
/// the JSON-RPC request that asks the endpoint to broadcast `tx` and to
/// answer once it is committed. Each request gets a fresh random id, so
/// nothing is claimed of the text.
#[verifier::external_body]
pub(crate) fn commit_request(tx: &[u8]) -> (body: String) {
    Request::new(tx).into_json()
}

} // verus!
