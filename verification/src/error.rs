//! The error kinds of the bridge core. Each is a local, synchronous
//! data-integrity failure surfaced to the caller; nothing is retried
//! internally and no partial result is ever returned beside one.

use crate::address::EthAddress;
use vstd::prelude::*;

verus! {

/// Why a bridge-core operation failed.
#[derive(Clone, Debug, PartialEq, Eq)]
pub enum PeggyError {
    /// A decoded record holds an inconsistent bridge state, such as a
    /// transfer with a null token field.
    InvalidBridgeState,
    /// A raw event log holds fewer indexed topics than its event kind
    /// requires.
    TooFewTopics,
    /// A validator-set member has no registered Ethereum address, so
    /// signatures cannot be matched or ordered against the set.
    IncompleteValidatorSet,
    /// A confirmation was signed by the carried address, which is not a
    /// member of the validator set.
    UnmatchedSignature(EthAddress),
    /// No validator-set member holds the looked-up address.
    NotFound,
    /// A batch with no transfers was requested; that is not a valid
    /// protocol state.
    EmptyBatch,
}

} // verus!
