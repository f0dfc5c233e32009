//! The one error type of the library.

use vstd::prelude::*;

verus! {

/// Why an operation of the library did not succeed.
#[derive(Debug, Clone, Copy, PartialEq, Eq, Structural)]
pub enum SwapError {
    /// The seller lacks the unspent outputs to pay what is asked.
    InsufficientFunds,
    /// A response names a request that is not stored locally.
    MissingRequest,
    /// The seller's store lacks the preimage needed to claim the ETH.
    MissingPreimage,
    /// An Ethereum swap exists for the preimage hash with another value.
    MismatchedCommitment,
    /// The BTC claim was asked for before the preimage was revealed.
    PreimageNotRevealed,
    /// A chain did not show the awaited state within the attempts allowed.
    ChainBackoff,
    /// No completed offer stands at the index given.
    IndexOutOfRange,
    /// Bytes or text that are not the canonical form of a record.
    Malformed,
    /// A response does not answer the request that it names.
    MismatchedResponse,
    /// The ETH lockup is not strictly shorter than the BTC lockup.
    UnsafeLockup,
    /// The database refused an operation.
    Storage,
    /// The key material could not be used, or signing failed.
    Keyring,
    /// An amount does not fit the field that carries it.
    ValueOutOfRange,
}

impl SwapError {
    /// The sentence that tells the user of the error.
    pub open spec fn spec_message(self) -> Seq<char> {
        match self {
            SwapError::InsufficientFunds => "You don't have enough unspent outputs to create this swap"@,
            SwapError::MissingRequest => "No offer / request locally"@,
            SwapError::MissingPreimage => "No preimage for this swap!"@,
            SwapError::MismatchedCommitment => "swap commitment doesn't have the bought ETH amount"@,
            SwapError::PreimageNotRevealed => "Preimage isn't committed yet!"@,
            SwapError::ChainBackoff => "Not committed yet, try again later!"@,
            SwapError::IndexOutOfRange => "No offer locally"@,
            SwapError::Malformed => "Not a well-formed offer"@,
            SwapError::MismatchedResponse => "The response does not match the offer"@,
            SwapError::UnsafeLockup => "The ETH lockup must be shorter than the BTC lockup"@,
            SwapError::Storage => "The swap database failed"@,
            SwapError::Keyring => "The wallet key could not be used"@,
            SwapError::ValueOutOfRange => "Amount out of range"@,
        }
    }

    /// A sentence for the user.
    pub fn message(&self) -> (text: String)
        ensures
            text@ == self.spec_message(),
    {
        match self {
            SwapError::InsufficientFunds => "You don't have enough unspent outputs to create this swap".to_owned(),
            SwapError::MissingRequest => "No offer / request locally".to_owned(),
            SwapError::MissingPreimage => "No preimage for this swap!".to_owned(),
            SwapError::MismatchedCommitment => "swap commitment doesn't have the bought ETH amount".to_owned(),
            SwapError::PreimageNotRevealed => "Preimage isn't committed yet!".to_owned(),
            SwapError::ChainBackoff => "Not committed yet, try again later!".to_owned(),
            SwapError::IndexOutOfRange => "No offer locally".to_owned(),
            SwapError::Malformed => "Not a well-formed offer".to_owned(),
            SwapError::MismatchedResponse => "The response does not match the offer".to_owned(),
            SwapError::UnsafeLockup => "The ETH lockup must be shorter than the BTC lockup".to_owned(),
            SwapError::Storage => "The swap database failed".to_owned(),
            SwapError::Keyring => "The wallet key could not be used".to_owned(),
            SwapError::ValueOutOfRange => "Amount out of range".to_owned(),
        }
    }
}

} // verus!
