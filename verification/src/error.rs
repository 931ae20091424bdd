//! The ways in which the auction refuses outright.

use vstd::prelude::*;

verus! {

/// Why an auction was not created, or why nothing could be answered.
#[derive(Clone, Copy, Debug, PartialEq, Eq)]
pub enum ContractError {
    /// An auction has to sell something.
    ZeroSellAmount,
    /// The sale token and the bid token are the same token.
    SameToken,
    /// The ledger holds nothing under the key.
    NotFound,
    /// A bid's timestamp lies beyond the dates that can be written out.
    TimestampOutOfRange,
}

impl ContractError {
    /// The words that belong to an error.
    pub open spec fn text(self) -> Seq<char> {
        match self {
            ContractError::ZeroSellAmount => "Sell amount must be greater than 0"@,
            ContractError::SameToken => "Sell contract and bid contract must be different"@,
            ContractError::NotFound => "Bid not found"@,
            ContractError::TimestampOutOfRange => "Bid timestamp is out of range"@,
        }
    }

    /// The error in words.
    pub fn message(&self) -> (m: String)
        ensures
            m@ == self.text(),
    {
        match self {
            ContractError::ZeroSellAmount => "Sell amount must be greater than 0".to_owned(),
            ContractError::SameToken => "Sell contract and bid contract must be different"
                .to_owned(),
            ContractError::NotFound => "Bid not found".to_owned(),
            ContractError::TimestampOutOfRange => "Bid timestamp is out of range".to_owned(),
        }
    }
}

} // verus!
