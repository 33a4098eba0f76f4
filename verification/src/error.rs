//! The error taxonomy shared by the mesh contracts.

use vstd::prelude::*;

verus! {

/// Everything a mesh contract call can fail with.
///
/// Validation errors (wrong denom, unauthorized caller, exceeding collateral
/// capacity, invalid range operation) are rejected before any mutation; state
/// errors (missing or stale price data, unknown reply id, accounting mismatch
/// on release) likewise abort without partial mutation.
#[derive(Debug, Clone, PartialEq, Eq)]
pub enum ContractError {
    /// A storage or runtime level failure, carrying its message.
    Std(String),
    /// Funds were attached where none are accepted, or required funds are
    /// missing or malformed.
    Payment,
    /// The caller is not entitled to this operation.
    Unauthorized,
    /// The denom does not match the configured staking denom.
    WrongDenom(String),
    /// Not enough staked on this validator to unbond the requested amount.
    InsufficientBond(String, u128),
    /// A reply arrived under a correlation id that no dispatched call owns.
    InvalidReplyId(u64),
    /// An operation that needs a validator set was given an empty one.
    NoValidators,
    /// The named virtual-staking account lacks the delegated funds.
    InsufficientDelegations(String, u128),
    /// Granting the lien would let speculative claims exceed the owner's
    /// deposited collateral.
    InsufficientCollateral,
    /// A range transition would leave the speculative bound below the
    /// confirmed one.
    InvalidValueRange,
    /// A release or slash reports more than the ledger has tracked at risk.
    AccountingMismatch,
    /// The price record was never populated.
    NoPriceData,
    /// The price record is older than its freshness allowance.
    StalePriceData,
    /// The cross-chain query channel has not been opened yet.
    IbcChannelNotOpen,
}

} // verus!
