//! A denominated token amount, the unit in which funds travel between
//! contracts.

use vstd::prelude::*;

verus! {

/// An amount of one token denomination.
#[derive(Debug, Clone, PartialEq, Eq)]
pub struct Coin {
    pub denom: String,
    pub amount: u128,
}

/// Build a coin from an amount and a denom.
pub fn coin(amount: u128, denom: &str) -> (r: Coin)
    ensures
        r.amount == amount,
        r.denom@ == denom@,
{
    Coin { denom: denom.to_owned(), amount }
}

} // verus!
