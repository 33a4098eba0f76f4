//! The custom messages a virtual-staking chain understands: minting and
//! delegating bounded "virtual" stake against an established cap.

use vstd::prelude::*;

use crate::coin::Coin;

verus! {

/// The top-level custom message envelope, so other chain-specific variants
/// can sit alongside virtual staking.
#[derive(Debug, Clone, PartialEq, Eq)]
pub enum VirtualStakeCustomMsg {
    VirtualStake(VirtualStakeMsg),
}

/// Messages for a chain that supports virtual staking.
#[derive(Debug, Clone, PartialEq, Eq)]
pub enum VirtualStakeMsg {
    /// Mint `amount` against the caller's cap and delegate it to the named
    /// validator; the chain enforces the cap and the staking denom.
    Bond { amount: Coin, validator: String },
    /// Instantly undelegate `amount` from the named validator and burn it
    /// from the caller's account; the chain checks enough is bonded.
    Unbond { amount: Coin, validator: String },
    /// Shift `amount` of recorded delegation for `delegator` on `validator`,
    /// deducting when `is_deduct` is set.
    UpdateDelegation { amount: Coin, is_deduct: bool, delegator: String, validator: String },
}

impl VirtualStakeMsg {
    /// The bond message for `amount` of `denom` on `validator`.
    pub fn bond(denom: &str, amount: u128, validator: &str) -> (r: VirtualStakeMsg)
        ensures
            r matches (VirtualStakeMsg::Bond { amount: c, validator: v }) && c.amount == amount
                && c.denom@ == denom@ && v@ == validator@,
    {
        let coin = Coin { amount, denom: denom.to_owned() };
        VirtualStakeMsg::Bond { amount: coin, validator: validator.to_owned() }
    }

    /// The unbond message for `amount` of `denom` on `validator`.
    pub fn unbond(denom: &str, amount: u128, validator: &str) -> (r: VirtualStakeMsg)
        ensures
            r matches (VirtualStakeMsg::Unbond { amount: c, validator: v }) && c.amount == amount
                && c.denom@ == denom@ && v@ == validator@,
    {
        let coin = Coin { amount, denom: denom.to_owned() };
        VirtualStakeMsg::Unbond { amount: coin, validator: validator.to_owned() }
    }

    /// The delegation update for `amount` of `denom`, for `delegator` on
    /// `validator`.
    pub fn update_delegation(
        denom: &str,
        is_deduct: bool,
        amount: u128,
        delegator: &str,
        validator: &str,
    ) -> (r: VirtualStakeMsg)
        ensures
            r matches (VirtualStakeMsg::UpdateDelegation {
                amount: c,
                is_deduct: d,
                delegator: dl,
                validator: v,
            }) && c.amount == amount && c.denom@ == denom@ && d == is_deduct && dl@ == delegator@
                && v@ == validator@,
    {
        let coin = Coin { amount, denom: denom.to_owned() };
        VirtualStakeMsg::UpdateDelegation {
            amount: coin,
            is_deduct,
            delegator: delegator.to_owned(),
            validator: validator.to_owned(),
        }
    }

    /// Wrap the message in the chain's custom envelope.
    pub fn into_custom(self) -> (r: VirtualStakeCustomMsg)
        ensures
            r == VirtualStakeCustomMsg::VirtualStake(self),
    {
        VirtualStakeCustomMsg::VirtualStake(self)
    }
}

} // verus!
