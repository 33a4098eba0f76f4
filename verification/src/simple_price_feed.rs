//! A price feed fed directly by its owner: no cross-chain round trip, no
//! freshness window, just the latest value the owner posted.

use vstd::prelude::*;

use crate::coin::Coin;
use crate::decimal::Decimal;
use crate::error::ContractError;

verus! {

/// The feed's persisted configuration.
#[derive(Debug, Clone, PartialEq, Eq)]
pub struct Config {
    pub native_per_foreign: Decimal,
    pub owner: String,
}

/// What the config query returns.
#[derive(Debug, Clone, PartialEq, Eq)]
pub struct ConfigResponse {
    pub owner: String,
    pub native_per_foreign: Decimal,
}

/// What the price query returns: how many native tokens buy one foreign
/// token.
#[derive(Debug, Clone, Copy, PartialEq, Eq, Structural)]
pub struct PriceResponse {
    pub native_per_foreign: Decimal,
}

/// An owner-fed price feed contract.
#[derive(Debug, Clone, PartialEq, Eq)]
pub struct SimplePriceFeedContract {
    pub config: Option<Config>,
}

impl SimplePriceFeedContract {
    /// A fresh, not yet instantiated contract.
    pub fn new() -> (r: SimplePriceFeedContract)
        ensures
            r.config is None,
    {
        SimplePriceFeedContract { config: None }
    }

    /// Set up the contract with an initial price. When no owner is named in
    /// the message, the sender becomes the owner. Rejects attached funds.
    pub fn instantiate(
        &mut self,
        sender: String,
        funds: Vec<Coin>,
        native_per_foreign: Decimal,
        owner: Option<String>,
    ) -> (r: Result<(), ContractError>)
        ensures
            funds@.len() != 0 ==> r == Err::<(), ContractError>(ContractError::Payment)
                && *final(self) == *old(self),
            funds@.len() == 0 ==> r == Ok::<(), ContractError>(()) && final(self).config
                == Some(
                (Config {
                    native_per_foreign,
                    owner: if owner is Some {
                        owner->0
                    } else {
                        sender
                    },
                }),
            ),
    {
        if funds.len() != 0 {
            return Err(ContractError::Payment);
        }
        let owner = match owner {
            Some(owner) => owner,
            None => sender,
        };
        self.config = Some(Config { native_per_foreign, owner });
        Ok(())
    }

    /// Replace the posted price. Only the owner may call this; attached
    /// funds are rejected; an uninstantiated contract reports a storage
    /// failure.
    pub fn update_price(
        &mut self,
        sender: &String,
        funds: &Vec<Coin>,
        native_per_foreign: Decimal,
    ) -> (r: Result<(), ContractError>)
        ensures
            final(self).config is Some <==> old(self).config is Some,
            r is Err ==> *final(self) == *old(self),
            funds@.len() != 0 ==> r == Err::<(), ContractError>(ContractError::Payment),
            funds@.len() == 0 && old(self).config is None ==> (r matches Err(
                ContractError::Std(_),
            )),
            old(self).config matches Some(c) ==> (funds@.len() == 0 && sender@ != c.owner@ ==> r
                == Err::<(), ContractError>(ContractError::Unauthorized)) && (funds@.len() == 0
                && sender@ == c.owner@ ==> r == Ok::<(), ContractError>(()) && final(self).config
                == Some((Config { native_per_foreign, owner: c.owner }))),
    {
        if funds.len() != 0 {
            return Err(ContractError::Payment);
        }
        match &self.config {
            None => Err(ContractError::Std("config not found".to_owned())),
            Some(config) => {
                if !(*sender == config.owner) {
                    return Err(ContractError::Unauthorized);
                }
                let owner = config.owner.clone();
                self.config = Some(Config { native_per_foreign, owner });
                Ok(())
            },
        }
    }

    /// Read the configuration.
    pub fn config(&self) -> (r: Result<ConfigResponse, ContractError>)
        ensures
            self.config is None ==> (r matches Err(ContractError::Std(_))),
            self.config matches Some(c) ==> (r matches Ok(cr) && cr.owner@ == c.owner@
                && cr.native_per_foreign == c.native_per_foreign),
    {
        match &self.config {
            None => Err(ContractError::Std("config not found".to_owned())),
            Some(config) => Ok(
                ConfigResponse {
                    owner: config.owner.clone(),
                    native_per_foreign: config.native_per_foreign,
                },
            ),
        }
    }

    /// Read the price: the latest value the owner posted.
    pub fn price(&self) -> (r: Result<PriceResponse, ContractError>)
        ensures
            self.config is None ==> (r matches Err(ContractError::Std(_))),
            self.config matches Some(c) ==> r == Ok::<PriceResponse, ContractError>(
                (PriceResponse { native_per_foreign: c.native_per_foreign }),
            ),
    {
        match &self.config {
            None => Err(ContractError::Std("config not found".to_owned())),
            Some(config) => Ok(PriceResponse { native_per_foreign: config.native_per_foreign }),
        }
    }

    /// Nothing is owed on an epoch boundary for an owner-fed feed.
    pub fn handle_epoch(&self) -> (r: Result<(), ContractError>)
        ensures
            r == Ok::<(), ContractError>(()),
    {
        Ok(())
    }
}

} // verus!
