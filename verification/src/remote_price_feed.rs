//! A price feed reconciled over a cross-chain channel: each epoch boundary
//! emits one outbound query for the configured trading pair, and the
//! asynchronous reply overwrites the price record atomically. A read is
//! served only while the record is within its freshness allowance.

use vstd::prelude::*;

use crate::coin::Coin;
use crate::decimal::Decimal;
use crate::error::ContractError;
use crate::scheduler::Scheduler;
use crate::scheduler::spec_trigger;

verus! {

/// The pair whose rate the feed tracks, on the remote pool.
#[derive(Debug, Clone, PartialEq, Eq)]
pub struct TradingPair {
    pub pool_id: u64,
    pub base_asset: String,
    pub quote_asset: String,
}

/// The remote endpoint authorized to open the feed's channel.
#[derive(Debug, Clone, PartialEq, Eq)]
pub struct AuthorizedEndpoint {
    pub connection_id: String,
    pub port_id: String,
}

/// The last confirmed price sample: the rate and when it was observed.
#[derive(Debug, Clone, Copy, PartialEq, Eq, Structural)]
pub struct PriceInfo {
    pub native_per_foreign: Decimal,
    pub time: u64,
}

/// What the price query returns.
#[derive(Debug, Clone, Copy, PartialEq, Eq, Structural)]
pub struct PriceResponse {
    pub native_per_foreign: Decimal,
}

/// The packet an epoch boundary sends out over the channel.
#[derive(Debug, Clone, PartialEq, Eq)]
pub enum RemotePriceFeedPacket {
    QueryTwap { pool_id: u64, base_asset: String, quote_asset: String },
}

/// The privileged calls the chain itself makes into the feed.
#[derive(Debug, Clone, PartialEq, Eq)]
pub enum SudoMsg {
    HandleEpoch,
}

/// The cross-chain price feed contract.
#[derive(Debug, Clone, PartialEq, Eq)]
pub struct RemotePriceFeedContract {
    pub channel: Option<String>,
    pub trading_pair: Option<TradingPair>,
    pub price_info: Option<PriceInfo>,
    pub price_info_ttl_in_secs: u64,
    pub scheduler: Option<Scheduler>,
    pub auth_endpoint: Option<AuthorizedEndpoint>,
}

/// What a price read at `now` returns: the rate while the record is within
/// its freshness allowance, otherwise the matching failure.
pub open spec fn spec_price_result(f: RemotePriceFeedContract, now: u64) -> Result<
    PriceResponse,
    ContractError,
> {
    match f.price_info {
        None => Err(ContractError::NoPriceData),
        Some(info) => if now <= info.time + f.price_info_ttl_in_secs {
            Ok(PriceResponse { native_per_foreign: info.native_per_foreign })
        } else {
            Err(ContractError::StalePriceData)
        },
    }
}

/// The feed after a confirmed price reply: the record is replaced
/// atomically, nothing else moves.
pub open spec fn spec_update_price(
    f: RemotePriceFeedContract,
    native_per_foreign: Decimal,
    time: u64,
) -> RemotePriceFeedContract {
    RemotePriceFeedContract {
        price_info: Some(PriceInfo { native_per_foreign, time }),
        ..f
    }
}

impl RemotePriceFeedContract {
    /// Well-formed: an initialized schedule has a positive epoch length.
    pub open spec fn wf(&self) -> bool {
        self.scheduler matches Some(s) ==> s.wf()
    }

    /// A fresh, not yet instantiated contract.
    pub fn new() -> (r: RemotePriceFeedContract)
        ensures
            r.channel is None,
            r.trading_pair is None,
            r.price_info is None,
            r.scheduler is None,
            r.auth_endpoint is None,
            r.wf(),
    {
        RemotePriceFeedContract {
            channel: None,
            trading_pair: None,
            price_info: None,
            price_info_ttl_in_secs: 0,
            scheduler: None,
            auth_endpoint: None,
        }
    }

    /// Set up the feed: the pair to track, the endpoint allowed to connect,
    /// the epoch length and the freshness allowance. Rejects attached funds.
    /// No price is assumed until a reply confirms one.
    pub fn instantiate(
        &mut self,
        funds: Vec<Coin>,
        trading_pair: TradingPair,
        auth_endpoint: AuthorizedEndpoint,
        epoch_in_secs: u64,
        price_info_ttl_in_secs: u64,
        now: u64,
    ) -> (r: Result<(), ContractError>)
        requires
            1 <= epoch_in_secs,
            now + epoch_in_secs <= u64::MAX,
        ensures
            funds@.len() != 0 ==> r == Err::<(), ContractError>(ContractError::Payment)
                && *final(self) == *old(self),
            funds@.len() == 0 ==> r == Ok::<(), ContractError>(()) && *final(self) == (
            RemotePriceFeedContract {
                channel: old(self).channel,
                trading_pair: Some(trading_pair),
                price_info: old(self).price_info,
                price_info_ttl_in_secs,
                scheduler: Some((Scheduler { next_due: (now + epoch_in_secs) as u64, period: epoch_in_secs })),
                auth_endpoint: Some(auth_endpoint),
            }),
            r is Ok ==> final(self).wf(),
    {
        if funds.len() != 0 {
            return Err(ContractError::Payment);
        }
        self.trading_pair = Some(trading_pair);
        self.price_info_ttl_in_secs = price_info_ttl_in_secs;
        self.scheduler = Some(Scheduler::init(now, epoch_in_secs));
        self.auth_endpoint = Some(auth_endpoint);
        Ok(())
    }

    /// Record the channel the authorized endpoint opened; epochs can emit
    /// queries only once this is set.
    pub fn open_channel(&mut self, channel_id: String)
        ensures
            *final(self) == (RemotePriceFeedContract { channel: Some(channel_id), ..*old(self) }),
    {
        self.channel = Some(channel_id);
    }

    /// Apply a confirmed price reply: both fields of the record are replaced
    /// atomically with the returned rate and the observation time.
    pub fn update_price(&mut self, native_per_foreign: Decimal, time: u64) -> (r: Result<
        (),
        ContractError,
    >)
        ensures
            r == Ok::<(), ContractError>(()),
            *final(self) == spec_update_price(*old(self), native_per_foreign, time),
    {
        self.price_info = Some(PriceInfo { native_per_foreign, time });
        Ok(())
    }

    /// Read the price at `now`: how many native tokens buy one foreign
    /// token. Served only from a record no older than the freshness
    /// allowance; otherwise the read fails rather than return stale data.
    pub fn price(&self, now: u64) -> (r: Result<PriceResponse, ContractError>)
        ensures
            r == spec_price_result(*self, now),
    {
        match &self.price_info {
            None => Err(ContractError::NoPriceData),
            Some(info) => {
                if now <= info.time || now - info.time <= self.price_info_ttl_in_secs {
                    Ok(PriceResponse { native_per_foreign: info.native_per_foreign })
                } else {
                    Err(ContractError::StalePriceData)
                }
            },
        }
    }
}

/// Build the outbound query one epoch boundary owes: the configured pair,
/// over the open channel. No local state changes here; the price is not
/// assumed until its reply is confirmed.
pub fn handle_epoch(contract: &RemotePriceFeedContract) -> (r: Result<
    RemotePriceFeedPacket,
    ContractError,
>)
    ensures
        contract.trading_pair is None ==> (r matches Err(ContractError::Std(_))),
        contract.trading_pair is Some && contract.channel is None ==> r == Err::<
            RemotePriceFeedPacket,
            ContractError,
        >(ContractError::IbcChannelNotOpen),
        contract.trading_pair matches Some(tp) ==> (contract.channel is Some ==> (r matches Ok(pkt)
            && pkt matches (RemotePriceFeedPacket::QueryTwap { pool_id, base_asset, quote_asset })
            && pool_id == tp.pool_id && base_asset@ == tp.base_asset@ && quote_asset@
            == tp.quote_asset@)),
{
    match &contract.trading_pair {
        None => Err(ContractError::Std("trading pair not found".to_owned())),
        Some(tp) => {
            match &contract.channel {
                None => Err(ContractError::IbcChannelNotOpen),
                Some(_) => Ok(
                    RemotePriceFeedPacket::QueryTwap {
                        pool_id: tp.pool_id,
                        base_asset: tp.base_asset.clone(),
                        quote_asset: tp.quote_asset.clone(),
                    },
                ),
            }
        },
    }
}

/// Dispatch a privileged call. An epoch trigger is idempotent: before the
/// boundary it does nothing; at or past it, it advances the schedule and
/// emits the query owed for this boundary — all or nothing, so a failure to
/// build the query leaves the schedule untouched.
pub fn sudo(contract: &mut RemotePriceFeedContract, msg: SudoMsg, now: u64) -> (r: Result<
    Option<RemotePriceFeedPacket>,
    ContractError,
>)
    requires
        old(contract).wf(),
        old(contract).scheduler matches Some(s) ==> now + s.period <= u64::MAX,
    ensures
        final(contract).wf(),
        r is Err ==> *final(contract) == *old(contract),
        old(contract).scheduler is None ==> ((r matches Err(ContractError::Std(_)))
            && *final(contract) == *old(contract)),
        old(contract).scheduler matches Some(s) ==> ({
            if now < s.next_due {
                r == Ok::<Option<RemotePriceFeedPacket>, ContractError>(None) && *final(contract)
                    == *old(contract)
            } else if old(contract).trading_pair is None {
                (r matches Err(ContractError::Std(_))) && *final(contract) == *old(contract)
            } else if old(contract).channel is None {
                r == Err::<Option<RemotePriceFeedPacket>, ContractError>(
                    ContractError::IbcChannelNotOpen,
                ) && *final(contract) == *old(contract)
            } else {
                *final(contract) == (RemotePriceFeedContract {
                    scheduler: Some(spec_trigger(s, now)),
                    ..*old(contract)
                }) && (r matches Ok(Some(pkt)) && (old(contract).trading_pair matches Some(tp)
                    && pkt matches (RemotePriceFeedPacket::QueryTwap {
                    pool_id,
                    base_asset,
                    quote_asset,
                }) && pool_id == tp.pool_id && base_asset@ == tp.base_asset@ && quote_asset@
                    == tp.quote_asset@))
            }
        }),
{
    match msg {
        SudoMsg::HandleEpoch => {
            let fired: bool;
            let saved: Scheduler;
            match &mut contract.scheduler {
                None => {
                    return Err(ContractError::Std("scheduler not initialized".to_owned()));
                },
                Some(s) => {
                    saved = *s;
                    fired = s.trigger(now);
                },
            }
            if !fired {
                return Ok(None);
            }
            match handle_epoch(contract) {
                Ok(pkt) => Ok(Some(pkt)),
                Err(e) => {
                    // the schedule only advances together with the query it
                    // owes: roll the trigger back on failure
                    contract.scheduler = Some(saved);
                    Err(e)
                },
            }
        },
    }
}

/// Law: a confirmed price at `t` is served back unchanged by any read up to
/// `t` plus the freshness allowance, and refused as stale by any later read.
pub proof fn lemma_price_freshness_round_trip(
    f: RemotePriceFeedContract,
    p: Decimal,
    t: u64,
    now: u64,
)
    ensures
        now <= t + f.price_info_ttl_in_secs ==> spec_price_result(spec_update_price(f, p, t), now)
            == Ok::<PriceResponse, ContractError>((PriceResponse { native_per_foreign: p })),
        now > t + f.price_info_ttl_in_secs ==> spec_price_result(spec_update_price(f, p, t), now)
            == Err::<PriceResponse, ContractError>(ContractError::StalePriceData),
{
}

} // verus!
