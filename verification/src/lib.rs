//! Collateral accounting for a multi-chain staking mesh.
//!
//! A central vault holds user collateral and grants bounded, revocable claims
//! ("liens") against it to independent staking modules. Because every
//! state-changing operation crosses a contract boundary asynchronously
//! (dispatch a message, await its reply), each lien tracks a bounded
//! uncertainty range: a confirmed `low` bound and a speculative `high` bound,
//! reconciled when the reply arrives. An epoch scheduler drives periodic
//! reconciliation such as price refreshes.

pub mod coin;
pub mod error;
pub mod decimal;
pub mod range;
pub mod scheduler;
pub mod simple_price_feed;
pub mod remote_price_feed;
pub mod msg;
pub mod vault;
pub mod staking;
