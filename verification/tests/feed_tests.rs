use mesh_core::coin::coin;
use mesh_core::decimal::Decimal;
use mesh_core::error::ContractError;
use mesh_core::remote_price_feed::{
    handle_epoch, sudo, AuthorizedEndpoint, RemotePriceFeedContract, RemotePriceFeedPacket,
    SudoMsg, TradingPair,
};
use mesh_core::scheduler::Scheduler;
use mesh_core::simple_price_feed::SimplePriceFeedContract;

fn pair() -> TradingPair {
    TradingPair {
        pool_id: 7,
        base_asset: "OSMO".to_string(),
        quote_asset: "JUNO".to_string(),
    }
}

fn endpoint() -> AuthorizedEndpoint {
    AuthorizedEndpoint {
        connection_id: "connection-1".to_string(),
        port_id: "wasm.xyz".to_string(),
    }
}

fn feed_with_ttl(ttl: u64) -> RemotePriceFeedContract {
    let mut feed = RemotePriceFeedContract::new();
    feed.instantiate(vec![], pair(), endpoint(), 100, ttl, 0).unwrap();
    feed
}

#[test]
fn trigger_is_idempotent_before_the_boundary() {
    let mut s = Scheduler::init(1000, 100);
    assert_eq!(s.next_due, 1100);

    // before the boundary: a no-op, not an error, however often it fires
    assert!(!s.trigger(1000));
    let snapshot = s;
    assert!(!s.trigger(1099));
    assert_eq!(s, snapshot);
    assert!(!s.trigger(1099));
    assert_eq!(s, snapshot);

    // at the boundary: fires once, then the same instant is a no-op again
    assert!(s.trigger(1100));
    assert_eq!(s.next_due, 1200);
    assert!(!s.trigger(1100));
    assert_eq!(s.next_due, 1200);
}

#[test]
fn trigger_catches_up_after_a_gap_in_one_call() {
    let mut s = Scheduler::init(1000, 100);
    assert!(s.trigger(1100));
    assert_eq!(s.next_due, 1200);

    // a multi-period halt: one call lands on the correct boundary
    assert!(s.trigger(1450));
    assert_eq!(s.next_due, 1500);
    assert!(!s.trigger(1450));

    // landing exactly on a boundary advances one whole period
    assert!(s.trigger(1500));
    assert_eq!(s.next_due, 1600);
}

#[test]
fn price_freshness_round_trip() {
    let mut feed = feed_with_ttl(50);

    // never populated: no price is served
    assert_eq!(feed.price(10).unwrap_err(), ContractError::NoPriceData);

    let p = Decimal::percent(250); // 2.5 native per foreign
    feed.update_price(p, 200).unwrap();

    // up to the allowance the same price comes back
    assert_eq!(feed.price(200).unwrap().native_per_foreign, p);
    assert_eq!(feed.price(249).unwrap().native_per_foreign, p);
    assert_eq!(feed.price(250).unwrap().native_per_foreign, p);

    // past it the read fails rather than serve stale data
    assert_eq!(feed.price(251).unwrap_err(), ContractError::StalePriceData);

    // a newer sample replaces the record atomically
    let q = Decimal::percent(300);
    feed.update_price(q, 400).unwrap();
    assert_eq!(feed.price(420).unwrap().native_per_foreign, q);
}

#[test]
fn epoch_emits_one_query_over_the_open_channel() {
    let mut feed = feed_with_ttl(50);

    // before the boundary: nothing is owed
    assert_eq!(sudo(&mut feed, SudoMsg::HandleEpoch, 50).unwrap(), None);

    // at the boundary without a channel: the trigger fails whole, the
    // schedule does not advance
    let err = sudo(&mut feed, SudoMsg::HandleEpoch, 100).unwrap_err();
    assert_eq!(err, ContractError::IbcChannelNotOpen);
    assert_eq!(feed.scheduler.unwrap().next_due, 100);

    feed.open_channel("channel-3".to_string());
    let pkt = sudo(&mut feed, SudoMsg::HandleEpoch, 100).unwrap().unwrap();
    assert_eq!(
        pkt,
        RemotePriceFeedPacket::QueryTwap {
            pool_id: 7,
            base_asset: "OSMO".to_string(),
            quote_asset: "JUNO".to_string(),
        }
    );
    assert_eq!(feed.scheduler.unwrap().next_due, 200);

    // the same instant again: idempotent, no second query
    assert_eq!(sudo(&mut feed, SudoMsg::HandleEpoch, 100).unwrap(), None);

    // handle_epoch alone builds the same packet read-only
    assert_eq!(handle_epoch(&feed).unwrap(), pkt);
}

#[test]
fn simple_feed_is_owner_gated() {
    let mut feed = SimplePriceFeedContract::new();
    let owner = "owner1".to_string();
    let other = "intruder".to_string();

    feed.instantiate(owner.clone(), vec![], Decimal::percent(120), None)
        .unwrap();

    assert_eq!(
        feed.price().unwrap().native_per_foreign,
        Decimal::percent(120)
    );
    let cfg = feed.config().unwrap();
    assert_eq!(cfg.owner, "owner1");

    // only the owner may update
    assert_eq!(
        feed.update_price(&other, &vec![], Decimal::percent(500))
            .unwrap_err(),
        ContractError::Unauthorized
    );
    assert_eq!(
        feed.price().unwrap().native_per_foreign,
        Decimal::percent(120)
    );

    feed.update_price(&owner, &vec![], Decimal::percent(500))
        .unwrap();
    assert_eq!(
        feed.price().unwrap().native_per_foreign,
        Decimal::percent(500)
    );

    // nothing to do on an epoch for the owner-fed feed
    feed.handle_epoch().unwrap();
}

#[test]
fn simple_feed_rejects_attached_funds() {
    let mut feed = SimplePriceFeedContract::new();
    let owner = "owner1".to_string();
    let err = feed
        .instantiate(
            owner.clone(),
            vec![coin(5, "OSMO")],
            Decimal::percent(100),
            None,
        )
        .unwrap_err();
    assert_eq!(err, ContractError::Payment);

    feed.instantiate(owner.clone(), vec![], Decimal::percent(100), Some("boss".to_string()))
        .unwrap();
    assert_eq!(feed.config().unwrap().owner, "boss");

    let err = feed
        .update_price(&"boss".to_string(), &vec![coin(5, "OSMO")], Decimal::percent(1))
        .unwrap_err();
    assert_eq!(err, ContractError::Payment);
}
