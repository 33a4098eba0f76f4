use mesh_core::coin::{coin, Coin};
use mesh_core::decimal::Decimal;
use mesh_core::error::ContractError;
use mesh_core::range::ValueRange;
use mesh_core::staking::{NativeStakingContract, OwnerByProxyResponse, ProxyByOwnerResponse};
use mesh_core::vault::{LienResponse, VaultContract};

const OSMO: &str = "OSMO";

const SLASHING_PERCENTAGE: u64 = 15;

fn slashing_rate() -> Decimal {
    Decimal::percent(SLASHING_PERCENTAGE)
}

fn coins(amount: u128, denom: &str) -> Vec<Coin> {
    vec![coin(amount, denom)]
}

#[test]
fn instantiation() {
    let owner = "vault"; // Owner of the staking contract (i. e. the vault contract)

    let staking_proxy_code_id: u64 = 1;

    let mut staking = NativeStakingContract::new();
    staking
        .instantiate(
            owner.to_string(),
            OSMO.to_owned(),
            staking_proxy_code_id,
            slashing_rate(),
        )
        .unwrap();

    let config = staking.config().unwrap();
    assert_eq!(config.denom, OSMO);

    let res = staking.max_slash().unwrap();
    assert_eq!(res.max_slash, slashing_rate());
}

#[test]
fn receiving_stake() {
    let owner = "vault"; // Owner of the staking contract (i. e. the vault contract)

    let user1 = "user1"; // One who wants to local stake
    let user2 = "user2"; // Another one who wants to local stake

    let validator = "validator1"; // Validator to stake on

    let mut staking = NativeStakingContract::new();
    staking
        .instantiate(owner.to_string(), OSMO.to_owned(), 1, slashing_rate())
        .unwrap();

    // Check that no proxy exists for user1 yet
    let err = staking.proxy_by_owner(&user1.to_string()).unwrap_err();
    assert!(matches!(err, ContractError::Std(_))); // Addr not found

    // Receive some stake on behalf of user1 for validator
    staking
        .receive_stake(
            &owner.to_string(), // called from vault
            &user1.to_string(),
            &validator.to_string(),
            &coins(100, OSMO),
        )
        .unwrap();

    let proxy1 = staking.proxy_by_owner(&user1.to_string()).unwrap().proxy;
    // Reverse query
    assert_eq!(
        staking.owner_by_proxy(proxy1).unwrap(),
        OwnerByProxyResponse {
            owner: user1.to_owned(),
        }
    );

    // Check that funds are in the proxy contract
    assert_eq!(staking.proxy_balance(proxy1).unwrap(), 100);

    // Stake some more
    staking
        .receive_stake(
            &owner.to_string(), // called from vault
            &user1.to_string(),
            &validator.to_string(),
            &coins(50, OSMO),
        )
        .unwrap();

    // Check that same proxy is used
    assert_eq!(
        staking.proxy_by_owner(&user1.to_string()).unwrap(),
        ProxyByOwnerResponse { proxy: proxy1 }
    );

    // Reverse check
    assert_eq!(
        staking.owner_by_proxy(proxy1).unwrap(),
        OwnerByProxyResponse {
            owner: user1.to_owned(),
        }
    );

    // Check that funds are updated in the proxy contract
    assert_eq!(staking.proxy_balance(proxy1).unwrap(), 150);

    // Receive some stake on behalf of user2 for validator
    staking
        .receive_stake(
            &owner.to_string(), // called from vault
            &user2.to_string(),
            &validator.to_string(),
            &coins(10, OSMO),
        )
        .unwrap();

    let proxy2 = staking.proxy_by_owner(&user2.to_string()).unwrap().proxy;
    // Reverse query
    assert_eq!(
        staking.owner_by_proxy(proxy2).unwrap(),
        OwnerByProxyResponse {
            owner: user2.to_owned(),
        }
    );

    // Check that funds are in the corresponding proxy contract
    assert_eq!(staking.proxy_balance(proxy2).unwrap(), 10);
}

#[test]
fn releasing_proxy_stake() {
    let vault_addr = "contract0"; // First created contract
    let staking_addr = "contract1"; // Second contract (instantiated by vault)

    let user = "user1"; // One who wants to release stake
    let validator = "validator1";

    // Instantiates vault and staking contracts
    let mut vault = VaultContract::new(OSMO.to_owned(), staking_addr.to_string());
    let mut staking = NativeStakingContract::new();
    staking
        .instantiate(vault_addr.to_string(), OSMO.to_owned(), 1, slashing_rate())
        .unwrap();

    // Vault is empty
    assert_eq!(vault.balance, 0);

    // User bonds some funds to the vault
    vault
        .bond(&user.to_string(), &coins(200, OSMO))
        .unwrap();

    // Vault has the funds
    assert_eq!(vault.balance, 200);

    // Stakes some of it locally, to validator. This instantiates the staking
    // proxy for the user; the runtime delivers the dispatch and its reply.
    let instr = vault
        .stake_local(
            &user.to_string(),
            &vec![],
            &coin(100, OSMO),
            "stake".to_string(),
        )
        .unwrap();
    staking
        .receive_stake(
            &vault_addr.to_string(),
            &instr.owner,
            &validator.to_string(),
            &coins(instr.amount, OSMO),
        )
        .unwrap();
    vault.process_reply(instr.reply_id, true).unwrap();

    // Vault has half the funds
    assert_eq!(vault.balance, 100);

    // And a lien on the other half
    let claims = vault.account_claims(&user.to_string(), None, None);
    assert_eq!(
        claims,
        [LienResponse {
            lienholder: staking_addr.to_owned(),
            amount: ValueRange::new_val(100)
        }]
    );

    // The other half is in the user's proxy contract
    let proxy = staking.proxy_by_owner(&user.to_string()).unwrap().proxy;
    assert_eq!(staking.proxy_balance(proxy).unwrap(), 100);

    // Now release the funds (as if called from the user's staking proxy)
    let rel = staking.release_proxy_stake(proxy, 100).unwrap();
    vault
        .release_local_stake(
            &staking_addr.to_string(),
            &rel.owner,
            &coins(rel.amount, OSMO),
        )
        .unwrap();

    // Check that the vault has the funds again
    assert_eq!(vault.balance, 200);
    // And there are no more liens
    let claims = vault.account_claims(&user.to_string(), None, None);
    assert_eq!(
        claims,
        [LienResponse {
            lienholder: staking_addr.to_owned(),
            amount: ValueRange::new_val(0) // An empty lien record is kept for reuse
        }]
    );
}
