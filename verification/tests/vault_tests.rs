use mesh_core::coin::{coin, Coin};
use mesh_core::error::ContractError;
use mesh_core::range::ValueRange;
use mesh_core::vault::{LienResponse, VaultContract};

const OSMO: &str = "OSMO";
const STAKING: &str = "staking_module";

fn coins(amount: u128, denom: &str) -> Vec<Coin> {
    vec![coin(amount, denom)]
}

fn fresh_vault() -> VaultContract {
    VaultContract::new(OSMO.to_owned(), STAKING.to_string())
}

/// Sum of speculative bounds over all liens of one owner, read off the
/// ledger directly.
fn exposure(vault: &VaultContract, owner: &str) -> u128 {
    vault
        .liens
        .iter()
        .filter(|l| l.owner == owner)
        .map(|l| l.amount.high)
        .sum()
}

fn collateral(vault: &VaultContract, owner: &str) -> u128 {
    vault
        .accounts
        .iter()
        .find(|a| a.owner == owner)
        .map(|a| a.collateral)
        .unwrap_or(0)
}

fn assert_solvent(vault: &VaultContract, owner: &str) {
    assert!(exposure(vault, owner) <= collateral(vault, owner));
}

#[test]
fn solvency_holds_through_mixed_operations() {
    let user = "user1".to_string();
    let mut vault = fresh_vault();

    vault.bond(&user, &coins(300, OSMO)).unwrap();
    assert_solvent(&vault, "user1");

    // speculative grant of 120, confirmed
    let a = vault
        .stake_local(&user, &vec![], &coin(120, OSMO), "m1".to_string())
        .unwrap();
    assert_solvent(&vault, "user1");
    vault.process_reply(a.reply_id, true).unwrap();
    assert_solvent(&vault, "user1");

    // speculative grant of 100, reverted
    let b = vault
        .stake_local(&user, &vec![], &coin(100, OSMO), "m2".to_string())
        .unwrap();
    assert_solvent(&vault, "user1");
    vault.process_reply(b.reply_id, false).unwrap();
    assert_solvent(&vault, "user1");

    // a slash settles 20 of the confirmed stake
    vault
        .local_slash(&STAKING.to_string(), &user, 20)
        .unwrap();
    assert_solvent(&vault, "user1");

    // a release returns 50
    vault
        .release_local_stake(&STAKING.to_string(), &user, &coins(50, OSMO))
        .unwrap();
    assert_solvent(&vault, "user1");

    // bonding more keeps solvency trivially
    vault.bond(&user, &coins(10, OSMO)).unwrap();
    assert_solvent(&vault, "user1");

    assert_eq!(collateral(&vault, "user1"), 290); // 300 + 10 - 20 slashed
    assert_eq!(exposure(&vault, "user1"), 50); // 120 - 20 - 50
}

#[test]
fn grant_then_revert_restores_ledger() {
    let user = "user1".to_string();
    let mut vault = fresh_vault();
    vault.bond(&user, &coins(300, OSMO)).unwrap();

    let before = vault.lien(&user, &STAKING.to_string());
    let instr = vault
        .stake_local(&user, &vec![], &coin(100, OSMO), "m".to_string())
        .unwrap();
    assert_eq!(
        vault.lien(&user, &STAKING.to_string()),
        ValueRange { low: before.low, high: before.high + 100 }
    );
    vault.process_reply(instr.reply_id, false).unwrap();
    // bit-for-bit the pre-grant range
    assert_eq!(vault.lien(&user, &STAKING.to_string()), before);
    assert_eq!(vault.balance, 300);
}

#[test]
fn reply_applies_at_most_once() {
    let user = "user1".to_string();
    let mut vault = fresh_vault();
    vault.bond(&user, &coins(300, OSMO)).unwrap();

    let instr = vault
        .stake_local(&user, &vec![], &coin(100, OSMO), "m".to_string())
        .unwrap();
    vault.process_reply(instr.reply_id, true).unwrap();
    let lien = vault.lien(&user, &STAKING.to_string());
    assert_eq!(lien, ValueRange::new_val(100));

    // replaying the same correlation id is rejected and changes nothing
    let err = vault.process_reply(instr.reply_id, true).unwrap_err();
    assert_eq!(err, ContractError::InvalidReplyId(instr.reply_id));
    assert_eq!(vault.lien(&user, &STAKING.to_string()), lien);

    let err = vault.process_reply(instr.reply_id, false).unwrap_err();
    assert_eq!(err, ContractError::InvalidReplyId(instr.reply_id));
    assert_eq!(vault.lien(&user, &STAKING.to_string()), lien);

    // an id never issued is rejected too
    assert_eq!(
        vault.process_reply(999, true).unwrap_err(),
        ContractError::InvalidReplyId(999)
    );
}

#[test]
fn end_to_end_bond_stake_release() {
    let user = "user1".to_string();
    let staking = STAKING.to_string();
    let mut vault = fresh_vault();

    // owner bonds 300
    vault.bond(&user, &coins(300, OSMO)).unwrap();

    // stakes 100 to the module; the grant is speculative until the reply
    let a = vault
        .stake_local(&user, &vec![], &coin(100, OSMO), "v".to_string())
        .unwrap();
    assert_eq!(vault.lien(&user, &staking), ValueRange { low: 0, high: 100 });
    vault.process_reply(a.reply_id, true).unwrap();
    assert_eq!(vault.lien(&user, &staking), ValueRange::new_val(100));

    // stakes 50 more
    let b = vault
        .stake_local(&user, &vec![], &coin(50, OSMO), "v".to_string())
        .unwrap();
    vault.process_reply(b.reply_id, true).unwrap();
    assert_eq!(vault.lien(&user, &staking), ValueRange::new_val(150));

    // release of 100 restores the lien to a confirmed 50
    vault
        .release_local_stake(&staking, &user, &coins(100, OSMO))
        .unwrap();
    assert_eq!(vault.lien(&user, &staking), ValueRange::new_val(50));
    assert_eq!(vault.collateral_for(&user), 300);
    assert_eq!(collateral(&vault, "user1"), 300);
    assert_eq!(vault.free_collateral(&user), 250);
    assert_eq!(vault.balance, 250); // 300 bonded - 150 staked + 100 released
}

#[test]
fn stake_beyond_free_collateral_is_rejected_before_dispatch() {
    let user = "user1".to_string();
    let mut vault = fresh_vault();
    vault.bond(&user, &coins(300, OSMO)).unwrap();

    // encumber 250, leaving 50 free
    let a = vault
        .stake_local(&user, &vec![], &coin(250, OSMO), "v".to_string())
        .unwrap();
    vault.process_reply(a.reply_id, true).unwrap();
    assert_eq!(vault.free_collateral(&user), 50);

    let claims_before = vault.account_claims(&user, None, None);
    let pending_before = vault.pending.len();

    // an attempt to stake 100 is rejected synchronously
    let err = vault
        .stake_local(&user, &vec![], &coin(100, OSMO), "v".to_string())
        .unwrap_err();
    assert_eq!(err, ContractError::InsufficientCollateral);

    // the ledger is unchanged: nothing was dispatched
    assert_eq!(vault.account_claims(&user, None, None), claims_before);
    assert_eq!(vault.pending.len(), pending_before);
    assert_eq!(vault.free_collateral(&user), 50);
}

#[test]
fn bond_validates_funds() {
    let user = "user1".to_string();
    let mut vault = fresh_vault();

    assert_eq!(
        vault.bond(&user, &vec![]).unwrap_err(),
        ContractError::Payment
    );
    assert_eq!(
        vault.bond(&user, &coins(0, OSMO)).unwrap_err(),
        ContractError::Payment
    );
    assert_eq!(
        vault.bond(&user, &coins(10, "ATOM")).unwrap_err(),
        ContractError::WrongDenom("ATOM".to_string())
    );
    assert_eq!(vault.accounts.len(), 0);
}

#[test]
fn stake_validates_denom_and_funds() {
    let user = "user1".to_string();
    let mut vault = fresh_vault();
    vault.bond(&user, &coins(100, OSMO)).unwrap();

    let err = vault
        .stake_local(&user, &vec![], &coin(10, "ATOM"), "v".to_string())
        .unwrap_err();
    assert_eq!(err, ContractError::WrongDenom("ATOM".to_string()));

    let err = vault
        .stake_local(&user, &coins(10, OSMO), &coin(10, OSMO), "v".to_string())
        .unwrap_err();
    assert_eq!(err, ContractError::Payment);
}

#[test]
fn release_more_than_confirmed_is_an_accounting_mismatch() {
    let user = "user1".to_string();
    let staking = STAKING.to_string();
    let mut vault = fresh_vault();
    vault.bond(&user, &coins(300, OSMO)).unwrap();
    let a = vault
        .stake_local(&user, &vec![], &coin(100, OSMO), "v".to_string())
        .unwrap();
    vault.process_reply(a.reply_id, true).unwrap();

    let err = vault
        .release_local_stake(&staking, &user, &coins(150, OSMO))
        .unwrap_err();
    assert_eq!(err, ContractError::AccountingMismatch);
    assert_eq!(vault.lien(&user, &staking), ValueRange::new_val(100));

    // a slash beyond the confirmed amount is refused the same way
    let err = vault.local_slash(&staking, &user, 150).unwrap_err();
    assert_eq!(err, ContractError::AccountingMismatch);
}

#[test]
fn claims_enumeration_is_paged() {
    let user = "user1".to_string();
    let mut vault = VaultContract::new(OSMO.to_owned(), "mod_a".to_string());
    vault.bond(&user, &coins(300, OSMO)).unwrap();

    // one lien through the local module, then direct slashes/releases keep it
    let a = vault
        .stake_local(&user, &vec![], &coin(30, OSMO), "v".to_string())
        .unwrap();
    vault.process_reply(a.reply_id, true).unwrap();

    let claims = vault.account_claims(&user, None, None);
    assert_eq!(
        claims,
        [LienResponse {
            lienholder: "mod_a".to_string(),
            amount: ValueRange::new_val(30)
        }]
    );

    // paging: starting after the only lienholder yields nothing
    let claims = vault.account_claims(&user, Some("mod_a".to_string()), None);
    assert_eq!(claims, []);

    // a zero limit yields an empty page
    let claims = vault.account_claims(&user, None, Some(0));
    assert_eq!(claims, []);

    // an unknown anchor yields an empty window
    let claims = vault.account_claims(&user, Some("nobody".to_string()), Some(5));
    assert_eq!(claims, []);

    // another owner sees no claims
    let claims = vault.account_claims(&"user2".to_string(), None, None);
    assert_eq!(claims, []);
}

#[test]
fn overlapping_stakes_resolve_independently() {
    let user = "user1".to_string();
    let staking = STAKING.to_string();
    let mut vault = fresh_vault();
    vault.bond(&user, &coins(300, OSMO)).unwrap();

    // two grants in flight at once: the lien widens for both
    let a = vault
        .stake_local(&user, &vec![], &coin(100, OSMO), "a".to_string())
        .unwrap();
    let b = vault
        .stake_local(&user, &vec![], &coin(50, OSMO), "b".to_string())
        .unwrap();
    assert_ne!(a.reply_id, b.reply_id);
    assert_eq!(vault.lien(&user, &staking), ValueRange { low: 0, high: 150 });
    assert_eq!(vault.free_collateral(&user), 150);

    // the second resolves first and fails: only its share is reverted
    vault.process_reply(b.reply_id, false).unwrap();
    assert_eq!(vault.lien(&user, &staking), ValueRange { low: 0, high: 100 });

    // the first confirms: the lien settles to a point
    vault.process_reply(a.reply_id, true).unwrap();
    assert_eq!(vault.lien(&user, &staking), ValueRange::new_val(100));
    assert_eq!(vault.balance, 200); // 300 - 100 staked (50 came back)
    assert_solvent(&vault, "user1");
}

#[test]
fn owners_are_accounted_independently() {
    let u1 = "user1".to_string();
    let u2 = "user2".to_string();
    let mut vault = fresh_vault();
    vault.bond(&u1, &coins(100, OSMO)).unwrap();
    vault.bond(&u2, &coins(40, OSMO)).unwrap();

    let a = vault
        .stake_local(&u1, &vec![], &coin(80, OSMO), "a".to_string())
        .unwrap();
    vault.process_reply(a.reply_id, true).unwrap();

    // one owner's liens never draw on the other's collateral
    let err = vault
        .stake_local(&u2, &vec![], &coin(50, OSMO), "b".to_string())
        .unwrap_err();
    assert_eq!(err, ContractError::InsufficientCollateral);
    assert_eq!(vault.free_collateral(&u1), 20);
    assert_eq!(vault.free_collateral(&u2), 40);
    assert_solvent(&vault, "user1");
    assert_solvent(&vault, "user2");
}
