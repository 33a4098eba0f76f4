use mesh_core::decimal::{Decimal, DECIMAL_FRACTIONAL};
use mesh_core::error::ContractError;
use mesh_core::msg::{VirtualStakeCustomMsg, VirtualStakeMsg};
use mesh_core::range::ValueRange;

#[test]
fn value_range_constructors_check_their_bounds() {
    let r = ValueRange::new_val(7);
    assert_eq!(r, ValueRange { low: 7, high: 7 });

    let r = ValueRange::new_range(3, 5).unwrap();
    assert_eq!(r, ValueRange { low: 3, high: 5 });

    assert_eq!(
        ValueRange::new_range(5, 3).unwrap_err(),
        ContractError::InvalidValueRange
    );
}

#[test]
fn value_range_grant_and_revert_are_exact_inverses() {
    let r = ValueRange { low: 10, high: 40 };
    let widened = r.increase_high(25);
    assert_eq!(widened, ValueRange { low: 10, high: 65 });
    let reverted = widened.decrease_high(25).unwrap();
    assert_eq!(reverted, r);

    // reverting below the confirmed bound fails
    assert_eq!(
        r.decrease_high(31).unwrap_err(),
        ContractError::InvalidValueRange
    );
}

#[test]
fn value_range_confirmation_and_commit() {
    let r = ValueRange { low: 10, high: 40 };
    assert_eq!(r.increase_low(30).unwrap(), ValueRange::new_val(40));
    assert_eq!(
        r.increase_low(31).unwrap_err(),
        ContractError::InvalidValueRange
    );

    assert_eq!(r.commit(25).unwrap(), ValueRange::new_val(25));
    assert_eq!(r.commit(9).unwrap_err(), ContractError::InvalidValueRange);
    assert_eq!(r.commit(41).unwrap_err(), ContractError::InvalidValueRange);

    let merged = r.merge(ValueRange { low: 1, high: 2 });
    assert_eq!(merged, ValueRange { low: 11, high: 42 });
}

#[test]
fn decimal_percent_is_exact() {
    assert_eq!(Decimal::percent(15).atomics, 150_000_000_000_000_000);
    assert_eq!(Decimal::percent(100), Decimal::one());
    assert_eq!(Decimal::one().atomics, DECIMAL_FRACTIONAL);
    assert_eq!(Decimal::zero().atomics, 0);
    assert_eq!(Decimal::raw(42).atomics, 42);
}

#[test]
fn virtual_stake_bond_builds_the_exact_message() {
    let msg = VirtualStakeMsg::bond("OSMO", 100, "validator1");
    match &msg {
        VirtualStakeMsg::Bond { amount, validator } => {
            assert_eq!(amount.denom, "OSMO");
            assert_eq!(amount.amount, 100);
            assert_eq!(validator, "validator1");
        }
        other => panic!("unexpected message: {:?}", other),
    }
    assert_eq!(
        msg.clone().into_custom(),
        VirtualStakeCustomMsg::VirtualStake(msg)
    );
}

#[test]
fn virtual_stake_unbond_builds_the_exact_message() {
    let msg = VirtualStakeMsg::unbond("OSMO", 77, "validator2");
    match msg {
        VirtualStakeMsg::Unbond { amount, validator } => {
            assert_eq!(amount.denom, "OSMO");
            assert_eq!(amount.amount, 77);
            assert_eq!(validator, "validator2");
        }
        other => panic!("unexpected message: {:?}", other),
    }
}

#[test]
fn virtual_stake_update_delegation_builds_the_exact_message() {
    let msg = VirtualStakeMsg::update_delegation("OSMO", true, 5, "delegator1", "validator3");
    match msg {
        VirtualStakeMsg::UpdateDelegation {
            amount,
            is_deduct,
            delegator,
            validator,
        } => {
            assert_eq!(amount.denom, "OSMO");
            assert_eq!(amount.amount, 5);
            assert!(is_deduct);
            assert_eq!(delegator, "delegator1");
            assert_eq!(validator, "validator3");
        }
        other => panic!("unexpected message: {:?}", other),
    }
}
