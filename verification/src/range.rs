//! Bounded uncertainty ranges: a quantity pending asynchronous confirmation,
//! known only to lie between a confirmed `low` bound and a speculative `high`
//! bound.

use vstd::prelude::*;

use crate::error::ContractError;

verus! {

/// A value known to lie within `[low, high]` until reconciled to a point.
///
/// `low` is what has been confirmed by completed round trips; `high` adds
/// everything speculatively granted but not yet settled. An immutable value
/// type: every transition returns the new range.
#[derive(Debug, Clone, Copy, PartialEq, Eq, Structural)]
pub struct ValueRange {
    pub low: u128,
    pub high: u128,
}

impl ValueRange {
    /// Well-formed: the confirmed bound never exceeds the speculative one.
    pub open spec fn wf(&self) -> bool {
        self.low <= self.high
    }

    /// The fully confirmed range collapsed onto `v`.
    pub open spec fn spec_new_val(v: u128) -> ValueRange {
        ValueRange { low: v, high: v }
    }

    /// The range after a speculative grant of `delta`.
    pub open spec fn spec_increase_high(self, delta: u128) -> ValueRange {
        ValueRange { low: self.low, high: (self.high + delta) as u128 }
    }

    /// The range after reverting a speculative grant of `delta`.
    pub open spec fn spec_decrease_high(self, delta: u128) -> ValueRange {
        ValueRange { low: self.low, high: (self.high - delta) as u128 }
    }

    /// The range after confirming `delta` of a speculative grant.
    pub open spec fn spec_increase_low(self, delta: u128) -> ValueRange {
        ValueRange { low: (self.low + delta) as u128, high: self.high }
    }

    /// A fully confirmed value: both bounds equal `v`.
    pub fn new_val(v: u128) -> (r: ValueRange)
        ensures
            r == Self::spec_new_val(v),
            r.wf(),
    {
        ValueRange { low: v, high: v }
    }

    /// A range `[low, high]`; rejected when `low > high`.
    pub fn new_range(low: u128, high: u128) -> (r: Result<ValueRange, ContractError>)
        ensures
            low <= high ==> r == Ok::<ValueRange, ContractError>((ValueRange { low, high })),
            low > high ==> r == Err::<ValueRange, ContractError>(ContractError::InvalidValueRange),
    {
        if low <= high {
            Ok(ValueRange { low, high })
        } else {
            Err(ContractError::InvalidValueRange)
        }
    }

    /// Speculatively grant `delta`: the worst-case bound widens, the
    /// confirmed bound stays. Grants are monotonic until explicitly reverted,
    /// so this never fails.
    pub fn increase_high(self, delta: u128) -> (r: ValueRange)
        requires
            self.high + delta <= u128::MAX,
        ensures
            r == self.spec_increase_high(delta),
            r.low == self.low,
            r.high == self.high + delta,
    {
        ValueRange { low: self.low, high: self.high + delta }
    }

    /// Revert a speculative grant of `delta`. Fails with `InvalidValueRange`
    /// when that would push the speculative bound below the confirmed one.
    pub fn decrease_high(self, delta: u128) -> (r: Result<ValueRange, ContractError>)
        requires
            self.wf(),
        ensures
            delta <= self.high - self.low ==> r == Ok::<ValueRange, ContractError>(
                self.spec_decrease_high(delta),
            ),
            delta > self.high - self.low ==> r == Err::<ValueRange, ContractError>(
                ContractError::InvalidValueRange,
            ),
    {
        if delta <= self.high - self.low {
            Ok(ValueRange { low: self.low, high: self.high - delta })
        } else {
            Err(ContractError::InvalidValueRange)
        }
    }

    /// Confirm `delta` of a speculative grant: the confirmed bound catches
    /// up, the worst case stays. Fails with `InvalidValueRange` when more is
    /// confirmed than was speculatively granted.
    pub fn increase_low(self, delta: u128) -> (r: Result<ValueRange, ContractError>)
        requires
            self.wf(),
        ensures
            delta <= self.high - self.low ==> r == Ok::<ValueRange, ContractError>(
                self.spec_increase_low(delta),
            ),
            delta > self.high - self.low ==> r == Err::<ValueRange, ContractError>(
                ContractError::InvalidValueRange,
            ),
    {
        if delta <= self.high - self.low {
            Ok(ValueRange { low: self.low + delta, high: self.high })
        } else {
            Err(ContractError::InvalidValueRange)
        }
    }

    /// Collapse both bounds onto the settled point `v`. Fails with
    /// `InvalidValueRange` when `v` lies outside the range: only a
    /// reconciliation path with authoritative knowledge of the settled amount
    /// may commit.
    pub fn commit(self, v: u128) -> (r: Result<ValueRange, ContractError>)
        ensures
            self.low <= v && v <= self.high ==> r == Ok::<ValueRange, ContractError>(
                Self::spec_new_val(v),
            ),
            v < self.low || v > self.high ==> r == Err::<ValueRange, ContractError>(
                ContractError::InvalidValueRange,
            ),
    {
        if self.low <= v && v <= self.high {
            Ok(ValueRange { low: v, high: v })
        } else {
            Err(ContractError::InvalidValueRange)
        }
    }

    /// Component-wise sum, for aggregating exposure across several liens.
    pub fn merge(self, other: ValueRange) -> (r: ValueRange)
        requires
            self.wf(),
            other.wf(),
            self.high + other.high <= u128::MAX,
        ensures
            r.low == self.low + other.low,
            r.high == self.high + other.high,
            r.wf(),
    {
        ValueRange { low: self.low + other.low, high: self.high + other.high }
    }
}

/// Law: a speculative grant immediately reverted restores the range
/// bit-for-bit; in particular the revert is always accepted after the grant.
pub proof fn lemma_grant_then_revert_exact(r: ValueRange, delta: u128)
    requires
        r.wf(),
        r.high + delta <= u128::MAX,
    ensures
        r.spec_increase_high(delta).wf(),
        delta <= r.spec_increase_high(delta).high - r.spec_increase_high(delta).low,
        r.spec_increase_high(delta).spec_decrease_high(delta) == r,
{
}

} // verus!
