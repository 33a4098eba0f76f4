//! Fixed-point decimals with eighteen fractional digits, the precision in
//! which prices and slashing rates are quoted.

use vstd::prelude::*;

verus! {

/// One whole unit, expressed in atomic (10^-18) steps.
pub const DECIMAL_FRACTIONAL: u128 = 1_000_000_000_000_000_000;

/// Atomic steps per percentage point.
pub const PERCENT_ATOMICS: u128 = 10_000_000_000_000_000;

/// A non-negative fixed-point decimal: `atomics` counts 10^-18 steps.
#[derive(Debug, Clone, Copy, PartialEq, Eq, Structural)]
pub struct Decimal {
    pub atomics: u128,
}

impl Decimal {
    /// The decimal made of `atomics` atomic steps.
    pub fn raw(atomics: u128) -> (r: Decimal)
        ensures
            r.atomics == atomics,
    {
        Decimal { atomics }
    }

    /// Zero.
    pub fn zero() -> (r: Decimal)
        ensures
            r.atomics == 0,
    {
        Decimal { atomics: 0 }
    }

    /// One.
    pub fn one() -> (r: Decimal)
        ensures
            r.atomics == DECIMAL_FRACTIONAL,
    {
        Decimal { atomics: DECIMAL_FRACTIONAL }
    }

    /// `p` percent, that is `p / 100`.
    pub fn percent(p: u64) -> (r: Decimal)
        ensures
            r.atomics == p * PERCENT_ATOMICS,
    {
        proof {
            assert((p as u128) * PERCENT_ATOMICS <= 0xffff_ffff_ffff_ffffu128 * PERCENT_ATOMICS)
                by (nonlinear_arith)
                requires
                    p as u128 <= 0xffff_ffff_ffff_ffffu128,
            ;
        }
        Decimal { atomics: (p as u128) * PERCENT_ATOMICS }
    }
}

} // verus!
