//! The epoch scheduler: tracks the next due epoch boundary and exposes an
//! idempotent trigger, so that redundant external clocks may all call it
//! without double-firing, and a chain halt is caught up without drift.

use vstd::prelude::*;

use vstd::arithmetic::div_mod::lemma_fundamental_div_mod;
use vstd::arithmetic::div_mod::lemma_mod_bound;

verus! {

/// The singleton epoch schedule: the next boundary and the epoch length.
#[derive(Debug, Clone, Copy, PartialEq, Eq, Structural)]
pub struct Scheduler {
    pub next_due: u64,
    pub period: u64,
}

/// The boundary the schedule advances to when triggered at `now`: the
/// smallest multiple of `period` past `next_due` that lies strictly beyond
/// `now`.
pub open spec fn spec_catch_up(next_due: u64, period: u64, now: u64) -> int {
    next_due + ((now - next_due) / (period as int) + 1) * (period as int)
}

/// The schedule after a trigger at `now`: unchanged before the boundary,
/// advanced to the catch-up boundary otherwise.
pub open spec fn spec_trigger(s: Scheduler, now: u64) -> Scheduler {
    if now < s.next_due {
        s
    } else {
        Scheduler { next_due: spec_catch_up(s.next_due, s.period, now) as u64, period: s.period }
    }
}

/// The catch-up boundary lies strictly past `now`, at most one period past
/// it, and a whole number of periods past the old boundary.
pub proof fn lemma_catch_up_bounds(next_due: u64, period: u64, now: u64)
    requires
        1 <= period,
        next_due <= now,
        now + period <= u64::MAX,
    ensures
        now < spec_catch_up(next_due, period, now),
        spec_catch_up(next_due, period, now) <= now + period,
        (spec_catch_up(next_due, period, now) - next_due) % (period as int) == 0,
{
    let e = now - next_due;
    let p = period as int;
    lemma_fundamental_div_mod(e, p);
    lemma_mod_bound(e, p);
    assert((e / p + 1) * p == p * (e / p) + p) by (nonlinear_arith);
    assert((e / p + 1) * p % p == 0) by (nonlinear_arith)
        requires
            1 <= p,
    ;
}

impl Scheduler {
    /// Well-formed: the epoch length is positive.
    pub open spec fn wf(&self) -> bool {
        1 <= self.period
    }

    /// Start a schedule at instantiation time: the first boundary is one
    /// whole period from now.
    pub fn init(now: u64, period: u64) -> (r: Scheduler)
        requires
            1 <= period,
            now + period <= u64::MAX,
        ensures
            r.period == period,
            r.next_due == now + period,
            r.wf(),
    {
        Scheduler { next_due: now + period, period }
    }

    /// Fire the schedule at `now`. Before the boundary this is a no-op, not
    /// an error, so redundant clocks may retry freely; at or past the
    /// boundary it advances to the catch-up boundary and reports that the
    /// epoch action is owed exactly once.
    pub fn trigger(&mut self, now: u64) -> (fired: bool)
        requires
            old(self).wf(),
            now + old(self).period <= u64::MAX,
        ensures
            final(self).wf(),
            final(self).period == old(self).period,
            *final(self) == spec_trigger(*old(self), now),
            fired == (now >= old(self).next_due),
            now < old(self).next_due ==> *final(self) == *old(self),
            now >= old(self).next_due ==> final(self).next_due > now
                && final(self).next_due <= now + old(self).period
                && (final(self).next_due - old(self).next_due) % (old(self).period as int) == 0,
    {
        if now < self.next_due {
            false
        } else {
            proof {
                lemma_catch_up_bounds(self.next_due, self.period, now);
            }
            let elapsed: u64 = now - self.next_due;
            let k: u64 = elapsed / self.period + 1;
            proof {
                let e = elapsed as int;
                let p = self.period as int;
                lemma_fundamental_div_mod(e, p);
                lemma_mod_bound(e, p);
                assert((e / p + 1) * p == p * (e / p) + p) by (nonlinear_arith);
            }
            self.next_due = self.next_due + k * self.period;
            true
        }
    }
}

/// Law: the trigger is idempotent. Triggering an already-triggered schedule
/// at the same instant changes nothing, whether or not the first call fired:
/// after a firing the new boundary lies strictly past `now`.
pub proof fn lemma_trigger_idempotent(s: Scheduler, now: u64)
    requires
        s.wf(),
        now + s.period <= u64::MAX,
    ensures
        spec_trigger(spec_trigger(s, now), now) == spec_trigger(s, now),
{
    if now >= s.next_due {
        lemma_catch_up_bounds(s.next_due, s.period, now);
    }
}

} // verus!
