use vstd::prelude::*;

verus! {

/// A fixed-interval throttle. `tick` accumulates elapsed time; each time the
/// accumulator crosses `interval` the `dispatch` flag is *toggled* (not merely
/// raised) and the accumulator is reset, so `dispatch` is a half-duty-cycle
/// pulse: only every other interval crossing presents as `true`.
///
/// Time is measured in a fixed unit chosen by the caller (for instance
/// milliseconds); the unit never appears in the logic.
#[derive(Clone, Copy, PartialEq, Eq, Structural, Debug)]
pub struct Clock {
    /// Time accumulated since the last interval crossing.
    pub time: u64,
    /// The dispatch period, in the same unit as `time`.
    pub interval: u64,
    /// Reservations may only be granted while this is `true`.
    pub dispatch: bool,
}

/// The value of a clock after one `tick(dt)` call.
pub open spec fn spec_tick(c: Clock, dt: u64) -> Clock {
    if c.time + dt >= c.interval {
        Clock { time: 0, interval: c.interval, dispatch: !c.dispatch }
    } else {
        Clock { time: (c.time + dt) as u64, interval: c.interval, dispatch: c.dispatch }
    }
}

/// The value of a clock after `n` `tick(dt)` calls.
pub open spec fn spec_tick_n(c: Clock, dt: u64, n: nat) -> Clock
    decreases n,
{
    if n == 0 {
        c
    } else {
        spec_tick(spec_tick_n(c, dt, (n - 1) as nat), dt)
    }
}

/// How many constant steps of `dt` it takes to cross `interval`: the ceiling
/// of `interval / dt`.
pub open spec fn period(interval: u64, dt: u64) -> int {
    (interval + dt - 1) / (dt as int)
}

/// Toggle periodicity: starting from an empty accumulator, ticking a clock
/// with a constant step `dt` toggles `dispatch` exactly once every
/// `period(interval, dt)` (the ceiling of `interval / dt`) steps. After `n`
/// steps the accumulator holds the `n % period` steps taken since the last
/// crossing, and `dispatch` has been toggled `n / period` times.
pub proof fn lemma_toggle_period(c: Clock, dt: u64, n: nat)
    requires
        c.time == 0,
        1 <= dt,
        1 <= c.interval,
    ensures
        spec_tick_n(c, dt, n).interval == c.interval,
        spec_tick_n(c, dt, n).time == (n as int % period(c.interval, dt)) * dt,
        spec_tick_n(c, dt, n).dispatch == (if (n as int / period(c.interval, dt)) % 2 == 0 {
            c.dispatch
        } else {
            !c.dispatch
        }),
    decreases n,
{
    let p = period(c.interval, dt);
    let i = c.interval as int;
    let d = dt as int;
    vstd::arithmetic::div_mod::lemma_fundamental_div_mod(i + d - 1, d);
    let rr = (i + d - 1) % d;
    vstd::arithmetic::div_mod::lemma_mod_bound(i + d - 1, d);
    assert(p * d == i + d - 1 - rr) by (nonlinear_arith)
        requires i + d - 1 == d * p + rr,
    ;
    assert(p >= 1) by (nonlinear_arith)
        requires p * d >= i, i >= 1, d >= 1,
    ;
    if n == 0 {
        vstd::arithmetic::div_mod::lemma_fundamental_div_mod_converse(0, p, 0, 0);
        assert(0int % p == 0 && 0int / p == 0);
    } else {
        lemma_toggle_period(c, dt, (n - 1) as nat);
        let prev = spec_tick_n(c, dt, (n - 1) as nat);
        let m = (n - 1) as int;
        let k = m % p;
        let q = m / p;
        vstd::arithmetic::div_mod::lemma_fundamental_div_mod(m, p);
        vstd::arithmetic::div_mod::lemma_mod_bound(m, p);
        assert(prev.time == k * d);
        if k == p - 1 {
            assert(k * d + d >= i) by (nonlinear_arith)
                requires k == p - 1, p * d >= i,
            ;
            assert(prev.time + dt >= c.interval);
            assert(n as int == (q + 1) * p + 0) by (nonlinear_arith)
                requires m == p * q + k, k == p - 1, n as int == m + 1,
            ;
            vstd::arithmetic::div_mod::lemma_fundamental_div_mod_converse(n as int, p, q + 1, 0);
            assert(n as int % p == 0 && n as int / p == q + 1);
            assert(spec_tick_n(c, dt, n).time == 0);
            assert((n as int % p) * dt == 0) by (nonlinear_arith)
                requires n as int % p == 0,
            ;
            assert((q + 1) % 2 != q % 2);
        } else {
            assert(k * d + d < i) by (nonlinear_arith)
                requires 0 <= k, k + 1 <= p - 1, d >= 1, p * d == i + d - 1 - rr, 0 <= rr < d,
            ;
            assert(prev.time + dt < c.interval);
            assert(n as int == q * p + (k + 1)) by (nonlinear_arith)
                requires m == p * q + k, n as int == m + 1,
            ;
            vstd::arithmetic::div_mod::lemma_fundamental_div_mod_converse(n as int, p, q, k + 1);
            assert(n as int % p == k + 1 && n as int / p == q);
            assert((k + 1) * d == k * d + d) by (nonlinear_arith);
            assert(spec_tick_n(c, dt, n).time == k * d + d);
        }
    }
}

impl Clock {
    /// A fresh clock: nothing accumulated, a one-unit period, the pulse low.
    pub fn new() -> (c: Clock)
        ensures
            c.time == 0,
            c.interval == 1,
            c.dispatch == false,
    {
        Clock { time: 0, interval: 1, dispatch: false }
    }

    /// Adds `dt` to the accumulator; on crossing `interval`, toggles
    /// `dispatch` and resets the accumulator to zero.
    pub fn tick(&mut self, dt: u64)
        ensures
            *final(self) == spec_tick(*old(self), dt),
    {
        if dt >= self.interval || self.time >= self.interval - dt {
            self.dispatch = !self.dispatch;
            self.time = 0;
        } else {
            self.time = self.time + dt;
        }
    }

    /// Replaces the dispatch period without resetting the accumulator.
    pub fn set_interval(&mut self, interval: u64)
        ensures
            final(self).interval == interval,
            final(self).time == old(self).time,
            final(self).dispatch == old(self).dispatch,
    {
        self.interval = interval;
    }

    /// Zeroes the accumulator without touching `dispatch`.
    pub fn reset(&mut self)
        ensures
            final(self).time == 0,
            final(self).interval == old(self).interval,
            final(self).dispatch == old(self).dispatch,
    {
        self.time = 0;
    }
}

} // verus!
