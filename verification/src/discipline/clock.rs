//! Time and jitter, as the rest of the discipline sees them.

use crate::random;
use crate::time;
use std::time::Instant;
use vstd::prelude::*;

verus! {

/// Milliseconds of a monotone clock.
pub type Millis = u64;

/// A clock.
pub trait Clock {
    /// Whether the clock may show `t` now.
    spec fn shows(&self, t: Millis) -> bool;

    /// What the clock shows.
    fn now_ms(&self) -> (t: Millis)
        ensures
            self.shows(t),
    ;
}

/// The system's monotone clock, in milliseconds since it was made.
pub struct SystemClock {
    start: Instant,
}

impl SystemClock {
    /// The point from which the clock counts.
    pub closed spec fn started_at(self) -> Instant {
        self.start
    }

    /// What the clock shows at a point: the whole milliseconds since it was made. Their
    /// count wraps around at the end of its range.
    pub open spec fn reading_at(self, now: Instant) -> nat {
        time::nanos_between(now, self.started_at()) / 1_000_000 % 0x1_0000_0000_0000_0000
    }

    /// A clock that starts now: it counts from the point at which it was made, where it
    /// shows zero.
    pub fn new() -> (c: Self)
        ensures
            c.reading_at(c.started_at()) == 0,
            c.shows(0),
    {
        let c = SystemClock { start: time::instant_now() };
        assert(c.reading_at(c.started_at()) == 0);
        c
    }
}

impl Default for SystemClock {
    fn default() -> (c: Self)
        ensures
            c.reading_at(c.started_at()) == 0,
            c.shows(0),
    {
        Self::new()
    }
}

impl Clock for SystemClock {
    /// Some time has passed since the start.
    open spec fn shows(&self, t: Millis) -> bool {
        exists|now: Instant| t == #[trigger] self.reading_at(now)
    }

    fn now_ms(&self) -> (t: Millis) {
        let d = time::elapsed_since(&self.start);
        let ms: u128 = time::whole_millis(&d);
        let ghost now = choose|now: Instant|
            time::nanos(d) == #[trigger] time::nanos_between(now, self.start);
        assert(self.reading_at(now) == ms as nat % 0x1_0000_0000_0000_0000);
        (ms % 0x1_0000_0000_0000_0000) as u64
    }
}

/// A clock that moves only when it is told to.
#[derive(Debug, Clone, Copy)]
pub struct ManualClock {
    now: Millis,
}

impl ManualClock {
    pub closed spec fn time(self) -> Millis {
        self.now
    }

    /// A clock that shows `start`.
    pub fn new(start: Millis) -> (c: Self)
        ensures
            c.time() == start,
    {
        ManualClock { now: start }
    }

    /// Moves the clock forward.
    pub fn advance(&mut self, ms: Millis)
        requires
            old(self).time() + ms <= u64::MAX,
        ensures
            final(self).time() == old(self).time() + ms,
    {
        self.now = self.now + ms;
    }

    /// Sets the clock.
    pub fn set(&mut self, ms: Millis)
        ensures
            final(self).time() == ms,
    {
        self.now = ms;
    }
}

impl Clock for ManualClock {
    open spec fn shows(&self, t: Millis) -> bool {
        t == self.time()
    }

    fn now_ms(&self) -> (t: Millis) {
        self.now
    }
}

/// A source of jitter.
pub trait Jitter: Sized {
    /// Whether `r` may be drawn for this bound, leaving the source as `post`.
    spec fn draws(self, bound: Millis, r: Millis, post: Self) -> bool;

    /// Draws a value for a bound.
    fn below(&mut self, bound: Millis) -> (r: Millis)
        ensures
            (*old(self)).draws(bound, r, *final(self)),
    ;
}

/// Jitter from the system's generator: any value below the bound, 0 for the bound 0.
#[derive(Debug, Clone, Copy)]
pub struct OsJitter;

impl Jitter for OsJitter {
    open spec fn draws(self, bound: Millis, r: Millis, post: Self) -> bool {
        if bound == 0 {
            r == 0
        } else {
            r < bound
        }
    }

    fn below(&mut self, bound: Millis) -> (r: Millis) {
        if bound == 0 {
            return 0;
        }
        random::draw_below(bound)
    }
}

/// Jitter that is always the same fraction of the bound: `bound * num / den`.
#[derive(Debug, Clone, Copy)]
pub struct FixedFraction {
    num: u64,
    den: u64,
}

/// The fraction `num / den` of a bound, rounded down, at most the largest number.
pub open spec fn fraction_of(bound: u64, num: u64, den: u64) -> int {
    let v = (bound * num) / (den as int);
    if v > u64::MAX {
        u64::MAX as int
    } else {
        v
    }
}

impl FixedFraction {
    pub closed spec fn numerator(self) -> u64 {
        self.num
    }

    pub closed spec fn denominator(self) -> u64 {
        self.den
    }

    #[verifier::type_invariant]
    closed spec fn inv(self) -> bool {
        self.den != 0
    }

    /// The fraction `num / den`.
    pub fn new(num: u64, den: u64) -> (f: Self)
        requires
            den != 0,
        ensures
            f.numerator() == num,
            f.denominator() == den,
    {
        FixedFraction { num, den }
    }
}

impl Jitter for FixedFraction {
    open spec fn draws(self, bound: Millis, r: Millis, post: Self) -> bool {
        r == fraction_of(bound, self.numerator(), self.denominator()) && post == self
    }

    fn below(&mut self, bound: Millis) -> (r: Millis) {
        proof {
            use_type_invariant(&*self);
        }
        assert(0 <= bound * self.num <= u64::MAX * u64::MAX) by (nonlinear_arith)
            requires
                bound <= u64::MAX,
                self.num <= u64::MAX,
        ;
        let v: u128 = (bound as u128) * (self.num as u128) / (self.den as u128);
        if v > u64::MAX as u128 {
            u64::MAX
        } else {
            v as u64
        }
    }
}

/// A clock shows whole milliseconds since it was made, rounded down.
pub proof fn law_clock_counts_milliseconds(c: SystemClock, now: Instant)
    requires
        time::nanos_between(now, c.started_at()) < 1_000_000 * 0x1_0000_0000_0000_0000,
    ensures
        ({
            let n = time::nanos_between(now, c.started_at());
            1_000_000 * c.reading_at(now) <= n < 1_000_000 * (c.reading_at(now) + 1)
        }),
{
}

/// Jitter of the system may be any number below its bound, and only such a one; without room
/// it is zero.
pub proof fn law_jitter_is_below_bound(j: OsJitter, post: OsJitter, bound: Millis, r: Millis)
    ensures
        bound > 0 ==> (j.draws(bound, r, post) <==> r < bound),
        bound == 0 ==> (j.draws(bound, r, post) <==> r == 0),
{
}

/// A fraction of a bound is rounded down: so many denominators are at most that many
/// numerators of the bound, and one more is too many.
pub proof fn law_fraction_is_rounded_down(bound: u64, num: u64, den: u64)
    requires
        den > 0,
    ensures
        ({
            let v = fraction_of(bound, num, den);
            &&& 0 <= v <= u64::MAX
            &&& den * v <= bound * num
            &&& v < u64::MAX ==> bound * num < den * (v + 1)
        }),
{
    let x = bound * num;
    let d = den as int;
    let q = x / d;
    assert(0 <= x) by (nonlinear_arith)
        requires
            x == bound * num,
    ;
    vstd::arithmetic::div_mod::lemma_fundamental_div_mod(x, d);
    vstd::arithmetic::div_mod::lemma_mod_bound(x, d);
    vstd::arithmetic::div_mod::lemma_div_pos_is_pos(x, d);
    let v = fraction_of(bound, num, den);
    assert(d * v <= d * q) by (nonlinear_arith)
        requires
            v <= q,
            d > 0,
    ;
    assert(d * (q + 1) == d * q + d) by (nonlinear_arith);
}

/// A fixed fraction draws the same for the same bound again and again: it stays as it is, and
/// what it draws is its fraction of the bound, rounded down.
pub proof fn law_fraction_draws(j: FixedFraction, bound: Millis, r: Millis, post: FixedFraction)
    requires
        j.draws(bound, r, post),
        j.denominator() > 0,
    ensures
        post == j,
        j.denominator() * r <= bound * j.numerator(),
        r < u64::MAX ==> bound * j.numerator() < j.denominator() * (r + 1),
{
    law_fraction_is_rounded_down(bound, j.numerator(), j.denominator());
}

} // verus!
