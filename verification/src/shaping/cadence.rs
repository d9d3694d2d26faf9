//! The rhythm of segment requests.
//!
//! A player asks for the next segment again and again, whether or not anyone uses the
//! tunnel at that moment. Keeping that rhythm hides both the user's activity and the
//! lack of it, at the price of traffic in idle times.

use crate::random;
use rand::rngs::StdRng;
use vstd::prelude::*;

verus! {

/// When the next segment is asked for.
#[derive(Debug, Clone, Copy)]
pub struct Cadence {
    interval_ms: u64,
    jitter_ms: u64,
    idle_fill: bool,
}

/// The delay for an offset in `0..=2 * jitter`: the interval, moved by at most the
/// jitter either way, and never below zero.
pub open spec fn delay(interval: u64, jitter: u64, offset: u64) -> int {
    if interval + offset < jitter {
        0
    } else {
        interval + offset - jitter
    }
}

impl Cadence {
    pub closed spec fn interval(self) -> u64 {
        self.interval_ms
    }

    pub closed spec fn jitter(self) -> u64 {
        self.jitter_ms
    }

    pub closed spec fn fills_idle(self) -> bool {
        self.idle_fill
    }

    /// Whether all that a delay takes fits in 64 bits.
    pub open spec fn fits(self) -> bool {
        self.interval() + 2 * self.jitter() <= u64::MAX
    }

    /// A rhythm of `interval_ms`, give or take `jitter_ms`, that goes on in idle times
    /// if `idle_fill` is set.
    pub fn new(interval_ms: u64, jitter_ms: u64, idle_fill: bool) -> (c: Self)
        ensures
            c.interval() == interval_ms,
            c.jitter() == jitter_ms,
            c.fills_idle() == idle_fill,
    {
        Cadence { interval_ms, jitter_ms, idle_fill }
    }

    /// Tells whether all that a delay takes fits in 64 bits.
    pub fn is_bounded(&self) -> (b: bool)
        ensures
            b == self.fits(),
    {
        self.jitter_ms <= u64::MAX / 2 && self.interval_ms <= u64::MAX - 2 * self.jitter_ms
    }

    /// The delay for an offset that was drawn.
    pub fn delay_for_offset(&self, offset: u64) -> (ms: u64)
        requires
            self.fits(),
            offset <= 2 * self.jitter(),
        ensures
            ms == delay(self.interval(), self.jitter(), offset),
    {
        (self.interval_ms + offset).saturating_sub(self.jitter_ms)
    }

    /// How long to wait for the next request.
    pub fn next_delay_ms(&self, rng: &mut StdRng) -> (ms: u64)
        requires
            self.fits(),
        ensures
            self.jitter() == 0 ==> ms == self.interval() && *final(rng) == *old(rng),
            self.jitter() != 0 ==> {
                let drawn = random::std_rng_range(*old(rng), 0, (2 * self.jitter()) as u64);
                &&& drawn.0 <= 2 * self.jitter()
                &&& ms == delay(self.interval(), self.jitter(), drawn.0)
                &&& *final(rng) == drawn.1
            },
            self.interval() - self.jitter() <= ms <= self.interval() + self.jitter(),
    {
        if self.jitter_ms == 0 {
            return self.interval_ms;
        }
        let offset: u64 = random::draw_range(rng, 0, 2 * self.jitter_ms);
        self.delay_for_offset(offset)
    }

    /// Whether a segment of padding is due when there is nothing to send.
    pub fn should_fill_idle(&self) -> (b: bool)
        ensures
            b == self.fills_idle(),
    {
        self.idle_fill
    }

    /// The interval without jitter.
    pub fn interval_ms(&self) -> (ms: u64)
        ensures
            ms == self.interval(),
    {
        self.interval_ms
    }
}

/// A delay stays within the jitter, and every delay in that band can come: the whole
/// band from the interval less the jitter up to the interval plus the jitter.
pub proof fn law_delay_band(interval: u64, jitter: u64, ms: int)
    requires
        jitter <= interval,
    ensures
        interval - jitter <= ms <= interval + jitter && 2 * jitter <= u64::MAX ==> exists|offset: u64|
            offset <= 2 * jitter && #[trigger] delay(interval, jitter, offset) == ms,
        forall|offset: u64|
            offset <= 2 * jitter ==> interval - jitter <= #[trigger] delay(interval, jitter, offset)
                <= interval + jitter,
{
    if interval - jitter <= ms <= interval + jitter && 2 * jitter <= u64::MAX {
        let offset = (ms - interval + jitter) as u64;
        assert(delay(interval, jitter, offset) == ms);
    }
}

/// A delay moves with its offset: with the jitter as offset it is the interval itself, and
/// each step of the offset is a millisecond, down to zero.
pub proof fn law_delay_moves_with_offset(interval: u64, jitter: u64, offset: u64)
    ensures
        delay(interval, jitter, jitter) == interval,
        interval + offset >= jitter ==> delay(interval, jitter, offset) - interval == offset - jitter,
        interval + offset <= jitter ==> delay(interval, jitter, offset) == 0,
{
}

/// A rhythm fits if its longest delay, and what is added on the way to it, has 64 bits.
pub proof fn law_rhythm_fits(c: Cadence)
    ensures
        c.fits() <==> c.interval() + c.jitter() + c.jitter() <= u64::MAX,
{
}

} // verus!
