//! Exponential backoff with full jitter: the n-th delay is drawn from zero up to
//! `min(cap, base * 2^n)`. Without jitter many clients would come back in step.

use super::clock::{Jitter, Millis};
use vstd::prelude::*;

verus! {

/// The backoff of one endpoint.
#[derive(Debug, Clone, Copy)]
pub struct Backoff {
    base_ms: Millis,
    cap_ms: Millis,
    attempt: u32,
}

/// What a backoff holds.
pub struct BackoffView {
    pub base: Millis,
    pub cap: Millis,
    pub attempt: u32,
}

/// `base` doubled `n` times.
pub open spec fn doubled(base: nat, n: nat) -> nat
    decreases n,
{
    if n == 0 {
        base
    } else {
        2 * doubled(base, (n - 1) as nat)
    }
}

impl BackoffView {
    /// The longest delay of the present attempt.
    pub open spec fn ceiling(self) -> nat {
        let d = doubled(self.base as nat, self.attempt as nat);
        if d < self.cap {
            d
        } else {
            self.cap as nat
        }
    }

    /// The bound that is handed to the jitter: one more than the longest delay, so
    /// that the longest one can come.
    pub open spec fn bound(self) -> Millis {
        if self.ceiling() == u64::MAX {
            u64::MAX
        } else {
            (self.ceiling() + 1) as u64
        }
    }

    /// One attempt further.
    pub open spec fn next(self) -> BackoffView {
        BackoffView {
            attempt: if self.attempt == u32::MAX {
                u32::MAX
            } else {
                (self.attempt + 1) as u32
            },
            ..self
        }
    }

    /// Back at the first attempt.
    pub open spec fn fresh(self) -> BackoffView {
        BackoffView { attempt: 0, ..self }
    }
}

/// A backoff before its first attempt.
pub open spec fn fresh_backoff(base: Millis, cap: Millis) -> BackoffView {
    BackoffView { base, cap, attempt: 0 }
}

impl View for Backoff {
    type V = BackoffView;

    closed spec fn view(&self) -> BackoffView {
        BackoffView { base: self.base_ms, cap: self.cap_ms, attempt: self.attempt }
    }
}

impl Backoff {
    /// A backoff at its first attempt.
    pub fn new(base_ms: Millis, cap_ms: Millis) -> (b: Self)
        ensures
            b@ == fresh_backoff(base_ms, cap_ms),
    {
        Backoff { base_ms, cap_ms, attempt: 0 }
    }

    /// The longest delay of the present attempt.
    pub fn ceiling(&self) -> (ms: Millis)
        ensures
            ms == self@.ceiling(),
    {
        if self.base_ms == 0 {
            proof {
                lemma_doubled_zero(self.attempt as nat);
            }
            return 0;
        }
        let mut d: u64 = self.base_ms;
        let mut i: u32 = 0;
        while i < self.attempt
            invariant
                i <= self.attempt,
                d == doubled(self.base_ms as nat, i as nat),
            decreases self.attempt - i,
        {
            proof {
                lemma_doubled_monotone(self.base_ms as nat, i as nat, self.attempt as nat);
                lemma_doubled_monotone(self.base_ms as nat, (i + 1) as nat, self.attempt as nat);
            }
            if d >= self.cap_ms || d > u64::MAX / 2 {
                return self.cap_ms;
            }
            d = d * 2;
            i += 1;
        }
        if d < self.cap_ms {
            d
        } else {
            self.cap_ms
        }
    }

    /// The next delay; counts the attempt.
    pub fn next_delay<J: Jitter>(&mut self, jitter: &mut J) -> (delay: Millis)
        ensures
            (*old(jitter)).draws(old(self)@.bound(), delay, *final(jitter)),
            final(self)@ == old(self)@.next(),
    {
        let ceil: u64 = self.ceiling();
        let delay: u64 = jitter.below(ceil.saturating_add(1));
        self.attempt = self.attempt.saturating_add(1);
        delay
    }

    /// Starts over, after a success.
    pub fn reset(&mut self)
        ensures
            final(self)@ == old(self)@.fresh(),
    {
        self.attempt = 0;
    }

    /// How many attempts failed in a row.
    pub fn attempt(&self) -> (n: u32)
        ensures
            n == self@.attempt,
    {
        self.attempt
    }
}

proof fn lemma_doubled_zero(n: nat)
    ensures
        doubled(0, n) == 0,
    decreases n,
{
    if n > 0 {
        lemma_doubled_zero((n - 1) as nat);
    }
}

proof fn lemma_doubled_monotone(base: nat, m: nat, n: nat)
    requires
        m <= n,
    ensures
        doubled(base, m) <= doubled(base, n),
    decreases n,
{
    if m < n {
        lemma_doubled_monotone(base, m, (n - 1) as nat);
    }
}

/// The longest delay never shrinks from one attempt to the next, doubles until it
/// reaches the cap, and never exceeds the cap.
pub proof fn law_ceiling_grows_to_cap(b: BackoffView)
    ensures
        b.ceiling() <= b.cap,
        b.ceiling() <= b.next().ceiling(),
        b.attempt < u32::MAX && 2 * b.ceiling() <= b.cap && b.ceiling() < b.cap
            ==> b.next().ceiling() == 2 * b.ceiling(),
        b.fresh().ceiling() == (if b.base < b.cap {
            b.base
        } else {
            b.cap
        }),
{
    lemma_doubled_monotone(b.base as nat, b.attempt as nat, b.next().attempt as nat);
}

/// With jitter from the system a delay never exceeds the ceiling.
pub proof fn law_delay_within_ceiling(
    b: BackoffView,
    jitter: super::clock::OsJitter,
    delay: Millis,
    after: super::clock::OsJitter,
)
    requires
        jitter.draws(b.bound(), delay, after),
    ensures
        delay <= b.ceiling(),
{
    law_ceiling_grows_to_cap(b);
}

proof fn lemma_doubled_is_power(base: nat, n: nat)
    ensures
        doubled(base, n) == base * vstd::arithmetic::power2::pow2(n),
    decreases n,
{
    if n == 0 {
        vstd::arithmetic::power2::lemma2_to64();
    } else {
        let p = vstd::arithmetic::power2::pow2((n - 1) as nat);
        lemma_doubled_is_power(base, (n - 1) as nat);
        vstd::arithmetic::power2::lemma_pow2_unfold(n);
        assert(2 * (base * p) == base * (2 * p)) by (nonlinear_arith);
    }
}

/// The longest delay of the n-th attempt in a row is the base times two to the n, or the cap
/// if that is less. What is drawn may be as long as that, but no longer.
pub proof fn law_ceiling_is_power(b: BackoffView)
    ensures
        ({
            let full = b.base * vstd::arithmetic::power2::pow2(b.attempt as nat);
            &&& full <= b.cap ==> b.ceiling() == full
            &&& full > b.cap ==> b.ceiling() == b.cap
            &&& b.ceiling() < u64::MAX ==> b.bound() == b.ceiling() + 1
            &&& b.ceiling() == u64::MAX ==> b.bound() == u64::MAX
        }),
{
    lemma_doubled_is_power(b.base as nat, b.attempt as nat);
}

/// An attempt counts by one, as far as the count goes, and starting over sets it to zero; base
/// and cap stay.
pub proof fn law_attempts_are_counted(b: BackoffView)
    ensures
        b.attempt < u32::MAX ==> b.next().attempt == b.attempt + 1,
        b.attempt == u32::MAX ==> b.next().attempt == u32::MAX,
        b.next().base == b.base && b.next().cap == b.cap,
        b.fresh().attempt == 0,
        b.fresh().base == b.base && b.fresh().cap == b.cap,
{
}

/// A backoff begins with its base, or its cap if that is less, and doubles from there.
pub proof fn law_backoff_begins(base: Millis, cap: Millis)
    ensures
        ({
            let b = fresh_backoff(base, cap);
            &&& b.base == base && b.cap == cap && b.attempt == 0
            &&& base <= cap ==> b.ceiling() == base
            &&& cap < base ==> b.ceiling() == cap
            &&& 2 * base <= cap ==> b.next().ceiling() == 2 * base
        }),
{
    reveal_with_fuel(doubled, 2);
}

} // verus!
