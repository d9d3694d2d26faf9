//! Keeping the ratio between what comes down and what goes up.
//!
//! Media traffic comes down almost entirely, a tunnel is more even. The account below
//! tells how much may still go up without breaking `down / up >= ratio`, and how much
//! padding has to come down once it is broken.

use vstd::prelude::*;

verus! {

/// The account of both directions.
#[derive(Debug, Clone, Copy)]
pub struct Symmetrizer {
    target_ratio: u64,
    down: u64,
    up: u64,
}

/// The sum, or the largest 64-bit number.
pub open spec fn capped_sum(a: u64, b: u64) -> u64 {
    if a + b > u64::MAX {
        u64::MAX
    } else {
        (a + b) as u64
    }
}

/// Whether the ratio is kept.
pub open spec fn ratio_kept(ratio: int, down: int, up: int) -> bool {
    up * ratio <= down
}

/// How many bytes may still go up.
pub open spec fn may_go_up(ratio: int, down: int, up: int) -> int {
    if down / ratio >= up {
        down / ratio - up
    } else {
        0
    }
}

/// How many bytes have to come down, where the product of ratio and volume is capped at the
/// largest 64-bit number.
pub open spec fn must_come_down(ratio: int, down: int, up: int) -> int {
    let owed = up * ratio;
    let capped = if owed > u64::MAX {
        u64::MAX as int
    } else {
        owed
    };
    if capped >= down {
        capped - down
    } else {
        0
    }
}

/// What an account holds.
pub struct AccountView {
    pub ratio: u64,
    pub down: u64,
    pub up: u64,
}

impl AccountView {
    /// The account once so much came down.
    pub open spec fn after_down(self, bytes: u64) -> AccountView {
        AccountView { down: capped_sum(self.down, bytes), ..self }
    }

    /// The account once so much went up.
    pub open spec fn after_up(self, bytes: u64) -> AccountView {
        AccountView { up: capped_sum(self.up, bytes), ..self }
    }
}

/// An empty account.
pub open spec fn fresh_account(ratio: u32) -> AccountView {
    AccountView { ratio: ratio as u64, down: 0, up: 0 }
}

impl Symmetrizer {
    pub open spec fn account(self) -> AccountView {
        AccountView { ratio: self.ratio(), down: self.total_down(), up: self.total_up() }
    }

    pub closed spec fn ratio(self) -> u64 {
        self.target_ratio
    }

    pub closed spec fn total_down(self) -> u64 {
        self.down
    }

    pub closed spec fn total_up(self) -> u64 {
        self.up
    }

    #[verifier::type_invariant]
    closed spec fn inv(self) -> bool {
        1 <= self.target_ratio <= u32::MAX
    }

    /// An empty account for a ratio of at least 1.
    pub fn new(target_ratio: u32) -> (s: Self)
        requires
            target_ratio >= 1,
        ensures
            s.account() == fresh_account(target_ratio),
            s.ratio() == target_ratio,
            s.total_down() == 0,
            s.total_up() == 0,
    {
        Symmetrizer { target_ratio: target_ratio as u64, down: 0, up: 0 }
    }

    /// Notes bytes that came down.
    pub fn on_down(&mut self, bytes: u64)
        ensures
            final(self).account() == old(self).account().after_down(bytes),
            final(self).ratio() == old(self).ratio(),
            final(self).total_down() == capped_sum(old(self).total_down(), bytes),
            final(self).total_up() == old(self).total_up(),
    {
        proof {
            use_type_invariant(&*self);
        }
        self.down = self.down.saturating_add(bytes);
    }

    /// Notes bytes that went up.
    pub fn on_up(&mut self, bytes: u64)
        ensures
            final(self).account() == old(self).account().after_up(bytes),
            final(self).ratio() == old(self).ratio(),
            final(self).total_down() == old(self).total_down(),
            final(self).total_up() == capped_sum(old(self).total_up(), bytes),
    {
        proof {
            use_type_invariant(&*self);
        }
        self.up = self.up.saturating_add(bytes);
    }

    /// How many bytes may still go up: the most that keeps the ratio, 0 where it is
    /// broken.
    pub fn up_budget(&self) -> (n: u64)
        ensures
            n == may_go_up(self.ratio() as int, self.total_down() as int, self.total_up() as int),
    {
        proof {
            use_type_invariant(self);
        }
        (self.down / self.target_ratio).saturating_sub(self.up)
    }

    /// How many bytes have to come down to restore the ratio, 0 where it is kept. The
    /// product of ratio and volume is capped at the largest 64-bit number.
    pub fn down_deficit(&self) -> (n: u64)
        ensures
            n == must_come_down(
                self.ratio() as int,
                self.total_down() as int,
                self.total_up() as int,
            ),
    {
        let owed: u64 = match self.up.checked_mul(self.target_ratio) {
            Some(x) => x,
            None => u64::MAX,
        };
        owed.saturating_sub(self.down)
    }

    /// What came down so far.
    pub fn down(&self) -> (n: u64)
        ensures
            n == self.total_down(),
    {
        self.down
    }

    /// What went up so far.
    pub fn up(&self) -> (n: u64)
        ensures
            n == self.total_up(),
    {
        self.up
    }
}

/// Spending the budget, or less, keeps the ratio, and one byte more breaks it.
pub proof fn law_budget_is_tight(ratio: int, down: int, up: int, spend: int)
    requires
        ratio >= 1,
        0 <= up <= down / ratio,
        0 <= down,
        0 <= spend,
    ensures
        ratio_kept(ratio, down, up + spend) <==> spend <= down / ratio - up,
{
    let q = down / ratio;
    vstd::arithmetic::div_mod::lemma_fundamental_div_mod(down, ratio);
    vstd::arithmetic::mul::lemma_mul_is_commutative(ratio, q);
    if spend <= q - up {
        vstd::arithmetic::mul::lemma_mul_inequality(up + spend, q, ratio);
    } else {
        vstd::arithmetic::mul::lemma_mul_inequality(q + 1, up + spend, ratio);
        vstd::arithmetic::mul::lemma_mul_is_distributive_add_other_way(ratio, q, 1);
    }
}

/// Receiving the deficit restores the ratio, and one byte less does not.
pub proof fn law_deficit_is_tight(ratio: int, down: int, up: int, received: int)
    requires
        ratio >= 1,
        0 <= up,
        0 <= down <= up * ratio,
        0 <= received,
    ensures
        ratio_kept(ratio, down + received, up) <==> received >= up * ratio - down,
{
}

/// What may go up keeps the ratio, and one byte more breaks it; where it is broken already,
/// nothing may.
pub proof fn law_may_go_up_is_most(ratio: int, down: int, up: int)
    requires
        ratio >= 1,
        0 <= down,
        0 <= up,
    ensures
        ({
            let n = may_go_up(ratio, down, up);
            &&& up * ratio <= down ==> 0 <= n && (up + n) * ratio <= down && down < (up + n + 1)
                * ratio
            &&& up * ratio > down ==> n == 0
        }),
{
    let q = down / ratio;
    vstd::arithmetic::div_mod::lemma_fundamental_div_mod(down, ratio);
    vstd::arithmetic::div_mod::lemma_mod_bound(down, ratio);
    assert(ratio * q == q * ratio) by (nonlinear_arith);
    assert((q + 1) * ratio == q * ratio + ratio) by (nonlinear_arith);
    if up * ratio <= down {
        if up > q {
            assert(up * ratio >= (q + 1) * ratio) by (nonlinear_arith)
                requires
                    up >= q + 1,
                    ratio >= 1,
            ;
        }
        assert(up + may_go_up(ratio, down, up) == q);
    } else {
        if q > up {
            assert(up * ratio <= q * ratio) by (nonlinear_arith)
                requires
                    up <= q,
                    ratio >= 1,
            ;
        }
    }
}

/// What must come down restores the ratio, and one byte less does not; where it is kept,
/// nothing must. A product beyond 64 bits counts as the largest 64-bit number.
pub proof fn law_must_come_down_is_least(ratio: int, down: int, up: int)
    requires
        ratio >= 1,
        0 <= down <= u64::MAX,
        0 <= up,
    ensures
        ({
            let n = must_come_down(ratio, down, up);
            &&& n >= 0
            &&& up * ratio <= down ==> n == 0
            &&& down < up * ratio <= u64::MAX ==> up * ratio == down + n
            &&& up * ratio > u64::MAX ==> down + n == u64::MAX
        }),
{
}

/// The ratio is kept while what went up, times the ratio, is at most what came down; totals
/// are sums, as far as 64 bits go.
pub proof fn law_account(ratio: int, down: int, up: int, a: u64, b: u64)
    ensures
        ratio_kept(ratio, down, up) <==> ratio * up <= down,
        a + b <= u64::MAX ==> capped_sum(a, b) == a + b,
        a + b > u64::MAX ==> capped_sum(a, b) == u64::MAX,
{
    assert(ratio * up == up * ratio) by (nonlinear_arith);
}

/// An account begins empty. What comes down is added to the one count and what goes up to the
/// other, up to the largest 64-bit number, and the ratio stays.
pub proof fn law_counts_add_up(a: AccountView, ratio: u32, bytes: u64)
    ensures
        fresh_account(ratio).ratio == ratio,
        fresh_account(ratio).down == 0 && fresh_account(ratio).up == 0,
        a.after_down(bytes).ratio == a.ratio && a.after_down(bytes).up == a.up,
        a.after_up(bytes).ratio == a.ratio && a.after_up(bytes).down == a.down,
        a.down + bytes <= u64::MAX ==> a.after_down(bytes).down == a.down + bytes,
        a.down + bytes > u64::MAX ==> a.after_down(bytes).down == 0xffff_ffff_ffff_ffff,
        a.up + bytes <= u64::MAX ==> a.after_up(bytes).up == a.up + bytes,
        a.up + bytes > u64::MAX ==> a.after_up(bytes).up == 0xffff_ffff_ffff_ffff,
{
}

} // verus!
