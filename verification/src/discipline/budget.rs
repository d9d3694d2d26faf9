//! How many connections, and how close together.
//!
//! At most `max_conns` at a time, attempts at least `min_interval_ms` apart, and a
//! backoff behind failures and broken connections. A point in time beyond the range of
//! the clock counts as its end.

use super::backoff::{Backoff, BackoffView};
use super::clock::{Jitter, Millis};
use vstd::prelude::*;

verus! {

/// What the budget says to an attempt right now.
#[derive(Debug, Clone, Copy, PartialEq, Eq, Structural)]
pub enum GateDecision {
    /// Go ahead; report with `on_attempt` and what follows.
    Allow,
    /// Too early: ask again after so many milliseconds.
    Wait(Millis),
    /// As many connections are open as may be.
    AtCapacity,
}

/// The budget of one endpoint.
#[derive(Debug, Clone, Copy)]
pub struct ConnectionBudget {
    max_conns: u32,
    min_interval_ms: Millis,
    active: u32,
    next_allowed_ms: Millis,
    backoff: Backoff,
}

/// What a budget holds.
pub struct BudgetView {
    pub max_conns: u32,
    pub min_interval: Millis,
    pub active: u32,
    pub next_allowed: Millis,
    pub backoff: BackoffView,
}

/// `ms` after `now`.
pub open spec fn later(now: Millis, ms: Millis) -> Millis {
    if now + ms > u64::MAX {
        u64::MAX
    } else {
        (now + ms) as u64
    }
}

/// The longer of two delays.
pub open spec fn longer(a: Millis, b: Millis) -> Millis {
    if a < b {
        b
    } else {
        a
    }
}

impl BudgetView {
    /// The verdict at `now`.
    pub open spec fn gate(self, now: Millis) -> GateDecision {
        if self.active >= self.max_conns {
            GateDecision::AtCapacity
        } else if now < self.next_allowed {
            GateDecision::Wait((self.next_allowed - now) as u64)
        } else {
            GateDecision::Allow
        }
    }

    /// With a pause at least until `t`.
    pub open spec fn paused_until(self, t: Millis) -> BudgetView {
        BudgetView { next_allowed: longer(self.next_allowed, t), ..self }
    }

    /// With one connection less.
    pub open spec fn one_less(self) -> BudgetView {
        BudgetView {
            active: if self.active == 0 {
                0
            } else {
                (self.active - 1) as u32
            },
            ..self
        }
    }

    pub open spec fn after_attempt(self, now: Millis) -> BudgetView {
        self.paused_until(later(now, self.min_interval))
    }

    pub open spec fn after_success(self) -> BudgetView {
        BudgetView { active: (self.active + 1) as u32, backoff: self.backoff.fresh(), ..self }
    }

    pub open spec fn after_failure(self, now: Millis, delay: Millis) -> BudgetView {
        BudgetView { backoff: self.backoff.next(), ..self.paused_until(later(now, delay)) }
    }

    pub open spec fn after_drop(self, now: Millis, delay: Millis) -> BudgetView {
        BudgetView {
            backoff: self.backoff.next(),
            ..self.one_less().paused_until(later(now, longer(delay, self.min_interval)))
        }
    }

    pub open spec fn after_close(self, now: Millis) -> BudgetView {
        self.one_less().paused_until(later(now, self.min_interval))
    }

    pub open spec fn released(self) -> BudgetView {
        BudgetView { active: 0, ..self }
    }
}

impl View for ConnectionBudget {
    type V = BudgetView;

    closed spec fn view(&self) -> BudgetView {
        BudgetView {
            max_conns: self.max_conns,
            min_interval: self.min_interval_ms,
            active: self.active,
            next_allowed: self.next_allowed_ms,
            backoff: self.backoff@,
        }
    }
}

/// A budget of which nothing is used.
pub open spec fn fresh_budget(
    max_conns: u32,
    min_interval: Millis,
    backoff: BackoffView,
) -> BudgetView {
    BudgetView { max_conns, min_interval, active: 0, next_allowed: 0, backoff }
}

/// What a failed attempt does, with some delay that the jitter may draw.
pub open spec fn failed<J: Jitter>(
    pre: BudgetView,
    post: BudgetView,
    now: Millis,
    jitter: J,
    jitter_after: J,
) -> bool {
    exists|delay: Millis| #[trigger]
        jitter.draws(pre.backoff.bound(), delay, jitter_after) && post == pre.after_failure(
            now,
            delay,
        )
}

/// What a broken connection does, with some delay that the jitter may draw.
pub open spec fn dropped<J: Jitter>(
    pre: BudgetView,
    post: BudgetView,
    now: Millis,
    jitter: J,
    jitter_after: J,
) -> bool {
    exists|delay: Millis| #[trigger]
        jitter.draws(pre.backoff.bound(), delay, jitter_after) && post == pre.after_drop(now, delay)
}

impl ConnectionBudget {
    /// Every budget is for at least one connection.
    #[verifier::type_invariant]
    pub open spec fn inv(self) -> bool {
        self@.max_conns >= 1
    }

    /// A budget for at most `max_conns` connections, at least one.
    pub fn new(max_conns: u32, min_interval_ms: Millis, backoff: Backoff) -> (b: Self)
        requires
            max_conns >= 1,
        ensures
            b@ == fresh_budget(max_conns, min_interval_ms, backoff@),
    {
        ConnectionBudget { max_conns, min_interval_ms, active: 0, next_allowed_ms: 0, backoff }
    }

    /// The verdict at `now`.
    pub fn poll(&self, now: Millis) -> (d: GateDecision)
        ensures
            d == self@.gate(now),
            self@.max_conns >= 1,
    {
        proof {
            use_type_invariant(self);
        }
        if self.active >= self.max_conns {
            return GateDecision::AtCapacity;
        }
        if now < self.next_allowed_ms {
            return GateDecision::Wait(self.next_allowed_ms - now);
        }
        GateDecision::Allow
    }

    /// An attempt begins.
    pub fn on_attempt(&mut self, now: Millis)
        ensures
            final(self)@ == old(self)@.after_attempt(now),
    {
        self.bump_next_allowed(now.saturating_add(self.min_interval_ms));
    }

    /// The attempt succeeded: one connection more, and the backoff starts over.
    pub fn on_success(&mut self, _now: Millis)
        requires
            old(self)@.active < u32::MAX,
        ensures
            final(self)@ == old(self)@.after_success(),
    {
        proof {
            use_type_invariant(&*self);
        }
        self.active = self.active + 1;
        let mut backoff = self.backoff;
        backoff.reset();
        self.backoff = backoff;
    }

    /// The attempt failed: a pause by the backoff.
    pub fn on_failure<J: Jitter>(&mut self, now: Millis, jitter: &mut J)
        ensures
            failed(old(self)@, final(self)@, now, *old(jitter), *final(jitter)),
    {
        proof {
            use_type_invariant(&*self);
        }
        let mut backoff = self.backoff;
        let delay: u64 = backoff.next_delay(jitter);
        self.backoff = backoff;
        self.bump_next_allowed(now.saturating_add(delay));
        assert((*old(jitter)).draws(old(self)@.backoff.bound(), delay, *jitter));
    }

    /// An open connection broke: one less, and a pause by the backoff, never shorter
    /// than the interval between attempts.
    pub fn on_drop<J: Jitter>(&mut self, now: Millis, jitter: &mut J)
        ensures
            dropped(old(self)@, final(self)@, now, *old(jitter), *final(jitter)),
    {
        proof {
            use_type_invariant(&*self);
        }
        self.active = self.active.saturating_sub(1);
        let mut backoff = self.backoff;
        let delay: u64 = backoff.next_delay(jitter);
        self.backoff = backoff;
        let pause: u64 = if delay < self.min_interval_ms {
            self.min_interval_ms
        } else {
            delay
        };
        self.bump_next_allowed(now.saturating_add(pause));
        assert((*old(jitter)).draws(old(self)@.backoff.bound(), delay, *jitter));
    }

    /// A connection was closed on purpose: one less, and the usual interval.
    pub fn on_close(&mut self, now: Millis)
        ensures
            final(self)@ == old(self)@.after_close(now),
    {
        proof {
            use_type_invariant(&*self);
        }
        self.active = self.active.saturating_sub(1);
        self.bump_next_allowed(now.saturating_add(self.min_interval_ms));
    }

    /// No attempt before `until_ms`. A longer pause stays.
    pub fn freeze_until(&mut self, until_ms: Millis)
        ensures
            final(self)@ == old(self)@.paused_until(until_ms),
    {
        self.bump_next_allowed(until_ms);
    }

    /// Counts no connection as open any more; the pause stays. Once it is over, an attempt
    /// is allowed.
    pub fn release_all(&mut self)
        ensures
            final(self)@ == old(self)@.released(),
            forall|t: Millis|
                t >= final(self)@.next_allowed ==> #[trigger] final(self)@.gate(t)
                    == GateDecision::Allow,
    {
        proof {
            use_type_invariant(&*self);
        }
        self.active = 0;
    }

    /// How many connections are open.
    pub fn active(&self) -> (n: u32)
        ensures
            n == self@.active,
    {
        self.active
    }

    /// When the next attempt may begin.
    pub fn next_allowed_ms(&self) -> (t: Millis)
        ensures
            t == self@.next_allowed,
    {
        self.next_allowed_ms
    }

    /// Makes the pause longer, never shorter.
    fn bump_next_allowed(&mut self, when: Millis)
        ensures
            final(self)@ == old(self)@.paused_until(when),
    {
        proof {
            use_type_invariant(&*self);
        }
        if when > self.next_allowed_ms {
            self.next_allowed_ms = when;
        }
    }
}

/// Nothing that is reported shortens a pause.
pub proof fn law_pause_never_shortened(b: BudgetView, now: Millis, delay: Millis)
    ensures
        b.after_attempt(now).next_allowed >= b.next_allowed,
        b.after_success().next_allowed >= b.next_allowed,
        b.after_failure(now, delay).next_allowed >= b.next_allowed,
        b.after_drop(now, delay).next_allowed >= b.next_allowed,
        b.after_close(now).next_allowed >= b.next_allowed,
        b.paused_until(now).next_allowed >= b.next_allowed,
        b.released().next_allowed >= b.next_allowed,
{
}

/// Attempts are spaced: behind an attempt, a broken or a closed connection at `now`,
/// none is allowed before the interval is over.
pub proof fn law_attempts_are_spaced(b: BudgetView, now: Millis, delay: Millis, t: Millis)
    requires
        t < now + b.min_interval,
        t < u64::MAX,
    ensures
        b.after_attempt(now).gate(t) != GateDecision::Allow,
        b.after_drop(now, delay).gate(t) != GateDecision::Allow,
        b.after_close(now).gate(t) != GateDecision::Allow,
{
}

/// What can be reported to a budget.
pub enum BudgetEvent {
    Attempt { now: Millis },
    Success,
    Failure { now: Millis, delay: Millis },
    Drop { now: Millis, delay: Millis },
    Close { now: Millis },
    Freeze { until: Millis },
    Release,
}

impl BudgetView {
    /// The budget behind a report.
    pub open spec fn after(self, ev: BudgetEvent) -> BudgetView {
        match ev {
            BudgetEvent::Attempt { now } => self.after_attempt(now),
            BudgetEvent::Success => self.after_success(),
            BudgetEvent::Failure { now, delay } => self.after_failure(now, delay),
            BudgetEvent::Drop { now, delay } => self.after_drop(now, delay),
            BudgetEvent::Close { now } => self.after_close(now),
            BudgetEvent::Freeze { until } => self.paused_until(until),
            BudgetEvent::Release => self.released(),
        }
    }

    /// The budget behind several reports, the first one first.
    pub open spec fn after_all(self, evs: Seq<BudgetEvent>) -> BudgetView
        decreases evs.len(),
    {
        if evs.len() == 0 {
            self
        } else {
            self.after(evs[0]).after_all(evs.drop_first())
        }
    }
}

/// No storm of attempts: whatever is reported behind an attempt at `now`, none is
/// allowed before the interval is over.
pub proof fn law_no_storm(b: BudgetView, now: Millis, evs: Seq<BudgetEvent>, t: Millis)
    requires
        t < now + b.min_interval,
        t < u64::MAX,
    ensures
        b.after_attempt(now).after_all(evs).gate(t) != GateDecision::Allow,
{
    lemma_pause_stays(b.after_attempt(now), evs);
}

/// Whatever is reported, a pause does not get shorter.
proof fn lemma_pause_stays(b: BudgetView, evs: Seq<BudgetEvent>)
    ensures
        b.after_all(evs).next_allowed >= b.next_allowed,
    decreases evs.len(),
{
    if evs.len() > 0 {
        lemma_pause_stays(b.after(evs[0]), evs.drop_first());
    }
}

/// A failed attempt keeps the next one back for the delay that was drawn.
pub proof fn law_failure_holds_back(b: BudgetView, now: Millis, delay: Millis, t: Millis)
    requires
        t < now + delay,
        t < u64::MAX,
    ensures
        b.after_failure(now, delay).gate(t) != GateDecision::Allow,
{
}

/// A connection that was allowed never exceeds the limit.
pub proof fn law_limit_is_kept(b: BudgetView, now: Millis)
    requires
        b.gate(now) == GateDecision::Allow,
    ensures
        b.after_attempt(now).after_success().active <= b.max_conns,
{
}

/// Without open connections an attempt is allowed from the end of the pause on, and not
/// before.
pub proof fn law_released_allows(b: BudgetView, t: Millis)
    requires
        b.max_conns >= 1,
    ensures
        b.released().gate(t) == GateDecision::Allow <==> t >= b.next_allowed,
{
}

/// Whatever is reported, the limit stays.
pub proof fn law_limit_stays(b: BudgetView, evs: Seq<BudgetEvent>)
    ensures
        b.after_all(evs).max_conns == b.max_conns,
    decreases evs.len(),
{
    if evs.len() > 0 {
        law_limit_stays(b.after(evs[0]), evs.drop_first());
    }
}

/// Waiting as long as the verdict says is enough.
pub proof fn law_wait_is_enough(b: BudgetView, now: Millis)
    ensures
        b.gate(now) matches GateDecision::Wait(ms) ==> now + ms <= u64::MAX && b.gate(
            (now + ms) as u64,
        ) == GateDecision::Allow,
{
}

/// The verdict by what is open and when: an attempt is allowed exactly if fewer connections
/// than the limit are open and the pause is over; at the limit the verdict says so at any
/// time; else it is to wait for the rest of the pause.
pub proof fn law_verdict(b: BudgetView, now: Millis, ms: Millis)
    ensures
        b.gate(now) == GateDecision::Allow <==> b.active < b.max_conns && b.next_allowed <= now,
        b.gate(now) == GateDecision::AtCapacity <==> b.active >= b.max_conns,
        b.gate(now) == GateDecision::Wait(ms) <==> b.active < b.max_conns && now < b.next_allowed
            && now + ms == b.next_allowed,
{
}

/// What each report does to the number of open connections, to the pause and to the backoff.
/// A success opens one more, a break or a close takes one away, if there is one, and a release
/// takes all. A pause that is asked for begins at `now` and never shortens the one that is
/// on. A failure and a break count for the backoff, a success starts it over. Limit and
/// interval stay.
pub proof fn law_reports(b: BudgetView, now: Millis, delay: Millis)
    ensures
        ({
            let a = b.after_attempt(now);
            let s = b.after_success();
            let f = b.after_failure(now, delay);
            let d = b.after_drop(now, delay);
            let c = b.after_close(now);
            let p = b.paused_until(now);
            let r = b.released();
            &&& a.active == b.active && f.active == b.active && p.active == b.active
            &&& b.active < u32::MAX ==> s.active == b.active + 1
            &&& b.active > 0 ==> d.active == b.active - 1 && c.active == b.active - 1
            &&& b.active == 0 ==> d.active == 0 && c.active == 0
            &&& r.active == 0
            &&& is_latest(a.next_allowed, b.next_allowed, now + b.min_interval)
            &&& is_latest(f.next_allowed, b.next_allowed, now + delay)
            &&& is_latest(
                d.next_allowed,
                b.next_allowed,
                if delay < b.min_interval {
                    now + b.min_interval
                } else {
                    now + delay
                },
            )
            &&& is_latest(c.next_allowed, b.next_allowed, now + b.min_interval)
            &&& is_latest(p.next_allowed, b.next_allowed, now as int)
            &&& s.next_allowed == b.next_allowed && r.next_allowed == b.next_allowed
            &&& s.backoff.attempt == 0
            &&& b.backoff.attempt < u32::MAX ==> f.backoff.attempt == b.backoff.attempt + 1
                && d.backoff.attempt == b.backoff.attempt + 1
            &&& a.backoff == b.backoff && c.backoff == b.backoff
            &&& p.backoff == b.backoff && r.backoff == b.backoff
            &&& keeps_limits(b, a) && keeps_limits(b, s) && keeps_limits(b, f)
            &&& keeps_limits(b, d) && keeps_limits(b, c) && keeps_limits(b, p)
            &&& keeps_limits(b, r)
        }),
{
}

/// Whether `t` is the later of two points, or the end of the clock's range if that is earlier.
pub open spec fn is_latest(t: Millis, a: Millis, b: int) -> bool {
    &&& t >= a
    &&& t >= b || t == u64::MAX
    &&& t == a || t == b || t == u64::MAX && b > u64::MAX
}

/// Whether a report has left the limit, the interval and the range of the backoff alone.
pub open spec fn keeps_limits(b: BudgetView, after: BudgetView) -> bool {
    &&& after.max_conns == b.max_conns && after.min_interval == b.min_interval
    &&& after.backoff.base == b.backoff.base && after.backoff.cap == b.backoff.cap
}

/// How many connections are open behind several reports: successes count up, breaks and
/// closes count down as long as any is open, and a release starts over.
pub open spec fn open_after(open: nat, evs: Seq<BudgetEvent>) -> nat
    decreases evs.len(),
{
    if evs.len() == 0 {
        open
    } else {
        let before = open_after(open, evs.drop_last());
        match evs.last() {
            BudgetEvent::Success => before + 1,
            BudgetEvent::Drop { now, delay } => if before == 0 {
                0
            } else {
                (before - 1) as nat
            },
            BudgetEvent::Close { now } => if before == 0 {
                0
            } else {
                (before - 1) as nat
            },
            BudgetEvent::Release => 0,
            _ => before,
        }
    }
}

/// How many of the reports are successes.
pub open spec fn successes(evs: Seq<BudgetEvent>) -> nat {
    evs.filter(|ev: BudgetEvent| ev is Success).len()
}

/// Every open connection is counted: whatever is reported, the number is that of the
/// successes less the connections that broke or were closed since the last release.
pub proof fn law_open_connections_are_counted(b: BudgetView, evs: Seq<BudgetEvent>)
    requires
        b.active + evs.len() <= u32::MAX,
    ensures
        b.after_all(evs).active == open_after(b.active as nat, evs),
        b.after_all(evs).active <= b.active + evs.len(),
    decreases evs.len(),
{
    if evs.len() > 0 {
        let rest = evs.drop_last();
        law_open_connections_are_counted(b, rest);
        lemma_after_all_last(b, evs);
    }
}

/// The last report comes last.
proof fn lemma_after_all_last(b: BudgetView, evs: Seq<BudgetEvent>)
    requires
        evs.len() > 0,
    ensures
        b.after_all(evs) == b.after_all(evs.drop_last()).after(evs.last()),
    decreases evs.len(),
{
    reveal_with_fuel(BudgetView::after_all, 2);
    if evs.len() > 1 {
        let tail = evs.drop_first();
        lemma_after_all_last(b.after(evs[0]), tail);
        assert(tail.drop_last() =~= evs.drop_last().drop_first());
        assert(evs.drop_last()[0] == evs[0]);
        assert(tail.last() == evs.last());
    } else {
        assert(evs.drop_first() =~= Seq::<BudgetEvent>::empty());
        assert(evs.drop_last() =~= Seq::<BudgetEvent>::empty());
    }
}

/// The limit holds: once as many successes as it allows were reported, and none of these
/// connections broke, was closed or released, no further attempt is allowed at any time.
pub proof fn law_full_budget_allows_nothing(b: BudgetView, evs: Seq<BudgetEvent>, t: Millis)
    requires
        b.active + evs.len() <= u32::MAX,
        forall|i: int|
            0 <= i < evs.len() ==> !(#[trigger] evs[i] is Drop || evs[i] is Close || evs[i] is Release),
        b.active + successes(evs) >= b.max_conns,
    ensures
        b.after_all(evs).active == b.active + successes(evs),
        b.after_all(evs).gate(t) == GateDecision::AtCapacity,
{
    lemma_only_successes(b.active as nat, evs);
    law_open_connections_are_counted(b, evs);
    law_limit_stays(b, evs);
}

proof fn lemma_only_successes(open: nat, evs: Seq<BudgetEvent>)
    requires
        forall|i: int|
            0 <= i < evs.len() ==> !(#[trigger] evs[i] is Drop || evs[i] is Close || evs[i] is Release),
    ensures
        open_after(open, evs) == open + successes(evs),
    decreases evs.len(),
{
    reveal(Seq::filter);
    if evs.len() > 0 {
        let rest = evs.drop_last();
        assert forall|i: int| 0 <= i < rest.len() implies !(#[trigger] rest[i] is Drop || rest[i] is Close
            || rest[i] is Release) by {
            assert(rest[i] == evs[i]);
        }
        lemma_only_successes(open, rest);
        assert(evs.last() == evs[evs.len() - 1]);
    }
}

/// The later of two delays, and a time that is so much later, as far as the clock goes.
pub proof fn law_later_times(now: Millis, a: Millis, b: Millis)
    ensures
        now + a <= u64::MAX ==> later(now, a) == now + a,
        now + a > u64::MAX ==> later(now, a) == u64::MAX,
        longer(a, b) >= a && longer(a, b) >= b,
        longer(a, b) == a || longer(a, b) == b,
{
}

/// A budget begins with nothing open and no pause: the first attempt is allowed at any time,
/// and limit, interval and backoff are those that it was given.
pub proof fn law_budget_begins(
    max_conns: u32,
    min_interval: Millis,
    backoff: BackoffView,
    t: Millis,
)
    requires
        max_conns >= 1,
    ensures
        ({
            let b = fresh_budget(max_conns, min_interval, backoff);
            &&& b.gate(t) == GateDecision::Allow
            &&& b.active == 0 && b.next_allowed == 0
            &&& b.max_conns == max_conns && b.min_interval == min_interval && b.backoff == backoff
        }),
{
}

/// A failure and a break pause for what the jitter drew under the bound of the backoff, the
/// break at least for the interval, and count for the backoff. A failure opens and closes
/// nothing, a break takes one connection away, if there is one.
pub proof fn law_failures_pause_as_drawn<J: Jitter>(
    pre: BudgetView,
    post: BudgetView,
    now: Millis,
    jitter: J,
    after: J,
)
    ensures
        failed(pre, post, now, jitter, after) ==> post.active == pre.active && keeps_limits(
            pre,
            post,
        ) && exists|delay: Millis| #[trigger]
            jitter.draws(pre.backoff.bound(), delay, after) && is_latest(
                post.next_allowed,
                pre.next_allowed,
                now + delay,
            ),
        dropped(pre, post, now, jitter, after) ==> post.active == (if pre.active > 0 {
            pre.active - 1
        } else {
            0
        }) && keeps_limits(pre, post) && exists|delay: Millis| #[trigger]
            jitter.draws(pre.backoff.bound(), delay, after) && is_latest(
                post.next_allowed,
                pre.next_allowed,
                if delay < pre.min_interval {
                    now + pre.min_interval
                } else {
                    now + delay
                },
            ),
        failed(pre, post, now, jitter, after) || dropped(pre, post, now, jitter, after) ==> {
            &&& pre.backoff.attempt < u32::MAX ==> post.backoff.attempt == pre.backoff.attempt + 1
            &&& post.next_allowed >= pre.next_allowed
        },
{
    if failed(pre, post, now, jitter, after) {
        let delay = choose|delay: Millis| #[trigger]
            jitter.draws(pre.backoff.bound(), delay, after) && post == pre.after_failure(
                now,
                delay,
            );
        law_reports(pre, now, delay);
    }
    if dropped(pre, post, now, jitter, after) {
        let delay = choose|delay: Millis| #[trigger]
            jitter.draws(pre.backoff.bound(), delay, after) && post == pre.after_drop(now, delay);
        law_reports(pre, now, delay);
    }
}

} // verus!
