//! Telling a targeted silence from a dead network, and the reaction to it.
//!
//! A censor that drops packets silently does so for minutes, and longer for those who
//! keep trying. The sign is that data goes out and nothing comes back while other
//! hosts answer. The reaction is to keep still for longer than such a ban lasts, and
//! to change the profile only when it happens again and again.

use super::budget;
use super::clock::Millis;
use vstd::prelude::*;

verus! {

/// How the channel does.
#[derive(Debug, Clone, Copy, PartialEq, Eq, Structural)]
pub enum Health {
    /// Answers come, or the silence is still short.
    Healthy,
    /// The silence is long, and nothing fresh is known of other hosts.
    Suspect,
    /// The silence is long while other hosts answer.
    Blackholed,
    /// The silence is long, and other hosts are silent too.
    NetworkDown,
}

/// What was sent, received and observed.
#[derive(Debug, Clone, Copy)]
pub struct BlackholeDetector {
    silence_threshold_ms: Millis,
    reference_fresh_ms: Millis,
    last_recv_ms: Option<Millis>,
    unacked_since_ms: Option<Millis>,
    last_reference_ok_ms: Option<Millis>,
    last_reference_bad_ms: Option<Millis>,
}

/// What a detector holds.
pub struct DetectorView {
    /// From how long a silence on something is wrong.
    pub threshold: Millis,
    /// For how long an observation of another host counts.
    pub fresh_for: Millis,
    pub last_recv: Option<Millis>,
    /// When the first message was sent that nothing has answered.
    pub unanswered_since: Option<Millis>,
    pub reference_ok: Option<Millis>,
    pub reference_bad: Option<Millis>,
}

impl DetectorView {
    /// Whether an observation at `mark` still counts at `now`.
    pub open spec fn fresh(self, mark: Option<Millis>, now: Millis) -> bool {
        match mark {
            Some(t) => now - t <= self.fresh_for,
            None => false,
        }
    }

    /// How the channel does at `now`.
    pub open spec fn health(self, now: Millis) -> Health {
        match self.unanswered_since {
            None => Health::Healthy,
            Some(since) => {
                let silence = if now < since {
                    0
                } else {
                    now - since
                };
                if silence < self.threshold {
                    Health::Healthy
                } else if self.fresh(self.reference_ok, now) {
                    Health::Blackholed
                } else if self.fresh(self.reference_bad, now) {
                    Health::NetworkDown
                } else {
                    Health::Suspect
                }
            },
        }
    }

    pub open spec fn after_sent(self, now: Millis) -> DetectorView {
        DetectorView {
            unanswered_since: if self.unanswered_since is None {
                Some(now)
            } else {
                self.unanswered_since
            },
            ..self
        }
    }

    pub open spec fn after_recv(self, now: Millis) -> DetectorView {
        DetectorView { last_recv: Some(now), unanswered_since: None, ..self }
    }

    pub open spec fn cleared(self) -> DetectorView {
        DetectorView { unanswered_since: None, ..self }
    }

    pub open spec fn after_reference(self, now: Millis, reachable: bool) -> DetectorView {
        if reachable {
            DetectorView { reference_ok: Some(now), ..self }
        } else {
            DetectorView { reference_bad: Some(now), ..self }
        }
    }
}

/// A detector that has seen nothing.
pub open spec fn fresh_detector(threshold: Millis, fresh_for: Millis) -> DetectorView {
    DetectorView {
        threshold,
        fresh_for,
        last_recv: None,
        unanswered_since: None,
        reference_ok: None,
        reference_bad: None,
    }
}

/// The detector that is used unless another is asked for.
pub open spec fn usual_detector() -> DetectorView {
    fresh_detector(8000, 15000)
}

impl View for BlackholeDetector {
    type V = DetectorView;

    closed spec fn view(&self) -> DetectorView {
        DetectorView {
            threshold: self.silence_threshold_ms,
            fresh_for: self.reference_fresh_ms,
            last_recv: self.last_recv_ms,
            unanswered_since: self.unacked_since_ms,
            reference_ok: self.last_reference_ok_ms,
            reference_bad: self.last_reference_bad_ms,
        }
    }
}

impl BlackholeDetector {
    /// A detector that has seen nothing.
    pub fn new(silence_threshold_ms: Millis, reference_fresh_ms: Millis) -> (d: Self)
        ensures
            d@ == fresh_detector(silence_threshold_ms, reference_fresh_ms),
    {
        BlackholeDetector {
            silence_threshold_ms,
            reference_fresh_ms,
            last_recv_ms: None,
            unacked_since_ms: None,
            last_reference_ok_ms: None,
            last_reference_bad_ms: None,
        }
    }

    /// Eight seconds of silence are suspicious; an observation counts for fifteen.
    pub fn with_defaults() -> (d: Self)
        ensures
            d@ == usual_detector(),
    {
        Self::new(8000, 15000)
    }

    /// Something was sent.
    pub fn on_sent(&mut self, now: Millis)
        ensures
            final(self)@ == old(self)@.after_sent(now),
    {
        if self.unacked_since_ms.is_none() {
            self.unacked_since_ms = Some(now);
        }
    }

    /// Something was received: all that was sent counts as answered.
    pub fn on_recv(&mut self, now: Millis)
        ensures
            final(self)@ == old(self)@.after_recv(now),
    {
        self.last_recv_ms = Some(now);
        self.unacked_since_ms = None;
    }

    /// Forgets what was sent and not answered, and nothing else.
    pub fn clear_pending(&mut self)
        ensures
            final(self)@ == old(self)@.cleared(),
    {
        self.unacked_since_ms = None;
    }

    /// Another host was found reachable, or not.
    pub fn on_reference(&mut self, now: Millis, reachable: bool)
        ensures
            final(self)@ == old(self)@.after_reference(now, reachable),
    {
        if reachable {
            self.last_reference_ok_ms = Some(now);
        } else {
            self.last_reference_bad_ms = Some(now);
        }
    }

    /// How the channel does.
    pub fn assess(&self, now: Millis) -> (h: Health)
        ensures
            h == self@.health(now),
    {
        let since: u64 = match self.unacked_since_ms {
            Some(t) => t,
            None => return Health::Healthy,
        };
        let silent_for: u64 = now.saturating_sub(since);
        if silent_for < self.silence_threshold_ms {
            return Health::Healthy;
        }
        let ref_ok_fresh = self.is_fresh(self.last_reference_ok_ms, now);
        let ref_bad_fresh = self.is_fresh(self.last_reference_bad_ms, now);
        match (ref_ok_fresh, ref_bad_fresh) {
            (true, _) => Health::Blackholed,
            (false, true) => Health::NetworkDown,
            (false, false) => Health::Suspect,
        }
    }

    fn is_fresh(&self, mark: Option<Millis>, now: Millis) -> (b: bool)
        ensures
            b == self@.fresh(mark, now),
    {
        match mark {
            Some(t) => now.saturating_sub(t) <= self.reference_fresh_ms,
            None => false,
        }
    }
}

/// What to do behind a freeze.
#[derive(Debug, Clone, Copy, PartialEq, Eq, Structural)]
pub enum AfterFreeze {
    /// One careful attempt with the same profile.
    Probe,
    /// Change the profile altogether.
    SwitchProfile,
}

/// The reaction to a silence that is aimed at us.
#[derive(Debug, Clone, Copy, PartialEq, Eq, Structural)]
pub enum Reaction {
    /// Keep still until `until_ms`, and go on with `then`.
    Freeze { until_ms: Millis, then: AfterFreeze },
}

/// The escalation of freezes: first `first_ms` and a probe, then `repeat_ms` and a
/// probe, from the third time on `repeat_ms` and another profile.
#[derive(Debug, Clone, Copy)]
pub struct FreezeController {
    first_ms: Millis,
    repeat_ms: Millis,
    strikes: u32,
    silent_until_ms: Option<Millis>,
}

/// What a controller holds.
pub struct FreezeView {
    pub first: Millis,
    pub repeat: Millis,
    pub strikes: u32,
    pub silent_until: Option<Millis>,
}

impl FreezeView {
    /// Whether a freeze is on.
    pub open spec fn silent(self, now: Millis) -> bool {
        self.silent_until matches Some(u) && now < u
    }

    /// The reaction that is in force.
    pub open spec fn reaction(self) -> Reaction {
        Reaction::Freeze {
            until_ms: match self.silent_until {
                Some(u) => u,
                None => 0,
            },
            then: if self.strikes >= 3 {
                AfterFreeze::SwitchProfile
            } else {
                AfterFreeze::Probe
            },
        }
    }

    /// With one more freeze, unless one is on.
    pub open spec fn tripped(self, now: Millis) -> FreezeView {
        if self.silent(now) {
            self
        } else {
            FreezeView {
                strikes: if self.strikes == u32::MAX {
                    u32::MAX
                } else {
                    (self.strikes + 1) as u32
                },
                silent_until: Some(
                    budget::later(
                        now,
                        if self.strikes == 0 {
                            self.first
                        } else {
                            self.repeat
                        },
                    ),
                ),
                ..self
            }
        }
    }

    pub open spec fn recovered(self) -> FreezeView {
        FreezeView { strikes: 0, silent_until: None, ..self }
    }
}

/// A controller that has seen nothing.
pub open spec fn fresh_freezes(first: Millis, repeat: Millis) -> FreezeView {
    FreezeView { first, repeat, strikes: 0, silent_until: None }
}

/// The controller that is used unless another is asked for.
pub open spec fn usual_freezes() -> FreezeView {
    fresh_freezes(150000, 600000)
}

impl View for FreezeController {
    type V = FreezeView;

    closed spec fn view(&self) -> FreezeView {
        FreezeView {
            first: self.first_ms,
            repeat: self.repeat_ms,
            strikes: self.strikes,
            silent_until: self.silent_until_ms,
        }
    }
}

impl FreezeController {
    /// A controller that has seen nothing.
    pub fn new(first_ms: Millis, repeat_ms: Millis) -> (c: Self)
        ensures
            c@ == fresh_freezes(first_ms, repeat_ms),
    {
        FreezeController { first_ms, repeat_ms, strikes: 0, silent_until_ms: None }
    }

    /// 150 and 600 seconds.
    pub fn with_defaults() -> (c: Self)
        ensures
            c@ == usual_freezes(),
    {
        Self::new(150000, 600000)
    }

    /// Reacts to a silence that is aimed at us. While a freeze is on nothing changes.
    pub fn trip(&mut self, now: Millis) -> (r: Reaction)
        ensures
            final(self)@ == old(self)@.tripped(now),
            r == final(self)@.reaction(),
    {
        if self.is_silent(now) {
            return self.current();
        }
        self.strikes = self.strikes.saturating_add(1);
        let dur: u64 = if self.strikes <= 1 {
            self.first_ms
        } else {
            self.repeat_ms
        };
        self.silent_until_ms = Some(now.saturating_add(dur));
        self.current()
    }

    /// The reaction that is in force.
    pub fn current(&self) -> (r: Reaction)
        ensures
            r == self@.reaction(),
    {
        let then = if self.strikes >= 3 {
            AfterFreeze::SwitchProfile
        } else {
            AfterFreeze::Probe
        };
        let until_ms: u64 = match self.silent_until_ms {
            Some(u) => u,
            None => 0,
        };
        Reaction::Freeze { until_ms, then }
    }

    /// Whether a freeze is on.
    pub fn is_silent(&self, now: Millis) -> (b: bool)
        ensures
            b == self@.silent(now),
    {
        match self.silent_until_ms {
            Some(u) => now < u,
            None => false,
        }
    }

    /// The channel answers again: the escalation starts over.
    pub fn on_recovered(&mut self)
        ensures
            final(self)@ == old(self)@.recovered(),
    {
        self.strikes = 0;
        self.silent_until_ms = None;
    }

    /// How many freezes there were since the channel last answered.
    pub fn strikes(&self) -> (n: u32)
        ensures
            n == self@.strikes,
    {
        self.strikes
    }
}

/// Tripping again during a freeze neither adds a strike nor moves the end.
pub proof fn law_trip_idempotent(c: FreezeView, now: Millis, again: Millis)
    requires
        c.tripped(now).silent(again),
    ensures
        c.tripped(now).tripped(again) == c.tripped(now),
{
}

/// The escalation: from a recovery on, freezes last `first`, `repeat`, `repeat`, and
/// only the third asks for another profile. Each begins when the one before is over.
pub proof fn law_escalation(c: FreezeView, t1: Millis, t2: Millis, t3: Millis)
    requires
        !c.recovered().tripped(t1).silent(t2),
        !c.recovered().tripped(t1).tripped(t2).silent(t3),
    ensures
        c.recovered().tripped(t1).reaction() == (Reaction::Freeze {
            until_ms: budget::later(t1, c.first),
            then: AfterFreeze::Probe,
        }),
        c.recovered().tripped(t1).tripped(t2).reaction() == (Reaction::Freeze {
            until_ms: budget::later(t2, c.repeat),
            then: AfterFreeze::Probe,
        }),
        c.recovered().tripped(t1).tripped(t2).tripped(t3).reaction() == (Reaction::Freeze {
            until_ms: budget::later(t3, c.repeat),
            then: AfterFreeze::SwitchProfile,
        }),
{
}

/// Without a message that waits for its answer the channel is healthy, whatever the
/// time and whatever is known of other hosts.
pub proof fn law_answered_is_healthy(d: DetectorView, t: Millis, now: Millis)
    ensures
        d.after_recv(t).health(now) == Health::Healthy,
        d.cleared().health(now) == Health::Healthy,
{
}

/// A silence is held against the other side only while some other host was reachable
/// of late.
pub proof fn law_blackhole_needs_reference(d: DetectorView, now: Millis)
    requires
        d.health(now) == Health::Blackholed,
    ensures
        d.fresh(d.reference_ok, now),
        d.unanswered_since is Some,
{
}

/// What the health of a channel is, by what is known: it is healthy exactly while nothing
/// sent has waited for the threshold. From then on it is blackholed if another host was found
/// reachable within the fresh window; else the network is down if one was found unreachable
/// within it; else it is suspect. What was received earlier plays no part.
pub proof fn law_health_by_what_is_known(d: DetectorView, now: Millis)
    ensures
        ({
            let waited = d.unanswered_since matches Some(since) && (now - since >= d.threshold
                || d.threshold == 0);
            let reachable = d.reference_ok matches Some(t) && now - t <= d.fresh_for;
            let unreachable = d.reference_bad matches Some(t) && now - t <= d.fresh_for;
            &&& d.health(now) == Health::Healthy <==> !waited
            &&& d.health(now) == Health::Blackholed <==> waited && reachable
            &&& d.health(now) == Health::NetworkDown <==> waited && !reachable && unreachable
            &&& d.health(now) == Health::Suspect <==> waited && !reachable && !unreachable
        }),
{
}

/// What a detector remembers: the time of the first message since the last answer, the time
/// of the last answer, and the last time that another host was found reachable and
/// unreachable. Its thresholds stay.
pub proof fn law_detector_remembers(d: DetectorView, now: Millis, reachable: bool)
    ensures
        d.unanswered_since is None ==> d.after_sent(now).unanswered_since == Some(now),
        d.unanswered_since is Some ==> d.after_sent(now) == d,
        d.after_sent(now) == (DetectorView {
            unanswered_since: d.after_sent(now).unanswered_since,
            ..d
        }),
        d.after_recv(now).unanswered_since is None,
        d.after_recv(now).last_recv == Some(now),
        d.after_recv(now) == (DetectorView { last_recv: Some(now), unanswered_since: None, ..d }),
        d.cleared().unanswered_since is None,
        d.cleared() == (DetectorView { unanswered_since: None, ..d }),
        d.after_reference(now, true).reference_ok == Some(now),
        d.after_reference(now, true).reference_bad == d.reference_bad,
        d.after_reference(now, false).reference_bad == Some(now),
        d.after_reference(now, false).reference_ok == d.reference_ok,
        d.after_reference(now, reachable).unanswered_since == d.unanswered_since,
        d.after_reference(now, reachable).last_recv == d.last_recv,
        d.after_reference(now, reachable).threshold == d.threshold,
        d.after_reference(now, reachable).fresh_for == d.fresh_for,
{
}

/// A silence is measured from the first message that nothing has answered: sending more does
/// not put off the verdict, and an answer starts over.
pub proof fn law_silence_counts_from_first_message(
    d: DetectorView,
    first: Millis,
    answered: Millis,
    again: Millis,
    now: Millis,
)
    requires
        d.unanswered_since is None,
    ensures
        d.after_sent(first).after_sent(again).health(now) == d.after_sent(first).health(now),
        first + d.threshold <= now <==> d.threshold > 0 && d.after_sent(first).health(now)
            != Health::Healthy || d.threshold == 0 && first <= now,
        d.after_sent(first).after_recv(answered).health(now) == Health::Healthy,
        again + d.threshold > now && d.threshold > 0 ==> d.after_sent(first).after_recv(
            answered,
        ).after_sent(again).health(now) == Health::Healthy,
{
}

/// What a freeze is, by the freezes since the last recovery: the first lasts `first`, each
/// later one `repeat`, counted from the moment that brought it on; from the third on another
/// profile is due. One that is on is not touched. A recovery ends it and forgets them all.
pub proof fn law_freezes(c: FreezeView, now: Millis, t: Millis)
    ensures
        c.silent(t) <==> (c.silent_until matches Some(end) && t < end),
        c.silent(now) ==> c.tripped(now) == c,
        !c.silent(now) ==> {
            let f = c.tripped(now);
            let lasts = if c.strikes == 0 {
                c.first
            } else {
                c.repeat
            };
            &&& f.strikes == c.strikes + 1 || c.strikes == u32::MAX && f.strikes == c.strikes
            &&& f.silent_until is Some
            &&& now + lasts <= u64::MAX ==> f.silent_until == Some((now + lasts) as u64)
            &&& now + lasts > u64::MAX ==> f.silent_until == Some(u64::MAX)
            &&& f.first == c.first && f.repeat == c.repeat
        },
        c.silent_until matches Some(end) ==> (c.reaction() matches Reaction::Freeze {
            until_ms,
            then,
        } && until_ms == end && (then == AfterFreeze::SwitchProfile <==> c.strikes >= 3)
            && (then == AfterFreeze::Probe <==> c.strikes < 3)),
        c.silent_until is None ==> (c.reaction() matches Reaction::Freeze { until_ms, then }
            && until_ms == 0 && (then == AfterFreeze::SwitchProfile <==> c.strikes >= 3)),
        !c.recovered().silent(t),
        c.recovered().strikes == 0,
        c.recovered().first == c.first && c.recovered().repeat == c.repeat,
{
}

/// A detector begins without any knowledge, so that the channel counts as healthy, and a
/// controller without freezes. Usually eight seconds of silence are suspicious and an
/// observation counts for fifteen; freezes last two and a half minutes, then ten.
pub proof fn law_beginnings(threshold: Millis, fresh_for: Millis, first: Millis, repeat: Millis, t: Millis)
    ensures
        ({
            let d = fresh_detector(threshold, fresh_for);
            let c = fresh_freezes(first, repeat);
            &&& d.threshold == threshold && d.fresh_for == fresh_for
            &&& d.health(t) == Health::Healthy
            &&& d.unanswered_since is None && d.reference_ok is None && d.reference_bad is None
            &&& d.last_recv is None
            &&& !c.silent(t)
            &&& c.strikes == 0
            &&& c.first == first && c.repeat == repeat
        }),
        usual_detector() == fresh_detector((8 * 1_000) as u64, (15 * 1_000) as u64),
        usual_freezes() == fresh_freezes((150 * 1_000) as u64, (10 * 60 * 1_000) as u64),
{
}

} // verus!
