//! The discipline of one endpoint as a whole.

use super::blackhole::{
    AfterFreeze, BlackholeDetector, DetectorView, FreezeController, FreezeView, Health, Reaction,
};
use super::budget;
use super::budget::{BudgetEvent, BudgetView, ConnectionBudget, GateDecision};
use super::clock::{Clock, Jitter, Millis};
use vstd::prelude::*;

verus! {

/// What to do now.
#[derive(Debug, Clone, Copy, PartialEq, Eq, Structural)]
pub enum ManagerAction {
    /// Connect; report with `note_attempt` and what follows.
    Connect,
    /// Too early: ask again after so many milliseconds.
    Wait(Millis),
    /// As many connections are open as may be.
    AtCapacity,
    /// A freeze is on until `until_ms`, with `then` behind it.
    Frozen { until_ms: Millis, then: AfterFreeze },
    /// The network is down: keep the profile and wait, at least so long.
    NetworkDown(Millis),
}

/// The budget, the detector and the freezes of one endpoint.
pub struct ConnectionManager<C: Clock, J: Jitter> {
    pub clock: C,
    pub jitter: J,
    pub budget: ConnectionBudget,
    pub detector: BlackholeDetector,
    pub freeze: FreezeController,
}

/// What a manager holds besides its clock and its jitter.
pub struct ManagerView {
    pub budget: BudgetView,
    pub detector: DetectorView,
    pub freeze: FreezeView,
}

impl<C: Clock, J: Jitter> View for ConnectionManager<C, J> {
    type V = ManagerView;

    open spec fn view(&self) -> ManagerView {
        ManagerView { budget: self.budget@, detector: self.detector@, freeze: self.freeze@ }
    }
}

/// A reaction as an action.
pub open spec fn frozen(r: Reaction) -> ManagerAction {
    match r {
        Reaction::Freeze { until_ms, then } => ManagerAction::Frozen { until_ms, then },
    }
}

/// The end of the freeze that a reaction asks for.
pub open spec fn freeze_end(r: Reaction) -> Millis {
    match r {
        Reaction::Freeze { until_ms, then } => until_ms,
    }
}

impl ManagerView {
    /// What to do at `now`: a freeze comes first, the health of the channel next, the
    /// budget last.
    pub open spec fn action(self, now: Millis) -> ManagerAction {
        if self.freeze.silent(now) {
            frozen(self.freeze.reaction())
        } else {
            match self.detector.health(now) {
                Health::Blackholed => frozen(self.freeze.tripped(now).reaction()),
                Health::NetworkDown => match self.budget.gate(now) {
                    GateDecision::Wait(ms) => ManagerAction::NetworkDown(ms),
                    _ => ManagerAction::NetworkDown(0),
                },
                _ => match self.budget.gate(now) {
                    GateDecision::Allow => ManagerAction::Connect,
                    GateDecision::Wait(ms) => ManagerAction::Wait(ms),
                    GateDecision::AtCapacity => ManagerAction::AtCapacity,
                },
            }
        }
    }

    /// What is left behind that decision. Only a new freeze changes anything: the
    /// budget pauses until its end and counts no connection any more, for those that
    /// are open are dead, and what was sent counts as lost.
    pub open spec fn after_poll(self, now: Millis) -> ManagerView {
        if !self.freeze.silent(now) && self.detector.health(now) == Health::Blackholed {
            let freeze = self.freeze.tripped(now);
            ManagerView {
                budget: self.budget.paused_until(freeze_end(freeze.reaction())).released(),
                detector: self.detector.cleared(),
                freeze,
            }
        } else {
            self
        }
    }
}

/// What asking at `now` does.
pub open spec fn polled(pre: ManagerView, post: ManagerView, now: Millis, a: ManagerAction) -> bool {
    a == pre.action(now) && post == pre.after_poll(now)
}

impl<C: Clock, J: Jitter> ConnectionManager<C, J> {
    /// A manager of these parts.
    pub fn new(
        clock: C,
        jitter: J,
        budget: ConnectionBudget,
        detector: BlackholeDetector,
        freeze: FreezeController,
    ) -> (m: Self)
        ensures
            m.clock == clock,
            m.jitter == jitter,
            m@ == (ManagerView { budget: budget@, detector: detector@, freeze: freeze@ }),
    {
        ConnectionManager { clock, jitter, budget, detector, freeze }
    }

    /// What to do at a given time.
    pub fn poll_at(&mut self, now: Millis) -> (a: ManagerAction)
        ensures
            polled(old(self)@, final(self)@, now, a),
            old(self)@.budget.max_conns >= 1,
            final(self).clock == old(self).clock,
            final(self).jitter == old(self).jitter,
    {
        proof {
            use_type_invariant(&self.budget);
        }
        if self.freeze.is_silent(now) {
            return self.frozen_action();
        }
        match self.detector.assess(now) {
            Health::Blackholed => {
                let Reaction::Freeze { until_ms, then } = self.freeze.trip(now);
                self.budget.freeze_until(until_ms);
                self.budget.release_all();
                self.detector.clear_pending();
                return ManagerAction::Frozen { until_ms, then };
            },
            Health::NetworkDown => {
                if let GateDecision::Wait(d) = self.budget.poll(now) {
                    return ManagerAction::NetworkDown(d);
                }
                return ManagerAction::NetworkDown(0);
            },
            Health::Healthy => {},
            Health::Suspect => {},
        }
        match self.budget.poll(now) {
            GateDecision::Allow => ManagerAction::Connect,
            GateDecision::Wait(d) => ManagerAction::Wait(d),
            GateDecision::AtCapacity => ManagerAction::AtCapacity,
        }
    }

    /// What to do now.
    pub fn poll(&mut self) -> (a: ManagerAction)
        ensures
            exists|now: Millis| #[trigger]
                old(self).clock.shows(now) && polled(old(self)@, final(self)@, now, a),
            old(self)@.budget.max_conns >= 1,
            final(self).clock == old(self).clock,
            final(self).jitter == old(self).jitter,
    {
        let now: u64 = self.clock.now_ms();
        self.poll_at(now)
    }

    fn frozen_action(&self) -> (a: ManagerAction)
        ensures
            a == frozen(self@.freeze.reaction()),
    {
        match self.freeze.current() {
            Reaction::Freeze { until_ms, then } => ManagerAction::Frozen { until_ms, then },
        }
    }

    /// An attempt begins.
    pub fn note_attempt(&mut self)
        ensures
            exists|now: Millis| #[trigger]
                old(self).clock.shows(now) && final(self)@ == old(self)@.after(
                    ManagerEvent::Budget(BudgetEvent::Attempt { now }),
                ),
            final(self).clock == old(self).clock,
            final(self).jitter == old(self).jitter,
    {
        let now: u64 = self.clock.now_ms();
        self.budget.on_attempt(now);
    }

    /// The attempt succeeded.
    pub fn note_success(&mut self)
        requires
            old(self)@.budget.active < u32::MAX,
        ensures
            final(self)@ == old(self)@.after(ManagerEvent::Budget(BudgetEvent::Success)),
            final(self).clock == old(self).clock,
            final(self).jitter == old(self).jitter,
    {
        let now: u64 = self.clock.now_ms();
        self.budget.on_success(now);
    }

    /// The attempt failed.
    pub fn note_failure(&mut self)
        ensures
            exists|now: Millis| #[trigger]
                old(self).clock.shows(now) && budget::failed(
                    old(self)@.budget,
                    final(self)@.budget,
                    now,
                    old(self).jitter,
                    final(self).jitter,
                ),
            final(self)@ == (ManagerView { budget: final(self)@.budget, ..old(self)@ }),
            final(self).clock == old(self).clock,
    {
        let now: u64 = self.clock.now_ms();
        self.budget.on_failure(now, &mut self.jitter);
    }

    /// An open connection broke.
    pub fn note_drop(&mut self)
        ensures
            exists|now: Millis| #[trigger]
                old(self).clock.shows(now) && budget::dropped(
                    old(self)@.budget,
                    final(self)@.budget,
                    now,
                    old(self).jitter,
                    final(self).jitter,
                ),
            final(self)@ == (ManagerView { budget: final(self)@.budget, ..old(self)@ }),
            final(self).clock == old(self).clock,
    {
        let now: u64 = self.clock.now_ms();
        self.budget.on_drop(now, &mut self.jitter);
    }

    /// A connection was closed on purpose.
    pub fn note_close(&mut self)
        ensures
            exists|now: Millis| #[trigger]
                old(self).clock.shows(now) && final(self)@ == old(self)@.after(
                    ManagerEvent::Budget(BudgetEvent::Close { now }),
                ),
            final(self).clock == old(self).clock,
            final(self).jitter == old(self).jitter,
    {
        let now: u64 = self.clock.now_ms();
        self.budget.on_close(now);
    }

    /// Something was sent.
    pub fn note_sent(&mut self)
        ensures
            exists|now: Millis| #[trigger]
                old(self).clock.shows(now) && final(self)@ == old(self)@.after(
                    ManagerEvent::Sent { now },
                ),
            final(self).clock == old(self).clock,
            final(self).jitter == old(self).jitter,
    {
        let now: u64 = self.clock.now_ms();
        self.detector.on_sent(now);
    }

    /// Something was received: the channel lives, and the escalation starts over.
    pub fn note_recv(&mut self)
        ensures
            exists|now: Millis| #[trigger]
                old(self).clock.shows(now) && final(self)@ == old(self)@.after(
                    ManagerEvent::Recv { now },
                ),
            final(self).clock == old(self).clock,
            final(self).jitter == old(self).jitter,
    {
        let now: u64 = self.clock.now_ms();
        self.detector.on_recv(now);
        self.freeze.on_recovered();
    }

    /// Another host was found reachable, or not.
    pub fn note_reference(&mut self, reachable: bool)
        ensures
            exists|now: Millis| #[trigger]
                old(self).clock.shows(now) && final(self)@ == old(self)@.after(
                    ManagerEvent::Reference { now, reachable },
                ),
            final(self).clock == old(self).clock,
            final(self).jitter == old(self).jitter,
    {
        let now: u64 = self.clock.now_ms();
        self.detector.on_reference(now, reachable);
    }

    /// How many connections are open.
    pub fn active(&self) -> (n: u32)
        ensures
            n == self@.budget.active,
    {
        self.budget.active()
    }

    /// How many freezes there were since the channel last answered.
    pub fn strikes(&self) -> (n: u32)
        ensures
            n == self@.freeze.strikes,
    {
        self.freeze.strikes()
    }
}

/// While a freeze is on, asking changes nothing and allows nothing.
pub proof fn law_freeze_keeps_still(m: ManagerView, now: Millis)
    requires
        m.freeze.silent(now),
    ensures
        m.after_poll(now) == m,
        m.action(now) is Frozen,
{
}

/// A dead network neither escalates nor changes anything.
pub proof fn law_network_down_does_not_escalate(m: ManagerView, now: Millis)
    requires
        !m.freeze.silent(now),
        m.detector.health(now) == Health::NetworkDown,
    ensures
        m.action(now) is NetworkDown,
        m.after_poll(now) == m,
{
}

/// Behind a freeze exactly one way lies open: until its end every answer is that
/// freeze; from then on, as soon as earlier pauses are over too, a connection is
/// allowed, although the dead one was never reported closed.
pub proof fn law_probe_behind_freeze(m: ManagerView, now: Millis, t: Millis)
    requires
        m.budget.max_conns >= 1,
        !m.freeze.silent(now),
        m.detector.health(now) == Health::Blackholed,
    ensures
        ({
            let post = m.after_poll(now);
            let end = freeze_end(post.freeze.reaction());
            &&& m.action(now) == frozen(post.freeze.reaction())
            &&& t < end ==> post.action(t) == m.action(now)
            &&& t >= end && t >= m.budget.next_allowed ==> post.action(t) == ManagerAction::Connect
        }),
{
}

/// What can happen to a manager: a question, or a report.
pub enum ManagerEvent {
    Poll { now: Millis },
    Budget(BudgetEvent),
    Sent { now: Millis },
    Recv { now: Millis },
    Reference { now: Millis, reachable: bool },
}

impl ManagerView {
    /// The manager behind an event.
    pub open spec fn after(self, ev: ManagerEvent) -> ManagerView {
        match ev {
            ManagerEvent::Poll { now } => self.after_poll(now),
            ManagerEvent::Budget(ev) => ManagerView { budget: self.budget.after(ev), ..self },
            ManagerEvent::Sent { now } => ManagerView {
                detector: self.detector.after_sent(now),
                ..self
            },
            ManagerEvent::Recv { now } => ManagerView {
                detector: self.detector.after_recv(now),
                freeze: self.freeze.recovered(),
                ..self
            },
            ManagerEvent::Reference { now, reachable } => ManagerView {
                detector: self.detector.after_reference(now, reachable),
                ..self
            },
        }
    }

    /// The manager behind several events, the first one first.
    pub open spec fn after_all(self, evs: Seq<ManagerEvent>) -> ManagerView
        decreases evs.len(),
    {
        if evs.len() == 0 {
            self
        } else {
            self.after(evs[0]).after_all(evs.drop_first())
        }
    }
}

/// A freeze is kept: from the question that brings it on, whatever happens, a connection
/// is not allowed before its end.
pub proof fn law_no_connect_before_freeze_ends(
    m: ManagerView,
    now: Millis,
    evs: Seq<ManagerEvent>,
    t: Millis,
)
    requires
        !m.freeze.silent(now),
        m.detector.health(now) == Health::Blackholed,
        t < freeze_end(m.after_poll(now).freeze.reaction()),
    ensures
        m.after_poll(now).after_all(evs).action(t) != ManagerAction::Connect,
{
    lemma_pause_stays(m.after_poll(now), evs);
}

/// Whatever happens, the pause of the budget does not get shorter.
proof fn lemma_pause_stays(m: ManagerView, evs: Seq<ManagerEvent>)
    ensures
        m.after_all(evs).budget.next_allowed >= m.budget.next_allowed,
    decreases evs.len(),
{
    if evs.len() > 0 {
        lemma_pause_stays(m.after(evs[0]), evs.drop_first());
    }
}

/// Whatever was asked, a connection is allowed only when no freeze is on, the channel
/// is not known to be dead, and the budget allows it.
pub proof fn law_connect_is_allowed(m: ManagerView, now: Millis)
    ensures
        m.action(now) == ManagerAction::Connect <==> !m.freeze.silent(now) && (m.detector.health(
            now,
        ) == Health::Healthy || m.detector.health(now) == Health::Suspect) && m.budget.gate(now)
            == GateDecision::Allow,
{
}

/// What a manager says, by what it knows. A freeze that is on comes first. Else a channel that
/// is blackholed brings one on, the longer one if there was one before, and asks for another
/// profile from the third on. Else a network that is down is said to be, with the rest of the
/// pause. Else the budget decides: connect, wait for the rest of the pause, or too many open.
pub proof fn law_manager_says(m: ManagerView, now: Millis)
    ensures
        ({
            let a = m.action(now);
            let frozen = m.freeze.silent_until matches Some(end) && now < end;
            let health = m.detector.health(now);
            let full = m.budget.active >= m.budget.max_conns;
            let pause = m.budget.next_allowed - now;
            &&& frozen ==> (a matches ManagerAction::Frozen { until_ms, then } && Some(until_ms)
                == m.freeze.silent_until && (then == AfterFreeze::SwitchProfile
                <==> m.freeze.strikes >= 3))
            &&& !frozen && health == Health::Blackholed ==> (a matches ManagerAction::Frozen {
                until_ms,
                then,
            } && budget::is_latest(
                until_ms,
                0,
                if m.freeze.strikes == 0 {
                    now + m.freeze.first
                } else {
                    now + m.freeze.repeat
                },
            ) && (then == AfterFreeze::SwitchProfile <==> m.freeze.strikes >= 2))
            &&& !frozen && health == Health::NetworkDown ==> (a matches ManagerAction::NetworkDown(
                ms,
            ) && ms == (if !full && pause > 0 {
                pause
            } else {
                0
            }))
            &&& !frozen && (health == Health::Healthy || health == Health::Suspect) ==> {
                &&& a == ManagerAction::Connect <==> !full && pause <= 0
                &&& a == ManagerAction::AtCapacity <==> full
                &&& a is Wait <==> !full && pause > 0
                &&& a matches ManagerAction::Wait(ms) ==> ms == pause
            }
        }),
{
}

/// What asking leaves behind: nothing, unless it brings a freeze on. Then no connection is
/// open any more, none may begin before the freeze is over, what was sent is forgotten, and
/// the freeze counts.
pub proof fn law_manager_is_left(m: ManagerView, now: Millis)
    ensures
        ({
            let after = m.after_poll(now);
            let frozen = m.freeze.silent_until matches Some(end) && now < end;
            &&& frozen || m.detector.health(now) != Health::Blackholed ==> after == m
            &&& !frozen && m.detector.health(now) == Health::Blackholed ==> {
                &&& after.budget.active == 0
                &&& after.freeze.silent_until matches Some(end) && after.budget.next_allowed >= end
                    && (after.budget.next_allowed == end || after.budget.next_allowed
                    == m.budget.next_allowed)
                &&& after.budget.next_allowed >= m.budget.next_allowed
                &&& after.budget == (BudgetView {
                    active: 0,
                    next_allowed: after.budget.next_allowed,
                    ..m.budget
                })
                &&& after.detector == (DetectorView { unanswered_since: None, ..m.detector })
                &&& m.freeze.strikes < u32::MAX ==> after.freeze.strikes == m.freeze.strikes + 1
                &&& after.freeze.first == m.freeze.first && after.freeze.repeat == m.freeze.repeat
                &&& m.action(now) == (ManagerAction::Frozen {
                    until_ms: after.freeze.silent_until->Some_0,
                    then: if after.freeze.strikes >= 3 {
                        AfterFreeze::SwitchProfile
                    } else {
                        AfterFreeze::Probe
                    },
                })
            }
        }),
{
}

/// What is reported reaches the part that it is about, and no other: an answer also ends the
/// freezes.
pub proof fn law_reports_reach_their_part(m: ManagerView, now: Millis, ev: BudgetEvent, ok: bool)
    ensures
        m.after(ManagerEvent::Budget(ev)) == (ManagerView { budget: m.budget.after(ev), ..m }),
        m.after(ManagerEvent::Sent { now }).detector == m.detector.after_sent(now),
        m.after(ManagerEvent::Recv { now }).detector == m.detector.after_recv(now),
        m.after(ManagerEvent::Recv { now }).freeze.strikes == 0,
        m.after(ManagerEvent::Recv { now }).freeze.silent_until is None,
        m.after(ManagerEvent::Reference { now, reachable: ok }).detector
            == m.detector.after_reference(now, ok),
        m.after(ManagerEvent::Sent { now }).budget == m.budget,
        m.after(ManagerEvent::Recv { now }).budget == m.budget,
        m.after(ManagerEvent::Reference { now, reachable: ok }).budget == m.budget,
        m.after(ManagerEvent::Sent { now }).freeze == m.freeze,
        m.after(ManagerEvent::Reference { now, reachable: ok }).freeze == m.freeze,
{
}

/// Each report to the budget does what it says: an attempt, a success, a failure, a break, a
/// close, a freeze and a release.
pub proof fn law_budget_reports(b: BudgetView, now: Millis, delay: Millis)
    ensures
        b.after(BudgetEvent::Attempt { now }) == b.after_attempt(now),
        b.after(BudgetEvent::Success) == b.after_success(),
        b.after(BudgetEvent::Failure { now, delay }) == b.after_failure(now, delay),
        b.after(BudgetEvent::Drop { now, delay }) == b.after_drop(now, delay),
        b.after(BudgetEvent::Close { now }) == b.after_close(now),
        b.after(BudgetEvent::Freeze { until: now }) == b.paused_until(now),
        b.after(BudgetEvent::Release) == b.released(),
{
}

/// Who asks is told to connect only if the budget allows it now and nothing is frozen, and then
/// nothing changes; told of a freeze exactly while one is on or if the channel is blackholed,
/// and if it is new, no connection counts any more.
pub proof fn law_asking(pre: ManagerView, post: ManagerView, now: Millis, a: ManagerAction)
    requires
        polled(pre, post, now, a),
    ensures
        ({
            let on = pre.freeze.silent_until matches Some(end) && now < end;
            let gone = pre.detector.health(now) == Health::Blackholed;
            &&& a is Frozen <==> on || gone
            &&& on || !gone ==> post == pre
            &&& !on && gone ==> post.budget.active == 0 && post.freeze.silent_until is Some
                && post.detector.unanswered_since is None
            &&& a == ManagerAction::Connect ==> !on && pre.budget.active < pre.budget.max_conns
                && pre.budget.next_allowed <= now
            &&& a is NetworkDown <==> !on && pre.detector.health(now) == Health::NetworkDown
        }),
{
}

} // verus!
