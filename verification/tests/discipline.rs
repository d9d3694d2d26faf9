use vlyness::discipline::backoff::Backoff;
use vlyness::discipline::blackhole::{
    AfterFreeze, BlackholeDetector, FreezeController, Health, Reaction,
};
use vlyness::discipline::budget::{ConnectionBudget, GateDecision};
use vlyness::discipline::clock::{Clock, FixedFraction, Jitter, ManualClock, OsJitter, SystemClock};
use vlyness::discipline::manager::{ConnectionManager, ManagerAction};

// --- clock and jitter ---

#[test]
fn manual_clock_advances() {
    let mut c = ManualClock::new(1000);
    assert_eq!(c.now_ms(), 1000);
    c.advance(500);
    assert_eq!(c.now_ms(), 1500);
    c.set(42);
    assert_eq!(c.now_ms(), 42);
}

#[test]
fn fixed_fraction_is_deterministic() {
    assert_eq!(FixedFraction::new(0, 1).below(1000), 0);
    assert_eq!(FixedFraction::new(1, 1).below(1000), 1000);
    assert_eq!(FixedFraction::new(1, 2).below(1000), 500);
    assert_eq!(FixedFraction::new(3, 4).below(2000), 1500);
}

#[test]
fn os_jitter_stays_in_range() {
    let mut j = OsJitter;
    for _ in 0..1000 {
        assert!(j.below(100) < 100);
    }
    assert_eq!(j.below(0), 0);
}

#[test]
fn fixed_fraction_is_capped() {
    assert_eq!(FixedFraction::new(u64::MAX, 1).below(2), u64::MAX);
    assert_eq!(FixedFraction::new(u64::MAX, u64::MAX).below(u64::MAX), u64::MAX);
}

#[test]
fn system_clock_starts_near_zero_and_runs_forward() {
    let c = SystemClock::new();
    let a = c.now_ms();
    let b = c.now_ms();
    assert!(a <= b && b < 10_000);
}

// --- backoff ---

fn at_attempt(n: u32) -> Backoff {
    let mut b = Backoff::new(2000, 300_000);
    let mut zero = FixedFraction::new(0, 1);
    for _ in 0..n {
        b.next_delay(&mut zero);
    }
    b
}

#[test]
fn ceiling_grows_then_caps() {
    assert_eq!(at_attempt(0).ceiling(), 2000);
    assert_eq!(at_attempt(1).ceiling(), 4000);
    assert_eq!(at_attempt(3).ceiling(), 16000);
    assert_eq!(at_attempt(40).ceiling(), 300_000);
}

#[test]
fn full_jitter_max_follows_ceiling() {
    let mut b = Backoff::new(2000, 300_000);
    let mut jmax = FixedFraction::new(1, 1);
    assert_eq!(b.next_delay(&mut jmax), 2001);
    assert_eq!(b.next_delay(&mut jmax), 4001);
    assert_eq!(b.next_delay(&mut jmax), 8001);
}

#[test]
fn full_jitter_can_be_zero() {
    let mut b = Backoff::new(2000, 300_000);
    let mut jzero = FixedFraction::new(0, 1);
    assert_eq!(b.next_delay(&mut jzero), 0);
    assert_eq!(b.attempt(), 1);
}

#[test]
fn reset_returns_to_base() {
    let mut b = Backoff::new(2000, 300_000);
    let mut jmax = FixedFraction::new(1, 1);
    b.next_delay(&mut jmax);
    b.next_delay(&mut jmax);
    assert_eq!(b.attempt(), 2);
    b.reset();
    assert_eq!(b.attempt(), 0);
    assert_eq!(b.ceiling(), 2000);
}

#[test]
fn ceiling_reaches_the_largest_cap() {
    let mut b = Backoff::new(1, u64::MAX);
    let mut zero = FixedFraction::new(0, 1);
    for _ in 0..63 {
        b.next_delay(&mut zero);
    }
    assert_eq!(b.ceiling(), 1 << 63);
    b.next_delay(&mut zero);
    assert_eq!(b.ceiling(), u64::MAX);
    b.next_delay(&mut zero);
    assert_eq!(b.ceiling(), u64::MAX);
    let mut b = Backoff::new(3, u64::MAX);
    for _ in 0..70 {
        b.next_delay(&mut zero);
    }
    assert_eq!(b.ceiling(), u64::MAX);
    let mut b = Backoff::new(0, 5);
    for _ in 0..70 {
        assert_eq!(b.ceiling(), 0);
        b.next_delay(&mut zero);
    }
    assert_eq!(Backoff::new(9, 5).ceiling(), 5);
}

#[test]
fn system_jitter_never_exceeds_the_ceiling() {
    let mut b = Backoff::new(3, 100);
    let mut j = OsJitter;
    for _ in 0..50 {
        let ceiling = b.ceiling();
        assert!(b.next_delay(&mut j) <= ceiling);
    }
}

// --- budget ---

fn budget(max: u32) -> ConnectionBudget {
    ConnectionBudget::new(max, 800, Backoff::new(2000, 300_000))
}

#[test]
fn allows_first_then_spaces_by_min_interval() {
    let mut b = budget(2);
    assert_eq!(b.poll(0), GateDecision::Allow);
    b.on_attempt(0);
    b.on_success(0);
    assert_eq!(b.poll(100), GateDecision::Wait(700));
    assert_eq!(b.poll(800), GateDecision::Allow);
}

#[test]
fn enforces_capacity() {
    let mut b = budget(1);
    b.on_attempt(0);
    b.on_success(0);
    assert_eq!(b.poll(10_000), GateDecision::AtCapacity);
    b.on_close(10_000);
    assert_eq!(b.poll(10_000), GateDecision::Wait(800));
    assert_eq!(b.poll(10_800), GateDecision::Allow);
}

#[test]
fn failure_triggers_backoff() {
    let mut b = budget(1);
    let mut jmax = FixedFraction::new(1, 1);
    b.on_attempt(0);
    b.on_failure(0, &mut jmax);
    assert_eq!(b.poll(1000), GateDecision::Wait(1001));
    assert_eq!(b.poll(2001), GateDecision::Allow);
}

#[test]
fn repeated_failures_grow_backoff() {
    let mut b = budget(1);
    let mut jmax = FixedFraction::new(1, 1);
    b.on_attempt(0);
    b.on_failure(0, &mut jmax);
    assert_eq!(b.poll(0), GateDecision::Wait(2001));
    b.on_attempt(2001);
    b.on_failure(2001, &mut jmax);
    assert_eq!(b.poll(2001), GateDecision::Wait(4001));
}

#[test]
fn success_resets_backoff() {
    let mut b = budget(1);
    let mut jmax = FixedFraction::new(1, 1);
    b.on_attempt(0);
    b.on_failure(0, &mut jmax);
    b.on_attempt(5000);
    b.on_success(5000);
    b.on_close(5000);
    assert_eq!(b.poll(5000), GateDecision::Wait(800));
}

#[test]
fn drop_decrements_and_backs_off() {
    let mut b = budget(1);
    let mut jmax = FixedFraction::new(1, 1);
    b.on_attempt(0);
    b.on_success(0);
    b.on_drop(1000, &mut jmax);
    assert_eq!(b.active(), 0);
    assert_eq!(b.poll(1000), GateDecision::Wait(2001));
}

#[test]
fn freeze_never_shortens_pause() {
    let mut b = budget(1);
    b.freeze_until(100_000);
    assert_eq!(b.poll(0), GateDecision::Wait(100_000));
    b.freeze_until(500);
    assert_eq!(b.poll(0), GateDecision::Wait(100_000));
}

#[test]
fn drop_keeps_at_least_the_interval() {
    let mut b = budget(1);
    let mut jzero = FixedFraction::new(0, 1);
    b.on_attempt(0);
    b.on_success(0);
    b.on_drop(1000, &mut jzero);
    assert_eq!(b.poll(1000), GateDecision::Wait(800));
    assert_eq!(b.next_allowed_ms(), 1800);
    // Without a connection there is nothing to take away.
    b.on_close(2000);
    assert_eq!(b.active(), 0);
}

#[test]
fn release_keeps_the_pause() {
    let mut b = budget(1);
    b.on_attempt(0);
    b.on_success(0);
    b.freeze_until(9000);
    b.release_all();
    assert_eq!(b.active(), 0);
    assert_eq!(b.poll(1000), GateDecision::Wait(8000));
}

#[test]
fn a_pause_at_the_end_of_time_stays_there() {
    let mut b = budget(1);
    b.on_attempt(u64::MAX);
    assert_eq!(b.next_allowed_ms(), u64::MAX);
}

// --- detector and freezes ---

fn detector() -> BlackholeDetector {
    BlackholeDetector::new(8_000, 15_000)
}

#[test]
fn healthy_when_nothing_pending() {
    let d = detector();
    assert_eq!(d.assess(1_000_000), Health::Healthy);
}

#[test]
fn healthy_while_within_silence_threshold() {
    let mut d = detector();
    d.on_sent(1000);
    assert_eq!(d.assess(5000), Health::Healthy);
}

#[test]
fn recv_clears_pending() {
    let mut d = detector();
    d.on_sent(1000);
    d.on_recv(1500);
    assert_eq!(d.assess(20_000), Health::Healthy);
}

#[test]
fn blackhole_when_silent_and_reference_reachable() {
    let mut d = detector();
    d.on_sent(1000);
    d.on_reference(2000, true);
    assert_eq!(d.assess(9500), Health::Blackholed);
}

#[test]
fn network_down_when_silent_and_reference_unreachable() {
    let mut d = detector();
    d.on_sent(1000);
    d.on_reference(2000, false);
    assert_eq!(d.assess(9500), Health::NetworkDown);
}

#[test]
fn suspect_when_no_fresh_reference() {
    let mut d = detector();
    d.on_sent(1000);
    d.on_reference(2000, true);
    assert_eq!(d.assess(30_000), Health::Suspect);
}

#[test]
fn silence_counts_from_the_first_unanswered_message() {
    let mut d = BlackholeDetector::with_defaults();
    d.on_reference(5000, true);
    d.on_reference(5000, false);
    d.on_sent(1000);
    d.on_sent(8000);
    assert_eq!(d.assess(8999), Health::Healthy);
    assert_eq!(d.assess(9000), Health::Blackholed);
    assert_eq!(d.assess(20_000), Health::Blackholed);
    assert_eq!(d.assess(20_001), Health::Suspect);
    d.clear_pending();
    assert_eq!(d.assess(20_001), Health::Healthy);
    // A clock that runs backwards is no silence.
    d.on_sent(50_000);
    assert_eq!(d.assess(10), Health::Healthy);
}

#[test]
fn escalation_first_then_repeat_then_switch() {
    let mut fc = FreezeController::new(150_000, 600_000);

    let r = fc.trip(0);
    assert_eq!(r, Reaction::Freeze { until_ms: 150_000, then: AfterFreeze::Probe });
    assert!(fc.is_silent(149_999));
    assert!(!fc.is_silent(150_000));

    let r = fc.trip(150_000);
    assert_eq!(r, Reaction::Freeze { until_ms: 750_000, then: AfterFreeze::Probe });

    let r = fc.trip(750_000);
    assert_eq!(r, Reaction::Freeze { until_ms: 1_350_000, then: AfterFreeze::SwitchProfile });
    assert_eq!(fc.strikes(), 3);
}

#[test]
fn trip_is_idempotent_within_silence() {
    let mut fc = FreezeController::new(150_000, 600_000);
    fc.trip(0);
    let r = fc.trip(1000);
    assert_eq!(r, Reaction::Freeze { until_ms: 150_000, then: AfterFreeze::Probe });
    assert_eq!(fc.strikes(), 1);
}

#[test]
fn recovery_resets_escalation() {
    let mut fc = FreezeController::new(150_000, 600_000);
    fc.trip(0);
    fc.trip(150_000);
    assert_eq!(fc.strikes(), 2);
    fc.on_recovered();
    assert_eq!(fc.strikes(), 0);
    let r = fc.trip(1_000_000);
    assert_eq!(r, Reaction::Freeze { until_ms: 1_150_000, then: AfterFreeze::Probe });
}

#[test]
fn default_windows_are_longer_than_a_ban() {
    let mut fc = FreezeController::with_defaults();
    assert_eq!(fc.current(), Reaction::Freeze { until_ms: 0, then: AfterFreeze::Probe });
    assert_eq!(fc.trip(5), Reaction::Freeze { until_ms: 150_005, then: AfterFreeze::Probe });
    assert_eq!(
        fc.trip(200_000),
        Reaction::Freeze { until_ms: 800_000, then: AfterFreeze::Probe }
    );
}

// --- manager ---

fn manager(clock: ManualClock) -> ConnectionManager<ManualClock, FixedFraction> {
    ConnectionManager::new(
        clock,
        FixedFraction::new(1, 2),
        ConnectionBudget::new(1, 800, Backoff::new(2000, 300_000)),
        BlackholeDetector::new(8_000, 15_000),
        FreezeController::new(150_000, 600_000),
    )
}

#[test]
fn happy_path_connect_and_capacity() {
    let clock = ManualClock::new(0);
    let mut m = manager(clock);
    assert_eq!(m.poll(), ManagerAction::Connect);
    m.note_attempt();
    m.note_success();
    assert_eq!(m.active(), 1);
    assert_eq!(m.poll(), ManagerAction::AtCapacity);
}

#[test]
fn full_tspu_freeze_scenario() {
    let clock = ManualClock::new(0);
    let mut m = manager(clock);

    assert_eq!(m.poll(), ManagerAction::Connect);
    m.note_attempt();
    m.note_success();
    m.clock.advance(100);
    m.note_sent();
    m.clock.advance(100);
    m.note_reference(true);

    m.clock.set(9000);
    m.note_reference(true);
    match m.poll() {
        ManagerAction::Frozen { until_ms, then } => {
            assert_eq!(until_ms, 9000 + 150_000);
            assert_eq!(then, AfterFreeze::Probe);
        }
        other => panic!("ожидалась заморозка, получено {other:?}"),
    }
    assert_eq!(m.strikes(), 1);

    m.clock.set(100_000);
    assert!(matches!(m.poll(), ManagerAction::Frozen { .. }));

    m.clock.set(159_000);
    assert_eq!(m.poll(), ManagerAction::Connect);
    m.note_attempt();
    m.note_success();
    m.note_sent();
    m.note_reference(true);

    m.clock.set(168_000);
    m.note_reference(true);
    match m.poll() {
        ManagerAction::Frozen { until_ms, then } => {
            assert_eq!(until_ms, 168_000 + 600_000);
            assert_eq!(then, AfterFreeze::Probe);
        }
        other => panic!("ожидалась вторая заморозка, получено {other:?}"),
    }
    assert_eq!(m.strikes(), 2);

    m.clock.set(768_000);
    m.note_reference(true);
    m.clock.set(768_000);
    m.note_sent();
    m.clock.set(777_000);
    m.note_reference(true);
    match m.poll() {
        ManagerAction::Frozen { then, .. } => assert_eq!(then, AfterFreeze::SwitchProfile),
        other => panic!("ожидалась смена профиля, получено {other:?}"),
    }
    assert_eq!(m.strikes(), 3);
}

#[test]
fn network_down_does_not_escalate() {
    let clock = ManualClock::new(0);
    let mut m = manager(clock);
    m.poll();
    m.note_attempt();
    m.note_success();
    m.note_sent();
    m.note_reference(false);
    m.clock.set(9000);
    m.note_reference(false);
    assert!(matches!(m.poll(), ManagerAction::NetworkDown(_)));
    assert_eq!(m.strikes(), 0);
}

#[test]
fn recovery_after_freeze_resets_strikes() {
    let clock = ManualClock::new(0);
    let mut m = manager(clock);
    m.poll();
    m.note_attempt();
    m.note_success();
    m.note_sent();
    m.note_reference(true);
    m.clock.set(9000);
    m.note_reference(true);
    assert!(matches!(m.poll(), ManagerAction::Frozen { .. }));
    assert_eq!(m.strikes(), 1);

    m.clock.set(159_000);
    assert_eq!(m.poll(), ManagerAction::Connect);
    m.note_recv();
    assert_eq!(m.strikes(), 0);
}

#[test]
fn manager_passes_pauses_on() {
    let mut m = manager(ManualClock::new(0));
    m.note_attempt();
    assert_eq!(m.poll(), ManagerAction::Wait(800));
    m.note_failure();
    // Half of 2001.
    assert_eq!(m.poll(), ManagerAction::Wait(1000));
    m.clock.set(5000);
    m.note_attempt();
    m.note_success();
    m.note_close();
    assert_eq!(m.poll(), ManagerAction::Wait(800));
    m.note_success();
    m.note_drop();
    // The backoff began anew: half of 2001.
    assert_eq!(m.poll(), ManagerAction::Wait(1000));
    m.note_sent();
    m.clock.set(13_000);
    m.note_attempt();
    m.note_reference(false);
    assert_eq!(m.poll(), ManagerAction::NetworkDown(800));
    assert_eq!(m.poll_at(14_000), ManagerAction::NetworkDown(0));
}

#[test]
fn nothing_that_is_reported_brings_an_attempt_forward() {
    let mut b = budget(3);
    let mut zero = FixedFraction::new(0, 1);
    b.on_attempt(1000);
    b.on_success(1000);
    b.on_failure(1001, &mut zero);
    b.on_close(900);
    b.freeze_until(5);
    b.release_all();
    b.on_drop(1000, &mut zero);
    assert_eq!(b.poll(1799), GateDecision::Wait(1));
    assert_eq!(b.poll(1800), GateDecision::Allow);
}

#[test]
fn no_connection_before_a_freeze_ends() {
    let mut m = manager(ManualClock::new(0));
    m.note_sent();
    m.clock.set(9000);
    m.note_reference(true);
    assert!(matches!(m.poll(), ManagerAction::Frozen { until_ms: 159_000, .. }));
    // Even an answer, which ends the escalation, does not end the pause.
    m.clock.set(10_000);
    m.note_recv();
    m.note_close();
    assert_eq!(m.strikes(), 0);
    assert_eq!(m.poll(), ManagerAction::Wait(149_000));
    assert_eq!(m.poll_at(158_999), ManagerAction::Wait(1));
    assert_eq!(m.poll_at(159_000), ManagerAction::Connect);
}

#[test]
fn a_released_budget_allows_from_the_end_of_the_pause() {
    let mut b = ConnectionBudget::new(1, 800, Backoff::new(2000, 300_000));
    b.on_attempt(0);
    b.on_success(0);
    b.freeze_until(5000);
    assert_eq!(b.poll(9000), GateDecision::AtCapacity);
    b.release_all();
    assert_eq!(b.poll(4999), GateDecision::Wait(1));
    assert_eq!(b.poll(5000), GateDecision::Allow);
    assert_eq!(b.poll(u64::MAX), GateDecision::Allow);
}
