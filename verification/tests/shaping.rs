use rand::rngs::StdRng;
use rand::SeedableRng;
use vlyness::shaping::cadence::Cadence;
use vlyness::shaping::sampler::{
    pad_to_target, DistError, LenClass, LenDistribution, LenSampler, ONE,
};
use vlyness::shaping::symmetrize::Symmetrizer;

/// Probabilities in the sampler's units, rounded so that the running sums are exact.
fn weights(ps: &[f64]) -> Vec<u64> {
    let mut acc = 0.0f64;
    let mut before = 0u64;
    let mut ws = Vec::new();
    for p in ps {
        acc += p;
        let upto = (acc * ONE as f64).ceil() as u64;
        ws.push(upto - before);
        before = upto;
    }
    ws
}

fn matrix(rows: &[&[f64]]) -> Vec<Vec<u64>> {
    rows.iter().map(|r| weights(r)).collect()
}

// --- rhythm ---

#[test]
fn delay_stays_within_jitter_band() {
    let c = Cadence::new(4000, 800, true);
    let mut rng = StdRng::seed_from_u64(3);
    for _ in 0..10_000 {
        let d = c.next_delay_ms(&mut rng);
        assert!((3200..=4800).contains(&d), "delay={d} вне полосы джиттера");
    }
}

#[test]
fn zero_jitter_is_exact() {
    let c = Cadence::new(4000, 0, true);
    let mut rng = StdRng::seed_from_u64(3);
    assert_eq!(c.next_delay_ms(&mut rng), 4000);
}

#[test]
fn jitter_reaches_both_extremes() {
    let c = Cadence::new(1000, 500, true);
    let mut rng = StdRng::seed_from_u64(11);
    let mut min = u64::MAX;
    let mut max = 0;
    for _ in 0..50_000 {
        let d = c.next_delay_ms(&mut rng);
        min = min.min(d);
        max = max.max(d);
    }
    assert_eq!(min, 500);
    assert_eq!(max, 1500);
}

#[test]
fn idle_fill_flag_propagates() {
    assert!(Cadence::new(4000, 800, true).should_fill_idle());
    assert!(!Cadence::new(4000, 800, false).should_fill_idle());
}

#[test]
fn delay_for_an_offset_is_exact() {
    let c = Cadence::new(4000, 800, true);
    assert_eq!(c.delay_for_offset(0), 3200);
    assert_eq!(c.delay_for_offset(800), 4000);
    assert_eq!(c.delay_for_offset(1600), 4800);
    // More jitter than interval: never below zero.
    let c = Cadence::new(100, 300, true);
    assert_eq!(c.delay_for_offset(0), 0);
    assert_eq!(c.delay_for_offset(600), 400);
    assert_eq!(c.interval_ms(), 100);
}

#[test]
fn bounds_of_a_rhythm() {
    assert!(Cadence::new(4000, 800, true).is_bounded());
    assert!(Cadence::new(u64::MAX, 0, true).is_bounded());
    assert!(!Cadence::new(u64::MAX, 1, true).is_bounded());
    assert!(!Cadence::new(0, u64::MAX, true).is_bounded());
    assert!(Cadence::new(1, u64::MAX / 2, true).is_bounded());
}

// --- lengths ---

#[test]
fn rejects_non_stochastic_rows() {
    let classes = vec![LenClass::new(1, 2), LenClass::new(3, 4)];
    let bad = matrix(&[&[0.5, 0.4], &[0.5, 0.5]]);
    let init = weights(&[0.5, 0.5]);
    assert!(matches!(
        LenDistribution::new(classes, bad, init),
        Err(DistError::RowNotStochastic { row: 0, .. })
    ));
}

#[test]
fn rejects_bad_shape() {
    let classes = vec![LenClass::new(1, 2)];
    let bad = matrix(&[&[0.5, 0.5]]);
    assert!(matches!(
        LenDistribution::new(classes, bad, weights(&[1.0])),
        Err(DistError::BadMatrixShape)
    ));
}

#[test]
fn samples_stay_within_class_bounds() {
    let mut s = LenSampler::new(LenDistribution::media_abr_v1());
    let mut rng = StdRng::seed_from_u64(1);
    for _ in 0..10_000 {
        let len = s.sample(&mut rng);
        assert!((40..=1460).contains(&len), "len={len} вне общих границ");
    }
}

#[test]
fn degenerate_chain_is_deterministic() {
    let classes = vec![LenClass::new(100, 100), LenClass::new(500, 500)];
    let transition = matrix(&[&[0.0, 1.0], &[0.0, 1.0]]);
    let initial = weights(&[0.0, 1.0]);
    let dist = LenDistribution::new(classes, transition, initial).unwrap();
    let mut s = LenSampler::new(dist);
    let mut rng = StdRng::seed_from_u64(7);
    for _ in 0..100 {
        assert_eq!(s.sample(&mut rng), 500);
        assert_eq!(s.state(), Some(1));
    }
}

#[test]
fn distribution_is_bimodal_not_uniform() {
    let mut s = LenSampler::new(LenDistribution::media_abr_v1());
    let mut rng = StdRng::seed_from_u64(99);
    let (mut small, mut medium, mut large) = (0, 0, 0);
    for _ in 0..30_000 {
        match s.sample(&mut rng) {
            l if l <= 120 => small += 1,
            l if l <= 900 => medium += 1,
            _ => large += 1,
        }
    }
    assert!(large > medium, "крупных ({large}) должно быть больше средних ({medium})");
    assert!(small > medium, "мелких ({small}) должно быть больше средних ({medium})");
}

#[test]
fn pad_to_target_math() {
    assert_eq!(pad_to_target(100, 5, 200), 95);
    assert_eq!(pad_to_target(200, 5, 200), 0);
    assert_eq!(pad_to_target(0, 5, 5), 0);
    assert_eq!(pad_to_target(0, 0, 1_000_000), u16::MAX);
}

#[test]
fn reference_weights_are_the_rounded_probabilities() {
    let d = LenDistribution::new(
        vec![LenClass::new(40, 120), LenClass::new(200, 900), LenClass::new(1200, 1460)],
        matrix(&[&[0.30, 0.20, 0.50], &[0.35, 0.15, 0.50], &[0.15, 0.10, 0.75]]),
        weights(&[0.25, 0.10, 0.65]),
    )
    .unwrap();
    assert_eq!(d.classes(), LenDistribution::media_abr_v1().classes());
    let mut a = LenSampler::new(d);
    let mut b = LenSampler::new(LenDistribution::media_abr_v1());
    let mut rng = StdRng::seed_from_u64(5);
    for _ in 0..10_000 {
        let draw = rand::RngCore::next_u64(&mut rng) / 2048;
        assert_eq!(a.step(draw), b.step(draw));
    }
}

#[test]
fn draws_agree_with_floating_point() {
    // The integer chain goes where comparing a float in [0, 1) would go.
    let rows = [[0.30, 0.20, 0.50], [0.35, 0.15, 0.50], [0.15, 0.10, 0.75]];
    let initial = [0.25, 0.10, 0.65];
    let mut s = LenSampler::new(LenDistribution::media_abr_v1());
    let mut ints = StdRng::seed_from_u64(17);
    let mut floats = StdRng::seed_from_u64(17);
    let mut state: Option<usize> = None;
    for _ in 0..20_000 {
        let row = match state {
            None => initial,
            Some(i) => rows[i],
        };
        let r: f64 = rand::Rng::gen(&mut floats);
        let mut acc = 0.0;
        let mut next = 2;
        for (i, w) in row.iter().enumerate() {
            acc += w;
            if r < acc {
                next = i;
                break;
            }
        }
        state = Some(next);
        s.step(rand::RngCore::next_u64(&mut ints) / 2048);
        assert_eq!(s.state(), state);
    }
}

#[test]
fn sampling_is_one_word_and_one_length() {
    let mut s = LenSampler::new(LenDistribution::media_abr_v1());
    let mut t = s.clone();
    let mut a = StdRng::seed_from_u64(23);
    let mut b = StdRng::seed_from_u64(23);
    for _ in 0..1000 {
        let len = s.sample(&mut a);
        let class = t.step(rand::RngCore::next_u64(&mut b) / 2048);
        let want: usize = rand::Rng::gen_range(&mut b, class.min..=class.max);
        assert_eq!(len, want);
    }
}

#[test]
fn steps_pick_by_running_sums() {
    let classes = vec![LenClass::new(1, 1), LenClass::new(2, 2), LenClass::new(3, 3)];
    let half = ONE / 2;
    let rows = vec![vec![half, 0, half], vec![0, 0, ONE], vec![0, ONE, 0]];
    let d = LenDistribution::new(classes, rows, vec![half, 0, half]).unwrap();
    let mut s = LenSampler::new(d);
    assert_eq!(s.state(), None);
    assert_eq!(s.step(0).min, 1);
    assert_eq!(s.step(half - 1).min, 1);
    assert_eq!(s.step(half).min, 3);
    assert_eq!(s.step(ONE - 1).min, 2);
    assert_eq!(s.state(), Some(1));
}

#[test]
fn distribution_errors() {
    assert!(matches!(
        LenDistribution::new(vec![], vec![], vec![]),
        Err(DistError::NoClasses)
    ));
    let one = || vec![LenClass::new(1, 2)];
    assert!(matches!(
        LenDistribution::new(one(), vec![], vec![ONE]),
        Err(DistError::BadMatrixShape)
    ));
    assert!(matches!(
        LenDistribution::new(one(), vec![vec![ONE]], vec![ONE, 0]),
        Err(DistError::BadMatrixShape)
    ));
    assert_eq!(
        LenDistribution::new(one(), vec![vec![ONE]], vec![7]).err(),
        Some(DistError::InitialNotStochastic(7))
    );
    // A millionth is tolerated, more is not.
    assert!(LenDistribution::new(one(), vec![vec![ONE - 9007199254]], vec![ONE]).is_ok());
    assert_eq!(
        LenDistribution::new(one(), vec![vec![ONE + 9007199255]], vec![ONE]).err(),
        Some(DistError::RowNotStochastic { row: 0, sum: (ONE + 9007199255) as u128 })
    );
}

// --- ratio ---

#[test]
fn budget_grows_with_down() {
    let mut s = Symmetrizer::new(15);
    s.on_down(1500);
    assert_eq!(s.up_budget(), 100);
    s.on_up(40);
    assert_eq!(s.up_budget(), 60);
}

#[test]
fn budget_is_zero_when_overspent() {
    let mut s = Symmetrizer::new(15);
    s.on_down(150);
    s.on_up(50);
    assert_eq!(s.up_budget(), 0);
}

#[test]
fn down_deficit_tracks_overspend() {
    let mut s = Symmetrizer::new(15);
    s.on_up(50);
    assert_eq!(s.down_deficit(), 750);
    s.on_down(600);
    assert_eq!(s.down_deficit(), 150);
    s.on_down(200);
    assert_eq!(s.down_deficit(), 0);
}

#[test]
fn ratio_one_is_symmetric() {
    let mut s = Symmetrizer::new(1);
    s.on_down(1000);
    assert_eq!(s.up_budget(), 1000);
    s.on_up(1000);
    assert_eq!(s.up_budget(), 0);
    assert_eq!(s.down_deficit(), 0);
}

#[test]
fn volumes_are_capped() {
    let mut s = Symmetrizer::new(15);
    s.on_down(u64::MAX);
    s.on_down(1);
    assert_eq!(s.down(), u64::MAX);
    s.on_up(u64::MAX);
    s.on_up(5);
    assert_eq!(s.up(), u64::MAX);
    assert_eq!(s.down_deficit(), 0);
    let mut s = Symmetrizer::new(2);
    s.on_up(u64::MAX);
    assert_eq!(s.down_deficit(), u64::MAX);
}
