use texel::{KSearch, Tuner, S};

fn error_of(w: &[S], target: &[(i64, i64)]) -> u64 {
    w.iter()
        .zip(target)
        .map(|(s, &(a, b))| ((s.0 as i64 - a).pow(2) + (s.1 as i64 - b).pow(2)) as u64)
        .sum()
}

#[test]
fn tuner_descends_to_the_minimum() {
    let target = [(3, -2), (-4, 0), (0, 5)];
    let start = vec![S(0, 0), S(0, 0), S(0, 0)];
    let best = error_of(&start, &target);
    let mut t = Tuner::new(start, best);
    let mut last = t.best();
    let mut calls = 0;
    loop {
        let e = error_of(t.weights(), &target);
        let more = t.record(e);
        assert!(t.best() <= last);
        last = t.best();
        calls += 1;
        assert!(calls < 10_000);
        if !more {
            break;
        }
    }
    assert!(t.is_done());
    assert_eq!(t.best(), 0);
    let w = t.weights();
    let got: Vec<(i16, i16)> = w.iter().map(|s| (s.0, s.1)).collect();
    assert_eq!(got, vec![(3, -2), (-4, 0), (0, 5)]);
}

#[test]
fn tuner_keeps_weights_without_improvement() {
    let target = [(1, 1)];
    let start = vec![S(1, 1)];
    let mut t = Tuner::new(start, 0);
    // First trial moves the midgame part up by one.
    assert_eq!(t.weights()[0].0, 2);
    assert!(t.record(1));
    // Then the opposite step.
    assert_eq!(t.weights()[0].0, 0);
    assert!(t.record(1));
    // Midgame restored; the endgame part is tried.
    assert_eq!(t.weights()[0].0, 1);
    assert_eq!(t.weights()[0].1, 2);
    assert!(t.record(error_of(t.weights(), &target)));
    assert!(!t.record(error_of(t.weights(), &target)));
    assert_eq!((t.weights()[0].0, t.weights()[0].1), (1, 1));
    assert_eq!(t.best(), 0);
    // Once over, further errors change nothing.
    assert!(!t.record(0));
}

#[test]
fn tuner_steps_back_at_the_range_edge() {
    let mut t = Tuner::new(vec![S(i16::MAX, 0)], 10);
    assert_eq!(t.weights()[0].0, i16::MAX - 1);
    assert!(t.record(5));
    assert_eq!(t.best(), 5);
}

fn calibrate(k0: i64, step: i64, max: u64, f: impl Fn(i64) -> u64) -> (i64, usize) {
    let mut s = KSearch::new(k0, step, max);
    let mut n = 0;
    while let Some(k) = s.probe() {
        s.record(f(k));
        n += 1;
    }
    (s.k(), n)
}

#[test]
fn calibration_finds_the_minimum() {
    let (k, n) = calibrate(400, 1, 1000, |k| ((k - 437) * (k - 437)) as u64);
    assert_eq!(k, 437);
    assert!(n <= 1003);
    let (k, n) = calibrate(400, 1, 1000, |k| ((k - 250) * (k - 250)) as u64);
    assert_eq!(k, 250);
    assert!(n <= 1003);
    let (k, _) = calibrate(400, 7, 100, |k| ((k - 437) * (k - 437)) as u64);
    assert!((k - 437).abs() < 7);
    let (k, _) = calibrate(400, 1, 1000, |k| ((k - 400) * (k - 400)) as u64);
    assert_eq!(k, 400);
}

#[test]
fn calibration_stops_on_a_flat_step() {
    // Equal errors do not count as progress.
    let (k, n) = calibrate(10, 1, 100, |k| if k >= 12 { 5 } else { (20 - k) as u64 });
    assert_eq!(k, 12);
    assert_eq!(n, 6);
}

#[test]
fn calibration_is_bounded() {
    // A curve that keeps falling: the walk stops after its allowance.
    let (k, n) = calibrate(0, 2, 10, |k| (1000 - k) as u64);
    assert_eq!(k, 20);
    assert_eq!(n, 13);
    let mut s = KSearch::new(5, 1, 0);
    assert_eq!(s.probe(), Some(4));
    s.record(3);
    assert_eq!(s.probe(), Some(6));
    s.record(3);
    assert_eq!(s.probe(), Some(5));
    s.record(1);
    assert!(s.is_done());
    assert_eq!(s.probe(), None);
    assert_eq!(s.k(), 5);
}
