use texel::consts::NUM_PARAMS;
use texel::score::{dots, eval};
use texel::S;

#[test]
fn taper_boundaries() {
    let s = S(10, 20);
    assert_eq!(s.taper(24), 10);
    assert_eq!(s.taper(0), 20);
    assert_eq!(s.taper(12), 15);
    let n = S(-7, 5);
    assert_eq!(n.taper(24), -7);
    assert_eq!(n.taper(0), 5);
    assert_eq!(n.taper(12), -1);
    // -84 / 24 rounds toward zero.
    assert_eq!(S(-7, 0).taper(12), -3);
    assert_eq!(S(i16::MIN, i16::MAX).taper(24), -32768);
    assert_eq!(S(i16::MIN, i16::MAX).taper(0), 32767);
}

#[test]
fn weighted_sums_at_the_boundaries() {
    let vals: Vec<i16> = vec![1, -2, 3];
    let w = vec![S(10, 1), S(20, 2), S(30, 3)];
    assert_eq!(dots(&vals, &w), (10 - 40 + 90, 1 - 4 + 9));
    assert_eq!(eval(&vals, &w, 24), 60);
    assert_eq!(eval(&vals, &w, 0), 6);
    assert_eq!(eval(&vals, &w, 12), 33);
}

#[test]
fn fancy_output() {
    assert_eq!(S(5, -12).fancy(), "S(  5, -12)");
    assert_eq!(S(100, 100).fancy(), "S(100, 100)");
    assert_eq!(S(-1234, 5).fancy(), "S(-1234,   5)");
    assert_eq!(S(0, 0).fancy(), "S(  0,   0)");
    assert_eq!(S(i16::MIN, i16::MAX).fancy(), "S(-32768,32767)");
}

#[test]
fn initial_weights() {
    let w = S::init();
    assert_eq!(w.len(), NUM_PARAMS);
    assert_eq!((w[0].0, w[4].1), (100, 900));
    assert!(w[5..].iter().all(|s| s.0 == 0 && s.1 == 0));
    assert_eq!(S::ones().part(false), 1);
    assert_eq!(S(3, 4).part(true), 4);
    let t = S(3, 4).with_part(true, 9);
    assert_eq!((t.0, t.1), (3, 9));
}
