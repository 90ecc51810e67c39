use ctrnn::activation::{inverse_sigmoid, relu, sigmoid};
use ctrnn::fixed::Fixed;

fn fx(raw: i64) -> Fixed {
    Fixed { raw }
}

fn as_float(x: Fixed) -> f64 {
    x.raw as f64 / 1e15
}

#[test]
fn sigmoid_is_one_half_at_zero() {
    assert_eq!(sigmoid(fx(0)), fx(500_000_000_000_000));
}

#[test]
fn sigmoid_exact_values() {
    assert_eq!(sigmoid(fx(1_000_000_000_000_000)), fx(731_058_578_630_005));
    assert_eq!(sigmoid(fx(-1_000_000_000_000_000)), fx(268_941_421_369_995));
    assert_eq!(sigmoid(fx(2_500_000_000_000_000)), fx(924_141_819_978_757));
    assert_eq!(sigmoid(fx(500_000_000_000_000)), fx(622_459_331_201_854));
}

#[test]
fn sigmoid_matches_the_floating_point_curve_at_one() {
    assert!((as_float(sigmoid(fx(1_000_000_000_000_000))) - 0.7310585786300049).abs() < 1e-12);
    assert!((as_float(sigmoid(fx(500_000_000_000_000))) - 0.6224593312018546).abs() < 1e-12);
}

#[test]
fn sigmoid_saturates_far_from_zero() {
    assert_eq!(sigmoid(fx(40_000_000_000_000_000)), fx(1_000_000_000_000_000));
    assert_eq!(sigmoid(fx(-40_000_000_000_000_000)), fx(0));
    assert_eq!(sigmoid(fx(i64::MAX)), fx(1_000_000_000_000_000));
    assert_eq!(sigmoid(fx(i64::MIN)), fx(0));
}

#[test]
fn sigmoid_mirrors_about_one_half() {
    let mut raw: i64 = 1;
    while raw < 50_000_000_000_000_000 {
        assert_eq!(sigmoid(fx(raw)).raw + sigmoid(fx(-raw)).raw, 1_000_000_000_000_000);
        raw = raw * 3 + 7;
    }
}

#[test]
fn sigmoid_follows_the_logistic_curve() {
    let mut raw: i64 = -40_000_000_000_000_000;
    while raw <= 40_000_000_000_000_000 {
        let expected = 1.0 / (1.0 + (-(raw as f64) / 1e15).exp());
        let got = as_float(sigmoid(fx(raw)));
        assert!((got - expected).abs() < 1e-13, "sigmoid({}) = {}, expected {}", raw, got, expected);
        raw += 12_345_678_901_234;
    }
}

#[test]
fn sigmoid_never_falls() {
    let mut raw: i64 = -45_000_000_000_000_000;
    let mut last = sigmoid(fx(raw)).raw;
    while raw <= 45_000_000_000_000_000 {
        let y = sigmoid(fx(raw)).raw;
        assert!(last <= y);
        last = y;
        raw += 9_876_543_210_123;
    }
    let mut raw: i64 = 693_147_180_559_000;
    let mut last = sigmoid(fx(raw)).raw;
    while raw <= 693_147_180_561_000 {
        let y = sigmoid(fx(raw)).raw;
        assert!(last <= y);
        last = y;
        raw += 1;
    }
}

#[test]
fn sigmoid_stays_between_zero_and_one() {
    let mut raw: i64 = -60_000_000_000_000_000;
    while raw <= 60_000_000_000_000_000 {
        let y = sigmoid(fx(raw)).raw;
        assert!(0 <= y && y <= 1_000_000_000_000_000);
        raw += 98_765_432_101_234;
    }
}

#[test]
fn relu_keeps_positive_inputs() {
    assert_eq!(relu(fx(1)), fx(1));
    assert_eq!(relu(fx(2_500_000_000_000_000)), fx(2_500_000_000_000_000));
    assert_eq!(relu(fx(i64::MAX)), fx(i64::MAX));
}

#[test]
fn relu_flattens_negative_inputs() {
    assert_eq!(relu(fx(0)), fx(0));
    assert_eq!(relu(fx(-1)), fx(0));
    assert_eq!(relu(fx(i64::MIN)), fx(0));
}

#[test]
fn inverse_sigmoid_exists_only_between_zero_and_one() {
    assert_eq!(inverse_sigmoid(fx(0)), None);
    assert_eq!(inverse_sigmoid(fx(-1)), None);
    assert_eq!(inverse_sigmoid(fx(i64::MIN)), None);
    assert_eq!(inverse_sigmoid(fx(1_000_000_000_000_000)), None);
    assert_eq!(inverse_sigmoid(fx(1_000_000_000_000_001)), None);
    assert_eq!(inverse_sigmoid(fx(i64::MAX)), None);
    assert!(inverse_sigmoid(fx(1)).is_some());
    assert!(inverse_sigmoid(fx(999_999_999_999_999)).is_some());
}

#[test]
fn inverse_sigmoid_exact_values() {
    assert_eq!(inverse_sigmoid(fx(500_000_000_000_000)), Some(fx(0)));
    assert_eq!(inverse_sigmoid(fx(1)), Some(fx(-34_538_776_394_910_667)));
    assert_eq!(inverse_sigmoid(fx(999_999_999_999_999)), Some(fx(34_538_776_394_910_667)));
    assert_eq!(inverse_sigmoid(fx(250_000_000_000_000)), Some(fx(-1_098_612_288_668_110)));
    assert_eq!(inverse_sigmoid(fx(900_000_000_000_000)), Some(fx(2_197_224_577_336_217)));
    assert_eq!(inverse_sigmoid(fx(731_058_578_630_005)), Some(fx(1_000_000_000_000_000)));
}

#[test]
fn inverse_sigmoid_mirrors_about_one_half() {
    let mut raw: i64 = 1;
    while raw < 1_000_000_000_000_000 {
        let left = inverse_sigmoid(fx(raw)).unwrap().raw;
        let right = inverse_sigmoid(fx(1_000_000_000_000_000 - raw)).unwrap().raw;
        assert_eq!(left, -right);
        raw = raw * 2 + 3;
    }
}

#[test]
fn inverse_sigmoid_follows_the_logit() {
    let mut raw: i64 = 1_000_000;
    while raw < 1_000_000_000_000_000 {
        let expected = (raw as f64).ln() - ((1_000_000_000_000_000 - raw) as f64).ln();
        let got = as_float(inverse_sigmoid(fx(raw)).unwrap());
        assert!((got - expected).abs() < 1e-12, "logit({}) = {}, expected {}", raw, got, expected);
        raw += 1_234_567_890_123;
    }
}

#[test]
fn inverse_sigmoid_undoes_sigmoid() {
    let mut raw: i64 = -6_000_000_000_000_000;
    while raw <= 6_000_000_000_000_000 {
        let back = inverse_sigmoid(sigmoid(fx(raw))).unwrap().raw;
        assert!((back - raw).abs() < 1_000, "{} came back as {}", raw, back);
        raw += 98_765_432_101_234;
    }
}
