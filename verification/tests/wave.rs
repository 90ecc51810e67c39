use ctrnn::fixed::Fixed;
use ctrnn::wave::sine;

fn fx(raw: i64) -> Fixed {
    Fixed { raw }
}

#[test]
fn sine_crosses_zero_at_the_ends_and_the_middle() {
    assert_eq!(sine(fx(0), fx(3_000_000_000_000_000)), fx(0));
    assert_eq!(sine(fx(1_500_000_000_000_000), fx(3_000_000_000_000_000)), fx(0));
    assert_eq!(sine(fx(3_000_000_000_000_000), fx(3_000_000_000_000_000)), fx(0));
    assert_eq!(sine(fx(0), fx(1)), fx(0));
    assert_eq!(sine(fx(1), fx(1)), fx(0));
}

#[test]
fn sine_peaks_at_the_quarters() {
    assert_eq!(sine(fx(750_000_000_000_000), fx(3_000_000_000_000_000)), fx(1_000_000_000_000_000));
    assert_eq!(sine(fx(2_250_000_000_000_000), fx(3_000_000_000_000_000)), fx(-1_000_000_000_000_000));
    assert_eq!(sine(fx(750_000_000_000_000), fx(3_000_000_000_000_000)), fx(1_000_000_000_000_000));
    assert_eq!(sine(fx(2_250_000_000_000_000), fx(3_000_000_000_000_000)), fx(-1_000_000_000_000_000));
}

#[test]
fn sine_exact_values() {
    assert_eq!(sine(fx(1_000_000_000_000_000), fx(12_000_000_000_000_000)), fx(500_000_000_000_000));
    assert_eq!(sine(fx(500_000_000_000_000), fx(3_000_000_000_000_000)), fx(866_025_403_784_439));
    assert_eq!(sine(fx(1_000_000_000_000_000), fx(3_000_000_000_000_000)), fx(866_025_403_784_439));
    assert_eq!(sine(fx(2_000_000_000_000_000), fx(3_000_000_000_000_000)), fx(-866_025_403_784_439));
}

#[test]
fn sine_drops_whole_turns() {
    assert_eq!(sine(fx(3_500_000_000_000_000), fx(3_000_000_000_000_000)), sine(fx(500_000_000_000_000), fx(3_000_000_000_000_000)));
    assert_eq!(sine(fx(-2_500_000_000_000_000), fx(3_000_000_000_000_000)), sine(fx(500_000_000_000_000), fx(3_000_000_000_000_000)));
    assert_eq!(sine(fx(-500_000_000_000_000), fx(3_000_000_000_000_000)), fx(-866_025_403_784_439));
    assert_eq!(sine(fx(-750_000_000_000_000), fx(3_000_000_000_000_000)), fx(-1_000_000_000_000_000));
    assert_eq!(sine(fx(-3_000_000_000_000_000), fx(3_000_000_000_000_000)), fx(0));
    assert_eq!(sine(fx(9_000_000_000_000_000_000), fx(3_000_000_000_000_000)), fx(0));
}

#[test]
fn sine_follows_the_sine_curve() {
    let period: i64 = 7_300_000_000_000_000;
    let mut elapsed: i64 = -period;
    while elapsed <= 2 * period {
        let expected = (2.0 * std::f64::consts::PI * elapsed as f64 / period as f64).sin();
        let got = sine(fx(elapsed), fx(period)).raw as f64 / 1e15;
        assert!((got - expected).abs() < 1e-13, "sine({}) = {}, expected {}", elapsed, got, expected);
        elapsed += 1_234_567_890_123;
    }
}

#[test]
fn sine_handles_the_extremes() {
    let period = i64::MAX;
    assert_eq!(sine(fx(0), fx(period)), fx(0));
    assert_eq!(sine(fx(period), fx(period)), fx(0));
    assert_eq!(sine(fx(period / 4), fx(period)), fx(1_000_000_000_000_000));
    assert_eq!(sine(fx(i64::MIN), fx(period)), fx(0));
    assert_eq!(sine(fx(i64::MIN), fx(1)), fx(0));
}
