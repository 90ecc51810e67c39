use ctrnn::fixed::{Fixed, SCALE};

fn fx(raw: i64) -> Fixed {
    Fixed { raw }
}

#[test]
fn scale_is_ten_to_the_fifteenth() {
    assert_eq!(SCALE, 1_000_000_000_000_000);
}

#[test]
fn from_int_scales_whole_numbers() {
    assert_eq!(Fixed::from_int(0).raw, 0);
    assert_eq!(Fixed::from_int(1).raw, SCALE);
    assert_eq!(Fixed::from_int(-16).raw, -16_000_000_000_000_000);
    assert_eq!(Fixed::from_int(9223).raw, 9_223_000_000_000_000_000);
    assert_eq!(Fixed::from_int(-9223).raw, -9_223_000_000_000_000_000);
}

#[test]
fn from_int_saturates() {
    assert_eq!(Fixed::from_int(9224).raw, i64::MAX);
    assert_eq!(Fixed::from_int(-9224).raw, i64::MIN);
    assert_eq!(Fixed::from_int(i32::MAX).raw, i64::MAX);
    assert_eq!(Fixed::from_int(i32::MIN).raw, i64::MIN);
}

#[test]
fn addition_is_exact_within_range() {
    assert_eq!(fx(1_500_000_000_000_000).saturating_add(fx(-250_000_000_000_000)), fx(1_250_000_000_000_000));
    assert_eq!(fx(-7).saturating_add(fx(7)), fx(0));
}

#[test]
fn addition_saturates_at_both_ends() {
    assert_eq!(fx(i64::MAX).saturating_add(fx(1)), fx(i64::MAX));
    assert_eq!(fx(i64::MAX).saturating_add(fx(i64::MAX)), fx(i64::MAX));
    assert_eq!(fx(i64::MIN).saturating_add(fx(-1)), fx(i64::MIN));
    assert_eq!(fx(i64::MIN).saturating_add(fx(i64::MAX)), fx(-1));
}

#[test]
fn subtraction_is_exact_within_range() {
    assert_eq!(fx(1_000_000_000_000_000).saturating_sub(fx(1_500_000_000_000_000)), fx(-500_000_000_000_000));
    assert_eq!(fx(0).saturating_sub(fx(i64::MAX)), fx(-i64::MAX));
}

#[test]
fn subtraction_saturates_at_both_ends() {
    assert_eq!(fx(i64::MIN).saturating_sub(fx(1)), fx(i64::MIN));
    assert_eq!(fx(0).saturating_sub(fx(i64::MIN)), fx(i64::MAX));
    assert_eq!(fx(i64::MAX).saturating_sub(fx(-1)), fx(i64::MAX));
}

#[test]
fn multiplication_scales_the_product() {
    assert_eq!(fx(2_000_000_000_000_000).saturating_mul(fx(3_500_000_000_000_000)), fx(7_000_000_000_000_000));
    assert_eq!(fx(100_000_000_000_000).saturating_mul(fx(100_000_000_000_000)), fx(10_000_000_000_000));
    assert_eq!(fx(-500_000_000_000_000).saturating_mul(fx(500_000_000_000_000)), fx(-250_000_000_000_000));
    assert_eq!(fx(0).saturating_mul(fx(i64::MIN)), fx(0));
    assert_eq!(fx(SCALE).saturating_mul(fx(i64::MIN)), fx(i64::MIN));
}

#[test]
fn multiplication_rounds_toward_zero() {
    assert_eq!(fx(3).saturating_mul(fx(500_000_000_000_000)), fx(1));
    assert_eq!(fx(-3).saturating_mul(fx(500_000_000_000_000)), fx(-1));
    assert_eq!(fx(3).saturating_mul(fx(-500_000_000_000_000)), fx(-1));
    assert_eq!(fx(-3).saturating_mul(fx(-500_000_000_000_000)), fx(1));
    assert_eq!(fx(1).saturating_mul(fx(SCALE - 1)), fx(0));
    assert_eq!(fx(-1).saturating_mul(fx(SCALE - 1)), fx(0));
}

#[test]
fn multiplication_saturates_at_both_ends() {
    assert_eq!(fx(i64::MAX).saturating_mul(fx(2_000_000_000_000_000)), fx(i64::MAX));
    assert_eq!(fx(i64::MIN).saturating_mul(fx(2_000_000_000_000_000)), fx(i64::MIN));
    assert_eq!(fx(i64::MIN).saturating_mul(fx(i64::MIN)), fx(i64::MAX));
    assert_eq!(fx(i64::MAX).saturating_mul(fx(i64::MIN)), fx(i64::MIN));
}

#[test]
fn division_scales_the_quotient() {
    assert_eq!(fx(7_000_000_000_000_000).checked_div(fx(2_000_000_000_000_000)), Some(fx(3_500_000_000_000_000)));
    assert_eq!(fx(-7_000_000_000_000_000).checked_div(fx(2_000_000_000_000_000)), Some(fx(-3_500_000_000_000_000)));
    assert_eq!(fx(-500_000_000_000_000).checked_div(fx(SCALE)), Some(fx(-500_000_000_000_000)));
    assert_eq!(fx(0).checked_div(fx(-3)), Some(fx(0)));
}

#[test]
fn division_rounds_toward_zero() {
    assert_eq!(fx(SCALE).checked_div(fx(3_000_000_000_000_000)), Some(fx(333_333_333_333_333)));
    assert_eq!(fx(-SCALE).checked_div(fx(3_000_000_000_000_000)), Some(fx(-333_333_333_333_333)));
    assert_eq!(fx(SCALE).checked_div(fx(-3_000_000_000_000_000)), Some(fx(-333_333_333_333_333)));
    assert_eq!(fx(-SCALE).checked_div(fx(-3_000_000_000_000_000)), Some(fx(333_333_333_333_333)));
}

#[test]
fn division_by_zero_has_no_result() {
    assert_eq!(fx(SCALE).checked_div(fx(0)), None);
    assert_eq!(fx(1).checked_div(fx(0)), None);
    assert_eq!(fx(-SCALE).checked_div(fx(0)), None);
    assert_eq!(fx(0).checked_div(fx(0)), None);
    assert_eq!(fx(i64::MIN).checked_div(fx(0)), None);
}

#[test]
fn division_saturates_at_both_ends() {
    assert_eq!(fx(i64::MAX).checked_div(fx(1)), Some(fx(i64::MAX)));
    assert_eq!(fx(i64::MIN).checked_div(fx(1)), Some(fx(i64::MIN)));
    assert_eq!(fx(i64::MIN).checked_div(fx(-SCALE)), Some(fx(i64::MAX)));
    assert_eq!(fx(i64::MIN).checked_div(fx(-1)), Some(fx(i64::MAX)));
}
