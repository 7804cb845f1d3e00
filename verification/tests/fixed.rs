use engine3d::fixed::{
    fx_abs, fx_add, fx_clamp, fx_div, fx_mul, fx_neg, fx_sqrt, fx_sub, wide_div, wide_div_away,
    wide_mul, wide_scale, wide_sqrt, FX_MAX, ONE,
};

#[test]
fn product_of_halves_is_a_quarter() {
    assert_eq!(fx_mul(ONE / 2, ONE / 2), ONE / 4);
}

#[test]
fn product_rounds_toward_zero() {
    assert_eq!(fx_mul(1, ONE / 2), 0);
    assert_eq!(fx_mul(-1, ONE / 2), 0);
    assert_eq!(fx_mul(3, ONE / 2), 1);
    assert_eq!(fx_mul(-3, ONE / 2), -1);
}

#[test]
fn product_saturates() {
    assert_eq!(fx_mul(FX_MAX, 2 * ONE), FX_MAX);
    assert_eq!(fx_mul(FX_MAX, -2 * ONE), -FX_MAX);
}

#[test]
fn sum_saturates_at_the_limit() {
    assert_eq!(fx_add(FX_MAX, ONE), FX_MAX);
    assert_eq!(fx_add(-FX_MAX, -ONE), -FX_MAX);
    assert_eq!(fx_sub(-FX_MAX, ONE), -FX_MAX);
    assert_eq!(fx_add(ONE, ONE), 2 * ONE);
    assert_eq!(fx_sub(ONE, 3 * ONE), -2 * ONE);
}

#[test]
fn negation_of_the_least_value_saturates() {
    assert_eq!(fx_neg(i32::MIN), FX_MAX);
    assert_eq!(fx_abs(i32::MIN), FX_MAX);
    assert_eq!(fx_neg(ONE), -ONE);
    assert_eq!(fx_abs(-ONE), ONE);
}

#[test]
fn quotient_rounds_toward_zero() {
    assert_eq!(fx_div(ONE, 3 * ONE), 21845);
    assert_eq!(fx_div(-ONE, 3 * ONE), -21845);
    assert_eq!(fx_div(ONE, -3 * ONE), -21845);
    assert_eq!(fx_div(-ONE, -3 * ONE), 21845);
}

#[test]
fn quotient_saturates() {
    assert_eq!(fx_div(FX_MAX, 1), FX_MAX);
    assert_eq!(fx_div(-FX_MAX, 1), -FX_MAX);
}

#[test]
fn root_of_four_is_two() {
    assert_eq!(fx_sqrt(4 * ONE), 2 * ONE);
    assert_eq!(fx_sqrt(2 * ONE), 92681);
    assert_eq!(fx_sqrt(0), 0);
    assert_eq!(fx_sqrt(-ONE), 0);
}

#[test]
fn wide_root_rounds_down() {
    assert_eq!(wide_sqrt(0), 0);
    assert_eq!(wide_sqrt(1), 1);
    assert_eq!(wide_sqrt(15), 3);
    assert_eq!(wide_sqrt(16), 4);
    assert_eq!(wide_sqrt(17), 4);
    assert_eq!(wide_sqrt(u128::MAX), 18446744073709551615);
}

#[test]
fn wide_quotients_round_as_named() {
    assert_eq!(wide_div(7, 2), 3);
    assert_eq!(wide_div(-7, 2), -3);
    assert_eq!(wide_div(7, -2), -3);
    assert_eq!(wide_div_away(7, 2), 4);
    assert_eq!(wide_div_away(-7, 2), -4);
    assert_eq!(wide_div_away(-7, -2), 4);
    assert_eq!(wide_div_away(6, 2), 3);
    assert_eq!(wide_div_away(0, 5), 0);
}

#[test]
fn wide_helpers_compute() {
    assert_eq!(wide_mul(-3, 5), -15);
    assert_eq!(wide_scale(3), 3 * 65536);
    assert_eq!(fx_clamp(1 << 40), FX_MAX);
    assert_eq!(fx_clamp(-(1 << 40)), -FX_MAX);
    assert_eq!(fx_clamp(-5), -5);
}
