use dim_sig_dig::digits::decimal_digit_count;
use dim_sig_dig::sig_dig::{
    add_sig_dig, last_sig_place, last_sig_place_of_zero, min_sig_dig, render_rounded,
    rendered_eq, round_half_even, FracHalf, EXACT_SIG_DIG,
};

#[test]
fn exact_sentinel() {
    assert_eq!(EXACT_SIG_DIG, 10);
}

#[test]
fn last_place_formula() {
    // 0.125 with 2 significant digits: leading digit at 10^-1, last
    // significant place at the hundredths.
    assert_eq!(last_sig_place(-1, 2), -2);
    // 392.1 with 4 significant digits reaches the tenths.
    assert_eq!(last_sig_place(2, 4), -1);
    // 100 with 3 significant digits ends at the units digit.
    assert_eq!(last_sig_place(2, 3), 0);
}

#[test]
fn last_place_of_zero_is_anchored_by_count() {
    assert_eq!(last_sig_place_of_zero(2), -2);
    assert_eq!(last_sig_place_of_zero(0), 0);
}

#[test]
fn multiplicative_propagation() {
    // Three significant digits combined with two leave two.
    assert_eq!(min_sig_dig(3, 2), 2);
    assert_eq!(min_sig_dig(2, 3), 2);
    assert_eq!(min_sig_dig(4, 4), 4);
}

#[test]
fn additive_propagation() {
    // A tenths-place operand combined with a thousandths-place operand:
    // the coarsest last place and the result's leading digit fix the count.
    assert_eq!(add_sig_dig(0, -1, -3), 3);
    assert_eq!(add_sig_dig(0, -3, -1), 3);
    // 12.3 + 0.001: leading digit at 10^1.
    assert_eq!(add_sig_dig(1, -1, -3), 4);
}

#[test]
fn round_ties_to_even() {
    // 0.125 at 2 significant digits scales to 12.5: the tie keeps 12.
    assert_eq!(round_half_even(12, FracHalf::ExactHalf, false), 12);
    // 13.5 moves to the even neighbor 14.
    assert_eq!(round_half_even(13, FracHalf::ExactHalf, false), 14);
    assert_eq!(round_half_even(-12, FracHalf::ExactHalf, true), -12);
    assert_eq!(round_half_even(-13, FracHalf::ExactHalf, true), -14);
}

#[test]
fn round_off_tie_cases() {
    assert_eq!(round_half_even(12, FracHalf::BelowHalf, false), 12);
    assert_eq!(round_half_even(12, FracHalf::AboveHalf, false), 13);
    assert_eq!(round_half_even(-12, FracHalf::BelowHalf, true), -12);
    assert_eq!(round_half_even(-12, FracHalf::AboveHalf, true), -13);
    // Rounding an already-rounded value is a no-op.
    assert_eq!(round_half_even(12, FracHalf::Zero, false), 12);
}

#[test]
fn render_decimal_point() {
    // The round-half-to-even scenario end to end: 0.125 at 2 significant
    // digits renders as 0.12.
    assert_eq!(render_rounded(12, -2), "0.12");
    assert_eq!(render_rounded(125, -3), "0.125");
    assert_eq!(render_rounded(1250, -3), "1.250");
    assert_eq!(render_rounded(2562, -7), "0.0002562");
}

#[test]
fn render_trailing_zeros() {
    assert_eq!(render_rounded(12, 1), "120");
    assert_eq!(render_rounded(5, 0), "5");
    assert_eq!(render_rounded(-5, 0), "-5");
    assert_eq!(render_rounded(392, 2), "39200");
}

#[test]
fn rendered_closeness() {
    assert!(rendered_eq(12, -2, 12, -2));
    assert!(!rendered_eq(12, -2, 13, -2));
    // Same digits at different places are different magnitudes.
    assert!(!rendered_eq(12, -2, 12, -1));
    // Symmetry of the comparison.
    assert_eq!(rendered_eq(12, -2, 13, -2), rendered_eq(13, -2, 12, -2));
}

#[test]
fn digit_count() {
    assert_eq!(decimal_digit_count(0), 1);
    assert_eq!(decimal_digit_count(5), 1);
    assert_eq!(decimal_digit_count(100), 3);
    assert_eq!(decimal_digit_count(u64::MAX), 20);
}
