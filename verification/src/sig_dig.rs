//! Significant-digit bookkeeping: the propagation rules for arithmetic on
//! measured magnitudes, the round-half-to-even policy, and the digit-exact
//! text rendering of a rounded magnitude.
//!
//! The magnitude's numeric value itself is a machine float and lives with
//! the caller; everything here is a function of the integer data derived
//! from it: its leading-digit exponent, its declared significant-digit
//! count, and the rounded integer produced by scaling it to its last
//! significant place.

use vstd::prelude::*;

verus! {

use crate::digits::{chars_to_string, int_chars, push_zeros, spec_int_text, spec_zeros};

/// The sentinel significant-digit count a fresh literal carries before a
/// measurement precision is declared; large enough to act as "exact" for
/// every propagation rule.
pub const EXACT_SIG_DIG: usize = 10;

/// The last significant decimal place of a nonzero magnitude: the place of
/// its leading digit minus the declared count, plus one.
pub open spec fn spec_last_sig_place(lead_exp: int, sig_dig: int) -> int {
    lead_exp - sig_dig + 1
}

/// The last significant decimal place of a nonzero magnitude whose leading
/// digit sits at `lead_exp`, declared with `sig_dig` significant digits.
pub fn last_sig_place(lead_exp: i32, sig_dig: usize) -> (r: i32)
    requires
        i32::MIN <= lead_exp - sig_dig + 1 <= i32::MAX,
    ensures
        r == spec_last_sig_place(lead_exp as int, sig_dig as int),
{
    let wide: i64 = lead_exp as i64 - sig_dig as i64 + 1;
    wide as i32
}

/// The last significant decimal place of an exact-zero magnitude, anchored
/// purely by the declared count since there is no leading digit.
pub fn last_sig_place_of_zero(sig_dig: usize) -> (r: i32)
    requires
        sig_dig <= i32::MAX,
    ensures
        r == -(sig_dig as int),
{
    -(sig_dig as i32)
}

/// The significant-digit count of a product or quotient, and the common
/// count the closeness predicate compares at: the lesser of the operands'
/// counts.
pub fn min_sig_dig(a: usize, b: usize) -> (r: usize)
    ensures
        r == vstd::math::min(a as int, b as int),
{
    if a <= b {
        a
    } else {
        b
    }
}

/// The coarsest of the operands' last significant places, which governs an
/// additive combination.
pub open spec fn spec_worst_place(last_a: int, last_b: int) -> int {
    vstd::math::min(last_a, last_b)
}

/// The significant-digit count of a sum or difference: the leading-digit
/// exponent of the result minus the worst of the operands' last significant
/// places.  The operands' absolute decimal places decide the count, not
/// their plain digit counts.
pub fn add_sig_dig(result_lead: i32, last_a: i32, last_b: i32) -> (r: usize)
    requires
        result_lead - spec_worst_place(last_a as int, last_b as int) >= 0,
        result_lead - spec_worst_place(last_a as int, last_b as int) <= usize::MAX,
    ensures
        r == result_lead - spec_worst_place(last_a as int, last_b as int),
{
    let worst: i32 = if last_a <= last_b {
        last_a
    } else {
        last_b
    };
    (result_lead as i64 - worst as i64) as usize
}

/// Where the dropped fraction of a scaled magnitude stands relative to one
/// half, in magnitude.
#[derive(Clone, Copy, Debug, PartialEq, Eq, Structural)]
pub enum FracHalf {
    /// No dropped fraction at all: the scaled value was already an integer.
    Zero,
    /// A nonzero fraction strictly below one half.
    BelowHalf,
    /// A fraction of exactly one half: the tie the even rule breaks.
    ExactHalf,
    /// A fraction strictly above one half.
    AboveHalf,
}

/// Round-half-to-even on a scaled magnitude `whole + sign * fraction`,
/// where `whole` is the integer part (truncated toward zero, carrying the
/// sign) and `frac` classifies the dropped fraction's magnitude: fractions
/// under one half truncate, fractions over one half round away from zero,
/// and an exact tie goes to the nearest even integer.
pub open spec fn spec_round_half_even(whole: int, frac: FracHalf, negative: bool) -> int {
    match frac {
        FracHalf::Zero => whole,
        FracHalf::BelowHalf => whole,
        FracHalf::ExactHalf => if whole % 2 == 0 {
            whole
        } else if negative {
            whole - 1
        } else {
            whole + 1
        },
        FracHalf::AboveHalf => if negative {
            whole - 1
        } else {
            whole + 1
        },
    }
}

/// Rounds a scaled magnitude to the nearest integer, breaking exact-half
/// ties toward the nearest even integer to avoid cumulative bias.
pub fn round_half_even(whole: i64, frac: FracHalf, negative: bool) -> (r: i64)
    requires
        i64::MIN < whole < i64::MAX,
    ensures
        r == spec_round_half_even(whole as int, frac, negative),
        frac is ExactHalf ==> r % 2 == 0,
        frac is Zero ==> r == whole,
{
    let r = match frac {
        FracHalf::Zero => whole,
        FracHalf::BelowHalf => whole,
        FracHalf::ExactHalf => {
            if whole % 2 == 0 {
                whole
            } else if negative {
                whole - 1
            } else {
                whole + 1
            }
        },
        FracHalf::AboveHalf => {
            if negative {
                whole - 1
            } else {
                whole + 1
            }
        },
    };
    r
}

/// Rounding is idempotent: a magnitude that is already rounded to its last
/// significant place has no dropped fraction, and rounding it again changes
/// nothing.
pub proof fn lemma_round_idempotent(whole: int, negative: bool)
    ensures
        spec_round_half_even(whole, FracHalf::Zero, negative) == whole,
{
}

/// An exact-half tie always lands on an even integer, whichever side it
/// came from.
pub proof fn lemma_round_tie_is_even(whole: int, negative: bool)
    ensures
        spec_round_half_even(whole, FracHalf::ExactHalf, negative) % 2 == 0,
{
}

/// The digit-exact text of a rounded magnitude: `num` is the rounded value
/// scaled so its last significant digit is the units digit, and `place` is
/// that digit's decimal place.  A nonnegative place pads with trailing
/// zeros; a negative place inserts a decimal point, adding leading zeros
/// when the digits do not reach it.
pub open spec fn spec_render(num: int, place: int) -> Seq<char> {
    let t = spec_int_text(num);
    if place >= 0 {
        t + spec_zeros(place as nat)
    } else {
        let v = -place;
        if t.len() > v {
            t.subrange(0, t.len() - v) + seq!['.'] + t.subrange(t.len() - v, t.len() as int)
        } else {
            seq!['0', '.'] + spec_zeros((v - t.len()) as nat) + t
        }
    }
}

/// Renders a rounded magnitude with exactly its significant digits: the
/// integer `num` of significant digits, with the decimal point (or trailing
/// zeros) dictated by `place`, the decimal place of `num`'s units digit.
pub fn render_rounded(num: i64, place: i32) -> (r: String)
    requires
        num > i64::MIN,
        place > i32::MIN,
    ensures
        r@ == spec_render(num as int, place as int),
{
    let digits = int_chars(num);
    let mut out: Vec<char> = Vec::new();
    if place >= 0 {
        out = digits;
        push_zeros(&mut out, place as usize);
    } else {
        let v = (-place) as usize;
        if digits.len() > v {
            let cut = digits.len() - v;
            let mut i: usize = 0;
            while i < cut
                invariant
                    0 <= i <= cut,
                    cut <= digits@.len(),
                    out@ == digits@.subrange(0, i as int),
                decreases cut - i,
            {
                out.push(digits[i]);
                i += 1;
                proof {
                    assert(out@ =~= digits@.subrange(0, i as int));
                }
            }
            out.push('.');
            let mut j: usize = cut;
            while j < digits.len()
                invariant
                    cut <= j <= digits@.len(),
                    out@ == digits@.subrange(0, cut as int) + seq!['.']
                        + digits@.subrange(cut as int, j as int),
                decreases digits@.len() - j,
            {
                out.push(digits[j]);
                j += 1;
                proof {
                    assert(out@ =~= digits@.subrange(0, cut as int) + seq!['.']
                        + digits@.subrange(cut as int, j as int));
                }
            }
            proof {
                assert(out@ =~= spec_render(num as int, place as int));
            }
        } else {
            out.push('0');
            out.push('.');
            push_zeros(&mut out, v - digits.len());
            let mut j: usize = 0;
            while j < digits.len()
                invariant
                    0 <= j <= digits@.len(),
                    digits@.len() <= v,
                    out@ == seq!['0', '.'] + spec_zeros((v - digits@.len()) as nat)
                        + digits@.subrange(0, j as int),
                decreases digits@.len() - j,
            {
                out.push(digits[j]);
                j += 1;
                proof {
                    assert(out@ =~= seq!['0', '.'] + spec_zeros((v - digits@.len()) as nat)
                        + digits@.subrange(0, j as int));
                }
            }
            proof {
                assert(digits@.subrange(0, digits@.len() as int) =~= digits@);
                assert(out@ =~= spec_render(num as int, place as int));
            }
        }
    }
    chars_to_string(&out)
}

/// Whether two rounded magnitudes render to the same digit-exact text;
/// the comparison the closeness predicate makes after rounding both
/// operands to their common significant-digit count.
pub open spec fn spec_rendered_close(num_a: int, place_a: int, num_b: int, place_b: int) -> bool {
    spec_render(num_a, place_a) == spec_render(num_b, place_b)
}

/// Compares the digit-exact renderings of two rounded magnitudes.
pub fn rendered_eq(num_a: i64, place_a: i32, num_b: i64, place_b: i32) -> (r: bool)
    requires
        num_a > i64::MIN,
        place_a > i32::MIN,
        num_b > i64::MIN,
        place_b > i32::MIN,
    ensures
        r == spec_rendered_close(num_a as int, place_a as int, num_b as int, place_b as int),
{
    let sa = render_rounded(num_a, place_a);
    let sb = render_rounded(num_b, place_b);
    sa == sb
}

/// The closeness comparison is reflexive: a rounded magnitude always
/// renders equal to itself.
pub proof fn lemma_rendered_close_reflexive(num: int, place: int)
    ensures
        spec_rendered_close(num, place, num, place),
{
}

/// The closeness comparison is symmetric in its two operands, as is the
/// common significant-digit count both are rounded to.
pub proof fn lemma_rendered_close_symmetric(num_a: int, place_a: int, num_b: int, place_b: int)
    ensures
        spec_rendered_close(num_a, place_a, num_b, place_b)
            == spec_rendered_close(num_b, place_b, num_a, place_a),
        vstd::math::min(num_a, num_b) == vstd::math::min(num_b, num_a),
{
}

} // verus!
