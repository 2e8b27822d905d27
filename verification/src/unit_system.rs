//! Dimension vectors and SI-prefix unit descriptors.
//!
//! A `UnitSystem` records, for each of the seven SI base dimensions
//! (amount, mass, length, time, temperature, current, luminous intensity),
//! the exponent the dimension carries, the SI prefix chosen for its base
//! unit, and a global power-of-ten coefficient.  The physical scale of the
//! descriptor relative to the unprefixed base units is captured by
//! [`UnitSystem::scale_exponent`]; the harmonization and conversion
//! operations below all preserve it.

use vstd::prelude::*;

verus! {

broadcast use vstd::array::group_array_axioms;

/// The decimal SI prefixes the engine models.
#[derive(Clone, Copy, Debug, PartialEq, Eq, Structural)]
pub enum SIPrefix {
    NoPrefix,
    Deci,
    Centi,
    Milli,
}

/// The power of ten a prefix multiplies its base unit by.
pub open spec fn prefix_degree(p: SIPrefix) -> int {
    match p {
        SIPrefix::NoPrefix => 0,
        SIPrefix::Deci => -1,
        SIPrefix::Centi => -2,
        SIPrefix::Milli => -3,
    }
}

impl SIPrefix {
    /// The power of ten this prefix multiplies its base unit by.
    pub fn get_degree(&self) -> (d: i8)
        ensures
            d as int == prefix_degree(*self),
    {
        match self {
            SIPrefix::NoPrefix => 0,
            SIPrefix::Deci => -1,
            SIPrefix::Centi => -2,
            SIPrefix::Milli => -3,
        }
    }
}

/// A unit descriptor: one SI-prefix choice and one dimension exponent per
/// base dimension, plus a power-of-ten coefficient.  The axes are, in order:
/// mol, g, m, s, K, A, cd.
#[derive(Clone, Copy, Debug, PartialEq, Eq)]
pub struct UnitSystem {
    pub pow10coe: i8,
    pub prefix: [SIPrefix; 7],
    pub degree: [i8; 7],
}

impl UnitSystem {
    /// The contribution of one axis to the descriptor's scale.
    pub open spec fn axis_term(self, i: int) -> int {
        prefix_degree(self.prefix@[i]) * self.degree@[i]
    }

    /// The power of ten this descriptor denotes relative to the unprefixed
    /// base units: the coefficient plus each axis's prefix degree times its
    /// dimension exponent.
    pub open spec fn scale_exponent(self) -> int {
        self.pow10coe + self.axis_term(0) + self.axis_term(1) + self.axis_term(2)
            + self.axis_term(3) + self.axis_term(4) + self.axis_term(5) + self.axis_term(6)
    }

    /// A descriptor of the given dimension with no prefixes and coefficient 0.
    pub fn new(degree: [i8; 7]) -> (r: Self)
        ensures
            r.degree == degree,
            r.pow10coe == 0,
            forall|i: int| 0 <= i < 7 ==> r.prefix@[i] == SIPrefix::NoPrefix,
    {
        UnitSystem { pow10coe: 0, prefix: [SIPrefix::NoPrefix; 7], degree }
    }

    /// The dimension exponents, in axis order.
    pub fn get_degree_array(&self) -> (r: [i8; 7])
        ensures
            r == self.degree,
    {
        self.degree
    }

    /// The power-of-ten coefficient.
    pub fn get_pow10coe(&self) -> (r: i8)
        ensures
            r == self.pow10coe,
    {
        self.pow10coe
    }

    /// Whether the two descriptors have the same dimension vector; addition,
    /// subtraction and comparison of quantities are legal exactly when this
    /// holds, and callers without that guarantee must check it first.
    pub fn same_dimension(&self, other: &Self) -> (r: bool)
        ensures
            r == (self.degree == other.degree),
    {
        let mut i: usize = 0;
        while i < 7
            invariant
                0 <= i <= 7,
                forall|j: int| 0 <= j < i ==> self.degree@[j] == other.degree@[j],
            decreases 7 - i,
        {
            if self.degree[i] != other.degree[i] {
                return false;
            }
            i += 1;
        }
        proof {
            assert(self.degree =~= other.degree);
        }
        true
    }

    /// The same descriptor with one axis's prefix replaced; the coefficient
    /// is untouched, so this changes what the descriptor denotes (unlike a
    /// conversion, which compensates through the coefficient).
    pub fn with_prefix(self, axis: usize, prefix: SIPrefix) -> (r: Self)
        requires
            axis < 7,
        ensures
            r.pow10coe == self.pow10coe,
            r.degree == self.degree,
            r.prefix@ == self.prefix@.update(axis as int, prefix),
    {
        let mut p = self.prefix;
        p[axis] = prefix;
        UnitSystem { prefix: p, ..self }
    }

    /// The same descriptor with the mass axis's prefix replaced.
    pub fn set_gram_prefix(self, prefix: SIPrefix) -> (r: Self)
        ensures
            r.pow10coe == self.pow10coe,
            r.degree == self.degree,
            r.prefix@ == self.prefix@.update(1, prefix),
    {
        self.with_prefix(1, prefix)
    }

    /// The same descriptor with the length axis's prefix replaced.
    pub fn set_meter_prefix(self, prefix: SIPrefix) -> (r: Self)
        ensures
            r.pow10coe == self.pow10coe,
            r.degree == self.degree,
            r.prefix@ == self.prefix@.update(2, prefix),
    {
        self.with_prefix(2, prefix)
    }

    /// Pure rescaling by a power of ten, independent of the dimension.
    pub fn pow10(&self, d: i8) -> (r: Self)
        requires
            i8::MIN <= self.pow10coe + d <= i8::MAX,
        ensures
            r.pow10coe == self.pow10coe + d,
            r.prefix == self.prefix,
            r.degree == self.degree,
    {
        UnitSystem { pow10coe: self.pow10coe + d, ..*self }
    }

    /// The prefix that harmonizing `self` with `other` picks on axis `i`:
    /// `other`'s prefix where `other`'s exponent is nonzero, and `self`'s own
    /// prefix where it is zero, since a prefix on a zero axis is inert.
    pub open spec fn harmonized_prefix(self, other: Self, i: int) -> SIPrefix {
        if other.degree@[i] != 0 {
            other.prefix@[i]
        } else {
            self.prefix@[i]
        }
    }

    /// The coefficient change that keeps axis `i`'s scale intact when its
    /// prefix moves from `self`'s choice to the harmonized one.
    pub open spec fn axis_shift(self, other: Self, i: int) -> int {
        (prefix_degree(self.prefix@[i]) - prefix_degree(self.harmonized_prefix(other, i)))
            * self.degree@[i]
    }

    /// The total coefficient change of harmonizing `self` with `other`.
    pub open spec fn harmonize_shift(self, other: Self) -> int {
        self.axis_shift(other, 0) + self.axis_shift(other, 1) + self.axis_shift(other, 2)
            + self.axis_shift(other, 3) + self.axis_shift(other, 4) + self.axis_shift(other, 5)
            + self.axis_shift(other, 6)
    }

    /// Harmonization: a descriptor of `self`'s dimension and scale whose
    /// prefix agrees with `other` on every axis where `other`'s exponent is
    /// nonzero.  The coefficient absorbs every prefix change, so the
    /// descriptor's scale is unchanged.
    pub fn into_same_prefix_with(&self, other: &Self) -> (r: Self)
        requires
            i8::MIN <= self.pow10coe + self.harmonize_shift(*other) <= i8::MAX,
        ensures
            r.degree == self.degree,
            forall|i: int| 0 <= i < 7 ==> r.prefix@[i] == self.harmonized_prefix(*other, i),
            r.pow10coe == self.pow10coe + self.harmonize_shift(*other),
            r.scale_exponent() == self.scale_exponent(),
    {
        let (q0, s0) = harmonize_axis(self.prefix[0], other.prefix[0], self.degree[0], other.degree[0]);
        let (q1, s1) = harmonize_axis(self.prefix[1], other.prefix[1], self.degree[1], other.degree[1]);
        let (q2, s2) = harmonize_axis(self.prefix[2], other.prefix[2], self.degree[2], other.degree[2]);
        let (q3, s3) = harmonize_axis(self.prefix[3], other.prefix[3], self.degree[3], other.degree[3]);
        let (q4, s4) = harmonize_axis(self.prefix[4], other.prefix[4], self.degree[4], other.degree[4]);
        let (q5, s5) = harmonize_axis(self.prefix[5], other.prefix[5], self.degree[5], other.degree[5]);
        let (q6, s6) = harmonize_axis(self.prefix[6], other.prefix[6], self.degree[6], other.degree[6]);
        proof {
            assert(s0 == self.axis_shift(*other, 0) && s1 == self.axis_shift(*other, 1)
                && s2 == self.axis_shift(*other, 2) && s3 == self.axis_shift(*other, 3)
                && s4 == self.axis_shift(*other, 4) && s5 == self.axis_shift(*other, 5)
                && s6 == self.axis_shift(*other, 6));
        }
        let shift: i32 = s0 + s1 + s2 + s3 + s4 + s5 + s6;
        let coe: i32 = self.pow10coe as i32 + shift;
        let r = UnitSystem {
            pow10coe: coe as i8,
            prefix: [q0, q1, q2, q3, q4, q5, q6],
            degree: self.degree,
        };
        proof {
            assert forall|i: int| 0 <= i < 7 implies r.prefix@[i]
                == self.harmonized_prefix(*other, i) by {
                assert(r.prefix@[0] == q0 && r.prefix@[1] == q1 && r.prefix@[2] == q2
                    && r.prefix@[3] == q3 && r.prefix@[4] == q4 && r.prefix@[5] == q5
                    && r.prefix@[6] == q6);
            }
            lemma_harmonized_scale(*self, *other, r);
        }
        r
    }

    /// Extracting the residual: the coefficient delta between this descriptor
    /// and `other`, after which the two coefficients agree.  The caller must
    /// rescale the accompanying magnitude by ten to the returned power.
    pub fn take_red_pow10coe(&mut self, other: &Self) -> (red: i8)
        requires
            i8::MIN <= old(self).pow10coe - other.pow10coe <= i8::MAX,
        ensures
            red == old(self).pow10coe - other.pow10coe,
            final(self).pow10coe == other.pow10coe,
            final(self).prefix == old(self).prefix,
            final(self).degree == old(self).degree,
    {
        let red = self.pow10coe - other.pow10coe;
        self.pow10coe = other.pow10coe;
        red
    }

    /// The coefficient change of moving this descriptor to the given prefixes
    /// while keeping its scale.
    pub open spec fn convert_shift(self, prefix: [SIPrefix; 7], i: int) -> int {
        (prefix_degree(self.prefix@[i]) - prefix_degree(prefix@[i])) * self.degree@[i]
    }

    /// The total coefficient change of a prefix conversion.
    pub open spec fn convert_shift_total(self, prefix: [SIPrefix; 7]) -> int {
        self.convert_shift(prefix, 0) + self.convert_shift(prefix, 1)
            + self.convert_shift(prefix, 2) + self.convert_shift(prefix, 3)
            + self.convert_shift(prefix, 4) + self.convert_shift(prefix, 5)
            + self.convert_shift(prefix, 6)
    }

    /// Prefix conversion: re-express the descriptor with the given prefixes,
    /// folding each prefix change into the coefficient so the scale is kept.
    pub fn convert_with_prefix(&self, prefix: [SIPrefix; 7]) -> (r: Self)
        requires
            i8::MIN <= self.pow10coe + self.convert_shift_total(prefix) <= i8::MAX,
        ensures
            r.prefix == prefix,
            r.degree == self.degree,
            r.pow10coe == self.pow10coe + self.convert_shift_total(prefix),
            r.scale_exponent() == self.scale_exponent(),
    {
        let s0 = convert_axis(self.prefix[0], prefix[0], self.degree[0]);
        let s1 = convert_axis(self.prefix[1], prefix[1], self.degree[1]);
        let s2 = convert_axis(self.prefix[2], prefix[2], self.degree[2]);
        let s3 = convert_axis(self.prefix[3], prefix[3], self.degree[3]);
        let s4 = convert_axis(self.prefix[4], prefix[4], self.degree[4]);
        let s5 = convert_axis(self.prefix[5], prefix[5], self.degree[5]);
        let s6 = convert_axis(self.prefix[6], prefix[6], self.degree[6]);
        let shift: i32 = s0 + s1 + s2 + s3 + s4 + s5 + s6;
        let coe: i32 = self.pow10coe as i32 + shift;
        let r = UnitSystem { pow10coe: coe as i8, prefix, degree: self.degree };
        proof {
            lemma_axis_preserved(self.prefix@[0], prefix@[0], self.degree@[0], s0 as int);
            lemma_axis_preserved(self.prefix@[1], prefix@[1], self.degree@[1], s1 as int);
            lemma_axis_preserved(self.prefix@[2], prefix@[2], self.degree@[2], s2 as int);
            lemma_axis_preserved(self.prefix@[3], prefix@[3], self.degree@[3], s3 as int);
            lemma_axis_preserved(self.prefix@[4], prefix@[4], self.degree@[4], s4 as int);
            lemma_axis_preserved(self.prefix@[5], prefix@[5], self.degree@[5], s5 as int);
            lemma_axis_preserved(self.prefix@[6], prefix@[6], self.degree@[6], s6 as int);
        }
        r
    }

    /// Prefix conversion on the length axis alone.
    pub fn convert_meter_prefix(&self, meter_prefix: SIPrefix) -> (r: Self)
        requires
            i8::MIN <= self.pow10coe
                + self.convert_shift_total(spec_meter_prefix_array(*self, meter_prefix))
                <= i8::MAX,
        ensures
            r.prefix == spec_meter_prefix_array(*self, meter_prefix),
            r.degree == self.degree,
            r.pow10coe == self.pow10coe
                + self.convert_shift_total(spec_meter_prefix_array(*self, meter_prefix)),
            r.scale_exponent() == self.scale_exponent(),
    {
        let mut prefix = self.prefix;
        prefix[2] = meter_prefix;
        proof {
            assert(prefix =~= spec_meter_prefix_array(*self, meter_prefix));
        }
        self.convert_with_prefix(prefix)
    }

    /// The descriptor with every prefix dropped and the whole scale carried
    /// by the coefficient.
    pub fn into_no_prefix(&self) -> (r: Self)
        requires
            i8::MIN <= self.scale_exponent() <= i8::MAX,
        ensures
            r.degree == self.degree,
            forall|i: int| 0 <= i < 7 ==> r.prefix@[i] == SIPrefix::NoPrefix,
            r.pow10coe == self.scale_exponent(),
            r.scale_exponent() == self.scale_exponent(),
    {
        let s0 = no_prefix_axis(self.prefix[0], self.degree[0]);
        let s1 = no_prefix_axis(self.prefix[1], self.degree[1]);
        let s2 = no_prefix_axis(self.prefix[2], self.degree[2]);
        let s3 = no_prefix_axis(self.prefix[3], self.degree[3]);
        let s4 = no_prefix_axis(self.prefix[4], self.degree[4]);
        let s5 = no_prefix_axis(self.prefix[5], self.degree[5]);
        let s6 = no_prefix_axis(self.prefix[6], self.degree[6]);
        let coe: i32 = self.pow10coe as i32 + s0 + s1 + s2 + s3 + s4 + s5 + s6;
        let r = UnitSystem {
            pow10coe: coe as i8,
            prefix: [SIPrefix::NoPrefix; 7],
            degree: self.degree,
        };
        proof {
            lemma_zero_degree_prefix_inert(r);
        }
        r
    }

    /// Multiplication of units: the dimension exponents add, `other` is
    /// first harmonized into `self`'s prefixes, and the coefficients add.
    /// The resulting scale is the sum of the operands' scales.
    pub fn multiply(&self, other: &Self) -> (r: Self)
        requires
            i8::MIN <= other.pow10coe + other.harmonize_shift(*self) <= i8::MAX,
            i8::MIN <= self.pow10coe + other.pow10coe + other.harmonize_shift(*self) <= i8::MAX,
            forall|i: int| 0 <= i < 7
                ==> i8::MIN <= #[trigger] (self.degree@[i] + other.degree@[i]) <= i8::MAX,
        ensures
            forall|i: int| 0 <= i < 7 ==> #[trigger] r.degree@[i] == self.degree@[i] + other.degree@[i],
            forall|i: int| 0 <= i < 7 ==> r.prefix@[i] == other.harmonized_prefix(*self, i),
            r.pow10coe == self.pow10coe + other.pow10coe + other.harmonize_shift(*self),
            r.scale_exponent() == self.scale_exponent() + other.scale_exponent(),
    {
        let rhs = other.into_same_prefix_with(self);
        let degree: [i8; 7] = [
            self.degree[0] + other.degree[0],
            self.degree[1] + other.degree[1],
            self.degree[2] + other.degree[2],
            self.degree[3] + other.degree[3],
            self.degree[4] + other.degree[4],
            self.degree[5] + other.degree[5],
            self.degree[6] + other.degree[6],
        ];
        let r = UnitSystem {
            pow10coe: self.pow10coe + rhs.pow10coe,
            prefix: rhs.prefix,
            degree,
        };
        proof {
            lemma_combined_scale(*self, *other, rhs, r);
        }
        r
    }

    /// Division of units: the dimension exponents subtract, `other` is first
    /// harmonized into `self`'s prefixes, and the coefficients subtract.
    /// The resulting scale is the difference of the operands' scales.
    pub fn divide(&self, other: &Self) -> (r: Self)
        requires
            i8::MIN <= other.pow10coe + other.harmonize_shift(*self) <= i8::MAX,
            i8::MIN <= self.pow10coe - (other.pow10coe + other.harmonize_shift(*self)) <= i8::MAX,
            forall|i: int| 0 <= i < 7
                ==> i8::MIN <= #[trigger] (self.degree@[i] - other.degree@[i]) <= i8::MAX,
        ensures
            forall|i: int| 0 <= i < 7 ==> #[trigger] r.degree@[i] == self.degree@[i] - other.degree@[i],
            forall|i: int| 0 <= i < 7 ==> r.prefix@[i] == other.harmonized_prefix(*self, i),
            r.pow10coe == self.pow10coe - (other.pow10coe + other.harmonize_shift(*self)),
            r.scale_exponent() == self.scale_exponent() - other.scale_exponent(),
    {
        let rhs = other.into_same_prefix_with(self);
        let degree: [i8; 7] = [
            self.degree[0] - other.degree[0],
            self.degree[1] - other.degree[1],
            self.degree[2] - other.degree[2],
            self.degree[3] - other.degree[3],
            self.degree[4] - other.degree[4],
            self.degree[5] - other.degree[5],
            self.degree[6] - other.degree[6],
        ];
        let r = UnitSystem {
            pow10coe: self.pow10coe - rhs.pow10coe,
            prefix: rhs.prefix,
            degree,
        };
        proof {
            lemma_divided_scale(*self, *other, rhs, r);
        }
        r
    }
}

/// The prefixes of `u` with the length axis's entry replaced by `p`.
pub open spec fn spec_meter_prefix_array(u: UnitSystem, p: SIPrefix) -> [SIPrefix; 7] {
    vstd::array::spec_array_update(u.prefix, 2, p)
}

/// One axis of harmonization: the prefix the result carries there and the
/// coefficient shift that compensates for the change.
fn harmonize_axis(p1: SIPrefix, p2: SIPrefix, d1: i8, d2: i8) -> (r: (SIPrefix, i32))
    ensures
        r.0 == if d2 != 0 { p2 } else { p1 },
        r.1 == (prefix_degree(p1) - prefix_degree(r.0)) * d1,
        -384 <= r.1 <= 384,
{
    if d2 != 0 {
        (p2, convert_axis(p1, p2, d1))
    } else {
        proof {
            lemma_mul_zero_left(d1 as int);
        }
        (p1, 0)
    }
}

/// One axis of prefix conversion: the coefficient shift that compensates for
/// moving the axis's prefix from `p1` to `p2`.
fn convert_axis(p1: SIPrefix, p2: SIPrefix, d1: i8) -> (s: i32)
    ensures
        s == (prefix_degree(p1) - prefix_degree(p2)) * d1,
        -384 <= s <= 384,
{
    let diff: i32 = p1.get_degree() as i32 - p2.get_degree() as i32;
    proof {
        lemma_small_product_bound(diff as int, d1 as int);
    }
    diff * (d1 as i32)
}

/// One axis of prefix removal: the axis's contribution to the scale.
fn no_prefix_axis(p: SIPrefix, d: i8) -> (s: i32)
    ensures
        s == prefix_degree(p) * d,
        -384 <= s <= 384,
{
    let pd: i32 = p.get_degree() as i32;
    proof {
        lemma_small_product_bound(pd as int, d as int);
    }
    pd * (d as i32)
}

/// A product of a factor no larger than 3 in magnitude with an 8-bit value
/// stays well inside 32 bits.
proof fn lemma_small_product_bound(a: int, b: int)
    requires
        -3 <= a <= 3,
        -128 <= b <= 127,
    ensures
        -384 <= a * b <= 384,
{
    assert(-384 <= a * b <= 384) by (nonlinear_arith)
        requires
            -3 <= a <= 3,
            -128 <= b <= 127,
    ;
}

/// Multiplying by zero on the left yields zero.
proof fn lemma_mul_zero_left(d: int)
    ensures
        0 * d == 0,
{
}

/// The compensating shift of one axis restores that axis's original term:
/// moving the prefix from `p1` to `q` while adding the shift to the
/// coefficient leaves the axis's scale contribution unchanged.
proof fn lemma_axis_preserved(p1: SIPrefix, q: SIPrefix, d: i8, shift: int)
    requires
        shift == (prefix_degree(p1) - prefix_degree(q)) * d,
    ensures
        shift + prefix_degree(q) * d == prefix_degree(p1) * d,
{
    assert((prefix_degree(p1) - prefix_degree(q)) * d + prefix_degree(q) * d
        == prefix_degree(p1) * d) by (nonlinear_arith);
}

/// Harmonization preserves the descriptor's scale: the coefficient shift
/// compensates for every prefix change, and axes where the other operand's
/// exponent is zero are skipped rather than forced.
pub proof fn lemma_harmonized_scale(a: UnitSystem, b: UnitSystem, r: UnitSystem)
    requires
        r.degree == a.degree,
        forall|i: int| 0 <= i < 7 ==> r.prefix@[i] == a.harmonized_prefix(b, i),
        r.pow10coe == a.pow10coe + a.harmonize_shift(b),
    ensures
        r.scale_exponent() == a.scale_exponent(),
{
    assert forall|i: int| 0 <= i < 7 implies a.axis_shift(b, i) + r.axis_term(i)
        == a.axis_term(i) by {
        assert(r.prefix@[i] == a.harmonized_prefix(b, i));
        lemma_axis_preserved(a.prefix@[i], r.prefix@[i], a.degree@[i], a.axis_shift(b, i));
    }
}

/// Harmonizing `a` with `b` and then extracting the residual coefficient
/// delta against `b` loses nothing: the residual plus the scale of the
/// residual-stripped descriptor recovers `a`'s scale exactly, so a
/// magnitude rescaled by ten to the residual still denotes the same
/// physical value on `b`'s coefficient.
pub proof fn lemma_harmonize_round_trip(a: UnitSystem, b: UnitSystem, h: UnitSystem)
    requires
        h.degree == a.degree,
        forall|i: int| 0 <= i < 7 ==> h.prefix@[i] == a.harmonized_prefix(b, i),
        h.pow10coe == a.pow10coe + a.harmonize_shift(b),
    ensures
        (h.pow10coe - b.pow10coe)
            + (UnitSystem { pow10coe: b.pow10coe, ..h }).scale_exponent()
            == a.scale_exponent(),
{
    lemma_harmonized_scale(a, b, h);
    let stripped = UnitSystem { pow10coe: b.pow10coe, ..h };
    assert forall|i: int| 0 <= i < 7 implies stripped.axis_term(i) == h.axis_term(i) by {
        assert(stripped.prefix@[i] == h.prefix@[i]);
    }
}

/// A prefix choice on an axis whose dimension exponent is zero is inert:
/// replacing it changes nothing about the descriptor's scale.
pub proof fn lemma_zero_axis_prefix_inert(u: UnitSystem, i: int, p: SIPrefix)
    requires
        0 <= i < 7,
        u.degree@[i] == 0,
    ensures
        (UnitSystem { prefix: vstd::array::spec_array_update(u.prefix, i, p), ..u })
            .scale_exponent() == u.scale_exponent(),
{
    let v = UnitSystem { prefix: vstd::array::spec_array_update(u.prefix, i, p), ..u };
    assert(v.prefix@ == u.prefix@.update(i, p));
    assert forall|j: int| 0 <= j < 7 implies v.axis_term(j) == u.axis_term(j) by {
        if j == i {
            lemma_mul_by_zero_right(prefix_degree(v.prefix@[j]), prefix_degree(u.prefix@[j]));
        } else {
            assert(v.prefix@[j] == u.prefix@[j]);
        }
    }
}

/// Multiplying by zero on the right yields zero.
proof fn lemma_mul_by_zero_right(a: int, b: int)
    ensures
        a * 0 == 0,
        b * 0 == 0,
{
    assert(a * 0 == 0 && b * 0 == 0) by (nonlinear_arith);
}

/// A descriptor whose prefixes are all `NoPrefix` has no axis terms: its
/// scale is its coefficient alone.
proof fn lemma_zero_degree_prefix_inert(u: UnitSystem)
    requires
        forall|i: int| 0 <= i < 7 ==> u.prefix@[i] == SIPrefix::NoPrefix,
    ensures
        u.scale_exponent() == u.pow10coe,
{
    assert forall|i: int| 0 <= i < 7 implies u.axis_term(i) == 0 by {
        assert(prefix_degree(u.prefix@[i]) == 0);
        lemma_mul_zero_left(u.degree@[i] as int);
    }
}

/// One axis of a dimension combination: where `self`'s exponent is zero the
/// harmonized prefix contributes nothing on that exponent, and where it is
/// nonzero the harmonized prefix is `self`'s own, so splitting the combined
/// exponent recovers both operands' axis terms.
proof fn lemma_axis_combined(q: SIPrefix, p1: SIPrefix, d1: i8, d2: i8, dr: int)
    requires
        dr == d1 + d2 || dr == d1 - d2,
        d1 != 0 ==> q == p1,
    ensures
        dr == d1 + d2 ==> prefix_degree(q) * dr == prefix_degree(p1) * d1 + prefix_degree(q) * d2,
        dr == d1 - d2 ==> prefix_degree(q) * dr == prefix_degree(p1) * d1 - prefix_degree(q) * d2,
{
    if d1 == 0 {
        lemma_mul_zero_left(0);
        assert(prefix_degree(p1) * d1 == 0) by (nonlinear_arith)
            requires d1 == 0;
        assert(prefix_degree(q) * d1 == 0) by (nonlinear_arith)
            requires d1 == 0;
    }
    assert(prefix_degree(q) * (d1 + d2) == prefix_degree(q) * d1 + prefix_degree(q) * d2)
        by (nonlinear_arith);
    assert(prefix_degree(q) * (d1 - d2) == prefix_degree(q) * d1 - prefix_degree(q) * d2)
        by (nonlinear_arith);
    if d1 != 0 {
        assert(prefix_degree(q) * d1 == prefix_degree(p1) * d1);
    }
}

/// The scale of a unit product is the sum of the operands' scales.
proof fn lemma_combined_scale(a: UnitSystem, b: UnitSystem, rhs: UnitSystem, r: UnitSystem)
    requires
        rhs.degree == b.degree,
        forall|i: int| 0 <= i < 7 ==> rhs.prefix@[i] == b.harmonized_prefix(a, i),
        rhs.scale_exponent() == b.scale_exponent(),
        r.prefix == rhs.prefix,
        r.pow10coe == a.pow10coe + rhs.pow10coe,
        forall|i: int| 0 <= i < 7 ==> #[trigger] r.degree@[i] == a.degree@[i] + b.degree@[i],
    ensures
        r.scale_exponent() == a.scale_exponent() + b.scale_exponent(),
{
    assert forall|i: int| 0 <= i < 7 implies r.axis_term(i)
        == a.axis_term(i) + rhs.axis_term(i) by {
        assert(rhs.prefix@[i] == b.harmonized_prefix(a, i));
        assert(r.degree@[i] == a.degree@[i] + b.degree@[i]);
        lemma_axis_combined(
            rhs.prefix@[i],
            a.prefix@[i],
            a.degree@[i],
            b.degree@[i],
            r.degree@[i] as int,
        );
    }
}

/// The scale of a unit quotient is the difference of the operands' scales.
proof fn lemma_divided_scale(a: UnitSystem, b: UnitSystem, rhs: UnitSystem, r: UnitSystem)
    requires
        rhs.degree == b.degree,
        forall|i: int| 0 <= i < 7 ==> rhs.prefix@[i] == b.harmonized_prefix(a, i),
        rhs.scale_exponent() == b.scale_exponent(),
        r.prefix == rhs.prefix,
        r.pow10coe == a.pow10coe - rhs.pow10coe,
        forall|i: int| 0 <= i < 7 ==> #[trigger] r.degree@[i] == a.degree@[i] - b.degree@[i],
    ensures
        r.scale_exponent() == a.scale_exponent() - b.scale_exponent(),
{
    assert forall|i: int| 0 <= i < 7 implies r.axis_term(i)
        == a.axis_term(i) - rhs.axis_term(i) by {
        assert(rhs.prefix@[i] == b.harmonized_prefix(a, i));
        assert(r.degree@[i] == a.degree@[i] - b.degree@[i]);
        lemma_axis_combined(
            rhs.prefix@[i],
            a.prefix@[i],
            a.degree@[i],
            b.degree@[i],
            r.degree@[i] as int,
        );
    }
}

/// The letter a prefix prepends to a unit symbol.
pub open spec fn spec_prefix_chars(p: SIPrefix) -> Seq<char> {
    match p {
        SIPrefix::NoPrefix => seq![],
        SIPrefix::Deci => seq!['d'],
        SIPrefix::Centi => seq!['c'],
        SIPrefix::Milli => seq!['m'],
    }
}

/// The symbol of one rendered term: the seven base-unit symbols in axis
/// order, and past them the power-of-ten pseudo-unit.
pub open spec fn spec_term_symbol(k: int) -> Seq<char> {
    if k == 0 {
        seq!['m', 'o', 'l']
    } else if k == 1 {
        seq!['g']
    } else if k == 2 {
        seq!['m']
    } else if k == 3 {
        seq!['s']
    } else if k == 4 {
        seq!['K']
    } else if k == 5 {
        seq!['A']
    } else if k == 6 {
        seq!['c', 'd']
    } else {
        seq!['1', '0']
    }
}

/// One rendered term: nothing for exponent zero, the prefixed symbol for
/// exponent one, and the prefixed symbol with a caret exponent otherwise;
/// each nonempty term ends in a space.
pub open spec fn spec_unit_term(p: SIPrefix, k: int, d: int) -> Seq<char> {
    if d == 0 {
        seq![]
    } else if d == 1 {
        spec_prefix_chars(p) + spec_term_symbol(k) + seq![' ']
    } else {
        spec_prefix_chars(p) + spec_term_symbol(k) + seq!['^'] + crate::digits::spec_int_text(d)
            + seq![' ']
    }
}

/// The rendered descriptor: the power-of-ten term, then each axis's term
/// in order, with the trailing separator dropped.
pub open spec fn spec_render_unit(u: UnitSystem) -> Seq<char> {
    let s = spec_unit_term(SIPrefix::NoPrefix, 7, u.pow10coe as int)
        + spec_unit_term(u.prefix@[0], 0, u.degree@[0] as int)
        + spec_unit_term(u.prefix@[1], 1, u.degree@[1] as int)
        + spec_unit_term(u.prefix@[2], 2, u.degree@[2] as int)
        + spec_unit_term(u.prefix@[3], 3, u.degree@[3] as int)
        + spec_unit_term(u.prefix@[4], 4, u.degree@[4] as int)
        + spec_unit_term(u.prefix@[5], 5, u.degree@[5] as int)
        + spec_unit_term(u.prefix@[6], 6, u.degree@[6] as int);
    if s.len() > 0 {
        s.subrange(0, s.len() - 1)
    } else {
        s
    }
}

/// Appends a prefix's letter, if it has one.
fn push_prefix_chars(out: &mut Vec<char>, p: SIPrefix)
    ensures
        final(out)@ == old(out)@ + spec_prefix_chars(p),
{
    match p {
        SIPrefix::NoPrefix => {},
        SIPrefix::Deci => out.push('d'),
        SIPrefix::Centi => out.push('c'),
        SIPrefix::Milli => out.push('m'),
    }
    proof {
        assert(final(out)@ =~= old(out)@ + spec_prefix_chars(p));
    }
}

/// Appends one term's symbol.
fn push_term_symbol(out: &mut Vec<char>, k: usize)
    ensures
        final(out)@ == old(out)@ + spec_term_symbol(k as int),
{
    match k {
        0 => {
            out.push('m');
            out.push('o');
            out.push('l');
        },
        1 => out.push('g'),
        2 => out.push('m'),
        3 => out.push('s'),
        4 => out.push('K'),
        5 => out.push('A'),
        6 => {
            out.push('c');
            out.push('d');
        },
        _ => {
            out.push('1');
            out.push('0');
        },
    }
    proof {
        assert(final(out)@ =~= old(out)@ + spec_term_symbol(k as int));
    }
}

/// Appends one rendered term.
fn push_unit_term(out: &mut Vec<char>, p: SIPrefix, k: usize, d: i8)
    ensures
        final(out)@ == old(out)@ + spec_unit_term(p, k as int, d as int),
{
    if d != 0 {
        push_prefix_chars(out, p);
        push_term_symbol(out, k);
        if d != 1 {
            out.push('^');
            let digits = crate::digits::int_chars(d as i64);
            let mut i: usize = 0;
            while i < digits.len()
                invariant
                    0 <= i <= digits@.len(),
                    out@ == old(out)@ + spec_prefix_chars(p) + spec_term_symbol(k as int)
                        + seq!['^'] + digits@.subrange(0, i as int),
                decreases digits@.len() - i,
            {
                out.push(digits[i]);
                i += 1;
                proof {
                    assert(out@ =~= old(out)@ + spec_prefix_chars(p) + spec_term_symbol(k as int)
                        + seq!['^'] + digits@.subrange(0, i as int));
                }
            }
            proof {
                assert(digits@.subrange(0, digits@.len() as int) =~= digits@);
            }
        }
        out.push(' ');
    }
    proof {
        assert(final(out)@ =~= old(out)@ + spec_unit_term(p, k as int, d as int));
    }
}

impl UnitSystem {
    /// The descriptor's text: the power-of-ten coefficient, then each axis
    /// with a nonzero exponent as its prefixed unit symbol, the exponent
    /// shown unless it is one.
    pub fn render(&self) -> (r: String)
        ensures
            r@ == spec_render_unit(*self),
    {
        let mut out: Vec<char> = Vec::new();
        push_unit_term(&mut out, SIPrefix::NoPrefix, 7, self.pow10coe);
        push_unit_term(&mut out, self.prefix[0], 0, self.degree[0]);
        push_unit_term(&mut out, self.prefix[1], 1, self.degree[1]);
        push_unit_term(&mut out, self.prefix[2], 2, self.degree[2]);
        push_unit_term(&mut out, self.prefix[3], 3, self.degree[3]);
        push_unit_term(&mut out, self.prefix[4], 4, self.degree[4]);
        push_unit_term(&mut out, self.prefix[5], 5, self.degree[5]);
        push_unit_term(&mut out, self.prefix[6], 6, self.degree[6]);
        if out.len() > 0 {
            let popped = out.pop();
        }
        crate::digits::chars_to_string(&out)
    }
}

impl UnitSystem {
    /// The harmonization coefficient shift, computed at run time.
    pub fn compute_harmonize_shift(&self, other: &Self) -> (s: i32)
        ensures
            s == self.harmonize_shift(*other),
            -2688 <= s <= 2688,
    {
        let (_, s0) = harmonize_axis(self.prefix[0], other.prefix[0], self.degree[0], other.degree[0]);
        let (_, s1) = harmonize_axis(self.prefix[1], other.prefix[1], self.degree[1], other.degree[1]);
        let (_, s2) = harmonize_axis(self.prefix[2], other.prefix[2], self.degree[2], other.degree[2]);
        let (_, s3) = harmonize_axis(self.prefix[3], other.prefix[3], self.degree[3], other.degree[3]);
        let (_, s4) = harmonize_axis(self.prefix[4], other.prefix[4], self.degree[4], other.degree[4]);
        let (_, s5) = harmonize_axis(self.prefix[5], other.prefix[5], self.degree[5], other.degree[5]);
        let (_, s6) = harmonize_axis(self.prefix[6], other.prefix[6], self.degree[6], other.degree[6]);
        s0 + s1 + s2 + s3 + s4 + s5 + s6
    }

    /// The descriptor's scale exponent, computed at run time.
    pub fn compute_scale_exponent(&self) -> (s: i32)
        ensures
            s == self.scale_exponent(),
            -2816 <= s <= 2815,
    {
        let s0 = no_prefix_axis(self.prefix[0], self.degree[0]);
        let s1 = no_prefix_axis(self.prefix[1], self.degree[1]);
        let s2 = no_prefix_axis(self.prefix[2], self.degree[2]);
        let s3 = no_prefix_axis(self.prefix[3], self.degree[3]);
        let s4 = no_prefix_axis(self.prefix[4], self.degree[4]);
        let s5 = no_prefix_axis(self.prefix[5], self.degree[5]);
        let s6 = no_prefix_axis(self.prefix[6], self.degree[6]);
        self.pow10coe as i32 + s0 + s1 + s2 + s3 + s4 + s5 + s6
    }

    /// Harmonization that signals coefficient overflow: `None` exactly when
    /// the harmonized coefficient would leave the representable range.
    pub fn checked_into_same_prefix_with(&self, other: &Self) -> (r: Option<Self>)
        ensures
            r is Some <==> i8::MIN <= self.pow10coe + self.harmonize_shift(*other) <= i8::MAX,
            r matches Some(h) ==> h.degree == self.degree
                && (forall|i: int| 0 <= i < 7 ==> h.prefix@[i] == self.harmonized_prefix(*other, i))
                && h.pow10coe == self.pow10coe + self.harmonize_shift(*other)
                && h.scale_exponent() == self.scale_exponent(),
    {
        let shift = self.compute_harmonize_shift(other);
        let coe = self.pow10coe as i32 + shift;
        if -128 <= coe && coe <= 127 {
            Some(self.into_same_prefix_with(other))
        } else {
            None
        }
    }

    /// Unit multiplication that signals overflow: `None` exactly when a
    /// combined dimension exponent or coefficient would leave the
    /// representable range.
    pub fn checked_multiply(&self, other: &Self) -> (r: Option<Self>)
        ensures
            r is Some <==> {
                &&& i8::MIN <= other.pow10coe + other.harmonize_shift(*self) <= i8::MAX
                &&& i8::MIN <= self.pow10coe + other.pow10coe + other.harmonize_shift(*self)
                    <= i8::MAX
                &&& forall|i: int| 0 <= i < 7
                    ==> i8::MIN <= #[trigger] (self.degree@[i] + other.degree@[i]) <= i8::MAX
            },
            r matches Some(p) ==> (forall|i: int| 0 <= i < 7
                ==> #[trigger] p.degree@[i] == self.degree@[i] + other.degree@[i])
                && (forall|i: int| 0 <= i < 7
                    ==> #[trigger] p.prefix@[i] == other.harmonized_prefix(*self, i))
                && p.pow10coe == self.pow10coe + other.pow10coe + other.harmonize_shift(*self)
                && p.scale_exponent() == self.scale_exponent() + other.scale_exponent(),
    {
        let shift = other.compute_harmonize_shift(self);
        let rhs_coe = other.pow10coe as i32 + shift;
        let coe = self.pow10coe as i32 + rhs_coe;
        let mut fits = -128 <= rhs_coe && rhs_coe <= 127 && -128 <= coe && coe <= 127;
        let mut i: usize = 0;
        while i < 7
            invariant
                0 <= i <= 7,
                fits == ({
                    &&& i8::MIN <= other.pow10coe + other.harmonize_shift(*self) <= i8::MAX
                    &&& i8::MIN <= self.pow10coe + other.pow10coe + other.harmonize_shift(*self)
                        <= i8::MAX
                    &&& forall|j: int| 0 <= j < i
                        ==> i8::MIN <= #[trigger] (self.degree@[j] + other.degree@[j]) <= i8::MAX
                }),
            decreases 7 - i,
        {
            let d = self.degree[i] as i16 + other.degree[i] as i16;
            fits = fits && -128 <= d && d <= 127;
            i += 1;
        }
        if fits {
            Some(self.multiply(other))
        } else {
            None
        }
    }

    /// Unit division that signals overflow: `None` exactly when a combined
    /// dimension exponent or coefficient would leave the representable
    /// range.
    pub fn checked_divide(&self, other: &Self) -> (r: Option<Self>)
        ensures
            r is Some <==> {
                &&& i8::MIN <= other.pow10coe + other.harmonize_shift(*self) <= i8::MAX
                &&& i8::MIN <= self.pow10coe - (other.pow10coe + other.harmonize_shift(*self))
                    <= i8::MAX
                &&& forall|i: int| 0 <= i < 7
                    ==> i8::MIN <= #[trigger] (self.degree@[i] - other.degree@[i]) <= i8::MAX
            },
            r matches Some(p) ==> (forall|i: int| 0 <= i < 7
                ==> #[trigger] p.degree@[i] == self.degree@[i] - other.degree@[i])
                && (forall|i: int| 0 <= i < 7
                    ==> #[trigger] p.prefix@[i] == other.harmonized_prefix(*self, i))
                && p.pow10coe == self.pow10coe - (other.pow10coe + other.harmonize_shift(*self))
                && p.scale_exponent() == self.scale_exponent() - other.scale_exponent(),
    {
        let shift = other.compute_harmonize_shift(self);
        let rhs_coe = other.pow10coe as i32 + shift;
        let coe = self.pow10coe as i32 - rhs_coe;
        let mut fits = -128 <= rhs_coe && rhs_coe <= 127 && -128 <= coe && coe <= 127;
        let mut i: usize = 0;
        while i < 7
            invariant
                0 <= i <= 7,
                fits == ({
                    &&& i8::MIN <= other.pow10coe + other.harmonize_shift(*self) <= i8::MAX
                    &&& i8::MIN <= self.pow10coe - (other.pow10coe + other.harmonize_shift(*self))
                        <= i8::MAX
                    &&& forall|j: int| 0 <= j < i
                        ==> i8::MIN <= #[trigger] (self.degree@[j] - other.degree@[j]) <= i8::MAX
                }),
            decreases 7 - i,
        {
            let d = self.degree[i] as i16 - other.degree[i] as i16;
            fits = fits && -128 <= d && d <= 127;
            i += 1;
        }
        if fits {
            Some(self.divide(other))
        } else {
            None
        }
    }

    /// Prefix conversion on the length axis that signals coefficient
    /// overflow: `None` exactly when the recomputed coefficient would leave
    /// the representable range.
    pub fn checked_convert_meter_prefix(&self, meter_prefix: SIPrefix) -> (r: Option<Self>)
        ensures
            r is Some <==> i8::MIN <= self.pow10coe
                + self.convert_shift_total(spec_meter_prefix_array(*self, meter_prefix))
                <= i8::MAX,
            r matches Some(c) ==> c.prefix == spec_meter_prefix_array(*self, meter_prefix)
                && c.degree == self.degree
                && c.pow10coe == self.pow10coe
                    + self.convert_shift_total(spec_meter_prefix_array(*self, meter_prefix))
                && c.scale_exponent() == self.scale_exponent(),
    {
        let mut prefix = self.prefix;
        prefix[2] = meter_prefix;
        proof {
            assert(prefix =~= spec_meter_prefix_array(*self, meter_prefix));
        }
        let s0 = convert_axis(self.prefix[0], prefix[0], self.degree[0]);
        let s1 = convert_axis(self.prefix[1], prefix[1], self.degree[1]);
        let s2 = convert_axis(self.prefix[2], prefix[2], self.degree[2]);
        let s3 = convert_axis(self.prefix[3], prefix[3], self.degree[3]);
        let s4 = convert_axis(self.prefix[4], prefix[4], self.degree[4]);
        let s5 = convert_axis(self.prefix[5], prefix[5], self.degree[5]);
        let s6 = convert_axis(self.prefix[6], prefix[6], self.degree[6]);
        let coe = self.pow10coe as i32 + s0 + s1 + s2 + s3 + s4 + s5 + s6;
        if -128 <= coe && coe <= 127 {
            Some(self.convert_meter_prefix(meter_prefix))
        } else {
            None
        }
    }
}

} // verus!


