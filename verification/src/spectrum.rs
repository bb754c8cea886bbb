//! Three-channel radiance values with an exact componentwise algebra.
//!
//! Channels are integers; callers pick the fixed-point scale. Every
//! operation states its result exactly, and the algebraic laws of the
//! componentwise operations are proved below.

use vstd::prelude::*;

verus! {

/// Largest channel magnitude accepted by the componentwise product.
pub const CHANNEL_LIMIT: i128 = 0x4000_0000_0000_0000;

#[derive(Clone, Copy, PartialEq, Eq, Structural, Debug)]
pub struct Spectrum {
    pub r: i128,
    pub g: i128,
    pub b: i128,
}

/// Every channel of `s` lies in `[-l, l]`.
pub open spec fn in_gamut(s: Spectrum, l: int) -> bool {
    &&& -l <= s.r <= l
    &&& -l <= s.g <= l
    &&& -l <= s.b <= l
}

/// All three channels are zero.
pub open spec fn is_black(s: Spectrum) -> bool {
    s.r == 0 && s.g == 0 && s.b == 0
}

/// `s` is the componentwise sum of `a` and `b`.
pub open spec fn is_sum(s: Spectrum, a: Spectrum, b: Spectrum) -> bool {
    &&& s.r == a.r + b.r
    &&& s.g == a.g + b.g
    &&& s.b == a.b + b.b
}

/// `s` is the componentwise difference `a - b`.
pub open spec fn is_difference(s: Spectrum, a: Spectrum, b: Spectrum) -> bool {
    &&& s.r == a.r - b.r
    &&& s.g == a.g - b.g
    &&& s.b == a.b - b.b
}

/// `s` is the componentwise product of `a` and `b`.
pub open spec fn is_product(s: Spectrum, a: Spectrum, b: Spectrum) -> bool {
    &&& s.r == a.r * b.r
    &&& s.g == a.g * b.g
    &&& s.b == a.b * b.b
}

impl Spectrum {
    pub fn new(r: i128, g: i128, b: i128) -> (s: Spectrum)
        ensures
            s == (Spectrum { r, g, b }),
    {
        Spectrum { r, g, b }
    }

    /// The spectrum with the same value in all three channels.
    pub fn constant(c: i128) -> (s: Spectrum)
        ensures
            s.r == c && s.g == c && s.b == c,
    {
        Spectrum { r: c, g: c, b: c }
    }

    /// The zero radiance value.
    pub fn black() -> (s: Spectrum)
        ensures
            is_black(s),
    {
        Spectrum { r: 0, g: 0, b: 0 }
    }

    pub fn add(self, other: Spectrum) -> (s: Spectrum)
        requires
            in_gamut(self, CHANNEL_LIMIT as int),
            in_gamut(other, CHANNEL_LIMIT as int),
        ensures
            is_sum(s, self, other),
    {
        Spectrum { r: self.r + other.r, g: self.g + other.g, b: self.b + other.b }
    }

    pub fn sub(self, other: Spectrum) -> (s: Spectrum)
        requires
            in_gamut(self, CHANNEL_LIMIT as int),
            in_gamut(other, CHANNEL_LIMIT as int),
        ensures
            is_difference(s, self, other),
    {
        Spectrum { r: self.r - other.r, g: self.g - other.g, b: self.b - other.b }
    }

    pub fn mul(self, other: Spectrum) -> (s: Spectrum)
        requires
            in_gamut(self, CHANNEL_LIMIT as int),
            in_gamut(other, CHANNEL_LIMIT as int),
        ensures
            is_product(s, self, other),
    {
        proof {
            crate::vec3::lemma_mul_bound(self.r as int, other.r as int, CHANNEL_LIMIT as int, CHANNEL_LIMIT as int);
            crate::vec3::lemma_mul_bound(self.g as int, other.g as int, CHANNEL_LIMIT as int, CHANNEL_LIMIT as int);
            crate::vec3::lemma_mul_bound(self.b as int, other.b as int, CHANNEL_LIMIT as int, CHANNEL_LIMIT as int);
        }
        Spectrum { r: self.r * other.r, g: self.g * other.g, b: self.b * other.b }
    }

    /// Componentwise quotient on non-negative radiance values.
    pub fn div(self, other: Spectrum) -> (s: Spectrum)
        requires
            in_gamut(self, CHANNEL_LIMIT as int),
            0 <= self.r && 0 <= self.g && 0 <= self.b,
            0 < other.r && 0 < other.g && 0 < other.b,
        ensures
            s.r == self.r as int / other.r as int,
            s.g == self.g as int / other.g as int,
            s.b == self.b as int / other.b as int,
    {
        Spectrum { r: self.r / other.r, g: self.g / other.g, b: self.b / other.b }
    }

    /// Scale every channel by the same integer factor.
    pub fn scale(self, k: i128) -> (s: Spectrum)
        requires
            in_gamut(self, CHANNEL_LIMIT as int),
            -CHANNEL_LIMIT <= k <= CHANNEL_LIMIT,
        ensures
            s.r == k * self.r,
            s.g == k * self.g,
            s.b == k * self.b,
    {
        proof {
            crate::vec3::lemma_mul_bound(k as int, self.r as int, CHANNEL_LIMIT as int, CHANNEL_LIMIT as int);
            crate::vec3::lemma_mul_bound(k as int, self.g as int, CHANNEL_LIMIT as int, CHANNEL_LIMIT as int);
            crate::vec3::lemma_mul_bound(k as int, self.b as int, CHANNEL_LIMIT as int, CHANNEL_LIMIT as int);
        }
        Spectrum { r: k * self.r, g: k * self.g, b: k * self.b }
    }

    /// Divide every non-negative channel by the same positive count,
    /// as when averaging accumulated samples.
    pub fn div_scalar(self, k: i128) -> (s: Spectrum)
        requires
            in_gamut(self, CHANNEL_LIMIT as int),
            0 <= self.r && 0 <= self.g && 0 <= self.b,
            0 < k,
        ensures
            s.r == self.r as int / k as int,
            s.g == self.g as int / k as int,
            s.b == self.b as int / k as int,
    {
        Spectrum { r: self.r / k, g: self.g / k, b: self.b / k }
    }
}

/// Adding black changes nothing: a sum with a black operand equals the
/// other operand.
pub proof fn lemma_black_add_identity(zero: Spectrum, other: Spectrum, sum: Spectrum)
    requires
        is_black(zero),
        is_sum(sum, zero, other),
    ensures
        sum == other,
{
}

/// Componentwise addition is commutative.
pub proof fn lemma_add_commutes(s1: Spectrum, s2: Spectrum, a: Spectrum, b: Spectrum)
    requires
        is_sum(s1, a, b),
        is_sum(s2, b, a),
    ensures
        s1 == s2,
{
}

/// Componentwise addition is associative.
pub proof fn lemma_add_associates(
    ab: Spectrum,
    bc: Spectrum,
    ab_c: Spectrum,
    a_bc: Spectrum,
    a: Spectrum,
    b: Spectrum,
    c: Spectrum,
)
    requires
        is_sum(ab, a, b),
        is_sum(bc, b, c),
        is_sum(ab_c, ab, c),
        is_sum(a_bc, a, bc),
    ensures
        ab_c == a_bc,
{
}

/// Componentwise multiplication is commutative.
pub proof fn lemma_mul_commutes(s1: Spectrum, s2: Spectrum, a: Spectrum, b: Spectrum)
    requires
        is_product(s1, a, b),
        is_product(s2, b, a),
    ensures
        s1 == s2,
{
}

/// Componentwise multiplication is associative.
pub proof fn lemma_mul_associates(
    ab: Spectrum,
    bc: Spectrum,
    ab_c: Spectrum,
    a_bc: Spectrum,
    a: Spectrum,
    b: Spectrum,
    c: Spectrum,
)
    requires
        is_product(ab, a, b),
        is_product(bc, b, c),
        is_product(ab_c, ab, c),
        is_product(a_bc, a, bc),
    ensures
        ab_c == a_bc,
{
    assert((a.r * b.r) * c.r == a.r * (b.r * c.r)) by (nonlinear_arith);
    assert((a.g * b.g) * c.g == a.g * (b.g * c.g)) by (nonlinear_arith);
    assert((a.b * b.b) * c.b == a.b * (b.b * c.b)) by (nonlinear_arith);
}

} // verus!
