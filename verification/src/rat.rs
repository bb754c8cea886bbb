//! Exact rational values for ray parameters and probability densities.
//!
//! A `Rat` is a fraction of two `i128`s with a positive denominator. The
//! kernel never normalises: comparisons are done by cross-multiplication,
//! so they stay exact as long as the operands respect [`CMP_LIMIT`].

use vstd::prelude::*;
use crate::vec3::lemma_mul_bound;

verus! {

/// Largest numerator or denominator magnitude accepted by the exact
/// comparisons: cross products of two such values stay inside `i128`.
pub const CMP_LIMIT: i128 = 0x7fff_ffff_ffff_ffff;

#[derive(Clone, Copy, PartialEq, Eq, Structural, Debug)]
pub struct Rat {
    pub num: i128,
    pub den: i128,
}

impl Rat {
    /// The denominator is positive and both parts are small enough for
    /// exact cross-multiplied comparison.
    pub open spec fn wf(self) -> bool {
        &&& 0 < self.den <= CMP_LIMIT
        &&& -CMP_LIMIT <= self.num <= CMP_LIMIT
    }

    /// The rational `self` and the rational `other` denote the same value.
    pub open spec fn eq_value(self, other: Rat) -> bool {
        self.num * other.den == other.num * self.den
    }

    /// The value of `self` is at most the value of `other`.
    pub open spec fn le_value(self, other: Rat) -> bool {
        self.num * other.den <= other.num * self.den
    }

    /// The value of `self` is strictly below the value of `other`.
    pub open spec fn lt_value(self, other: Rat) -> bool {
        self.num * other.den < other.num * self.den
    }

    pub fn new(num: i128, den: i128) -> (r: Rat)
        requires
            0 < den <= CMP_LIMIT,
            -CMP_LIMIT <= num <= CMP_LIMIT,
        ensures
            r.wf(),
            r == (Rat { num, den }),
    {
        Rat { num, den }
    }

    /// Exact comparison by cross-multiplication.
    pub fn le(self, other: Rat) -> (r: bool)
        requires
            self.wf(),
            other.wf(),
        ensures
            r == self.le_value(other),
    {
        proof {
            lemma_mul_bound(self.num as int, other.den as int, CMP_LIMIT as int, CMP_LIMIT as int);
            lemma_mul_bound(other.num as int, self.den as int, CMP_LIMIT as int, CMP_LIMIT as int);
        }
        self.num * other.den <= other.num * self.den
    }

    /// Exact strict comparison by cross-multiplication.
    pub fn lt(self, other: Rat) -> (r: bool)
        requires
            self.wf(),
            other.wf(),
        ensures
            r == self.lt_value(other),
    {
        proof {
            lemma_mul_bound(self.num as int, other.den as int, CMP_LIMIT as int, CMP_LIMIT as int);
            lemma_mul_bound(other.num as int, self.den as int, CMP_LIMIT as int, CMP_LIMIT as int);
        }
        self.num * other.den < other.num * self.den
    }

    /// The value is at least zero; exact, since the denominator is positive.
    pub fn is_non_negative(self) -> (r: bool)
        requires
            self.wf(),
        ensures
            r == (self.num >= 0),
    {
        self.num >= 0
    }
}

/// The value of `r` is at most the fraction `tn / td` (for `td > 0`).
pub open spec fn le_frac(r: Rat, tn: int, td: int) -> bool {
    r.num * td <= tn * r.den
}

/// The fraction `tn / td` is at most the value of `r` (for `td > 0`).
pub open spec fn ge_frac(r: Rat, tn: int, td: int) -> bool {
    tn * r.den <= r.num * td
}

/// A rational below `b` is below every fraction that `b` is below.
pub proof fn lemma_le_frac_from_le(a: Rat, b: Rat, tn: int, td: int)
    by (nonlinear_arith)
    requires
        a.wf(),
        b.wf(),
        td > 0,
        a.le_value(b),
        le_frac(b, tn, td),
    ensures
        le_frac(a, tn, td),
{
}

/// A rational above `a` is above every fraction that `a` is above.
pub proof fn lemma_ge_frac_from_le(a: Rat, b: Rat, tn: int, td: int)
    by (nonlinear_arith)
    requires
        a.wf(),
        b.wf(),
        td > 0,
        a.le_value(b),
        ge_frac(a, tn, td),
    ensures
        ge_frac(b, tn, td),
{
}

/// A rational strictly below `b` is strictly below every fraction `b`
/// is at most.
pub proof fn lemma_lt_frac_from_lt(a: Rat, b: Rat, tn: int, td: int)
    by (nonlinear_arith)
    requires
        a.wf(),
        b.wf(),
        td > 0,
        a.lt_value(b),
        le_frac(b, tn, td),
    ensures
        a.num * td < tn * a.den,
{
}

/// A fraction squeezed between `lo` and `hi` orders the two rationals.
pub proof fn lemma_frac_between(lo: Rat, hi: Rat, tn: int, td: int)
    by (nonlinear_arith)
    requires
        lo.wf(),
        hi.wf(),
        td > 0,
        le_frac(lo, tn, td),
        ge_frac(hi, tn, td),
    ensures
        lo.le_value(hi),
{
}

/// `le_value` and `lt_value` order rationals with positive denominators
/// consistently: at most one of `a < b` and `b <= a` holds, and values
/// equal under `eq_value` compare equal both ways.
pub proof fn lemma_rat_order(a: Rat, b: Rat)
    by (nonlinear_arith)
    requires
        a.wf(),
        b.wf(),
    ensures
        a.lt_value(b) <==> !b.le_value(a),
        a.eq_value(b) <==> (a.le_value(b) && b.le_value(a)),
{
}

/// Transitivity of the exact order on rationals with positive denominators.
pub proof fn lemma_rat_le_trans(a: Rat, b: Rat, c: Rat)
    by (nonlinear_arith)
    requires
        a.wf(),
        b.wf(),
        c.wf(),
        a.le_value(b),
        b.le_value(c),
    ensures
        a.le_value(c),
{
}

} // verus!
