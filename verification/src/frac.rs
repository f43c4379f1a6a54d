//! Exact rational arithmetic.
//!
//! Matrix entries are exact rationals rather than machine reals, so every
//! transform construction in this crate has a precise mathematical meaning.
//! A rational is modelled in specifications as a pair of mathematical
//! integers `(numerator, denominator)`; two pairs denote the same rational
//! when their cross products agree.

use vstd::prelude::*;

verus! {

/// The mathematical model of a rational: (numerator, denominator).
pub type Q = (int, int);

/// Two rational models denote the same value (valid whenever both
/// denominators are nonzero).
pub open spec fn q_eq(a: Q, b: Q) -> bool {
    a.0 * b.1 == b.0 * a.1
}

/// `a <= b` as rationals (valid whenever both denominators are positive).
pub open spec fn q_le(a: Q, b: Q) -> bool {
    a.0 * b.1 <= b.0 * a.1
}

pub open spec fn q_add(a: Q, b: Q) -> Q {
    (a.0 * b.1 + b.0 * a.1, a.1 * b.1)
}

pub open spec fn q_sub(a: Q, b: Q) -> Q {
    (a.0 * b.1 - b.0 * a.1, a.1 * b.1)
}

pub open spec fn q_mul(a: Q, b: Q) -> Q {
    (a.0 * b.0, a.1 * b.1)
}

pub open spec fn q_div(a: Q, b: Q) -> Q {
    (a.0 * b.1, a.1 * b.0)
}

pub open spec fn q_neg(a: Q) -> Q {
    (-a.0, a.1)
}

/// The model has a positive denominator and both components bounded by
/// `bound` in magnitude.
pub open spec fn q_small(a: Q, bound: int) -> bool {
    &&& -bound <= a.0 <= bound
    &&& 0 < a.1 <= bound
}

/// `x` fits in the machine representation of a rational component.
pub open spec fn in_i128(x: int) -> bool {
    i128::MIN as int <= x <= i128::MAX as int
}

/// Every intermediate of `q_add(a, b)` (and of `q_sub(a, b)`) fits.
pub open spec fn add_fits(a: Q, b: Q) -> bool {
    &&& in_i128(a.0 * b.1)
    &&& in_i128(b.0 * a.1)
    &&& in_i128(a.0 * b.1 + b.0 * a.1)
    &&& in_i128(a.0 * b.1 - b.0 * a.1)
    &&& in_i128(a.1 * b.1)
}

/// Every intermediate of `q_mul(a, b)` fits.
pub open spec fn mul_fits(a: Q, b: Q) -> bool {
    &&& in_i128(a.0 * b.0)
    &&& in_i128(a.1 * b.1)
}

/// Every intermediate of `q_div(a, b)` fits, the sign-normalized forms
/// included.
pub open spec fn div_fits(a: Q, b: Q) -> bool {
    &&& in_i128(a.0 * b.1)
    &&& in_i128(a.1 * b.0)
    &&& in_i128(-(a.0 * b.1))
    &&& in_i128(-(a.1 * b.0))
}

/// An exact rational number `num / den` with `den > 0`.
#[derive(Clone, Copy, Debug)]
pub struct Frac {
    pub num: i128,
    pub den: i128,
}

impl View for Frac {
    type V = Q;

    open spec fn view(&self) -> Q {
        (self.num as int, self.den as int)
    }
}

impl Frac {
    /// Well-formed: the denominator is positive.
    pub open spec fn wf(self) -> bool {
        self.den > 0
    }

    /// The rational `num / den`, sign-normalized so the denominator is
    /// positive.
    pub fn new(num: i128, den: i128) -> (r: Frac)
        requires
            den != 0,
            num != i128::MIN,
            den != i128::MIN,
        ensures
            r.wf(),
            q_eq(r@, (num as int, den as int)),
            den > 0 ==> r@ == (num as int, den as int),
    {
        if den < 0 {
            proof {
                assert((-(num as int)) * (den as int) == (num as int) * (-(den as int)))
                    by (nonlinear_arith);
            }
            Frac { num: -num, den: -den }
        } else {
            Frac { num, den }
        }
    }

    /// The rational `n / 1`.
    pub fn from_int(n: i128) -> (r: Frac)
        ensures
            r.wf(),
            r@ == (n as int, 1int),
    {
        Frac { num: n, den: 1 }
    }

    pub fn add(self, other: Frac) -> (r: Frac)
        requires
            self.wf(),
            other.wf(),
            add_fits(self@, other@),
        ensures
            r.wf(),
            r@ == q_add(self@, other@),
    {
        proof {
            lemma_mul_signs(self.den as int, other.den as int);
        }
        Frac { num: self.num * other.den + other.num * self.den, den: self.den * other.den }
    }

    pub fn sub(self, other: Frac) -> (r: Frac)
        requires
            self.wf(),
            other.wf(),
            add_fits(self@, other@),
        ensures
            r.wf(),
            r@ == q_sub(self@, other@),
    {
        proof {
            lemma_mul_signs(self.den as int, other.den as int);
        }
        Frac { num: self.num * other.den - other.num * self.den, den: self.den * other.den }
    }

    pub fn mul(self, other: Frac) -> (r: Frac)
        requires
            self.wf(),
            other.wf(),
            mul_fits(self@, other@),
        ensures
            r.wf(),
            r@ == q_mul(self@, other@),
    {
        proof {
            lemma_mul_signs(self.den as int, other.den as int);
        }
        Frac { num: self.num * other.num, den: self.den * other.den }
    }

    pub fn neg(self) -> (r: Frac)
        requires
            self.wf(),
            self.num != i128::MIN,
        ensures
            r.wf(),
            r@ == q_neg(self@),
    {
        Frac { num: -self.num, den: self.den }
    }

    /// Exact division, sign-normalized so the result's denominator is
    /// positive.
    pub fn div(self, other: Frac) -> (r: Frac)
        requires
            self.wf(),
            other.wf(),
            other.num != 0,
            div_fits(self@, other@),
        ensures
            r.wf(),
            q_eq(r@, q_div(self@, other@)),
    {
        let n = self.num * other.den;
        let d = self.den * other.num;
        proof {
            lemma_mul_signs(self.den as int, other.num as int);
        }
        if d < 0 {
            let r = Frac { num: -n, den: -d };
            proof {
                assert((-(n as int)) * (d as int) == (n as int) * (-(d as int)))
                    by (nonlinear_arith);
            }
            r
        } else {
            Frac { num: n, den: d }
        }
    }
}

/// Sign facts about a product, for the combinations the crate needs.
pub proof fn lemma_mul_signs(a: int, b: int)
    by (nonlinear_arith)
    ensures
        0 < a && 0 < b ==> 0 < a * b,
        0 < a && b < 0 ==> a * b < 0,
        0 < a && b != 0 ==> a * b != 0,
{
}

/// Magnitude bound on a product from magnitude bounds on the factors.
pub proof fn lemma_abs_mul_le(a: int, b: int, aa: int, bb: int)
    by (nonlinear_arith)
    requires
        -aa <= a <= aa,
        -bb <= b <= bb,
    ensures
        -(aa * bb) <= a * b <= aa * bb,
{
}

/// Addition and subtraction stay in range when both operands are bounded
/// by `bound`.
pub proof fn lemma_add_sub_fits(a: Q, b: Q, bound: int)
    requires
        q_small(a, bound),
        q_small(b, bound),
        bound * bound <= (i128::MAX as int) / 2,
    ensures
        add_fits(a, b),
        q_small(q_add(a, b), 2 * (bound * bound)),
        q_small(q_sub(a, b), 2 * (bound * bound)),
{
    lemma_abs_mul_le(a.0, b.1, bound, bound);
    lemma_abs_mul_le(b.0, a.1, bound, bound);
    lemma_abs_mul_le(a.1, b.1, bound, bound);
    lemma_mul_signs(a.1, b.1);
}

/// Division stays in range when the dividend is bounded by `ba` and the
/// divisor by `bb`.
pub proof fn lemma_div_fits(a: Q, b: Q, ba: int, bb: int)
    requires
        q_small(a, ba),
        q_small(b, bb),
        ba * bb < i128::MAX as int,
    ensures
        div_fits(a, b),
{
    lemma_abs_mul_le(a.0, b.1, ba, bb);
    lemma_abs_mul_le(a.1, b.0, ba, bb);
}

/// The operations written out on explicit components; instantiating these
/// with numerals lets concrete rational computations be read off directly.
pub proof fn lemma_q_add_eval(a0: int, a1: int, b0: int, b1: int)
    ensures
        q_add((a0, a1), (b0, b1)) == (a0 * b1 + b0 * a1, a1 * b1),
{
}

pub proof fn lemma_q_sub_eval(a0: int, a1: int, b0: int, b1: int)
    ensures
        q_sub((a0, a1), (b0, b1)) == (a0 * b1 - b0 * a1, a1 * b1),
{
}

pub proof fn lemma_q_mul_eval(a0: int, a1: int, b0: int, b1: int)
    ensures
        q_mul((a0, a1), (b0, b1)) == (a0 * b0, a1 * b1),
{
}

pub proof fn lemma_q_div_eval(a0: int, a1: int, b0: int, b1: int)
    ensures
        q_div((a0, a1), (b0, b1)) == (a0 * b1, a1 * b0),
{
}

pub proof fn lemma_q_neg_eval(a0: int, a1: int)
    ensures
        q_neg((a0, a1)) == (-a0, a1),
{
}

pub proof fn lemma_q_eq_eval(a0: int, a1: int, b0: int, b1: int)
    ensures
        q_eq((a0, a1), (b0, b1)) == (a0 * b1 == b0 * a1),
{
}

} // verus!
