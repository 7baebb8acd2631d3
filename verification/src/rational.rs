//! Exact rational numbers with checked 64-bit coefficients.
//!
//! [`Ratio`] is the carrier of every metric in this crate: a numerator and a
//! positive denominator, both `i64`. Arithmetic is exact and checked — an
//! operation whose exact result has a numerator or denominator outside the
//! 64-bit coefficient range returns `None` instead of rounding, so any value
//! the library hands back is the true rational it claims to be.

use vstd::prelude::*;

verus! {

/// The mathematical value of a rational: an unbounded numerator over a
/// positive unbounded denominator. Two values denote the same rational
/// exactly when their cross products agree ([`rat_eq`]).
pub struct Rat {
    pub n: int,
    pub d: int,
}

/// A well-formed rational value keeps its denominator positive.
pub open spec fn rat_wf(a: Rat) -> bool {
    a.d >= 1
}

/// The rational i/1.
pub open spec fn rat_from_int(i: int) -> Rat {
    Rat { n: i, d: 1 }
}

pub open spec fn rat_zero() -> Rat {
    rat_from_int(0)
}

pub open spec fn rat_one() -> Rat {
    rat_from_int(1)
}

/// a/b and c/d denote the same rational: a·d == c·b.
pub open spec fn rat_eq(a: Rat, b: Rat) -> bool {
    a.n * b.d == b.n * a.d
}

/// a/b <= c/d as rationals (for well-formed values): a·d <= c·b.
pub open spec fn rat_le(a: Rat, b: Rat) -> bool {
    a.n * b.d <= b.n * a.d
}

/// The value is exactly zero.
pub open spec fn rat_is_zero(a: Rat) -> bool {
    a.n == 0
}

pub open spec fn rat_add(a: Rat, b: Rat) -> Rat {
    Rat { n: a.n * b.d + b.n * a.d, d: a.d * b.d }
}

pub open spec fn rat_sub(a: Rat, b: Rat) -> Rat {
    Rat { n: a.n * b.d - b.n * a.d, d: a.d * b.d }
}

pub open spec fn rat_mul(a: Rat, b: Rat) -> Rat {
    Rat { n: a.n * b.n, d: a.d * b.d }
}

/// (a/b) / (c/d) = (a·d) / (b·c), with the sign moved into the numerator
/// so that a division by a negative value keeps the denominator positive.
/// Division by zero leaves a zero denominator, which no well-formed value
/// has; the executable operations report `None` there.
pub open spec fn rat_div(a: Rat, b: Rat) -> Rat {
    if b.n < 0 {
        Rat { n: -(a.n * b.d), d: -(a.d * b.n) }
    } else {
        Rat { n: a.n * b.d, d: a.d * b.n }
    }
}

pub open spec fn rat_abs(a: Rat) -> Rat {
    if a.n < 0 {
        Rat { n: -a.n, d: a.d }
    } else {
        a
    }
}

/// Largest magnitude a stored coefficient may take. The range is symmetric,
/// so the absolute value of a representable rational is always representable.
pub const COEFF_MAX: i64 = 0x7fff_ffff_ffff_ffff;

/// The value can be stored in a [`Ratio`]: both coefficients lie within the
/// symmetric 64-bit range and the denominator is positive.
pub open spec fn rat_fits(a: Rat) -> bool {
    &&& -(COEFF_MAX as int) <= a.n <= COEFF_MAX as int
    &&& 1 <= a.d <= COEFF_MAX as int
}

/// A product of two factors that are at least one is at least either factor.
pub proof fn lemma_mul_pos(x: int, y: int) by (nonlinear_arith)
    requires
        1 <= x,
        1 <= y,
    ensures
        x <= x * y,
        y <= x * y,
{
}

/// A square is nonnegative.
pub proof fn lemma_square_nonneg(x: int) by (nonlinear_arith)
    ensures
        0 <= x * x,
{
}

/// Multiplying both sides of an equation by the same factor keeps it.
pub proof fn lemma_mul_both(a: int, b: int, c: int) by (nonlinear_arith)
    requires
        a == b,
    ensures
        a * c == b * c,
{
}

/// A common positive factor can be cancelled from an equation.
pub proof fn lemma_mul_cancel(x: int, y: int, c: int) by (nonlinear_arith)
    requires
        1 <= c,
        x * c == y * c,
    ensures
        x == y,
{
}

/// Dividing a well-formed value by a nonzero well-formed value keeps the
/// denominator positive.
pub proof fn lemma_rat_div_wf(a: Rat, b: Rat)
    requires
        rat_wf(a),
        rat_wf(b),
        b.n != 0,
    ensures
        rat_wf(rat_div(a, b)),
{
    if b.n < 0 {
        lemma_mul_pos(a.d, -b.n);
        assert(a.d * (-b.n) == -(a.d * b.n)) by (nonlinear_arith);
    } else {
        lemma_mul_pos(a.d, b.n);
    }
}

/// A product of nonnegative factors is nonnegative.
pub proof fn lemma_mul_nonneg(x: int, y: int) by (nonlinear_arith)
    requires
        0 <= x,
        0 <= y,
    ensures
        0 <= x * y,
{
}

/// Bounds for a product of two 64-bit values.
proof fn lemma_prod_range(x: int, y: int) by (nonlinear_arith)
    requires
        -0x8000_0000_0000_0000 <= x <= 0x7fff_ffff_ffff_ffff,
        -0x8000_0000_0000_0000 <= y <= 0x7fff_ffff_ffff_ffff,
    ensures
        -(0x8000_0000_0000_0000 * 0x8000_0000_0000_0000) <= x * y,
        x * y <= 0x8000_0000_0000_0000 * 0x8000_0000_0000_0000,
{
}

/// Tighter bounds for a product whose second factor is a denominator
/// (positive): two such products can be added without leaving 128 bits.
proof fn lemma_prod_den_range(x: int, y: int) by (nonlinear_arith)
    requires
        -0x8000_0000_0000_0000 <= x <= 0x7fff_ffff_ffff_ffff,
        1 <= y <= 0x7fff_ffff_ffff_ffff,
    ensures
        -(0x8000_0000_0000_0000 * 0x7fff_ffff_ffff_ffff) <= x * y,
        x * y <= 0x7fff_ffff_ffff_ffff * 0x7fff_ffff_ffff_ffff,
{
}

/// An exact rational number: `num / den` with `den >= 1`.
///
/// Values are produced by the constructors and the checked operations, all
/// of which keep the denominator positive. The checked operations return
/// `None` whenever the exact result would not fit the coefficient range;
/// they never round.
#[derive(Clone, Copy)]
pub struct Ratio {
    num: i64,
    den: i64,
}

impl View for Ratio {
    type V = Rat;

    closed spec fn view(&self) -> Rat {
        Rat { n: self.num as int, d: self.den as int }
    }
}

impl Ratio {
    /// The denominator is positive; every constructor establishes this and
    /// every operation preserves it.
    pub open spec fn wf(self) -> bool {
        rat_wf(self@)
    }

    /// Store an exact value computed in 128 bits, or report that it does
    /// not fit the coefficient range.
    fn fit(n: i128, d: i128) -> (r: Option<Ratio>)
        requires
            1 <= d,
        ensures
            r matches Some(s) ==> s.wf() && s@ == (Rat { n: n as int, d: d as int }),
            r is Some <==> rat_fits((Rat { n: n as int, d: d as int })),
    {
        let lo: i128 = -(COEFF_MAX as i128);
        let hi: i128 = COEFF_MAX as i128;
        if lo <= n && n <= hi && d <= hi {
            Some(Ratio { num: n as i64, den: d as i64 })
        } else {
            None
        }
    }

    /// The rational v/1.
    pub fn from_i64(v: i64) -> (r: Ratio)
        ensures
            r.wf(),
            r@ == rat_from_int(v as int),
    {
        Ratio { num: v, den: 1 }
    }

    /// The rational 0/1.
    pub fn zero() -> (r: Ratio)
        ensures
            r.wf(),
            r@ == rat_zero(),
    {
        Ratio::from_i64(0)
    }

    /// The rational 1/1.
    pub fn one() -> (r: Ratio)
        ensures
            r.wf(),
            r@ == rat_one(),
    {
        Ratio::from_i64(1)
    }

    /// The rational v/1, or `None` when v exceeds the coefficient range.
    pub fn from_usize(v: usize) -> (r: Option<Ratio>)
        ensures
            r matches Some(s) ==> s.wf() && s@ == rat_from_int(v as int),
            r is Some <==> v as int <= COEFF_MAX as int,
    {
        if v as u64 <= COEFF_MAX as u64 {
            Some(Ratio { num: v as i64, den: 1 })
        } else {
            None
        }
    }

    /// The rational num/den. `None` when den is zero, or when den is
    /// negative and moving the sign into the numerator leaves 64 bits.
    pub fn new(num: i64, den: i64) -> (r: Option<Ratio>)
        ensures
            den == 0 ==> r is None,
            den > 0 ==> (r matches Some(s) && s@ == (Rat { n: num as int, d: den as int })),
            den < 0 ==> (r is Some <==> (num != i64::MIN && den != i64::MIN)),
            den < 0 ==> (r matches Some(s) ==> s@ == (Rat { n: -(num as int), d: -(den as int) })),
            r matches Some(s) ==> s.wf() && rat_eq(s@, (Rat { n: num as int, d: den as int })),
    {
        if den == 0 {
            None
        } else if den > 0 {
            Some(Ratio { num, den })
        } else if num == i64::MIN || den == i64::MIN {
            None
        } else {
            proof {
                assert((-(num as int)) * (den as int) == (num as int) * (-(den as int)))
                    by (nonlinear_arith);
            }
            Some(Ratio { num: -num, den: -den })
        }
    }

    /// The stored numerator.
    pub fn numerator(&self) -> (r: i64)
        ensures
            r as int == self@.n,
    {
        self.num
    }

    /// The stored denominator.
    pub fn denominator(&self) -> (r: i64)
        ensures
            r as int == self@.d,
    {
        self.den
    }

    /// The value is exactly zero.
    pub fn is_zero(&self) -> (r: bool)
        ensures
            r == rat_is_zero(self@),
    {
        self.num == 0
    }

    /// Value equality: the two sides denote the same rational.
    pub fn eq_value(&self, other: &Ratio) -> (r: bool)
        requires
            self.wf(),
            other.wf(),
        ensures
            r == rat_eq(self@, other@),
    {
        proof {
            lemma_prod_den_range(self.num as int, other.den as int);
            lemma_prod_den_range(other.num as int, self.den as int);
        }
        (self.num as i128) * (other.den as i128) == (other.num as i128) * (self.den as i128)
    }

    /// Value order: `self` is at most `other` as rationals.
    pub fn le_value(&self, other: &Ratio) -> (r: bool)
        requires
            self.wf(),
            other.wf(),
        ensures
            r == rat_le(self@, other@),
    {
        proof {
            lemma_prod_den_range(self.num as int, other.den as int);
            lemma_prod_den_range(other.num as int, self.den as int);
        }
        (self.num as i128) * (other.den as i128) <= (other.num as i128) * (self.den as i128)
    }

    /// Exact sum, or `None` when it does not fit the coefficient range.
    pub fn checked_add(&self, other: &Ratio) -> (r: Option<Ratio>)
        requires
            self.wf(),
            other.wf(),
        ensures
            r matches Some(s) ==> s.wf() && s@ == rat_add(self@, other@),
            r is Some <==> rat_fits(rat_add(self@, other@)),
    {
        let a = self.num as i128;
        let b = self.den as i128;
        let c = other.num as i128;
        let d = other.den as i128;
        proof {
            lemma_prod_den_range(a as int, d as int);
            lemma_prod_den_range(c as int, b as int);
            lemma_prod_den_range(b as int, d as int);
            lemma_mul_pos(b as int, d as int);
        }
        Ratio::fit(a * d + c * b, b * d)
    }

    /// Exact difference, or `None` when it does not fit.
    pub fn checked_sub(&self, other: &Ratio) -> (r: Option<Ratio>)
        requires
            self.wf(),
            other.wf(),
        ensures
            r matches Some(s) ==> s.wf() && s@ == rat_sub(self@, other@),
            r is Some <==> rat_fits(rat_sub(self@, other@)),
    {
        let a = self.num as i128;
        let b = self.den as i128;
        let c = other.num as i128;
        let d = other.den as i128;
        proof {
            lemma_prod_den_range(a as int, d as int);
            lemma_prod_den_range(c as int, b as int);
            lemma_prod_den_range(b as int, d as int);
            lemma_mul_pos(b as int, d as int);
        }
        Ratio::fit(a * d - c * b, b * d)
    }

    /// Exact product, or `None` when it does not fit.
    pub fn checked_mul(&self, other: &Ratio) -> (r: Option<Ratio>)
        requires
            self.wf(),
            other.wf(),
        ensures
            r matches Some(s) ==> s.wf() && s@ == rat_mul(self@, other@),
            r is Some <==> rat_fits(rat_mul(self@, other@)),
    {
        let a = self.num as i128;
        let b = self.den as i128;
        let c = other.num as i128;
        let d = other.den as i128;
        proof {
            lemma_prod_range(a as int, c as int);
            lemma_prod_den_range(b as int, d as int);
            lemma_mul_pos(b as int, d as int);
        }
        Ratio::fit(a * c, b * d)
    }

    /// Exact quotient, or `None` on division by zero or when the result
    /// does not fit.
    pub fn checked_div(&self, other: &Ratio) -> (r: Option<Ratio>)
        requires
            self.wf(),
            other.wf(),
        ensures
            r matches Some(s) ==> s.wf() && s@ == rat_div(self@, other@),
            r is Some <==> (other@.n != 0 && rat_fits(rat_div(self@, other@))),
    {
        if other.num == 0 {
            return None;
        }
        let a = self.num as i128;
        let b = self.den as i128;
        let c = other.num as i128;
        let d = other.den as i128;
        proof {
            lemma_prod_den_range(a as int, d as int);
            lemma_prod_den_range(c as int, b as int);
        }
        if other.num < 0 {
            proof {
                lemma_mul_pos(b as int, -(c as int));
                assert((b as int) * (-(c as int)) == -((b as int) * (c as int)))
                    by (nonlinear_arith);
            }
            Ratio::fit(-(a * d), -(b * c))
        } else {
            proof {
                lemma_mul_pos(b as int, c as int);
            }
            Ratio::fit(a * d, b * c)
        }
    }

    /// Exact absolute value, or `None` only for the one numerator whose
    /// negation leaves 64 bits.
    pub fn checked_abs(&self) -> (r: Option<Ratio>)
        requires
            self.wf(),
        ensures
            r matches Some(s) ==> s.wf() && s@ == rat_abs(self@),
            r is Some <==> rat_fits(rat_abs(self@)),
    {
        if self.num >= 0 {
            Some(*self)
        } else if self.num == i64::MIN {
            None
        } else {
            Some(Ratio { num: -self.num, den: self.den })
        }
    }
}

} // verus!
