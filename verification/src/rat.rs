//! Exact rational numbers over machine integers.
//!
//! Every coordinate handled by this crate is an exact rational `num / den`
//! with a positive denominator.  Operations compute the exact mathematical
//! result in wide intermediates and return `None` when the result does not
//! fit the `i64` representation, so no operation ever silently rounds.

use vstd::prelude::*;

verus! {

/// Mathematical (unbounded) rational, used in specifications only.
pub ghost struct SRat {
    pub n: int,
    pub d: int,
}

/// Well-formed specification rational: positive denominator.
pub open spec fn swf(a: SRat) -> bool {
    a.d > 0
}

/// Value equality of two rationals (valid when both are well formed).
pub open spec fn r_eq(a: SRat, b: SRat) -> bool {
    a.n * b.d == b.n * a.d
}

/// `a <= b` as rational values (valid when both are well formed).
pub open spec fn r_le(a: SRat, b: SRat) -> bool {
    a.n * b.d <= b.n * a.d
}

/// `a < b` as rational values (valid when both are well formed).
pub open spec fn r_lt(a: SRat, b: SRat) -> bool {
    a.n * b.d < b.n * a.d
}

pub open spec fn r_of_int(k: int) -> SRat {
    SRat { n: k, d: 1 }
}

pub open spec fn radd(a: SRat, b: SRat) -> SRat {
    SRat { n: a.n * b.d + b.n * a.d, d: a.d * b.d }
}

pub open spec fn rsub(a: SRat, b: SRat) -> SRat {
    SRat { n: a.n * b.d - b.n * a.d, d: a.d * b.d }
}

pub open spec fn rmul(a: SRat, b: SRat) -> SRat {
    SRat { n: a.n * b.n, d: a.d * b.d }
}

/// Division, with the sign moved into the numerator so that the
/// result is well formed whenever `a` and `b` are and `b.n != 0`.
pub open spec fn rdiv(a: SRat, b: SRat) -> SRat {
    if b.n < 0 {
        SRat { n: -(a.n * b.d), d: -(a.d * b.n) }
    } else {
        SRat { n: a.n * b.d, d: a.d * b.n }
    }
}

/// Clamp a well-formed rational to `[0, 1]`.
pub open spec fn r_clamp01(a: SRat) -> SRat {
    if a.n <= 0 {
        r_of_int(0)
    } else if a.n >= a.d {
        r_of_int(1)
    } else {
        a
    }
}

/// Does an unbounded rational fit the executable representation?
pub open spec fn in_i64(x: int) -> bool {
    i64::MIN <= x <= i64::MAX
}

pub open spec fn r_fits(a: SRat) -> bool {
    in_i64(a.n) && in_i64(a.d)
}

/// An exact rational number `num / den`, `den > 0`.
#[derive(Clone, Copy, Debug)]
pub struct Rat {
    pub num: i64,
    pub den: i64,
}

impl View for Rat {
    type V = SRat;

    open spec fn view(&self) -> SRat {
        SRat { n: self.num as int, d: self.den as int }
    }
}

impl Rat {
    /// Representation invariant: positive denominator.
    pub open spec fn wf(self) -> bool {
        swf(self@)
    }

    pub fn new(num: i64, den: i64) -> (r: Rat)
        requires
            den > 0,
        ensures
            r.wf(),
            r@ == (SRat { n: num as int, d: den as int }),
    {
        Rat { num, den }
    }

    pub fn from_int(k: i64) -> (r: Rat)
        ensures
            r.wf(),
            r@ == r_of_int(k as int),
    {
        Rat { num: k, den: 1 }
    }

    pub fn zero() -> (r: Rat)
        ensures
            r.wf(),
            r@ == r_of_int(0),
    {
        Rat { num: 0, den: 1 }
    }

    pub fn one() -> (r: Rat)
        ensures
            r.wf(),
            r@ == r_of_int(1),
    {
        Rat { num: 1, den: 1 }
    }

    /// Exact sum; `None` exactly when the result does not fit.
    pub fn add(&self, other: &Rat) -> (r: Option<Rat>)
        requires
            self.wf(),
            other.wf(),
        ensures
            r matches Some(v) ==> v.wf() && v@ == radd(self@, other@),
            r is Some <==> r_fits(radd(self@, other@)),
    {
        proof {
            lemma_mul_i64_by_pos_bound(self.num as int, other.den as int);
            lemma_mul_i64_by_pos_bound(other.num as int, self.den as int);
            lemma_pos_den_mul_bound(self.den as int, other.den as int);
        }
        let n: i128 = (self.num as i128) * (other.den as i128)
            + (other.num as i128) * (self.den as i128);
        let d: i128 = (self.den as i128) * (other.den as i128);
        Rat::from_parts(n, d)
    }

    /// Exact difference; `None` exactly when the result does not fit.
    pub fn sub(&self, other: &Rat) -> (r: Option<Rat>)
        requires
            self.wf(),
            other.wf(),
        ensures
            r matches Some(v) ==> v.wf() && v@ == rsub(self@, other@),
            r is Some <==> r_fits(rsub(self@, other@)),
    {
        proof {
            lemma_mul_i64_by_pos_bound(self.num as int, other.den as int);
            lemma_mul_i64_by_pos_bound(other.num as int, self.den as int);
            lemma_pos_den_mul_bound(self.den as int, other.den as int);
        }
        let n: i128 = (self.num as i128) * (other.den as i128)
            - (other.num as i128) * (self.den as i128);
        let d: i128 = (self.den as i128) * (other.den as i128);
        Rat::from_parts(n, d)
    }

    /// Exact product; `None` exactly when the result does not fit.
    pub fn mul(&self, other: &Rat) -> (r: Option<Rat>)
        requires
            self.wf(),
            other.wf(),
        ensures
            r matches Some(v) ==> v.wf() && v@ == rmul(self@, other@),
            r is Some <==> r_fits(rmul(self@, other@)),
    {
        proof {
            lemma_mul_i64_bound(self.num as int, other.num as int);
            lemma_pos_den_mul_bound(self.den as int, other.den as int);
        }
        let n: i128 = (self.num as i128) * (other.num as i128);
        let d: i128 = (self.den as i128) * (other.den as i128);
        Rat::from_parts(n, d)
    }

    /// Exact quotient; `None` exactly when the result does not fit.
    pub fn div(&self, other: &Rat) -> (r: Option<Rat>)
        requires
            self.wf(),
            other.wf(),
            other@.n != 0,
        ensures
            r matches Some(v) ==> v.wf() && v@ == rdiv(self@, other@),
            r is Some <==> r_fits(rdiv(self@, other@)),
    {
        proof {
            lemma_mul_i64_by_pos_bound(self.num as int, other.den as int);
            lemma_mul_i64_bound(self.den as int, other.num as int);
        }
        let n0: i128 = (self.num as i128) * (other.den as i128);
        let d0: i128 = (self.den as i128) * (other.num as i128);
        proof {
            lemma_mul_pos_sign(self.den as int, other.num as int);
        }
        if d0 < 0 {
            Rat::from_parts(-n0, -d0)
        } else {
            Rat::from_parts(n0, d0)
        }
    }

    /// Pack exact wide parts back into the `i64` representation.
    fn from_parts(n: i128, d: i128) -> (r: Option<Rat>)
        requires
            d > 0,
        ensures
            r matches Some(v) ==> v.wf() && v@ == (SRat { n: n as int, d: d as int }),
            r is Some <==> in_i64(n as int) && in_i64(d as int),
    {
        if n >= i64::MIN as i128 && n <= i64::MAX as i128 && d <= i64::MAX as i128 {
            Some(Rat { num: n as i64, den: d as i64 })
        } else {
            None
        }
    }

    /// Exact comparison, always defined.
    pub fn le(&self, other: &Rat) -> (r: bool)
        requires
            self.wf(),
            other.wf(),
        ensures
            r == r_le(self@, other@),
    {
        proof {
            lemma_mul_i64_by_pos_bound(self.num as int, other.den as int);
            lemma_mul_i64_by_pos_bound(other.num as int, self.den as int);
        }
        (self.num as i128) * (other.den as i128) <= (other.num as i128) * (self.den as i128)
    }

    /// Exact strict comparison, always defined.
    pub fn lt(&self, other: &Rat) -> (r: bool)
        requires
            self.wf(),
            other.wf(),
        ensures
            r == r_lt(self@, other@),
    {
        proof {
            lemma_mul_i64_by_pos_bound(self.num as int, other.den as int);
            lemma_mul_i64_by_pos_bound(other.num as int, self.den as int);
        }
        (self.num as i128) * (other.den as i128) < (other.num as i128) * (self.den as i128)
    }

    /// Clamp to `[0, 1]`; exact and always defined.
    pub fn clamp01(&self) -> (r: Rat)
        requires
            self.wf(),
        ensures
            r.wf(),
            r@ == r_clamp01(self@),
    {
        if self.num <= 0 {
            Rat { num: 0, den: 1 }
        } else if self.num >= self.den {
            Rat { num: 1, den: 1 }
        } else {
            *self
        }
    }
}

proof fn lemma_mul_i64_bound(x: int, y: int)
    requires
        in_i64(x),
        in_i64(y),
    ensures
        -0x4000_0000_0000_0000_0000_0000_0000_0000 <= x * y
            <= 0x4000_0000_0000_0000_0000_0000_0000_0000,
{
    assert(-0x4000_0000_0000_0000_0000_0000_0000_0000 <= x * y
        <= 0x4000_0000_0000_0000_0000_0000_0000_0000) by (nonlinear_arith)
        requires
            in_i64(x),
            in_i64(y),
    ;
}

proof fn lemma_mul_i64_by_pos_bound(x: int, y: int)
    requires
        in_i64(x),
        0 < y <= i64::MAX,
    ensures
        -0x3FFF_FFFF_FFFF_FFFF_8000_0000_0000_0000 <= x * y
            <= 0x3FFF_FFFF_FFFF_FFFF_8000_0000_0000_0000,
{
    assert(-0x3FFF_FFFF_FFFF_FFFF_8000_0000_0000_0000 <= x * y
        <= 0x3FFF_FFFF_FFFF_FFFF_8000_0000_0000_0000) by (nonlinear_arith)
        requires
            in_i64(x),
            0 < y <= i64::MAX,
    ;
}

/// A product of positive factors is positive.
pub proof fn lemma_pos_mul(x: int, y: int)
    requires
        x > 0,
        y > 0,
    ensures
        x * y > 0,
{
    assert(x * y > 0) by (nonlinear_arith)
        requires
            x > 0,
            y > 0,
    ;
}

proof fn lemma_mul_pos_sign(x: int, y: int)
    requires
        x > 0,
        y != 0,
    ensures
        x * y != 0,
        (x * y < 0) <==> (y < 0),
{
    assert(x * y != 0 && ((x * y < 0) <==> (y < 0))) by (nonlinear_arith)
        requires
            x > 0,
            y != 0,
    ;
}

proof fn lemma_pos_den_mul_bound(x: int, y: int)
    requires
        0 < x <= i64::MAX,
        0 < y <= i64::MAX,
    ensures
        0 < x * y <= 0x4000_0000_0000_0000_0000_0000_0000_0000,
{
    assert(0 < x * y <= 0x4000_0000_0000_0000_0000_0000_0000_0000) by (nonlinear_arith)
        requires
            0 < x <= i64::MAX,
            0 < y <= i64::MAX,
    ;
}

} // verus!
