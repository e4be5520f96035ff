//! Exact 2D vectors and point-to-segment projection.

use vstd::prelude::*;

use crate::error::ExtractError;
use crate::rat::{
    r_clamp01, r_fits, r_le, r_of_int, radd, rdiv, rmul, rsub, swf, Rat, SRat,
};

verus! {

/// Mathematical 2D vector, used in specifications only.
pub ghost struct SVec2 {
    pub x: SRat,
    pub y: SRat,
}

pub open spec fn svwf(v: SVec2) -> bool {
    swf(v.x) && swf(v.y)
}

pub open spec fn vadd(a: SVec2, b: SVec2) -> SVec2 {
    SVec2 { x: radd(a.x, b.x), y: radd(a.y, b.y) }
}

pub open spec fn vsub(a: SVec2, b: SVec2) -> SVec2 {
    SVec2 { x: rsub(a.x, b.x), y: rsub(a.y, b.y) }
}

pub open spec fn vscale(v: SVec2, t: SRat) -> SVec2 {
    SVec2 { x: rmul(v.x, t), y: rmul(v.y, t) }
}

pub open spec fn vdot(a: SVec2, b: SVec2) -> SRat {
    radd(rmul(a.x, b.x), rmul(a.y, b.y))
}

pub open spec fn vmod_sqr(a: SVec2) -> SRat {
    vdot(a, a)
}

/// Squared distance between two points.
pub open spec fn vdist_sqr(a: SVec2, b: SVec2) -> SRat {
    vmod_sqr(vsub(b, a))
}

/// The clamped interpolation parameter of the projection of `p`
/// onto the segment from `a` to `b` (defined when the segment is
/// not degenerate).
pub open spec fn project_t(p: SVec2, a: SVec2, b: SVec2) -> SRat {
    r_clamp01(rdiv(vdot(vsub(p, a), vsub(b, a)), vmod_sqr(vsub(b, a))))
}

/// The projected point `a + t * (b - a)`.
pub open spec fn project_point(p: SVec2, a: SVec2, b: SVec2) -> SVec2 {
    vadd(vscale(vsub(b, a), project_t(p, a, b)), a)
}

/// Success condition of the executable projection: the segment is not
/// degenerate and every intermediate fits the representation.
pub open spec fn project_fits(p: SVec2, a: SVec2, b: SVec2) -> bool {
    let v = vsub(b, a);
    let vv = vdot(v, v);
    let w = vsub(p, a);
    let wv = vdot(w, v);
    let t = r_clamp01(rdiv(wv, vv));
    &&& vsub_fits(b, a)
    &&& vdot_fits(v, v)
    &&& vv.n != 0
    &&& vsub_fits(p, a)
    &&& vdot_fits(w, v)
    &&& r_fits(rdiv(wv, vv))
    &&& vscale_fits(v, t)
    &&& vadd_fits(vscale(v, t), a)
}

/// The sequence of mathematical values of a sequence of points.
pub open spec fn sviews(s: Seq<Vec2>) -> Seq<SVec2> {
    Seq::new(s.len(), |i: int| s[i]@)
}

/// An exact 2D point or vector in global coordinates.
#[derive(Clone, Copy, Debug)]
pub struct Vec2 {
    pub x: Rat,
    pub y: Rat,
}

impl View for Vec2 {
    type V = SVec2;

    open spec fn view(&self) -> SVec2 {
        SVec2 { x: self.x@, y: self.y@ }
    }
}

pub open spec fn vadd_fits(a: SVec2, b: SVec2) -> bool {
    r_fits(radd(a.x, b.x)) && r_fits(radd(a.y, b.y))
}

pub open spec fn vsub_fits(a: SVec2, b: SVec2) -> bool {
    r_fits(rsub(a.x, b.x)) && r_fits(rsub(a.y, b.y))
}

pub open spec fn vscale_fits(v: SVec2, t: SRat) -> bool {
    r_fits(rmul(v.x, t)) && r_fits(rmul(v.y, t))
}

pub open spec fn vdot_fits(a: SVec2, b: SVec2) -> bool {
    r_fits(rmul(a.x, b.x)) && r_fits(rmul(a.y, b.y)) && r_fits(vdot(a, b))
}

impl Vec2 {
    pub open spec fn wf(self) -> bool {
        svwf(self@)
    }

    pub fn new(x: Rat, y: Rat) -> (r: Vec2)
        requires
            x.wf(),
            y.wf(),
        ensures
            r.wf(),
            r@ == (SVec2 { x: x@, y: y@ }),
    {
        Vec2 { x, y }
    }

    /// Componentwise sum; `None` exactly when a component does not fit.
    pub fn add(&self, other: &Vec2) -> (r: Option<Vec2>)
        requires
            self.wf(),
            other.wf(),
        ensures
            r matches Some(v) ==> v.wf() && v@ == vadd(self@, other@),
            r is Some <==> vadd_fits(self@, other@),
    {
        let x = match self.x.add(&other.x) {
            Some(x) => x,
            None => { return None; },
        };
        let y = match self.y.add(&other.y) {
            Some(y) => y,
            None => { return None; },
        };
        Some(Vec2 { x, y })
    }

    /// Componentwise difference; `None` exactly when a component does not fit.
    pub fn subtract(&self, other: &Vec2) -> (r: Option<Vec2>)
        requires
            self.wf(),
            other.wf(),
        ensures
            r matches Some(v) ==> v.wf() && v@ == vsub(self@, other@),
            r is Some <==> vsub_fits(self@, other@),
    {
        let x = match self.x.sub(&other.x) {
            Some(x) => x,
            None => { return None; },
        };
        let y = match self.y.sub(&other.y) {
            Some(y) => y,
            None => { return None; },
        };
        Some(Vec2 { x, y })
    }

    /// Componentwise scaling; `None` exactly when a component does not fit.
    pub fn scale(&self, factor: &Rat) -> (r: Option<Vec2>)
        requires
            self.wf(),
            factor.wf(),
        ensures
            r matches Some(v) ==> v.wf() && v@ == vscale(self@, factor@),
            r is Some <==> vscale_fits(self@, factor@),
    {
        let x = match self.x.mul(factor) {
            Some(x) => x,
            None => { return None; },
        };
        let y = match self.y.mul(factor) {
            Some(y) => y,
            None => { return None; },
        };
        Some(Vec2 { x, y })
    }

    /// Exact dot product; `None` exactly when an intermediate does not fit.
    pub fn dot(&self, other: &Vec2) -> (r: Option<Rat>)
        requires
            self.wf(),
            other.wf(),
        ensures
            r matches Some(v) ==> v.wf() && v@ == vdot(self@, other@),
            r is Some <==> vdot_fits(self@, other@),
    {
        let xx = match self.x.mul(&other.x) {
            Some(v) => v,
            None => { return None; },
        };
        let yy = match self.y.mul(&other.y) {
            Some(v) => v,
            None => { return None; },
        };
        xx.add(&yy)
    }

    /// Exact squared length.
    pub fn modulus_sqr(&self) -> (r: Option<Rat>)
        requires
            self.wf(),
        ensures
            r matches Some(v) ==> v.wf() && v@ == vmod_sqr(self@) && v@.n >= 0,
            r is Some <==> vdot_fits(self@, self@),
    {
        proof {
            lemma_mod_sqr_nonneg(self@);
        }
        self.dot(self)
    }

    /// Exact squared distance to `other`.
    pub fn distance_sqr(&self, other: &Vec2) -> (r: Option<Rat>)
        requires
            self.wf(),
            other.wf(),
        ensures
            r matches Some(v) ==> v.wf() && v@ == vdist_sqr(self@, other@) && v@.n >= 0,
            r is Some <==> vsub_fits(other@, self@) && vdot_fits(
                vsub(other@, self@),
                vsub(other@, self@),
            ),
    {
        let diff = match other.subtract(self) {
            Some(v) => v,
            None => { return None; },
        };
        diff.modulus_sqr()
    }

    /// Project `self` onto the segment from `p1` to `p2`; returns the
    /// projected point and the clamped parameter `t` of the position
    /// along the segment.
    pub fn project_line_segment(&self, p1: &Vec2, p2: &Vec2) -> (r: Result<
        (Vec2, Rat),
        ExtractError,
    >)
        requires
            self.wf(),
            p1.wf(),
            p2.wf(),
        ensures
            r matches Ok(v) ==> {
                &&& v.0.wf()
                &&& v.1.wf()
                &&& v.1@ == project_t(self@, p1@, p2@)
                &&& v.0@ == project_point(self@, p1@, p2@)
                &&& r_le(r_of_int(0), v.1@)
                &&& r_le(v.1@, r_of_int(1))
            },
            r is Ok <==> project_fits(self@, p1@, p2@),
            r matches Err(e) ==> (e == ExtractError::DegenerateSegment || e
                == ExtractError::Overflow),
            r == Err::<(Vec2, Rat), ExtractError>(ExtractError::DegenerateSegment) ==> vmod_sqr(
                vsub(p2@, p1@),
            ).n == 0,
    {
        let v = match p2.subtract(p1) {
            Some(v) => v,
            None => { return Err(ExtractError::Overflow); },
        };
        let vv = match v.modulus_sqr() {
            Some(v) => v,
            None => { return Err(ExtractError::Overflow); },
        };
        if vv.num == 0 {
            return Err(ExtractError::DegenerateSegment);
        }
        let w = match self.subtract(p1) {
            Some(v) => v,
            None => { return Err(ExtractError::Overflow); },
        };
        let wv = match w.dot(&v) {
            Some(v) => v,
            None => { return Err(ExtractError::Overflow); },
        };
        let t_raw = match wv.div(&vv) {
            Some(v) => v,
            None => { return Err(ExtractError::Overflow); },
        };
        let t = t_raw.clamp01();
        proof {
            lemma_clamp01_in_unit(rdiv(wv@, vv@));
        }
        let scaled = match v.scale(&t) {
            Some(v) => v,
            None => { return Err(ExtractError::Overflow); },
        };
        let point = match scaled.add(p1) {
            Some(v) => v,
            None => { return Err(ExtractError::Overflow); },
        };
        Ok((point, t))
    }
}

/// A squared length is never negative.
pub proof fn lemma_mod_sqr_nonneg(v: SVec2)
    requires
        svwf(v),
    ensures
        vmod_sqr(v).n >= 0,
        swf(vmod_sqr(v)),
{
    assert(v.x.n * v.x.n * (v.y.d * v.y.d) + v.y.n * v.y.n * (v.x.d * v.x.d) >= 0)
        by (nonlinear_arith);
    assert(v.x.d * v.x.d * (v.y.d * v.y.d) > 0) by (nonlinear_arith)
        requires
            v.x.d > 0,
            v.y.d > 0,
    ;
}

/// The clamped parameter always lies in the unit interval.
pub proof fn lemma_clamp01_in_unit(a: SRat)
    requires
        swf(a),
    ensures
        swf(r_clamp01(a)),
        r_le(r_of_int(0), r_clamp01(a)),
        r_le(r_clamp01(a), r_of_int(1)),
{
}

} // verus!
