//! Affine transform lists and their exact application.
//!
//! A node's transform list is its parent's list with its own operations
//! appended; applying a list to a point runs the operations in reverse
//! list order, so the node's own (most local) operations act first and
//! every enclosing scope acts on the result, outward to the root.

use vstd::prelude::*;

use crate::error::ExtractError;
use crate::rat::{lemma_pos_mul, r_fits, radd, rmul, rsub, Rat};
use crate::vec2::{svwf, SVec2, Vec2};

verus! {

/// One primitive affine operation, with every parameter an exact rational.
///
/// A rotation is carried as the cosine and sine of its angle and a skew
/// as the tangent, since the angles themselves admit no exact rational
/// representation.
#[derive(Clone, Copy, Debug)]
pub enum TransformOp {
    Translate { tx: Rat, ty: Rat },
    Scale { sx: Rat, sy: Rat },
    Rotate { cos: Rat, sin: Rat },
    SkewX { tan: Rat },
    SkewY { tan: Rat },
    Matrix { a: Rat, b: Rat, c: Rat, d: Rat, e: Rat, f: Rat },
}

pub open spec fn op_wf(op: TransformOp) -> bool {
    match op {
        TransformOp::Translate { tx, ty } => tx.wf() && ty.wf(),
        TransformOp::Scale { sx, sy } => sx.wf() && sy.wf(),
        TransformOp::Rotate { cos, sin } => cos.wf() && sin.wf(),
        TransformOp::SkewX { tan } => tan.wf(),
        TransformOp::SkewY { tan } => tan.wf(),
        TransformOp::Matrix { a, b, c, d, e, f } => a.wf() && b.wf() && c.wf() && d.wf()
            && e.wf() && f.wf(),
    }
}

/// The exact effect of one operation on a point.
pub open spec fn apply_op(op: TransformOp, p: SVec2) -> SVec2 {
    match op {
        TransformOp::Translate { tx, ty } => SVec2 { x: radd(p.x, tx@), y: radd(p.y, ty@) },
        TransformOp::Scale { sx, sy } => SVec2 { x: rmul(p.x, sx@), y: rmul(p.y, sy@) },
        TransformOp::Rotate { cos, sin } => SVec2 {
            x: rsub(rmul(p.x, cos@), rmul(p.y, sin@)),
            y: radd(rmul(p.x, sin@), rmul(p.y, cos@)),
        },
        TransformOp::SkewX { tan } => SVec2 { x: radd(p.x, rmul(p.y, tan@)), y: p.y },
        TransformOp::SkewY { tan } => SVec2 { x: p.x, y: radd(rmul(p.x, tan@), p.y) },
        TransformOp::Matrix { a, b, c, d, e, f } => SVec2 {
            x: radd(radd(rmul(p.x, a@), rmul(p.y, c@)), e@),
            y: radd(radd(rmul(p.x, b@), rmul(p.y, d@)), f@),
        },
    }
}

/// Do all intermediates of one operation fit the representation?
pub open spec fn apply_op_fits(op: TransformOp, p: SVec2) -> bool {
    match op {
        TransformOp::Translate { tx, ty } => r_fits(radd(p.x, tx@)) && r_fits(radd(p.y, ty@)),
        TransformOp::Scale { sx, sy } => r_fits(rmul(p.x, sx@)) && r_fits(rmul(p.y, sy@)),
        TransformOp::Rotate { cos, sin } => r_fits(rmul(p.x, cos@)) && r_fits(rmul(p.y, sin@))
            && r_fits(rsub(rmul(p.x, cos@), rmul(p.y, sin@))) && r_fits(rmul(p.x, sin@))
            && r_fits(rmul(p.y, cos@)) && r_fits(radd(rmul(p.x, sin@), rmul(p.y, cos@))),
        TransformOp::SkewX { tan } => r_fits(rmul(p.y, tan@)) && r_fits(
            radd(p.x, rmul(p.y, tan@)),
        ),
        TransformOp::SkewY { tan } => r_fits(rmul(p.x, tan@)) && r_fits(
            radd(rmul(p.x, tan@), p.y),
        ),
        TransformOp::Matrix { a, b, c, d, e, f } => r_fits(rmul(p.x, a@)) && r_fits(
            rmul(p.y, c@),
        ) && r_fits(radd(rmul(p.x, a@), rmul(p.y, c@))) && r_fits(
            radd(radd(rmul(p.x, a@), rmul(p.y, c@)), e@),
        ) && r_fits(rmul(p.x, b@)) && r_fits(rmul(p.y, d@)) && r_fits(
            radd(rmul(p.x, b@), rmul(p.y, d@)),
        ) && r_fits(radd(radd(rmul(p.x, b@), rmul(p.y, d@)), f@)),
    }
}

pub open spec fn ops_wf(ops: Seq<TransformOp>) -> bool {
    forall|i: int| 0 <= i < ops.len() ==> op_wf(#[trigger] ops[i])
}

/// Apply the operations with index at least `i`, most local first:
/// `ops[i]` acts on the result of applying `ops[i+1..]`.
pub open spec fn apply_from(ops: Seq<TransformOp>, i: int, p: SVec2) -> SVec2
    decreases ops.len() - i,
{
    if i < 0 || i >= ops.len() {
        p
    } else {
        apply_op(ops[i], apply_from(ops, i + 1, p))
    }
}

/// Do all intermediates of applying `ops[i..]` fit the representation?
pub open spec fn apply_from_fits(ops: Seq<TransformOp>, i: int, p: SVec2) -> bool
    decreases ops.len() - i,
{
    if i < 0 || i >= ops.len() {
        true
    } else {
        apply_from_fits(ops, i + 1, p) && apply_op_fits(ops[i], apply_from(ops, i + 1, p))
    }
}

/// The exact effect of a whole transform list on a point.
pub open spec fn apply_ops(ops: Seq<TransformOp>, p: SVec2) -> SVec2 {
    apply_from(ops, 0, p)
}

pub proof fn lemma_apply_op_wf(op: TransformOp, p: SVec2)
    requires
        op_wf(op),
        svwf(p),
    ensures
        svwf(apply_op(op, p)),
{
    match op {
        TransformOp::Translate { tx, ty } => {
            lemma_pos_mul(p.x.d, tx@.d);
            lemma_pos_mul(p.y.d, ty@.d);
        },
        TransformOp::Scale { sx, sy } => {
            lemma_pos_mul(p.x.d, sx@.d);
            lemma_pos_mul(p.y.d, sy@.d);
        },
        TransformOp::Rotate { cos, sin } => {
            lemma_pos_mul(p.x.d, cos@.d);
            lemma_pos_mul(p.y.d, sin@.d);
            lemma_pos_mul(p.x.d * cos@.d, p.y.d * sin@.d);
            lemma_pos_mul(p.x.d, sin@.d);
            lemma_pos_mul(p.y.d, cos@.d);
            lemma_pos_mul(p.x.d * sin@.d, p.y.d * cos@.d);
        },
        TransformOp::SkewX { tan } => {
            lemma_pos_mul(p.y.d, tan@.d);
            lemma_pos_mul(p.x.d, p.y.d * tan@.d);
        },
        TransformOp::SkewY { tan } => {
            lemma_pos_mul(p.x.d, tan@.d);
            lemma_pos_mul(p.x.d * tan@.d, p.y.d);
        },
        TransformOp::Matrix { a, b, c, d, e, f } => {
            lemma_pos_mul(p.x.d, a@.d);
            lemma_pos_mul(p.y.d, c@.d);
            lemma_pos_mul(p.x.d * a@.d, p.y.d * c@.d);
            lemma_pos_mul((p.x.d * a@.d) * (p.y.d * c@.d), e@.d);
            lemma_pos_mul(p.x.d, b@.d);
            lemma_pos_mul(p.y.d, d@.d);
            lemma_pos_mul(p.x.d * b@.d, p.y.d * d@.d);
            lemma_pos_mul((p.x.d * b@.d) * (p.y.d * d@.d), f@.d);
        },
    }
}

/// If applying `ops[j..]` overflows nowhere, neither does applying the
/// shorter suffix `ops[i..]`.
proof fn lemma_apply_from_fits_suffix(ops: Seq<TransformOp>, j: int, i: int, p: SVec2)
    requires
        0 <= j <= i,
    ensures
        apply_from_fits(ops, j, p) ==> apply_from_fits(ops, i, p),
    decreases i - j,
{
    if j < i {
        lemma_apply_from_fits_suffix(ops, j + 1, i, p);
    }
}

/// Apply one operation executably; `None` exactly when an intermediate
/// does not fit.
fn apply_op_exec(op: &TransformOp, p: &Vec2) -> (r: Option<Vec2>)
    requires
        op_wf(*op),
        p.wf(),
    ensures
        r matches Some(v) ==> v.wf() && v@ == apply_op(*op, p@),
        r is Some <==> apply_op_fits(*op, p@),
{
    proof {
        lemma_apply_op_wf(*op, p@);
    }
    match op {
        TransformOp::Translate { tx, ty } => {
            let x = match p.x.add(tx) {
                Some(v) => v,
                None => { return None; },
            };
            let y = match p.y.add(ty) {
                Some(v) => v,
                None => { return None; },
            };
            Some(Vec2 { x, y })
        },
        TransformOp::Scale { sx, sy } => {
            let x = match p.x.mul(sx) {
                Some(v) => v,
                None => { return None; },
            };
            let y = match p.y.mul(sy) {
                Some(v) => v,
                None => { return None; },
            };
            Some(Vec2 { x, y })
        },
        TransformOp::Rotate { cos, sin } => {
            let xc = match p.x.mul(cos) {
                Some(v) => v,
                None => { return None; },
            };
            let ys = match p.y.mul(sin) {
                Some(v) => v,
                None => { return None; },
            };
            let x = match xc.sub(&ys) {
                Some(v) => v,
                None => { return None; },
            };
            let xs = match p.x.mul(sin) {
                Some(v) => v,
                None => { return None; },
            };
            let yc = match p.y.mul(cos) {
                Some(v) => v,
                None => { return None; },
            };
            let y = match xs.add(&yc) {
                Some(v) => v,
                None => { return None; },
            };
            Some(Vec2 { x, y })
        },
        TransformOp::SkewX { tan } => {
            let yt = match p.y.mul(tan) {
                Some(v) => v,
                None => { return None; },
            };
            let x = match p.x.add(&yt) {
                Some(v) => v,
                None => { return None; },
            };
            Some(Vec2 { x, y: p.y })
        },
        TransformOp::SkewY { tan } => {
            let xt = match p.x.mul(tan) {
                Some(v) => v,
                None => { return None; },
            };
            let y = match xt.add(&p.y) {
                Some(v) => v,
                None => { return None; },
            };
            Some(Vec2 { x: p.x, y })
        },
        TransformOp::Matrix { a, b, c, d, e, f } => {
            let xa = match p.x.mul(a) {
                Some(v) => v,
                None => { return None; },
            };
            let yc = match p.y.mul(c) {
                Some(v) => v,
                None => { return None; },
            };
            let x0 = match xa.add(&yc) {
                Some(v) => v,
                None => { return None; },
            };
            let x = match x0.add(e) {
                Some(v) => v,
                None => { return None; },
            };
            let xb = match p.x.mul(b) {
                Some(v) => v,
                None => { return None; },
            };
            let yd = match p.y.mul(d) {
                Some(v) => v,
                None => { return None; },
            };
            let y0 = match xb.add(&yd) {
                Some(v) => v,
                None => { return None; },
            };
            let y = match y0.add(f) {
                Some(v) => v,
                None => { return None; },
            };
            Some(Vec2 { x, y })
        },
    }
}

/// An ordered list of primitive affine operations.
#[derive(Clone, Debug)]
pub struct TransformList {
    pub transforms: Vec<TransformOp>,
}

impl TransformList {
    pub open spec fn wf(self) -> bool {
        ops_wf(self.transforms@)
    }

    pub fn from(transforms: Vec<TransformOp>) -> (r: TransformList)
        ensures
            r.transforms@ == transforms@,
    {
        TransformList { transforms }
    }

    /// Map a local point to global space: the operations act in reverse
    /// list order, the last (most local) one first.
    pub fn apply(&self, vec: Vec2) -> (r: Result<Vec2, ExtractError>)
        requires
            self.wf(),
            vec.wf(),
        ensures
            r matches Ok(v) ==> v.wf() && v@ == apply_ops(self.transforms@, vec@),
            r is Ok <==> apply_from_fits(self.transforms@, 0, vec@),
            r is Err ==> r == Err::<Vec2, ExtractError>(ExtractError::Overflow),
    {
        let ghost ops = self.transforms@;
        let mut acc = vec;
        let mut i: usize = self.transforms.len();
        while i > 0
            invariant
                0 <= i <= ops.len(),
                ops == self.transforms@,
                ops_wf(ops),
                vec.wf(),
                acc.wf(),
                acc@ == apply_from(ops, i as int, vec@),
                apply_from_fits(ops, i as int, vec@),
            decreases i,
        {
            i = i - 1;
            let next = match apply_op_exec(&self.transforms[i], &acc) {
                Some(v) => v,
                None => {
                    proof {
                        lemma_apply_from_fits_suffix(ops, 0, i as int, vec@);
                    }
                    return Err(ExtractError::Overflow);
                },
            };
            acc = next;
        }
        Ok(acc)
    }

    /// Append `list`'s operations at the end, draining `list`; the
    /// appended operations are the more local ones.
    pub fn append(&mut self, list: &mut TransformList)
        ensures
            final(self).transforms@ == old(self).transforms@ + old(list).transforms@,
            final(list).transforms@ == Seq::<TransformOp>::empty(),
    {
        self.transforms.append(&mut list.transforms);
    }
}

impl Default for TransformList {
    /// The identity transform: no operations.
    fn default() -> (r: TransformList)
        ensures
            r.transforms@ == Seq::<TransformOp>::empty(),
    {
        TransformList { transforms: Vec::new() }
    }
}

} // verus!
