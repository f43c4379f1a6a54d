//! Construction of the 4x4 column-major transform matrices that the frame
//! loop uploads every frame: a rotation about the view axis and an
//! orthographic projection, together with the resize policy that picks the
//! projection bounds for a drawable surface.
//!
//! Entries are exact rationals (`Frac`). The trigonometric evaluation of a
//! rotation angle happens at the machine-float boundary outside this
//! library; the constructors here receive the cosine and sine as exact
//! values and are responsible for the layout and sign conventions.

use vstd::prelude::*;

use crate::frac::{
    Frac, Q, lemma_add_sub_fits, lemma_div_fits, lemma_mul_signs, lemma_q_add_eval,
    lemma_q_div_eval, lemma_q_eq_eval, lemma_q_mul_eval, lemma_q_neg_eval, lemma_q_sub_eval,
    q_add, q_div, q_eq, q_le, q_mul, q_neg, q_small, q_sub,
};

verus! {

/// Magnitude bound on the components of each bound handed to
/// `orthographic`, chosen so that every intermediate product fits the
/// machine representation.
pub const ORTHO_BOUND: i128 = 0x4000_0000;

/// Entry `k` (column-major) of the identity matrix.
pub open spec fn ident_q(k: int) -> Q {
    if k % 5 == 0 {
        (1int, 1int)
    } else {
        (0int, 1int)
    }
}

/// Entry `k` (column-major) of the right-handed rotation about the view
/// axis with cosine `c` and sine `s`: columns `[c,s,0,0]`, `[-s,c,0,0]`,
/// `[0,0,1,0]`, `[0,0,0,1]`. A positive angle rotates counter-clockwise
/// when viewed from the positive axis looking toward the origin.
pub open spec fn rot_z_q(k: int, c: Q, s: Q) -> Q {
    if k == 0 {
        c
    } else if k == 1 {
        s
    } else if k == 4 {
        q_neg(s)
    } else if k == 5 {
        c
    } else if k == 10 || k == 15 {
        (1int, 1int)
    } else {
        (0int, 1int)
    }
}

/// Entry `k` (column-major) of the standard orthographic projection for
/// the view volume `[l,r] x [b,t] x [n,f]`: scale on the diagonal,
/// translation in the last column, identity elsewhere.
pub open spec fn ortho_q(k: int, l: Q, r: Q, b: Q, t: Q, n: Q, f: Q) -> Q {
    if k == 0 {
        q_div((2int, 1int), q_sub(r, l))
    } else if k == 5 {
        q_div((2int, 1int), q_sub(t, b))
    } else if k == 10 {
        q_div((-2int, 1int), q_sub(f, n))
    } else if k == 12 {
        q_div(q_neg(q_add(r, l)), q_sub(r, l))
    } else if k == 13 {
        q_div(q_neg(q_add(t, b)), q_sub(t, b))
    } else if k == 14 {
        q_div(q_neg(q_add(f, n)), q_sub(f, n))
    } else if k == 15 {
        (1int, 1int)
    } else {
        (0int, 1int)
    }
}

/// Applies a 4x4 column-major matrix (16 rational entries) to a 4-vector.
pub open spec fn mat_apply(m: Seq<Q>, v: Seq<Q>) -> Seq<Q> {
    Seq::new(
        4,
        |i: int|
            q_add(
                q_add(q_mul(m[i], v[0]), q_mul(m[4 + i], v[1])),
                q_add(q_mul(m[8 + i], v[2]), q_mul(m[12 + i], v[3])),
            ),
    )
}

/// A 4x4 matrix of exact rationals, stored column-major: entry
/// `(column c, row r)` is `e[c * 4 + r]`.
#[derive(Debug)]
pub struct Mat4 {
    pub e: Vec<Frac>,
}

impl Mat4 {
    pub open spec fn wf(self) -> bool {
        &&& self.e@.len() == 16
        &&& forall|k: int| 0 <= k < 16 ==> (#[trigger] self.e@[k]).wf()
    }

    /// The rational model of entry `k` in column-major order.
    pub open spec fn q(self, k: int) -> Q {
        self.e@[k]@
    }

    /// Entry `k` in column-major order.
    pub fn entry(&self, k: usize) -> (r: Frac)
        requires
            self.wf(),
            k < 16,
        ensures
            r == self.e@[k as int],
    {
        self.e[k]
    }

    /// The identity transform.
    pub fn identity() -> (m: Mat4)
        ensures
            m.wf(),
            forall|k: int| 0 <= k < 16 ==> #[trigger] m.q(k) == ident_q(k),
    {
        let zero = Frac::from_int(0);
        let one = Frac::from_int(1);
        let mut e: Vec<Frac> = Vec::new();
        e.push(one);
        e.push(zero);
        e.push(zero);
        e.push(zero);
        e.push(zero);
        e.push(one);
        e.push(zero);
        e.push(zero);
        e.push(zero);
        e.push(zero);
        e.push(one);
        e.push(zero);
        e.push(zero);
        e.push(zero);
        e.push(zero);
        e.push(one);
        let m = Mat4 { e };
        proof {
            assert(m.e@ =~= seq![one, zero, zero, zero, zero, one, zero, zero, zero, zero, one,
                zero, zero, zero, zero, one]);
        }
        m
    }

    /// The rotation about the view axis whose cosine is `cos_a` and whose
    /// sine is `sin_a`.
    pub fn rotation_z(cos_a: Frac, sin_a: Frac) -> (m: Mat4)
        requires
            cos_a.wf(),
            sin_a.wf(),
            sin_a.num != i128::MIN,
        ensures
            m.wf(),
            forall|k: int| 0 <= k < 16 ==> #[trigger] m.q(k) == rot_z_q(k, cos_a@, sin_a@),
    {
        let zero = Frac::from_int(0);
        let one = Frac::from_int(1);
        let neg_sin = sin_a.neg();
        let mut e: Vec<Frac> = Vec::new();
        e.push(cos_a);
        e.push(sin_a);
        e.push(zero);
        e.push(zero);
        e.push(neg_sin);
        e.push(cos_a);
        e.push(zero);
        e.push(zero);
        e.push(zero);
        e.push(zero);
        e.push(one);
        e.push(zero);
        e.push(zero);
        e.push(zero);
        e.push(zero);
        e.push(one);
        let m = Mat4 { e };
        proof {
            assert(m.e@ =~= seq![cos_a, sin_a, zero, zero, neg_sin, cos_a, zero, zero, zero, zero,
                one, zero, zero, zero, zero, one]);
        }
        m
    }

    /// The standard orthographic projection for the view volume
    /// `[left,right] x [bottom,top] x [near,far]`. The caller must keep the
    /// three axis extents distinct; the resize policy below guarantees
    /// that.
    pub fn orthographic(left: Frac, right: Frac, bottom: Frac, top: Frac, near: Frac, far: Frac)
        -> (m: Mat4)
        requires
            left.wf() && right.wf() && bottom.wf() && top.wf() && near.wf() && far.wf(),
            q_small(left@, ORTHO_BOUND as int),
            q_small(right@, ORTHO_BOUND as int),
            q_small(bottom@, ORTHO_BOUND as int),
            q_small(top@, ORTHO_BOUND as int),
            q_small(near@, ORTHO_BOUND as int),
            q_small(far@, ORTHO_BOUND as int),
            !q_eq(left@, right@),
            !q_eq(bottom@, top@),
            !q_eq(near@, far@),
        ensures
            m.wf(),
            forall|k: int|
                0 <= k < 16 ==> q_eq(
                    #[trigger] m.q(k),
                    ortho_q(k, left@, right@, bottom@, top@, near@, far@),
                ),
    {
        let zero = Frac::from_int(0);
        let one = Frac::from_int(1);
        let two = Frac::from_int(2);
        let neg_two = Frac::from_int(-2);
        proof {
            lemma_add_sub_fits(right@, left@, ORTHO_BOUND as int);
            lemma_add_sub_fits(top@, bottom@, ORTHO_BOUND as int);
            lemma_add_sub_fits(far@, near@, ORTHO_BOUND as int);
        }
        let sx = right.sub(left);
        let sy = top.sub(bottom);
        let sz = far.sub(near);
        proof {
            lemma_div_fits(two@, sx@, 2, 0x2000_0000_0000_0000);
            lemma_div_fits(two@, sy@, 2, 0x2000_0000_0000_0000);
            lemma_div_fits(neg_two@, sz@, 2, 0x2000_0000_0000_0000);
        }
        let m0 = two.div(sx);
        let m5 = two.div(sy);
        let m10 = neg_two.div(sz);
        let sumx = right.add(left);
        let sumy = top.add(bottom);
        let sumz = far.add(near);
        let negx = sumx.neg();
        let negy = sumy.neg();
        let negz = sumz.neg();
        proof {
            lemma_div_fits(negx@, sx@, 0x2000_0000_0000_0000, 0x2000_0000_0000_0000);
            lemma_div_fits(negy@, sy@, 0x2000_0000_0000_0000, 0x2000_0000_0000_0000);
            lemma_div_fits(negz@, sz@, 0x2000_0000_0000_0000, 0x2000_0000_0000_0000);
        }
        let tx = negx.div(sx);
        let ty = negy.div(sy);
        let tz = negz.div(sz);
        let mut e: Vec<Frac> = Vec::new();
        e.push(m0);
        e.push(zero);
        e.push(zero);
        e.push(zero);
        e.push(zero);
        e.push(m5);
        e.push(zero);
        e.push(zero);
        e.push(zero);
        e.push(zero);
        e.push(m10);
        e.push(zero);
        e.push(tx);
        e.push(ty);
        e.push(tz);
        e.push(one);
        let m = Mat4 { e };
        proof {
            assert(m.e@ =~= seq![m0, zero, zero, zero, zero, m5, zero, zero, zero, zero, m10, zero,
                tx, ty, tz, one]);
        }
        m
    }
}

/// The view-volume bounds chosen by the resize policy.
pub struct OrthoBounds {
    pub left: Frac,
    pub right: Frac,
    pub bottom: Frac,
    pub top: Frac,
    pub near: Frac,
    pub far: Frac,
}

impl OrthoBounds {
    pub open spec fn wf(self) -> bool {
        &&& self.left.wf() && self.right.wf() && self.bottom.wf() && self.top.wf()
        &&& self.near.wf() && self.far.wf()
    }
}

/// The horizontal bound the resize policy picks for a `w x h` surface.
pub open spec fn policy_right(w: int, h: int) -> Q {
    if w > h {
        (w, h)
    } else {
        (1int, 1int)
    }
}

/// The vertical bound the resize policy picks for a `w x h` surface.
pub open spec fn policy_top(w: int, h: int) -> Q {
    if w > h {
        (1int, 1int)
    } else {
        (h, w)
    }
}

/// Largest drawable-surface dimension the resize policy accepts; keeps the
/// resulting bounds within `ORTHO_BOUND`.
pub const MAX_SURFACE_DIM: u32 = 0x4000_0000;

/// Resize policy: given a drawable surface of width `w` and height `h`,
/// extend the longer axis so the aspect ratio is preserved, keeping the
/// `[-1,1]` square fully visible and undistorted. Near and far are fixed
/// at -1 and 1. The returned bounds always satisfy the preconditions of
/// `Mat4::orthographic`, axis distinctness included.
pub fn resize_bounds(w: u32, h: u32) -> (b: OrthoBounds)
    requires
        0 < w <= MAX_SURFACE_DIM,
        0 < h <= MAX_SURFACE_DIM,
    ensures
        b.wf(),
        q_small(b.left@, ORTHO_BOUND as int),
        q_small(b.right@, ORTHO_BOUND as int),
        q_small(b.bottom@, ORTHO_BOUND as int),
        q_small(b.top@, ORTHO_BOUND as int),
        q_small(b.near@, ORTHO_BOUND as int),
        q_small(b.far@, ORTHO_BOUND as int),
        !q_eq(b.left@, b.right@),
        !q_eq(b.bottom@, b.top@),
        !q_eq(b.near@, b.far@),
        b.right@ == policy_right(w as int, h as int),
        b.left@ == q_neg(policy_right(w as int, h as int)),
        b.top@ == policy_top(w as int, h as int),
        b.bottom@ == q_neg(policy_top(w as int, h as int)),
        b.near@ == (-1int, 1int),
        b.far@ == (1int, 1int),
        q_le(b.left@, (-1int, 1int)),
        q_le((1int, 1int), b.right@),
        q_le(b.bottom@, (-1int, 1int)),
        q_le((1int, 1int), b.top@),
{
    let near = Frac::from_int(-1);
    let far = Frac::from_int(1);
    let one = Frac::from_int(1);
    let neg_one = Frac::from_int(-1);
    proof {
        lemma_mul_signs(w as int, h as int);
        assert((-(w as int)) * (h as int) == -((w as int) * (h as int))) by (nonlinear_arith);
        assert((-(h as int)) * (w as int) == -((h as int) * (w as int))) by (nonlinear_arith);
        assert((w as int) * (h as int) == (h as int) * (w as int)) by (nonlinear_arith);
    }
    if w > h {
        let right = Frac { num: w as i128, den: h as i128 };
        let left = Frac { num: -(w as i128), den: h as i128 };
        OrthoBounds { left, right, bottom: neg_one, top: one, near, far }
    } else {
        let top = Frac { num: h as i128, den: w as i128 };
        let bottom = Frac { num: -(h as i128), den: w as i128 };
        OrthoBounds { left: neg_one, right: one, bottom, top, near, far }
    }
}

/// The projection the frame loop uploads after a resize: the orthographic
/// matrix for the bounds the resize policy picks for a `w x h` surface.
pub fn projection_for_size(w: u32, h: u32) -> (m: Mat4)
    requires
        0 < w <= MAX_SURFACE_DIM,
        0 < h <= MAX_SURFACE_DIM,
    ensures
        m.wf(),
        forall|k: int|
            0 <= k < 16 ==> q_eq(
                #[trigger] m.q(k),
                ortho_q(
                    k,
                    q_neg(policy_right(w as int, h as int)),
                    policy_right(w as int, h as int),
                    q_neg(policy_top(w as int, h as int)),
                    policy_top(w as int, h as int),
                    (-1int, 1int),
                    (1int, 1int),
                ),
            ),
{
    let b = resize_bounds(w, h);
    Mat4::orthographic(b.left, b.right, b.bottom, b.top, b.near, b.far)
}

/// Law: the rotation about the view axis by angle zero (cosine 1, sine 0)
/// is exactly the identity matrix.
pub proof fn lemma_rotation_zero_is_identity()
    ensures
        forall|k: int|
            0 <= k < 16 ==> q_eq(#[trigger] rot_z_q(k, (1int, 1int), (0int, 1int)), ident_q(k)),
{
}

/// The entries of the orthographic projection of the unit view volume
/// `[-1,1] x [-1,1] x [-1,1]`.
pub open spec fn unit_ortho_entries() -> Seq<Q> {
    Seq::new(
        16,
        |k: int|
            ortho_q(
                k,
                (-1int, 1int),
                (1int, 1int),
                (-1int, 1int),
                (1int, 1int),
                (-1int, 1int),
                (1int, 1int),
            ),
    )
}

/// Law: the orthographic projection of the unit view volume agrees with
/// the identity matrix on every entry except the scale of the near-to-far
/// axis, which the standard formula `-2/(far-near)` pins to -1: the
/// projection mirrors that axis into the normalized cube.
proof fn lemma_unit_ortho_entry_0()
    ensures
        unit_ortho_entries()[0] == (2int, 2int),
        q_eq(unit_ortho_entries()[0], ident_q(0)),
{
    lemma_q_sub_eval(1, 1, -1, 1);
    assert(q_sub((1int, 1int), (-1int, 1int)) == (2int, 1int));
    lemma_q_div_eval(2, 1, 2, 1);
    assert(q_div((2int, 1int), (2int, 1int)) == (2int, 2int));
    lemma_q_eq_eval(2, 2, 1, 1);
    assert(q_eq((2int, 2int), (1int, 1int)));
    assert(ident_q(0) == (1int, 1int));
    assert(unit_ortho_entries()[0] == ortho_q(0, (-1int, 1int), (1int, 1int), (-1int, 1int), (1int, 1int), (-1int, 1int), (1int, 1int)));
}

proof fn lemma_unit_ortho_entry_1()
    ensures
        unit_ortho_entries()[1] == (0int, 1int),
        q_eq(unit_ortho_entries()[1], ident_q(1)),
{
    lemma_q_eq_eval(0, 1, 0, 1);
    assert(q_eq((0int, 1int), (0int, 1int)));
    assert(ident_q(1) == (0int, 1int));
    assert(unit_ortho_entries()[1] == ortho_q(1, (-1int, 1int), (1int, 1int), (-1int, 1int), (1int, 1int), (-1int, 1int), (1int, 1int)));
}

proof fn lemma_unit_ortho_entry_2()
    ensures
        unit_ortho_entries()[2] == (0int, 1int),
        q_eq(unit_ortho_entries()[2], ident_q(2)),
{
    lemma_q_eq_eval(0, 1, 0, 1);
    assert(q_eq((0int, 1int), (0int, 1int)));
    assert(ident_q(2) == (0int, 1int));
    assert(unit_ortho_entries()[2] == ortho_q(2, (-1int, 1int), (1int, 1int), (-1int, 1int), (1int, 1int), (-1int, 1int), (1int, 1int)));
}

proof fn lemma_unit_ortho_entry_3()
    ensures
        unit_ortho_entries()[3] == (0int, 1int),
        q_eq(unit_ortho_entries()[3], ident_q(3)),
{
    lemma_q_eq_eval(0, 1, 0, 1);
    assert(q_eq((0int, 1int), (0int, 1int)));
    assert(ident_q(3) == (0int, 1int));
    assert(unit_ortho_entries()[3] == ortho_q(3, (-1int, 1int), (1int, 1int), (-1int, 1int), (1int, 1int), (-1int, 1int), (1int, 1int)));
}

proof fn lemma_unit_ortho_entry_4()
    ensures
        unit_ortho_entries()[4] == (0int, 1int),
        q_eq(unit_ortho_entries()[4], ident_q(4)),
{
    lemma_q_eq_eval(0, 1, 0, 1);
    assert(q_eq((0int, 1int), (0int, 1int)));
    assert(ident_q(4) == (0int, 1int));
    assert(unit_ortho_entries()[4] == ortho_q(4, (-1int, 1int), (1int, 1int), (-1int, 1int), (1int, 1int), (-1int, 1int), (1int, 1int)));
}

proof fn lemma_unit_ortho_entry_5()
    ensures
        unit_ortho_entries()[5] == (2int, 2int),
        q_eq(unit_ortho_entries()[5], ident_q(5)),
{
    lemma_q_sub_eval(1, 1, -1, 1);
    assert(q_sub((1int, 1int), (-1int, 1int)) == (2int, 1int));
    lemma_q_div_eval(2, 1, 2, 1);
    assert(q_div((2int, 1int), (2int, 1int)) == (2int, 2int));
    lemma_q_eq_eval(2, 2, 1, 1);
    assert(q_eq((2int, 2int), (1int, 1int)));
    assert(ident_q(5) == (1int, 1int));
    assert(unit_ortho_entries()[5] == ortho_q(5, (-1int, 1int), (1int, 1int), (-1int, 1int), (1int, 1int), (-1int, 1int), (1int, 1int)));
}

proof fn lemma_unit_ortho_entry_6()
    ensures
        unit_ortho_entries()[6] == (0int, 1int),
        q_eq(unit_ortho_entries()[6], ident_q(6)),
{
    lemma_q_eq_eval(0, 1, 0, 1);
    assert(q_eq((0int, 1int), (0int, 1int)));
    assert(ident_q(6) == (0int, 1int));
    assert(unit_ortho_entries()[6] == ortho_q(6, (-1int, 1int), (1int, 1int), (-1int, 1int), (1int, 1int), (-1int, 1int), (1int, 1int)));
}

proof fn lemma_unit_ortho_entry_7()
    ensures
        unit_ortho_entries()[7] == (0int, 1int),
        q_eq(unit_ortho_entries()[7], ident_q(7)),
{
    lemma_q_eq_eval(0, 1, 0, 1);
    assert(q_eq((0int, 1int), (0int, 1int)));
    assert(ident_q(7) == (0int, 1int));
    assert(unit_ortho_entries()[7] == ortho_q(7, (-1int, 1int), (1int, 1int), (-1int, 1int), (1int, 1int), (-1int, 1int), (1int, 1int)));
}

proof fn lemma_unit_ortho_entry_8()
    ensures
        unit_ortho_entries()[8] == (0int, 1int),
        q_eq(unit_ortho_entries()[8], ident_q(8)),
{
    lemma_q_eq_eval(0, 1, 0, 1);
    assert(q_eq((0int, 1int), (0int, 1int)));
    assert(ident_q(8) == (0int, 1int));
    assert(unit_ortho_entries()[8] == ortho_q(8, (-1int, 1int), (1int, 1int), (-1int, 1int), (1int, 1int), (-1int, 1int), (1int, 1int)));
}

proof fn lemma_unit_ortho_entry_9()
    ensures
        unit_ortho_entries()[9] == (0int, 1int),
        q_eq(unit_ortho_entries()[9], ident_q(9)),
{
    lemma_q_eq_eval(0, 1, 0, 1);
    assert(q_eq((0int, 1int), (0int, 1int)));
    assert(ident_q(9) == (0int, 1int));
    assert(unit_ortho_entries()[9] == ortho_q(9, (-1int, 1int), (1int, 1int), (-1int, 1int), (1int, 1int), (-1int, 1int), (1int, 1int)));
}

proof fn lemma_unit_ortho_entry_10()
    ensures
        unit_ortho_entries()[10] == (-2int, 2int),
        q_eq(unit_ortho_entries()[10], (-1int, 1int)),
{
    lemma_q_sub_eval(1, 1, -1, 1);
    assert(q_sub((1int, 1int), (-1int, 1int)) == (2int, 1int));
    lemma_q_div_eval(-2, 1, 2, 1);
    assert(q_div((-2int, 1int), (2int, 1int)) == (-2int, 2int));
    lemma_q_eq_eval(-2, 2, -1, 1);
    assert(q_eq((-2int, 2int), (-1int, 1int)));
    assert(unit_ortho_entries()[10] == ortho_q(10, (-1int, 1int), (1int, 1int), (-1int, 1int), (1int, 1int), (-1int, 1int), (1int, 1int)));
}

proof fn lemma_unit_ortho_entry_11()
    ensures
        unit_ortho_entries()[11] == (0int, 1int),
        q_eq(unit_ortho_entries()[11], ident_q(11)),
{
    lemma_q_eq_eval(0, 1, 0, 1);
    assert(q_eq((0int, 1int), (0int, 1int)));
    assert(ident_q(11) == (0int, 1int));
    assert(unit_ortho_entries()[11] == ortho_q(11, (-1int, 1int), (1int, 1int), (-1int, 1int), (1int, 1int), (-1int, 1int), (1int, 1int)));
}

proof fn lemma_unit_ortho_entry_12()
    ensures
        unit_ortho_entries()[12] == (0int, 2int),
        q_eq(unit_ortho_entries()[12], ident_q(12)),
{
    lemma_q_add_eval(1, 1, -1, 1);
    assert(q_add((1int, 1int), (-1int, 1int)) == (0int, 1int));
    lemma_q_neg_eval(0, 1);
    assert(q_neg((0int, 1int)) == (0int, 1int));
    lemma_q_sub_eval(1, 1, -1, 1);
    assert(q_sub((1int, 1int), (-1int, 1int)) == (2int, 1int));
    lemma_q_div_eval(0, 1, 2, 1);
    assert(q_div((0int, 1int), (2int, 1int)) == (0int, 2int));
    lemma_q_eq_eval(0, 2, 0, 1);
    assert(q_eq((0int, 2int), (0int, 1int)));
    assert(ident_q(12) == (0int, 1int));
    assert(unit_ortho_entries()[12] == ortho_q(12, (-1int, 1int), (1int, 1int), (-1int, 1int), (1int, 1int), (-1int, 1int), (1int, 1int)));
}

proof fn lemma_unit_ortho_entry_13()
    ensures
        unit_ortho_entries()[13] == (0int, 2int),
        q_eq(unit_ortho_entries()[13], ident_q(13)),
{
    lemma_q_add_eval(1, 1, -1, 1);
    assert(q_add((1int, 1int), (-1int, 1int)) == (0int, 1int));
    lemma_q_neg_eval(0, 1);
    assert(q_neg((0int, 1int)) == (0int, 1int));
    lemma_q_sub_eval(1, 1, -1, 1);
    assert(q_sub((1int, 1int), (-1int, 1int)) == (2int, 1int));
    lemma_q_div_eval(0, 1, 2, 1);
    assert(q_div((0int, 1int), (2int, 1int)) == (0int, 2int));
    lemma_q_eq_eval(0, 2, 0, 1);
    assert(q_eq((0int, 2int), (0int, 1int)));
    assert(ident_q(13) == (0int, 1int));
    assert(unit_ortho_entries()[13] == ortho_q(13, (-1int, 1int), (1int, 1int), (-1int, 1int), (1int, 1int), (-1int, 1int), (1int, 1int)));
}

proof fn lemma_unit_ortho_entry_14()
    ensures
        unit_ortho_entries()[14] == (0int, 2int),
        q_eq(unit_ortho_entries()[14], ident_q(14)),
{
    lemma_q_add_eval(1, 1, -1, 1);
    assert(q_add((1int, 1int), (-1int, 1int)) == (0int, 1int));
    lemma_q_neg_eval(0, 1);
    assert(q_neg((0int, 1int)) == (0int, 1int));
    lemma_q_sub_eval(1, 1, -1, 1);
    assert(q_sub((1int, 1int), (-1int, 1int)) == (2int, 1int));
    lemma_q_div_eval(0, 1, 2, 1);
    assert(q_div((0int, 1int), (2int, 1int)) == (0int, 2int));
    lemma_q_eq_eval(0, 2, 0, 1);
    assert(q_eq((0int, 2int), (0int, 1int)));
    assert(ident_q(14) == (0int, 1int));
    assert(unit_ortho_entries()[14] == ortho_q(14, (-1int, 1int), (1int, 1int), (-1int, 1int), (1int, 1int), (-1int, 1int), (1int, 1int)));
}

proof fn lemma_unit_ortho_entry_15()
    ensures
        unit_ortho_entries()[15] == (1int, 1int),
        q_eq(unit_ortho_entries()[15], ident_q(15)),
{
    lemma_q_eq_eval(1, 1, 1, 1);
    assert(q_eq((1int, 1int), (1int, 1int)));
    assert(ident_q(15) == (1int, 1int));
    assert(unit_ortho_entries()[15] == ortho_q(15, (-1int, 1int), (1int, 1int), (-1int, 1int), (1int, 1int), (-1int, 1int), (1int, 1int)));
}

/// Law: the orthographic projection of the unit view volume agrees with
/// the identity matrix on every entry except the scale of the near-to-far
/// axis, which the standard formula `-2/(far-near)` pins to -1: the
/// projection mirrors that axis into the normalized cube.
pub proof fn lemma_unit_orthographic_is_identity_up_to_depth_mirror()
    ensures
        forall|k: int|
            0 <= k < 16 && k != 10 ==> q_eq(#[trigger] unit_ortho_entries()[k], ident_q(k)),
        q_eq(unit_ortho_entries()[10], (-1int, 1int)),
{
    assert forall|k: int| 0 <= k < 16 && k != 10 implies q_eq(
        #[trigger] unit_ortho_entries()[k],
        ident_q(k),
    ) by {
        if k == 0 {
            lemma_unit_ortho_entry_0();
        } else if k == 1 {
            lemma_unit_ortho_entry_1();
        } else if k == 2 {
            lemma_unit_ortho_entry_2();
        } else if k == 3 {
            lemma_unit_ortho_entry_3();
        } else if k == 4 {
            lemma_unit_ortho_entry_4();
        } else if k == 5 {
            lemma_unit_ortho_entry_5();
        } else if k == 6 {
            lemma_unit_ortho_entry_6();
        } else if k == 7 {
            lemma_unit_ortho_entry_7();
        } else if k == 8 {
            lemma_unit_ortho_entry_8();
        } else if k == 9 {
            lemma_unit_ortho_entry_9();
        } else if k == 11 {
            lemma_unit_ortho_entry_11();
        } else if k == 12 {
            lemma_unit_ortho_entry_12();
        } else if k == 13 {
            lemma_unit_ortho_entry_13();
        } else if k == 14 {
            lemma_unit_ortho_entry_14();
        } else if k == 15 {
            lemma_unit_ortho_entry_15();
        }
    }
    lemma_unit_ortho_entry_10();
}

/// The homogeneous point `(1, 0, 0, 1)`.
pub open spec fn unit_point() -> Seq<Q> {
    seq![(1int, 1int), (0int, 1int), (0int, 1int), (1int, 1int)]
}

proof fn lemma_unit_roundtrip_component_0()
    ensures
        q_eq(mat_apply(unit_ortho_entries(), unit_point())[0], (1int, 1int)),
{
    lemma_q_mul_eval(2, 2, 1, 1);
    assert(q_mul((2int, 2int), (1int, 1int)) == (2int, 2int));
    lemma_q_mul_eval(0, 1, 0, 1);
    assert(q_mul((0int, 1int), (0int, 1int)) == (0int, 1int));
    lemma_q_mul_eval(0, 2, 1, 1);
    assert(q_mul((0int, 2int), (1int, 1int)) == (0int, 2int));
    lemma_q_add_eval(2, 2, 0, 1);
    assert(q_add((2int, 2int), (0int, 1int)) == (2int, 2int));
    lemma_q_add_eval(0, 1, 0, 2);
    assert(q_add((0int, 1int), (0int, 2int)) == (0int, 2int));
    lemma_q_add_eval(2, 2, 0, 2);
    assert(q_add((2int, 2int), (0int, 2int)) == (4int, 4int));
    lemma_q_eq_eval(4, 4, 1, 1);
    assert(q_eq((4int, 4int), (1int, 1int)));
    lemma_unit_ortho_entry_0();
    lemma_unit_ortho_entry_4();
    lemma_unit_ortho_entry_8();
    lemma_unit_ortho_entry_12();
    assert(unit_point()[0] == (1int, 1int));
    assert(unit_point()[1] == (0int, 1int));
    assert(unit_point()[2] == (0int, 1int));
    assert(unit_point()[3] == (1int, 1int));
    assert(mat_apply(unit_ortho_entries(), unit_point())[0] == q_add(
        q_add(
            q_mul(unit_ortho_entries()[0], unit_point()[0]),
            q_mul(unit_ortho_entries()[4], unit_point()[1]),
        ),
        q_add(
            q_mul(unit_ortho_entries()[8], unit_point()[2]),
            q_mul(unit_ortho_entries()[12], unit_point()[3]),
        ),
    ));
}

proof fn lemma_unit_roundtrip_component_1()
    ensures
        q_eq(mat_apply(unit_ortho_entries(), unit_point())[1], (0int, 1int)),
{
    lemma_q_mul_eval(0, 1, 1, 1);
    assert(q_mul((0int, 1int), (1int, 1int)) == (0int, 1int));
    lemma_q_mul_eval(2, 2, 0, 1);
    assert(q_mul((2int, 2int), (0int, 1int)) == (0int, 2int));
    lemma_q_mul_eval(0, 1, 0, 1);
    assert(q_mul((0int, 1int), (0int, 1int)) == (0int, 1int));
    lemma_q_mul_eval(0, 2, 1, 1);
    assert(q_mul((0int, 2int), (1int, 1int)) == (0int, 2int));
    lemma_q_add_eval(0, 1, 0, 2);
    assert(q_add((0int, 1int), (0int, 2int)) == (0int, 2int));
    lemma_q_add_eval(0, 2, 0, 2);
    assert(q_add((0int, 2int), (0int, 2int)) == (0int, 4int));
    lemma_q_eq_eval(0, 4, 0, 1);
    assert(q_eq((0int, 4int), (0int, 1int)));
    lemma_unit_ortho_entry_1();
    lemma_unit_ortho_entry_5();
    lemma_unit_ortho_entry_9();
    lemma_unit_ortho_entry_13();
    assert(unit_point()[0] == (1int, 1int));
    assert(unit_point()[1] == (0int, 1int));
    assert(unit_point()[2] == (0int, 1int));
    assert(unit_point()[3] == (1int, 1int));
    assert(mat_apply(unit_ortho_entries(), unit_point())[1] == q_add(
        q_add(
            q_mul(unit_ortho_entries()[1], unit_point()[0]),
            q_mul(unit_ortho_entries()[5], unit_point()[1]),
        ),
        q_add(
            q_mul(unit_ortho_entries()[9], unit_point()[2]),
            q_mul(unit_ortho_entries()[13], unit_point()[3]),
        ),
    ));
}

proof fn lemma_unit_roundtrip_component_2()
    ensures
        q_eq(mat_apply(unit_ortho_entries(), unit_point())[2], (0int, 1int)),
{
    lemma_q_mul_eval(0, 1, 1, 1);
    assert(q_mul((0int, 1int), (1int, 1int)) == (0int, 1int));
    lemma_q_mul_eval(0, 1, 0, 1);
    assert(q_mul((0int, 1int), (0int, 1int)) == (0int, 1int));
    lemma_q_mul_eval(-2, 2, 0, 1);
    assert(q_mul((-2int, 2int), (0int, 1int)) == (0int, 2int));
    lemma_q_mul_eval(0, 2, 1, 1);
    assert(q_mul((0int, 2int), (1int, 1int)) == (0int, 2int));
    lemma_q_add_eval(0, 1, 0, 1);
    assert(q_add((0int, 1int), (0int, 1int)) == (0int, 1int));
    lemma_q_add_eval(0, 2, 0, 2);
    assert(q_add((0int, 2int), (0int, 2int)) == (0int, 4int));
    lemma_q_add_eval(0, 1, 0, 4);
    assert(q_add((0int, 1int), (0int, 4int)) == (0int, 4int));
    lemma_q_eq_eval(0, 4, 0, 1);
    assert(q_eq((0int, 4int), (0int, 1int)));
    lemma_unit_ortho_entry_2();
    lemma_unit_ortho_entry_6();
    lemma_unit_ortho_entry_10();
    lemma_unit_ortho_entry_14();
    assert(unit_point()[0] == (1int, 1int));
    assert(unit_point()[1] == (0int, 1int));
    assert(unit_point()[2] == (0int, 1int));
    assert(unit_point()[3] == (1int, 1int));
    assert(mat_apply(unit_ortho_entries(), unit_point())[2] == q_add(
        q_add(
            q_mul(unit_ortho_entries()[2], unit_point()[0]),
            q_mul(unit_ortho_entries()[6], unit_point()[1]),
        ),
        q_add(
            q_mul(unit_ortho_entries()[10], unit_point()[2]),
            q_mul(unit_ortho_entries()[14], unit_point()[3]),
        ),
    ));
}

proof fn lemma_unit_roundtrip_component_3()
    ensures
        q_eq(mat_apply(unit_ortho_entries(), unit_point())[3], (1int, 1int)),
{
    lemma_q_mul_eval(0, 1, 1, 1);
    assert(q_mul((0int, 1int), (1int, 1int)) == (0int, 1int));
    lemma_q_mul_eval(0, 1, 0, 1);
    assert(q_mul((0int, 1int), (0int, 1int)) == (0int, 1int));
    lemma_q_mul_eval(1, 1, 1, 1);
    assert(q_mul((1int, 1int), (1int, 1int)) == (1int, 1int));
    lemma_q_add_eval(0, 1, 0, 1);
    assert(q_add((0int, 1int), (0int, 1int)) == (0int, 1int));
    lemma_q_add_eval(0, 1, 1, 1);
    assert(q_add((0int, 1int), (1int, 1int)) == (1int, 1int));
    lemma_q_eq_eval(1, 1, 1, 1);
    assert(q_eq((1int, 1int), (1int, 1int)));
    lemma_unit_ortho_entry_3();
    lemma_unit_ortho_entry_7();
    lemma_unit_ortho_entry_11();
    lemma_unit_ortho_entry_15();
    assert(unit_point()[0] == (1int, 1int));
    assert(unit_point()[1] == (0int, 1int));
    assert(unit_point()[2] == (0int, 1int));
    assert(unit_point()[3] == (1int, 1int));
    assert(mat_apply(unit_ortho_entries(), unit_point())[3] == q_add(
        q_add(
            q_mul(unit_ortho_entries()[3], unit_point()[0]),
            q_mul(unit_ortho_entries()[7], unit_point()[1]),
        ),
        q_add(
            q_mul(unit_ortho_entries()[11], unit_point()[2]),
            q_mul(unit_ortho_entries()[15], unit_point()[3]),
        ),
    ));
}

/// Law: transforming the point `(1, 0, 0, 1)` by the orthographic
/// projection of the unit view volume gives back `(1, 0, 0, 1)`.
pub proof fn lemma_unit_orthographic_fixes_unit_point()
    ensures
        mat_apply(unit_ortho_entries(), unit_point()).len() == 4,
        q_eq(mat_apply(unit_ortho_entries(), unit_point())[0], (1int, 1int)),
        q_eq(mat_apply(unit_ortho_entries(), unit_point())[1], (0int, 1int)),
        q_eq(mat_apply(unit_ortho_entries(), unit_point())[2], (0int, 1int)),
        q_eq(mat_apply(unit_ortho_entries(), unit_point())[3], (1int, 1int)),
{
    lemma_unit_roundtrip_component_0();
    lemma_unit_roundtrip_component_1();
    lemma_unit_roundtrip_component_2();
    lemma_unit_roundtrip_component_3();
}

} // verus!
