//! Rigid transforms: a linear part followed by a translation.
use vstd::prelude::*;
use crate::math::{Vector, V3, v3, v_add, v_sub, v_neg, v_dot, mul_small, lemma_mul_bound};

verus! {

/// A linear map applied before a translation. Keeping the translation apart
/// from the linear part avoids homogeneous coordinates and makes inverting a
/// rotation a transpose.
#[derive(Clone, Copy, Debug, PartialEq, Eq, Structural)]
pub struct Transform<V, M> {
    submat: M,
    subtrans: V,
}

impl<V, M> Transform<V, M> {
    pub closed spec fn mat(&self) -> M {
        self.submat
    }

    pub closed spec fn trans(&self) -> V {
        self.subtrans
    }

    /// Builds a transform from a translation and a linear part.
    pub fn new(trans: V, mat: M) -> (r: Transform<V, M>)
        ensures
            r.mat() == mat,
            r.trans() == trans,
    {
        Transform { submat: mat, subtrans: trans }
    }
}

impl<V: Copy, M: Copy> Transform<V, M> {
    /// The linear part.
    pub fn submat(&self) -> (r: M)
        ensures
            r == self.mat(),
    {
        self.submat
    }

    /// The translation.
    pub fn subtrans(&self) -> (r: V)
        ensures
            r == self.trans(),
    {
        self.subtrans
    }

    /// The translation.
    pub fn translation(&self) -> (r: V)
        ensures
            r == self.trans(),
    {
        self.subtrans
    }

    /// Replaces the translation, keeping the linear part.
    pub fn set_translation(&mut self, t: V)
        ensures
            final(self).trans() == t,
            final(self).mat() == old(self).mat(),
    {
        self.subtrans = t;
    }

    /// Replaces the linear part, keeping the translation.
    pub fn set_rotation(&mut self, m: M)
        ensures
            final(self).mat() == m,
            final(self).trans() == old(self).trans(),
    {
        self.submat = m;
    }
}

/// Mathematical view of a 3x3 matrix, by columns.
pub struct M3 {
    pub c0: V3,
    pub c1: V3,
    pub c2: V3,
}

pub open spec fn mat_vec(m: M3, v: V3) -> V3 {
    v3(
        m.c0.x * v.x + m.c1.x * v.y + m.c2.x * v.z,
        m.c0.y * v.x + m.c1.y * v.y + m.c2.y * v.z,
        m.c0.z * v.x + m.c1.z * v.y + m.c2.z * v.z,
    )
}

pub open spec fn transpose_vec(m: M3, v: V3) -> V3 {
    v3(v_dot(m.c0, v), v_dot(m.c1, v), v_dot(m.c2, v))
}

pub open spec fn transpose(m: M3) -> M3 {
    M3 {
        c0: v3(m.c0.x, m.c1.x, m.c2.x),
        c1: v3(m.c0.y, m.c1.y, m.c2.y),
        c2: v3(m.c0.z, m.c1.z, m.c2.z),
    }
}

/// The product `a * b`.
pub open spec fn mat_mul(a: M3, b: M3) -> M3 {
    M3 { c0: mat_vec(a, b.c0), c1: mat_vec(a, b.c1), c2: mat_vec(a, b.c2) }
}

/// The columns are unit vectors orthogonal to each other: a rotation,
/// possibly composed with a reflection.
pub open spec fn orthonormal(m: M3) -> bool {
    &&& v_dot(m.c0, m.c0) == 1
    &&& v_dot(m.c1, m.c1) == 1
    &&& v_dot(m.c2, m.c2) == 1
    &&& v_dot(m.c0, m.c1) == 0
    &&& v_dot(m.c0, m.c2) == 0
    &&& v_dot(m.c1, m.c2) == 0
}

/// A 3x3 integer matrix, stored by columns.
#[derive(Clone, Copy, Debug, PartialEq, Eq, Structural)]
pub struct Mat3 {
    pub c0: Vector,
    pub c1: Vector,
    pub c2: Vector,
}

impl View for Mat3 {
    type V = M3;

    open spec fn view(&self) -> M3 {
        M3 { c0: self.c0@, c1: self.c1@, c2: self.c2@ }
    }
}

impl Mat3 {
    pub open spec fn is_small(&self) -> bool {
        self.c0.is_small() && self.c1.is_small() && self.c2.is_small()
    }

    /// The identity matrix.
    pub fn identity() -> (r: Mat3)
        ensures
            r@ == (M3 { c0: v3(1, 0, 0), c1: v3(0, 1, 0), c2: v3(0, 0, 1) }),
    {
        Mat3 {
            c0: Vector::new(1, 0, 0),
            c1: Vector::new(0, 1, 0),
            c2: Vector::new(0, 0, 1),
        }
    }

    /// The transposed matrix.
    pub fn transposed(&self) -> (r: Mat3)
        ensures
            r@ == transpose(self@),
    {
        Mat3 {
            c0: Vector::new(self.c0.x, self.c1.x, self.c2.x),
            c1: Vector::new(self.c0.y, self.c1.y, self.c2.y),
            c2: Vector::new(self.c0.z, self.c1.z, self.c2.z),
        }
    }

    /// Applies the matrix to a vector.
    pub fn rmul(&self, v: &Vector) -> (r: Vector)
        requires
            self.is_small(),
            v.is_small(),
        ensures
            r@ == mat_vec(self@, v@),
            r.bounded_by(0xC_0000_0000_0000),
    {
        Vector::new(
            mul_small(self.c0.x, v.x) + mul_small(self.c1.x, v.y) + mul_small(self.c2.x, v.z),
            mul_small(self.c0.y, v.x) + mul_small(self.c1.y, v.y) + mul_small(self.c2.y, v.z),
            mul_small(self.c0.z, v.x) + mul_small(self.c1.z, v.y) + mul_small(self.c2.z, v.z),
        )
    }

    /// The product `self * other`.
    pub fn mul(&self, other: &Mat3) -> (r: Mat3)
        requires
            self.is_small(),
            other.is_small(),
        ensures
            r@ == mat_mul(self@, other@),
    {
        Mat3 { c0: self.rmul(&other.c0), c1: self.rmul(&other.c1), c2: self.rmul(&other.c2) }
    }

    /// Whether the matrix is orthonormal.
    pub fn is_orthonormal(&self) -> (r: bool)
        requires
            self.is_small(),
        ensures
            r == orthonormal(self@),
    {
        self.c0.dot(&self.c0) == 1 && self.c1.dot(&self.c1) == 1 && self.c2.dot(&self.c2) == 1
            && self.c0.dot(&self.c1) == 0 && self.c0.dot(&self.c2) == 0 && self.c1.dot(&self.c2)
            == 0
    }
}

pub open spec fn cross(a: V3, b: V3) -> V3 {
    v3(a.y * b.z - a.z * b.y, a.z * b.x - a.x * b.z, a.x * b.y - a.y * b.x)
}

/// The determinant.
pub open spec fn det(m: M3) -> int {
    v_dot(m.c0, cross(m.c1, m.c2))
}

/// The adjugate: the transposed cofactor matrix, `det(m)` times the inverse.
pub open spec fn adjugate(m: M3) -> M3 {
    let k0 = cross(m.c1, m.c2);
    let k1 = cross(m.c2, m.c0);
    let k2 = cross(m.c0, m.c1);
    M3 { c0: v3(k0.x, k1.x, k2.x), c1: v3(k0.y, k1.y, k2.y), c2: v3(k0.z, k1.z, k2.z) }
}

pub open spec fn identity_m3() -> M3 {
    M3 { c0: v3(1, 0, 0), c1: v3(0, 1, 0), c2: v3(0, 0, 1) }
}

pub open spec fn neg_m3(m: M3) -> M3 {
    M3 { c0: v_neg(m.c0), c1: v_neg(m.c1), c2: v_neg(m.c2) }
}

/// The integer inverse of a matrix of determinant 1 or -1.
pub open spec fn inverse_mat(m: M3) -> M3 {
    if det(m) == 1 {
        adjugate(m)
    } else {
        neg_m3(adjugate(m))
    }
}

/// The translation of the inverse transform.
pub open spec fn inverse_trans(t: Isometry) -> V3 {
    v_neg(mat_vec(inverse_mat(t.mat()@), t.trans()@))
}

pub open spec fn fits(v: int) -> bool {
    i64::MIN < v <= i64::MAX
}

/// The transform has an inverse with integer coordinates that fit in `i64`.
pub open spec fn invertible(t: Isometry) -> bool {
    let v = mat_vec(inverse_mat(t.mat()@), t.trans()@);
    (det(t.mat()@) == 1 || det(t.mat()@) == -1) && fits(v.x) && fits(v.y) && fits(v.z)
}

/// `m * adjugate(m)` and `adjugate(m) * m` are `det(m)` times the identity.
pub proof fn lemma_adjugate(m: M3)
    ensures
        mat_mul(m, adjugate(m)) == (M3 { c0: v3(det(m), 0, 0), c1: v3(0, det(m), 0), c2: v3(0, 0, det(m)) }),
        mat_mul(adjugate(m), m) == (M3 { c0: v3(det(m), 0, 0), c1: v3(0, det(m), 0), c2: v3(0, 0, det(m)) }),
{
    let (a, b, c) = (m.c0.x, m.c0.y, m.c0.z);
    let (d, e, f) = (m.c1.x, m.c1.y, m.c1.z);
    let (g, h, i) = (m.c2.x, m.c2.y, m.c2.z);
    lemma_expand(a, e, i, f, h);
    lemma_expand(a, f, g, d, i);
    lemma_expand(a, d, h, e, g);
    lemma_expand(a, h, c, i, b);
    lemma_expand(a, i, a, g, c);
    lemma_expand(a, g, b, h, a);
    lemma_expand(a, b, f, c, e);
    lemma_expand(a, c, d, a, f);
    lemma_expand(a, a, e, b, d);
    lemma_expand(b, e, i, f, h);
    lemma_expand(b, f, g, d, i);
    lemma_expand(b, d, h, e, g);
    lemma_expand(b, h, c, i, b);
    lemma_expand(b, i, a, g, c);
    lemma_expand(b, g, b, h, a);
    lemma_expand(b, b, f, c, e);
    lemma_expand(b, c, d, a, f);
    lemma_expand(b, a, e, b, d);
    lemma_expand(c, e, i, f, h);
    lemma_expand(c, f, g, d, i);
    lemma_expand(c, d, h, e, g);
    lemma_expand(c, h, c, i, b);
    lemma_expand(c, i, a, g, c);
    lemma_expand(c, g, b, h, a);
    lemma_expand(c, b, f, c, e);
    lemma_expand(c, c, d, a, f);
    lemma_expand(c, a, e, b, d);
    lemma_expand(d, e, i, f, h);
    lemma_expand(d, f, g, d, i);
    lemma_expand(d, d, h, e, g);
    lemma_expand(d, h, c, i, b);
    lemma_expand(d, i, a, g, c);
    lemma_expand(d, g, b, h, a);
    lemma_expand(d, b, f, c, e);
    lemma_expand(d, c, d, a, f);
    lemma_expand(d, a, e, b, d);
    lemma_expand(e, e, i, f, h);
    lemma_expand(e, f, g, d, i);
    lemma_expand(e, d, h, e, g);
    lemma_expand(e, h, c, i, b);
    lemma_expand(e, i, a, g, c);
    lemma_expand(e, g, b, h, a);
    lemma_expand(e, b, f, c, e);
    lemma_expand(e, c, d, a, f);
    lemma_expand(e, a, e, b, d);
    lemma_expand(f, e, i, f, h);
    lemma_expand(f, f, g, d, i);
    lemma_expand(f, d, h, e, g);
    lemma_expand(f, h, c, i, b);
    lemma_expand(f, i, a, g, c);
    lemma_expand(f, g, b, h, a);
    lemma_expand(f, b, f, c, e);
    lemma_expand(f, c, d, a, f);
    lemma_expand(f, a, e, b, d);
    lemma_expand(g, e, i, f, h);
    lemma_expand(g, f, g, d, i);
    lemma_expand(g, d, h, e, g);
    lemma_expand(g, h, c, i, b);
    lemma_expand(g, i, a, g, c);
    lemma_expand(g, g, b, h, a);
    lemma_expand(g, b, f, c, e);
    lemma_expand(g, c, d, a, f);
    lemma_expand(g, a, e, b, d);
    lemma_expand(h, e, i, f, h);
    lemma_expand(h, f, g, d, i);
    lemma_expand(h, d, h, e, g);
    lemma_expand(h, h, c, i, b);
    lemma_expand(h, i, a, g, c);
    lemma_expand(h, g, b, h, a);
    lemma_expand(h, b, f, c, e);
    lemma_expand(h, c, d, a, f);
    lemma_expand(h, a, e, b, d);
    lemma_expand(i, e, i, f, h);
    lemma_expand(i, f, g, d, i);
    lemma_expand(i, d, h, e, g);
    lemma_expand(i, h, c, i, b);
    lemma_expand(i, i, a, g, c);
    lemma_expand(i, g, b, h, a);
    lemma_expand(i, b, f, c, e);
    lemma_expand(i, c, d, a, f);
    lemma_expand(i, a, e, b, d);
    lemma_perm(a, a, e);
    lemma_perm(a, a, f);
    lemma_perm(a, a, h);
    lemma_perm(a, a, i);
    lemma_perm(a, b, d);
    lemma_perm(a, b, e);
    lemma_perm(a, b, f);
    lemma_perm(a, b, g);
    lemma_perm(a, b, h);
    lemma_perm(a, b, i);
    lemma_perm(a, c, d);
    lemma_perm(a, c, e);
    lemma_perm(a, c, f);
    lemma_perm(a, c, g);
    lemma_perm(a, c, h);
    lemma_perm(a, c, i);
    lemma_perm(a, d, e);
    lemma_perm(a, d, f);
    lemma_perm(a, d, h);
    lemma_perm(a, d, i);
    lemma_perm(a, e, e);
    lemma_perm(a, e, f);
    lemma_perm(a, e, g);
    lemma_perm(a, e, h);
    lemma_perm(a, e, i);
    lemma_perm(a, f, f);
    lemma_perm(a, f, g);
    lemma_perm(a, f, h);
    lemma_perm(a, f, i);
    lemma_perm(a, g, h);
    lemma_perm(a, g, i);
    lemma_perm(a, h, h);
    lemma_perm(a, h, i);
    lemma_perm(a, i, i);
    lemma_perm(b, b, d);
    lemma_perm(b, b, f);
    lemma_perm(b, b, g);
    lemma_perm(b, b, i);
    lemma_perm(b, c, d);
    lemma_perm(b, c, e);
    lemma_perm(b, c, f);
    lemma_perm(b, c, g);
    lemma_perm(b, c, h);
    lemma_perm(b, c, i);
    lemma_perm(b, d, d);
    lemma_perm(b, d, e);
    lemma_perm(b, d, f);
    lemma_perm(b, d, g);
    lemma_perm(b, d, h);
    lemma_perm(b, d, i);
    lemma_perm(b, e, f);
    lemma_perm(b, e, g);
    lemma_perm(b, e, i);
    lemma_perm(b, f, f);
    lemma_perm(b, f, g);
    lemma_perm(b, f, h);
    lemma_perm(b, f, i);
    lemma_perm(b, g, g);
    lemma_perm(b, g, h);
    lemma_perm(b, g, i);
    lemma_perm(b, h, i);
    lemma_perm(b, i, i);
    lemma_perm(c, c, d);
    lemma_perm(c, c, e);
    lemma_perm(c, c, g);
    lemma_perm(c, c, h);
    lemma_perm(c, d, d);
    lemma_perm(c, d, e);
    lemma_perm(c, d, f);
    lemma_perm(c, d, g);
    lemma_perm(c, d, h);
    lemma_perm(c, d, i);
    lemma_perm(c, e, e);
    lemma_perm(c, e, f);
    lemma_perm(c, e, g);
    lemma_perm(c, e, h);
    lemma_perm(c, e, i);
    lemma_perm(c, f, g);
    lemma_perm(c, f, h);
    lemma_perm(c, g, g);
    lemma_perm(c, g, h);
    lemma_perm(c, g, i);
    lemma_perm(c, h, h);
    lemma_perm(c, h, i);
    lemma_perm(d, d, h);
    lemma_perm(d, d, i);
    lemma_perm(d, e, g);
    lemma_perm(d, e, h);
    lemma_perm(d, e, i);
    lemma_perm(d, f, g);
    lemma_perm(d, f, h);
    lemma_perm(d, f, i);
    lemma_perm(d, g, h);
    lemma_perm(d, g, i);
    lemma_perm(d, h, h);
    lemma_perm(d, h, i);
    lemma_perm(d, i, i);
    lemma_perm(e, e, g);
    lemma_perm(e, e, i);
    lemma_perm(e, f, g);
    lemma_perm(e, f, h);
    lemma_perm(e, f, i);
    lemma_perm(e, g, g);
    lemma_perm(e, g, h);
    lemma_perm(e, g, i);
    lemma_perm(e, h, i);
    lemma_perm(e, i, i);
    lemma_perm(f, f, g);
    lemma_perm(f, f, h);
    lemma_perm(f, g, g);
    lemma_perm(f, g, h);
    lemma_perm(f, g, i);
    lemma_perm(f, h, h);
    lemma_perm(f, h, i);
}

proof fn lemma_expand(x: int, p: int, q: int, r: int, s: int)
    ensures
        x * (p * q - r * s) == x * p * q - x * r * s,
        (p * q - r * s) * x == x * p * q - x * r * s,
{
    assert(x * (p * q - r * s) == x * p * q - x * r * s) by (nonlinear_arith);
    assert((p * q - r * s) * x == x * p * q - x * r * s) by (nonlinear_arith);
}

proof fn lemma_perm(x: int, y: int, z: int)
    ensures
        x * y * z == x * z * y,
        x * y * z == y * x * z,
        x * y * z == y * z * x,
        x * y * z == z * x * y,
        x * y * z == z * y * x,
{
    assert(x * y * z == x * z * y) by (nonlinear_arith);
    assert(x * y * z == y * x * z) by (nonlinear_arith);
    assert(x * y * z == y * z * x) by (nonlinear_arith);
    assert(x * y * z == z * x * y) by (nonlinear_arith);
    assert(x * y * z == z * y * x) by (nonlinear_arith);
}

proof fn lemma_neg_mat(m: M3, a: M3)
    ensures
        mat_mul(m, neg_m3(a)) == neg_m3(mat_mul(m, a)),
        mat_mul(neg_m3(a), m) == neg_m3(mat_mul(a, m)),
{
    assert forall|x: int, y: int| #[trigger] (x * (-y)) == -(x * y) by {
        assert(x * (-y) == -(x * y)) by (nonlinear_arith);
    }
    assert forall|x: int, y: int| #[trigger] ((-x) * y) == -(x * y) by {
        assert((-x) * y == -(x * y)) by (nonlinear_arith);
    }
}

/// The cross product of two vectors within the accepted range.
fn cross_small(a: &Vector, b: &Vector) -> (r: Vector)
    requires
        a.is_small(),
        b.is_small(),
    ensures
        r@ == cross(a@, b@),
        r.bounded_by(0x8_0000_0000_0000),
{
    Vector::new(
        mul_small(a.y, b.z) - mul_small(a.z, b.y),
        mul_small(a.z, b.x) - mul_small(a.x, b.z),
        mul_small(a.x, b.y) - mul_small(a.y, b.x),
    )
}

fn mul_wide(a: i64, b: i64) -> (r: i128)
    requires
        -0x8_0000_0000_0000 <= a <= 0x8_0000_0000_0000,
        -0x8_0000_0000_0000 <= b <= 0x8_0000_0000_0000,
    ensures
        r == a * b,
        -0x40_0000_0000_0000_0000_0000_0000 <= r <= 0x40_0000_0000_0000_0000_0000_0000,
{
    proof {
        lemma_mul_bound(a as int, b as int, 0x8_0000_0000_0000);
    }
    (a as i128) * (b as i128)
}

fn dot_wide(a: &Vector, b: &Vector) -> (r: i128)
    requires
        a.bounded_by(0x8_0000_0000_0000),
        b.bounded_by(0x8_0000_0000_0000),
    ensures
        r == v_dot(a@, b@),
{
    mul_wide(a.x, b.x) + mul_wide(a.y, b.y) + mul_wide(a.z, b.z)
}

/// `(x, y, z) . t`.
fn dot_row_wide(x: i64, y: i64, z: i64, t: &Vector) -> (r: i128)
    requires
        -0x8_0000_0000_0000 <= x <= 0x8_0000_0000_0000,
        -0x8_0000_0000_0000 <= y <= 0x8_0000_0000_0000,
        -0x8_0000_0000_0000 <= z <= 0x8_0000_0000_0000,
        t.is_small(),
    ensures
        r == x * t.x + y * t.y + z * t.z,
{
    mul_wide(x, t.x) + mul_wide(y, t.y) + mul_wide(z, t.z)
}

fn fits_i64(v: i128) -> (r: bool)
    ensures
        r == fits(v as int),
{
    -0x7fff_ffff_ffff_ffff <= v && v <= 0x7fff_ffff_ffff_ffff
}

/// A four-dimensional integer vector.
#[derive(Clone, Copy, Debug, PartialEq, Eq, Structural)]
pub struct Vec4 {
    pub x: i64,
    pub y: i64,
    pub z: i64,
    pub w: i64,
}

/// A 4x4 integer matrix, stored by columns: a transform in homogeneous
/// coordinates.
#[derive(Clone, Copy, Debug, PartialEq, Eq, Structural)]
pub struct Mat4 {
    pub c0: Vec4,
    pub c1: Vec4,
    pub c2: Vec4,
    pub c3: Vec4,
}

/// The homogeneous column of a vector with last coordinate `w`.
pub open spec fn lift(v: Vector, w: i64) -> Vec4 {
    Vec4 { x: v.x, y: v.y, z: v.z, w }
}

pub open spec fn drop_w(v: Vec4) -> Vector {
    Vector { x: v.x, y: v.y, z: v.z }
}

/// A rigid placement in space: an integer matrix and a translation.
pub type Isometry = Transform<Vector, Mat3>;

impl Transform<Vector, Mat3> {
    /// Both parts lie within the accepted coordinate range.
    pub open spec fn is_small(&self) -> bool {
        self.mat().is_small() && self.trans().is_small()
    }

    /// The identity transform.
    pub fn one() -> (r: Isometry)
        ensures
            r.mat()@ == (M3 { c0: v3(1, 0, 0), c1: v3(0, 1, 0), c2: v3(0, 0, 1) }),
            r.trans()@ == v3(0, 0, 0),
    {
        Transform::new(Vector::zero(), Mat3::identity())
    }

    /// A pure translation.
    pub fn from_translation(t: Vector) -> (r: Isometry)
        ensures
            r.mat()@ == (M3 { c0: v3(1, 0, 0), c1: v3(0, 1, 0), c2: v3(0, 0, 1) }),
            r.trans() == t,
    {
        Transform::new(t, Mat3::identity())
    }

    /// Maps a point: the linear part, then the translation.
    pub fn transform(&self, v: &Vector) -> (r: Vector)
        requires
            self.is_small(),
            v.is_small(),
        ensures
            r@ == v_add(mat_vec(self.mat()@, v@), self.trans()@),
    {
        let m = self.submat.rmul(v);
        Vector::new(m.x + self.subtrans.x, m.y + self.subtrans.y, m.z + self.subtrans.z)
    }

    /// Maps a point back: removes the translation, then applies the
    /// transposed linear part (the inverse when the matrix is orthonormal).
    pub fn inv_transform(&self, v: &Vector) -> (r: Vector)
        requires
            self.is_small(),
            v.is_small(),
        ensures
            r@ == transpose_vec(self.mat()@, v_sub(v@, self.trans()@)),
    {
        let d = v.sub(&self.subtrans);
        Vector::new(self.submat.c0.dot(&d), self.submat.c1.dot(&d), self.submat.c2.dot(&d))
    }

    /// Applies the linear part only.
    pub fn rotate(&self, v: &Vector) -> (r: Vector)
        requires
            self.is_small(),
            v.is_small(),
        ensures
            r@ == mat_vec(self.mat()@, v@),
    {
        self.submat.rmul(v)
    }

    /// Moves the translation by `t`.
    pub fn translate_by(&mut self, t: &Vector)
        requires
            old(self).is_small(),
            t.is_small(),
        ensures
            final(self).trans()@ == v_add(old(self).trans()@, t@),
            final(self).mat() == old(self).mat(),
    {
        self.subtrans = self.subtrans.add(t);
    }

    /// A copy moved by `t`.
    pub fn translated(&self, t: &Vector) -> (r: Isometry)
        requires
            self.is_small(),
            t.is_small(),
        ensures
            r.trans()@ == v_add(self.trans()@, t@),
            r.mat() == self.mat(),
    {
        Transform::new(self.subtrans.add(t), self.submat)
    }

    /// Inverts in place when the linear part has an integer inverse (its
    /// determinant is 1 or -1) and the inverse translation fits in `i64`, and
    /// reports whether it did; otherwise the transform is left unchanged.
    pub fn inplace_inverse(&mut self) -> (r: bool)
        requires
            old(self).is_small(),
        ensures
            r == invertible(*old(self)),
            r ==> final(self).mat()@ == inverse_mat(old(self).mat()@),
            r ==> final(self).trans()@ == inverse_trans(*old(self)),
            r ==> mat_mul(final(self).mat()@, old(self).mat()@) == identity_m3(),
            r ==> mat_mul(old(self).mat()@, final(self).mat()@) == identity_m3(),
            !r ==> *final(self) == *old(self),
    {
        match self.inverse() {
            Some(t) => {
                *self = t;
                true
            },
            None => false,
        }
    }

    /// The inverse transform, or `None` when the linear part has no integer
    /// inverse (its determinant is not 1 or -1) or the inverse translation
    /// does not fit in `i64`.
    pub fn inverse(&self) -> (r: Option<Isometry>)
        requires
            self.is_small(),
        ensures
            r.is_some() == invertible(*self),
            r matches Some(t) ==> t.mat()@ == inverse_mat(self.mat()@) && t.trans()@
                == inverse_trans(*self) && mat_mul(t.mat()@, self.mat()@) == identity_m3()
                && mat_mul(self.mat()@, t.mat()@) == identity_m3(),
    {
        let m = self.submat;
        let k0 = cross_small(&m.c1, &m.c2);
        let k1 = cross_small(&m.c2, &m.c0);
        let k2 = cross_small(&m.c0, &m.c1);
        let d = dot_wide(&m.c0, &k0);
        if d != 1 && d != -1 {
            return None;
        }
        let adj = Mat3 {
            c0: Vector::new(k0.x, k1.x, k2.x),
            c1: Vector::new(k0.y, k1.y, k2.y),
            c2: Vector::new(k0.z, k1.z, k2.z),
        };
        assert(adj@ == adjugate(m@));
        proof {
            lemma_adjugate(m@);
        }
        let inv = if d == 1 {
            adj
        } else {
            proof {
                lemma_neg_mat(m@, adj@);
            }
            Mat3 { c0: adj.c0.neg_wide(), c1: adj.c1.neg_wide(), c2: adj.c2.neg_wide() }
        };
        let t = self.subtrans;
        let tx = dot_row_wide(inv.c0.x, inv.c1.x, inv.c2.x, &t);
        let ty = dot_row_wide(inv.c0.y, inv.c1.y, inv.c2.y, &t);
        let tz = dot_row_wide(inv.c0.z, inv.c1.z, inv.c2.z, &t);
        if fits_i64(tx) && fits_i64(ty) && fits_i64(tz) {
            Some(Transform::new(Vector::new(-(tx as i64), -(ty as i64), -(tz as i64)), inv))
        } else {
            None
        }
    }

    /// The same transform in homogeneous coordinates: the linear part in the
    /// upper-left block and the translation in the last column.
    pub fn to_homogeneous(&self) -> (r: Mat4)
        ensures
            r.c0 == lift(self.mat().c0, 0),
            r.c1 == lift(self.mat().c1, 0),
            r.c2 == lift(self.mat().c2, 0),
            r.c3 == lift(self.trans(), 1),
    {
        let m = self.submat;
        let t = self.subtrans;
        Mat4 {
            c0: Vec4 { x: m.c0.x, y: m.c0.y, z: m.c0.z, w: 0 },
            c1: Vec4 { x: m.c1.x, y: m.c1.y, z: m.c1.z, w: 0 },
            c2: Vec4 { x: m.c2.x, y: m.c2.y, z: m.c2.z, w: 0 },
            c3: Vec4 { x: t.x, y: t.y, z: t.z, w: 1 },
        }
    }

    /// The transform held by a homogeneous matrix: its upper-left block and
    /// the first three coordinates of its last column.
    pub fn from_homogeneous(m: &Mat4) -> (r: Isometry)
        ensures
            r.mat() == (Mat3 { c0: drop_w(m.c0), c1: drop_w(m.c1), c2: drop_w(m.c2) }),
            r.trans() == drop_w(m.c3),
    {
        Transform::new(
            Vector::new(m.c3.x, m.c3.y, m.c3.z),
            Mat3 {
                c0: Vector::new(m.c0.x, m.c0.y, m.c0.z),
                c1: Vector::new(m.c1.x, m.c1.y, m.c1.z),
                c2: Vector::new(m.c2.x, m.c2.y, m.c2.z),
            },
        )
    }

    /// The composition `self * other`: `other` applied first.
    pub fn mul(&self, other: &Isometry) -> (r: Isometry)
        requires
            self.is_small(),
            other.is_small(),
        ensures
            r.mat()@ == mat_mul(self.mat()@, other.mat()@),
            r.trans()@ == v_add(self.trans()@, mat_vec(self.mat()@, other.trans()@)),
    {
        let t = self.submat.rmul(&other.subtrans);
        Transform::new(
            Vector::new(
                self.subtrans.x + t.x,
                self.subtrans.y + t.y,
                self.subtrans.z + t.z,
            ),
            self.submat.mul(&other.submat),
        )
    }

    /// Applies the transposed linear part only (the inverse rotation when
    /// the matrix is orthonormal).
    pub fn inv_rotate(&self, v: &Vector) -> (r: Vector)
        requires
            self.is_small(),
            v.is_small(),
        ensures
            r@ == transpose_vec(self.mat()@, v@),
    {
        Vector::new(self.submat.c0.dot(v), self.submat.c1.dot(v), self.submat.c2.dot(v))
    }

    /// A copy rotated by `rot` about the world origin: both the linear part
    /// and the translation are multiplied by `rot`.
    pub fn rotated(&self, rot: &Mat3) -> (r: Isometry)
        requires
            self.is_small(),
            rot.is_small(),
        ensures
            r.mat()@ == mat_mul(rot@, self.mat()@),
            r.trans()@ == mat_vec(rot@, self.trans()@),
    {
        Transform::new(rot.rmul(&self.subtrans), rot.mul(&self.submat))
    }

    /// Rotates in place by `rot` about the world origin.
    pub fn rotate_by(&mut self, rot: &Mat3)
        requires
            old(self).is_small(),
            rot.is_small(),
        ensures
            final(self).mat()@ == mat_mul(rot@, old(self).mat()@),
            final(self).trans()@ == mat_vec(rot@, old(self).trans()@),
    {
        *self = self.rotated(rot);
    }
}

} // verus!
