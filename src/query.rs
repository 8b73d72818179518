//! Closed-form contact and distance queries between round shapes (balls and
//! points) and between a plane and a round shape.
use vstd::prelude::*;
use crate::contact::{Contact, ContactKinematic, FeatureId, GeometricContact, LocalFeature, NormalCone};
use crate::math::{
    LIMIT, Vector, V3, v3, v_dot, v_norm_sq, v_sub, is_sqrt_ceil, sqrt_ceil, lemma_square_nonneg,
    lemma_mul_bound,
};
use crate::shape::{Axis, Shape, axis_dir, round_radius};
use crate::transform::{Isometry, orthonormal};

verus! {

/// The square root of `n`, rounded up.
pub open spec fn sqrt_ceil_spec(n: int) -> int {
    choose|s: int| is_sqrt_ceil(n, s)
}

proof fn lemma_sqrt_ceil_unique(n: int, a: int, b: int)
    requires
        is_sqrt_ceil(n, a),
        is_sqrt_ceil(n, b),
    ensures
        a == b,
{
    if a < b {
        assert(a * a <= (b - 1) * (b - 1)) by (nonlinear_arith)
            requires
                0 <= a <= b - 1,
        ;
    } else if b < a {
        assert(b * b <= (a - 1) * (a - 1)) by (nonlinear_arith)
            requires
                0 <= b <= a - 1,
        ;
    }
}

/// Rounded-up square root, tied to its specification.
fn sqrt_ceil_exact(n: i64) -> (r: i64)
    requires
        0 <= n <= 0x1000_0000_0000_0000,
    ensures
        r == sqrt_ceil_spec(n as int),
        is_sqrt_ceil(n as int, r as int),
{
    let r = sqrt_ceil(n);
    proof {
        let s = sqrt_ceil_spec(n as int);
        assert(is_sqrt_ceil(n as int, s));
        lemma_sqrt_ceil_unique(n as int, r as int, s);
    }
    r
}

pub open spec fn vec_of(v: V3) -> Vector {
    Vector { x: v.x as i64, y: v.y as i64, z: v.z as i64 }
}

/// A rigid pose: an orthonormal linear part, all within the accepted range.
pub open spec fn is_pose(p: Isometry) -> bool {
    p.is_small() && orthonormal(p.mat()@)
}

/// The contact between a round shape of radius `r1` around `c1` (feature
/// `f1`) and one of radius `r2` around `c2` (feature `f2`), if their
/// distance is at most `r1 + r2 + margin`. The normal is the direction from
/// `c1` to `c2` (the first axis when the centres coincide), the depth is
/// `r1 + r2` minus the centre distance rounded up, the world points are the
/// centres, and the dilations are the radii that reach the surfaces.
pub open spec fn round_contact(
    c1: Vector,
    r1: i64,
    f1: LocalFeature,
    c2: Vector,
    r2: i64,
    f2: LocalFeature,
    margin: i64,
) -> Option<(Contact, ContactKinematic)> {
    let d = v_sub(c2@, c1@);
    let k = r1 + r2 + margin;
    if v_norm_sq(d) > k * k {
        None
    } else {
        let n = if v_norm_sq(d) == 0 {
            Vector { x: 1, y: 0, z: 0 }
        } else {
            vec_of(d)
        };
        Some(
            (
                GeometricContact {
                    world1: c1,
                    world2: c2,
                    center: c1,
                    normal: n,
                    depth: (r1 + r2 - sqrt_ceil_spec(v_norm_sq(d))) as i64,
                },
                ContactKinematic {
                    feature1: FeatureId::Local(f1),
                    feature2: FeatureId::Local(f2),
                    local1: Vector { x: 0, y: 0, z: 0 },
                    local2: Vector { x: 0, y: 0, z: 0 },
                    normals1: NormalCone::Empty,
                    normals2: NormalCone::Empty,
                    dilation1: r1,
                    dilation2: r2,
                },
            ),
        )
    }
}

/// Radii and margin are non-negative and lie within the accepted range.
pub open spec fn sizes_ok(r1: i64, r2: i64, margin: i64) -> bool {
    0 <= r1 <= LIMIT && 0 <= r2 <= LIMIT && 0 <= margin <= LIMIT
}

/// Contact between two round shapes (balls, or points as balls of radius 0).
pub fn ball_against_ball(
    c1: &Vector,
    r1: i64,
    f1: LocalFeature,
    c2: &Vector,
    r2: i64,
    f2: LocalFeature,
    margin: i64,
) -> (r: Option<(Contact, ContactKinematic)>)
    requires
        c1.is_small(),
        c2.is_small(),
        sizes_ok(r1, r2, margin),
    ensures
        r == round_contact(*c1, r1, f1, *c2, r2, f2, margin),
        r.is_some() <==> v_norm_sq(v_sub(c2@, c1@)) <= (r1 + r2 + margin) * (r1 + r2 + margin),
        r matches Some(p) ==> is_sqrt_ceil(v_norm_sq(v_sub(c2@, c1@)), r1 + r2 - p.0.depth),
{
    let d = c2.sub(c1);
    let dist_sq = d.norm_sq();
    let k = r1 + r2 + margin;
    proof {
        lemma_mul_bound(k as int, k as int, 0x300_0000);
    }
    if dist_sq > k * k {
        None
    } else {
        let n = if dist_sq == 0 {
            Vector::x_axis()
        } else {
            d
        };
        let dist = sqrt_ceil_exact(dist_sq);
        let contact = GeometricContact::new(c1, &n, &(r1 + r2 - dist), c1, c2);
        let kinematic = ContactKinematic {
            feature1: FeatureId::Local(f1),
            feature2: FeatureId::Local(f2),
            local1: Vector::zero(),
            local2: Vector::zero(),
            normals1: NormalCone::Empty,
            normals2: NormalCone::Empty,
            dilation1: r1,
            dilation2: r2,
        };
        Some((contact, kinematic))
    }
}

pub open spec fn v_scale(v: V3, s: int) -> V3 {
    v3(s * v.x, s * v.y, s * v.z)
}

/// The contact between the plane of pose `pp` with outward local normal `a`
/// and a round shape of radius `r` around `c` (feature `f2`), if the shape's
/// distance above the plane is at most `margin`. With `s` the signed height
/// of `c` above the plane, the depth is `r - s`, the normal is the plane's
/// normal, the first world point is `c` projected onto the plane, and the
/// second is `c`, dilated by `r`.
pub open spec fn plane_contact(
    pp: Isometry,
    a: Axis,
    c: Vector,
    r: i64,
    f2: LocalFeature,
    margin: i64,
) -> Option<(Contact, ContactKinematic)> {
    let n = axis_dir(pp.mat()@, a);
    let s = v_dot(v_sub(c@, pp.trans()@), n);
    let proj = vec_of(v_sub(c@, v_scale(n, s)));
    if s > r + margin {
        None
    } else {
        Some(
            (
                GeometricContact {
                    world1: proj,
                    world2: c,
                    center: proj,
                    normal: vec_of(n),
                    depth: (r - s) as i64,
                },
                ContactKinematic {
                    feature1: FeatureId::Local(LocalFeature::Face(0)),
                    feature2: FeatureId::Local(f2),
                    local1: Vector { x: 0, y: 0, z: 0 },
                    local2: Vector { x: 0, y: 0, z: 0 },
                    normals1: NormalCone::Ray(vec_of(n)),
                    normals2: NormalCone::Empty,
                    dilation1: 0,
                    dilation2: r,
                },
            ),
        )
    }
}

proof fn lemma_unit_entries(v: V3)
    requires
        v_dot(v, v) == 1,
    ensures
        -1 <= v.x <= 1,
        -1 <= v.y <= 1,
        -1 <= v.z <= 1,
{
    lemma_square_nonneg(v.x);
    lemma_square_nonneg(v.y);
    lemma_square_nonneg(v.z);
    assert(-1 <= v.x <= 1) by (nonlinear_arith)
        requires
            v.x * v.x <= 1,
    ;
    assert(-1 <= v.y <= 1) by (nonlinear_arith)
        requires
            v.y * v.y <= 1,
    ;
    assert(-1 <= v.z <= 1) by (nonlinear_arith)
        requires
            v.z * v.z <= 1,
    ;
}

proof fn lemma_mul_unit(s: int, a: int)
    requires
        -1 <= a <= 1,
    ensures
        s >= 0 ==> -s <= s * a <= s,
        s < 0 ==> s <= s * a <= -s,
{
    assert(s >= 0 ==> -s <= s * a <= s) by (nonlinear_arith)
        requires
            -1 <= a <= 1,
    ;
    assert(s < 0 ==> s <= s * a <= -s) by (nonlinear_arith)
        requires
            -1 <= a <= 1,
    ;
}

/// The world direction of local axis `a` under the linear part `m`.
fn axis_normal(m: &crate::transform::Mat3, a: Axis) -> (r: Vector)
    requires
        m.is_small(),
        orthonormal(m@),
    ensures
        r@ == axis_dir(m@, a),
        r.bounded_by(1),
{
    proof {
        lemma_unit_entries(m.c0@);
        lemma_unit_entries(m.c1@);
        lemma_unit_entries(m.c2@);
    }
    match a {
        Axis::PosX => m.c0,
        Axis::NegX => m.c0.neg(),
        Axis::PosY => m.c1,
        Axis::NegY => m.c1.neg(),
        Axis::PosZ => m.c2,
        Axis::NegZ => m.c2.neg(),
    }
}

/// `c - s * n` for a vector `n` with entries in `-1..=1`.
fn sub_scaled(c: &Vector, n: &Vector, s: i64) -> (r: Vector)
    requires
        c.is_small(),
        n.bounded_by(1),
        -0xC_0000_0000_0000 <= s <= 0xC_0000_0000_0000,
    ensures
        r@ == v_sub(c@, v_scale(n@, s as int)),
{
    proof {
        lemma_mul_unit(s as int, n.x as int);
        lemma_mul_unit(s as int, n.y as int);
        lemma_mul_unit(s as int, n.z as int);
    }
    Vector::new(c.x - s * n.x, c.y - s * n.y, c.z - s * n.z)
}

/// Contact between a plane and a round shape.
pub fn plane_against_ball(
    pp: &Isometry,
    a: Axis,
    c: &Vector,
    r: i64,
    f2: LocalFeature,
    margin: i64,
) -> (res: Option<(Contact, ContactKinematic)>)
    requires
        is_pose(*pp),
        c.is_small(),
        sizes_ok(0, r, margin),
    ensures
        res == plane_contact(*pp, a, *c, r, f2, margin),
        res.is_some() <==> v_dot(v_sub(c@, pp.trans()@), axis_dir(pp.mat()@, a)) <= r + margin,
{
    let m = pp.submat();
    let t = pp.subtrans();
    let n = axis_normal(&m, a);
    let d = c.sub(&t);
    let s = d.dot(&n);
    if s > r + margin {
        None
    } else {
        let proj = sub_scaled(c, &n, s);
        let contact = GeometricContact::new(&proj, &n, &(r - s), &proj, c);
        let kinematic = ContactKinematic {
            feature1: FeatureId::Local(LocalFeature::Face(0)),
            feature2: FeatureId::Local(f2),
            local1: Vector::zero(),
            local2: Vector::zero(),
            normals1: NormalCone::Ray(n),
            normals2: NormalCone::Empty,
            dilation1: 0,
            dilation2: r,
        };
        Some((contact, kinematic))
    }
}

/// Outcome of a proximity query between two shapes.
#[derive(Clone, Copy, Debug, PartialEq, Eq, Structural)]
pub enum Proximity {
    /// The shapes overlap or touch.
    Intersection,
    /// The shapes are apart by this distance, rounded up.
    Distance(i64),
    /// The shapes are farther apart than the search distance; the vector
    /// separates them.
    NoIntersection(Vector),
}

/// Distance, rounded up, between round shapes whose centres differ by a
/// vector of squared length `nsq` and whose radii sum to `rs`.
pub open spec fn separation(nsq: int, rs: int) -> int {
    sqrt_ceil_spec(nsq) - rs
}

/// Closest-point query between a round shape of radius `r1` around `c1` and
/// one of radius `r2` around `c2`. Their Minkowski difference is the ball of
/// radius `r1 + r2` around `c1 - c2`: the shapes intersect when it holds the
/// origin, and are otherwise apart by the origin's distance to it.
pub fn closest_points(c1: &Vector, r1: i64, c2: &Vector, r2: i64, max_dist: i64) -> (r: Proximity)
    requires
        c1.is_small(),
        c2.is_small(),
        sizes_ok(r1, r2, 0),
        0 <= max_dist,
    ensures
        (r == Proximity::Intersection) == (v_norm_sq(v_sub(c1@, c2@)) <= (r1 + r2) * (r1 + r2)),
        r matches Proximity::Distance(x) ==> x == separation(v_norm_sq(v_sub(c1@, c2@)), r1 + r2)
            && 1 <= x <= max_dist,
        r matches Proximity::NoIntersection(w) ==> w@ == v_sub(c1@, c2@) && separation(
            v_norm_sq(v_sub(c1@, c2@)),
            r1 + r2,
        ) > max_dist,
        v_norm_sq(v_sub(c1@, c2@)) > (r1 + r2) * (r1 + r2) && separation(
            v_norm_sq(v_sub(c1@, c2@)),
            r1 + r2,
        ) <= max_dist ==> r is Distance,
        separation(v_norm_sq(v_sub(c1@, c2@)), r1 + r2) > max_dist ==> r is NoIntersection,
        separation(v_norm_sq(v_sub(c1@, c2@)), r1 + r2) <= 0x400_0000,
{
    let d = c1.sub(c2);
    let nsq = d.norm_sq();
    let rs = r1 + r2;
    let root = sqrt_ceil_exact(nsq);
    proof {
        lemma_mul_bound(rs as int, rs as int, 0x200_0000);
        if root > 0x400_0000 {
            assert((root - 1) * (root - 1) >= 0x400_0000 * 0x400_0000) by (nonlinear_arith)
                requires
                    root - 1 >= 0x400_0000,
            ;
        }
    }
    if nsq <= rs * rs {
        proof {
            if root > rs {
                assert((root - 1) * (root - 1) >= rs * rs) by (nonlinear_arith)
                    requires
                        root - 1 >= rs >= 0,
                ;
            }
        }
        Proximity::Intersection
    } else {
        let dist = root - rs;
        proof {
            if dist < 1 {
                assert((dist + rs) * (dist + rs) <= rs * rs) by (nonlinear_arith)
                    requires
                        0 <= dist + rs <= rs,
                ;
            }
        }
        if dist > max_dist {
            Proximity::NoIntersection(d)
        } else {
            Proximity::Distance(dist)
        }
    }
}

/// Distance between two support-mapped shapes, rounded up; zero when they
/// intersect.
pub fn support_map_against_support_map(m1: &Isometry, g1: &Shape, m2: &Isometry, g2: &Shape) -> (r: i64)
    requires
        m1.is_small(),
        m2.is_small(),
        g1.wf(),
        g2.wf(),
        g1.support_map_spec(),
        g2.support_map_spec(),
    ensures
        v_norm_sq(v_sub(m1.trans()@, m2.trans()@)) <= (round_radius(*g1) + round_radius(*g2)) * (
        round_radius(*g1) + round_radius(*g2)) ==> r == 0,
        v_norm_sq(v_sub(m1.trans()@, m2.trans()@)) > (round_radius(*g1) + round_radius(*g2)) * (
        round_radius(*g1) + round_radius(*g2)) ==> r == separation(
            v_norm_sq(v_sub(m1.trans()@, m2.trans()@)),
            round_radius(*g1) + round_radius(*g2),
        ),
{
    let c1 = m1.subtrans();
    let c2 = m2.subtrans();
    match closest_points(&c1, g1.radius(), &c2, g2.radius(), 0x400_0000) {
        Proximity::Intersection => 0,
        Proximity::Distance(x) => x,
        Proximity::NoIntersection(_) => 0,
    }
}

} // verus!

verus! {

proof fn lemma_sqrt_ceil_of_square(l: int)
    requires
        l >= 0,
    ensures
        sqrt_ceil_spec(l * l) == l,
{
    if l > 0 {
        assert((l - 1) * (l - 1) < l * l) by (nonlinear_arith)
            requires
                l >= 1,
        ;
    }
    assert(is_sqrt_ceil(l * l, l));
    lemma_sqrt_ceil_unique(l * l, l, sqrt_ceil_spec(l * l));
}

/// Contact between two round shapes whose centres lie a whole distance `l`
/// apart: it exists exactly when `l <= r1 + r2 + margin`, and then its depth
/// is `r1 + r2 - l` and its normal is `c2 - c1` (a positive multiple of the
/// unit normal from the first centre to the second) unless the centres
/// coincide.
pub proof fn lemma_ball_contact_exact(
    c1: Vector,
    r1: i64,
    f1: LocalFeature,
    c2: Vector,
    r2: i64,
    f2: LocalFeature,
    margin: i64,
    l: int,
)
    requires
        c1.is_small(),
        c2.is_small(),
        sizes_ok(r1, r2, margin),
        l >= 0,
        v_norm_sq(v_sub(c2@, c1@)) == l * l,
    ensures
        round_contact(c1, r1, f1, c2, r2, f2, margin).is_some() == (l <= r1 + r2 + margin),
        round_contact(c1, r1, f1, c2, r2, f2, margin) matches Some(p) ==> p.0.depth == r1 + r2 - l
            && (l > 0 ==> p.0.normal@ == v_sub(c2@, c1@)),
{
    let k = r1 + r2 + margin;
    assert(l * l <= k * k <==> l <= k) by (nonlinear_arith)
        requires
            l >= 0,
            k >= 0,
    ;
    lemma_sqrt_ceil_of_square(l);
    if l > 0 {
        assert(l * l > 0) by (nonlinear_arith)
            requires
                l > 0,
        ;
    }
}

/// Distance between a ball or point and another whose centres lie a whole
/// distance `l` apart: they intersect exactly when `l <= r1 + r2`, and are
/// otherwise apart by `l - r1 - r2`, the analytic separation.
pub proof fn lemma_distance_exact(nsq: int, rs: int, l: int)
    requires
        rs >= 0,
        l >= 0,
        nsq == l * l,
    ensures
        (nsq <= rs * rs) == (l <= rs),
        l > rs ==> separation(nsq, rs) == l - rs,
{
    assert(l * l <= rs * rs <==> l <= rs) by (nonlinear_arith)
        requires
            l >= 0,
            rs >= 0,
    ;
    lemma_sqrt_ceil_of_square(l);
}

} // verus!

