//! Integer vectors and the arithmetic the geometric queries are built on.
use vstd::prelude::*;

verus! {

/// Largest magnitude of a coordinate, radius or margin that the queries accept.
pub const LIMIT: i64 = 0x100_0000;

/// Whether an integer lies within the accepted coordinate range.
pub open spec fn small(v: int) -> bool {
    -LIMIT <= v <= LIMIT
}

/// Whether all coordinates lie within the accepted range.
pub open spec fn small_v3(v: V3) -> bool {
    small(v.x) && small(v.y) && small(v.z)
}

/// Mathematical view of a vector.
pub struct V3 {
    pub x: int,
    pub y: int,
    pub z: int,
}

pub open spec fn v3(x: int, y: int, z: int) -> V3 {
    V3 { x, y, z }
}

pub open spec fn v_add(a: V3, b: V3) -> V3 {
    v3(a.x + b.x, a.y + b.y, a.z + b.z)
}

pub open spec fn v_sub(a: V3, b: V3) -> V3 {
    v3(a.x - b.x, a.y - b.y, a.z - b.z)
}

pub open spec fn v_neg(a: V3) -> V3 {
    v3(-a.x, -a.y, -a.z)
}

pub open spec fn v_dot(a: V3, b: V3) -> int {
    a.x * b.x + a.y * b.y + a.z * b.z
}

pub open spec fn v_norm_sq(a: V3) -> int {
    v_dot(a, a)
}

/// A three-dimensional vector (or point) with integer coordinates.
#[derive(Clone, Copy, Debug, PartialEq, Eq, Structural)]
pub struct Vector {
    pub x: i64,
    pub y: i64,
    pub z: i64,
}

impl View for Vector {
    type V = V3;

    open spec fn view(&self) -> V3 {
        v3(self.x as int, self.y as int, self.z as int)
    }
}

impl Vector {
    /// All coordinates are bounded by `k` in magnitude.
    pub open spec fn bounded_by(&self, k: int) -> bool {
        -k <= self.x <= k && -k <= self.y <= k && -k <= self.z <= k
    }

    /// All coordinates lie within the accepted range.
    pub open spec fn is_small(&self) -> bool {
        small(self.x as int) && small(self.y as int) && small(self.z as int)
    }

    pub fn new(x: i64, y: i64, z: i64) -> (r: Vector)
        ensures
            r@ == v3(x as int, y as int, z as int),
    {
        Vector { x, y, z }
    }

    /// The origin.
    pub fn zero() -> (r: Vector)
        ensures
            r@ == v3(0, 0, 0),
    {
        Vector { x: 0, y: 0, z: 0 }
    }

    /// The unit vector along the first axis.
    pub fn x_axis() -> (r: Vector)
        ensures
            r@ == v3(1, 0, 0),
    {
        Vector { x: 1, y: 0, z: 0 }
    }

    pub fn add(&self, o: &Vector) -> (r: Vector)
        requires
            self.is_small(),
            o.is_small(),
        ensures
            r@ == v_add(self@, o@),
    {
        Vector { x: self.x + o.x, y: self.y + o.y, z: self.z + o.z }
    }

    pub fn sub(&self, o: &Vector) -> (r: Vector)
        requires
            self.is_small(),
            o.is_small(),
        ensures
            r@ == v_sub(self@, o@),
    {
        Vector { x: self.x - o.x, y: self.y - o.y, z: self.z - o.z }
    }

    pub fn neg(&self) -> (r: Vector)
        requires
            self.is_small(),
        ensures
            r@ == v_neg(self@),
            r.is_small(),
    {
        Vector { x: -self.x, y: -self.y, z: -self.z }
    }

    /// The opposite vector, for coordinates other than `i64::MIN`.
    pub fn neg_wide(&self) -> (r: Vector)
        requires
            self.bounded_by(i64::MAX as int),
        ensures
            r@ == v_neg(self@),
            r.bounded_by(i64::MAX as int),
    {
        Vector { x: -self.x, y: -self.y, z: -self.z }
    }

    /// Dot product; each coordinate may be up to twice the accepted range.
    pub fn dot(&self, o: &Vector) -> (r: i64)
        requires
            self.is_double_small(),
            o.is_double_small(),
        ensures
            r == v_dot(self@, o@),
            -0xC_0000_0000_0000 <= r <= 0xC_0000_0000_0000,
    {
        let a = mul_small(self.x, o.x);
        let b = mul_small(self.y, o.y);
        let c = mul_small(self.z, o.z);
        a + b + c
    }

    /// All coordinates lie within twice the accepted range (a difference of two points).
    pub open spec fn is_double_small(&self) -> bool {
        -2 * LIMIT <= self.x <= 2 * LIMIT && -2 * LIMIT <= self.y <= 2 * LIMIT && -2 * LIMIT
            <= self.z <= 2 * LIMIT
    }

    pub fn norm_sq(&self) -> (r: i64)
        requires
            self.is_double_small(),
        ensures
            r == v_norm_sq(self@),
            0 <= r <= 0xC_0000_0000_0000,
    {
        proof {
            lemma_square_nonneg(self.x as int);
            lemma_square_nonneg(self.y as int);
            lemma_square_nonneg(self.z as int);
        }
        self.dot(self)
    }
}

pub proof fn lemma_square_nonneg(a: int)
    ensures
        a * a >= 0,
{
    assert(a * a >= 0) by (nonlinear_arith);
}

pub proof fn lemma_mul_bound(a: int, b: int, k: int)
    requires
        -k <= a <= k,
        -k <= b <= k,
    ensures
        -(k * k) <= a * b <= k * k,
{
    assert(-(k * k) <= a * b <= k * k) by (nonlinear_arith)
        requires
            -k <= a <= k,
            -k <= b <= k,
    ;
}

/// Product of two integers within twice the accepted range.
pub fn mul_small(a: i64, b: i64) -> (r: i64)
    requires
        -2 * LIMIT <= a <= 2 * LIMIT,
        -2 * LIMIT <= b <= 2 * LIMIT,
    ensures
        r == a * b,
        -0x4_0000_0000_0000 <= r <= 0x4_0000_0000_0000,
{
    proof {
        lemma_mul_bound(a as int, b as int, 0x200_0000);
    }
    a * b
}

/// `s` is the smallest non-negative integer whose square is at least `n`.
pub open spec fn is_sqrt_ceil(n: int, s: int) -> bool {
    s >= 0 && s * s >= n && (s == 0 || (s - 1) * (s - 1) < n)
}

/// Square root of `n`, rounded up.
pub fn sqrt_ceil(n: i64) -> (r: i64)
    requires
        0 <= n <= 0x1000_0000_0000_0000,
    ensures
        is_sqrt_ceil(n as int, r as int),
{
    if n == 0 {
        return 0;
    }
    let mut lo: i64 = 0;
    let mut hi: i64 = 0x4000_0000;
    assert(hi * hi == 0x1000_0000_0000_0000) by (nonlinear_arith)
        requires
            hi == 0x4000_0000,
    ;
    while hi - lo > 1
        invariant
            0 <= lo < hi <= 0x4000_0000,
            lo * lo < n,
            hi * hi >= n,
        decreases hi - lo,
    {
        let mid: i64 = lo + (hi - lo) / 2;
        proof {
            lemma_mul_bound(mid as int, mid as int, 0x4000_0000);
        }
        if mid * mid >= n {
            hi = mid;
        } else {
            lo = mid;
        }
    }
    assert(hi - 1 == lo);
    hi
}

} // verus!
