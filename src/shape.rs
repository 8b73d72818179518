//! The shape kinds the narrow phase handles and their capability tests.
use vstd::prelude::*;
use crate::math::{LIMIT, Vector, V3, v3, v_neg};
use crate::transform::{Isometry, M3};

verus! {

/// A signed coordinate axis of a shape's local frame.
#[derive(Clone, Copy, Debug, PartialEq, Eq, Structural)]
pub enum Axis {
    PosX,
    NegX,
    PosY,
    NegY,
    PosZ,
    NegZ,
}

/// The world direction of a local axis under linear part `m`.
pub open spec fn axis_dir(m: M3, a: Axis) -> V3 {
    match a {
        Axis::PosX => m.c0,
        Axis::NegX => v_neg(m.c0),
        Axis::PosY => m.c1,
        Axis::NegY => v_neg(m.c1),
        Axis::PosZ => m.c2,
        Axis::NegZ => v_neg(m.c2),
    }
}

/// A ball of a composite shape, placed at `offset` in the composite's frame
/// (a point when the radius is zero).
#[derive(Clone, Copy, Debug, PartialEq, Eq, Structural)]
pub struct Part {
    pub offset: Vector,
    pub radius: i64,
}

/// A shape, placed in the world by a pose.
///   - `Ball(r)`: the points within distance `r` of the pose's origin.
///   - `Point`: the pose's origin alone.
///   - `Plane(a)`: the half-space behind the plane through the pose's origin
///     whose outward normal is the local axis `a`.
///   - `Compound(parts)`: the union of balls placed in the pose's frame.
#[derive(Clone, Debug)]
pub enum Shape {
    Ball(i64),
    Point,
    Plane(Axis),
    Compound(Vec<Part>),
}

/// Radius of a round shape: a ball, or a point as a ball of radius zero.
pub open spec fn round_radius(s: Shape) -> int {
    match s {
        Shape::Ball(r) => r as int,
        _ => 0,
    }
}

impl Shape {
    /// Radii are non-negative and all sizes lie within the accepted range.
    pub open spec fn wf(&self) -> bool {
        match self {
            Shape::Ball(r) => 0 <= *r <= LIMIT,
            Shape::Compound(parts) => forall|i: int|
                0 <= i < parts@.len() ==> parts@[i].offset.is_small() && 0 <= #[trigger] parts@[i].radius
                    <= LIMIT,
            _ => true,
        }
    }

    pub open spec fn ball_spec(&self) -> bool {
        self is Ball
    }

    pub open spec fn plane_spec(&self) -> bool {
        self is Plane
    }

    /// Shapes with a support map: balls and points.
    pub open spec fn support_map_spec(&self) -> bool {
        self is Ball || self is Point
    }

    pub open spec fn composite_spec(&self) -> bool {
        self is Compound
    }

    pub fn is_ball(&self) -> (r: bool)
        ensures
            r == self.ball_spec(),
    {
        matches!(self, Shape::Ball(_))
    }

    pub fn is_plane(&self) -> (r: bool)
        ensures
            r == self.plane_spec(),
    {
        matches!(self, Shape::Plane(_))
    }

    pub fn is_support_map(&self) -> (r: bool)
        ensures
            r == self.support_map_spec(),
    {
        matches!(self, Shape::Ball(_) | Shape::Point)
    }

    pub fn is_composite_shape(&self) -> (r: bool)
        ensures
            r == self.composite_spec(),
    {
        matches!(self, Shape::Compound(_))
    }

    /// Radius of a round shape.
    pub fn radius(&self) -> (r: i64)
        requires
            self.support_map_spec(),
        ensures
            r == round_radius(*self),
    {
        match self {
            Shape::Ball(r) => *r,
            _ => 0,
        }
    }
}

/// A support-mapped shape that is the origin of world space whatever its pose.
pub struct ConstantOrigin;

impl ConstantOrigin {
    /// The point of the shape farthest along `dir`: the origin.
    pub fn support_point(&self, pose: &Isometry, dir: &Vector) -> (r: Vector)
        ensures
            r@ == v3(0, 0, 0),
    {
        Vector::zero()
    }

    /// Same as `support_point`, for a direction of unit length.
    pub fn support_point_toward(&self, pose: &Isometry, dir: &Vector) -> (r: Vector)
        ensures
            r@ == v3(0, 0, 0),
    {
        Vector::zero()
    }
}

} // verus!
