//! Contact records and the per-contact data used to track them across frames.
use vstd::prelude::*;
use crate::math::{Vector, v_neg};

verus! {

/// Geometric description of a contact: a point on each shape, a centre, a
/// normal and a penetration depth (negative while the shapes are apart).
#[derive(Clone, Copy, Debug)]
pub struct GeometricContact<V, N> {
    pub world1: V,
    pub world2: V,
    pub center: V,
    pub normal: V,
    pub depth: N,
}

impl<V: Copy, N: Copy> GeometricContact<V, N> {
    pub fn new(center: &V, normal: &V, depth: &N, world1: &V, world2: &V) -> (r: Self)
        ensures
            r.center == *center,
            r.normal == *normal,
            r.depth == *depth,
            r.world1 == *world1,
            r.world2 == *world2,
    {
        GeometricContact {
            world1: *world1,
            world2: *world2,
            center: *center,
            normal: *normal,
            depth: *depth,
        }
    }

    pub fn set_center(&mut self, center: &V)
        ensures
            *final(self) == (GeometricContact { center: *center, ..*old(self) }),
    {
        self.center = *center;
    }

    pub fn center(&self) -> (r: V)
        ensures
            r == self.center,
    {
        self.center
    }

    pub fn set_normal(&mut self, normal: &V)
        ensures
            *final(self) == (GeometricContact { normal: *normal, ..*old(self) }),
    {
        self.normal = *normal;
    }

    pub fn normal(&self) -> (r: V)
        ensures
            r == self.normal,
    {
        self.normal
    }

    pub fn set_depth(&mut self, depth: &N)
        ensures
            *final(self) == (GeometricContact { depth: *depth, ..*old(self) }),
    {
        self.depth = *depth;
    }

    pub fn depth(&self) -> (r: N)
        ensures
            r == self.depth,
    {
        self.depth
    }

    pub fn set_world1(&mut self, world1: &V)
        ensures
            *final(self) == (GeometricContact { world1: *world1, ..*old(self) }),
    {
        self.world1 = *world1;
    }

    pub fn world1(&self) -> (r: V)
        ensures
            r == self.world1,
    {
        self.world1
    }

    pub fn set_world2(&mut self, world2: &V)
        ensures
            *final(self) == (GeometricContact { world2: *world2, ..*old(self) }),
    {
        self.world2 = *world2;
    }

    pub fn world2(&self) -> (r: V)
        ensures
            r == self.world2,
    {
        self.world2
    }
}

/// A contact between integer shapes.
pub type Contact = GeometricContact<Vector, i64>;

impl GeometricContact<Vector, i64> {
    /// Exchanges the roles of the two shapes: the normal is reversed and the
    /// two world points swap.
    pub fn flip(&mut self)
        requires
            old(self).normal.bounded_by(i64::MAX as int),
        ensures
            final(self).normal@ == v_neg(old(self).normal@),
            final(self).world1 == old(self).world2,
            final(self).world2 == old(self).world1,
            final(self).center == old(self).center,
            final(self).depth == old(self).depth,
    {
        self.normal = self.normal.neg_wide();
        let w = self.world1;
        self.world1 = self.world2;
        self.world2 = w;
    }
}

/// The topological feature of a primitive shape that a contact attaches to.
#[derive(Clone, Copy, Debug, PartialEq, Eq, Structural)]
pub enum LocalFeature {
    Vertex(usize),
    Face(usize),
}

/// Identifies where a contact attaches: a feature of a primitive shape, or,
/// on a composite shape, a sub-shape index together with that sub-shape's
/// own feature.
#[derive(Clone, Copy, Debug, PartialEq, Eq, Structural)]
pub enum FeatureId {
    Local(LocalFeature),
    Part(usize, LocalFeature),
}

/// The local feature that a feature id names, whatever part it lies on.
pub open spec fn local_of(f: FeatureId) -> LocalFeature {
    match f {
        FeatureId::Local(l) => l,
        FeatureId::Part(_, l) => l,
    }
}

/// The id of feature `f` of sub-shape `part` of a composite shape.
pub open spec fn fold_spec(part: usize, f: FeatureId) -> FeatureId {
    FeatureId::Part(part, local_of(f))
}

impl FeatureId {
    /// Places this feature on sub-shape `part` of a composite shape.
    pub fn fold_into_part(&self, part: usize) -> (r: FeatureId)
        ensures
            r == fold_spec(part, *self),
    {
        match self {
            FeatureId::Local(l) => FeatureId::Part(part, *l),
            FeatureId::Part(_, l) => FeatureId::Part(part, *l),
        }
    }

    pub fn same(&self, o: &FeatureId) -> (r: bool)
        ensures
            r == (*self == *o),
    {
        match (self, o) {
            (FeatureId::Local(a), FeatureId::Local(b)) => same_local(a, b),
            (FeatureId::Part(i, a), FeatureId::Part(j, b)) => *i == *j && same_local(a, b),
            _ => false,
        }
    }
}

fn same_local(a: &LocalFeature, b: &LocalFeature) -> (r: bool)
    ensures
        r == (*a == *b),
{
    match (a, b) {
        (LocalFeature::Vertex(i), LocalFeature::Vertex(j)) => *i == *j,
        (LocalFeature::Face(i), LocalFeature::Face(j)) => *i == *j,
        _ => false,
    }
}

/// The normals a contact may take on one side: none recorded (the contact
/// normal is then the only one), or the single direction of a flat face.
#[derive(Clone, Copy, Debug, PartialEq, Eq, Structural)]
pub enum NormalCone {
    Empty,
    Ray(Vector),
}

/// Per-contact data for warm-starting: the feature and local anchor on each
/// shape, the cone of admissible normals on each side, and the dilation to
/// add along the normal to reach each surface from its anchor.
#[derive(Clone, Copy, Debug, PartialEq, Eq, Structural)]
pub struct ContactKinematic {
    pub feature1: FeatureId,
    pub feature2: FeatureId,
    pub local1: Vector,
    pub local2: Vector,
    pub normals1: NormalCone,
    pub normals2: NormalCone,
    pub dilation1: i64,
    pub dilation2: i64,
}

impl ContactKinematic {
    /// Anchors at both local origins on face 0, no cones, no dilation.
    pub fn new() -> (r: ContactKinematic)
        ensures
            r.feature1 == FeatureId::Local(LocalFeature::Face(0)),
            r.feature2 == FeatureId::Local(LocalFeature::Face(0)),
            r.local1@ == crate::math::v3(0, 0, 0),
            r.local2@ == crate::math::v3(0, 0, 0),
            r.normals1 == NormalCone::Empty,
            r.normals2 == NormalCone::Empty,
            r.dilation1 == 0,
            r.dilation2 == 0,
    {
        ContactKinematic {
            feature1: FeatureId::Local(LocalFeature::Face(0)),
            feature2: FeatureId::Local(LocalFeature::Face(0)),
            local1: Vector::zero(),
            local2: Vector::zero(),
            normals1: NormalCone::Empty,
            normals2: NormalCone::Empty,
            dilation1: 0,
            dilation2: 0,
        }
    }
}

} // verus!
