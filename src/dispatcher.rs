//! Selection of the algorithm that handles a pair of shapes.
use vstd::prelude::*;
use crate::generators::{
    BallBallContactGenerator, CompositeShapeShapeContactGenerator, PlaneSupportMapContactGenerator,
    SupportMapSupportMapContactGenerator, in_step, opt_seq, part_contacts, parts_fit,
    id_origin, id_rule, is_first_close, part_count, plane_pair_contact, refreshed, round_feature,
};
use crate::contact::{Contact, ContactKinematic, LocalFeature};
use crate::query::round_contact;
use crate::shape::round_radius;
use crate::id_allocator::IdAllocator;
use crate::manifold::{ContactManifold, close, ids_step};
use crate::math::LIMIT;
use crate::query::is_pose;
use crate::shape::Shape;
use crate::transform::Isometry;

verus! {

/// The algorithms a pair of shapes can be handed to.
#[derive(Clone, Copy, Debug, PartialEq, Eq, Structural)]
pub enum AlgorithmKind {
    BallBall,
    PlaneSupportMap,
    SupportMapPlane,
    SupportMapSupportMap,
    CompositeShapeShape,
    ShapeCompositeShape,
}

/// The dispatch policy; the first rule that applies wins:
/// two balls; a plane then a support map; a support map then a plane; two
/// support maps; a composite then any shape; any shape then a composite.
/// Any other pair (two planes) has no algorithm.
pub open spec fn select_spec(a: Shape, b: Shape) -> Option<AlgorithmKind> {
    if a.ball_spec() && b.ball_spec() {
        Some(AlgorithmKind::BallBall)
    } else if a.plane_spec() && b.support_map_spec() {
        Some(AlgorithmKind::PlaneSupportMap)
    } else if b.plane_spec() && a.support_map_spec() {
        Some(AlgorithmKind::SupportMapPlane)
    } else if a.support_map_spec() && b.support_map_spec() {
        Some(AlgorithmKind::SupportMapSupportMap)
    } else if a.composite_spec() {
        Some(AlgorithmKind::CompositeShapeShape)
    } else if b.composite_spec() {
        Some(AlgorithmKind::ShapeCompositeShape)
    } else {
        None
    }
}

/// Applies the dispatch policy to two shapes.
pub fn select(a: &Shape, b: &Shape) -> (r: Option<AlgorithmKind>)
    ensures
        r == select_spec(*a, *b),
{
    let a_is_ball = a.is_ball();
    let b_is_ball = b.is_ball();
    if a_is_ball && b_is_ball {
        Some(AlgorithmKind::BallBall)
    } else if a.is_plane() && b.is_support_map() {
        Some(AlgorithmKind::PlaneSupportMap)
    } else if b.is_plane() && a.is_support_map() {
        Some(AlgorithmKind::SupportMapPlane)
    } else if a.is_support_map() && b.is_support_map() {
        Some(AlgorithmKind::SupportMapSupportMap)
    } else if a.is_composite_shape() {
        Some(AlgorithmKind::CompositeShapeShape)
    } else if b.is_composite_shape() {
        Some(AlgorithmKind::ShapeCompositeShape)
    } else {
        None
    }
}

/// Whether an algorithm of kind `k` handles shapes `a` and `b` in that order.
pub open spec fn handles(k: AlgorithmKind, a: Shape, b: Shape) -> bool {
    match k {
        AlgorithmKind::BallBall => a.ball_spec() && b.ball_spec(),
        AlgorithmKind::PlaneSupportMap => a.plane_spec() && b.support_map_spec(),
        AlgorithmKind::SupportMapPlane => b.plane_spec() && a.support_map_spec(),
        AlgorithmKind::SupportMapSupportMap => a.support_map_spec() && b.support_map_spec(),
        AlgorithmKind::CompositeShapeShape => a.composite_spec(),
        AlgorithmKind::ShapeCompositeShape => b.composite_spec(),
    }
}

/// The dispatch policy only picks an algorithm that handles the pair.
pub proof fn lemma_selected_handles(a: Shape, b: Shape)
    ensures
        select_spec(a, b) matches Some(k) ==> handles(k, a, b),
{
}

/// Specialised rules come first: two balls are handed to the ball-ball
/// algorithm although both are also support maps.
pub proof fn lemma_specialised_rule_first(a: Shape, b: Shape)
    requires
        a.ball_spec(),
        b.ball_spec(),
    ensures
        a.support_map_spec() && b.support_map_spec(),
        select_spec(a, b) == Some(AlgorithmKind::BallBall),
        select_spec(a, b) != Some(AlgorithmKind::SupportMapSupportMap),
{
}

/// A persistent contact generator for one pair of shapes.
#[derive(Debug)]
pub enum ContactAlgorithm {
    BallBall(BallBallContactGenerator),
    PlaneSupportMap(PlaneSupportMapContactGenerator),
    SupportMapSupportMap(SupportMapSupportMapContactGenerator),
    CompositeShapeShape(CompositeShapeShapeContactGenerator),
}

/// The contacts that a generator of kind `k` finds for shapes it handles,
/// as each generator's `update` states them.
pub open spec fn found_by(
    k: AlgorithmKind,
    ma: Isometry,
    a: Shape,
    mb: Isometry,
    b: Shape,
    prediction: i64,
) -> Seq<(Contact, ContactKinematic)> {
    match k {
        AlgorithmKind::BallBall => opt_seq(
            round_contact(
                ma.trans(),
                round_radius(a) as i64,
                LocalFeature::Face(0),
                mb.trans(),
                round_radius(b) as i64,
                LocalFeature::Face(0),
                prediction,
            ),
        ),
        AlgorithmKind::SupportMapSupportMap => opt_seq(
            round_contact(
                ma.trans(),
                round_radius(a) as i64,
                round_feature(a),
                mb.trans(),
                round_radius(b) as i64,
                round_feature(b),
                prediction,
            ),
        ),
        AlgorithmKind::PlaneSupportMap => opt_seq(plane_pair_contact(false, ma, a, mb, b, prediction)),
        AlgorithmKind::SupportMapPlane => opt_seq(plane_pair_contact(true, mb, b, ma, a, prediction)),
        AlgorithmKind::CompositeShapeShape => match a {
            Shape::Compound(parts) => part_contacts(false, ma, parts@, mb, b, prediction, parts@.len()),
            _ => Seq::empty(),
        },
        AlgorithmKind::ShapeCompositeShape => match b {
            Shape::Compound(parts) => part_contacts(true, mb, parts@, ma, a, prediction, parts@.len()),
            _ => Seq::empty(),
        },
    }
}

impl Clone for ContactAlgorithm {
    /// A copy of the same kind holding an equal manifold.
    fn clone(&self) -> (r: ContactAlgorithm)
        ensures
            r.kind() == self.kind(),
            r.manifold().points() == self.manifold().points(),
            r.manifold().cache() == self.manifold().cache(),
            r.manifold().matched() == self.manifold().matched(),
    {
        match self {
            ContactAlgorithm::BallBall(g) => ContactAlgorithm::BallBall(g.clone()),
            ContactAlgorithm::PlaneSupportMap(g) => ContactAlgorithm::PlaneSupportMap(g.clone()),
            ContactAlgorithm::SupportMapSupportMap(g) => ContactAlgorithm::SupportMapSupportMap(g.clone()),
            ContactAlgorithm::CompositeShapeShape(g) => ContactAlgorithm::CompositeShapeShape(g.clone()),
        }
    }
}

impl ContactAlgorithm {
    /// The algorithm this generator runs.
    pub open spec fn kind(&self) -> AlgorithmKind {
        match self {
            ContactAlgorithm::BallBall(_) => AlgorithmKind::BallBall,
            ContactAlgorithm::PlaneSupportMap(g) => if g.flipped() {
                AlgorithmKind::SupportMapPlane
            } else {
                AlgorithmKind::PlaneSupportMap
            },
            ContactAlgorithm::SupportMapSupportMap(_) => AlgorithmKind::SupportMapSupportMap,
            ContactAlgorithm::CompositeShapeShape(g) => if g.flipped() {
                AlgorithmKind::ShapeCompositeShape
            } else {
                AlgorithmKind::CompositeShapeShape
            },
        }
    }

    /// The manifold of the pair.
    pub open spec fn manifold(&self) -> ContactManifold {
        match self {
            ContactAlgorithm::BallBall(g) => g.manifold(),
            ContactAlgorithm::PlaneSupportMap(g) => g.manifold(),
            ContactAlgorithm::SupportMapSupportMap(g) => g.manifold(),
            ContactAlgorithm::CompositeShapeShape(g) => g.manifold(),
        }
    }

    /// Refreshes the manifold for the shapes at their new poses and reports
    /// whether the shapes are of the kinds this generator handles; when they
    /// are not, nothing changes.
    /// Each new point takes the identifier of a previous-frame point it
    /// continues, or a fresh one; the identifiers of previous-frame points
    /// not continued stay held by the manifold until the next update starts,
    /// which releases them.
    pub fn update(
        &mut self,
        ma: &Isometry,
        a: &Shape,
        mb: &Isometry,
        b: &Shape,
        prediction: i64,
        alloc: &mut IdAllocator,
    ) -> (r: bool)
        requires
            in_step(old(self).manifold(), *old(alloc)),
            old(alloc).room() >= 1,
            old(alloc).room() >= part_count(*a) * part_count(*b),
            is_pose(*ma),
            is_pose(*mb),
            a.wf(),
            b.wf(),
            parts_fit(*ma, *a),
            parts_fit(*mb, *b),
            0 <= prediction <= LIMIT,
        ensures
            r == handles(old(self).kind(), *a, *b),
            final(self).kind() == old(self).kind(),
            in_step(final(self).manifold(), *final(alloc)),
            ids_step(old(self).manifold(), final(self).manifold(), *old(alloc), *final(alloc)),
            r ==> refreshed(
                old(self).manifold(),
                final(self).manifold(),
                found_by(old(self).kind(), *ma, *a, *mb, *b, prediction),
            ),
            r ==> forall|q: int|
                0 <= q < final(self).manifold().points().len() ==> id_origin(
                    final(self).manifold().cache(),
                    #[trigger] final(self).manifold().points()[q],
                ),
            !r ==> final(self).manifold() == old(self).manifold() && *final(alloc) == *old(alloc),
    {
        let r = match self {
            ContactAlgorithm::BallBall(g) => g.update(ma, a, mb, b, prediction, alloc),
            ContactAlgorithm::PlaneSupportMap(g) => g.update(ma, a, mb, b, prediction, alloc),
            ContactAlgorithm::SupportMapSupportMap(g) => g.update(ma, a, mb, b, prediction, alloc),
            ContactAlgorithm::CompositeShapeShape(g) => g.update(ma, a, mb, b, prediction, alloc),
        };
        proof {
            if r {
                let m = self.manifold();
                assert forall|q: int| 0 <= q < m.points().len() implies id_origin(
                    m.cache(),
                    #[trigger] m.points()[q],
                ) by {
                    if !(*self is CompositeShapeShape) {
                        assert(id_rule(m.cache(), m.points()[q]));
                        if exists|j: int| is_first_close(m.cache(), m.points()[q].kinematic, j) && m.points()[q].id == m.cache()[j].id {
                            let j = choose|j: int| is_first_close(m.cache(), m.points()[q].kinematic, j) && m.points()[q].id == m.cache()[j].id;
                            assert(0 <= j < m.cache().len() && close(m.cache()[j].kinematic, m.points()[q].kinematic));
                        }
                    }
                }
            }
        }
        r
    }

    /// Number of contacts of the current frame.
    pub fn num_contacts(&self) -> (r: usize)
        ensures
            r == self.manifold().points().len(),
    {
        match self {
            ContactAlgorithm::BallBall(g) => g.num_contacts(),
            ContactAlgorithm::PlaneSupportMap(g) => g.num_contacts(),
            ContactAlgorithm::SupportMapSupportMap(g) => g.num_contacts(),
            ContactAlgorithm::CompositeShapeShape(g) => g.num_contacts(),
        }
    }

    /// Appends the manifold of this pair to `out` when it holds contacts.
    pub fn contacts<'a>(&'a self, out: &mut Vec<&'a ContactManifold>)
        ensures
            self.manifold().points().len() != 0 ==> final(out)@ == old(out)@.push(&self.manifold()),
            self.manifold().points().len() == 0 ==> final(out)@ == old(out)@,
    {
        match self {
            ContactAlgorithm::BallBall(g) => g.contacts(out),
            ContactAlgorithm::PlaneSupportMap(g) => g.contacts(out),
            ContactAlgorithm::SupportMapSupportMap(g) => g.contacts(out),
            ContactAlgorithm::CompositeShapeShape(g) => g.contacts(out),
        }
    }
}

/// Contact dispatcher for the shapes of this library.
pub struct DefaultContactDispatcher {}

impl DefaultContactDispatcher {
    pub fn new() -> (r: DefaultContactDispatcher) {
        DefaultContactDispatcher {  }
    }

    /// A fresh generator for the pair, as the dispatch policy selects, or
    /// `None` when no algorithm handles the pair.
    pub fn get_contact_algorithm(&self, a: &Shape, b: &Shape) -> (r: Option<ContactAlgorithm>)
        ensures
            r.is_some() == select_spec(*a, *b).is_some(),
            r matches Some(g) ==> Some(g.kind()) == select_spec(*a, *b) && g.manifold().wf()
                && g.manifold().points().len() == 0 && g.manifold().ids() == Set::<usize>::empty(),
    {
        match select(a, b) {
            Some(AlgorithmKind::BallBall) => Some(
                ContactAlgorithm::BallBall(BallBallContactGenerator::new()),
            ),
            Some(AlgorithmKind::PlaneSupportMap) => Some(
                ContactAlgorithm::PlaneSupportMap(PlaneSupportMapContactGenerator::new(false)),
            ),
            Some(AlgorithmKind::SupportMapPlane) => Some(
                ContactAlgorithm::PlaneSupportMap(PlaneSupportMapContactGenerator::new(true)),
            ),
            Some(AlgorithmKind::SupportMapSupportMap) => Some(
                ContactAlgorithm::SupportMapSupportMap(SupportMapSupportMapContactGenerator::new()),
            ),
            Some(AlgorithmKind::CompositeShapeShape) => Some(
                ContactAlgorithm::CompositeShapeShape(CompositeShapeShapeContactGenerator::new(false)),
            ),
            Some(AlgorithmKind::ShapeCompositeShape) => Some(
                ContactAlgorithm::CompositeShapeShape(CompositeShapeShapeContactGenerator::new(true)),
            ),
            None => None,
        }
    }
}

} // verus!
