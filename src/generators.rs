//! Persistent contact generators: one per shape pair, each owning the pair's
//! manifold and refreshing it on every update.
use vstd::prelude::*;
use crate::contact::{Contact, ContactKinematic, FeatureId, GeometricContact, LocalFeature, local_of};
use crate::id_allocator::IdAllocator;
use crate::manifold::{ContactManifold, TrackedContact, close, ids_step, is_first_match, lemma_ids_step_trans};
use crate::math::{LIMIT, V3, v_add, v_neg, v_norm_sq, v_sub, small_v3};
use crate::query::{
    ball_against_ball, is_pose, plane_against_ball, plane_contact, round_contact, vec_of,
};
use crate::shape::{Part, Shape, round_radius};
use crate::transform::{Isometry, mat_vec};

verus! {

/// The feature a contact takes on a round shape: the face of a ball, the
/// vertex of a point.
pub open spec fn round_feature(s: Shape) -> LocalFeature {
    if s is Ball {
        LocalFeature::Face(0)
    } else {
        LocalFeature::Vertex(0)
    }
}

fn round_feature_of(s: &Shape) -> (r: LocalFeature)
    ensures
        r == round_feature(*s),
{
    if s.is_ball() {
        LocalFeature::Face(0)
    } else {
        LocalFeature::Vertex(0)
    }
}

/// The same contact seen with the two shapes exchanged.
pub open spec fn flip_pair(p: (Contact, ContactKinematic)) -> (Contact, ContactKinematic) {
    (
        GeometricContact {
            world1: p.0.world2,
            world2: p.0.world1,
            center: p.0.center,
            normal: vec_of(v_neg(p.0.normal@)),
            depth: p.0.depth,
        },
        ContactKinematic {
            feature1: p.1.feature2,
            feature2: p.1.feature1,
            local1: p.1.local2,
            local2: p.1.local1,
            normals1: p.1.normals2,
            normals2: p.1.normals1,
            dilation1: p.1.dilation2,
            dilation2: p.1.dilation1,
        },
    )
}

fn flip_contact(p: (Contact, ContactKinematic)) -> (r: (Contact, ContactKinematic))
    requires
        p.0.normal.bounded_by(i64::MAX as int),
    ensures
        r == flip_pair(p),
{
    let (mut c, k) = p;
    c.flip();
    let k2 = ContactKinematic {
        feature1: k.feature2,
        feature2: k.feature1,
        local1: k.local2,
        local2: k.local1,
        normals1: k.normals2,
        normals2: k.normals1,
        dilation1: k.dilation2,
        dilation2: k.dilation1,
    };
    (c, k2)
}

/// At most one contact, as a sequence.
pub open spec fn opt_seq(o: Option<(Contact, ContactKinematic)>) -> Seq<(Contact, ContactKinematic)> {
    match o {
        Some(x) => seq![x],
        None => Seq::empty(),
    }
}

/// `m_new` is `m_old` after a new frame whose contacts are `found`, in order.
pub open spec fn refreshed(
    m_old: ContactManifold,
    m_new: ContactManifold,
    found: Seq<(Contact, ContactKinematic)>,
) -> bool {
    &&& m_new.cache() == m_old.points()
    &&& m_new.points().len() == found.len()
    &&& forall|q: int|
        0 <= q < found.len() ==> (#[trigger] m_new.points()[q]).contact == found[q].0
            && m_new.points()[q].kinematic == found[q].1
}

/// The manifold and the allocator are in step: both well formed, and every
/// identifier of the manifold is live.
pub open spec fn in_step(m: ContactManifold, a: IdAllocator) -> bool {
    m.wf() && a.wf() && m.ids().subset_of(a.live())
}

/// `j` is the first point of `cache` that a point with kinematic `k` continues.
pub open spec fn is_first_close(cache: Seq<TrackedContact>, k: ContactKinematic, j: int) -> bool {
    &&& 0 <= j < cache.len()
    &&& close(cache[j].kinematic, k)
    &&& forall|i: int| 0 <= i < j ==> !close(cache[i].kinematic, k)
}

/// Point `p` takes the identifier of the first previous-frame point it
/// continues, or else one that no previous-frame point had.
pub open spec fn id_rule(cache: Seq<TrackedContact>, p: TrackedContact) -> bool {
    ||| exists|j: int| is_first_close(cache, p.kinematic, j) && p.id == cache[j].id
    ||| (forall|j: int| 0 <= j < cache.len() ==> !close(cache[j].kinematic, p.kinematic))
        && (forall|j: int| 0 <= j < cache.len() ==> cache[j].id != p.id)
}

/// Point `p` carries the identifier of a previous-frame point it continues,
/// or one that no previous-frame point had.
pub open spec fn id_origin(cache: Seq<TrackedContact>, p: TrackedContact) -> bool {
    ||| exists|j: int| 0 <= j < cache.len() && close(cache[j].kinematic, p.kinematic) && p.id == cache[j].id
    ||| forall|j: int| 0 <= j < cache.len() ==> cache[j].id != p.id
}

proof fn lemma_first_match_exists(m: ContactManifold, k: ContactKinematic, j: int)
    requires
        0 <= j < m.cache().len(),
        m.cache().len() == m.matched().len(),
        !m.matched()[j],
        close(m.cache()[j].kinematic, k),
    ensures
        exists|i: int| is_first_match(m, k, i),
    decreases j,
{
    if exists|i: int| 0 <= i < j && !m.matched()[i] && close(m.cache()[i].kinematic, k) {
        let i = choose|i: int| 0 <= i < j && !m.matched()[i] && close(m.cache()[i].kinematic, k);
        lemma_first_match_exists(m, k, i);
    } else {
        assert(is_first_match(m, k, j));
    }
}

/// Starts a frame on `m` and pushes the contact `o`, if any.
fn refresh_with(m: &mut ContactManifold, o: Option<(Contact, ContactKinematic)>, alloc: &mut IdAllocator)
    requires
        in_step(*old(m), *old(alloc)),
        old(alloc).room() >= 1,
        o matches Some(p) ==> p.1.local1.is_small() && p.1.local2.is_small(),
    ensures
        in_step(*final(m), *final(alloc)),
        ids_step(*old(m), *final(m), *old(alloc), *final(alloc)),
        refreshed(*old(m), *final(m), opt_seq(o)),
        forall|q: int| 0 <= q < final(m).points().len() ==> id_rule(final(m).cache(), #[trigger] final(m).points()[q]),
        forall|j: int|
            0 <= j < final(m).cache().len() && !final(m).matched()[j] ==> final(m).ids().contains(
                #[trigger] final(m).cache()[j].id,
            ),
        final(alloc).room() >= old(alloc).room() - 1,
{
    let ghost m0 = *m;
    let ghost a0 = *alloc;
    m.save_cache_and_clear(alloc);
    let ghost m1 = *m;
    let ghost a1 = *alloc;
    match o {
        Some(p) => {
            let (c, k) = p;
            let reused = m.push(c, k, alloc);
            proof {
                lemma_ids_step_trans(m0, m1, *m, a0, a1, *alloc);
                assert(m.points()[0] == m.points().last());
                let pt = m.points()[0];
                let cache = m.cache();
                if reused {
                    let j = choose|j: int|
                        is_first_match(m1, k, j) && pt.id == m1.cache()[j].id && m.matched()
                            == m1.matched().update(j, true) && *alloc == a1;
                    assert forall|i: int| 0 <= i < j implies !close(cache[i].kinematic, pt.kinematic) by {
                        assert(!m1.matched()[i]);
                    }
                    assert(is_first_close(cache, pt.kinematic, j));
                } else {
                    assert forall|j: int| 0 <= j < cache.len() implies !close(cache[j].kinematic, pt.kinematic) by {
                        if close(cache[j].kinematic, pt.kinematic) {
                            assert(!m1.matched()[j]);
                            lemma_first_match_exists(m1, k, j);
                        }
                    }
                    assert forall|j: int| 0 <= j < cache.len() implies cache[j].id != pt.id by {
                        assert(!m1.matched()[j]);
                        assert(m1.ids().contains(cache[j].id));
                    }
                }
            }
        },
        None => {},
    }
}

/// Collision detector between two balls.
#[derive(Debug)]
pub struct BallBallContactGenerator {
    manifold: ContactManifold,
}

impl Clone for BallBallContactGenerator {
    /// A copy holding an equal manifold.
    fn clone(&self) -> (r: BallBallContactGenerator)
        ensures
            r.manifold().points() == self.manifold().points(),
            r.manifold().cache() == self.manifold().cache(),
            r.manifold().matched() == self.manifold().matched(),
    {
        BallBallContactGenerator { manifold: self.manifold.clone() }
    }
}

impl BallBallContactGenerator {
    pub closed spec fn manifold(&self) -> ContactManifold {
        self.manifold
    }

    /// A detector with an empty manifold.
    pub fn new() -> (r: BallBallContactGenerator)
        ensures
            r.manifold().wf(),
            r.manifold().points().len() == 0,
            r.manifold().cache().len() == 0,
            r.manifold().ids() == Set::<usize>::empty(),
    {
        BallBallContactGenerator { manifold: ContactManifold::new() }
    }

    /// Refreshes the manifold when both shapes are balls and reports whether
    /// they were; otherwise nothing changes. The frame holds the single
    /// contact of the two balls if they lie within `prediction` of each other.
    /// Each new point takes the identifier of a previous-frame point it
    /// continues, or a fresh one; the identifiers of previous-frame points
    /// not continued stay held by the manifold until the next update starts,
    /// which releases them.
    pub fn update(
        &mut self,
        ma: &Isometry,
        a: &Shape,
        mb: &Isometry,
        b: &Shape,
        prediction: i64,
        alloc: &mut IdAllocator,
    ) -> (r: bool)
        requires
            in_step(old(self).manifold(), *old(alloc)),
            old(alloc).room() >= 1,
            ma.trans().is_small(),
            mb.trans().is_small(),
            a.wf(),
            b.wf(),
            0 <= prediction <= LIMIT,
        ensures
            r == (a.ball_spec() && b.ball_spec()),
            in_step(final(self).manifold(), *final(alloc)),
            ids_step(old(self).manifold(), final(self).manifold(), *old(alloc), *final(alloc)),
            final(alloc).room() >= old(alloc).room() - 1,
            r ==> refreshed(
                old(self).manifold(),
                final(self).manifold(),
                opt_seq(
                    round_contact(
                        ma.trans(),
                        round_radius(*a) as i64,
                        LocalFeature::Face(0),
                        mb.trans(),
                        round_radius(*b) as i64,
                        LocalFeature::Face(0),
                        prediction,
                    ),
                ),
            ),
            r ==> forall|q: int|
                0 <= q < final(self).manifold().points().len() ==> id_rule(
                    final(self).manifold().cache(),
                    #[trigger] final(self).manifold().points()[q],
                ),
            r ==> forall|j: int|
                0 <= j < final(self).manifold().cache().len() && !final(self).manifold().matched()[j]
                    ==> final(self).manifold().ids().contains(
                    #[trigger] final(self).manifold().cache()[j].id,
                ),
            old(self).manifold().points().len() <= 1 ==> final(self).manifold().points().len() <= 1,
            r ==> (final(self).manifold().points().len() == 1 <==> v_norm_sq(
                v_sub(mb.trans()@, ma.trans()@),
            ) <= (round_radius(*a) + round_radius(*b) + prediction) * (round_radius(*a)
                + round_radius(*b) + prediction)),
            r ==> final(self).manifold().points().len() <= 1,
            !r ==> final(self).manifold() == old(self).manifold() && *final(alloc) == *old(alloc),
    {
        if a.is_ball() && b.is_ball() {
            let ca = ma.subtrans();
            let cb = mb.subtrans();
            let found = ball_against_ball(
                &ca,
                a.radius(),
                LocalFeature::Face(0),
                &cb,
                b.radius(),
                LocalFeature::Face(0),
                prediction,
            );
            refresh_with(&mut self.manifold, found, alloc);
            true
        } else {
            proof {
                crate::manifold::lemma_ids_step_refl(self.manifold, *alloc);
            }
            false
        }
    }

    /// Number of contacts of the current frame.
    pub fn num_contacts(&self) -> (r: usize)
        ensures
            r == self.manifold().points().len(),
    {
        self.manifold.len()
    }

    /// Appends the manifold of this pair to `out` when it holds contacts.
    pub fn contacts<'a>(&'a self, out: &mut Vec<&'a ContactManifold>)
        ensures
            self.manifold().points().len() != 0 ==> final(out)@ == old(out)@.push(&self.manifold()),
            self.manifold().points().len() == 0 ==> final(out)@ == old(out)@,
    {
        if self.manifold.len() != 0 {
            out.push(&self.manifold);
        }
    }
}

/// The contact of the plane `pp` (local normal of `plane`) with the round
/// shape `other` placed at `po`, with the plane first unless `flip`.
pub open spec fn plane_pair_contact(
    flip: bool,
    pp: Isometry,
    plane: Shape,
    po: Isometry,
    other: Shape,
    prediction: i64,
) -> Option<(Contact, ContactKinematic)> {
    match plane {
        Shape::Plane(ax) => match plane_contact(
            pp,
            ax,
            po.trans(),
            round_radius(other) as i64,
            round_feature(other),
            prediction,
        ) {
            Some(x) => Some(
                if flip {
                    flip_pair(x)
                } else {
                    x
                },
            ),
            None => None,
        },
        _ => None,
    }
}

/// Collision detector between a plane and a support-mapped shape; `flip`
/// tells that the plane is the second shape.
#[derive(Debug)]
pub struct PlaneSupportMapContactGenerator {
    manifold: ContactManifold,
    flip: bool,
}

impl Clone for PlaneSupportMapContactGenerator {
    /// A copy holding an equal manifold.
    fn clone(&self) -> (r: PlaneSupportMapContactGenerator)
        ensures
            r.manifold().points() == self.manifold().points(),
            r.manifold().cache() == self.manifold().cache(),
            r.manifold().matched() == self.manifold().matched(),
            r.flipped() == self.flipped(),
    {
        PlaneSupportMapContactGenerator { manifold: self.manifold.clone(), flip: self.flip }
    }
}

impl PlaneSupportMapContactGenerator {
    pub closed spec fn manifold(&self) -> ContactManifold {
        self.manifold
    }

    pub closed spec fn flipped(&self) -> bool {
        self.flip
    }

    /// A detector with an empty manifold.
    pub fn new(flip: bool) -> (r: PlaneSupportMapContactGenerator)
        ensures
            r.manifold().wf(),
            r.manifold().points().len() == 0,
            r.manifold().ids() == Set::<usize>::empty(),
            r.flipped() == flip,
    {
        PlaneSupportMapContactGenerator { manifold: ContactManifold::new(), flip }
    }

    /// Refreshes the manifold when the pair is a plane and a support-mapped
    /// shape in the expected order, and reports whether it was; otherwise
    /// nothing changes.
    /// Each new point takes the identifier of a previous-frame point it
    /// continues, or a fresh one; the identifiers of previous-frame points
    /// not continued stay held by the manifold until the next update starts,
    /// which releases them.
    pub fn update(
        &mut self,
        ma: &Isometry,
        a: &Shape,
        mb: &Isometry,
        b: &Shape,
        prediction: i64,
        alloc: &mut IdAllocator,
    ) -> (r: bool)
        requires
            in_step(old(self).manifold(), *old(alloc)),
            old(alloc).room() >= 1,
            is_pose(*ma),
            is_pose(*mb),
            a.wf(),
            b.wf(),
            0 <= prediction <= LIMIT,
        ensures
            r == if old(self).flipped() {
                b.plane_spec() && a.support_map_spec()
            } else {
                a.plane_spec() && b.support_map_spec()
            },
            final(self).flipped() == old(self).flipped(),
            in_step(final(self).manifold(), *final(alloc)),
            ids_step(old(self).manifold(), final(self).manifold(), *old(alloc), *final(alloc)),
            final(alloc).room() >= old(alloc).room() - 1,
            r && !old(self).flipped() ==> refreshed(
                old(self).manifold(),
                final(self).manifold(),
                opt_seq(plane_pair_contact(false, *ma, *a, *mb, *b, prediction)),
            ),
            r && old(self).flipped() ==> refreshed(
                old(self).manifold(),
                final(self).manifold(),
                opt_seq(plane_pair_contact(true, *mb, *b, *ma, *a, prediction)),
            ),
            r ==> forall|q: int|
                0 <= q < final(self).manifold().points().len() ==> id_rule(
                    final(self).manifold().cache(),
                    #[trigger] final(self).manifold().points()[q],
                ),
            r ==> forall|j: int|
                0 <= j < final(self).manifold().cache().len() && !final(self).manifold().matched()[j]
                    ==> final(self).manifold().ids().contains(
                    #[trigger] final(self).manifold().cache()[j].id,
                ),
            !r ==> final(self).manifold() == old(self).manifold() && *final(alloc) == *old(alloc),
    {
        let (mp, plane, mo, other) = if self.flip {
            (mb, b, ma, a)
        } else {
            (ma, a, mb, b)
        };
        match plane {
            Shape::Plane(ax) => {
                if other.is_support_map() {
                    let found = plane_against_ball(
                        mp,
                        *ax,
                        &mo.subtrans(),
                        other.radius(),
                        round_feature_of(other),
                        prediction,
                    );
                    let found = match found {
                        Some(x) => {
                            if self.flip {
                                Some(flip_contact(x))
                            } else {
                                Some(x)
                            }
                        },
                        None => None,
                    };
                    refresh_with(&mut self.manifold, found, alloc);
                    true
                } else {
                    false
                }
            },
            _ => false,
        }
    }

    /// Number of contacts of the current frame.
    pub fn num_contacts(&self) -> (r: usize)
        ensures
            r == self.manifold().points().len(),
    {
        self.manifold.len()
    }

    /// Appends the manifold of this pair to `out` when it holds contacts.
    pub fn contacts<'a>(&'a self, out: &mut Vec<&'a ContactManifold>)
        ensures
            self.manifold().points().len() != 0 ==> final(out)@ == old(out)@.push(&self.manifold()),
            self.manifold().points().len() == 0 ==> final(out)@ == old(out)@,
    {
        if self.manifold.len() != 0 {
            out.push(&self.manifold);
        }
    }
}

/// Collision detector between two support-mapped shapes. The support-mapped
/// shapes are balls and points, whose Minkowski difference is a ball, so the
/// closest features are found in closed form.
#[derive(Debug)]
pub struct SupportMapSupportMapContactGenerator {
    manifold: ContactManifold,
}

impl Clone for SupportMapSupportMapContactGenerator {
    /// A copy holding an equal manifold.
    fn clone(&self) -> (r: SupportMapSupportMapContactGenerator)
        ensures
            r.manifold().points() == self.manifold().points(),
            r.manifold().cache() == self.manifold().cache(),
            r.manifold().matched() == self.manifold().matched(),
    {
        SupportMapSupportMapContactGenerator { manifold: self.manifold.clone() }
    }
}

impl SupportMapSupportMapContactGenerator {
    pub closed spec fn manifold(&self) -> ContactManifold {
        self.manifold
    }

    /// A detector with an empty manifold.
    pub fn new() -> (r: SupportMapSupportMapContactGenerator)
        ensures
            r.manifold().wf(),
            r.manifold().points().len() == 0,
            r.manifold().ids() == Set::<usize>::empty(),
    {
        SupportMapSupportMapContactGenerator { manifold: ContactManifold::new() }
    }

    /// Refreshes the manifold when both shapes are support-mapped, and
    /// reports whether they were; otherwise nothing changes.
    /// Each new point takes the identifier of a previous-frame point it
    /// continues, or a fresh one; the identifiers of previous-frame points
    /// not continued stay held by the manifold until the next update starts,
    /// which releases them.
    pub fn update(
        &mut self,
        ma: &Isometry,
        a: &Shape,
        mb: &Isometry,
        b: &Shape,
        prediction: i64,
        alloc: &mut IdAllocator,
    ) -> (r: bool)
        requires
            in_step(old(self).manifold(), *old(alloc)),
            old(alloc).room() >= 1,
            ma.trans().is_small(),
            mb.trans().is_small(),
            a.wf(),
            b.wf(),
            0 <= prediction <= LIMIT,
        ensures
            r == (a.support_map_spec() && b.support_map_spec()),
            in_step(final(self).manifold(), *final(alloc)),
            ids_step(old(self).manifold(), final(self).manifold(), *old(alloc), *final(alloc)),
            final(alloc).room() >= old(alloc).room() - 1,
            r ==> refreshed(
                old(self).manifold(),
                final(self).manifold(),
                opt_seq(
                    round_contact(
                        ma.trans(),
                        round_radius(*a) as i64,
                        round_feature(*a),
                        mb.trans(),
                        round_radius(*b) as i64,
                        round_feature(*b),
                        prediction,
                    ),
                ),
            ),
            r ==> forall|q: int|
                0 <= q < final(self).manifold().points().len() ==> id_rule(
                    final(self).manifold().cache(),
                    #[trigger] final(self).manifold().points()[q],
                ),
            r ==> forall|j: int|
                0 <= j < final(self).manifold().cache().len() && !final(self).manifold().matched()[j]
                    ==> final(self).manifold().ids().contains(
                    #[trigger] final(self).manifold().cache()[j].id,
                ),
            !r ==> final(self).manifold() == old(self).manifold() && *final(alloc) == *old(alloc),
    {
        if a.is_support_map() && b.is_support_map() {
            let found = ball_against_ball(
                &ma.subtrans(),
                a.radius(),
                round_feature_of(a),
                &mb.subtrans(),
                b.radius(),
                round_feature_of(b),
                prediction,
            );
            refresh_with(&mut self.manifold, found, alloc);
            true
        } else {
            false
        }
    }

    /// Number of contacts of the current frame.
    pub fn num_contacts(&self) -> (r: usize)
        ensures
            r == self.manifold().points().len(),
    {
        self.manifold.len()
    }

    /// Appends the manifold of this pair to `out` when it holds contacts.
    pub fn contacts<'a>(&'a self, out: &mut Vec<&'a ContactManifold>)
        ensures
            self.manifold().points().len() != 0 ==> final(out)@ == old(out)@.push(&self.manifold()),
            self.manifold().points().len() == 0 ==> final(out)@ == old(out)@,
    {
        if self.manifold.len() != 0 {
            out.push(&self.manifold);
        }
    }
}

/// Where part `p` of a composite shape placed at `pose` lies in the world.
pub open spec fn placed(pose: Isometry, p: Part) -> V3 {
    v_add(mat_vec(pose.mat()@, p.offset@), pose.trans()@)
}

/// Every part of `s`, if composite, lies within the accepted range once placed at `pose`.
pub open spec fn parts_fit(pose: Isometry, s: Shape) -> bool {
    match s {
        Shape::Compound(parts) => forall|i: int|
            0 <= i < parts@.len() ==> small_v3(#[trigger] placed(pose, parts@[i])),
        _ => true,
    }
}

/// Marks the composite side of a contact (the second shape when `flip`)
/// with sub-shape index `i`.
pub open spec fn fold_side(x: (Contact, ContactKinematic), flip: bool, i: usize) -> (
    Contact,
    ContactKinematic,
) {
    if flip {
        (x.0, ContactKinematic { feature2: FeatureId::Part(i, local_of(x.1.feature2)), ..x.1 })
    } else {
        (x.0, ContactKinematic { feature1: FeatureId::Part(i, local_of(x.1.feature1)), ..x.1 })
    }
}

/// The contact of part `p` (index `i`) of a composite shape placed at `pc`
/// with the shape `other` placed at `po`; the composite is the first shape
/// unless `flip`.
pub open spec fn part_contact(
    flip: bool,
    pc: Isometry,
    p: Part,
    i: usize,
    po: Isometry,
    other: Shape,
    prediction: i64,
) -> Option<(Contact, ContactKinematic)> {
    let c = vec_of(placed(pc, p));
    let raw = match other {
        Shape::Plane(ax) => match plane_contact(
            po,
            ax,
            c,
            p.radius,
            LocalFeature::Face(0),
            prediction,
        ) {
            Some(x) => Some(
                if flip {
                    x
                } else {
                    flip_pair(x)
                },
            ),
            None => None,
        },
        _ => if flip {
            round_contact(
                po.trans(),
                round_radius(other) as i64,
                round_feature(other),
                c,
                p.radius,
                LocalFeature::Face(0),
                prediction,
            )
        } else {
            round_contact(
                c,
                p.radius,
                LocalFeature::Face(0),
                po.trans(),
                round_radius(other) as i64,
                round_feature(other),
                prediction,
            )
        },
    };
    match raw {
        Some(x) => Some(fold_side(x, flip, i)),
        None => None,
    }
}

/// The contact between part `p` (index `i`) of a composite placed at `pc`
/// and part `q` (index `j`) of another composite placed at `po`; the first
/// composite is the first shape unless `flip`. Both sides carry their part
/// index.
pub open spec fn pair_contact(
    flip: bool,
    pc: Isometry,
    p: Part,
    i: usize,
    po: Isometry,
    q: Part,
    j: usize,
    prediction: i64,
) -> Option<(Contact, ContactKinematic)> {
    let ci = vec_of(placed(pc, p));
    let cj = vec_of(placed(po, q));
    let raw = if flip {
        round_contact(cj, q.radius, LocalFeature::Face(0), ci, p.radius, LocalFeature::Face(0), prediction)
    } else {
        round_contact(ci, p.radius, LocalFeature::Face(0), cj, q.radius, LocalFeature::Face(0), prediction)
    };
    match raw {
        Some(x) => Some(fold_side(fold_side(x, flip, i), !flip, j)),
        None => None,
    }
}

/// The contacts of part `p` (index `i`) with the first `n` parts `qs` of
/// another composite, in part order.
pub open spec fn pair_contacts(
    flip: bool,
    pc: Isometry,
    p: Part,
    i: usize,
    po: Isometry,
    qs: Seq<Part>,
    prediction: i64,
    n: nat,
) -> Seq<(Contact, ContactKinematic)>
    decreases n,
{
    if n == 0 {
        Seq::empty()
    } else {
        pair_contacts(flip, pc, p, i, po, qs, prediction, (n - 1) as nat) + opt_seq(
            pair_contact(flip, pc, p, i, po, qs[n - 1], (n - 1) as usize, prediction),
        )
    }
}

/// The contacts of part `p` (index `i`) with the other shape: one per
/// touching part when the other shape is composite, else at most one.
pub open spec fn part_seq(
    flip: bool,
    pc: Isometry,
    p: Part,
    i: usize,
    po: Isometry,
    other: Shape,
    prediction: i64,
) -> Seq<(Contact, ContactKinematic)> {
    match other {
        Shape::Compound(qs) => pair_contacts(flip, pc, p, i, po, qs@, prediction, qs@.len()),
        _ => opt_seq(part_contact(flip, pc, p, i, po, other, prediction)),
    }
}

/// How many contacts one part can have with `s`.
pub open spec fn part_count(s: Shape) -> int {
    match s {
        Shape::Compound(parts) => parts@.len() as int,
        _ => 1,
    }
}

/// The contacts of the first `n` parts, in part order.
pub open spec fn part_contacts(
    flip: bool,
    pc: Isometry,
    parts: Seq<Part>,
    po: Isometry,
    other: Shape,
    prediction: i64,
    n: nat,
) -> Seq<(Contact, ContactKinematic)>
    decreases n,
{
    if n == 0 {
        Seq::empty()
    } else {
        part_contacts(flip, pc, parts, po, other, prediction, (n - 1) as nat) + part_seq(
            flip,
            pc,
            parts[n - 1],
            (n - 1) as usize,
            po,
            other,
            prediction,
        )
    }
}

/// `m_new` is `m_old` with the contacts `s` appended, identifiers aside.
pub open spec fn appended(
    m_old: ContactManifold,
    m_new: ContactManifold,
    s: Seq<(Contact, ContactKinematic)>,
) -> bool {
    &&& m_new.cache() == m_old.cache()
    &&& m_new.points().len() == m_old.points().len() + s.len()
    &&& forall|q: int| 0 <= q < m_old.points().len() ==> m_new.points()[q] == m_old.points()[q]
    &&& forall|q: int|
        0 <= q < s.len() ==> (#[trigger] m_new.points()[m_old.points().len() + q]).contact
            == s[q].0 && m_new.points()[m_old.points().len() + q].kinematic == s[q].1
}

/// Pushes one contact, if any, keeping `appended`.
fn push_found(m: &mut ContactManifold, o: Option<(Contact, ContactKinematic)>, alloc: &mut IdAllocator)
    requires
        in_step(*old(m), *old(alloc)),
        old(alloc).room() >= 1,
        o matches Some(p) ==> p.1.local1.is_small() && p.1.local2.is_small(),
    ensures
        in_step(*final(m), *final(alloc)),
        ids_step(*old(m), *final(m), *old(alloc), *final(alloc)),
        appended(*old(m), *final(m), opt_seq(o)),
        forall|q: int|
            old(m).points().len() <= q < final(m).points().len() ==> id_origin(
                final(m).cache(),
                #[trigger] final(m).points()[q],
            ),
        final(alloc).room() >= old(alloc).room() - 1,
{
    let ghost m0 = *m;
    let ghost a0 = *alloc;
    match o {
        Some(p) => {
            let (c, k) = p;
            let reused = m.push(c, k, alloc);
            proof {
                let pt = m.points().last();
                if reused {
                    let j = choose|j: int|
                        is_first_match(m0, k, j) && pt.id == m0.cache()[j].id && m.matched()
                            == m0.matched().update(j, true) && *alloc == a0;
                    assert(0 <= j < m.cache().len() && close(m.cache()[j].kinematic, pt.kinematic) && pt.id == m.cache()[j].id);
                } else {
                    m0.lemma_cache_ids_held();
                    assert forall|j: int| 0 <= j < m.cache().len() implies m.cache()[j].id != pt.id by {
                        assert(m0.ids().contains(m0.cache()[j].id));
                    }
                }
                assert(m.points()[m0.points().len() as int] == pt);
                assert forall|q: int| 0 <= q < m0.points().len() implies m.points()[q] == m0.points()[q] by {
                    assert(m.points().drop_last()[q] == m.points()[q]);
                }
            }
        },
        None => {
            proof {
                crate::manifold::lemma_ids_step_refl(*m, *alloc);
            }
        },
    }
}

/// The contact between part `p` of one composite and part `q` of another.
fn pair_against(
    flip: bool,
    pc: &Isometry,
    p: &Part,
    i: usize,
    po: &Isometry,
    q: &Part,
    j: usize,
    prediction: i64,
) -> (r: Option<(Contact, ContactKinematic)>)
    requires
        is_pose(*pc),
        is_pose(*po),
        p.offset.is_small(),
        q.offset.is_small(),
        0 <= p.radius <= LIMIT,
        0 <= q.radius <= LIMIT,
        small_v3(placed(*pc, *p)),
        small_v3(placed(*po, *q)),
        0 <= prediction <= LIMIT,
    ensures
        r == pair_contact(flip, *pc, *p, i, *po, *q, j, prediction),
        r matches Some(x) ==> x.1.local1.is_small() && x.1.local2.is_small(),
{
    let ci = pc.transform(&p.offset);
    let cj = po.transform(&q.offset);
    assert(vec_of(placed(*pc, *p)) == ci);
    assert(vec_of(placed(*po, *q)) == cj);
    let raw = if flip {
        ball_against_ball(&cj, q.radius, LocalFeature::Face(0), &ci, p.radius, LocalFeature::Face(0), prediction)
    } else {
        ball_against_ball(&ci, p.radius, LocalFeature::Face(0), &cj, q.radius, LocalFeature::Face(0), prediction)
    };
    match raw {
        Some(x) => {
            let (ct, k) = x;
            if flip {
                Some((ct, ContactKinematic { feature2: k.feature2.fold_into_part(i), feature1: k.feature1.fold_into_part(j), ..k }))
            } else {
                Some((ct, ContactKinematic { feature1: k.feature1.fold_into_part(i), feature2: k.feature2.fold_into_part(j), ..k }))
            }
        },
        None => None,
    }
}

/// Appends the contacts of part `p` (index `i`) with the other shape.
fn push_part(
    m: &mut ContactManifold,
    flip: bool,
    pc: &Isometry,
    p: &Part,
    i: usize,
    po: &Isometry,
    other: &Shape,
    prediction: i64,
    alloc: &mut IdAllocator,
)
    requires
        in_step(*old(m), *old(alloc)),
        old(alloc).room() >= part_count(*other),
        is_pose(*pc),
        is_pose(*po),
        p.offset.is_small(),
        0 <= p.radius <= LIMIT,
        small_v3(placed(*pc, *p)),
        other.wf(),
        parts_fit(*po, *other),
        0 <= prediction <= LIMIT,
    ensures
        in_step(*final(m), *final(alloc)),
        ids_step(*old(m), *final(m), *old(alloc), *final(alloc)),
        appended(*old(m), *final(m), part_seq(flip, *pc, *p, i, *po, *other, prediction)),
        forall|q: int|
            old(m).points().len() <= q < final(m).points().len() ==> id_origin(
                final(m).cache(),
                #[trigger] final(m).points()[q],
            ),
        final(alloc).room() >= old(alloc).room() - part_count(*other),
{
    match other {
        Shape::Compound(qs) => {
            let ghost m0 = *m;
            let ghost a0 = *alloc;
            assert forall|k: int| 0 <= k < qs@.len() implies (#[trigger] qs@[k]).offset.is_small()
                && 0 <= qs@[k].radius <= LIMIT && small_v3(placed(*po, qs@[k])) by {
                assert(other.wf());
                assert(parts_fit(*po, *other));
                assert(0 <= qs@[k].radius <= LIMIT);
                assert(small_v3(placed(*po, qs@[k])));
            }
            proof {
                crate::manifold::lemma_ids_step_refl(*m, *alloc);
            }
            let mut j: usize = 0;
            while j < qs.len()
                invariant
                    in_step(*m, *alloc),
                    ids_step(m0, *m, a0, *alloc),
                    j <= qs@.len(),
                    alloc.room() >= a0.room() - j,
                    a0.room() >= qs@.len(),
                    is_pose(*pc),
                    is_pose(*po),
                    p.offset.is_small(),
                    0 <= p.radius <= LIMIT,
                    small_v3(placed(*pc, *p)),
                    0 <= prediction <= LIMIT,
                    forall|k: int|
                        0 <= k < qs@.len() ==> (#[trigger] qs@[k]).offset.is_small() && 0
                            <= qs@[k].radius <= LIMIT && small_v3(placed(*po, qs@[k])),
                    appended(m0, *m, pair_contacts(flip, *pc, *p, i, *po, qs@, prediction, j as nat)),
                    forall|q: int|
                        m0.points().len() <= q < m.points().len() ==> id_origin(
                            m.cache(),
                            #[trigger] m.points()[q],
                        ),
                decreases qs@.len() - j,
            {
                let ghost m1 = *m;
                let ghost a1 = *alloc;
                let found = pair_against(flip, pc, p, i, po, &qs[j], j, prediction);
                push_found(m, found, alloc);
                proof {
                    crate::manifold::lemma_ids_step_trans(m0, m1, *m, a0, a1, *alloc);
                    assert forall|q: int| m0.points().len() <= q < m.points().len() implies id_origin(
                        m.cache(),
                        #[trigger] m.points()[q],
                    ) by {
                        if q < m1.points().len() {
                            assert(m.points()[q] == m1.points()[q]);
                        }
                    }
                    let s0 = pair_contacts(flip, *pc, *p, i, *po, qs@, prediction, j as nat);
                    let s1 = pair_contacts(flip, *pc, *p, i, *po, qs@, prediction, (j + 1) as nat);
                    assert(s1 == s0 + opt_seq(found));
                    assert forall|q: int| 0 <= q < s1.len() implies (#[trigger] m.points()[m0.points().len() + q]).contact
                        == s1[q].0 && m.points()[m0.points().len() + q].kinematic == s1[q].1 by {
                        if q < s0.len() {
                            assert(m.points()[m0.points().len() + q] == m1.points()[m0.points().len() + q]);
                            assert(s1[q] == s0[q]);
                        } else {
                            assert(m.points()[m0.points().len() + q] == m.points()[m1.points().len() + (q - s0.len())]);
                        }
                    }
                }
                j = j + 1;
            }
        },
        _ => {
            let found = part_against(flip, pc, p, i, po, other, prediction);
            let ghost m0 = *m;
            push_found(m, found, alloc);
            proof {
                assert forall|q: int| 0 <= q < opt_seq(found).len() implies (#[trigger] m.points()[m0.points().len() + q]).contact
                    == opt_seq(found)[q].0 && m.points()[m0.points().len() + q].kinematic == opt_seq(found)[q].1 by {}
            }
        },
    }
}

/// The contact of one part with the other shape.
fn part_against(
    flip: bool,
    pc: &Isometry,
    p: &Part,
    i: usize,
    po: &Isometry,
    other: &Shape,
    prediction: i64,
) -> (r: Option<(Contact, ContactKinematic)>)
    requires
        is_pose(*pc),
        is_pose(*po),
        p.offset.is_small(),
        0 <= p.radius <= LIMIT,
        small_v3(placed(*pc, *p)),
        other.wf(),
        other.support_map_spec() || other.plane_spec(),
        0 <= prediction <= LIMIT,
    ensures
        r == part_contact(flip, *pc, *p, i, *po, *other, prediction),
        r matches Some(x) ==> x.1.local1.is_small() && x.1.local2.is_small(),
{
    let c = pc.transform(&p.offset);
    assert(vec_of(placed(*pc, *p)) == c);
    let raw = match other {
        Shape::Plane(ax) => {
            match plane_against_ball(po, *ax, &c, p.radius, LocalFeature::Face(0), prediction) {
                Some(x) => {
                    if flip {
                        Some(x)
                    } else {
                        Some(flip_contact(x))
                    }
                },
                None => None,
            }
        },
        _ => {
            if flip {
                ball_against_ball(
                    &po.subtrans(),
                    other.radius(),
                    round_feature_of(other),
                    &c,
                    p.radius,
                    LocalFeature::Face(0),
                    prediction,
                )
            } else {
                ball_against_ball(
                    &c,
                    p.radius,
                    LocalFeature::Face(0),
                    &po.subtrans(),
                    other.radius(),
                    round_feature_of(other),
                    prediction,
                )
            }
        },
    };
    match raw {
        Some(x) => {
            let (ct, k) = x;
            if flip {
                Some((ct, ContactKinematic { feature2: k.feature2.fold_into_part(i), ..k }))
            } else {
                Some((ct, ContactKinematic { feature1: k.feature1.fold_into_part(i), ..k }))
            }
        },
        None => None,
    }
}

/// Collision detector between a composite shape and another shape: each
/// part of the composite is tested against the other shape, and each
/// contact found is tagged with the index of its part. `flip` tells that the
/// composite is the second shape.
#[derive(Debug)]
pub struct CompositeShapeShapeContactGenerator {
    manifold: ContactManifold,
    flip: bool,
}

impl Clone for CompositeShapeShapeContactGenerator {
    /// A copy holding an equal manifold.
    fn clone(&self) -> (r: CompositeShapeShapeContactGenerator)
        ensures
            r.manifold().points() == self.manifold().points(),
            r.manifold().cache() == self.manifold().cache(),
            r.manifold().matched() == self.manifold().matched(),
            r.flipped() == self.flipped(),
    {
        CompositeShapeShapeContactGenerator { manifold: self.manifold.clone(), flip: self.flip }
    }
}

impl CompositeShapeShapeContactGenerator {
    pub closed spec fn manifold(&self) -> ContactManifold {
        self.manifold
    }

    pub closed spec fn flipped(&self) -> bool {
        self.flip
    }

    /// A detector with an empty manifold.
    pub fn new(flip: bool) -> (r: CompositeShapeShapeContactGenerator)
        ensures
            r.manifold().wf(),
            r.manifold().points().len() == 0,
            r.manifold().ids() == Set::<usize>::empty(),
            r.flipped() == flip,
    {
        CompositeShapeShapeContactGenerator { manifold: ContactManifold::new(), flip }
    }

    /// Refreshes the manifold when the composite is on the expected side and
    /// the other shape is support-mapped or a plane, and reports whether that
    /// was so; otherwise nothing changes. The frame holds the contacts of the
    /// parts, in part order.
    /// Each new point takes the identifier of a previous-frame point it
    /// continues, or a fresh one; the identifiers of previous-frame points
    /// not continued stay held by the manifold until the next update starts,
    /// which releases them.
    pub fn update(
        &mut self,
        ma: &Isometry,
        a: &Shape,
        mb: &Isometry,
        b: &Shape,
        prediction: i64,
        alloc: &mut IdAllocator,
    ) -> (r: bool)
        requires
            in_step(old(self).manifold(), *old(alloc)),
            is_pose(*ma),
            is_pose(*mb),
            a.wf(),
            b.wf(),
            parts_fit(*ma, *a),
            parts_fit(*mb, *b),
            0 <= prediction <= LIMIT,
            old(alloc).room() >= part_count(*a) * part_count(*b),
        ensures
            r == if old(self).flipped() {
                b.composite_spec()
            } else {
                a.composite_spec()
            },
            final(self).flipped() == old(self).flipped(),
            in_step(final(self).manifold(), *final(alloc)),
            ids_step(old(self).manifold(), final(self).manifold(), *old(alloc), *final(alloc)),
            r && !old(self).flipped() ==> (a matches Shape::Compound(parts) && refreshed(
                old(self).manifold(),
                final(self).manifold(),
                part_contacts(false, *ma, parts@, *mb, *b, prediction, parts@.len()),
            )),
            r && old(self).flipped() ==> (b matches Shape::Compound(parts) && refreshed(
                old(self).manifold(),
                final(self).manifold(),
                part_contacts(true, *mb, parts@, *ma, *a, prediction, parts@.len()),
            )),
            r ==> forall|q: int|
                0 <= q < final(self).manifold().points().len() ==> id_origin(
                    final(self).manifold().cache(),
                    #[trigger] final(self).manifold().points()[q],
                ),
            r ==> forall|j: int|
                0 <= j < final(self).manifold().cache().len() ==> final(self).manifold().ids().contains(
                    #[trigger] final(self).manifold().cache()[j].id,
                ),
            !r ==> final(self).manifold() == old(self).manifold() && *final(alloc) == *old(alloc),
    {
        let flip = self.flip;
        let (mc, comp, mo, other) = if flip {
            (mb, b, ma, a)
        } else {
            (ma, a, mb, b)
        };
        match comp {
            Shape::Compound(parts) => {
                let ghost m0 = self.manifold;
                let ghost a0 = *alloc;
                let ghost oc = part_count(*other);
                assert forall|k: int| 0 <= k < parts@.len() implies (#[trigger] parts@[k]).offset.is_small()
                    && 0 <= parts@[k].radius <= LIMIT && small_v3(placed(*mc, parts@[k])) by {
                    assert(comp.wf());
                    assert(parts_fit(*mc, *comp));
                    assert(0 <= parts@[k].radius <= LIMIT);
                    assert(small_v3(placed(*mc, parts@[k])));
                }
                assert(part_count(*comp) == parts@.len());
                assert(parts@.len() * oc == part_count(*a) * part_count(*b)) by (nonlinear_arith)
                    requires
                        (flip && parts@.len() == part_count(*b) && oc == part_count(*a)) || (!flip
                            && parts@.len() == part_count(*a) && oc == part_count(*b)),
                {
                }
                self.manifold.save_cache_and_clear(alloc);
                let mut i: usize = 0;
                while i < parts.len()
                    invariant
                        in_step(self.manifold, *alloc),
                        ids_step(m0, self.manifold, a0, *alloc),
                        self.manifold.cache() == m0.points(),
                        self.flip == flip,
                        i <= parts@.len(),
                        oc == part_count(*other),
                        oc >= 0,
                        a0.room() >= parts@.len() * oc,
                        alloc.room() >= a0.room() - i * oc,
                        is_pose(*mc),
                        is_pose(*mo),
                        other.wf(),
                        parts_fit(*mo, *other),
                        forall|k: int|
                            0 <= k < parts@.len() ==> (#[trigger] parts@[k]).offset.is_small() && 0
                                <= parts@[k].radius <= LIMIT && small_v3(placed(*mc, parts@[k])),
                        0 <= prediction <= LIMIT,
                        self.manifold.points().len() == part_contacts(
                            flip,
                            *mc,
                            parts@,
                            *mo,
                            *other,
                            prediction,
                            i as nat,
                        ).len(),
                        forall|q: int|
                            0 <= q < self.manifold.points().len() ==> id_origin(
                                self.manifold.cache(),
                                #[trigger] self.manifold.points()[q],
                            ),
                        forall|q: int|
                            0 <= q < self.manifold.points().len() ==> (#[trigger] self.manifold.points()[q]).contact
                                == part_contacts(flip, *mc, parts@, *mo, *other, prediction, i as nat)[q].0
                                && self.manifold.points()[q].kinematic == part_contacts(
                                flip,
                                *mc,
                                parts@,
                                *mo,
                                *other,
                                prediction,
                                i as nat,
                            )[q].1,
                    decreases parts@.len() - i,
                {
                    let ghost m1 = self.manifold;
                    let ghost a1 = *alloc;
                    assert(alloc.room() >= oc) by (nonlinear_arith)
                        requires
                            alloc.room() >= a0.room() - i * oc,
                            a0.room() >= parts@.len() * oc,
                            i < parts@.len(),
                            oc >= 0,
                    {
                    }
                    push_part(&mut self.manifold, flip, mc, &parts[i], i, mo, other, prediction, alloc);
                    proof {
                        lemma_ids_step_trans(m0, m1, self.manifold, a0, a1, *alloc);
                        assert forall|q: int| 0 <= q < self.manifold.points().len() implies id_origin(
                            self.manifold.cache(),
                            #[trigger] self.manifold.points()[q],
                        ) by {
                            if q < m1.points().len() {
                                assert(self.manifold.points()[q] == m1.points()[q]);
                            }
                        }
                        assert((i + 1) * oc == i * oc + oc) by (nonlinear_arith);
                        let pcs = part_contacts(flip, *mc, parts@, *mo, *other, prediction, i as nat);
                        let ps = part_seq(flip, *mc, parts@[i as int], i, *mo, *other, prediction);
                        let pcs1 = part_contacts(
                            flip,
                            *mc,
                            parts@,
                            *mo,
                            *other,
                            prediction,
                            (i + 1) as nat,
                        );
                        assert(pcs1 == pcs + ps);
                        assert forall|q: int| 0 <= q < self.manifold.points().len() implies (
                        #[trigger] self.manifold.points()[q]).contact == pcs1[q].0
                            && self.manifold.points()[q].kinematic == pcs1[q].1 by {
                            if q < m1.points().len() {
                                assert(self.manifold.points()[q] == m1.points()[q]);
                                assert(pcs1[q] == pcs[q]);
                            } else {
                                let r = q - m1.points().len();
                                assert(self.manifold.points()[m1.points().len() + r] == self.manifold.points()[q]);
                                assert(pcs1[q] == ps[r]);
                            }
                        }
                    }
                    i = i + 1;
                }
                proof {
                    self.manifold.lemma_cache_ids_held();
                }
                true
            },
            _ => false,
        }
    }

    /// Number of contacts of the current frame, over all parts.
    pub fn num_contacts(&self) -> (r: usize)
        ensures
            r == self.manifold().points().len(),
    {
        self.manifold.len()
    }

    /// Appends the manifold of this pair to `out` when it holds contacts.
    pub fn contacts<'a>(&'a self, out: &mut Vec<&'a ContactManifold>)
        ensures
            self.manifold().points().len() != 0 ==> final(out)@ == old(out)@.push(&self.manifold()),
            self.manifold().points().len() == 0 ==> final(out)@ == old(out)@,
    {
        if self.manifold.len() != 0 {
            out.push(&self.manifold);
        }
    }
}

} // verus!

verus! {

/// Which side of a contact lies on the composite shape.
pub open spec fn composite_feature(x: (Contact, ContactKinematic), flip: bool) -> FeatureId {
    if flip {
        x.1.feature2
    } else {
        x.1.feature1
    }
}

/// `f` names face 0 of a part whose index is below `n`.
pub open spec fn names_part_face(f: FeatureId, n: nat) -> bool {
    match f {
        FeatureId::Part(i, l) => i < n && l == LocalFeature::Face(0),
        _ => false,
    }
}

/// Number of contacts of the first `n` parts with the other shape.
pub open spec fn touching_parts(
    flip: bool,
    pc: Isometry,
    parts: Seq<Part>,
    po: Isometry,
    other: Shape,
    prediction: i64,
    n: nat,
) -> nat
    decreases n,
{
    if n == 0 {
        0
    } else {
        touching_parts(flip, pc, parts, po, other, prediction, (n - 1) as nat) + part_seq(
            flip,
            pc,
            parts[n - 1],
            (n - 1) as usize,
            po,
            other,
            prediction,
        ).len()
    }
}

proof fn lemma_pair_features(
    flip: bool,
    pc: Isometry,
    p: Part,
    i: usize,
    po: Isometry,
    qs: Seq<Part>,
    prediction: i64,
    n: nat,
    bound: nat,
)
    requires
        i < bound,
    ensures
        forall|q: int|
            0 <= q < pair_contacts(flip, pc, p, i, po, qs, prediction, n).len() ==> names_part_face(
                composite_feature(
                    #[trigger] pair_contacts(flip, pc, p, i, po, qs, prediction, n)[q],
                    flip,
                ),
                bound,
            ),
    decreases n,
{
    if n > 0 {
        let m = (n - 1) as nat;
        lemma_pair_features(flip, pc, p, i, po, qs, prediction, m, bound);
        let prev = pair_contacts(flip, pc, p, i, po, qs, prediction, m);
        let cur = pair_contacts(flip, pc, p, i, po, qs, prediction, n);
        assert(cur == prev + opt_seq(pair_contact(flip, pc, p, i, po, qs[m as int], m as usize, prediction)));
        assert forall|q: int| 0 <= q < cur.len() implies names_part_face(
            composite_feature(#[trigger] cur[q], flip),
            bound,
        ) by {
            if q < prev.len() {
                assert(cur[q] == prev[q]);
            }
        }
    }
}

/// Contacts against a composite shape carry, on the composite side, the
/// index of the part they touch together with that part's own feature, and
/// their number is the sum, over the parts, of the contacts of each part.
pub proof fn lemma_composite_contacts(
    flip: bool,
    pc: Isometry,
    parts: Seq<Part>,
    po: Isometry,
    other: Shape,
    prediction: i64,
    n: nat,
)
    requires
        n <= parts.len(),
        n <= usize::MAX,
    ensures
        part_contacts(flip, pc, parts, po, other, prediction, n).len() == touching_parts(
            flip,
            pc,
            parts,
            po,
            other,
            prediction,
            n,
        ),
        forall|q: int|
            0 <= q < part_contacts(flip, pc, parts, po, other, prediction, n).len()
                ==> names_part_face(
                composite_feature(
                    #[trigger] part_contacts(flip, pc, parts, po, other, prediction, n)[q],
                    flip,
                ),
                n,
            ),
    decreases n,
{
    if n > 0 {
        let m = (n - 1) as nat;
        lemma_composite_contacts(flip, pc, parts, po, other, prediction, m);
        let prev = part_contacts(flip, pc, parts, po, other, prediction, m);
        let cur = part_contacts(flip, pc, parts, po, other, prediction, n);
        let last = part_seq(flip, pc, parts[m as int], m as usize, po, other, prediction);
        assert(cur == prev + last);
        match other {
            Shape::Compound(qs) => {
                lemma_pair_features(flip, pc, parts[m as int], m as usize, po, qs@, prediction, qs@.len(), n);
            },
            _ => {},
        }
        assert forall|q: int| 0 <= q < cur.len() implies names_part_face(
            composite_feature(#[trigger] cur[q], flip),
            n,
        ) by {
            if q < prev.len() {
                assert(cur[q] == prev[q]);
                assert(names_part_face(composite_feature(prev[q], flip), m));
            } else {
                assert(cur[q] == last[q - prev.len()]);
            }
        }
    }
}

} // verus!

