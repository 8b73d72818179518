//! Proximity detection: whether two shapes intersect, lie within a margin of
//! each other, or are farther apart, without computing contacts.
use vstd::prelude::*;
use crate::dispatcher::{AlgorithmKind, handles, select, select_spec};
use crate::generators::{parts_fit, placed};
use crate::math::{LIMIT, Vector, V3, v_dot, v_norm_sq, v_sub, lemma_mul_bound, small_v3};
use crate::query::is_pose;
use crate::shape::{Axis, Part, Shape, axis_dir, round_radius};
use crate::transform::Isometry;

verus! {

/// How close two shapes are.
#[derive(Clone, Copy, Debug, PartialEq, Eq, Structural)]
pub enum ProximityState {
    Intersecting,
    WithinMargin,
    Disjoint,
}

/// Proximity of round shapes of radii `ra`, `rb` around `ca`, `cb`.
pub open spec fn round_proximity(ca: V3, ra: int, cb: V3, rb: int, margin: int) -> ProximityState {
    let nsq = v_norm_sq(v_sub(cb, ca));
    if nsq <= (ra + rb) * (ra + rb) {
        ProximityState::Intersecting
    } else if nsq <= (ra + rb + margin) * (ra + rb + margin) {
        ProximityState::WithinMargin
    } else {
        ProximityState::Disjoint
    }
}

/// Proximity of the plane of pose `pp` (outward local normal `a`) and a
/// round shape of radius `r` around `c`.
pub open spec fn plane_proximity(pp: Isometry, a: Axis, c: V3, r: int, margin: int) -> ProximityState {
    let s = v_dot(v_sub(c, pp.trans()@), axis_dir(pp.mat()@, a));
    if s <= r {
        ProximityState::Intersecting
    } else if s <= r + margin {
        ProximityState::WithinMargin
    } else {
        ProximityState::Disjoint
    }
}

/// The closer of two proximities.
pub open spec fn closer(a: ProximityState, b: ProximityState) -> ProximityState {
    if a is Intersecting || b is Intersecting {
        ProximityState::Intersecting
    } else if a is WithinMargin || b is WithinMargin {
        ProximityState::WithinMargin
    } else {
        ProximityState::Disjoint
    }
}

/// Proximity of part `p` of a composite placed at `pc` and the first `n`
/// parts `qs` of another composite placed at `po`: the closest over them.
pub open spec fn pair_proximity(pc: Isometry, p: Part, po: Isometry, qs: Seq<Part>, margin: int, n: nat) -> ProximityState
    decreases n,
{
    if n == 0 {
        ProximityState::Disjoint
    } else {
        closer(
            pair_proximity(pc, p, po, qs, margin, (n - 1) as nat),
            round_proximity(placed(pc, p), p.radius as int, placed(po, qs[n - 1]), qs[n - 1].radius as int, margin),
        )
    }
}

/// Proximity of one part of a composite shape placed at `pc` and the shape
/// `other` placed at `po`.
pub open spec fn part_proximity(pc: Isometry, p: Part, po: Isometry, other: Shape, margin: int) -> ProximityState {
    match other {
        Shape::Plane(ax) => plane_proximity(po, ax, placed(pc, p), p.radius as int, margin),
        Shape::Compound(qs) => pair_proximity(pc, p, po, qs@, margin, qs@.len()),
        _ => round_proximity(placed(pc, p), p.radius as int, po.trans()@, round_radius(other), margin),
    }
}

/// Proximity of the first `n` parts of a composite shape and another shape:
/// the closest over the parts.
pub open spec fn composite_proximity(
    pc: Isometry,
    parts: Seq<Part>,
    po: Isometry,
    other: Shape,
    margin: int,
    n: nat,
) -> ProximityState
    decreases n,
{
    if n == 0 {
        ProximityState::Disjoint
    } else {
        closer(
            composite_proximity(pc, parts, po, other, margin, (n - 1) as nat),
            part_proximity(pc, parts[n - 1], po, other, margin),
        )
    }
}

/// What a detector of kind `k` reports for shapes it handles.
pub open spec fn expected_proximity(
    k: AlgorithmKind,
    ma: Isometry,
    a: Shape,
    mb: Isometry,
    b: Shape,
    margin: int,
) -> ProximityState {
    match k {
        AlgorithmKind::PlaneSupportMap => match a {
            Shape::Plane(ax) => plane_proximity(ma, ax, mb.trans()@, round_radius(b), margin),
            _ => ProximityState::Disjoint,
        },
        AlgorithmKind::SupportMapPlane => match b {
            Shape::Plane(ax) => plane_proximity(mb, ax, ma.trans()@, round_radius(a), margin),
            _ => ProximityState::Disjoint,
        },
        AlgorithmKind::CompositeShapeShape => match a {
            Shape::Compound(parts) => composite_proximity(ma, parts@, mb, b, margin, parts@.len()),
            _ => ProximityState::Disjoint,
        },
        AlgorithmKind::ShapeCompositeShape => match b {
            Shape::Compound(parts) => composite_proximity(mb, parts@, ma, a, margin, parts@.len()),
            _ => ProximityState::Disjoint,
        },
        _ => round_proximity(ma.trans()@, round_radius(a), mb.trans()@, round_radius(b), margin),
    }
}

fn round_proximity_exec(ca: &Vector, ra: i64, cb: &Vector, rb: i64, margin: i64) -> (r: ProximityState)
    requires
        ca.is_small(),
        cb.is_small(),
        0 <= ra <= LIMIT,
        0 <= rb <= LIMIT,
        0 <= margin <= LIMIT,
    ensures
        r == round_proximity(ca@, ra as int, cb@, rb as int, margin as int),
{
    let nsq = cb.sub(ca).norm_sq();
    let rs = ra + rb;
    let k = rs + margin;
    proof {
        lemma_mul_bound(k as int, k as int, 0x300_0000);
        lemma_mul_bound(rs as int, rs as int, 0x300_0000);
    }
    if nsq <= rs * rs {
        ProximityState::Intersecting
    } else if nsq <= k * k {
        ProximityState::WithinMargin
    } else {
        ProximityState::Disjoint
    }
}

fn plane_proximity_exec(pp: &Isometry, ax: Axis, c: &Vector, r: i64, margin: i64) -> (res: ProximityState)
    requires
        is_pose(*pp),
        c.is_small(),
        0 <= r <= LIMIT,
        0 <= margin <= LIMIT,
    ensures
        res == plane_proximity(*pp, ax, c@, r as int, margin as int),
{
    let m = pp.submat();
    let n = match ax {
        Axis::PosX => m.c0,
        Axis::NegX => m.c0.neg(),
        Axis::PosY => m.c1,
        Axis::NegY => m.c1.neg(),
        Axis::PosZ => m.c2,
        Axis::NegZ => m.c2.neg(),
    };
    let s = c.sub(&pp.subtrans()).dot(&n);
    if s <= r {
        ProximityState::Intersecting
    } else if s <= r + margin {
        ProximityState::WithinMargin
    } else {
        ProximityState::Disjoint
    }
}

fn closer_exec(a: ProximityState, b: ProximityState) -> (r: ProximityState)
    ensures
        r == closer(a, b),
{
    if matches!(a, ProximityState::Intersecting) || matches!(b, ProximityState::Intersecting) {
        ProximityState::Intersecting
    } else if matches!(a, ProximityState::WithinMargin) || matches!(b, ProximityState::WithinMargin) {
        ProximityState::WithinMargin
    } else {
        ProximityState::Disjoint
    }
}

fn pair_proximity_exec(
    pc: &Isometry,
    p: &Part,
    po: &Isometry,
    qs: &Vec<Part>,
    margin: i64,
) -> (r: ProximityState)
    requires
        is_pose(*pc),
        is_pose(*po),
        p.offset.is_small(),
        0 <= p.radius <= LIMIT,
        small_v3(placed(*pc, *p)),
        forall|k: int|
            0 <= k < qs@.len() ==> (#[trigger] qs@[k]).offset.is_small() && 0
                <= qs@[k].radius <= LIMIT && small_v3(placed(*po, qs@[k])),
        0 <= margin <= LIMIT,
    ensures
        r == pair_proximity(*pc, *p, *po, qs@, margin as int, qs@.len()),
{
    let c = pc.transform(&p.offset);
    let mut acc = ProximityState::Disjoint;
    let mut j: usize = 0;
    while j < qs.len()
        invariant
            j <= qs@.len(),
            is_pose(*pc),
            is_pose(*po),
            c@ == placed(*pc, *p),
            small_v3(placed(*pc, *p)),
            0 <= p.radius <= LIMIT,
            0 <= margin <= LIMIT,
            forall|k: int|
                0 <= k < qs@.len() ==> (#[trigger] qs@[k]).offset.is_small() && 0
                    <= qs@[k].radius <= LIMIT && small_v3(placed(*po, qs@[k])),
            acc == pair_proximity(*pc, *p, *po, qs@, margin as int, j as nat),
        decreases qs@.len() - j,
    {
        let q = &qs[j];
        let cq = po.transform(&q.offset);
        let here = round_proximity_exec(&c, p.radius, &cq, q.radius, margin);
        acc = closer_exec(acc, here);
        j = j + 1;
    }
    acc
}

fn composite_proximity_exec(
    pc: &Isometry,
    parts: &Vec<Part>,
    po: &Isometry,
    other: &Shape,
    margin: i64,
) -> (r: ProximityState)
    requires
        is_pose(*pc),
        is_pose(*po),
        forall|k: int|
            0 <= k < parts@.len() ==> (#[trigger] parts@[k]).offset.is_small() && 0
                <= parts@[k].radius <= LIMIT && small_v3(placed(*pc, parts@[k])),
        other.wf(),
        parts_fit(*po, *other),
        0 <= margin <= LIMIT,
    ensures
        r == composite_proximity(*pc, parts@, *po, *other, margin as int, parts@.len()),
{
    let mut acc = ProximityState::Disjoint;
    let mut i: usize = 0;
    while i < parts.len()
        invariant
            i <= parts@.len(),
            is_pose(*pc),
            is_pose(*po),
            other.wf(),
            parts_fit(*po, *other),
            0 <= margin <= LIMIT,
            forall|k: int|
                0 <= k < parts@.len() ==> (#[trigger] parts@[k]).offset.is_small() && 0
                    <= parts@[k].radius <= LIMIT && small_v3(placed(*pc, parts@[k])),
            acc == composite_proximity(*pc, parts@, *po, *other, margin as int, i as nat),
        decreases parts@.len() - i,
    {
        let p = &parts[i];
        let c = pc.transform(&p.offset);
        let here = match other {
            Shape::Plane(ax) => plane_proximity_exec(po, *ax, &c, p.radius, margin),
            Shape::Compound(qs) => {
                assert forall|k: int| 0 <= k < qs@.len() implies (#[trigger] qs@[k]).offset.is_small()
                    && 0 <= qs@[k].radius <= LIMIT && small_v3(placed(*po, qs@[k])) by {
                    assert(other.wf());
                    assert(parts_fit(*po, *other));
                    assert(0 <= qs@[k].radius <= LIMIT);
                    assert(small_v3(placed(*po, qs@[k])));
                }
                pair_proximity_exec(pc, p, po, qs, margin)
            },
            _ => round_proximity_exec(&c, p.radius, &po.subtrans(), other.radius(), margin),
        };
        acc = closer_exec(acc, here);
        i = i + 1;
    }
    acc
}

/// A proximity detector for one pair of shapes, remembering the last
/// proximity it found.
pub struct ProximityDetector {
    kind: AlgorithmKind,
    proximity: ProximityState,
}

/// The detector a proximity dispatcher hands out.
pub type ProximityAlgorithm = ProximityDetector;

impl ProximityDetector {
    pub closed spec fn kind(&self) -> AlgorithmKind {
        self.kind
    }

    pub closed spec fn state(&self) -> ProximityState {
        self.proximity
    }

    /// A detector of the given kind that has found nothing yet.
    pub fn new(kind: AlgorithmKind) -> (r: ProximityDetector)
        ensures
            r.kind() == kind,
            r.state() == ProximityState::Disjoint,
    {
        ProximityDetector { kind, proximity: ProximityState::Disjoint }
    }

    /// The algorithm this detector runs.
    pub fn algorithm(&self) -> (r: AlgorithmKind)
        ensures
            r == self.kind(),
    {
        self.kind
    }

    /// The proximity found by the last update.
    pub fn proximity(&self) -> (r: ProximityState)
        ensures
            r == self.state(),
    {
        self.proximity
    }

    /// Recomputes the proximity for the shapes at their new poses and
    /// reports whether the shapes are of the kinds this detector handles;
    /// when they are not, nothing changes.
    pub fn update(&mut self, ma: &Isometry, a: &Shape, mb: &Isometry, b: &Shape, margin: i64) -> (r: bool)
        requires
            is_pose(*ma),
            is_pose(*mb),
            a.wf(),
            b.wf(),
            parts_fit(*ma, *a),
            parts_fit(*mb, *b),
            0 <= margin <= LIMIT,
        ensures
            r == handles(old(self).kind(), *a, *b),
            final(self).kind() == old(self).kind(),
            r ==> final(self).state() == expected_proximity(old(self).kind(), *ma, *a, *mb, *b, margin as int),
            !r ==> *final(self) == *old(self),
    {
        let found = match self.kind {
            AlgorithmKind::BallBall => {
                if a.is_ball() && b.is_ball() {
                    Some(round_proximity_exec(&ma.subtrans(), a.radius(), &mb.subtrans(), b.radius(), margin))
                } else {
                    None
                }
            },
            AlgorithmKind::SupportMapSupportMap => {
                if a.is_support_map() && b.is_support_map() {
                    Some(round_proximity_exec(&ma.subtrans(), a.radius(), &mb.subtrans(), b.radius(), margin))
                } else {
                    None
                }
            },
            AlgorithmKind::PlaneSupportMap => match a {
                Shape::Plane(ax) => {
                    if b.is_support_map() {
                        Some(plane_proximity_exec(ma, *ax, &mb.subtrans(), b.radius(), margin))
                    } else {
                        None
                    }
                },
                _ => None,
            },
            AlgorithmKind::SupportMapPlane => match b {
                Shape::Plane(ax) => {
                    if a.is_support_map() {
                        Some(plane_proximity_exec(mb, *ax, &ma.subtrans(), a.radius(), margin))
                    } else {
                        None
                    }
                },
                _ => None,
            },
            AlgorithmKind::CompositeShapeShape => match a {
                Shape::Compound(parts) => {
                    {
                        proof {
                            assert forall|k: int| 0 <= k < parts@.len() implies (#[trigger] parts@[k]).offset.is_small()
                                && 0 <= parts@[k].radius <= LIMIT && small_v3(placed(*ma, parts@[k])) by {
                                assert(0 <= parts@[k].radius <= LIMIT);
                                assert(small_v3(placed(*ma, parts@[k])));
                            }
                        }
                        Some(composite_proximity_exec(ma, parts, mb, b, margin))
                    }
                },
                _ => None,
            },
            AlgorithmKind::ShapeCompositeShape => match b {
                Shape::Compound(parts) => {
                    {
                        proof {
                            assert forall|k: int| 0 <= k < parts@.len() implies (#[trigger] parts@[k]).offset.is_small()
                                && 0 <= parts@[k].radius <= LIMIT && small_v3(placed(*mb, parts@[k])) by {
                                assert(0 <= parts@[k].radius <= LIMIT);
                                assert(small_v3(placed(*mb, parts@[k])));
                            }
                        }
                        Some(composite_proximity_exec(mb, parts, ma, a, margin))
                    }
                },
                _ => None,
            },
        };
        match found {
            Some(p) => {
                self.proximity = p;
                true
            },
            None => false,
        }
    }
}

/// Proximity dispatcher for the shapes of this library.
pub struct DefaultProximityDispatcher {}

impl DefaultProximityDispatcher {
    /// Creates a new proximity dispatcher.
    pub fn new() -> (r: DefaultProximityDispatcher) {
        DefaultProximityDispatcher {  }
    }

    /// A fresh detector for the pair, as the dispatch policy selects, or
    /// `None` when no algorithm handles the pair.
    pub fn get_proximity_algorithm(&self, a: &Shape, b: &Shape) -> (r: Option<ProximityAlgorithm>)
        ensures
            r.is_some() == select_spec(*a, *b).is_some(),
            r matches Some(d) ==> Some(d.kind()) == select_spec(*a, *b) && d.state()
                == ProximityState::Disjoint,
    {
        match select(a, b) {
            Some(k) => Some(ProximityDetector::new(k)),
            None => None,
        }
    }
}

} // verus!
