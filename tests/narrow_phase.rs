use ncollide::contact::{Contact, ContactKinematic, FeatureId, GeometricContact, LocalFeature, NormalCone};
use ncollide::dispatcher::{select, AlgorithmKind, ContactAlgorithm, DefaultContactDispatcher};
use ncollide::generators::{
    BallBallContactGenerator, CompositeShapeShapeContactGenerator, PlaneSupportMapContactGenerator,
    SupportMapSupportMapContactGenerator,
};
use ncollide::id_allocator::IdAllocator;
use ncollide::manifold::ContactManifold;
use ncollide::proximity::{DefaultProximityDispatcher, ProximityState};
use ncollide::math::{sqrt_ceil, Vector};
use ncollide::query::{
    ball_against_ball, closest_points, plane_against_ball, support_map_against_support_map,
    Proximity,
};
use ncollide::shape::{Axis, ConstantOrigin, Part, Shape};
use ncollide::transform::{Isometry, Mat3, Transform};

fn at(x: i64, y: i64, z: i64) -> Isometry {
    Transform::from_translation(Vector::new(x, y, z))
}

fn face0() -> LocalFeature {
    LocalFeature::Face(0)
}

#[test]
fn sqrt_ceil_rounds_up() {
    assert_eq!(sqrt_ceil(0), 0);
    assert_eq!(sqrt_ceil(1), 1);
    assert_eq!(sqrt_ceil(2), 2);
    assert_eq!(sqrt_ceil(25), 5);
    assert_eq!(sqrt_ceil(26), 6);
}

#[test]
fn balls_within_margin_touch() {
    let c = ball_against_ball(&Vector::new(0, 0, 0), 1, face0(), &Vector::new(3, 0, 0), 1, face0(), 1);
    let (contact, kin) = c.expect("contact within margin");
    assert_eq!(contact.normal, Vector::new(3, 0, 0));
    assert_eq!(contact.depth, -1);
    assert_eq!(contact.world1, Vector::new(0, 0, 0));
    assert_eq!(contact.world2, Vector::new(3, 0, 0));
    assert_eq!(kin.dilation1, 1);
    assert_eq!(kin.dilation2, 1);
    assert_eq!(kin.normals1, NormalCone::Empty);
}

#[test]
fn balls_beyond_margin_do_not_touch() {
    let c = ball_against_ball(&Vector::new(0, 0, 0), 1, face0(), &Vector::new(4, 0, 0), 1, face0(), 1);
    assert!(c.is_none());
}

#[test]
fn overlapping_balls_depth_and_normal() {
    let c = ball_against_ball(&Vector::new(0, 0, 0), 3, face0(), &Vector::new(0, 3, 4), 4, face0(), 0);
    let (contact, _) = c.unwrap();
    assert_eq!(contact.depth, 2);
    assert_eq!(contact.normal, Vector::new(0, 3, 4));
}

#[test]
fn coincident_balls_use_first_axis() {
    let c = ball_against_ball(&Vector::new(5, 5, 5), 2, face0(), &Vector::new(5, 5, 5), 2, face0(), 0);
    let (contact, _) = c.unwrap();
    assert_eq!(contact.normal, Vector::new(1, 0, 0));
    assert_eq!(contact.depth, 4);
}

#[test]
fn plane_against_ball_within_margin() {
    let c = plane_against_ball(&at(0, 0, 0), Axis::PosZ, &Vector::new(7, -2, 3), 2, face0(), 1);
    let (contact, kin) = c.unwrap();
    assert_eq!(contact.normal, Vector::new(0, 0, 1));
    assert_eq!(contact.depth, -1);
    assert_eq!(contact.world1, Vector::new(7, -2, 0));
    assert_eq!(contact.world2, Vector::new(7, -2, 3));
    assert_eq!(kin.normals1, NormalCone::Ray(Vector::new(0, 0, 1)));
    assert!(plane_against_ball(&at(0, 0, 0), Axis::PosZ, &Vector::new(0, 0, 4), 2, face0(), 1).is_none());
    let below = plane_against_ball(&at(0, 0, 0), Axis::NegY, &Vector::new(0, 5, 0), 1, face0(), 0);
    assert_eq!(below.unwrap().0.depth, 6);
}

#[test]
fn distance_between_balls() {
    let d = support_map_against_support_map(&at(0, 0, 0), &Shape::Ball(1), &at(10, 0, 0), &Shape::Ball(2));
    assert_eq!(d, 7);
    let d = support_map_against_support_map(&at(0, 0, 0), &Shape::Point, &at(0, 6, 8), &Shape::Ball(4));
    assert_eq!(d, 6);
    let d = support_map_against_support_map(&at(0, 0, 0), &Shape::Ball(5), &at(3, 4, 0), &Shape::Ball(1));
    assert_eq!(d, 0);
}

#[test]
fn closest_points_outcomes() {
    let o = Vector::new(0, 0, 0);
    assert_eq!(closest_points(&o, 1, &Vector::new(2, 0, 0), 1, 100), Proximity::Intersection);
    assert_eq!(closest_points(&o, 1, &Vector::new(0, 0, 9), 1, 100), Proximity::Distance(7));
    assert_eq!(
        closest_points(&o, 1, &Vector::new(0, 0, 9), 1, 3),
        Proximity::NoIntersection(Vector::new(0, 0, -9))
    );
}

#[test]
fn transform_inverse_of_rotation() {
    let rot = Mat3 { c0: Vector::new(0, 1, 0), c1: Vector::new(-1, 0, 0), c2: Vector::new(0, 0, 1) };
    let t = Transform::new(Vector::new(1, 2, 3), rot);
    let p = t.transform(&Vector::new(1, 0, 0));
    assert_eq!(p, Vector::new(1, 3, 3));
    let inv = t.inverse().expect("rotation is invertible");
    assert_eq!(inv.transform(&p), Vector::new(1, 0, 0));
    assert_eq!(t.inv_transform(&p), Vector::new(1, 0, 0));
    assert_eq!(inv.submat(), rot.transposed());
}

#[test]
fn transform_not_invertible() {
    let m = Mat3 { c0: Vector::new(2, 0, 0), c1: Vector::new(0, 1, 0), c2: Vector::new(0, 0, 1) };
    let mut t = Transform::new(Vector::new(1, 1, 1), m);
    assert!(t.inverse().is_none());
    assert!(!t.inplace_inverse());
    assert_eq!(t.submat(), m);
    assert_eq!(t.subtrans(), Vector::new(1, 1, 1));
}

#[test]
fn transform_translation_updates() {
    let mut t = at(1, 2, 3);
    t.translate_by(&Vector::new(1, 1, 1));
    assert_eq!(t.translation(), Vector::new(2, 3, 4));
    let u = t.translated(&Vector::new(-2, 0, 0));
    assert_eq!(u.subtrans(), Vector::new(0, 3, 4));
    t.set_translation(Vector::new(9, 9, 9));
    assert_eq!(t.subtrans(), Vector::new(9, 9, 9));
    assert_eq!(Transform::one().subtrans(), Vector::new(0, 0, 0));
}

#[test]
fn contact_flip_swaps_sides() {
    let mut c: Contact = GeometricContact::new(
        &Vector::new(1, 1, 1),
        &Vector::new(0, 0, 1),
        &5,
        &Vector::new(1, 0, 0),
        &Vector::new(0, 1, 0),
    );
    c.flip();
    assert_eq!(c.normal(), Vector::new(0, 0, -1));
    assert_eq!(c.world1(), Vector::new(0, 1, 0));
    assert_eq!(c.world2(), Vector::new(1, 0, 0));
    assert_eq!(c.depth(), 5);
    c.set_depth(&-2);
    c.set_center(&Vector::new(4, 4, 4));
    assert_eq!(c.depth(), -2);
    assert_eq!(c.center(), Vector::new(4, 4, 4));
}

#[test]
fn constant_origin_support_point() {
    let s = ConstantOrigin;
    let p = s.support_point(&at(5, 6, 7), &Vector::new(1, 2, 3));
    assert_eq!(p, Vector::new(0, 0, 0));
    assert_eq!(s.support_point_toward(&at(5, 6, 7), &Vector::new(0, 0, 1)), Vector::new(0, 0, 0));
}

#[test]
fn allocator_ids_are_distinct_and_reused() {
    let mut a = IdAllocator::new();
    let i0 = a.allocate();
    let i1 = a.allocate();
    let i2 = a.allocate();
    assert!(i0 != i1 && i1 != i2 && i0 != i2);
    a.release(i1);
    let i3 = a.allocate();
    assert_eq!(i3, i1);
    let i4 = a.allocate();
    assert!(i4 != i0 && i4 != i2 && i4 != i3);
}

#[test]
fn ball_ball_generator_reports_contact() {
    let mut alloc = IdAllocator::new();
    let mut g = BallBallContactGenerator::new();
    assert!(g.update(&at(0, 0, 0), &Shape::Ball(1), &at(2, 0, 0), &Shape::Ball(1), 0, &mut alloc));
    assert_eq!(g.num_contacts(), 1);
    assert!(g.update(&at(0, 0, 0), &Shape::Ball(1), &at(9, 0, 0), &Shape::Ball(1), 0, &mut alloc));
    assert_eq!(g.num_contacts(), 0);
    assert!(!g.update(&at(0, 0, 0), &Shape::Ball(1), &at(0, 0, 0), &Shape::Point, 0, &mut alloc));
}

#[test]
fn continued_point_keeps_its_id() {
    let mut alloc = IdAllocator::new();
    let mut g = BallBallContactGenerator::new();
    assert!(g.update(&at(0, 0, 0), &Shape::Ball(5), &at(8, 0, 0), &Shape::Ball(5), 0, &mut alloc));
    let mut out = Vec::new();
    g.contacts(&mut out);
    let first = out[0].point(0).id;
    assert!(g.update(&at(0, 0, 0), &Shape::Ball(5), &at(8, 1, 0), &Shape::Ball(5), 0, &mut alloc));
    let mut out = Vec::new();
    g.contacts(&mut out);
    assert_eq!(out.len(), 1);
    assert_eq!(out[0].point(0).id, first);
}

#[test]
fn unrelated_point_gets_new_id() {
    let mut alloc = IdAllocator::new();
    let mut m = ContactManifold::new();
    let c: Contact = GeometricContact::new(
        &Vector::new(0, 0, 0),
        &Vector::new(1, 0, 0),
        &0,
        &Vector::new(0, 0, 0),
        &Vector::new(0, 0, 0),
    );
    let k = ContactKinematic::new();
    assert!(!m.push(c, k, &mut alloc));
    let old_id = m.point(0).id;
    m.save_cache_and_clear(&mut alloc);
    let mut far = ContactKinematic::new();
    far.local1 = Vector::new(50, 0, 0);
    assert!(!m.push(c, far, &mut alloc));
    assert_ne!(m.point(0).id, old_id);
    let mut near = ContactKinematic::new();
    near.local1 = Vector::new(1, 1, 0);
    assert!(m.push(c, near, &mut alloc));
    assert_eq!(m.point(1).id, old_id);
}

#[test]
fn clearing_manifold_frees_its_ids() {
    let mut alloc = IdAllocator::new();
    let mut m = ContactManifold::new();
    let c: Contact = GeometricContact::new(
        &Vector::new(0, 0, 0),
        &Vector::new(1, 0, 0),
        &0,
        &Vector::new(0, 0, 0),
        &Vector::new(0, 0, 0),
    );
    let mut ids = Vec::new();
    for i in 0..3 {
        let mut k = ContactKinematic::new();
        k.feature1 = FeatureId::Local(LocalFeature::Vertex(i));
        m.push(c, k, &mut alloc);
        ids.push(m.point(i).id);
    }
    assert!(ids[0] != ids[1] && ids[1] != ids[2] && ids[0] != ids[2]);
    m.clear(&mut alloc);
    assert_eq!(m.len(), 0);
    let mut again = Vec::new();
    for _ in 0..3 {
        again.push(alloc.allocate());
    }
    again.sort();
    ids.sort();
    assert_eq!(again, ids);
}

#[test]
fn composite_contacts_carry_part_index() {
    let mut alloc = IdAllocator::new();
    let parts = vec![
        Part { offset: Vector::new(0, 0, 0), radius: 1 },
        Part { offset: Vector::new(100, 0, 0), radius: 1 },
        Part { offset: Vector::new(0, 3, 0), radius: 1 },
    ];
    let compound = Shape::Compound(parts);
    let mut g = CompositeShapeShapeContactGenerator::new(false);
    assert!(g.update(&at(0, 0, 0), &compound, &at(0, 1, 0), &Shape::Ball(1), 0, &mut alloc));
    assert_eq!(g.num_contacts(), 2);
    let mut flipped = CompositeShapeShapeContactGenerator::new(true);
    assert!(flipped.update(&at(0, 1, 0), &Shape::Ball(1), &at(0, 0, 0), &compound, 0, &mut alloc));
    assert_eq!(flipped.num_contacts(), 2);
    assert!(!g.update(&at(0, 0, 0), &Shape::Ball(1), &at(0, 0, 0), &compound, 0, &mut alloc));
}

#[test]
fn composite_against_composite() {
    let mut alloc = IdAllocator::new();
    let left = Shape::Compound(vec![
        Part { offset: Vector::new(0, 0, 0), radius: 1 },
        Part { offset: Vector::new(0, 50, 0), radius: 1 },
    ]);
    let right = Shape::Compound(vec![
        Part { offset: Vector::new(0, 0, 0), radius: 1 },
        Part { offset: Vector::new(0, 0, 40), radius: 1 },
        Part { offset: Vector::new(0, 49, 0), radius: 1 },
    ]);
    let d = DefaultContactDispatcher::new();
    let mut g = d.get_contact_algorithm(&left, &right).unwrap();
    assert!(g.update(&at(0, 0, 0), &left, &at(1, 0, 0), &right, 0, &mut alloc));
    assert_eq!(g.num_contacts(), 2);
    let mut out = Vec::new();
    g.contacts(&mut out);
    let m = out[0];
    assert_eq!(m.point(0).kinematic.feature1, FeatureId::Part(0, LocalFeature::Face(0)));
    assert_eq!(m.point(0).kinematic.feature2, FeatureId::Part(0, LocalFeature::Face(0)));
    assert_eq!(m.point(1).kinematic.feature1, FeatureId::Part(1, LocalFeature::Face(0)));
    assert_eq!(m.point(1).kinematic.feature2, FeatureId::Part(2, LocalFeature::Face(0)));
    let pd = DefaultProximityDispatcher::new();
    let mut det = pd.get_proximity_algorithm(&left, &right).unwrap();
    assert!(det.update(&at(0, 0, 0), &left, &at(1, 0, 0), &right, 0));
    assert_eq!(det.proximity(), ProximityState::Intersecting);
    assert!(det.update(&at(0, 0, 0), &left, &at(3, 0, 0), &right, 2));
    assert_eq!(det.proximity(), ProximityState::WithinMargin);
}

#[test]
fn shear_is_inverted() {
    let shear = Mat3 { c0: Vector::new(1, 0, 0), c1: Vector::new(1, 1, 0), c2: Vector::new(0, 0, 1) };
    let t = Transform::new(Vector::new(2, 3, 4), shear);
    let inv = t.inverse().expect("determinant one");
    assert_eq!(
        inv.submat(),
        Mat3 { c0: Vector::new(1, 0, 0), c1: Vector::new(-1, 1, 0), c2: Vector::new(0, 0, 1) }
    );
    let p = Vector::new(5, -7, 9);
    assert_eq!(inv.transform(&t.transform(&p)), p);
    let mut u = t;
    assert!(u.inplace_inverse());
    assert_eq!(u, inv);
    let reflect = Mat3 { c0: Vector::new(0, 1, 0), c1: Vector::new(1, 0, 0), c2: Vector::new(0, 0, 1) };
    assert!(Transform::new(Vector::new(1, 1, 1), reflect).inverse().is_some());
}

#[test]
fn composite_feature_ids_fold_part_index() {
    let mut alloc = IdAllocator::new();
    let parts = vec![
        Part { offset: Vector::new(0, 0, 0), radius: 1 },
        Part { offset: Vector::new(100, 0, 0), radius: 1 },
        Part { offset: Vector::new(0, 3, 0), radius: 1 },
    ];
    let compound = Shape::Compound(parts);
    let d = DefaultContactDispatcher::new();
    let mut g = d.get_contact_algorithm(&compound, &Shape::Ball(1)).unwrap();
    assert!(g.update(&at(0, 0, 0), &compound, &at(0, 1, 0), &Shape::Ball(1), 0, &mut alloc));
    assert_eq!(g.num_contacts(), 2);
    let mut out = Vec::new();
    g.contacts(&mut out);
    assert_eq!(out.len(), 1);
    let m = out[0];
    assert_eq!(m.len(), 2);
    assert_eq!(m.point(0).kinematic.feature1, FeatureId::Part(0, LocalFeature::Face(0)));
    assert_eq!(m.point(1).kinematic.feature1, FeatureId::Part(2, LocalFeature::Face(0)));
    assert_eq!(m.point(0).kinematic.feature2, FeatureId::Local(LocalFeature::Face(0)));
    assert!(m.point(0).id != m.point(1).id);
    assert_eq!(m.point(1).contact.world1, Vector::new(0, 3, 0));
    let folded = FeatureId::Local(LocalFeature::Face(0)).fold_into_part(2);
    assert_eq!(folded, FeatureId::Part(2, LocalFeature::Face(0)));
}

#[test]
fn composite_against_plane() {
    let mut alloc = IdAllocator::new();
    let parts = vec![
        Part { offset: Vector::new(0, 0, 1), radius: 1 },
        Part { offset: Vector::new(0, 0, 10), radius: 1 },
    ];
    let compound = Shape::Compound(parts);
    let mut g = CompositeShapeShapeContactGenerator::new(true);
    assert!(g.update(&at(0, 0, 0), &Shape::Plane(Axis::PosZ), &at(0, 0, 0), &compound, 0, &mut alloc));
    assert_eq!(g.num_contacts(), 1);
}

#[test]
fn plane_generator_both_orders() {
    let mut alloc = IdAllocator::new();
    let mut g = PlaneSupportMapContactGenerator::new(false);
    assert!(g.update(&at(0, 0, 0), &Shape::Plane(Axis::PosY), &at(0, 1, 0), &Shape::Ball(2), 0, &mut alloc));
    assert_eq!(g.num_contacts(), 1);
    let mut h = PlaneSupportMapContactGenerator::new(true);
    assert!(h.update(&at(0, 1, 0), &Shape::Point, &at(0, 0, 0), &Shape::Plane(Axis::PosY), 0, &mut alloc));
    assert_eq!(h.num_contacts(), 0);
    assert!(!h.update(&at(0, 0, 0), &Shape::Plane(Axis::PosY), &at(0, 1, 0), &Shape::Point, 0, &mut alloc));
}

#[test]
fn support_map_generator_ball_and_point() {
    let mut alloc = IdAllocator::new();
    let mut g = SupportMapSupportMapContactGenerator::new();
    assert!(g.update(&at(0, 0, 0), &Shape::Ball(2), &at(0, 0, 2), &Shape::Point, 0, &mut alloc));
    assert_eq!(g.num_contacts(), 1);
    assert!(!g.update(&at(0, 0, 0), &Shape::Plane(Axis::PosX), &at(0, 0, 2), &Shape::Point, 0, &mut alloc));
}

#[test]
fn dispatcher_prefers_specialised_rules() {
    let ball = Shape::Ball(1);
    let plane = Shape::Plane(Axis::PosZ);
    let comp = Shape::Compound(vec![Part { offset: Vector::new(0, 0, 0), radius: 1 }]);
    assert_eq!(select(&ball, &ball), Some(AlgorithmKind::BallBall));
    assert_eq!(select(&ball, &Shape::Point), Some(AlgorithmKind::SupportMapSupportMap));
    assert_eq!(select(&plane, &ball), Some(AlgorithmKind::PlaneSupportMap));
    assert_eq!(select(&ball, &plane), Some(AlgorithmKind::SupportMapPlane));
    assert_eq!(select(&comp, &ball), Some(AlgorithmKind::CompositeShapeShape));
    assert_eq!(select(&plane, &comp), Some(AlgorithmKind::ShapeCompositeShape));
    assert_eq!(select(&plane, &plane), None);
    assert_eq!(select(&comp, &comp), Some(AlgorithmKind::CompositeShapeShape));
    let d = DefaultContactDispatcher::new();
    assert!(matches!(d.get_contact_algorithm(&ball, &ball), Some(ContactAlgorithm::BallBall(_))));
    assert!(d.get_contact_algorithm(&plane, &plane).is_none());
}

#[test]
fn proximity_dispatcher_and_detectors() {
    let d = DefaultProximityDispatcher::new();
    let ball = Shape::Ball(2);
    let mut det = d.get_proximity_algorithm(&ball, &ball).unwrap();
    assert_eq!(det.algorithm(), AlgorithmKind::BallBall);
    assert_eq!(det.proximity(), ProximityState::Disjoint);
    assert!(det.update(&at(0, 0, 0), &ball, &at(3, 0, 0), &ball, 1));
    assert_eq!(det.proximity(), ProximityState::Intersecting);
    assert!(det.update(&at(0, 0, 0), &ball, &at(5, 0, 0), &ball, 1));
    assert_eq!(det.proximity(), ProximityState::WithinMargin);
    assert!(det.update(&at(0, 0, 0), &ball, &at(6, 0, 0), &ball, 1));
    assert_eq!(det.proximity(), ProximityState::Disjoint);
    assert!(!det.update(&at(0, 0, 0), &ball, &at(6, 0, 0), &Shape::Point, 1));
    assert_eq!(det.proximity(), ProximityState::Disjoint);
    assert!(d.get_proximity_algorithm(&Shape::Plane(Axis::PosX), &Shape::Plane(Axis::PosX)).is_none());
}

#[test]
fn proximity_plane_and_composite() {
    let d = DefaultProximityDispatcher::new();
    let plane = Shape::Plane(Axis::PosZ);
    let mut det = d.get_proximity_algorithm(&Shape::Point, &plane).unwrap();
    assert_eq!(det.algorithm(), AlgorithmKind::SupportMapPlane);
    assert!(det.update(&at(0, 0, 2), &Shape::Point, &at(0, 0, 0), &plane, 3));
    assert_eq!(det.proximity(), ProximityState::WithinMargin);
    let comp = Shape::Compound(vec![
        Part { offset: Vector::new(0, 0, 10), radius: 1 },
        Part { offset: Vector::new(0, 0, 1), radius: 1 },
    ]);
    let mut c = d.get_proximity_algorithm(&comp, &plane).unwrap();
    assert_eq!(c.algorithm(), AlgorithmKind::CompositeShapeShape);
    assert!(c.update(&at(0, 0, 0), &comp, &at(0, 0, 0), &plane, 0));
    assert_eq!(c.proximity(), ProximityState::Intersecting);
    assert!(c.update(&at(0, 0, 5), &comp, &at(0, 0, 0), &plane, 0));
    assert_eq!(c.proximity(), ProximityState::Disjoint);
}

#[test]
fn transform_composition_and_rotation() {
    let quarter = Mat3 { c0: Vector::new(0, 1, 0), c1: Vector::new(-1, 0, 0), c2: Vector::new(0, 0, 1) };
    let a = Transform::new(Vector::new(1, 0, 0), quarter);
    let b = Transform::new(Vector::new(0, 2, 0), quarter);
    let ab = a.mul(&b);
    let p = Vector::new(1, 0, 0);
    assert_eq!(ab.transform(&p), a.transform(&b.transform(&p)));
    assert_eq!(ab.subtrans(), Vector::new(-1, 0, 0));
    let r = at(1, 0, 0).rotated(&quarter);
    assert_eq!(r.subtrans(), Vector::new(0, 1, 0));
    let mut s = at(1, 0, 0);
    s.rotate_by(&quarter);
    assert_eq!(s, r);
    assert_eq!(a.inv_rotate(&a.rotate(&p)), p);
    assert_eq!(quarter.mul(&quarter.transposed()), Mat3::identity());
}

#[test]
fn generators_clone_independently() {
    let mut alloc = IdAllocator::new();
    let mut g = BallBallContactGenerator::new();
    let snapshot = g.clone();
    assert!(g.update(&at(0, 0, 0), &Shape::Ball(1), &at(1, 0, 0), &Shape::Ball(1), 0, &mut alloc));
    assert_eq!(g.num_contacts(), 1);
    assert_eq!(snapshot.num_contacts(), 0);
    let mut out = Vec::new();
    snapshot.contacts(&mut out);
    assert!(out.is_empty());
}

#[test]
fn homogeneous_round_trip() {
    let m = Mat3 { c0: Vector::new(0, 1, 0), c1: Vector::new(-1, 0, 0), c2: Vector::new(0, 0, 1) };
    let t = Transform::new(Vector::new(4, 5, 6), m);
    let h = t.to_homogeneous();
    assert_eq!(h.c3, ncollide::transform::Vec4 { x: 4, y: 5, z: 6, w: 1 });
    assert_eq!(h.c0, ncollide::transform::Vec4 { x: 0, y: 1, z: 0, w: 0 });
    assert_eq!(Transform::from_homogeneous(&h), t);
}

#[test]
fn flip_accepts_wide_normals() {
    let big = 1i64 << 40;
    let mut c: Contact = GeometricContact::new(
        &Vector::new(0, 0, 0),
        &Vector::new(big, -big, 1),
        &0,
        &Vector::new(0, 0, 0),
        &Vector::new(1, 1, 1),
    );
    c.flip();
    assert_eq!(c.normal(), Vector::new(-big, big, -1));
    c.flip();
    assert_eq!(c.normal(), Vector::new(big, -big, 1));
    assert_eq!(c.world2(), Vector::new(1, 1, 1));
}

#[test]
fn cloned_generator_keeps_ids() {
    let mut alloc = IdAllocator::new();
    let d = DefaultContactDispatcher::new();
    let a = Shape::Ball(3);
    let mut g = d.get_contact_algorithm(&a, &a).unwrap();
    assert!(g.update(&at(0, 0, 0), &a, &at(5, 0, 0), &a, 0, &mut alloc));
    let copy = g.clone();
    let mut out1 = Vec::new();
    g.contacts(&mut out1);
    let mut out2 = Vec::new();
    copy.contacts(&mut out2);
    assert_eq!(out1[0].point(0).id, out2[0].point(0).id);
    assert_eq!(out1[0].point(0).contact.depth, out2[0].point(0).contact.depth);
    let first = out1[0].point(0).id;
    assert!(g.update(&at(0, 0, 0), &a, &at(5, 1, 0), &a, 0, &mut alloc));
    let mut out3 = Vec::new();
    g.contacts(&mut out3);
    assert_eq!(out3[0].point(0).id, first);
}
