//! Contact manifolds: the identity-tracked contact points of one shape pair.
use vstd::prelude::*;
use crate::contact::{Contact, ContactKinematic};
use crate::id_allocator::IdAllocator;
use crate::math::{v_norm_sq, v_sub};

verus! {

/// Squared distance within which a new local anchor continues a previous one.
pub const TRACKING_TOLERANCE_SQ: i64 = 4;

/// A contact of a manifold with its identifier.
#[derive(Clone, Copy, Debug)]
pub struct TrackedContact {
    pub contact: Contact,
    pub kinematic: ContactKinematic,
    pub id: usize,
}

/// Whether two contacts attach to the same features at nearby local anchors.
pub open spec fn close(a: ContactKinematic, b: ContactKinematic) -> bool {
    &&& a.feature1 == b.feature1
    &&& a.feature2 == b.feature2
    &&& v_norm_sq(v_sub(a.local1@, b.local1@)) <= TRACKING_TOLERANCE_SQ
    &&& v_norm_sq(v_sub(a.local2@, b.local2@)) <= TRACKING_TOLERANCE_SQ
}

/// Both local anchors lie within the accepted coordinate range.
pub open spec fn anchors_small(k: ContactKinematic) -> bool {
    k.local1.is_small() && k.local2.is_small()
}

/// Number of `false` entries in `s`.
pub open spec fn count_false(s: Seq<bool>) -> nat
    decreases s.len(),
{
    if s.len() == 0 {
        0
    } else {
        count_false(s.drop_last()) + if s.last() {
            0nat
        } else {
            1nat
        }
    }
}

/// The contact points of one shape pair, together with the points of the
/// previous frame that are still available for identity matching.
#[derive(Debug)]
pub struct ContactManifold {
    points: Vec<TrackedContact>,
    cache: Vec<TrackedContact>,
    matched: Vec<bool>,
}

fn copy_contacts(v: &Vec<TrackedContact>) -> (r: Vec<TrackedContact>)
    ensures
        r@ == v@,
{
    let mut r: Vec<TrackedContact> = Vec::new();
    let mut i: usize = 0;
    while i < v.len()
        invariant
            i <= v@.len(),
            r@ == v@.take(i as int),
        decreases v@.len() - i,
    {
        r.push(v[i]);
        i = i + 1;
        assert(r@ == v@.take(i as int));
    }
    assert(v@.take(v@.len() as int) == v@);
    r
}

fn copy_flags(v: &Vec<bool>) -> (r: Vec<bool>)
    ensures
        r@ == v@,
{
    let mut r: Vec<bool> = Vec::new();
    let mut i: usize = 0;
    while i < v.len()
        invariant
            i <= v@.len(),
            r@ == v@.take(i as int),
        decreases v@.len() - i,
    {
        r.push(v[i]);
        i = i + 1;
        assert(r@ == v@.take(i as int));
    }
    assert(v@.take(v@.len() as int) == v@);
    r
}

impl Clone for ContactManifold {
    /// A copy with the same points, previous-frame points and flags.
    fn clone(&self) -> (r: ContactManifold)
        ensures
            r.points() == self.points(),
            r.cache() == self.cache(),
            r.matched() == self.matched(),
    {
        ContactManifold {
            points: copy_contacts(&self.points),
            cache: copy_contacts(&self.cache),
            matched: copy_flags(&self.matched),
        }
    }
}

/// `m_new` and `a_new` result from `m_old` and `a_old` by an operation that
/// only takes fresh identifiers and only releases identifiers it dropped.
pub open spec fn ids_step(
    m_old: ContactManifold,
    m_new: ContactManifold,
    a_old: IdAllocator,
    a_new: IdAllocator,
) -> bool {
    &&& forall|id: usize|
        m_new.ids().contains(id) ==> m_old.ids().contains(id) || (a_new.live().contains(id)
            && !a_old.live().contains(id))
    &&& forall|id: usize|
        a_old.live().contains(id) && !a_new.live().contains(id) ==> m_old.ids().contains(id)
            && !m_new.ids().contains(id)
}

/// Two operations in sequence take only fresh identifiers and release only
/// dropped ones.
pub proof fn lemma_ids_step_trans(
    m0: ContactManifold,
    m1: ContactManifold,
    m2: ContactManifold,
    a0: IdAllocator,
    a1: IdAllocator,
    a2: IdAllocator,
)
    requires
        ids_step(m0, m1, a0, a1),
        ids_step(m1, m2, a1, a2),
    ensures
        ids_step(m0, m2, a0, a2),
{
    assert forall|id: usize| m2.ids().contains(id) implies m0.ids().contains(id) || (a2.live().contains(id)
        && !a0.live().contains(id)) by {
        if m1.ids().contains(id) && !m0.ids().contains(id) {
            assert(a1.live().contains(id));
        }
    }
}

/// Doing nothing takes and releases no identifier.
pub proof fn lemma_ids_step_refl(m: ContactManifold, a: IdAllocator)
    ensures
        ids_step(m, m, a, a),
{
}

/// `j` is the first previous-frame point of `m`, not continued yet, that a
/// point with kinematic `k` continues.
pub open spec fn is_first_match(m: ContactManifold, k: ContactKinematic, j: int) -> bool {
    &&& 0 <= j < m.cache().len()
    &&& !m.matched()[j]
    &&& close(m.cache()[j].kinematic, k)
    &&& forall|i: int| 0 <= i < j ==> !(!m.matched()[i] && close(m.cache()[i].kinematic, k))
}

/// `m_new` and `a_new` result from pushing contact `c` with kinematic `k`
/// onto `m_old` with allocator `a_old`; `reused` tells whether an identifier
/// of the previous frame was carried over.
pub open spec fn push_step(
    m_old: ContactManifold,
    m_new: ContactManifold,
    a_old: IdAllocator,
    a_new: IdAllocator,
    c: Contact,
    k: ContactKinematic,
    reused: bool,
) -> bool {
    let p = m_new.points().last();
    &&& m_new.cache() == m_old.cache()
    &&& m_new.points().len() == m_old.points().len() + 1
    &&& m_new.points().drop_last() == m_old.points()
    &&& p.contact == c
    &&& p.kinematic == k
    &&& reused == (exists|j: int| is_first_match(m_old, k, j))
    &&& reused ==> exists|j: int|
        is_first_match(m_old, k, j) && p.id == m_old.cache()[j].id && m_new.matched()
            == m_old.matched().update(j, true) && a_new == a_old
    &&& !reused ==> !a_old.live().contains(p.id) && a_new.live() == a_old.live().insert(p.id)
        && m_new.matched() == m_old.matched()
}

/// Whether the contact with kinematic `k` continues the one with kinematic `c`.
fn continues(c: &ContactKinematic, k: &ContactKinematic) -> (r: bool)
    requires
        anchors_small(*c),
        anchors_small(*k),
    ensures
        r == close(*c, *k),
{
    c.feature1.same(&k.feature1) && c.feature2.same(&k.feature2)
        && c.local1.sub(&k.local1).norm_sq() <= TRACKING_TOLERANCE_SQ
        && c.local2.sub(&k.local2).norm_sq() <= TRACKING_TOLERANCE_SQ
}

proof fn lemma_count_all_false(s: Seq<bool>)
    requires
        forall|j: int| 0 <= j < s.len() ==> !s[j],
    ensures
        count_false(s) == s.len(),
    decreases s.len(),
{
    if s.len() > 0 {
        lemma_count_all_false(s.drop_last());
    }
}

impl ContactManifold {
    /// The points of the current frame.
    pub closed spec fn points(&self) -> Seq<TrackedContact> {
        self.points@
    }

    /// The points of the previous frame.
    pub closed spec fn cache(&self) -> Seq<TrackedContact> {
        self.cache@
    }

    /// Which points of the previous frame were continued in this frame.
    pub closed spec fn matched(&self) -> Seq<bool> {
        self.matched@
    }

    /// The identifiers this manifold holds: those of its points and those of
    /// the previous frame's points not continued yet.
    pub open spec fn ids(&self) -> Set<usize> {
        Set::new(
            |id: usize|
                (exists|i: int| 0 <= i < self.points().len() && self.points()[i].id == id) || (
                exists|j: int|
                    0 <= j < self.cache().len() && !self.matched()[j] && self.cache()[j].id
                        == id),
        )
    }

    pub open spec fn wf(&self) -> bool {
        &&& self.cache().len() == self.matched().len()
        &&& forall|i: int, k: int|
            0 <= i < k < self.points().len() ==> self.points()[i].id != self.points()[k].id
        &&& forall|j: int, k: int|
            0 <= j < k < self.cache().len() && !self.matched()[j] && !self.matched()[k]
                ==> self.cache()[j].id != self.cache()[k].id
        &&& forall|i: int, j: int|
            0 <= i < self.points().len() && 0 <= j < self.cache().len() && !self.matched()[j]
                ==> self.points()[i].id != self.cache()[j].id
        &&& forall|i: int|
            0 <= i < self.points().len() ==> anchors_small(#[trigger] self.points()[i].kinematic)
        &&& forall|j: int|
            0 <= j < self.cache().len() ==> anchors_small(#[trigger] self.cache()[j].kinematic)
        &&& forall|j: int|
            0 <= j < self.cache().len() && #[trigger] self.matched()[j] ==> exists|i: int|
                0 <= i < self.points().len() && self.points()[i].id == self.cache()[j].id
    }

    /// Every identifier of a previous-frame point is still held: by the
    /// point that continued it, or by the previous-frame point itself.
    pub proof fn lemma_cache_ids_held(&self)
        requires
            self.wf(),
        ensures
            forall|j: int| 0 <= j < self.cache().len() ==> self.ids().contains(#[trigger] self.cache()[j].id),
    {
        assert forall|j: int| 0 <= j < self.cache().len() implies self.ids().contains(#[trigger] self.cache()[j].id) by {
            if self.matched()[j] {
                let i = choose|i: int| 0 <= i < self.points().len() && self.points()[i].id == self.cache()[j].id;
            }
        }
    }

    /// An empty manifold.
    pub fn new() -> (r: ContactManifold)
        ensures
            r.wf(),
            r.points().len() == 0,
            r.cache().len() == 0,
            r.ids() == Set::<usize>::empty(),
    {
        let r = ContactManifold { points: Vec::new(), cache: Vec::new(), matched: Vec::new() };
        assert(r.ids() =~= Set::<usize>::empty());
        r
    }

    /// Number of points in the current frame.
    pub fn len(&self) -> (r: usize)
        ensures
            r == self.points().len(),
    {
        self.points.len()
    }

    /// The `i`-th point of the current frame.
    pub fn point(&self, i: usize) -> (r: &TrackedContact)
        requires
            i < self.points().len(),
        ensures
            *r == self.points()[i as int],
    {
        &self.points[i]
    }

    /// Starts a new frame: releases the identifiers of previous-frame points
    /// that were not continued, and keeps the current points as the cache
    /// against which the new frame's points are matched.
    pub fn save_cache_and_clear(&mut self, alloc: &mut IdAllocator)
        requires
            old(self).wf(),
            old(alloc).wf(),
            old(self).ids().subset_of(old(alloc).live()),
        ensures
            final(self).wf(),
            final(alloc).wf(),
            final(self).ids().subset_of(final(alloc).live()),
            ids_step(*old(self), *final(self), *old(alloc), *final(alloc)),
            final(self).points().len() == 0,
            final(self).cache() == old(self).points(),
            forall|j: int| 0 <= j < final(self).matched().len() ==> !final(self).matched()[j],
            final(alloc).live() == old(alloc).live().difference(
                old(self).ids().difference(final(self).ids()),
            ),
            final(alloc).available() == old(alloc).available() + count_false(old(self).matched()),
            final(alloc).room() == old(alloc).room(),
    {
        let ghost a0 = *alloc;
        let ghost m0 = *self;
        let mut j: usize = 0;
        while j < self.cache.len()
            invariant
                *self == m0,
                m0.wf(),
                m0.ids().subset_of(a0.live()),
                0 <= j <= self.cache@.len(),
                alloc.wf(),
                alloc.room() == a0.room(),
                alloc.available() == a0.available() + count_false(self.matched@.take(j as int)),
                forall|id: usize|
                    #[trigger] alloc.live().contains(id) <==> a0.live().contains(id) && !exists|k: int|
                        0 <= k < j && !self.matched@[k] && self.cache@[k].id == id,
            decreases self.cache@.len() - j,
        {
            assert(self.matched@.take(j + 1).drop_last() == self.matched@.take(j as int));
            let ghost a1 = *alloc;
            if !self.matched[j] {
                let id = self.cache[j].id;
                assert(m0.ids().contains(id));
                alloc.release(id);
            }
            proof {
                let jj = j as int;
                assert forall|id: usize|
                    alloc.live().contains(id) <==> a0.live().contains(id) && !exists|k: int|
                        0 <= k < jj + 1 && !self.matched@[k] && self.cache@[k].id == id by {
                    if exists|k: int| 0 <= k < jj + 1 && !self.matched@[k] && self.cache@[k].id == id {
                        let k = choose|k: int| 0 <= k < jj + 1 && !self.matched@[k] && self.cache@[k].id == id;
                        if k < jj {
                            assert(0 <= k < jj && !self.matched@[k] && self.cache@[k].id == id);
                            assert(!a1.live().contains(id));
                        }
                    }
                    if !self.matched@[jj] && self.cache@[jj].id != id {
                        assert(alloc.live().contains(id) == a1.live().contains(id));
                    }
                }
            }
            j = j + 1;
        }
        assert(self.matched@.take(j as int) == self.matched@);
        let mut pts: Vec<TrackedContact> = Vec::new();
        std::mem::swap(&mut pts, &mut self.points);
        self.cache = pts;
        let mut flags: Vec<bool> = Vec::new();
        let mut k: usize = 0;
        while k < self.cache.len()
            invariant
                k <= self.cache@.len(),
                flags@.len() == k,
                forall|i: int| 0 <= i < k ==> !flags@[i],
            decreases self.cache@.len() - k,
        {
            flags.push(false);
            k = k + 1;
        }
        self.matched = flags;
        proof {
            assert forall|id: usize| self.ids().contains(id) <==> m0.ids().contains(id) && (exists|i: int|
                0 <= i < m0.points().len() && m0.points()[i].id == id) by {
                if self.ids().contains(id) {
                    let j = choose|j: int|
                        0 <= j < self.cache().len() && !self.matched()[j] && self.cache()[j].id
                            == id;
                    assert(m0.points()[j].id == id);
                }
                if exists|i: int| 0 <= i < m0.points().len() && m0.points()[i].id == id {
                    let i = choose|i: int| 0 <= i < m0.points().len() && m0.points()[i].id == id;
                    assert(self.cache()[i].id == id && !self.matched()[i]);
                }
            }
            assert forall|id: usize|
                alloc.live().contains(id) == old(alloc).live().difference(
                    old(self).ids().difference(self.ids()),
                ).contains(id) by {
                if exists|k: int| 0 <= k < m0.cache().len() && !m0.matched()[k] && m0.cache()[k].id == id {
                    let k = choose|k: int| 0 <= k < m0.cache().len() && !m0.matched()[k] && m0.cache()[k].id == id;
                    assert forall|i: int| 0 <= i < m0.points().len() implies m0.points()[i].id != id by {}
                }
            }
            assert(alloc.live() =~= old(alloc).live().difference(
                old(self).ids().difference(self.ids()),
            ));
        }
    }

    /// The index of the first previous-frame point not yet continued that
    /// `k` continues, if any.
    fn first_match(&self, k: &ContactKinematic) -> (r: Option<usize>)
        requires
            self.wf(),
            anchors_small(*k),
        ensures
            match r {
                Some(j) => is_first_match(*self, *k, j as int),
                None => forall|j: int|
                    0 <= j < self.cache().len() ==> !(!self.matched()[j] && close(
                        self.cache()[j].kinematic,
                        *k,
                    )),
            },
    {
        let mut j: usize = 0;
        while j < self.cache.len()
            invariant
                self.wf(),
                anchors_small(*k),
                j <= self.cache@.len(),
                forall|i: int|
                    0 <= i < j ==> !(!self.matched@[i] && close(self.cache@[i].kinematic, *k)),
            decreases self.cache@.len() - j,
        {
            if !self.matched[j] && continues(&self.cache[j].kinematic, k) {
                return Some(j);
            }
            j = j + 1;
        }
        None
    }

    /// Adds a point to the current frame. It takes the identifier of the
    /// first previous-frame point that it continues (same features, local
    /// anchors within the tracking tolerance), or else a fresh one; returns
    /// whether an identifier was carried over.
    pub fn push(&mut self, contact: Contact, kinematic: ContactKinematic, alloc: &mut IdAllocator) -> (r: bool)
        requires
            old(self).wf(),
            old(alloc).wf(),
            old(self).ids().subset_of(old(alloc).live()),
            old(alloc).room() >= 1,
            anchors_small(kinematic),
        ensures
            final(self).wf(),
            final(alloc).wf(),
            final(self).ids().subset_of(final(alloc).live()),
            ids_step(*old(self), *final(self), *old(alloc), *final(alloc)),
            push_step(*old(self), *final(self), *old(alloc), *final(alloc), contact, kinematic, r),
            final(alloc).room() >= old(alloc).room() - 1,
    {
        let ghost m0 = *self;
        match self.first_match(&kinematic) {
            Some(j) => {
                let id = self.cache[j].id;
                self.matched.set(j, true);
                self.points.push(TrackedContact { contact, kinematic, id });
                proof {
                    assert(self.points().drop_last() =~= m0.points());
                    assert forall|x: usize| self.ids().contains(x) implies m0.ids().contains(x) by {
                        if exists|i: int| 0 <= i < self.points().len() && self.points()[i].id == x {
                            let i = choose|i: int| 0 <= i < self.points().len() && self.points()[i].id == x;
                            if i < m0.points().len() {
                                assert(m0.points()[i].id == x);
                            } else {
                                assert(m0.cache()[j as int].id == x);
                            }
                        } else {
                            let l = choose|l: int| 0 <= l < self.cache().len() && !self.matched()[l] && self.cache()[l].id == x;
                            assert(m0.cache()[l].id == x && !m0.matched()[l]);
                        }
                    }
                    assert forall|x: usize| m0.ids().contains(x) implies self.ids().contains(x) by {
                        if exists|i: int| 0 <= i < m0.points().len() && m0.points()[i].id == x {
                            let i = choose|i: int| 0 <= i < m0.points().len() && m0.points()[i].id == x;
                            assert(self.points()[i].id == x);
                        } else {
                            let l = choose|l: int| 0 <= l < m0.cache().len() && !m0.matched()[l] && m0.cache()[l].id == x;
                            if l == j {
                                assert(self.points()[m0.points().len() as int].id == x);
                            } else {
                                assert(self.cache()[l].id == x && !self.matched()[l]);
                            }
                        }
                    }
                    assert(self.ids() =~= m0.ids());
                }
                true
            },
            None => {
                let id = alloc.allocate();
                self.points.push(TrackedContact { contact, kinematic, id });
                proof {
                    assert(self.points().drop_last() =~= m0.points());
                    assert(!m0.ids().contains(id));
                    assert forall|x: usize| self.ids().contains(x) implies m0.ids().contains(x) || x == id by {
                        if exists|i: int| 0 <= i < self.points().len() && self.points()[i].id == x {
                            let i = choose|i: int| 0 <= i < self.points().len() && self.points()[i].id == x;
                            if i < m0.points().len() {
                                assert(m0.points()[i].id == x);
                            }
                        }
                    }
                    assert forall|x: usize| m0.ids().contains(x) || x == id implies self.ids().contains(x) by {
                        if x == id {
                            assert(self.points()[m0.points().len() as int].id == x);
                        } else if exists|i: int| 0 <= i < m0.points().len() && m0.points()[i].id == x {
                            let i = choose|i: int| 0 <= i < m0.points().len() && m0.points()[i].id == x;
                            assert(self.points()[i].id == x);
                        }
                    }
                    assert(self.ids() =~= m0.ids().insert(id));
                    assert forall|i: int| 0 <= i < m0.points().len() implies m0.points()[i].id != id by {
                        assert(m0.ids().contains(m0.points()[i].id));
                    }
                    assert forall|l: int| 0 <= l < m0.cache().len() && !m0.matched()[l] implies m0.cache()[l].id != id by {
                        assert(m0.ids().contains(m0.cache()[l].id));
                    }
                }
                false
            },
        }
    }

    /// Drops every point and releases every identifier the manifold holds.
    pub fn clear(&mut self, alloc: &mut IdAllocator)
        requires
            old(self).wf(),
            old(alloc).wf(),
            old(self).ids().subset_of(old(alloc).live()),
        ensures
            final(self).wf(),
            final(alloc).wf(),
            final(self).ids() == Set::<usize>::empty(),
            final(self).points().len() == 0,
            final(alloc).live() == old(alloc).live().difference(old(self).ids()),
            final(alloc).available() == old(alloc).available() + old(self).points().len()
                + count_false(old(self).matched()),
            final(alloc).room() == old(alloc).room(),
    {
        self.save_cache_and_clear(alloc);
        let ghost m1 = *self;
        proof {
            lemma_count_all_false(m1.matched());
        }
        self.save_cache_and_clear(alloc);
        assert(self.ids() =~= Set::<usize>::empty());
        assert(alloc.live() =~= old(alloc).live().difference(old(self).ids()));
    }
}

} // verus!

verus! {

/// Continuity of identifiers: a new point that continues exactly one
/// previous-frame point (same features, nearby anchors) takes that point's
/// identifier.
pub proof fn lemma_continued_point_keeps_id(
    m_old: ContactManifold,
    m_new: ContactManifold,
    a_old: IdAllocator,
    a_new: IdAllocator,
    c: Contact,
    k: ContactKinematic,
    reused: bool,
    j: int,
)
    requires
        m_old.wf(),
        push_step(m_old, m_new, a_old, a_new, c, k, reused),
        0 <= j < m_old.cache().len(),
        !m_old.matched()[j],
        close(m_old.cache()[j].kinematic, k),
        forall|i: int|
            0 <= i < m_old.cache().len() && i != j ==> !(!m_old.matched()[i] && close(
                m_old.cache()[i].kinematic,
                k,
            )),
    ensures
        reused,
        m_new.points().last().id == m_old.cache()[j].id,
{
    assert(is_first_match(m_old, k, j));
    let l = choose|l: int|
        is_first_match(m_old, k, l) && m_new.points().last().id == m_old.cache()[l].id
            && m_new.matched() == m_old.matched().update(l, true) && a_new == a_old;
    assert(l == j);
}

/// A new point that continues no previous-frame point gets an identifier
/// that the manifold did not hold, so it differs from the identifier of any
/// point that has just disappeared.
pub proof fn lemma_unrelated_point_gets_new_id(
    m_old: ContactManifold,
    m_new: ContactManifold,
    a_old: IdAllocator,
    a_new: IdAllocator,
    c: Contact,
    k: ContactKinematic,
    reused: bool,
)
    requires
        m_old.wf(),
        m_old.ids().subset_of(a_old.live()),
        push_step(m_old, m_new, a_old, a_new, c, k, reused),
        forall|i: int|
            0 <= i < m_old.cache().len() ==> !(!m_old.matched()[i] && close(
                m_old.cache()[i].kinematic,
                k,
            )),
    ensures
        !reused,
        !m_old.ids().contains(m_new.points().last().id),
        forall|i: int|
            0 <= i < m_old.cache().len() && !m_old.matched()[i] ==> m_old.cache()[i].id
                != m_new.points().last().id,
{
    if reused {
        let j = choose|j: int| is_first_match(m_old, k, j);
    }
    assert forall|i: int| 0 <= i < m_old.cache().len() && !m_old.matched()[i] implies m_old.cache()[i].id
        != m_new.points().last().id by {
        assert(m_old.ids().contains(m_old.cache()[i].id));
    }
}

/// Identifiers stay unique across manifolds that share one allocator: if two
/// manifolds hold disjoint sets of live identifiers, an operation on one of
/// them keeps the sets disjoint and leaves the other's identifiers live.
pub proof fn lemma_ids_stay_disjoint(
    m1_old: ContactManifold,
    m1_new: ContactManifold,
    m2: ContactManifold,
    a_old: IdAllocator,
    a_new: IdAllocator,
)
    requires
        m1_old.ids().disjoint(m2.ids()),
        m2.ids().subset_of(a_old.live()),
        ids_step(m1_old, m1_new, a_old, a_new),
    ensures
        m1_new.ids().disjoint(m2.ids()),
        m2.ids().subset_of(a_new.live()),
{
    assert forall|id: usize| m2.ids().contains(id) implies a_new.live().contains(id) by {
        assert(a_old.live().contains(id));
    }
    assert forall|id: usize| m1_new.ids().contains(id) implies !m2.ids().contains(id) by {
        if m2.ids().contains(id) {
            assert(a_old.live().contains(id));
        }
    }
}

} // verus!
