//! Allocation and reclamation of contact-point identifiers.
use vstd::prelude::*;

verus! {

/// Hands out identifiers for manifold points and takes them back when the
/// points are dropped; an identifier is never handed out twice while live.
pub struct IdAllocator {
    used: Vec<bool>,
    free: Vec<usize>,
}

impl IdAllocator {
    /// The identifiers currently handed out.
    pub closed spec fn live(&self) -> Set<usize> {
        Set::new(|id: usize| (id as int) < self.used@.len() && self.used@[id as int])
    }

    /// How many released identifiers wait to be handed out again.
    pub closed spec fn available(&self) -> nat {
        self.free@.len()
    }

    /// How many identifiers never handed out remain.
    pub closed spec fn room(&self) -> int {
        usize::MAX - self.used@.len()
    }

    pub closed spec fn wf(&self) -> bool {
        &&& forall|k: int|
            0 <= k < self.free@.len() ==> (self.free@[k] as int) < self.used@.len()
                && !self.used@[self.free@[k] as int]
        &&& forall|k: int, l: int|
            0 <= k < l < self.free@.len() ==> self.free@[k] != self.free@[l]
        &&& forall|i: int|
            0 <= i < self.used@.len() && !self.used@[i] ==> exists|k: int|
                0 <= k < self.free@.len() && self.free@[k] as int == i
    }

    pub fn new() -> (r: IdAllocator)
        ensures
            r.wf(),
            r.live() == Set::<usize>::empty(),
            r.available() == 0,
            r.room() == usize::MAX,
    {
        let r = IdAllocator { used: Vec::new(), free: Vec::new() };
        assert(r.live() =~= Set::<usize>::empty());
        r
    }

    /// Hands out an identifier that is not live, reusing a released one first.
    pub fn allocate(&mut self) -> (id: usize)
        requires
            old(self).wf(),
            old(self).room() >= 1,
        ensures
            final(self).wf(),
            !old(self).live().contains(id),
            final(self).live() == old(self).live().insert(id),
            final(self).room() >= old(self).room() - 1,
            old(self).available() > 0 ==> final(self).available() == old(self).available() - 1
                && final(self).room() == old(self).room(),
    {
        if self.free.len() > 0 {
            let id = self.free.pop().unwrap();
            proof {
                assert(self.free@ == old(self).free@.drop_last());
                assert(id == old(self).free@.last());
            }
            self.used.set(id, true);
            proof {
                assert forall|i: int|
                    0 <= i < self.used@.len() && !self.used@[i] implies exists|k: int|
                    0 <= k < self.free@.len() && self.free@[k] as int == i by {
                    let k = choose|k: int|
                        0 <= k < old(self).free@.len() && old(self).free@[k] as int == i;
                    assert(k != old(self).free@.len() - 1);
                    assert(self.free@[k] as int == i);
                }
                assert(self.live() =~= old(self).live().insert(id));
            }
            id
        } else {
            let id = self.used.len();
            self.used.push(true);
            proof {
                assert forall|i: int|
                    0 <= i < old(self).used@.len() implies old(self).used@[i] by {
                    if !old(self).used@[i] {
                        let k = choose|k: int|
                            0 <= k < old(self).free@.len() && old(self).free@[k] as int == i;
                    }
                }
                assert(self.live() =~= old(self).live().insert(id));
            }
            id
        }
    }

    /// Takes back a live identifier.
    pub fn release(&mut self, id: usize)
        requires
            old(self).wf(),
            old(self).live().contains(id),
        ensures
            final(self).wf(),
            final(self).live() == old(self).live().remove(id),
            final(self).available() == old(self).available() + 1,
            final(self).room() == old(self).room(),
    {
        self.used.set(id, false);
        self.free.push(id);
        proof {
            assert forall|k: int|
                0 <= k < self.free@.len() implies (self.free@[k] as int) < self.used@.len()
                && !self.used@[self.free@[k] as int] by {
                if k < old(self).free@.len() {
                    assert(old(self).free@[k] != id);
                }
            }
            assert forall|i: int|
                0 <= i < self.used@.len() && !self.used@[i] implies exists|k: int|
                0 <= k < self.free@.len() && self.free@[k] as int == i by {
                if i == id {
                    assert(self.free@[old(self).free@.len() as int] == id);
                } else {
                    let k = choose|k: int|
                        0 <= k < old(self).free@.len() && old(self).free@[k] as int == i;
                    assert(self.free@[k] as int == i);
                }
            }
            assert(self.live() =~= old(self).live().remove(id));
        }
    }
}

} // verus!
