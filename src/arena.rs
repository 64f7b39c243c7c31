//! A generational arena: the storage behind mesh and texture handles.
//!
//! Every handle that [`Arena::insert`] issues is new: a slot that is freed and
//! reused gets a higher generation, so a handle kept after its entry was
//! removed never refers to a later entry.

use vstd::prelude::*;

verus! {

/// An opaque reference to an entry of an [`Arena`].
#[derive(Clone, Copy, Debug, PartialEq, Eq, Hash, Structural)]
pub struct Handle {
    pub index: usize,
    pub generation: u64,
}

/// Storage that hands out a fresh [`Handle`] for each value inserted.
pub struct Arena<T> {
    generations: Vec<u64>,
    values: Vec<Option<T>>,
    free: Vec<usize>,
    issued: Ghost<Set<Handle>>,
}

impl<T> View for Arena<T> {
    type V = Map<Handle, T>;

    /// The live entries, by handle.
    closed spec fn view(&self) -> Map<Handle, T> {
        Map::new(
            |h: Handle| self.is_live(h),
            |h: Handle| self.values@[h.index as int]->Some_0,
        )
    }
}

impl<T> Arena<T> {
    closed spec fn is_live(&self, h: Handle) -> bool {
        &&& h.index < self.values@.len()
        &&& self.values@[h.index as int] is Some
        &&& self.generations@[h.index as int] == h.generation
    }

    /// Every handle this arena has ever issued.
    pub closed spec fn issued(&self) -> Set<Handle> {
        self.issued@
    }

    /// The arena's internal invariant.
    pub closed spec fn wf(&self) -> bool {
        &&& self.generations@.len() == self.values@.len()
        &&& self.free@.no_duplicates()
        &&& forall|k: int|
            0 <= k < self.free@.len() ==> {
                let i = #[trigger] self.free@[k];
                &&& i < self.values@.len()
                &&& self.values@[i as int] is None
                &&& self.generations@[i as int] < u64::MAX
            }
        &&& forall|h: Handle|
            #[trigger] self.issued@.contains(h) ==> h.index < self.values@.len()
                && h.generation <= self.generations@[h.index as int]
        &&& forall|i: int|
            0 <= i < self.values@.len() ==> self.issued@.contains(
                Handle { index: i as usize, generation: #[trigger] self.generations@[i] },
            )
    }

    proof fn lemma_live_issued(&self)
        requires
            self.wf(),
        ensures
            forall|h: Handle| #[trigger] self@.contains_key(h) ==> self.issued().contains(h),
    {
        assert forall|h: Handle| #[trigger] self@.contains_key(h) implies self.issued().contains(h) by {
            let i = h.index as int;
            assert(self.issued@.contains(Handle { index: i as usize, generation: self.generations@[i] }));
        }
    }

    /// An empty arena.
    pub fn new() -> (r: Self)
        ensures
            r.wf(),
            r@ == Map::<Handle, T>::empty(),
            r.issued() == Set::<Handle>::empty(),
    {
        let r = Arena {
            generations: Vec::new(),
            values: Vec::new(),
            free: Vec::new(),
            issued: Ghost(Set::empty()),
        };
        assert(r@ =~= Map::<Handle, T>::empty());
        r
    }

    /// Stores `value` under a handle that was never issued before.
    pub fn insert(&mut self, value: T) -> (h: Handle)
        requires
            old(self).wf(),
        ensures
            final(self).wf(),
            !old(self).issued().contains(h),
            !old(self)@.contains_key(h),
            final(self).issued() == old(self).issued().insert(h),
            final(self)@ == old(self)@.insert(h, value),
    {
        let ghost pre = *self;
        proof {
            pre.lemma_live_issued();
        }
        match self.free.pop() {
            Some(i) => {
                proof {
                    assert(pre.free@[pre.free@.len() - 1] == i);
                }
                let g = self.generations[i] + 1;
                self.generations[i] = g;
                self.values[i] = Some(value);
                let h = Handle { index: i, generation: g };
                proof {
                    self.issued@ = self.issued@.insert(h);
                    assert forall|k: int| 0 <= k < self.free@.len() implies
                        #[trigger] self.free@[k] != i by {
                        assert(pre.free@[k] == self.free@[k]);
                    }
                    assert(self@ =~= pre@.insert(h, value));
                }
                h
            },
            None => {
                let i = self.values.len();
                self.generations.push(0);
                self.values.push(Some(value));
                let h = Handle { index: i, generation: 0 };
                proof {
                    self.issued@ = self.issued@.insert(h);
                    assert(self@ =~= pre@.insert(h, value));
                }
                h
            },
        }
    }

    /// The value stored under `h`, if `h` is live.
    pub fn get(&self, h: Handle) -> (r: Option<&T>)
        requires
            self.wf(),
        ensures
            match r {
                Some(v) => self@.contains_key(h) && *v == self@[h],
                None => !self@.contains_key(h),
            },
    {
        if h.index < self.values.len() && self.generations[h.index] == h.generation {
            match &self.values[h.index] {
                Some(v) => Some(v),
                None => None,
            }
        } else {
            None
        }
    }

    /// Whether `h` refers to a live entry.
    pub fn contains(&self, h: Handle) -> (r: bool)
        requires
            self.wf(),
        ensures
            r == self@.contains_key(h),
    {
        match self.get(h) {
            Some(_) => true,
            None => false,
        }
    }

    /// Takes the value stored under `h` out of the arena. A handle that is not
    /// live (never issued, or already removed) leaves the arena unchanged.
    pub fn remove(&mut self, h: Handle) -> (r: Option<T>)
        requires
            old(self).wf(),
        ensures
            final(self).wf(),
            final(self).issued() == old(self).issued(),
            final(self)@ == old(self)@.remove(h),
            r == (if old(self)@.contains_key(h) { Some(old(self)@[h]) } else { None }),
    {
        let ghost pre = *self;
        if !self.contains(h) {
            proof {
                assert(self@ =~= pre@.remove(h));
            }
            return None;
        }
        let i = h.index;
        self.values.push(None);
        let taken = self.values.swap_remove(i);
        if self.generations[i] < u64::MAX {
            self.free.push(i);
        }
        proof {
            assert(self.values@ =~= pre.values@.update(i as int, None));
            assert forall|k: int| 0 <= k < pre.free@.len() implies #[trigger] pre.free@[k] != i by {}
            assert(self@ =~= pre@.remove(h));
        }
        taken
    }
}

} // verus!
