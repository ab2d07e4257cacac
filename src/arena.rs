use vstd::prelude::*;

verus! {

/// Stable identity of an entity: the slot that holds it and the generation of
/// that slot when the entity was stored. A handle stops referring to anything
/// once its entity is replaced, even if the slot is used again.
#[derive(Clone, Copy, Debug, PartialEq, Eq, Structural)]
pub struct Handle {
    pub index: usize,
    pub generation: u64,
}

struct Slot<T> {
    generation: u64,
    value: Option<T>,
}

/// A registry of entities addressed by generation-checked handles.
pub struct Arena<T> {
    slots: Vec<Slot<T>>,
}

impl<T> Arena<T> {
    spec fn holds(self, h: Handle) -> bool {
        &&& h.index < self.slots@.len()
        &&& self.slots@[h.index as int].generation == h.generation
        &&& self.slots@[h.index as int].value is Some
    }

    /// Number of slots, live or free.
    pub closed spec fn slot_count(self) -> nat {
        self.slots@.len()
    }
}

impl<T> View for Arena<T> {
    type V = Map<Handle, T>;

    /// The live entities, by handle.
    closed spec fn view(&self) -> Map<Handle, T> {
        Map::new(|h: Handle| self.holds(h), |h: Handle| self.slots@[h.index as int].value->0)
    }
}

impl<T: Copy> Arena<T> {
    pub fn new() -> (r: Arena<T>)
        ensures
            r@ == Map::<Handle, T>::empty(),
            r.slot_count() == 0,
    {
        let r = Arena { slots: Vec::new() };
        assert(r@ =~= Map::<Handle, T>::empty());
        r
    }

    /// Stores `value` as a new entity, in the first free slot or else in a new one.
    pub fn spawn(&mut self, value: T) -> (h: Handle)
        requires
            old(self).slot_count() < usize::MAX,
        ensures
            !old(self)@.contains_key(h),
            final(self)@ == old(self)@.insert(h, value),
            final(self).slot_count() <= old(self).slot_count() + 1,
    {
        let mut i: usize = 0;
        while i < self.slots.len()
            invariant
                self.slots@ == old(self).slots@,
                i <= self.slots@.len(),
                forall|j: int| 0 <= j < i ==> self.slots@[j].value is Some,
            decreases self.slots@.len() - i,
        {
            if self.slots[i].value.is_none() {
                let generation = self.slots[i].generation;
                let h = Handle { index: i, generation };
                self.slots.set(i, Slot { generation, value: Some(value) });
                assert(self@ =~= old(self)@.insert(h, value));
                return h;
            }
            i = i + 1;
        }
        let h = Handle { index: self.slots.len(), generation: 0 };
        self.slots.push(Slot { generation: 0, value: Some(value) });
        assert(self@ =~= old(self)@.insert(h, value));
        h
    }

    /// Replaces the entity of `h` by a new entity holding `value`, in the same
    /// slot under a new generation; `h` no longer refers to anything.
    pub fn respawn(&mut self, h: Handle, value: T) -> (r: Handle)
        requires
            old(self)@.contains_key(h),
        ensures
            r.index == h.index,
            r != h,
            !old(self)@.contains_key(r),
            final(self)@ == old(self)@.remove(h).insert(r, value),
            final(self).slot_count() == old(self).slot_count(),
    {
        let generation = if h.generation == u64::MAX {
            0
        } else {
            h.generation + 1
        };
        let r = Handle { index: h.index, generation };
        self.slots.set(h.index, Slot { generation, value: Some(value) });
        assert(self@ =~= old(self)@.remove(h).insert(r, value));
        r
    }

    /// The entity of `h`, if it is live.
    pub fn get(&self, h: Handle) -> (r: Option<T>)
        ensures
            r == (if self@.contains_key(h) {
                Some(self@[h])
            } else {
                None
            }),
    {
        if h.index < self.slots.len() && self.slots[h.index].generation == h.generation {
            self.slots[h.index].value
        } else {
            None
        }
    }

    /// Overwrites the entity of `h` with `value`, if it is live; says whether it was.
    pub fn set(&mut self, h: Handle, value: T) -> (r: bool)
        ensures
            r == old(self)@.contains_key(h),
            final(self)@ == (if r {
                old(self)@.insert(h, value)
            } else {
                old(self)@
            }),
            final(self).slot_count() == old(self).slot_count(),
    {
        if h.index < self.slots.len() && self.slots[h.index].generation == h.generation
            && self.slots[h.index].value.is_some() {
            self.slots.set(h.index, Slot { generation: h.generation, value: Some(value) });
            assert(self@ =~= old(self)@.insert(h, value));
            true
        } else {
            false
        }
    }

    /// The handles of all live entities, each once, in slot order.
    pub fn handles(&self) -> (r: Vec<Handle>)
        ensures
            r@.no_duplicates(),
            forall|h: Handle| r@.contains(h) <==> self@.contains_key(h),
    {
        let mut out: Vec<Handle> = Vec::new();
        let mut i: usize = 0;
        while i < self.slots.len()
            invariant
                i <= self.slots@.len(),
                out@.no_duplicates(),
                forall|k: int| 0 <= k < out@.len() ==> out@[k].index < i,
                forall|h: Handle| out@.contains(h) <==> (self@.contains_key(h) && h.index < i),
            decreases self.slots@.len() - i,
        {
            let ghost prev = out@;
            if self.slots[i].value.is_some() {
                let h = Handle { index: i, generation: self.slots[i].generation };
                out.push(h);
                proof {
                    assert forall|k: Handle| out@.contains(k) <==> (prev.contains(k) || k == h) by {
                        if out@.contains(k) && k != h {
                            let j = choose|j: int| 0 <= j < out@.len() && out@[j] == k;
                            assert(prev[j] == k);
                        }
                        if k == h {
                            assert(out@[prev.len() as int] == h);
                        }
                        if prev.contains(k) {
                            let j = choose|j: int| 0 <= j < prev.len() && prev[j] == k;
                            assert(out@[j] == k);
                        }
                    }
                }
            }
            assert forall|k: Handle| out@.contains(k) <==> (self@.contains_key(k) && k.index < i + 1) by {
                if prev.contains(k) {
                    let j = choose|j: int| 0 <= j < prev.len() && prev[j] == k;
                    assert(k.index < i);
                }
                assert(self@.contains_key(k) == self.holds(k));
                if self.slots@[i as int].value is None {
                    assert(out@ == prev);
                }
            }
            i = i + 1;
        }
        out
    }
}

} // verus!
