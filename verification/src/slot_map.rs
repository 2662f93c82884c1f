use crate::error::Error;
use crate::key::{Key, KeyInner};
use crate::slot::Slot;
use crate::view::SlotMapView;
use vstd::prelude::*;

verus! {

/// Values stored in a growable vector of cells and reached in constant time
/// through versioned keys. A key stops resolving when its value is removed,
/// also after the cell has been given to another value.
pub struct SlotMap<V> {
    max_slots: usize,
    generation: u32,
    data: Vec<Slot<V>>,
    openlist: Vec<usize>,
}

/// The view of a key inside a result.
pub open spec fn key_view<V>(r: Result<Key<V>, Error>) -> Result<KeyInner, Error> {
    match r {
        Ok(key) => Ok(key@),
        Err(e) => Err(e),
    }
}

impl<T> View for SlotMap<T> {
    type V = SlotMapView<T>;

    closed spec fn view(&self) -> SlotMapView<T> {
        SlotMapView {
            max_slots: self.max_slots,
            generation: self.generation,
            slots: self.data@,
            free: self.openlist@,
        }
    }
}

impl<V> SlotMap<V> {
    /// The invariant that every operation keeps.
    pub open spec fn wf(&self) -> bool {
        self@.wf()
    }

    /// An empty map that may grow to `max_slots` cells, with room set aside
    /// for `initial_slots` of them.
    pub fn new(initial_slots: u32, max_slots: u32) -> (r: Result<Self, Error>)
        ensures
            match r {
                Ok(m) => initial_slots <= max_slots && max_slots != u32::MAX && m.wf() && m@
                    == SlotMapView::<V>::empty(max_slots as usize),
                Err(e) => (initial_slots > max_slots || max_slots == u32::MAX) && e
                    == Error::InvalidArgument,
            },
    {
        if initial_slots > max_slots {
            return Err(Error::InvalidArgument);
        }
        if max_slots == u32::MAX {
            return Err(Error::InvalidArgument);
        }
        let data = Vec::with_capacity(initial_slots as usize);
        let openlist = Vec::with_capacity(initial_slots as usize);
        Ok(Self { max_slots: max_slots as usize, generation: 0, data, openlist })
    }

    /// The last generation handed out; 0 before the first.
    pub fn generation(&self) -> (r: u32)
        ensures
            r == self@.generation,
    {
        self.generation
    }

    /// Hands out the next generation, or reports that there is none left.
    pub fn increment_generation(&mut self) -> (r: Result<u32, Error>)
        requires
            old(self).wf(),
        ensures
            final(self).wf(),
            r == old(self)@.next_generation(),
            final(self)@ == old(self)@.bumped(),
    {
        if let Some(gen) = self.generation.checked_add(1) {
            self.generation = gen;
            Ok(gen)
        } else {
            Err(Error::MaxGenerationReached)
        }
    }

    /// A reference to the value that the key resolves to.
    pub fn get(&self, key: Key<V>) -> (r: Option<&V>)
        ensures
            match r {
                Some(v) => self@.get(key@) == Some(*v),
                None => self@.get(key@) is None,
            },
    {
        let index = key.index();
        if index < self.data.len() {
            self.data[index].get(key)
        } else {
            None
        }
    }

    /// Stores `value` in the cell on top of the free stack, or in a new cell
    /// while the map may grow, and returns the key that resolves to it.
    pub fn add(&mut self, value: V) -> (r: Result<Key<V>, Error>)
        requires
            old(self).wf(),
        ensures
            final(self).wf(),
            key_view(r) == old(self)@.add_key(),
            final(self)@ == old(self)@.added(value),
    {
        let ghost before = self@;
        let generation = match self.increment_generation() {
            Ok(generation) => generation,
            Err(e) => {
                return Err(e);
            },
        };
        if let Some(index) = self.openlist.pop() {
            if index < self.data.len() {
                let slot = &mut self.data[index];
                if slot.is_empty() {
                    slot.value = Some(value);
                    slot.generation = generation;
                    proof {
                        before.lemma_added_wf(value);
                    }
                    return Key::new(index, generation);
                } else {
                    return Err(Error::SlotNotEmpty);
                }
            } else {
                return Err(Error::IndexOutOfBounds);
            }
        } else {
            let index = self.data.len();
            if index >= self.max_slots {
                return Err(Error::NoFreeSlots);
            }
            self.data.push(Slot::new(generation, value));
            Key::new(index, generation)
        }
    }

    /// Takes out the value that the key resolves to. Its cell becomes empty
    /// and is the next to be reused. A key that does not resolve changes
    /// nothing.
    pub fn remove(&mut self, key: Key<V>) -> (r: Option<V>)
        requires
            old(self).wf(),
        ensures
            final(self).wf(),
            r == old(self)@.get(key@),
            final(self)@ == old(self)@.removed(key@),
    {
        let ghost before = self@;
        let index = key.index();
        if index < self.data.len() {
            let slot = &mut self.data[index];
            let r = slot.remove(key);
            if r.is_some() {
                self.openlist.push(index);
                proof {
                    before.lemma_removed_wf(key@);
                }
            } else {
                assert(before.slots[index as int].wf());
                assert(self@ =~= before);
            }
            r
        } else {
            None
        }
    }

    /// A reference for writing to the value that the key resolves to.
    pub fn get_mut(&mut self, key: Key<V>) -> (r: Option<&mut V>)
        requires
            old(self).wf(),
        ensures
            final(self).wf(),
            match r {
                Some(v) => old(self)@.get(key@) == Some(*v) && final(self)@
                    == old(self)@.with_value(key@, *final(v)),
                None => old(self)@.get(key@) is None && final(self)@ =~= old(self)@,
            },
    {
        let index = key.index();
        if index < self.data.len() {
            assert(self@.slots[index as int].wf());
            let slot = &mut self.data[index];
            slot.get_mut(key)
        } else {
            None
        }
    }

    /// A key of a fresh generation that addresses no cell, so that it
    /// differs from every other key of this map and never resolves.
    pub fn get_unique_key(&mut self) -> (r: Result<Key<V>, Error>)
        requires
            old(self).wf(),
        ensures
            final(self).wf(),
            key_view(r) == old(self)@.unique_key(),
            final(self)@ == old(self)@.bumped(),
    {
        match self.increment_generation() {
            Ok(gen) => Ok(Key::new_special(gen)),
            Err(e) => Err(e),
        }
    }

    /// Moves the counter forward to `generation`; the generations passed
    /// over are never handed out. A value below the counter is refused and
    /// changes nothing.
    pub fn skip_to_generation(&mut self, generation: u32) -> (r: Result<(), Error>)
        requires
            old(self).wf(),
        ensures
            final(self).wf(),
            r is Ok <==> generation >= old(self)@.generation,
            r is Err ==> r == Err::<(), Error>(Error::InvalidArgument),
            final(self)@ == old(self)@.skipped_to(generation),
    {
        if generation < self.generation {
            return Err(Error::InvalidArgument);
        }
        self.generation = generation;
        Ok(())
    }

    /// The number of occupied cells.
    pub fn len(&self) -> (r: usize)
        requires
            self.wf(),
        ensures
            r == self@.len(),
            r == self@.occupied().len(),
    {
        proof {
            self@.lemma_len_counts_occupied();
        }
        self.data.len() - self.openlist.len()
    }
}

} // verus!
