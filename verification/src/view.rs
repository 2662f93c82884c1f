use crate::error::Error;
use crate::key::{KeyInner, SENTINEL_INDEX};
use crate::slot::Slot;
use vstd::prelude::*;
use vstd::relations::injective_on;
use vstd::set_lib::*;

verus! {

/// The mathematical content of a slot map: its cells in index order, the
/// stack of free indices (its top is the last entry), the last generation
/// handed out, and the largest number of cells it may have.
#[verifier::ext_equal]
pub struct SlotMapView<V> {
    pub max_slots: usize,
    pub generation: u32,
    pub slots: Seq<Slot<V>>,
    pub free: Seq<usize>,
}

impl<V> SlotMapView<V> {
    /// A map with no cells yet.
    pub open spec fn empty(max_slots: usize) -> Self {
        SlotMapView { max_slots, generation: 0, slots: Seq::empty(), free: Seq::empty() }
    }

    /// The sentinel index is out of reach, every cell is well formed and no
    /// younger than the counter allows, no two occupied cells share a
    /// generation, and the free stack lists each empty cell exactly once and
    /// nothing else.
    pub open spec fn wf(self) -> bool {
        &&& self.max_slots < SENTINEL_INDEX
        &&& self.slots.len() <= self.max_slots
        &&& forall|i: int|
            0 <= i < self.slots.len() ==> (#[trigger] self.slots[i]).wf() && self.slots[i].generation
                <= self.generation
        &&& forall|i: int, j: int|
            0 <= i < j < self.slots.len() && (#[trigger] self.slots[i]).generation != 0
                ==> self.slots[i].generation != (#[trigger] self.slots[j]).generation
        &&& self.free.no_duplicates()
        &&& forall|j: int|
            0 <= j < self.free.len() ==> (#[trigger] self.free[j]) < self.slots.len()
                && self.slots[self.free[j] as int].generation == 0
        &&& forall|i: int|
            0 <= i < self.slots.len() && (#[trigger] self.slots[i]).generation == 0
                ==> self.free.contains(i as usize)
    }

    /// The key addresses an occupied cell of its own generation.
    pub open spec fn resolves(self, key: KeyInner) -> bool {
        key.index < self.slots.len() && self.slots[key.index as int].admits(key)
    }

    /// What the key reads.
    pub open spec fn get(self, key: KeyInner) -> Option<V> {
        if key.index < self.slots.len() {
            self.slots[key.index as int].lookup(key)
        } else {
            None
        }
    }

    /// The key under which cell `i` is reached while it is occupied.
    pub open spec fn key_at(self, i: int) -> KeyInner {
        KeyInner { index: i as u32, generation: self.slots[i].generation }
    }

    /// The map as a finite map from the keys that resolve to their values.
    pub open spec fn entries(self) -> Map<KeyInner, V> {
        Map::new(
            |key: KeyInner| self.resolves(key),
            |key: KeyInner| self.slots[key.index as int].value.unwrap(),
        )
    }

    /// The indices of the occupied cells.
    pub open spec fn occupied(self) -> Set<int> {
        Set::new(|i: int| 0 <= i < self.slots.len() && self.slots[i].generation != 0)
    }

    /// The number of cells that are not on the free stack.
    pub open spec fn len(self) -> int {
        self.slots.len() - self.free.len()
    }

    /// What asking for a fresh generation returns.
    pub open spec fn next_generation(self) -> Result<u32, Error> {
        if self.generation == u32::MAX {
            Err(Error::MaxGenerationReached)
        } else {
            Ok((self.generation + 1) as u32)
        }
    }

    /// The map after asking for a fresh generation. An exhausted counter
    /// stays where it is.
    pub open spec fn bumped(self) -> Self {
        match self.next_generation() {
            Ok(generation) => SlotMapView { generation, ..self },
            Err(_) => self,
        }
    }

    /// The map after the counter was moved forward to `generation`.
    pub open spec fn skipped_to(self, generation: u32) -> Self {
        if generation >= self.generation {
            SlotMapView { generation, ..self }
        } else {
            self
        }
    }

    /// The cell that the next added value goes to: the top of the free
    /// stack, or else a new cell at the end while the map may grow.
    pub open spec fn next_index(self) -> Option<usize> {
        if self.free.len() > 0 {
            Some(self.free.last())
        } else if self.slots.len() < self.max_slots {
            Some(self.slots.len() as usize)
        } else {
            None
        }
    }

    /// What adding a value returns.
    pub open spec fn add_key(self) -> Result<KeyInner, Error> {
        match (self.next_generation(), self.next_index()) {
            (Err(e), _) => Err(e),
            (Ok(_), None) => Err(Error::NoFreeSlots),
            (Ok(generation), Some(index)) => Ok(KeyInner { index: index as u32, generation }),
        }
    }

    /// The map after adding `value`. A generation that was handed out is
    /// spent even where no cell was free.
    pub open spec fn added(self, value: V) -> Self {
        match (self.next_generation(), self.next_index()) {
            (Err(_), _) => self,
            (Ok(_), None) => self.bumped(),
            (Ok(generation), Some(index)) => {
                let slot = Slot { generation, value: Some(value) };
                if self.free.len() > 0 {
                    SlotMapView {
                        generation,
                        slots: self.slots.update(index as int, slot),
                        free: self.free.drop_last(),
                        ..self
                    }
                } else {
                    SlotMapView { generation, slots: self.slots.push(slot), ..self }
                }
            },
        }
    }

    /// The map after removing by `key`: unchanged unless the key resolves,
    /// in which case its cell is emptied and goes on top of the free stack.
    pub open spec fn removed(self, key: KeyInner) -> Self {
        if self.resolves(key) {
            SlotMapView {
                slots: self.slots.update(key.index as int, Slot::vacant()),
                free: self.free.push(key.index as usize),
                ..self
            }
        } else {
            self
        }
    }

    /// What asking for a unique key returns.
    pub open spec fn unique_key(self) -> Result<KeyInner, Error> {
        match self.next_generation() {
            Ok(generation) => Ok(KeyInner { index: SENTINEL_INDEX, generation }),
            Err(e) => Err(e),
        }
    }

    /// The map after the value that `key` resolves to was replaced.
    pub open spec fn with_value(self, key: KeyInner, value: V) -> Self {
        if self.resolves(key) {
            SlotMapView {
                slots: self.slots.update(
                    key.index as int,
                    Slot { generation: key.generation, value: Some(value) },
                ),
                ..self
            }
        } else {
            self
        }
    }

    /// The indices of the empty cells.
    pub open spec fn unoccupied(self) -> Set<int> {
        Set::new(|i: int| 0 <= i < self.slots.len() && self.slots[i].generation == 0)
    }

    /// In a well-formed map the cells off the free stack are the occupied
    /// ones, so `len` counts the occupied cells.
    pub proof fn lemma_len_counts_occupied(self)
        requires
            self.wf(),
        ensures
            self.occupied().finite(),
            self.free.len() <= self.slots.len(),
            self.len() == self.occupied().len(),
    {
        let n = self.slots.len() as int;
        let all = set_int_range(0, n);
        let free_idx = self.free.map_values(|u: usize| u as int);
        lemma_int_range(0, n);
        assert(self.occupied().subset_of(all));
        assert(self.unoccupied().subset_of(all));
        lemma_len_subset(self.occupied(), all);
        lemma_len_subset(self.unoccupied(), all);
        assert(free_idx.no_duplicates());
        free_idx.unique_seq_to_set();
        assert(free_idx.to_set() =~= self.unoccupied()) by {
            assert forall|i: int| self.unoccupied().contains(i) implies free_idx.to_set().contains(
                i,
            ) by {
                assert(self.slots[i].generation == 0);
                let j = choose|j: int| 0 <= j < self.free.len() && self.free[j] == i as usize;
                assert(free_idx[j] == i);
            }
            assert forall|i: int| free_idx.to_set().contains(i) implies self.unoccupied().contains(
                i,
            ) by {
                let j = choose|j: int| 0 <= j < free_idx.len() && free_idx[j] == i;
                assert(self.free[j] as int == i);
            }
        }
        assert(self.occupied().disjoint(self.unoccupied()));
        lemma_set_disjoint_lens(self.occupied(), self.unoccupied());
        assert(self.occupied() + self.unoccupied() =~= all);
    }

    /// In a well-formed map each occupied cell has its own key, so `len`
    /// counts the keys that resolve.
    pub proof fn lemma_len_counts_entries(self)
        requires
            self.wf(),
        ensures
            self.entries().dom().finite(),
            self.len() == self.entries().dom().len(),
    {
        self.lemma_len_counts_occupied();
        let key_of = |i: int| self.key_at(i);
        assert(self.occupied().map(key_of) =~= self.entries().dom()) by {
            assert forall|key: KeyInner| self.entries().dom().contains(key) implies (
            #[trigger] self.occupied().map(key_of).contains(key)) by {
                assert(self.occupied().contains(key.index as int));
                assert(key_of(key.index as int) == key);
            }
        }
        assert(injective_on(key_of, self.occupied()));
        lemma_map_size(self.occupied(), self.entries().dom(), key_of);
    }

    /// A fresh generation keeps the map well formed.
    pub proof fn lemma_bumped_wf(self)
        requires
            self.wf(),
        ensures
            self.bumped().wf(),
    {
    }

    /// Moving the counter forward keeps the map well formed.
    pub proof fn lemma_skipped_to_wf(self, generation: u32)
        requires
            self.wf(),
        ensures
            self.skipped_to(generation).wf(),
    {
    }

    /// Adding keeps the map well formed, whether or not a cell was found.
    pub proof fn lemma_added_wf(self, value: V)
        requires
            self.wf(),
        ensures
            self.added(value).wf(),
    {
        let after = self.added(value);
        if self.next_generation() is Ok && self.next_index() is Some && self.free.len() > 0 {
            assert forall|i: int|
                0 <= i < after.slots.len() && (#[trigger] after.slots[i]).generation
                    == 0 implies after.free.contains(i as usize) by {
                assert(self.slots[i].generation == 0);
                let j = choose|j: int| 0 <= j < self.free.len() && self.free[j] == i as usize;
                assert(after.free[j] == i as usize);
            }
        }
    }

    /// Removing keeps the map well formed, whether or not the key resolved.
    pub proof fn lemma_removed_wf(self, key: KeyInner)
        requires
            self.wf(),
        ensures
            self.removed(key).wf(),
    {
        let after = self.removed(key);
        if self.resolves(key) {
            assert forall|i: int|
                0 <= i < after.slots.len() && (#[trigger] after.slots[i]).generation
                    == 0 implies after.free.contains(i as usize) by {
                if i == key.index {
                    assert(after.free[self.free.len() as int] == i as usize);
                } else {
                    assert(self.slots[i].generation == 0);
                    let j = choose|j: int| 0 <= j < self.free.len() && self.free[j] == i as usize;
                    assert(after.free[j] == i as usize);
                }
            }
        }
    }

    /// Writing through a key keeps the map well formed.
    pub proof fn lemma_with_value_wf(self, key: KeyInner, value: V)
        requires
            self.wf(),
        ensures
            self.with_value(key, value).wf(),
    {
    }
}

} // verus!
