use crate::key::{Key, KeyInner};
use vstd::prelude::*;

verus! {

/// One storage cell. Generation 0 marks the cell as empty; any other
/// generation is the one that the stored value was added with.
pub struct Slot<V> {
    pub generation: u32,
    pub value: Option<V>,
}

impl<V> Slot<V> {
    /// The cell holds a value exactly when its generation is not 0.
    pub open spec fn wf(self) -> bool {
        (self.generation == 0) == (self.value is None)
    }

    /// The cell is occupied and was filled at the key's generation.
    pub open spec fn admits(self, key: KeyInner) -> bool {
        self.generation > 0 && key.generation == self.generation
    }

    /// What the key reads from the cell.
    pub open spec fn lookup(self, key: KeyInner) -> Option<V> {
        if self.admits(key) {
            self.value
        } else {
            None
        }
    }

    /// The cell with nothing in it.
    pub open spec fn vacant() -> Self {
        Slot { generation: 0, value: None }
    }

    /// A cell that holds `value`, stamped with `generation`. It is well
    /// formed unless the generation is 0, which marks empty cells.
    pub fn new(generation: u32, value: V) -> (r: Self)
        ensures
            r == (Slot { generation, value: Some(value) }),
            r.wf() <==> generation != 0,
    {
        Self { generation, value: Some(value) }
    }

    /// Whether the cell holds no value.
    pub fn is_empty(&self) -> (r: bool)
        ensures
            r == (self.generation == 0),
    {
        self.generation == 0
    }

    /// Takes the value out if the key's generation is the cell's, and leaves
    /// the cell empty; otherwise leaves the cell as it is.
    pub fn remove(&mut self, key: Key<V>) -> (r: Option<V>)
        ensures
            r == old(self).lookup(key@),
            *final(self) == (if old(self).admits(key@) {
                Self::vacant()
            } else {
                *old(self)
            }),
    {
        if self.generation > 0 && key.generation() == self.generation {
            self.generation = 0;
            self.value.take()
        } else {
            None
        }
    }

    /// The value, if the key's generation is the cell's.
    pub fn get(&self, key: Key<V>) -> (r: Option<&V>)
        ensures
            match r {
                Some(v) => self.lookup(key@) == Some(*v),
                None => self.lookup(key@) is None,
            },
    {
        if self.generation > 0 && key.generation() == self.generation {
            self.value.as_ref()
        } else {
            None
        }
    }

    /// The value, for writing, if the key's generation is the cell's. The
    /// cell stays occupied at the same generation whatever is written.
    pub fn get_mut(&mut self, key: Key<V>) -> (r: Option<&mut V>)
        ensures
            match r {
                Some(v) => old(self).lookup(key@) == Some(*v) && *final(self) == (Slot {
                    generation: old(self).generation,
                    value: Some(*final(v)),
                }),
                None => old(self).lookup(key@) is None && *final(self) == *old(self),
            },
    {
        if self.generation > 0 && key.generation() == self.generation {
            self.value.as_mut()
        } else {
            None
        }
    }
}

} // verus!
