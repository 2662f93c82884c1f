use crate::error::Error;
use crate::key::{
    lemma_pack_injective, lemma_pack_unpack, lemma_unpack_pack, pack, unpack, Key, KeyInner,
    SENTINEL_INDEX,
};
use crate::view::SlotMapView;
use vstd::prelude::*;
use vstd::std_specs::cmp::PartialEqSpec;
use vstd::std_specs::convert::FromSpec;

verus! {

/// One operation that changes a slot map.
pub enum Step<V> {
    /// Add a value.
    Add(V),
    /// Remove by a key.
    Remove(KeyInner),
    /// Ask for a unique key.
    UniqueKey,
    /// Replace the value that a key resolves to.
    Write(KeyInner, V),
    /// Move the counter forward to a generation.
    SkipTo(u32),
}

impl<V> SlotMapView<V> {
    /// The map after one operation.
    pub open spec fn step(self, step: Step<V>) -> Self {
        match step {
            Step::Add(value) => self.added(value),
            Step::Remove(key) => self.removed(key),
            Step::UniqueKey => self.bumped(),
            Step::Write(key, value) => self.with_value(key, value),
            Step::SkipTo(generation) => self.skipped_to(generation),
        }
    }

    /// The map after a series of operations, first to last.
    pub open spec fn run(self, steps: Seq<Step<V>>) -> Self
        decreases steps.len(),
    {
        if steps.len() == 0 {
            self
        } else {
            self.run(steps.drop_last()).step(steps.last())
        }
    }

    /// The key's generation has been handed out, yet the key resolves to
    /// nothing: its value was removed, or it never had one.
    pub open spec fn stale(self, key: KeyInner) -> bool {
        key.generation <= self.generation && !self.resolves(key)
    }
}

/// In a well-formed map a key reads a value exactly when it resolves.
pub proof fn law_get_iff_resolves<V>(m: SlotMapView<V>, key: KeyInner)
    requires
        m.wf(),
    ensures
        m.get(key) is Some <==> m.resolves(key),
{
    if key.index < m.slots.len() {
        assert(m.slots[key.index as int].wf());
    }
}

/// Every operation keeps a well-formed map well formed and never turns the
/// counter back.
pub proof fn law_step_keeps_wf<V>(m: SlotMapView<V>, step: Step<V>)
    requires
        m.wf(),
    ensures
        m.step(step).wf(),
        m.step(step).generation >= m.generation,
        m.step(step).max_slots == m.max_slots,
{
    match step {
        Step::Add(value) => m.lemma_added_wf(value),
        Step::Remove(key) => m.lemma_removed_wf(key),
        Step::UniqueKey => m.lemma_bumped_wf(),
        Step::Write(key, value) => m.lemma_with_value_wf(key, value),
        Step::SkipTo(generation) => m.lemma_skipped_to_wf(generation),
    }
}

/// The same, for any series of operations.
pub proof fn law_run_keeps_wf<V>(m: SlotMapView<V>, steps: Seq<Step<V>>)
    requires
        m.wf(),
    ensures
        m.run(steps).wf(),
        m.run(steps).generation >= m.generation,
        m.run(steps).max_slots == m.max_slots,
    decreases steps.len(),
{
    if steps.len() > 0 {
        law_run_keeps_wf(m, steps.drop_last());
        law_step_keeps_wf(m.run(steps.drop_last()), steps.last());
    }
}

/// While a generation and a cell are left, adding succeeds, and the value
/// is read back through the key that adding returned. The key carries the
/// generation after the counter's and a real index.
pub proof fn law_add_then_get<V>(m: SlotMapView<V>, value: V)
    requires
        m.wf(),
        m.generation < u32::MAX,
        m.len() < m.max_slots,
    ensures
        m.add_key() is Ok,
        m.added(value).get(m.add_key().unwrap()) == Some(value),
        m.add_key().unwrap().index < m.added(value).slots.len(),
        m.add_key().unwrap().index != SENTINEL_INDEX,
        m.add_key().unwrap().generation == m.generation + 1,
{
    m.lemma_len_counts_occupied();
}

/// Adding fails only for want of a generation or of a cell, and says which.
/// It never finds an occupied cell on the free stack, nor an index there
/// that is out of range.
pub proof fn law_add_fails_when<V>(m: SlotMapView<V>)
    requires
        m.wf(),
    ensures
        m.add_key() == Err::<KeyInner, Error>(Error::MaxGenerationReached) <==> m.generation
            == u32::MAX,
        m.add_key() == Err::<KeyInner, Error>(Error::NoFreeSlots) <==> m.generation < u32::MAX
            && m.len() == m.max_slots,
        m.add_key() is Ok <==> m.generation < u32::MAX && m.len() < m.max_slots,
        m.add_key() != Err::<KeyInner, Error>(Error::SlotNotEmpty),
        m.add_key() != Err::<KeyInner, Error>(Error::IndexOutOfBounds),
        m.add_key() != Err::<KeyInner, Error>(Error::InvalidArgument),
        m.len() <= m.max_slots,
{
    m.lemma_len_counts_occupied();
}

/// A generation is handed out once: after a value was added or a unique key
/// was made, whatever is done with the map, the next generation is greater.
pub proof fn law_generation_never_reused<V>(
    m: SlotMapView<V>,
    first: Step<V>,
    steps: Seq<Step<V>>,
)
    requires
        m.wf(),
        first is Add || first is UniqueKey,
        m.next_generation() is Ok,
    ensures
        m.step(first).run(steps).next_generation() matches Ok(later) ==> later
            > m.next_generation().unwrap(),
{
    law_step_keeps_wf(m, first);
    law_run_keeps_wf(m.step(first), steps);
}

/// Once the counter is exhausted it stays so: whatever is done with the
/// map, no value is added and no unique key is made any more, while what
/// the map holds can still be read and removed.
pub proof fn law_exhausted_forever<V>(m: SlotMapView<V>, steps: Seq<Step<V>>, value: V)
    requires
        m.wf(),
        m.generation == u32::MAX,
    ensures
        m.run(steps).add_key() == Err::<KeyInner, Error>(Error::MaxGenerationReached),
        m.run(steps).unique_key() == Err::<KeyInner, Error>(Error::MaxGenerationReached),
        m.run(steps).added(value) == m.run(steps),
        m.run(steps).bumped() == m.run(steps),
{
    law_run_keeps_wf(m, steps);
}

/// Two keys of one generation that both resolve address the same cell.
pub proof fn law_generation_names_one_cell<V>(m: SlotMapView<V>, a: KeyInner, b: KeyInner)
    requires
        m.wf(),
        m.resolves(a),
        m.resolves(b),
        a.generation == b.generation,
    ensures
        a == b,
{
    let i = a.index as int;
    let j = b.index as int;
    if i < j {
        assert(m.slots[i].generation != m.slots[j].generation);
    } else if j < i {
        assert(m.slots[j].generation != m.slots[i].generation);
    }
}

/// After a value was added, removing by its key gives the value back once:
/// from then on the key reads nothing and removes nothing.
pub proof fn law_remove_once<V>(m: SlotMapView<V>, value: V)
    requires
        m.wf(),
        m.add_key() is Ok,
    ensures
        m.added(value).removed(m.add_key().unwrap()).wf(),
        ({
            let key = m.add_key().unwrap();
            let stored = m.added(value);
            let emptied = stored.removed(key);
            &&& stored.get(key) == Some(value)
            &&& emptied.get(key) is None
            &&& emptied.stale(key)
            &&& emptied.removed(key) == emptied
        }),
{
    m.lemma_added_wf(value);
    m.added(value).lemma_removed_wf(m.add_key().unwrap());
}

/// A stale key stays stale through every operation.
pub proof fn law_stale_after_step<V>(m: SlotMapView<V>, key: KeyInner, step: Step<V>)
    requires
        m.wf(),
        m.stale(key),
    ensures
        m.step(step).stale(key),
{
    if key.index < m.slots.len() {
        assert(m.slots[key.index as int].wf());
    }
}

/// A stale key never resolves again, whatever is done with the map: it
/// reads nothing and removing by it changes nothing.
pub proof fn law_stale_forever<V>(m: SlotMapView<V>, key: KeyInner, steps: Seq<Step<V>>)
    requires
        m.wf(),
        m.stale(key),
    ensures
        m.run(steps).stale(key),
        m.run(steps).get(key) is None,
        m.run(steps).removed(key) == m.run(steps),
    decreases steps.len(),
{
    law_run_keeps_wf(m, steps);
    if steps.len() > 0 {
        law_stale_forever(m, key, steps.drop_last());
        law_run_keeps_wf(m, steps.drop_last());
        law_stale_after_step(m.run(steps.drop_last()), key, steps.last());
    }
    law_get_iff_resolves(m.run(steps), key);
}

/// The cell that was freed last is the first to be reused: the next value
/// goes to the removed key's cell under a strictly greater generation, and
/// the removed key does not resolve to it.
pub proof fn law_reuse<V>(m: SlotMapView<V>, key: KeyInner, value: V)
    requires
        m.wf(),
        m.resolves(key),
        m.generation < u32::MAX,
    ensures
        ({
            let emptied = m.removed(key);
            let reused = emptied.added(value);
            &&& emptied.add_key() matches Ok(fresh) && fresh.index == key.index && fresh.generation
                > key.generation && reused.get(fresh) == Some(value)
            &&& reused.get(key) is None
        }),
{
    m.lemma_removed_wf(key);
    assert(m.slots[key.index as int].wf());
}

/// A key with the sentinel index resolves in no well-formed map.
pub proof fn law_unique_key_never_resolves<V>(m: SlotMapView<V>, key: KeyInner)
    requires
        m.wf(),
        key.index == SENTINEL_INDEX,
    ensures
        !m.resolves(key),
        m.get(key) is None,
        m.removed(key) == m,
{
}

/// A unique key differs from every key that adding returns, in whatever
/// states of the map the two were handed out; so do their 64-bit forms.
pub proof fn law_unique_key_differs<V>(at_add: SlotMapView<V>, at_unique: SlotMapView<V>)
    requires
        at_add.wf(),
        at_add.add_key() is Ok,
        at_unique.unique_key() is Ok,
    ensures
        at_add.add_key().unwrap() != at_unique.unique_key().unwrap(),
        pack(at_add.add_key().unwrap()) != pack(at_unique.unique_key().unwrap()),
{
    if pack(at_add.add_key().unwrap()) == pack(at_unique.unique_key().unwrap()) {
        lemma_pack_injective(at_add.add_key().unwrap(), at_unique.unique_key().unwrap());
    }
}

/// `len` counts the occupied cells: none in a new map, one more after a
/// value was added, one fewer after one was removed, and the same after an
/// operation that failed.
pub proof fn law_len_tracks_occupancy<V>(m: SlotMapView<V>, value: V, key: KeyInner)
    requires
        m.wf(),
    ensures
        SlotMapView::<V>::empty(m.max_slots).len() == 0,
        m.len() == m.occupied().len(),
        m.added(value).len() == (if m.add_key() is Ok {
            m.len() + 1
        } else {
            m.len()
        }),
        m.removed(key).len() == (if m.get(key) is Some {
            m.len() - 1
        } else {
            m.len()
        }),
        m.bumped().len() == m.len(),
{
    m.lemma_len_counts_occupied();
    law_get_iff_resolves(m, key);
}

/// The map is a finite map from keys to values: a key reads what the map
/// holds under it, and `len` counts the keys.
pub proof fn law_entries_are_read<V>(m: SlotMapView<V>, key: KeyInner)
    requires
        m.wf(),
    ensures
        m.get(key) == (if m.entries().contains_key(key) {
            Some(m.entries()[key])
        } else {
            None
        }),
        m.entries().dom().finite(),
        m.len() == m.entries().dom().len(),
        SlotMapView::<V>::empty(m.max_slots).entries() == Map::<KeyInner, V>::empty(),
{
    m.lemma_len_counts_entries();
    if key.index < m.slots.len() {
        assert(m.slots[key.index as int].wf());
    }
    assert(SlotMapView::<V>::empty(m.max_slots).entries() =~= Map::<KeyInner, V>::empty());
}

/// Adding puts the value under a key that the map did not hold, and leaves
/// every other entry as it was; where adding fails, no entry changes.
pub proof fn law_entries_after_add<V>(m: SlotMapView<V>, value: V)
    requires
        m.wf(),
    ensures
        match m.add_key() {
            Ok(key) => !m.entries().contains_key(key) && m.added(value).entries()
                == m.entries().insert(key, value),
            Err(_) => m.added(value).entries() == m.entries(),
        },
{
    let after = m.added(value);
    match m.add_key() {
        Ok(key) => {
            if key.index < m.slots.len() {
                assert(m.slots[key.index as int].wf());
            }
            assert forall|k: KeyInner| #[trigger]
                after.entries().contains_key(k) <==> m.entries().insert(key, value).contains_key(
                    k,
                ) by {
                if k.index < m.slots.len() {
                    assert(m.slots[k.index as int].wf());
                }
            }
            assert(after.entries() =~= m.entries().insert(key, value));
        },
        Err(_) => {
            assert(after.entries() =~= m.entries());
        },
    }
}

/// Removing takes away the entry under the key, if there is one, and no
/// other.
pub proof fn law_entries_after_remove<V>(m: SlotMapView<V>, key: KeyInner)
    requires
        m.wf(),
    ensures
        m.removed(key).entries() == m.entries().remove(key),
{
    assert(m.removed(key).entries() =~= m.entries().remove(key));
}

/// Writing through a key replaces the value under it, if there is one, and
/// touches no other entry; a fresh generation or a skip touches none.
pub proof fn law_entries_after_write<V>(m: SlotMapView<V>, key: KeyInner, value: V, generation: u32)
    requires
        m.wf(),
    ensures
        m.with_value(key, value).entries() == (if m.entries().contains_key(key) {
            m.entries().insert(key, value)
        } else {
            m.entries()
        }),
        m.bumped().entries() == m.entries(),
        m.skipped_to(generation).entries() == m.entries(),
{
    assert(m.with_value(key, value).entries() =~= (if m.entries().contains_key(key) {
        m.entries().insert(key, value)
    } else {
        m.entries()
    }));
    assert(m.bumped().entries() =~= m.entries());
    assert(m.skipped_to(generation).entries() =~= m.entries());
}

/// Keys that compare equal are interchangeable: they have the same 64-bit
/// form, read the same value and remove the same value.
pub proof fn law_equal_keys_agree<V>(m: SlotMapView<V>, a: Key<V>, b: Key<V>)
    requires
        a.eq_spec(&b),
    ensures
        u64::from_spec(a) == u64::from_spec(b),
        m.resolves(a@) == m.resolves(b@),
        m.get(a@) == m.get(b@),
        m.removed(a@) == m.removed(b@),
{
}

/// A key that went through its 64-bit form and back is equal to the key
/// it was, and a 64-bit value that went through a key and back is unchanged.
pub proof fn law_key_round_trip<V>(key: Key<V>, bits: u64)
    ensures
        Key::<V>::from_spec(u64::from_spec(key)).eq_spec(&key),
        u64::from_spec(Key::<V>::from_spec(bits)) == bits,
{
    Key::<V>::lemma_with_inner(unpack(pack(key@)));
    Key::<V>::lemma_with_inner(unpack(bits));
    lemma_unpack_pack(key@);
    lemma_pack_unpack(bits);
}

} // verus!
