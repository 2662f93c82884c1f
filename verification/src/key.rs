use crate::error::Error;
use crate::text::{decimal, decimal_text};
use core::marker::PhantomData;
use vstd::prelude::*;
use vstd::std_specs::cmp::PartialEqSpecImpl;
use vstd::std_specs::convert::FromSpecImpl;

verus! {

/// The index that addresses no slot. Only unique keys carry it.
pub const SENTINEL_INDEX: u32 = 0xffff_ffff;

/// The two halves of a key.
#[derive(Clone, Copy, Debug, PartialEq, Eq, Structural)]
pub struct KeyInner {
    pub index: u32,
    pub generation: u32,
}

/// The 64-bit form of a key: the index in the low half, the generation in
/// the high half.
pub open spec fn pack(k: KeyInner) -> u64 {
    ((k.generation as u64) << 32) | (k.index as u64)
}

/// The key whose 64-bit form is `x`.
pub open spec fn unpack(x: u64) -> KeyInner {
    KeyInner { index: (x & 0xffff_ffff) as u32, generation: (x >> 32) as u32 }
}

/// Unpacking undoes packing.
pub proof fn lemma_unpack_pack(k: KeyInner)
    ensures
        unpack(pack(k)) == k,
{
    let i = k.index;
    let g = k.generation;
    assert(((((g as u64) << 32) | (i as u64)) & 0xffff_ffff) as u32 == i) by (bit_vector);
    assert(((((g as u64) << 32) | (i as u64)) >> 32) as u32 == g) by (bit_vector);
}

/// Packing undoes unpacking.
pub proof fn lemma_pack_unpack(x: u64)
    ensures
        pack(unpack(x)) == x,
{
    assert(((((x >> 32) as u32) as u64) << 32) | (((x & 0xffff_ffff) as u32) as u64) == x)
        by (bit_vector);
}

/// Two keys with the same 64-bit form are the same key.
pub proof fn lemma_pack_injective(a: KeyInner, b: KeyInner)
    requires
        pack(a) == pack(b),
    ensures
        a == b,
{
    lemma_unpack_pack(a);
    lemma_unpack_pack(b);
}

/// A key as it is printed: `Key <gen: 3, index: 0>`.
pub open spec fn key_text(k: KeyInner) -> Seq<char> {
    "Key <gen: "@ + decimal(k.generation as nat) + ", index: "@ + decimal(k.index as nat) + ">"@
}

/// A versioned handle to a value in a slot map. The type parameter ties the
/// key to the value type of the map it came from; it has no run-time content.
#[derive(Debug)]
pub struct Key<V> {
    inner: KeyInner,
    _t: PhantomData<V>,
}

impl<T> View for Key<T> {
    type V = KeyInner;

    closed spec fn view(&self) -> KeyInner {
        self.inner
    }
}

impl<V> Key<V> {
    /// The key with the given halves.
    pub closed spec fn with_inner(inner: KeyInner) -> Self {
        Key { inner, _t: PhantomData }
    }

    /// `with_inner` builds the key that it is asked for.
    pub proof fn lemma_with_inner(inner: KeyInner)
        ensures
            Self::with_inner(inner)@ == inner,
    {
    }

    /// A key for slot `index`, whose low 32 bits are kept. Refused when those
    /// bits spell the sentinel.
    pub fn new(index: usize, generation: u32) -> (r: Result<Self, Error>)
        ensures
            index as u32 == SENTINEL_INDEX ==> r == Err::<Self, Error>(Error::IndexOutOfBounds),
            index as u32 != SENTINEL_INDEX ==> r is Ok && r.unwrap()@ == (KeyInner {
                index: index as u32,
                generation,
            }),
    {
        let low: u32 = #[verifier::truncate] (index as u32);
        if low == SENTINEL_INDEX {
            return Err(Error::IndexOutOfBounds);
        }
        Ok(Self { inner: KeyInner { index: low, generation }, _t: PhantomData })
    }

    /// The key of the given generation that addresses no slot.
    pub fn new_special(generation: u32) -> (r: Self)
        ensures
            r@ == (KeyInner { index: SENTINEL_INDEX, generation }),
    {
        Self { inner: KeyInner { index: SENTINEL_INDEX, generation }, _t: PhantomData }
    }

    /// The slot that the key addresses.
    pub fn index(&self) -> (r: usize)
        ensures
            r == self@.index,
    {
        self.inner.index as usize
    }

    /// The key as it is printed, generation first.
    pub fn to_text(&self) -> (r: String)
        ensures
            r@ == key_text(self@),
    {
        let mut text = String::from_str("Key <gen: ");
        text.append(decimal_text(self.inner.generation).as_str());
        text.append(", index: ");
        text.append(decimal_text(self.inner.index).as_str());
        text.append(">");
        text
    }

    /// The generation that the key was minted with.
    pub fn generation(&self) -> (r: u32)
        ensures
            r == self@.generation,
    {
        self.inner.generation
    }
}

impl<V> Clone for Key<V> {
    fn clone(&self) -> (r: Self)
        ensures
            r@ == self@,
    {
        Key { inner: self.inner, _t: PhantomData }
    }
}

impl<V> Copy for Key<V> {

}

impl<V> PartialEq for Key<V> {
    fn eq(&self, other: &Self) -> (r: bool) {
        self.inner.index == other.inner.index && self.inner.generation == other.inner.generation
    }
}

impl<V> PartialEqSpecImpl for Key<V> {
    open spec fn obeys_eq_spec() -> bool {
        true
    }

    open spec fn eq_spec(&self, other: &Self) -> bool {
        self@ == other@
    }
}

impl<V> From<u64> for Key<V> {
    fn from(value: u64) -> (r: Self) {
        let index: u32 = (value & 0xffff_ffff) as u32;
        let generation: u32 = (value >> 32) as u32;
        Self { inner: KeyInner { index, generation }, _t: PhantomData }
    }
}

impl<V> FromSpecImpl<u64> for Key<V> {
    open spec fn obeys_from_spec() -> bool {
        true
    }

    open spec fn from_spec(value: u64) -> Self {
        Self::with_inner(unpack(value))
    }
}

impl<V> From<Key<V>> for u64 {
    fn from(value: Key<V>) -> (r: u64) {
        ((value.inner.generation as u64) << 32) | (value.inner.index as u64)
    }
}

impl<V> FromSpecImpl<Key<V>> for u64 {
    open spec fn obeys_from_spec() -> bool {
        true
    }

    open spec fn from_spec(value: Key<V>) -> u64 {
        pack(value@)
    }
}

} // verus!
