//! A generational slot map: values live in a dense vector of slots and are
//! reached through versioned keys, so that a key whose value was removed is
//! recognised as stale instead of resolving to whatever reuses the slot.
//!
//! `SlotMap` is the container and `Key` its handle. `SlotMapView` is what a
//! map is to the contracts, and `laws` holds what follows from them.

pub mod error;
pub mod key;
pub mod laws;
pub mod slot;
pub mod slot_map;
pub mod text;
pub mod view;

pub use error::Error;
pub use key::{Key, KeyInner, SENTINEL_INDEX};
pub use laws::Step;
pub use slot::Slot;
pub use slot_map::SlotMap;
pub use view::SlotMapView;
