use vstd::prelude::*;

verus! {

/// Why an operation on a key or a slot map failed.
#[derive(Debug, Clone, Copy, PartialEq, Eq, Structural)]
pub enum Error {
    /// An addressable key was asked for with the reserved index.
    IndexOutOfBounds,
    /// The generation counter has reached its last value.
    MaxGenerationReached,
    /// An index on the free list points at an occupied slot.
    SlotNotEmpty,
    /// No slot is free and the map may not grow further.
    NoFreeSlots,
    /// The construction parameters are inconsistent.
    InvalidArgument,
}

impl Error {
    /// The error's name.
    pub open spec fn text(self) -> Seq<char> {
        match self {
            Error::IndexOutOfBounds => "IndexOutOfBounds"@,
            Error::MaxGenerationReached => "MaxGenerationReached"@,
            Error::SlotNotEmpty => "SlotNotEmpty"@,
            Error::NoFreeSlots => "NoFreeSlots"@,
            Error::InvalidArgument => "InvalidArgument"@,
        }
    }

    /// The error as it is printed: its name.
    pub fn to_text(&self) -> (r: String)
        ensures
            r@ == self.text(),
    {
        match self {
            Error::IndexOutOfBounds => String::from_str("IndexOutOfBounds"),
            Error::MaxGenerationReached => String::from_str("MaxGenerationReached"),
            Error::SlotNotEmpty => String::from_str("SlotNotEmpty"),
            Error::NoFreeSlots => String::from_str("NoFreeSlots"),
            Error::InvalidArgument => String::from_str("InvalidArgument"),
        }
    }
}

} // verus!
