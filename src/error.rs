use vstd::prelude::*;

verus! {

/// The size and alignment, in bytes, of a block of element slots.
#[derive(Debug, Clone, Copy, PartialEq, Eq, Structural)]
pub struct ArrayLayout {
    pub size: usize,
    pub align: usize,
}

/// Why a buffer could not grow.
#[derive(Debug, Clone, Copy, PartialEq, Eq, Structural)]
pub enum GrowError {
    /// The next capacity, or its size in bytes, does not fit in a `usize`.
    Layout,
    /// The next block would be larger than the largest signed offset.
    AllocationTooLarge,
    /// The allocator did not provide a block of this layout.
    AllocationFail(ArrayLayout),
}

/// Why an element could not be inserted.
#[derive(Debug, Clone, Copy, PartialEq, Eq, Structural)]
pub enum InsertError {
    /// The buffer had no free slot and could not grow.
    Grow(GrowError),
    /// The position lies past the end of the sequence.
    IndexOutOfBounds,
}

impl From<GrowError> for InsertError {
    fn from(value: GrowError) -> (r: Self)
        ensures
            r == InsertError::Grow(value),
    {
        InsertError::Grow(value)
    }
}

impl vstd::std_specs::convert::FromSpecImpl<GrowError> for InsertError {
    open spec fn obeys_from_spec() -> bool {
        true
    }

    open spec fn from_spec(v: GrowError) -> Self {
        InsertError::Grow(v)
    }
}

} // verus!
