use vstd::prelude::*;

verus! {

/// The identity of a body: the slot it occupies and the generation of that
/// slot. Two handles name the same body exactly when both parts agree.
#[derive(Clone, Copy, Debug, PartialEq, Eq, Structural, Hash)]
pub struct BodyHandle {
    pub index: usize,
    pub generation: u64,
}

impl BodyHandle {
    /// Builds a handle from its two parts.
    pub fn from_raw_parts(index: usize, generation: u64) -> (handle: BodyHandle)
        ensures
            handle == (BodyHandle { index, generation }),
    {
        BodyHandle { index, generation }
    }

    /// Splits a handle into slot and generation.
    pub fn into_raw_parts(self) -> (parts: (usize, u64))
        ensures
            parts == (self.index, self.generation),
    {
        (self.index, self.generation)
    }
}

} // verus!
