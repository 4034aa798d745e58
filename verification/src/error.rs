use vstd::prelude::*;

verus! {

/// What can go wrong around the world.
#[derive(Clone, Copy, Debug, PartialEq, Eq, Structural)]
pub enum WorldError {
    /// The template of a visual node could not be had, so nothing was spawned.
    AssetLoadError,
    /// A handle names no body of the world.
    BodyNotFound,
}

} // verus!
