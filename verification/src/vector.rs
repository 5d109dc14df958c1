//! Linear-algebra scaffolding: spaces assembled from a base space.

use vstd::prelude::*;

verus! {

/// A space presented as a product of copies of a base space, with random
/// access to the components.
pub trait CartesianProduct {
    type BaseSpace;

    fn dim(&self) -> usize;

    fn nth(&self) -> Option<&Self::BaseSpace>;
}

} // verus!
