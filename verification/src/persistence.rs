//! Putting state away and taking it up again.

use vstd::prelude::*;

verus! {

/// An object whose state can be put away and taken up again.
pub trait PersistentObject: Sized {
    /// What is kept of the object.
    type PersistentState;

    /// `state` holds what is kept of `self`.
    spec fn persisted_as(&self, state: Self::PersistentState) -> bool;

    fn save_state(&self) -> (state: Self::PersistentState)
        ensures
            self.persisted_as(state),
    ;

    fn load_state(state: Self::PersistentState) -> (object: Self)
        ensures
            object.persisted_as(state),
    ;
}

} // verus!
