//! The interface UI-facing state containers implement.

use vstd::prelude::*;

verus! {

/// A state container that consumes actions and reports events for the
/// surrounding application to render. Implementations live with the
/// application; the library only fixes the shape of the exchange.
pub trait UpdatableState {
    /// What the container is asked to apply.
    type Action: Clone;

    /// What it reports back after applying one action.
    type Event;

    /// Apply one action and report the resulting events.
    fn update_with(&mut self, action: &Self::Action) -> Vec<Self::Event>;
}

} // verus!
