//! Decisions: what a leaf asks when it is ticked.

use vstd::prelude::*;
use crate::status::Status;

verus! {

/// A decision that can be asked any number of times.
///
/// The engine treats a decision as opaque. It may read whatever state of the world it
/// likes, so two calls need not agree; `verdicts` bounds what any call can return.
pub trait Decide {
    /// The decision may be asked.
    spec fn callable(&self) -> bool;

    /// Every status that the decision may return.
    spec fn verdicts(&self) -> Set<Status>;

    /// Asks the decision once.
    fn decide(&self) -> (verdict: Status)
        requires
            self.callable(),
        ensures
            self.verdicts().contains(verdict),
    ;
}

/// Every function without arguments that returns a status is a decision.
impl<F: Fn() -> Status> Decide for F {
    open spec fn callable(&self) -> bool {
        call_requires(*self, ())
    }

    open spec fn verdicts(&self) -> Set<Status> {
        Set::new(|verdict: Status| call_ensures(*self, (), verdict))
    }

    fn decide(&self) -> (verdict: Status) {
        self()
    }
}

} // verus!
