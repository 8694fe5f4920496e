//! Leaves: nodes that ask a decision.

use vstd::prelude::*;
use crate::decide::Decide;
use crate::model::NodeView;
use crate::node::Node;
use crate::status::Status;

verus! {

/// A leaf that wraps a decision.
///
/// The leaf keeps no state for the decision between ticks: it asks once per tick and hands
/// the answer up as it is.
pub struct Action<D: Decide> {
    func: D,
    ticks: Ghost<nat>,
}

impl<D: Decide> Action<D> {
    #[verifier::type_invariant]
    spec fn callable(&self) -> bool {
        self.func.callable()
    }

    /// Wraps `func` in a leaf that has not been ticked yet.
    pub fn new(func: D) -> (action: Action<D>)
        requires
            func.callable(),
        ensures
            action.view() == (NodeView::Action { verdicts: func.verdicts(), ticks: 0 }),
    {
        Action { func, ticks: Ghost(0) }
    }

    /// The model of a leaf is a leaf.
    pub proof fn lemma_view_kind(&self)
        ensures
            self.view() is Action,
    {
    }
}

impl<D: Decide> Node for Action<D> {
    closed spec fn view(&self) -> NodeView {
        NodeView::Action { verdicts: self.func.verdicts(), ticks: self.ticks@ }
    }

    /// Asks the decision once and returns its answer unchanged: the answer is one of the
    /// verdicts of the decision, and the leaf has gone the step that belongs to it.
    fn tick(&mut self) -> (out: Status)
        ensures
            old(self).view().verdicts().contains(out),
            old(self).view().step(out) == (final(self).view(), out),
    {
        proof {
            use_type_invariant(&*self);
        }
        let out = self.func.decide();
        self.ticks = Ghost((self.ticks@ + 1) as nat);
        assert(old(self).view().step(out) == (self.view(), out));
        out
    }
}

} // verus!
