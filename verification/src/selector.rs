//! OR-composition with a cursor that survives from tick to tick.

use vstd::prelude::*;
use crate::decide::Decide;
use crate::error::BuildError;
use crate::laws::lemma_step_counts_one_tick;
use crate::model::{one_child_ticked, selector_rule, ticked, NodeView};
use crate::node::{child_views, lemma_child_views, Node, TreeNode};
use crate::status::Status;

verus! {

/// The rule of a selector on machine integers: what [`selector_rule`] says for the cursor
/// `active` of a selector of `len` children whose child under the cursor reported `child`.
pub fn selector_transition(active: usize, len: usize, child: Status) -> (next: (usize, Status))
    ensures
        next.0 == selector_rule(active as nat, len as nat, child).0,
        next.1 == selector_rule(active as nat, len as nat, child).1,
{
    match child {
        Status::Failure => {
            if active < len && active + 1 < len {
                (active + 1, Status::Running)
            } else {
                (0, Status::Failure)
            }
        },
        Status::Success => (0, Status::Success),
        _ => (active, child),
    }
}

/// Alternatives that are tried one after the other until one succeeds.
///
/// The children are fixed when the selector is built. The cursor is execution state: it
/// remembers across ticks which alternative is next, so that one that has failed is not
/// tried again while the attempt lasts.
pub struct Selector<D: Decide> {
    children: Vec<TreeNode<D>>,
    active: usize,
    ticks: Ghost<nat>,
}

impl<D: Decide> Selector<D> {
    #[verifier::type_invariant]
    spec fn cursor_in_range(&self) -> bool {
        self.active < self.children.len()
    }

    /// Puts `children` under a new selector whose cursor is at the first of them. A
    /// selector without children is refused.
    pub fn new(children: Vec<TreeNode<D>>) -> (built: Result<Selector<D>, BuildError>)
        ensures
            children.len() == 0 <==> built == Err::<Selector<D>, BuildError>(
                BuildError::NoChildren,
            ),
            children.len() > 0 <==> built is Ok,
            built matches Ok(selector) ==> selector.view() == (NodeView::Selector {
                children: child_views(children@),
                active: 0,
                ticks: 0,
            }),
    {
        if children.len() == 0 {
            Err(BuildError::NoChildren)
        } else {
            Ok(Selector { children, active: 0, ticks: Ghost(0) })
        }
    }

    /// The model of a selector is a selector.
    pub proof fn lemma_view_kind(&self)
        ensures
            self.view() is Selector,
    {
    }

    /// The number of children.
    pub fn len(&self) -> (len: usize)
        ensures
            len == self.view().children().len(),
            len > 0,
    {
        proof {
            use_type_invariant(self);
            lemma_child_views(self.children@);
        }
        self.children.len()
    }

    /// The index of the child that the next tick goes to.
    pub fn active(&self) -> (active: usize)
        ensures
            active == self.view().cursor(),
            active < self.view().children().len(),
    {
        proof {
            use_type_invariant(self);
            lemma_child_views(self.children@);
        }
        self.active
    }

    /// The child at `index`, if there is one.
    pub fn child(&self, index: usize) -> (child: Option<&TreeNode<D>>)
        ensures
            index < self.view().children().len() <==> child is Some,
            child matches Some(node) ==> node.view() == self.view().children()[index as int],
    {
        proof {
            lemma_child_views(self.children@);
        }
        if index < self.children.len() {
            Some(&self.children[index])
        } else {
            None
        }
    }
}

impl<D: Decide> Node for Selector<D> {
    closed spec fn view(&self) -> NodeView
        decreases self,
    {
        NodeView::Selector {
            children: child_views(self.children@),
            active: self.active as nat,
            ticks: self.ticks@,
        }
    }

    /// Ticks the child under the cursor, and no other, and applies [`selector_rule`] to
    /// what it reported: the outcome is a step of the model for a verdict of the leaf that
    /// the tick reached.
    fn tick(&mut self) -> (out: Status)
        ensures
            ticked(old(self).view(), final(self).view(), out),
            one_child_ticked(old(self).view(), final(self).view()),
        decreases *old(self),
    {
        proof {
            use_type_invariant(&*self);
        }
        let index = self.active;
        let reported = self.children[index].tick();
        let (next, out) = selector_transition(index, self.children.len(), reported);
        self.active = next;
        self.ticks = Ghost((self.ticks@ + 1) as nat);
        proof {
            let child = old(self).children[index as int].view();
            let verdict = choose|verdict: Status|
                child.verdicts().contains(verdict) && #[trigger] child.step(verdict) == (
                    self.children[index as int].view(),
                    reported,
                );
            assert(child_views(self.children@) =~= child_views(old(self).children@).update(
                index as int,
                self.children[index as int].view(),
            ));
            assert(old(self).view().step(verdict) == (self.view(), out));
            lemma_step_counts_one_tick(child, verdict);
        }
        out
    }
}

} // verus!
