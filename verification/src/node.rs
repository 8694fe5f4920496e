//! The contract that every element of a tree meets, and the closed set of elements that a
//! composite can hold.

use vstd::prelude::*;
use crate::action::Action;
use crate::decide::Decide;
use crate::model::{ticked, NodeView};
use crate::selector::Selector;
use crate::sequence::Sequence;
use crate::status::Status;

verus! {

/// Anything that can be ticked.
pub trait Node {
    /// The node as a mathematical value.
    spec fn view(&self) -> NodeView;

    /// Evaluates the node once.
    ///
    /// What happened is a possible outcome of one tick of the node's model.
    fn tick(&mut self) -> (out: Status)
        ensures
            ticked(old(self).view(), final(self).view(), out),
    ;
}

/// A child of a composite: one of the node kinds of this crate.
pub enum TreeNode<D: Decide> {
    Action(Action<D>),
    Sequence(Sequence<D>),
    Selector(Selector<D>),
}

/// The models of the children of a composite, in their order.
pub open spec fn child_views<D: Decide>(children: Seq<TreeNode<D>>) -> Seq<NodeView>
    decreases children,
{
    Seq::new(
        children.len(),
        |i: int|
            if 0 <= i < children.len() {
                children[i].view()
            } else {
                arbitrary()
            },
    )
}

/// `child_views` keeps the number and the order of the children.
pub proof fn lemma_child_views<D: Decide>(children: Seq<TreeNode<D>>)
    ensures
        child_views(children).len() == children.len(),
        forall|i: int|
            0 <= i < children.len() ==> #[trigger] child_views(children)[i] == children[i].view(),
{
}

impl<D: Decide> Node for TreeNode<D> {
    open spec fn view(&self) -> NodeView
        decreases self,
    {
        match self {
            TreeNode::Action(action) => action.view(),
            TreeNode::Sequence(sequence) => sequence.view(),
            TreeNode::Selector(selector) => selector.view(),
        }
    }

    /// Ticks the node that the value holds.
    fn tick(&mut self) -> (out: Status)
        ensures
            ticked(old(self).view(), final(self).view(), out),
        decreases *old(self),
    {
        match self {
            TreeNode::Action(action) => action.tick(),
            TreeNode::Sequence(sequence) => sequence.tick(),
            TreeNode::Selector(selector) => selector.tick(),
        }
    }
}

} // verus!
