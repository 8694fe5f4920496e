//! Two constant decisions and a small tree made of them.

use vstd::prelude::*;
use crate::action::Action;
use crate::decide::Decide;
use crate::model::NodeView;
use crate::node::{child_views, lemma_child_views, TreeNode};
use crate::sequence::Sequence;
use crate::status::Status;
use crate::tree::BehaviorTree;

verus! {

/// The decision that always succeeds.
pub fn always_succeed() -> (out: Status)
    ensures
        out == Status::Success,
{
    Status::Success
}

/// The decision that always fails.
pub fn always_fail() -> (out: Status)
    ensures
        out == Status::Failure,
{
    Status::Failure
}

/// The two constant decisions as values of one type, so that leaves of either kind fit
/// under one composite.
#[derive(Clone, Copy, Debug, PartialEq, Eq, Structural)]
pub enum Constant {
    /// Asks [`always_succeed`].
    Succeed,
    /// Asks [`always_fail`].
    Fail,
}

impl Decide for Constant {
    open spec fn callable(&self) -> bool {
        true
    }

    open spec fn verdicts(&self) -> Set<Status> {
        match self {
            Constant::Succeed => set![Status::Success],
            Constant::Fail => set![Status::Failure],
        }
    }

    fn decide(&self) -> (verdict: Status) {
        match self {
            Constant::Succeed => always_succeed(),
            Constant::Fail => always_fail(),
        }
    }
}

/// A leaf that has not been ticked and whose decision always returns `verdict`.
pub open spec fn constant_leaf(verdict: Status) -> NodeView {
    NodeView::Action { verdicts: set![verdict], ticks: 0 }
}

/// The tree that [`create_basic_bt`] builds: a sequence of a succeeding leaf and an inner
/// sequence of two succeeding leaves and a failing one, nothing of it ticked yet.
pub open spec fn basic_bt() -> NodeView {
    NodeView::Sequence {
        children: seq![
            constant_leaf(Status::Success),
            NodeView::Sequence {
                children: seq![
                    constant_leaf(Status::Success),
                    constant_leaf(Status::Success),
                    constant_leaf(Status::Failure),
                ],
                active: 0,
                ticks: 0,
            },
        ],
        active: 0,
        ticks: 0,
    }
}

/// Builds the sample tree [`basic_bt`].
pub fn create_basic_bt() -> (tree: BehaviorTree<Sequence<Constant>>)
    ensures
        tree.view() == basic_bt(),
{
    let mut inner = Vec::new();
    inner.push(TreeNode::Action(Action::new(Constant::Succeed)));
    inner.push(TreeNode::Action(Action::new(Constant::Succeed)));
    inner.push(TreeNode::Action(Action::new(Constant::Fail)));
    proof {
        lemma_child_views(inner@);
        assert(child_views(inner@) =~= basic_bt()->Sequence_children[1]->Sequence_children);
    }
    let inner = Sequence::new(inner).unwrap();
    let mut outer = Vec::new();
    outer.push(TreeNode::Action(Action::new(Constant::Succeed)));
    outer.push(TreeNode::Sequence(inner));
    proof {
        lemma_child_views(outer@);
        assert(child_views(outer@) =~= basic_bt()->Sequence_children);
    }
    BehaviorTree::new(Sequence::new(outer).unwrap())
}

} // verus!
