//! The unit that a host owns and ticks: a root node and nothing else.

use vstd::prelude::*;
use crate::model::{ticked, NodeView};
use crate::node::Node;
use crate::status::Status;

verus! {

/// A behavior tree: the owner of a fully built root node.
///
/// The shape of a tree is fixed once it is built. To change it, build another tree.
pub struct BehaviorTree<N: Node> {
    root: N,
}

impl<N: Node> BehaviorTree<N> {
    /// The root node.
    pub closed spec fn spec_root(&self) -> &N {
        &self.root
    }

    /// The tree as a mathematical value: the model of its root, and nothing added.
    pub open spec fn view(&self) -> NodeView {
        self.spec_root().view()
    }

    /// Takes ownership of `root`.
    pub fn new(root: N) -> (tree: BehaviorTree<N>)
        ensures
            *tree.spec_root() == root,
    {
        BehaviorTree { root }
    }

    /// The root node.
    #[verifier::when_used_as_spec(spec_root)]
    pub fn root(&self) -> (root: &N)
        ensures
            root == self.spec_root(),
    {
        &self.root
    }

    /// Ticks the root once and hands its status on as it is: the outcome is an outcome of
    /// ticking the root, for the tree afterwards as for the status.
    pub fn tick(&mut self) -> (out: Status)
        ensures
            ticked(old(self).root().view(), final(self).root().view(), out),
    {
        self.root.tick()
    }
}

/// Ticks every tree of `trees` once, in their order, and returns what each reported.
pub fn tick_all<N: Node>(trees: &mut Vec<BehaviorTree<N>>) -> (statuses: Vec<Status>)
    ensures
        final(trees).len() == old(trees).len(),
        statuses.len() == old(trees).len(),
        forall|i: int|
            0 <= i < old(trees).len() ==> ticked(
                old(trees)[i].view(),
                final(trees)[i].view(),
                #[trigger] statuses[i],
            ),
{
    let mut statuses = Vec::new();
    let mut next: usize = 0;
    while next < trees.len()
        invariant
            trees.len() == old(trees).len(),
            next <= trees.len(),
            statuses.len() == next,
            forall|i: int|
                0 <= i < next ==> ticked(
                    old(trees)[i].view(),
                    trees[i].view(),
                    #[trigger] statuses[i],
                ),
            forall|i: int| next <= i < trees.len() ==> trees[i] == old(trees)[i],
        decreases trees.len() - next,
    {
        let out = trees[next].tick();
        statuses.push(out);
        next += 1;
    }
    statuses
}

} // verus!
