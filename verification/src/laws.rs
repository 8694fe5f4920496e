//! What holds of every tree and every tick.
//!
//! The laws speak of the model, [`NodeView`]. They carry over to the nodes themselves
//! through the contract of [`tick`](crate::node::Node::tick), which says that every tick is
//! a [`step`](NodeView::step) of the model.

use vstd::prelude::*;
use crate::model::{
    asked_below, one_child_ticked, selector_rule, sequence_rule, ticked, NodeView,
};
use crate::status::Status;

verus! {

/// A step ticks the node it is applied to exactly once.
pub proof fn lemma_step_counts_one_tick(tree: NodeView, verdict: Status)
    ensures
        tree.step(verdict).0.ticks() == tree.ticks() + 1,
{
}

/// A step changes neither the kind of a node nor the number of its children.
pub proof fn lemma_step_keeps_shape(tree: NodeView, verdict: Status)
    ensures
        tree is Action <==> tree.step(verdict).0 is Action,
        tree is Sequence <==> tree.step(verdict).0 is Sequence,
        tree is Selector <==> tree.step(verdict).0 is Selector,
        tree.step(verdict).0.children().len() == tree.children().len(),
{
}

/// A well-formed tree stays well formed: after a step, every cursor still points at a
/// child.
pub proof fn lemma_step_preserves_wf(tree: NodeView, verdict: Status)
    requires
        tree.wf(),
    ensures
        tree.step(verdict).0.wf(),
    decreases tree,
{
    if !(tree is Action) {
        let at = tree.cursor() as int;
        lemma_step_preserves_wf(tree.children()[at], verdict);
        let after = tree.step(verdict).0.children();
        assert forall|i: int| 0 <= i < after.len() implies #[trigger] after[i].wf() by {
            if i != at {
                assert(after[i] == tree.children()[i]);
            }
        }
    }
}

/// Every outcome of a tick of a well-formed tree is a well-formed tree.
pub proof fn lemma_ticked_preserves_wf(pre: NodeView, post: NodeView, out: Status)
    requires
        pre.wf(),
        ticked(pre, post, out),
    ensures
        post.wf(),
{
    let verdict = choose|verdict: Status|
        pre.verdicts().contains(verdict) && #[trigger] pre.step(verdict) == (post, out);
    lemma_step_preserves_wf(pre, verdict);
}

/// Where the leaf that a tick reaches can return one status only, the tick has one
/// outcome: the step for that status.
pub proof fn lemma_ticked_of_constant(pre: NodeView, post: NodeView, out: Status, verdict: Status)
    requires
        ticked(pre, post, out),
        forall|other: Status| pre.verdicts().contains(other) ==> other == verdict,
    ensures
        pre.step(verdict) == (post, out),
{
}

/// A composite never ticks more than one child in a tick: the child under its cursor goes
/// one step and has one tick more, and every other child is afterwards what it was
/// before.
pub proof fn lemma_composite_ticks_one_child(tree: NodeView, verdict: Status)
    requires
        tree is Sequence || tree is Selector,
        tree.cursor() < tree.children().len(),
    ensures
        one_child_ticked(tree, tree.step(verdict).0),
        ({
            let at = tree.cursor() as int;
            tree.step(verdict).0.children()[at] == tree.children()[at].step(verdict).0
        }),
{
    lemma_step_counts_one_tick(tree.children()[tree.cursor() as int], verdict);
}

/// Replacing one child changes the count of `asked_below` by the difference between the
/// two children, where the child lies below `count`, and not at all where it does not.
proof fn lemma_asked_below_update(children: Seq<NodeView>, at: int, child: NodeView, count: nat)
    requires
        0 <= at < children.len(),
        count <= children.len(),
    ensures
        asked_below(children.update(at, child), count) + (if at < count {
            children[at].asked()
        } else {
            0
        }) == asked_below(children, count) + (if at < count {
            child.asked()
        } else {
            0
        }),
    decreases count,
{
    if count > 0 {
        lemma_asked_below_update(children, at, child, (count - 1) as nat);
    }
}

/// A tick asks exactly one leaf, however large the tree is.
pub proof fn lemma_step_asks_one_leaf(tree: NodeView, verdict: Status)
    requires
        tree.wf(),
    ensures
        tree.step(verdict).0.asked() == tree.asked() + 1,
    decreases tree,
{
    if !(tree is Action) {
        let at = tree.cursor() as int;
        let child = tree.children()[at];
        lemma_step_asks_one_leaf(child, verdict);
        lemma_asked_below_update(
            tree.children(),
            at,
            child.step(verdict).0,
            tree.children().len(),
        );
    }
}

/// `Running` is never dropped on its way up: when the leaf that a tick reaches is still
/// running, the root reports `Running`, and the next tick takes the same way to the same
/// leaf.
pub proof fn lemma_running_is_handed_up(tree: NodeView)
    requires
        tree.wf(),
    ensures
        tree.step(Status::Running).1 == Status::Running,
        tree.step(Status::Running).0.path() == tree.path(),
    decreases tree,
{
    if !(tree is Action) {
        lemma_running_is_handed_up(tree.children()[tree.cursor() as int]);
    }
}

/// A sequence whose child reports `Running` reports `Running` and leaves its cursor where
/// it is.
pub proof fn lemma_sequence_child_running(tree: NodeView, verdict: Status)
    requires
        tree is Sequence,
        tree.cursor() < tree.children().len(),
        tree.child_report(verdict) == Status::Running,
    ensures
        tree.step(verdict).1 == Status::Running,
        tree.step(verdict).0.cursor() == tree.cursor(),
{
}

/// A sequence whose child succeeds, and is not the last, moves its cursor on by one and
/// reports `Running`.
pub proof fn lemma_sequence_child_succeeds(tree: NodeView, verdict: Status)
    requires
        tree is Sequence,
        tree.cursor() < tree.children().len(),
        tree.child_report(verdict) == Status::Success,
        tree.cursor() + 1 < tree.children().len(),
    ensures
        tree.step(verdict).1 == Status::Running,
        tree.step(verdict).0.cursor() == tree.cursor() + 1,
{
}

/// A sequence whose last child succeeds reports `Success` and puts its cursor back to the
/// first child.
pub proof fn lemma_sequence_last_child_succeeds(tree: NodeView, verdict: Status)
    requires
        tree is Sequence,
        tree.cursor() < tree.children().len(),
        tree.child_report(verdict) == Status::Success,
        tree.cursor() + 1 == tree.children().len(),
    ensures
        tree.step(verdict).1 == Status::Success,
        tree.step(verdict).0.cursor() == 0,
{
}

/// A sequence whose child fails reports `Failure` and puts its cursor back to the first
/// child, wherever the cursor was.
pub proof fn lemma_sequence_child_fails(tree: NodeView, verdict: Status)
    requires
        tree is Sequence,
        tree.cursor() < tree.children().len(),
        tree.child_report(verdict) == Status::Failure,
    ensures
        tree.step(verdict).1 == Status::Failure,
        tree.step(verdict).0.cursor() == 0,
{
}

/// A selector whose child reports `Running` reports `Running` and leaves its cursor where
/// it is.
pub proof fn lemma_selector_child_running(tree: NodeView, verdict: Status)
    requires
        tree is Selector,
        tree.cursor() < tree.children().len(),
        tree.child_report(verdict) == Status::Running,
    ensures
        tree.step(verdict).1 == Status::Running,
        tree.step(verdict).0.cursor() == tree.cursor(),
{
}

/// A selector whose child fails, and is not the last, moves its cursor on by one and
/// reports `Running`.
pub proof fn lemma_selector_child_fails(tree: NodeView, verdict: Status)
    requires
        tree is Selector,
        tree.cursor() < tree.children().len(),
        tree.child_report(verdict) == Status::Failure,
        tree.cursor() + 1 < tree.children().len(),
    ensures
        tree.step(verdict).1 == Status::Running,
        tree.step(verdict).0.cursor() == tree.cursor() + 1,
{
}

/// A selector whose last child fails reports `Failure` and puts its cursor back to the
/// first child.
pub proof fn lemma_selector_last_child_fails(tree: NodeView, verdict: Status)
    requires
        tree is Selector,
        tree.cursor() < tree.children().len(),
        tree.child_report(verdict) == Status::Failure,
        tree.cursor() + 1 == tree.children().len(),
    ensures
        tree.step(verdict).1 == Status::Failure,
        tree.step(verdict).0.cursor() == 0,
{
}

/// A selector whose child succeeds reports `Success` and puts its cursor back to the first
/// child, wherever the cursor was.
pub proof fn lemma_selector_child_succeeds(tree: NodeView, verdict: Status)
    requires
        tree is Selector,
        tree.cursor() < tree.children().len(),
        tree.child_report(verdict) == Status::Success,
    ensures
        tree.step(verdict).1 == Status::Success,
        tree.step(verdict).0.cursor() == 0,
{
}

/// The rule of a selector is the rule of a sequence seen in a mirror: exchange success and
/// failure in what the child reports and in what the composite reports, and the one rule
/// becomes the other. The cursor moves alike in both.
pub proof fn lemma_selector_mirrors_sequence(active: nat, len: nat, child: Status)
    ensures
        selector_rule(active, len, child).0 == sequence_rule(active, len, child.mirrored()).0,
        selector_rule(active, len, child).1 == sequence_rule(
            active,
            len,
            child.mirrored(),
        ).1.mirrored(),
{
}

/// A composite hands on unchanged whatever is neither success nor failure, and leaves its
/// cursor where it is.
pub proof fn lemma_composite_passes_on(tree: NodeView, verdict: Status)
    requires
        tree is Sequence || tree is Selector,
        tree.cursor() < tree.children().len(),
        tree.child_report(verdict) != Status::Success,
        tree.child_report(verdict) != Status::Failure,
    ensures
        tree.step(verdict).1 == tree.child_report(verdict),
        tree.step(verdict).0.cursor() == tree.cursor(),
{
}

} // verus!
