//! The mathematical model of a behavior tree and of one tick.
//!
//! A tree is a [`NodeView`]. A tick walks from the root along the cursors of the composites
//! until it reaches a leaf, asks that leaf for its verdict, and lets every composite on the
//! way back apply its rule to what its child reported. Once the verdict of that one leaf is
//! fixed, the whole tick is a function: [`NodeView::step`].

use vstd::prelude::*;
use crate::status::Status;

verus! {

/// What a sequence does with the status of the child under its cursor: the new cursor and
/// the status it reports itself.
///
/// A success moves the cursor on, or completes the sequence at the last child. A failure
/// aborts the attempt. Both completion and abort put the cursor back to the first child at
/// once, so that the next tick begins a new attempt from the start. Anything else is
/// handed up unchanged and leaves the cursor where it is.
pub open spec fn sequence_rule(active: nat, len: nat, child: Status) -> (nat, Status) {
    match child {
        Status::Success => if active + 1 < len {
            ((active + 1) as nat, Status::Running)
        } else {
            (0, Status::Success)
        },
        Status::Failure => (0, Status::Failure),
        _ => (active, child),
    }
}

/// What a selector does with the status of the child under its cursor: the rule of a
/// sequence with the roles of success and failure exchanged.
///
/// A failure moves the cursor on to the next alternative, or fails the selector at the
/// last one. A success ends the attempt. Both put the cursor back to the first child at
/// once. Anything else is handed up unchanged and leaves the cursor where it is.
pub open spec fn selector_rule(active: nat, len: nat, child: Status) -> (nat, Status) {
    match child {
        Status::Failure => if active + 1 < len {
            ((active + 1) as nat, Status::Running)
        } else {
            (0, Status::Failure)
        },
        Status::Success => (0, Status::Success),
        _ => (active, child),
    }
}

/// A behavior tree as a mathematical value.
///
/// `ticks` counts how often the node itself has been ticked. It is not needed to run a
/// tree; it is what lets a contract say that a tick reached one child and no other.
pub enum NodeView {
    /// A leaf: `verdicts` holds every status that its decision function may return.
    Action { verdicts: Set<Status>, ticks: nat },
    /// AND-composition: `active` is the index of the child that the next tick goes to.
    Sequence { children: Seq<NodeView>, active: nat, ticks: nat },
    /// OR-composition: `active` is the index of the child that the next tick goes to.
    Selector { children: Seq<NodeView>, active: nat, ticks: nat },
}

impl NodeView {
    /// Every composite in the tree has at least one child and a cursor that points at one
    /// of its children.
    pub open spec fn wf(self) -> bool
        decreases self,
    {
        &&& self is Action || self.cursor() < self.children().len()
        &&& forall|i: int|
            0 <= i < self.children().len() ==> (#[trigger] self.children()[i]).wf()
    }

    /// The children of a composite, in their order; a leaf has none.
    pub open spec fn children(self) -> Seq<NodeView> {
        match self {
            NodeView::Action { .. } => Seq::empty(),
            NodeView::Sequence { children, .. } => children,
            NodeView::Selector { children, .. } => children,
        }
    }

    /// The index of the child that the next tick goes to; 0 for a leaf.
    pub open spec fn cursor(self) -> nat {
        match self {
            NodeView::Action { .. } => 0,
            NodeView::Sequence { active, .. } => active,
            NodeView::Selector { active, .. } => active,
        }
    }

    /// How often this node has been ticked.
    pub open spec fn ticks(self) -> nat {
        match self {
            NodeView::Action { ticks, .. } => ticks,
            NodeView::Sequence { ticks, .. } => ticks,
            NodeView::Selector { ticks, .. } => ticks,
        }
    }

    /// How often the leaves of the tree have been asked, all of them together.
    pub open spec fn asked(self) -> nat
        decreases self,
    {
        match self {
            NodeView::Action { ticks, .. } => ticks,
            _ => asked_below(self.children(), self.children().len()),
        }
    }

    /// The way of the next tick: the cursors of the composites from the root down to the
    /// leaf that the tick reaches.
    pub open spec fn path(self) -> Seq<nat>
        decreases self,
    {
        if self.cursor() < self.children().len() {
            seq![self.cursor()] + self.children()[self.cursor() as int].path()
        } else {
            Seq::empty()
        }
    }

    /// The statuses that the next tick may get from the leaf it reaches.
    pub open spec fn verdicts(self) -> Set<Status>
        decreases self,
    {
        match self {
            NodeView::Action { verdicts, .. } => verdicts,
            _ => if self.cursor() < self.children().len() {
                self.children()[self.cursor() as int].verdicts()
            } else {
                Set::empty()
            },
        }
    }

    /// What the child under the cursor of a composite reports when the tick that reaches it
    /// gets `verdict` from its leaf.
    pub open spec fn child_report(self, verdict: Status) -> Status {
        self.children()[self.cursor() as int].step(verdict).1
    }

    /// One tick, given the verdict of the leaf that it reaches: the tree afterwards and the
    /// status that the root reports.
    ///
    /// Of a composite, exactly the child under the cursor takes a step. A composite whose
    /// cursor points at no child is not well formed; it counts the tick and does nothing
    /// else.
    pub open spec fn step(self, verdict: Status) -> (NodeView, Status)
        decreases self,
    {
        match self {
            NodeView::Action { verdicts, ticks } => (
                NodeView::Action { verdicts, ticks: ticks + 1 },
                verdict,
            ),
            NodeView::Sequence { children, active, ticks } => {
                if active < children.len() {
                    let (child, reported) = children[active as int].step(verdict);
                    let (next, out) = sequence_rule(active, children.len(), reported);
                    (
                        NodeView::Sequence {
                            children: children.update(active as int, child),
                            active: next,
                            ticks: ticks + 1,
                        },
                        out,
                    )
                } else {
                    (NodeView::Sequence { children, active, ticks: ticks + 1 }, verdict)
                }
            },
            NodeView::Selector { children, active, ticks } => {
                if active < children.len() {
                    let (child, reported) = children[active as int].step(verdict);
                    let (next, out) = selector_rule(active, children.len(), reported);
                    (
                        NodeView::Selector {
                            children: children.update(active as int, child),
                            active: next,
                            ticks: ticks + 1,
                        },
                        out,
                    )
                } else {
                    (NodeView::Selector { children, active, ticks: ticks + 1 }, verdict)
                }
            },
        }
    }
}

/// How often the leaves under the first `count` of `children` have been asked.
pub open spec fn asked_below(children: Seq<NodeView>, count: nat) -> nat
    decreases children, count,
{
    if 0 < count <= children.len() {
        asked_below(children, (count - 1) as nat) + children[count - 1].asked()
    } else {
        0
    }
}

/// Between `pre` and `post`, a composite has ticked the child under its cursor, once, and
/// no other child: that child has one tick more, and every other child is what it was.
pub open spec fn one_child_ticked(pre: NodeView, post: NodeView) -> bool {
    let at = pre.cursor() as int;
    &&& at < pre.children().len()
    &&& post.children().len() == pre.children().len()
    &&& post.children()[at].ticks() == pre.children()[at].ticks() + 1
    &&& forall|i: int|
        0 <= i < pre.children().len() && i != at ==> #[trigger] post.children()[i]
            == pre.children()[i]
}

/// `post` and `out` are a possible outcome of ticking `pre` once: the leaf that the tick
/// reached returned one of its verdicts, and the tree went the step that belongs to it.
pub open spec fn ticked(pre: NodeView, post: NodeView, out: Status) -> bool {
    exists|verdict: Status|
        #![trigger pre.step(verdict)]
        pre.verdicts().contains(verdict) && pre.step(verdict) == (post, out)
}

} // verus!
