//! The result of evaluating a node once.

use vstd::prelude::*;

verus! {

/// What a node reports when it is ticked.
///
/// `NeverRun` is an introspection value for a node that has not been evaluated yet. The
/// composites in this crate never produce it themselves; when a child hands it up, they
/// pass it on like `Running`, without moving their cursor.
#[derive(Clone, Copy, Debug, PartialEq, Eq, Structural)]
pub enum Status {
    NeverRun,
    Success,
    Failure,
    Running,
}

impl Status {
    /// The status with `Success` and `Failure` exchanged; the other two stay as they are.
    pub open spec fn mirrored(self) -> Status {
        match self {
            Status::Success => Status::Failure,
            Status::Failure => Status::Success,
            other => other,
        }
    }
}

} // verus!
