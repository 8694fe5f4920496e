//! Why a tree could not be built.

use vstd::prelude::*;

verus! {

/// Why a composite was not built.
#[derive(Clone, Copy, Debug, PartialEq, Eq, Structural)]
pub enum BuildError {
    /// A composite needs at least one child.
    NoChildren,
}

} // verus!
