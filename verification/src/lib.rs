//! A behavior-tree engine: trees of decision nodes that are evaluated one tick at a time.
//!
//! A tree is built from [`Action`] leaves and from the composites [`Sequence`] and
//! [`Selector`], and handed to a [`BehaviorTree`]. Each call of `tick` evaluates one leaf,
//! the one that the cursors of the composites lead to, and reports a [`Status`]. What a
//! tick does is stated over the mathematical model in [`model`]; what follows from it for
//! every tree is proved in [`laws`].

pub mod action;
pub mod basic;
pub mod decide;
pub mod error;
pub mod laws;
pub mod model;
pub mod node;
pub mod selector;
pub mod sequence;
pub mod status;
pub mod tree;

pub use crate::action::Action;
pub use crate::basic::{always_fail, always_succeed, create_basic_bt, Constant};
pub use crate::decide::Decide;
pub use crate::error::BuildError;
pub use crate::node::{Node, TreeNode};
pub use crate::selector::{selector_transition, Selector};
pub use crate::sequence::{sequence_transition, Sequence};
pub use crate::status::Status;
pub use crate::tree::{tick_all, BehaviorTree};
