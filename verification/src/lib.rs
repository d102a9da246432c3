//! Device-triggered process manager: the decisions behind it.

use vstd::prelude::*;

pub mod api;
pub mod cli;
pub mod clock;
pub mod discovery;
pub mod engine;
pub mod json;
pub mod mask;
pub mod name_map;
pub mod order;
pub mod registry;
pub mod seqs;
pub mod text;
pub mod tui;
pub mod udev_rule;

verus! {

} // verus!
