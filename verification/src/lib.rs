use vstd::prelude::*;

pub mod app;
pub mod cache;
pub mod cli;
pub mod delta;
pub mod display;
pub mod git_ops;
pub mod layout;
pub mod github;
pub mod logging;
pub mod models;
pub mod paths;
pub mod readme;
pub mod self_update;
pub mod text;
pub mod tree;
pub mod workflow;

verus! {
} // verus!
