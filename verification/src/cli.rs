//! What the command line asks the program to do.
use vstd::prelude::*;

verus! {

#[derive(Debug, Clone, Copy, PartialEq, Eq, Structural)]
pub enum CommandAction {
    RunTui,
    Update,
    Check,
}

} // verus!
