//! The command line: what it asks for, what is read at its prompts, and what it
//! prints.
use vstd::prelude::*;

pub mod args;
pub mod commands;
pub mod input;
pub mod pricing;
pub mod profile_input;

verus! {

} // verus!
