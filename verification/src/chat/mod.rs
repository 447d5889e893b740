//! The chat: its tasks, its memory, its token accounting and the swarm that
//! answers.
use vstd::prelude::*;

pub mod memory;
pub mod store;
pub mod swarm;
pub mod token_accounting;

verus! {

/// How a chat decides that the goal of the dialogue is reached.
#[derive(Debug, Clone, Copy, PartialEq, Eq, Structural)]
pub enum ConversationStopMode {
    Manual,
    State,
    Instruction,
    Combined,
}

/// The goal of a dialogue: the fields to be filled and who says that they are.
#[derive(Debug, PartialEq, Eq)]
pub struct ConversationGoal {
    pub required_fields: Vec<String>,
    pub mode: ConversationStopMode,
}

} // verus!
