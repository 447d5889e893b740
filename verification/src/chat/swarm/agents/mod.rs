//! The agents of the swarm and the prompts that they begin with.
use vstd::prelude::*;

use crate::chat::memory::{DEFAULT_SUMMARY_PROMPT, DEFAULT_TOPIC_CLASSIFIER_PROMPT};
use crate::chat::swarm::config::SubAgentRole;

pub mod responder;
pub mod service;

verus! {

broadcast use vstd::string::group_string_axioms;

/// The system prompt of the agent that fills the profile.
pub const DEFAULT_PROFILE_FILL_PROMPT: &'static str = "You extract profile field values from a user message. Only return values the user actually stated. Reply with a JSON object mapping field keys to string values; omit fields not mentioned. No prose.";

/// The prompt of a role without one of its own; empty where it has none.
pub open spec fn role_prompt(role: SubAgentRole) -> Seq<char> {
    match role {
        SubAgentRole::Planning
        | SubAgentRole::Execution
        | SubAgentRole::Validation
        | SubAgentRole::Done => responder::rules_of(role)->0,
        SubAgentRole::Summary => DEFAULT_SUMMARY_PROMPT@,
        SubAgentRole::Topic => DEFAULT_TOPIC_CLASSIFIER_PROMPT@,
        SubAgentRole::Profile => DEFAULT_PROFILE_FILL_PROMPT@,
        SubAgentRole::Memory => "Извлекает факты из сообщения и раскладывает по слоям памяти. Если промт пуст — работает локально, без LLM."@,
        SubAgentRole::General => "Обычный ответчик для чата без активной задачи: помогает пользователю напрямую."@,
        SubAgentRole::Invariant | SubAgentRole::Worker | SubAgentRole::Task => Seq::empty(),
    }
}

/// The prompt of a role without one of its own; empty where it has none.
pub fn default_role_prompt(role: SubAgentRole) -> (r: &'static str)
    ensures
        r@ == role_prompt(role),
{
    match role {
        SubAgentRole::Planning
        | SubAgentRole::Execution
        | SubAgentRole::Validation
        | SubAgentRole::Done => match responder::stage_rules(role) {
            Some(rules) => rules,
            None => "",
        },
        SubAgentRole::Summary => DEFAULT_SUMMARY_PROMPT,
        SubAgentRole::Topic => DEFAULT_TOPIC_CLASSIFIER_PROMPT,
        SubAgentRole::Profile => DEFAULT_PROFILE_FILL_PROMPT,
        SubAgentRole::Memory => {
            "Извлекает факты из сообщения и раскладывает по слоям памяти. Если промт пуст — работает локально, без LLM."
        },
        SubAgentRole::General => {
            "Обычный ответчик для чата без активной задачи: помогает пользователю напрямую."
        },
        SubAgentRole::Invariant | SubAgentRole::Worker | SubAgentRole::Task => {
            proof {
                reveal_strlit("");
                assert(""@ =~= Seq::<char>::empty());
            }
            ""
        },
    }
}

} // verus!
