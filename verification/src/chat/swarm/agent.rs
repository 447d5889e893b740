//! What the agents of a turn share, and what each of them brings back.
use vstd::prelude::*;

use crate::chat::swarm::config::SubAgentRole;
use crate::chat::swarm::runtime::ResolvedSwarm;
use crate::chat::swarm::SwarmRunRecord;
use crate::config::ProfileConfig;
use crate::providers::{
    BillingLookup, ChatMessage, ChatRequest, ModelPricing, RequestMetrics, ResponseControl, Role,
};
use crate::text::{is_blank, same_ignoring_ascii_case, trim};

verus! {

broadcast use vstd::string::group_string_axioms;

/// What the check of the invariants came to.
#[derive(Debug, Clone, Copy, PartialEq, Eq, Structural)]
pub enum InvariantCheckStatus {
    NotRun,
    Passed,
    Failed,
    /// Some invariants cannot be checked by code; those that can passed. The
    /// answer is never withheld for it.
    Advisory,
    /// The check could not be made. The answer is withheld for it. The check by
    /// code never comes to this.
    Unavailable,
}

impl Default for InvariantCheckStatus {
    fn default() -> (r: Self)
        ensures
            r == InvariantCheckStatus::NotRun,
    {
        InvariantCheckStatus::NotRun
    }
}

/// What one agent brings back from a turn.
#[derive(Debug, PartialEq, Eq)]
pub struct SubAgentOutcome {
    /// The answer, where the agent is the responder.
    pub answer: Option<String>,
    /// Whether the responder's stage is complete.
    pub stage_complete: bool,
    /// The key and the value of what the stage produced.
    pub artifact: Option<(String, String)>,
    pub violations: Vec<String>,
    pub invariant_status: InvariantCheckStatus,
    /// Whether the answer ends the turn.
    pub short_circuit: bool,
    pub metrics: Option<RequestMetrics>,
}

/// Whether an outcome is that of an agent with nothing to say.
pub open spec fn idle(outcome: SubAgentOutcome) -> bool {
    &&& outcome.answer is None
    &&& quiet(outcome)
    &&& outcome.metrics is None
}

/// Whether an outcome holds at most an answer and metrics.
pub open spec fn quiet(outcome: SubAgentOutcome) -> bool {
    &&& !outcome.stage_complete
    &&& outcome.artifact is None
    &&& outcome.violations@.len() == 0
    &&& outcome.invariant_status == InvariantCheckStatus::NotRun
    &&& !outcome.short_circuit
}

impl Default for SubAgentOutcome {
    fn default() -> (r: Self)
        ensures
            idle(r),
    {
        SubAgentOutcome {
            answer: None,
            stage_complete: false,
            artifact: None,
            violations: Vec::new(),
            invariant_status: InvariantCheckStatus::NotRun,
            short_circuit: false,
            metrics: None,
        }
    }
}

impl SubAgentOutcome {
    /// The outcome of an agent that answers.
    pub fn answer(text: &str, metrics: Option<RequestMetrics>) -> (r: Self)
        ensures
            crate::text::option_text(r.answer) == Some(text@),
            quiet(r),
            r.metrics == metrics,
    {
        SubAgentOutcome { answer: Some(text.to_string()), metrics, ..SubAgentOutcome::default() }
    }
}

/// Whether a configured scope asks for the shared store.
pub open spec fn asks_shared(configured: Seq<char>) -> bool {
    let lower = crate::text::ascii_lower(configured);
    lower == crate::text::ascii_lower("shared"@) || lower == crate::text::ascii_lower("общая"@)
        || lower == crate::text::ascii_lower("общий"@)
}

/// The partition that an agent remembers in; empty for the shared store. An
/// agent without a scope of its own has the partition of its role, and the
/// general responder has the shared store.
pub open spec fn memory_scope(role: SubAgentRole, configured: Seq<char>) -> Seq<char> {
    let own = crate::text::trimmed(configured);
    if asks_shared(own) {
        Seq::empty()
    } else if own.len() > 0 {
        own
    } else if role == SubAgentRole::General {
        Seq::empty()
    } else {
        crate::chat::swarm::config::role_name(role)
    }
}

/// The partition that an agent remembers in; empty for the shared store.
pub fn effective_memory_scope(role: SubAgentRole, configured: &str) -> (r: String)
    ensures
        r@ == memory_scope(role, configured@),
{
    let configured = trim(configured);
    if same_ignoring_ascii_case(configured, "shared") || same_ignoring_ascii_case(
        configured,
        "общая",
    ) || same_ignoring_ascii_case(configured, "общий") {
        return String::new();
    }
    if !configured.is_empty() {
        return configured.to_string();
    }
    if role == SubAgentRole::General {
        return String::new();
    }
    role.as_str().to_string()
}

/// Two roles other than the general one never share a partition by default.
pub proof fn default_partitions_differ(a: SubAgentRole, b: SubAgentRole)
    requires
        a != b,
        a != SubAgentRole::General,
        b != SubAgentRole::General,
    ensures
        memory_scope(a, Seq::empty()) != memory_scope(b, Seq::empty()),
{
    crate::chat::swarm::config::role_name_is_parsed_back(a);
    crate::chat::swarm::config::role_name_is_parsed_back(b);
    reveal_strlit("shared");
    reveal_strlit("общая");
    reveal_strlit("общий");
    let empty = Seq::<char>::empty();
    assert(crate::text::trimmed(empty) == empty);
    assert(crate::text::ascii_lower(empty).len() == 0);
    assert(crate::text::ascii_lower("shared"@).len() == 6);
    assert(crate::text::ascii_lower("общая"@).len() == 5);
    assert(crate::text::ascii_lower("общий"@).len() == 5);
}

/// What the agents need to make requests.
#[derive(Debug, PartialEq, Eq)]
pub struct RequestSetup {
    pub roster: ResolvedSwarm,
    /// The main agent's profile and token: the default and the fallback.
    pub main_profile: ProfileConfig,
    pub main_token: String,
    pub control: ResponseControl,
    pub pricing: Option<ModelPricing>,
    pub billing: Option<BillingLookup>,
}

/// A request with the profile and the token to make it with.
#[derive(Debug, PartialEq, Eq)]
pub struct PreparedRequest {
    pub profile: ProfileConfig,
    pub token: String,
    pub request: ChatRequest,
}

/// Whether a role makes its requests with `profile` and `token`.
pub open spec fn responds_with(
    setup: RequestSetup,
    role: SubAgentRole,
    profile: ProfileConfig,
    token: Seq<char>,
) -> bool {
    match crate::chat::swarm::runtime::agent_for(setup.roster@, role, 0) {
        Some(i) => profile == setup.roster@[i].profile && token == setup.roster@[i].token@,
        None => profile == setup.main_profile && token == setup.main_token@,
    }
}

/// The system prompt of a service: its own, else the default.
pub open spec fn service_prompt(
    setup: RequestSetup,
    role: SubAgentRole,
    default_prompt: Seq<char>,
) -> Seq<char> {
    match crate::chat::swarm::runtime::agent_for(setup.roster@, role, 0) {
        Some(i) => if crate::text::blank(setup.roster@[i].system_prompt@) {
            default_prompt
        } else {
            setup.roster@[i].system_prompt@
        },
        None => default_prompt,
    }
}

fn clone_pricing(pricing: &Option<ModelPricing>) -> (r: Option<ModelPricing>)
    ensures
        r == *pricing,
{
    match pricing {
        Some(p) => Some(p.clone()),
        None => None,
    }
}

fn clone_billing(billing: &Option<BillingLookup>) -> (r: Option<BillingLookup>)
    ensures
        r == *billing,
{
    match billing {
        Some(b) => Some(b.clone()),
        None => None,
    }
}

impl RequestSetup {
    /// The partition that the agent of a role remembers in.
    pub fn scope_for(&self, role: SubAgentRole) -> (r: String)
        ensures
            r@ == (match crate::chat::swarm::runtime::agent_for(self.roster@, role, 0) {
                Some(i) => memory_scope(role, self.roster@[i].memory_scope@),
                None => memory_scope(role, Seq::empty()),
            }),
    {
        match self.roster.for_role(role) {
            Some(agent) => effective_memory_scope(role, agent.memory_scope.as_str()),
            None => {
                let none = String::new();
                assert(none@ =~= Seq::<char>::empty());
                effective_memory_scope(role, none.as_str())
            },
        }
    }

    /// The profile and the token that a responder answers with.
    pub fn responder_profile(&self, role: SubAgentRole) -> (r: (ProfileConfig, String))
        ensures
            responds_with(*self, role, r.0, r.1@),
    {
        match self.roster.for_role(role) {
            Some(agent) => (agent.profile.clone(), agent.token.clone()),
            None => (self.main_profile.clone(), self.main_token.clone()),
        }
    }

    /// The request of a service: its system prompt and the user content.
    pub fn sub_request(
        &self,
        role: SubAgentRole,
        default_prompt: &str,
        user_content: String,
        control: ResponseControl,
    ) -> (r: PreparedRequest)
        ensures
            responds_with(*self, role, r.profile, r.token@),
            r.request.model == r.profile.model,
            crate::providers::message_views(r.request.messages@) == seq![
                (Role::System, service_prompt(*self, role, default_prompt@)),
                (Role::User, user_content@),
            ],
            r.request.control == control,
            r.request.pricing == self.pricing,
            r.request.billing == self.billing,
    {
        let (profile, token) = self.responder_profile(role);
        let system_prompt = match self.roster.for_role(role) {
            Some(agent) => if is_blank(agent.system_prompt.as_str()) {
                default_prompt.to_string()
            } else {
                agent.system_prompt.clone()
            },
            None => default_prompt.to_string(),
        };
        let mut messages: Vec<ChatMessage> = Vec::new();
        messages.push(ChatMessage { role: Role::System, content: system_prompt });
        messages.push(ChatMessage { role: Role::User, content: user_content });
        assert(crate::providers::message_views(messages@) =~= seq![
            (Role::System, service_prompt(*self, role, default_prompt@)),
            (Role::User, user_content@),
        ]);
        let request = ChatRequest {
            model: profile.model.clone(),
            messages,
            control,
            pricing: clone_pricing(&self.pricing),
            billing: clone_billing(&self.billing),
        };
        PreparedRequest { profile, token, request }
    }

    /// The request of a responder with the messages `messages`.
    pub fn responder_request(
        &self,
        role: SubAgentRole,
        messages: Vec<ChatMessage>,
        control: ResponseControl,
    ) -> (r: PreparedRequest)
        ensures
            responds_with(*self, role, r.profile, r.token@),
            r.request.model == r.profile.model,
            r.request.messages == messages,
            r.request.control == control,
            r.request.pricing == self.pricing,
            r.request.billing == self.billing,
    {
        let (profile, token) = self.responder_profile(role);
        let request = ChatRequest {
            model: profile.model.clone(),
            messages,
            control,
            pricing: clone_pricing(&self.pricing),
            billing: clone_billing(&self.billing),
        };
        PreparedRequest { profile, token, request }
    }
}

/// The record of a service's request, from the metrics of its reply.
pub fn service_record(role: SubAgentRole, model: &str, metrics: Option<RequestMetrics>) -> (r:
    SwarmRunRecord)
    ensures
        crate::chat::swarm::tells(r, role, model@, metrics, "no response"@, None),
{
    SwarmRunRecord::finished(role, model, metrics, "no response")
}

/// Where a role keeps its memory: in the partition it is configured with; in the
/// shared store where that is asked for; and otherwise in a partition of its own
/// name, but for the general agent, which shares.
pub proof fn roles_keep_their_own_memory(role: SubAgentRole, configured: Seq<char>)
    ensures
        crate::text::blank(configured) && role != SubAgentRole::General ==> memory_scope(
            role,
            configured,
        ) == crate::chat::swarm::config::role_name(role),
        crate::text::blank(configured) ==> memory_scope(SubAgentRole::General, configured).len()
            == 0,
        !crate::text::blank(configured) && !asks_shared(crate::text::trimmed(configured))
            ==> memory_scope(role, configured) == crate::text::trimmed(configured),
        asks_shared("shared"@) && memory_scope(role, "shared"@).len() == 0,
        asks_shared("общая"@) && memory_scope(role, "общая"@).len() == 0,
        asks_shared("SHARED"@) && memory_scope(role, "SHARED"@).len() == 0,
{
    reveal_strlit("shared");
    reveal_strlit("SHARED");
    reveal_strlit("общая");
    reveal_strlit("общий");
    crate::text::lemma_trimmed_already("shared"@);
    crate::text::lemma_trimmed_already("SHARED"@);
    crate::text::lemma_trimmed_already("общая"@);
    assert(crate::text::ascii_lower("SHARED"@) =~= crate::text::ascii_lower("shared"@));
    if crate::text::blank(configured) {
        let none = crate::text::trimmed(configured);
        assert(none.len() == 0);
        assert(crate::text::ascii_lower(none).len() == 0);
        assert(crate::text::ascii_lower("shared"@).len() == 6);
        assert(crate::text::ascii_lower("общая"@).len() == 5);
        assert(crate::text::ascii_lower("общий"@).len() == 5);
    }
}

/// A role that is set up answers with its own profile and token, a role that is
/// not with those of the main agent.
pub proof fn roles_answer_as_they_are_set_up(
    setup: RequestSetup,
    role: SubAgentRole,
    profile: ProfileConfig,
    token: Seq<char>,
    i: int,
)
    requires
        responds_with(setup, role, profile, token),
        0 <= i <= setup.roster@.len(),
        i < setup.roster@.len() ==> setup.roster@[i].role == role,
        forall|j: int| 0 <= j < i ==> (#[trigger] setup.roster@[j]).role != role,
    ensures
        i < setup.roster@.len() ==> profile == setup.roster@[i].profile && token
            == setup.roster@[i].token@,
        i == setup.roster@.len() ==> profile == setup.main_profile && token == setup.main_token@,
{
    crate::chat::swarm::runtime::the_first_agent_of_a_role_counts(setup.roster@, role, 0, i);
}

/// A service asks with the prompt that is configured for it, else with the one
/// that it has by itself.
pub proof fn services_ask_with_their_prompt(
    setup: RequestSetup,
    role: SubAgentRole,
    default_prompt: Seq<char>,
    i: int,
)
    requires
        0 <= i <= setup.roster@.len(),
        i < setup.roster@.len() ==> setup.roster@[i].role == role,
        forall|j: int| 0 <= j < i ==> (#[trigger] setup.roster@[j]).role != role,
    ensures
        i == setup.roster@.len() ==> service_prompt(setup, role, default_prompt) == default_prompt,
        i < setup.roster@.len() && crate::text::blank(setup.roster@[i].system_prompt@)
            ==> service_prompt(setup, role, default_prompt) == default_prompt,
        i < setup.roster@.len() && !crate::text::blank(setup.roster@[i].system_prompt@)
            ==> service_prompt(setup, role, default_prompt) == setup.roster@[i].system_prompt@,
{
    crate::chat::swarm::runtime::the_first_agent_of_a_role_counts(setup.roster@, role, 0, i);
}

} // verus!
