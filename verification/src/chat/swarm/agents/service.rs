//! The services around an answer: facts, summaries, the profile, the invariants
//! and the topics. Each decides what to ask a provider for and what to make of
//! the reply.
use vstd::prelude::*;

use crate::chat::memory::{
    AgentMemory, Fact, MemoryConfig, MemoryStrategy, SummaryRange, TopicRouteDecision,
    DEFAULT_SUMMARY_PROMPT, DEFAULT_TOPIC_CLASSIFIER_PROMPT,
};
use crate::chat::store::{AgentProfile, ProfileField};
use crate::chat::swarm::agent::{InvariantCheckStatus, SubAgentOutcome};
use crate::chat::swarm::config::SubAgentRole;
use crate::chat::swarm::runtime::ResolvedSwarm;
use crate::json::object_json;
use crate::providers::{ChatMessage, Float32, RequestMetrics};
use crate::text::{cat5, is_blank, join, same, trim};
use crate::text_map::TextMap;

verus! {

broadcast use vstd::string::group_string_axioms;

/// The agent that gathers facts.
#[derive(Debug, Clone, Copy, PartialEq, Eq, Structural)]
pub struct MemoryAgent;

/// The agent that sums up what is old.
#[derive(Debug, Clone, Copy, PartialEq, Eq, Structural)]
pub struct SummaryAgent;

/// The agent that fills the profile.
#[derive(Debug, Clone, Copy, PartialEq, Eq, Structural)]
pub struct ProfileAgent;

/// The check of an answer against the invariants.
#[derive(Debug, Clone, Copy, PartialEq, Eq, Structural)]
pub struct InvariantAgent;

/// The agent that routes a message to a topic.
#[derive(Debug, Clone, Copy, PartialEq, Eq, Structural)]
pub struct TopicAgent;

/// The entries of a store of facts.
pub open spec fn fact_texts(facts: TextMap<String>) -> Seq<(Seq<char>, Seq<char>)> {
    Seq::new(facts@.len(), |i: int| (facts@[i].0, facts@[i].1@))
}

/// The JSON text of a store of facts.
pub open spec fn known_facts_text(facts: TextMap<String>) -> Seq<char> {
    match crate::json::json_object_text(fact_texts(facts)) {
        Some(text) => text,
        None => "{}"@,
    }
}

/// The JSON text of the facts that an agent knows: of its partition, or of the
/// shared store.
pub open spec fn scope_facts_text(memory: AgentMemory, scope: Seq<char>) -> Seq<char> {
    if crate::text::blank(scope) {
        known_facts_text(memory.facts)
    } else if memory.partitions.map().dom().contains(scope) {
        known_facts_text(memory.partitions.map()[scope].facts)
    } else {
        "null"@
    }
}

fn known_facts(facts: &TextMap<String>) -> (r: String)
    ensures
        r@ == known_facts_text(*facts),
{
    let mut pairs: Vec<(String, String)> = Vec::new();
    let n: usize = facts.len();
    let mut i: usize = 0;
    while i < n
        invariant
            n == facts@.len(),
            i <= n,
            pairs@.len() == i,
            forall|j: int|
                0 <= j < i ==> (#[trigger] pairs@[j]).0@ == facts@[j].0 && pairs@[j].1@
                    == facts@[j].1@,
        decreases n - i,
    {
        pairs.push((facts.key_at(i).clone(), facts.value_at(i).clone()));
        i = i + 1;
    }
    assert(crate::json::pair_texts(pairs@) =~= fact_texts(*facts));
    match object_json(pairs) {
        Some(text) => text,
        None => "{}".to_string(),
    }
}

/// What the extraction of facts is asked with.
pub open spec fn facts_question(existing: Seq<char>, prompt: Seq<char>) -> Seq<char> {
    "Existing facts JSON:\n"@ + existing + "\n\nLatest user message:\n"@ + prompt
        + "\n\nReturn JSON object with fact updates only. When the user states a new value for a fact that already has a key (e.g. a new location), OVERWRITE it with the new value."@
}

/// The prompt of the extraction of facts: the role's own, else the one of the
/// memory configuration.
pub open spec fn facts_prompt_of(roster: ResolvedSwarm, config: MemoryConfig) -> Seq<char> {
    let own = match crate::chat::swarm::runtime::agent_for(roster@, SubAgentRole::Memory, 0) {
        Some(i) => crate::text::trimmed(roster@[i].system_prompt@),
        None => Seq::empty(),
    };
    if own.len() > 0 {
        own
    } else {
        crate::text::trimmed(config.facts_extraction_prompt@)
    }
}

impl MemoryAgent {
    /// The prompt of the extraction; an empty one means that facts are found
    /// without a request.
    pub fn extraction_prompt(roster: &ResolvedSwarm, config: &MemoryConfig) -> (r: String)
        ensures
            r@ == facts_prompt_of(*roster, *config),
    {
        let own = match roster.for_role(SubAgentRole::Memory) {
            Some(agent) => trim(agent.system_prompt.as_str()).to_string(),
            None => {
                let none = String::new();
                assert(none@ =~= Seq::<char>::empty());
                none
            },
        };
        if !own.as_str().is_empty() {
            own
        } else {
            trim(config.facts_extraction_prompt.as_str()).to_string()
        }
    }

    /// What the provider is asked: the facts known in `scope` and the prompt.
    pub fn question(memory: &AgentMemory, scope: &str, prompt: &str) -> (r: String)
        ensures
            r@ == facts_question(scope_facts_text(*memory, scope@), prompt@),
    {
        let existing = if AgentMemory::is_scoped(scope) {
            match memory.partition(scope) {
                Some(partition) => known_facts(&partition.facts),
                None => "null".to_string(),
            }
        } else {
            known_facts(&memory.facts)
        };
        cat5(
            "Existing facts JSON:\n",
            existing.as_str(),
            "\n\nLatest user message:\n",
            prompt,
            "\n\nReturn JSON object with fact updates only. When the user states a new value for a fact that already has a key (e.g. a new location), OVERWRITE it with the new value.",
        )
    }

    /// Stores what was learned in a turn: the facts of the reply where it could
    /// be read, else those that code finds in the prompt. They go to the
    /// partition of `scope`, or to the shared store.
    pub fn learn(
        memory: &mut AgentMemory,
        scope: &str,
        extracted: &Option<Vec<Fact>>,
        found_locally: &Vec<Fact>,
    )
        ensures
            learned(
                *old(memory),
                *final(memory),
                scope@,
                if extracted is Some {
                    extracted->0@
                } else {
                    found_locally@
                },
            ),
    {
        let facts = match extracted {
            Some(facts) => facts,
            None => found_locally,
        };
        if AgentMemory::is_scoped(scope) {
            if !facts.is_empty() {
                memory.merge_partition_facts(scope, facts);
            }
        } else {
            memory.merge_shared_facts(facts);
        }
    }
}

/// `b` is `a` after it learned `facts` in `scope`: nothing else has changed.
pub open spec fn learned(
    a: AgentMemory,
    b: AgentMemory,
    scope: Seq<char>,
    facts: Seq<Fact>,
) -> bool {
    if crate::text::blank(scope) {
        &&& b.facts.map() == crate::chat::memory::with_facts(a.facts.map(), facts)
        &&& b.fact_layers.map() == crate::chat::memory::with_layers(a.fact_layers.map(), facts)
        &&& b == (AgentMemory { facts: b.facts, fact_layers: b.fact_layers, ..a })
    } else if facts.len() == 0 {
        b == a
    } else {
        &&& crate::chat::memory::only_scope_changed(a, b, scope)
        &&& b.partitions.map().dom().contains(scope)
        &&& crate::chat::memory::scope_facts(b, scope) == crate::chat::memory::with_facts(
            crate::chat::memory::scope_facts(a, scope),
            facts,
        )
        &&& crate::chat::memory::scope_layers(b, scope) == crate::chat::memory::with_layers(
            crate::chat::memory::scope_layers(a, scope),
            facts,
        )
        &&& crate::chat::memory::scope_summary(b, scope) == crate::chat::memory::scope_summary(
            a,
            scope,
        )
        &&& crate::chat::memory::scope_summarized(b, scope)
            == crate::chat::memory::scope_summarized(a, scope)
    }
}

/// What a private agent learns stays private: the shared store and every other
/// partition keep their facts.
pub proof fn learned_facts_stay_private(
    before: AgentMemory,
    after: AgentMemory,
    scope: Seq<char>,
    facts: Seq<Fact>,
    other: Seq<char>,
)
    requires
        !crate::text::blank(scope),
        learned(before, after, scope, facts),
        other != scope,
    ensures
        after.facts == before.facts,
        after.fact_layers == before.fact_layers,
        crate::chat::memory::scope_facts(after, other) == crate::chat::memory::scope_facts(
            before,
            other,
        ),
{
    crate::chat::memory::partitions_are_isolated(before, after, scope, other);
}

/// What a summary is asked with.
pub open spec fn summary_question(previous: Option<Seq<char>>, fragment: Seq<char>) -> Seq<char> {
    "Previous memory summary:\n"@ + (match previous {
        Some(text) => text,
        None => "No previous summary."@,
    }) + "\n\nNew chat fragment to merge:\n"@ + fragment
        + "\n\nReturn the updated memory summary."@
}

/// The summary that an agent has so far.
pub open spec fn previous_summary(memory: AgentMemory, scope: Seq<char>) -> Option<Seq<char>> {
    if crate::text::blank(scope) {
        crate::text::option_text(memory.session_summary)
    } else {
        crate::chat::memory::scope_summary(memory, scope)
    }
}

/// How many messages an agent has summarized.
pub open spec fn summarized_count(memory: AgentMemory, scope: Seq<char>) -> int {
    if crate::text::blank(scope) {
        memory.summarized_message_count as int
    } else {
        crate::chat::memory::scope_summarized(memory, scope)
    }
}

/// Whether `b` differs from `a` at most in what `scope` has summed up.
pub open spec fn only_summary_of(a: AgentMemory, b: AgentMemory, scope: Seq<char>) -> bool {
    if crate::text::blank(scope) {
        b == (AgentMemory {
            session_summary: b.session_summary,
            summarized_message_count: b.summarized_message_count,
            ..a
        })
    } else {
        &&& crate::chat::memory::only_scope_changed(a, b, scope)
        &&& crate::chat::memory::scope_facts(a, scope) == crate::chat::memory::scope_facts(
            b,
            scope,
        )
        &&& crate::chat::memory::scope_layers(a, scope) == crate::chat::memory::scope_layers(
            b,
            scope,
        )
    }
}

/// What a summary asks a provider for.
#[derive(Debug, PartialEq, Eq)]
pub struct SummaryQuestion {
    pub system_prompt: String,
    pub user_content: String,
}

impl SummaryAgent {
    /// The messages that the next summary takes in.
    pub fn range(
        memory: &AgentMemory,
        history: &Vec<ChatMessage>,
        config: &MemoryConfig,
        scope: &str,
    ) -> (r: Option<SummaryRange>)
        ensures
            match r {
                Some(range) => crate::chat::memory::summary_range(
                    summarized_count(*memory, scope@),
                    history@.len() as int,
                    *config,
                ) == Some((range.start as int, range.end as int)) && range.start < range.end
                    <= history@.len(),
                None => crate::chat::memory::summary_range(
                    summarized_count(*memory, scope@),
                    history@.len() as int,
                    *config,
                ) is None,
            },
    {
        if AgentMemory::is_scoped(scope) {
            memory.next_summary_range_scoped(scope, history, config)
        } else {
            memory.next_summary_range(history, config)
        }
    }

    /// What to ask for the messages of a range, written as `fragment`. An empty
    /// fragment counts as summarized and asks for nothing.
    pub fn question(
        memory: &mut AgentMemory,
        scope: &str,
        range: SummaryRange,
        fragment: &str,
        config: &MemoryConfig,
    ) -> (r: Option<SummaryQuestion>)
        ensures
            if crate::text::blank(fragment@) {
                &&& r is None
                &&& summarized_count(*final(memory), scope@) == range.end
                &&& previous_summary(*final(memory), scope@) == previous_summary(
                    *old(memory),
                    scope@,
                )
                &&& only_summary_of(*old(memory), *final(memory), scope@)
            } else {
                &&& *final(memory) == *old(memory)
                &&& r matches Some(q) && q.user_content@ == summary_question(
                    previous_summary(*old(memory), scope@),
                    fragment@,
                ) && q.system_prompt@ == (if crate::text::blank(config.summary_prompt@) {
                    DEFAULT_SUMMARY_PROMPT@
                } else {
                    crate::text::trimmed(config.summary_prompt@)
                })
            },
    {
        let scoped = AgentMemory::is_scoped(scope);
        if is_blank(fragment) {
            if scoped {
                memory.mark_summarized_scoped(scope, range.end);
            } else {
                memory.summarized_message_count = range.end;
            }
            return None;
        }
        let previous = if scoped {
            match memory.partition(scope) {
                Some(partition) => crate::text::clone_option(&partition.session_summary),
                None => None,
            }
        } else {
            crate::text::clone_option(&memory.session_summary)
        };
        let previous = match previous {
            Some(text) => text,
            None => "No previous summary.".to_string(),
        };
        let system_prompt = if is_blank(config.summary_prompt.as_str()) {
            DEFAULT_SUMMARY_PROMPT.to_string()
        } else {
            trim(config.summary_prompt.as_str()).to_string()
        };
        let user_content = cat5(
            "Previous memory summary:\n",
            previous.as_str(),
            "\n\nNew chat fragment to merge:\n",
            fragment,
            "\n\nReturn the updated memory summary.",
        );
        Some(SummaryQuestion { system_prompt, user_content })
    }

    /// Stores the summary of a reply, and that it takes in the range. A missing
    /// or empty reply leaves the memory as it is. Returns whether it was
    /// stored.
    pub fn store(
        memory: &mut AgentMemory,
        scope: &str,
        range: SummaryRange,
        reply: Option<&str>,
    ) -> (r: bool)
        ensures
            r == (reply matches Some(text) && !crate::text::blank(text@)),
            !r ==> *final(memory) == *old(memory),
            r ==> summarized_count(*final(memory), scope@) == range.end && previous_summary(
                *final(memory),
                scope@,
            ) == Some(crate::text::trimmed(reply->0@)) && only_summary_of(
                *old(memory),
                *final(memory),
                scope@,
            ),
    {
        let text = match reply {
            Some(text) => trim(text),
            None => {
                return false;
            },
        };
        if text.is_empty() {
            return false;
        }
        if AgentMemory::is_scoped(scope) {
            memory.set_summary_scoped(scope, text, range.end);
        } else {
            memory.session_summary = Some(text.to_string());
            memory.summarized_message_count = range.end;
        }
        true
    }
}

/// A field as it stands in the question that fills the profile.
pub open spec fn field_line(field: ProfileField) -> Seq<char> {
    "- "@ + field.key@ + " (question: "@ + crate::text::trimmed(field.question@) + ")"@
}

/// The fields as they stand in the question that fills the profile.
pub open spec fn field_lines(fields: Seq<ProfileField>) -> Seq<Seq<char>> {
    Seq::new(fields.len(), |i: int| field_line(fields[i]))
}

/// What the profile is filled with.
pub open spec fn profile_question(fields: Seq<ProfileField>, prompt: Seq<char>) -> Seq<char> {
    "Profile fields:\n"@ + crate::text::joined(field_lines(fields), "\n"@) + "\n\nUser message:\n"@
        + prompt + "\n\nReturn JSON of {key: value} for fields the user just provided."@
}

/// The first field with the key `key`, from `from` on.
pub open spec fn field_index(fields: Seq<ProfileField>, key: Seq<char>, from: int) -> Option<int>
    decreases fields.len() - from,
{
    if from < 0 || from >= fields.len() {
        None
    } else if fields[from].key@ == key {
        Some(from)
    } else {
        field_index(fields, key, from + 1)
    }
}

/// The keys and the values of fields.
pub open spec fn field_values(fields: Seq<ProfileField>) -> Seq<Seq<char>> {
    Seq::new(fields.len(), |i: int| fields[i].value@)
}

/// Whether only the values of fields differ.
pub open spec fn same_questions(a: Seq<ProfileField>, b: Seq<ProfileField>) -> bool {
    a.len() == b.len() && forall|i: int|
        0 <= i < a.len() ==> (#[trigger] a[i]).key == b[i].key && a[i].question == b[i].question
            && a[i].required == b[i].required
}

/// One value that a reply gives for the profile.
#[derive(Debug, PartialEq, Eq)]
pub struct ProfileUpdate {
    pub key: String,
    pub value: String,
    /// Whether the value looks like a secret.
    pub sensitive: bool,
}

/// Whether an update is taken over: it has a value that is no secret, and a
/// field.
pub open spec fn taken_over(fields: Seq<ProfileField>, update: ProfileUpdate) -> bool {
    !crate::text::blank(update.value@) && !update.sensitive && field_index(
        fields,
        update.key@,
        0,
    ) is Some
}

/// The values of the fields after the updates, one after the other.
pub open spec fn updated_values(fields: Seq<ProfileField>, updates: Seq<ProfileUpdate>) -> Seq<
    Seq<char>,
>
    decreases updates.len(),
{
    if updates.len() == 0 {
        field_values(fields)
    } else {
        let before = updated_values(fields, updates.drop_last());
        let update = updates.last();
        if taken_over(fields, update) {
            before.update(
                field_index(fields, update.key@, 0)->0,
                crate::text::trimmed(update.value@),
            )
        } else {
            before
        }
    }
}

proof fn lemma_field_index(fields: Seq<ProfileField>, other: Seq<ProfileField>, key: Seq<char>, from: int)
    requires
        same_questions(fields, other),
        0 <= from,
    ensures
        field_index(fields, key, from) == field_index(other, key, from),
        field_index(fields, key, from) matches Some(i) ==> from <= i < fields.len() && fields[i].key@
            == key,
    decreases fields.len() - from,
{
    if from < fields.len() {
        assert(fields[from].key == other[from].key);
        lemma_field_index(fields, other, key, from + 1);
    }
}

fn position_of_field(fields: &Vec<ProfileField>, key: &str) -> (r: Option<usize>)
    ensures
        match r {
            Some(i) => field_index(fields@, key@, 0) == Some(i as int) && i < fields@.len(),
            None => field_index(fields@, key@, 0) is None,
        },
{
    let mut i: usize = 0;
    while i < fields.len()
        invariant
            i <= fields.len(),
            field_index(fields@, key@, 0) == field_index(fields@, key@, i as int),
        decreases fields.len() - i,
    {
        if same(fields[i].key.as_str(), key) {
            return Some(i);
        }
        i = i + 1;
    }
    None
}

impl ProfileAgent {
    /// What to ask for the profile; nothing for a profile without fields.
    pub fn question(profile: &AgentProfile, prompt: &str) -> (r: Option<String>)
        ensures
            match r {
                Some(text) => profile.fields@.len() > 0 && text@ == profile_question(
                    profile.fields@,
                    prompt@,
                ),
                None => profile.fields@.len() == 0,
            },
    {
        if profile.fields.is_empty() {
            return None;
        }
        let mut lines: Vec<String> = Vec::new();
        let mut i: usize = 0;
        while i < profile.fields.len()
            invariant
                i <= profile.fields.len(),
                lines@.len() == i,
                forall|j: int|
                    0 <= j < i ==> (#[trigger] lines@[j])@ == field_line(profile.fields@[j]),
            decreases profile.fields.len() - i,
        {
            let field = &profile.fields[i];
            lines.push(
                cat5(
                    "- ",
                    field.key.as_str(),
                    " (question: ",
                    trim(field.question.as_str()),
                    ")",
                ),
            );
            i = i + 1;
        }
        assert(crate::text::texts(lines@) =~= field_lines(profile.fields@));
        let schema = join(&lines, "\n");
        Some(
            cat5(
                "Profile fields:\n",
                schema.as_str(),
                "\n\nUser message:\n",
                prompt,
                "\n\nReturn JSON of {key: value} for fields the user just provided.",
            ),
        )
    }

    /// Takes the values of a reply over, and notes the time where one was.
    pub fn fill(profile: &mut AgentProfile, updates: &Vec<ProfileUpdate>, now: u64)
        ensures
            same_questions(old(profile).fields@, final(profile).fields@),
            field_values(final(profile).fields@) == updated_values(
                old(profile).fields@,
                updates@,
            ),
            final(profile).updated_at_unix == (if exists|i: int|
                0 <= i < updates@.len() && taken_over(
                    old(profile).fields@,
                    #[trigger] updates@[i],
                ) {
                now
            } else {
                old(profile).updated_at_unix
            }),
    {
        let ghost first = profile.fields@;
        let mut changed = false;
        let mut i: usize = 0;
        assert(updates@.take(0) =~= Seq::<ProfileUpdate>::empty());
        while i < updates.len()
            invariant
                i <= updates.len(),
                first == old(profile).fields@,
                same_questions(first, profile.fields@),
                profile.updated_at_unix == old(profile).updated_at_unix,
                field_values(profile.fields@) == updated_values(first, updates@.take(i as int)),
                changed == (exists|j: int|
                    0 <= j < i && taken_over(first, #[trigger] updates@[j])),
            decreases updates.len() - i,
        {
            let update = &updates[i];
            let ghost before = profile.fields@;
            proof {
                assert(updates@.take(i + 1).drop_last() =~= updates@.take(i as int));
                lemma_field_index(first, before, update.key@, 0);
            }
            if !is_blank(update.value.as_str()) && !update.sensitive {
                match position_of_field(&profile.fields, update.key.as_str()) {
                    Some(p) => {
                        profile.fields[p].value = trim(update.value.as_str()).to_string();
                        assert(field_values(profile.fields@) =~= field_values(before).update(
                            p as int,
                            crate::text::trimmed(update.value@),
                        ));
                        assert(taken_over(first, updates@[i as int]));
                        changed = true;
                    },
                    None => {},
                }
            }
            i = i + 1;
        }
        assert(updates@.take(i as int) =~= updates@);
        if changed {
            profile.updated_at_unix = now;
        }
    }
}

/// What the check of an answer comes to.
pub open spec fn check_status(
    invariants: Seq<String>,
    answer: Seq<char>,
    violations: Seq<String>,
    unknown: Seq<String>,
) -> InvariantCheckStatus {
    if invariants.len() == 0 {
        InvariantCheckStatus::NotRun
    } else if crate::text::blank(answer) {
        InvariantCheckStatus::Passed
    } else if violations.len() > 0 {
        InvariantCheckStatus::Failed
    } else if unknown.len() == 0 {
        InvariantCheckStatus::Passed
    } else {
        InvariantCheckStatus::Advisory
    }
}

impl InvariantAgent {
    /// What the check of an answer comes to, from the invariants that code found
    /// broken and those that it cannot check. An empty answer breaks nothing,
    /// and an invariant that cannot be checked never counts as broken.
    pub fn check(
        invariants: &Vec<String>,
        answer: &str,
        violations: Vec<String>,
        unknown: &Vec<String>,
    ) -> (r: SubAgentOutcome)
        ensures
            r.invariant_status == check_status(invariants@, answer@, violations@, unknown@),
            r.violations@ == (if r.invariant_status == InvariantCheckStatus::Failed {
                violations@
            } else {
                Seq::empty()
            }),
            r.answer is None,
            !r.stage_complete,
            r.artifact is None,
            !r.short_circuit,
            r.metrics is None,
    {
        let idle = SubAgentOutcome::default();
        assert(idle.violations@ =~= Seq::<String>::empty());
        if invariants.is_empty() {
            return idle;
        }
        if is_blank(answer) {
            return SubAgentOutcome { invariant_status: InvariantCheckStatus::Passed, ..idle };
        }
        let invariant_status = if !violations.is_empty() {
            InvariantCheckStatus::Failed
        } else if unknown.is_empty() {
            InvariantCheckStatus::Passed
        } else {
            InvariantCheckStatus::Advisory
        };
        assert(violations@.len() == 0 ==> violations@ =~= Seq::<String>::empty());
        SubAgentOutcome { violations, invariant_status, ..idle }
    }
}

/// What the routing of a message begins with.
#[derive(Debug, PartialEq, Eq)]
pub enum TopicStep {
    /// Nothing to route.
    Idle,
    /// The branch is chosen without a request.
    SelectBranch,
    /// A topic is made for the message.
    CreateTopic,
    /// A provider is asked.
    Ask { system_prompt: String, user_content: String },
    /// There is no topic; the turn ends with this reason.
    NotFound { reason: String },
}

/// What the routing of a message comes to.
#[derive(Debug, PartialEq, Eq)]
pub enum TopicRoute {
    /// The topic becomes the active one.
    Activate { topic_id: String },
    /// A topic is made for the message.
    CreateTopic,
    /// There is no topic; the turn ends with this reason.
    NotFound { reason: String },
}

/// What the routing of a message begins with.
pub open spec fn topic_begins(
    config: MemoryConfig,
    catalog_empty: bool,
    catalog: Seq<char>,
    prompt: Seq<char>,
    step: TopicStep,
) -> bool {
    let scoped = config.strategy == MemoryStrategy::ScopedBranches;
    if scoped && !config.topic_file_routing && config.scoped_auto_route {
        step is SelectBranch
    } else if !(scoped && config.topic_file_routing) {
        step is Idle
    } else if catalog_empty && config.topic_auto_create {
        step is CreateTopic
    } else if catalog_empty {
        step matches TopicStep::NotFound { reason } && reason@ == "topic catalog is empty"@
    } else {
        step matches TopicStep::Ask { system_prompt, user_content } && user_content@ == catalog
            + "\n\nLatest user message:\n"@ + prompt
            + "\n\nReturn the JSON route decision only."@ && system_prompt@ == (
        if crate::text::blank(config.topic_classifier_prompt@) {
            DEFAULT_TOPIC_CLASSIFIER_PROMPT@
        } else {
            crate::text::trimmed(config.topic_classifier_prompt@)
        })
    }
}

/// Whether a decision names a topic of the catalog.
pub open spec fn routed(decision: TopicRouteDecision, catalog: Map<Seq<char>, String>) -> bool {
    decision.found && (decision.topic_id matches Some(id) && catalog.dom().contains(id@))
}

impl TopicAgent {
    /// What the routing of a message begins with; `catalog` is how the topics
    /// are shown.
    pub fn begin(config: &MemoryConfig, memory: &AgentMemory, catalog: &str, prompt: &str) -> (r:
        TopicStep)
        ensures
            topic_begins(*config, memory.topic_catalog@.len() == 0, catalog@, prompt@, r),
    {
        let scoped = config.strategy == MemoryStrategy::ScopedBranches;
        if scoped && !config.topic_file_routing && config.scoped_auto_route {
            return TopicStep::SelectBranch;
        }
        if !(scoped && config.topic_file_routing) {
            return TopicStep::Idle;
        }
        if memory.topic_catalog.is_empty() {
            if config.topic_auto_create {
                return TopicStep::CreateTopic;
            }
            return TopicStep::NotFound { reason: "topic catalog is empty".to_string() };
        }
        let system_prompt = if is_blank(config.topic_classifier_prompt.as_str()) {
            DEFAULT_TOPIC_CLASSIFIER_PROMPT.to_string()
        } else {
            trim(config.topic_classifier_prompt.as_str()).to_string()
        };
        let user_content = crate::text::cat4(
            catalog,
            "\n\nLatest user message:\n",
            prompt,
            "\n\nReturn the JSON route decision only.",
        );
        TopicStep::Ask { system_prompt, user_content }
    }

    /// The decision for a reply that could not be read.
    pub fn unreadable() -> (r: TopicRouteDecision)
        ensures
            !r.found,
            r.topic_id is None,
            r.confidence == (Float32 { bits: 0 }),
            r.reason@ == "classifier response was not valid JSON"@,
    {
        TopicRouteDecision {
            found: false,
            topic_id: None,
            confidence: Float32 { bits: 0 },
            reason: "classifier response was not valid JSON".to_string(),
        }
    }

    /// What the routing comes to: the topic that the decision names where the
    /// catalog has it, else a new one where that is allowed, else none. The
    /// decision is kept. Without a reply there is none.
    pub fn finish(
        memory: &mut AgentMemory,
        decision: Option<TopicRouteDecision>,
        auto_create: bool,
    ) -> (r: TopicRoute)
        ensures
            match decision {
                None => {
                    &&& r matches TopicRoute::NotFound { reason } && reason@
                        == "classifier did not return a route"@
                    &&& *final(memory) == *old(memory)
                },
                Some(d) => {
                    &&& *final(memory) == (AgentMemory { last_topic_route: Some(d), ..*old(memory) })
                    &&& if routed(d, old(memory).topic_catalog.map()) {
                        r matches TopicRoute::Activate { topic_id } && Some(topic_id) == d.topic_id
                    } else if auto_create {
                        r is CreateTopic
                    } else {
                        r matches TopicRoute::NotFound { reason } && reason@ == d.reason@
                    }
                },
            },
            r matches TopicRoute::Activate { topic_id }
                ==> old(memory).topic_catalog.map().dom().contains(topic_id@),
    {
        let decision = match decision {
            Some(decision) => decision,
            None => {
                return TopicRoute::NotFound {
                    reason: "classifier did not return a route".to_string(),
                };
            },
        };
        let named = if decision.found {
            match &decision.topic_id {
                Some(topic_id) => if memory.topic_catalog.contains_key(topic_id.as_str()) {
                    Some(topic_id.clone())
                } else {
                    None
                },
                None => None,
            }
        } else {
            None
        };
        let reason = decision.reason.clone();
        memory.last_topic_route = Some(decision);
        match named {
            Some(topic_id) => TopicRoute::Activate { topic_id },
            None => if auto_create {
                TopicRoute::CreateTopic
            } else {
                TopicRoute::NotFound { reason }
            },
        }
    }

    /// Makes a topic the active branch. A blank one changes nothing. Returns
    /// whether the topic's file is to be loaded or made.
    pub fn activate(config: &mut MemoryConfig, topic_id: &str) -> (r: bool)
        ensures
            r == !crate::text::blank(topic_id@),
            !r ==> *final(config) == *old(config),
            r ==> final(config).active_branch@ == crate::text::trimmed(topic_id@),
            r ==> *final(config) == (MemoryConfig {
                active_branch: final(config).active_branch,
                ..*old(config)
            }),
    {
        if is_blank(topic_id) {
            return false;
        }
        config.active_branch = trim(topic_id).to_string();
        true
    }

    /// Whether the active topic's file is written after a turn.
    pub fn keeps_topic_file(config: &MemoryConfig) -> (r: bool)
        ensures
            r == (config.strategy == MemoryStrategy::ScopedBranches && config.topic_file_routing),
    {
        config.strategy == MemoryStrategy::ScopedBranches && config.topic_file_routing
    }
}

/// An outcome that ends the turn with `message`.
pub fn short_circuit(message: String, metrics: Option<RequestMetrics>) -> (r: SubAgentOutcome)
    ensures
        r.answer == Some(message),
        r.short_circuit,
        r.metrics == metrics,
        !r.stage_complete,
        r.artifact is None,
        r.violations@.len() == 0,
        r.invariant_status == InvariantCheckStatus::NotRun,
{
    SubAgentOutcome {
        answer: Some(message),
        short_circuit: true,
        metrics,
        ..SubAgentOutcome::default()
    }
}

/// What the agent for facts is asked holds the facts that are known and, behind
/// them, the user's message.
pub proof fn facts_are_asked_for_with_what_is_known(existing: Seq<char>, prompt: Seq<char>)
    ensures
        crate::text::one_after_other(facts_question(existing, prompt), existing, prompt),
{
    let before = "Existing facts JSON:\n"@;
    let between = "\n\nLatest user message:\n"@;
    let after = "\n\nReturn JSON object with fact updates only. When the user states a new value for a fact that already has a key (e.g. a new location), OVERWRITE it with the new value."@;
    crate::text::lemma_one_after_other(before, existing, between, prompt, after);
}

/// What the agent for summaries is asked holds the summary so far, where there is
/// one, and behind it what is to be taken in.
pub proof fn summaries_are_asked_for_with_what_they_merge(
    previous: Option<Seq<char>>,
    fragment: Seq<char>,
)
    ensures
        crate::text::contains_text(summary_question(previous, fragment), fragment),
        previous matches Some(text) ==> crate::text::one_after_other(
            summary_question(previous, fragment),
            text,
            fragment,
        ),
{
    let before = "Previous memory summary:\n"@;
    let between = "\n\nNew chat fragment to merge:\n"@;
    let after = "\n\nReturn the updated memory summary."@;
    let text = match previous {
        Some(text) => text,
        None => "No previous summary."@,
    };
    crate::text::lemma_one_after_other(before, text, between, fragment, after);
    crate::text::lemma_part_occurs(before + text + between, fragment, after);
}

/// What the agent for the profile is asked holds the key of every field with its
/// question behind it, and the user's message.
pub proof fn profiles_are_asked_for_field_by_field(
    fields: Seq<ProfileField>,
    prompt: Seq<char>,
    i: int,
)
    requires
        0 <= i < fields.len(),
    ensures
        crate::text::contains_text(profile_question(fields, prompt), prompt),
        crate::text::one_after_other(
            profile_question(fields, prompt),
            fields[i].key@,
            crate::text::trimmed(fields[i].question@),
        ),
{
    let before = "Profile fields:\n"@;
    let lines = field_lines(fields);
    let list = crate::text::joined(lines, "\n"@);
    let between = "\n\nUser message:\n"@;
    let after = "\n\nReturn JSON of {key: value} for fields the user just provided."@;
    let whole = profile_question(fields, prompt);
    crate::text::lemma_part_occurs(before + list + between, prompt, after);
    let line = lines[i];
    crate::text::lemma_one_after_other(
        "- "@,
        fields[i].key@,
        " (question: "@,
        crate::text::trimmed(fields[i].question@),
        ")"@,
    );
    crate::text::joined_texts_hold_their_parts(lines, "\n"@, i);
    crate::text::lemma_part_occurs(before, list, between + prompt + after);
    assert(before + list + (between + prompt + after) =~= whole);
    crate::text::lemma_occurs_through(line, list, whole);
    crate::text::lemma_order_through(
        fields[i].key@,
        crate::text::trimmed(fields[i].question@),
        line,
        whole,
    );
}

proof fn lemma_first_field(fields: Seq<ProfileField>, key: Seq<char>, from: int, k: int)
    requires
        0 <= from <= k < fields.len(),
        fields[k].key@ == key,
        forall|j: int| from <= j < k ==> (#[trigger] fields[j]).key@ != key,
    ensures
        field_index(fields, key, from) == Some(k),
    decreases k - from,
{
    if from < k {
        assert(fields[from].key@ != key);
        lemma_first_field(fields, key, from + 1, k);
    }
}

proof fn lemma_values_keep_their_number(fields: Seq<ProfileField>, updates: Seq<ProfileUpdate>)
    ensures
        updated_values(fields, updates).len() == fields.len(),
    decreases updates.len(),
{
    if updates.len() > 0 {
        lemma_values_keep_their_number(fields, updates.drop_last());
        lemma_field_index(fields, fields, updates.last().key@, 0);
    }
}

proof fn lemma_unaddressed_field(
    fields: Seq<ProfileField>,
    updates: Seq<ProfileUpdate>,
    from: int,
    k: int,
)
    requires
        0 <= k < fields.len(),
        0 <= from <= updates.len(),
        forall|j: int|
            from <= j < updates.len() ==> (#[trigger] updates[j]).key@ != fields[k].key@
                || updates[j].sensitive || crate::text::blank(updates[j].value@),
    ensures
        updated_values(fields, updates)[k] == updated_values(fields, updates.take(from))[k],
    decreases updates.len() - from,
{
    if from == updates.len() {
        assert(updates.take(from) =~= updates);
    } else {
        let rest = updates.drop_last();
        assert forall|j: int| from <= j < rest.len() implies (#[trigger] rest[j]).key@
            != fields[k].key@ || rest[j].sensitive || crate::text::blank(rest[j].value@) by {
            assert(rest[j] == updates[j]);
        }
        lemma_unaddressed_field(fields, rest, from, k);
        assert(rest.take(from) =~= updates.take(from));
        lemma_values_keep_their_number(fields, rest);
        let last = updates[updates.len() - 1];
        assert(last.key@ != fields[k].key@ || last.sensitive || crate::text::blank(last.value@));
        lemma_field_index(fields, fields, last.key@, 0);
    }
}

/// A field takes the last value that is given for its key and may be kept,
/// without the white space around it; what is empty or sensitive is never taken,
/// and a field that nothing is given for keeps its value.
pub proof fn profile_fields_take_what_may_be_kept(
    fields: Seq<ProfileField>,
    updates: Seq<ProfileUpdate>,
    i: int,
    k: int,
)
    requires
        0 <= k < fields.len(),
        forall|j: int| 0 <= j < k ==> (#[trigger] fields[j]).key@ != fields[k].key@,
        0 <= i <= updates.len(),
        i < updates.len() ==> updates[i].key@ == fields[k].key@ && !updates[i].sensitive
            && !crate::text::blank(updates[i].value@),
        forall|j: int|
            i < j < updates.len() ==> (#[trigger] updates[j]).key@ != fields[k].key@
                || updates[j].sensitive || crate::text::blank(updates[j].value@),
        i == updates.len() ==> forall|j: int|
            0 <= j < updates.len() ==> (#[trigger] updates[j]).key@ != fields[k].key@
                || updates[j].sensitive || crate::text::blank(updates[j].value@),
    ensures
        updated_values(fields, updates).len() == fields.len(),
        i < updates.len() ==> updated_values(fields, updates)[k] == crate::text::trimmed(
            updates[i].value@,
        ),
        i == updates.len() ==> updated_values(fields, updates)[k] == fields[k].value@,
{
    lemma_values_keep_their_number(fields, updates);
    if i < updates.len() {
        lemma_unaddressed_field(fields, updates, i + 1, k);
        let upto = updates.take(i + 1);
        assert(upto.drop_last() =~= updates.take(i));
        assert(upto.last() == updates[i]);
        lemma_first_field(fields, fields[k].key@, 0, k);
        lemma_values_keep_their_number(fields, updates.take(i));
    } else {
        lemma_unaddressed_field(fields, updates, 0, k);
        assert(updates.take(0) =~= Seq::<ProfileUpdate>::empty());
    }
}

/// Without rules nothing is checked; a broken rule fails the check of any answer
/// that says something; rules that code cannot check leave it advisory.
pub proof fn a_broken_rule_fails_the_check(
    invariants: Seq<String>,
    answer: Seq<char>,
    violations: Seq<String>,
    unknown: Seq<String>,
)
    ensures
        invariants.len() == 0 ==> check_status(invariants, answer, violations, unknown)
            == InvariantCheckStatus::NotRun,
        invariants.len() > 0 && !crate::text::blank(answer) && violations.len() > 0 ==> check_status(
            invariants,
            answer,
            violations,
            unknown,
        ) == InvariantCheckStatus::Failed,
        invariants.len() > 0 && !crate::text::blank(answer) && violations.len() == 0 && unknown.len()
            > 0 ==> check_status(invariants, answer, violations, unknown)
            == InvariantCheckStatus::Advisory,
        invariants.len() > 0 && violations.len() == 0 && unknown.len() == 0 ==> check_status(
            invariants,
            answer,
            violations,
            unknown,
        ) == InvariantCheckStatus::Passed,
        check_status(invariants, answer, violations, unknown) == InvariantCheckStatus::Failed
            ==> violations.len() > 0,
{
}

/// The message is routed only where branches are scoped: to a branch where files
/// do not route it, else to a topic of the catalog, with the catalog and the
/// message told; an empty catalog is filled where that is allowed.
pub proof fn topics_are_routed_where_branches_are_scoped(
    config: MemoryConfig,
    catalog_empty: bool,
    catalog: Seq<char>,
    prompt: Seq<char>,
    step: TopicStep,
)
    requires
        topic_begins(config, catalog_empty, catalog, prompt, step),
    ensures
        config.strategy != MemoryStrategy::ScopedBranches ==> step is Idle,
        config.strategy == MemoryStrategy::ScopedBranches && !config.topic_file_routing
            && config.scoped_auto_route ==> step is SelectBranch,
        config.strategy == MemoryStrategy::ScopedBranches && !config.topic_file_routing
            && !config.scoped_auto_route ==> step is Idle,
        config.strategy == MemoryStrategy::ScopedBranches && config.topic_file_routing
            && catalog_empty && config.topic_auto_create ==> step is CreateTopic,
        config.strategy == MemoryStrategy::ScopedBranches && config.topic_file_routing
            && catalog_empty && !config.topic_auto_create ==> step is NotFound,
        config.strategy == MemoryStrategy::ScopedBranches && config.topic_file_routing
            && !catalog_empty ==> step is Ask && crate::text::one_after_other(
            step->user_content@,
            catalog,
            prompt,
        ) && (!crate::text::blank(config.topic_classifier_prompt@) ==> step->system_prompt@
            == crate::text::trimmed(config.topic_classifier_prompt@)),
{
    let none = Seq::<char>::empty();
    let between = "\n\nLatest user message:\n"@;
    let after = "\n\nReturn the JSON route decision only."@;
    crate::text::lemma_one_after_other(none, catalog, between, prompt, after);
    assert(none + catalog + between + prompt + after =~= catalog + between + prompt + after);
}

/// A decision routes to a topic that is in the catalog, and to no other.
pub proof fn routes_lead_into_the_catalog(
    decision: TopicRouteDecision,
    catalog: Map<Seq<char>, String>,
)
    ensures
        !decision.found ==> !routed(decision, catalog),
        decision.topic_id is None ==> !routed(decision, catalog),
        decision.topic_id matches Some(id) ==> (catalog.contains_key(id@) && decision.found)
            == routed(decision, catalog),
{
}

/// What is learned from a message is known in the store that it was learned for:
/// the last fact of its key.
pub proof fn learned_facts_are_known(
    a: AgentMemory,
    b: AgentMemory,
    scope: Seq<char>,
    facts: Seq<Fact>,
    i: int,
)
    requires
        learned(a, b, scope, facts),
        0 <= i < facts.len(),
        forall|j: int| i < j < facts.len() ==> (#[trigger] facts[j]).key@ != facts[i].key@,
    ensures
        crate::text::blank(scope) ==> b.facts.map().contains_key(facts[i].key@)
            && b.facts.map()[facts[i].key@] == facts[i].value && b.partitions == a.partitions,
        !crate::text::blank(scope) ==> b.partitions.map().contains_key(scope)
            && b.partitions.map()[scope].facts.map().contains_key(facts[i].key@)
            && b.partitions.map()[scope].facts.map()[facts[i].key@] == facts[i].value && b.facts
            == a.facts,
{
    crate::chat::memory::lemma_last_fact(a.facts.map(), facts, i);
    crate::chat::memory::lemma_last_fact(crate::chat::memory::scope_facts(a, scope), facts, i);
}

/// Facts are gathered with the prompt that is configured for the agent, else with
/// that of the memory.
pub proof fn facts_are_gathered_by_the_configured_prompt(
    roster: ResolvedSwarm,
    config: MemoryConfig,
    i: int,
)
    requires
        0 <= i <= roster@.len(),
        i < roster@.len() ==> roster@[i].role == SubAgentRole::Memory,
        forall|j: int| 0 <= j < i ==> (#[trigger] roster@[j]).role != SubAgentRole::Memory,
    ensures
        i == roster@.len() ==> facts_prompt_of(roster, config) == crate::text::trimmed(
            config.facts_extraction_prompt@,
        ),
        i < roster@.len() && crate::text::trimmed(roster@[i].system_prompt@).len() > 0
            ==> facts_prompt_of(roster, config) == crate::text::trimmed(roster@[i].system_prompt@),
        i < roster@.len() && crate::text::trimmed(roster@[i].system_prompt@).len() == 0
            ==> facts_prompt_of(roster, config) == crate::text::trimmed(
            config.facts_extraction_prompt@,
        ),
{
    crate::chat::swarm::runtime::the_first_agent_of_a_role_counts(
        roster@,
        SubAgentRole::Memory,
        0,
        i,
    );
}

/// Each store has its own summary and its own count; a new summary of one touches
/// no fact and no other store.
pub proof fn summaries_keep_to_their_store(a: AgentMemory, b: AgentMemory, scope: Seq<char>)
    requires
        only_summary_of(a, b, scope),
    ensures
        b.facts == a.facts && b.fact_layers == a.fact_layers && b.topic_catalog == a.topic_catalog,
        crate::text::blank(scope) ==> b.partitions == a.partitions,
        !crate::text::blank(scope) ==> b.session_summary == a.session_summary
            && b.summarized_message_count == a.summarized_message_count
            && crate::chat::memory::scope_facts(b, scope) == crate::chat::memory::scope_facts(
            a,
            scope,
        ),
{
}

/// What is summed up so far is read from the store of the scope.
pub proof fn the_scope_tells_its_summary(memory: AgentMemory, scope: Seq<char>)
    ensures
        crate::text::blank(scope) ==> previous_summary(memory, scope) == crate::text::option_text(
            memory.session_summary,
        ) && summarized_count(memory, scope) == memory.summarized_message_count,
        !crate::text::blank(scope) && memory.partitions.map().contains_key(scope)
            ==> previous_summary(memory, scope) == crate::text::option_text(
            memory.partitions.map()[scope].session_summary,
        ) && summarized_count(memory, scope)
            == memory.partitions.map()[scope].summarized_message_count,
        !crate::text::blank(scope) && !memory.partitions.map().contains_key(scope)
            ==> previous_summary(memory, scope) is None && summarized_count(memory, scope) == 0,
        !crate::text::blank(scope) && !memory.partitions.map().contains_key(scope)
            ==> scope_facts_text(memory, scope) == "null"@,
        crate::text::blank(scope) ==> scope_facts_text(memory, scope) == known_facts_text(
            memory.facts,
        ),
        !crate::text::blank(scope) && memory.partitions.map().contains_key(scope)
            ==> scope_facts_text(memory, scope) == known_facts_text(
            memory.partitions.map()[scope].facts,
        ),
{
}

} // verus!
