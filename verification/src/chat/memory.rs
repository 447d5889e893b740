//! What a chat remembers: facts and summaries, shared or in the partition of
//! one agent.
use vstd::prelude::*;

use crate::providers::{ChatMessage, Float32};
use crate::text::is_blank;
use crate::text_map::TextMap;

verus! {

broadcast use vstd::string::group_string_axioms;

/// How much of the history goes to the provider.
#[derive(Debug, Clone, Copy, PartialEq, Eq, Structural)]
pub enum MemoryStrategy {
    Summary,
    SlidingWindow,
    StickyFacts,
    Branching,
    ScopedBranches,
}

/// The latest messages that stay in the context window.
pub const DEFAULT_RECENT_MESSAGES: usize = 5;

/// The stored messages after which a summary is made.
pub const DEFAULT_SUMMARIZE_AFTER_MESSAGES: usize = 18;

/// The least number of messages that a summary takes in.
pub const DEFAULT_SUMMARY_CHUNK_MESSAGES: usize = 10;

/// The share of the context, in percent, from which on a summary is made early.
pub const DEFAULT_SUMMARIZE_AT_CONTEXT_PERCENT: u8 = 80;

/// The system prompt of a summary unless the configuration has its own.
pub const DEFAULT_SUMMARY_PROMPT: &'static str = "You maintain a compact memory summary of a chat. Merge the new fragment into the previous summary. Keep goals, decisions, constraints and open questions. Reply with the summary only.";

/// The system prompt that introduces facts unless the configuration has its own.
pub const DEFAULT_FACTS_PROMPT: &'static str = "Known facts about the user and the task. Use them; do not repeat them back.";

/// The system prompt of topic routing unless the configuration has its own.
pub const DEFAULT_TOPIC_CLASSIFIER_PROMPT: &'static str = "You route a user message to one topic of a catalog. Reply with a JSON object with the keys found, topic_id, confidence and reason. No prose.";

/// How the memory of a chat is kept.
#[derive(Debug, Clone, PartialEq, Eq)]
pub struct MemoryConfig {
    pub strategy: MemoryStrategy,
    pub recent_messages: usize,
    pub summarize_after_messages: usize,
    pub summary_chunk_messages: usize,
    pub summarize_at_context_percent: u8,
    pub summary_prompt: String,
    pub facts_prompt: String,
    pub active_branch: String,
    pub facts_extraction_prompt: String,
    pub topic_classifier_prompt: String,
    pub topic_file_routing: bool,
    pub scoped_auto_route: bool,
    pub topic_auto_create: bool,
}

impl Default for MemoryConfig {
    fn default() -> (r: Self)
        ensures
            r.strategy == MemoryStrategy::Summary,
            r.recent_messages == DEFAULT_RECENT_MESSAGES,
            r.summarize_after_messages == DEFAULT_SUMMARIZE_AFTER_MESSAGES,
            r.summary_chunk_messages == DEFAULT_SUMMARY_CHUNK_MESSAGES,
            r.summarize_at_context_percent == DEFAULT_SUMMARIZE_AT_CONTEXT_PERCENT,
            r.summary_prompt@.len() == 0,
            r.facts_prompt@.len() == 0,
            r.active_branch@ == "default"@,
            r.facts_extraction_prompt@.len() == 0,
            r.topic_classifier_prompt@.len() == 0,
            !r.topic_file_routing,
            !r.scoped_auto_route,
            !r.topic_auto_create,
    {
        MemoryConfig {
            strategy: MemoryStrategy::Summary,
            recent_messages: DEFAULT_RECENT_MESSAGES,
            summarize_after_messages: DEFAULT_SUMMARIZE_AFTER_MESSAGES,
            summary_chunk_messages: DEFAULT_SUMMARY_CHUNK_MESSAGES,
            summarize_at_context_percent: DEFAULT_SUMMARIZE_AT_CONTEXT_PERCENT,
            summary_prompt: String::new(),
            facts_prompt: String::new(),
            active_branch: "default".to_string(),
            facts_extraction_prompt: String::new(),
            topic_classifier_prompt: String::new(),
            topic_file_routing: false,
            scoped_auto_route: false,
            topic_auto_create: false,
        }
    }
}

/// A run of messages of the history, from `start` to before `end`.
#[derive(Debug, Clone, Copy, PartialEq, Eq, Structural)]
pub struct SummaryRange {
    pub start: usize,
    pub end: usize,
}

/// The messages that the next summary takes in: those after the ones already
/// summarized, up to the latest that stay in the window. None where the history
/// is still short or too few messages have gathered.
pub open spec fn summary_range(summarized: int, total: int, config: MemoryConfig) -> Option<
    (int, int),
> {
    let end = total - config.recent_messages;
    if config.strategy == MemoryStrategy::Summary && total > config.summarize_after_messages
        && summarized < end && end - summarized >= config.summary_chunk_messages {
        Some((summarized, end))
    } else {
        None
    }
}

/// A fact, and the layer of memory that it belongs to, where one is named.
#[derive(Debug, PartialEq, Eq)]
pub struct Fact {
    pub key: String,
    pub value: String,
    pub layer: Option<String>,
}

/// Where a message was routed.
#[derive(Debug, PartialEq, Eq)]
pub struct TopicRouteDecision {
    pub found: bool,
    pub topic_id: Option<String>,
    pub confidence: Float32,
    pub reason: String,
}

/// The facts and the summary of one agent.
pub struct MemoryPartition {
    pub facts: TextMap<String>,
    /// The layers of the facts that have one.
    pub fact_layers: TextMap<String>,
    pub session_summary: Option<String>,
    pub summarized_message_count: usize,
}

impl MemoryPartition {
    /// A partition in which nothing has been stored.
    pub fn new() -> (r: Self)
        ensures
            r.facts.map() == Map::<Seq<char>, String>::empty(),
            r.fact_layers.map() == Map::<Seq<char>, String>::empty(),
            r.session_summary is None,
            r.summarized_message_count == 0,
    {
        MemoryPartition {
            facts: TextMap::new(),
            fact_layers: TextMap::new(),
            session_summary: None,
            summarized_message_count: 0,
        }
    }
}

/// The memory of a chat: the shared store and the partitions of the agents.
pub struct AgentMemory {
    pub facts: TextMap<String>,
    /// The layers of the facts that have one.
    pub fact_layers: TextMap<String>,
    pub session_summary: Option<String>,
    pub summarized_message_count: usize,
    pub partitions: TextMap<MemoryPartition>,
    /// What each topic is about.
    pub topic_catalog: TextMap<String>,
    pub last_topic_route: Option<TopicRouteDecision>,
}

/// Whether everything but the partitions is the same.
pub open spec fn same_shared(a: AgentMemory, b: AgentMemory) -> bool {
    b == (AgentMemory { partitions: b.partitions, ..a })
}

/// What the partition of `scope` has summed up.
pub open spec fn scope_summary(memory: AgentMemory, scope: Seq<char>) -> Option<Seq<char>> {
    if memory.partitions.map().dom().contains(scope) {
        crate::text::option_text(memory.partitions.map()[scope].session_summary)
    } else {
        None
    }
}

/// How many messages the partition of `scope` has summarized.
pub open spec fn scope_summarized(memory: AgentMemory, scope: Seq<char>) -> int {
    if memory.partitions.map().dom().contains(scope) {
        memory.partitions.map()[scope].summarized_message_count as int
    } else {
        0
    }
}

/// Whether `b` differs from `a` in the partition of `scope` at most.
pub open spec fn only_scope_changed(a: AgentMemory, b: AgentMemory, scope: Seq<char>) -> bool {
    &&& same_shared(a, b)
    &&& a.partitions.map().remove(scope) == b.partitions.map().remove(scope)
}

impl AgentMemory {
    /// A memory in which nothing has been stored.
    pub fn new() -> (r: Self)
        ensures
            r.facts.map() == Map::<Seq<char>, String>::empty(),
            r.fact_layers.map() == Map::<Seq<char>, String>::empty(),
            r.session_summary is None,
            r.summarized_message_count == 0,
            r.partitions.map() == Map::<Seq<char>, MemoryPartition>::empty(),
            r.topic_catalog.map() == Map::<Seq<char>, String>::empty(),
            r.last_topic_route is None,
    {
        AgentMemory {
            facts: TextMap::new(),
            fact_layers: TextMap::new(),
            session_summary: None,
            summarized_message_count: 0,
            partitions: TextMap::new(),
            topic_catalog: TextMap::new(),
            last_topic_route: None,
        }
    }

    /// Whether `scope` names a partition rather than the shared store.
    pub fn is_scoped(scope: &str) -> (r: bool)
        ensures
            r == !crate::text::blank(scope@),
    {
        !is_blank(scope)
    }

    /// The partition of `scope`.
    pub fn partition(&self, scope: &str) -> (r: Option<&MemoryPartition>)
        ensures
            match r {
                Some(p) => self.partitions.map().dom().contains(scope@) && *p
                    == self.partitions.map()[scope@],
                None => !self.partitions.map().dom().contains(scope@),
            },
    {
        self.partitions.get(scope)
    }

    /// The messages that the next shared summary takes in.
    pub fn next_summary_range(&self, history: &Vec<ChatMessage>, config: &MemoryConfig) -> (r: Option<
        SummaryRange,
    >)
        ensures
            match r {
                Some(range) => summary_range(
                    self.summarized_message_count as int,
                    history@.len() as int,
                    *config,
                ) == Some((range.start as int, range.end as int)) && range.start < range.end
                    <= history@.len(),
                None => summary_range(
                    self.summarized_message_count as int,
                    history@.len() as int,
                    *config,
                ) is None,
            },
    {
        range_after(self.summarized_message_count, history.len(), config)
    }

    /// The messages that the next summary of a partition takes in. Each
    /// partition has its own count; one that is not there yet has summarized
    /// nothing.
    pub fn next_summary_range_scoped(
        &self,
        scope: &str,
        history: &Vec<ChatMessage>,
        config: &MemoryConfig,
    ) -> (r: Option<SummaryRange>)
        ensures
            match r {
                Some(range) => summary_range(
                    scope_summarized(*self, scope@),
                    history@.len() as int,
                    *config,
                ) == Some((range.start as int, range.end as int)) && range.start < range.end
                    <= history@.len(),
                None => summary_range(
                    scope_summarized(*self, scope@),
                    history@.len() as int,
                    *config,
                ) is None,
            },
    {
        let summarized: usize = match self.partitions.get(scope) {
            Some(partition) => partition.summarized_message_count,
            None => 0,
        };
        range_after(summarized, history.len(), config)
    }

    fn take_partition(&mut self, scope: &str) -> (r: MemoryPartition)
        ensures
            same_shared(*old(self), *final(self)),
            final(self).partitions.map() == old(self).partitions.map().remove(scope@),
            old(self).partitions.map().dom().contains(scope@) ==> r == old(self).partitions.map()[scope@],
            !old(self).partitions.map().dom().contains(scope@) ==> r.facts.map() == Map::<
                Seq<char>,
                String,
            >::empty() && r.fact_layers.map() == Map::<Seq<char>, String>::empty()
                && r.session_summary is None && r.summarized_message_count == 0,
    {
        match self.partitions.remove(scope) {
            Some(partition) => partition,
            None => MemoryPartition::new(),
        }
    }

    /// Notes how many messages the partition of `scope` has summarized.
    pub fn mark_summarized_scoped(&mut self, scope: &str, count: usize)
        ensures
            only_scope_changed(*old(self), *final(self), scope@),
            final(self).partitions.map().dom().contains(scope@),
            scope_summarized(*final(self), scope@) == count,
            scope_summary(*final(self), scope@) == scope_summary(*old(self), scope@),
            scope_facts(*final(self), scope@) == scope_facts(*old(self), scope@),
            scope_layers(*final(self), scope@) == scope_layers(*old(self), scope@),
    {
        let partition = self.take_partition(scope);
        let partition = MemoryPartition { summarized_message_count: count, ..partition };
        self.partitions.insert(scope.to_string(), partition);
        assert(self.partitions.map().remove(scope@) =~= old(self).partitions.map().remove(scope@));
    }

    /// Stores the summary of the partition of `scope` and how many messages it
    /// takes in.
    pub fn set_summary_scoped(&mut self, scope: &str, summary: &str, count: usize)
        ensures
            only_scope_changed(*old(self), *final(self), scope@),
            final(self).partitions.map().dom().contains(scope@),
            scope_summarized(*final(self), scope@) == count,
            scope_summary(*final(self), scope@) == Some(summary@),
            scope_facts(*final(self), scope@) == scope_facts(*old(self), scope@),
            scope_layers(*final(self), scope@) == scope_layers(*old(self), scope@),
    {
        let partition = self.take_partition(scope);
        let partition = MemoryPartition {
            summarized_message_count: count,
            session_summary: Some(summary.to_string()),
            ..partition
        };
        self.partitions.insert(scope.to_string(), partition);
        assert(self.partitions.map().remove(scope@) =~= old(self).partitions.map().remove(scope@));
    }

    /// Stores facts in the partition of `scope`; a later one of the same key
    /// replaces an earlier one.
    pub fn merge_partition_facts(&mut self, scope: &str, facts: &Vec<Fact>)
        ensures
            only_scope_changed(*old(self), *final(self), scope@),
            final(self).partitions.map().dom().contains(scope@),
            scope_facts(*final(self), scope@) == with_facts(
                scope_facts(*old(self), scope@),
                facts@,
            ),
            scope_layers(*final(self), scope@) == with_layers(
                scope_layers(*old(self), scope@),
                facts@,
            ),
            scope_summary(*final(self), scope@) == scope_summary(*old(self), scope@),
            scope_summarized(*final(self), scope@) == scope_summarized(*old(self), scope@),
    {
        let mut partition = self.take_partition(scope);
        merge_facts(&mut partition.facts, facts);
        merge_layers(&mut partition.fact_layers, facts);
        self.partitions.insert(scope.to_string(), partition);
        assert(self.partitions.map().remove(scope@) =~= old(self).partitions.map().remove(scope@));
    }

    /// Stores facts in the shared store; a later one of the same key replaces
    /// an earlier one.
    pub fn merge_shared_facts(&mut self, facts: &Vec<Fact>)
        ensures
            final(self).facts.map() == with_facts(old(self).facts.map(), facts@),
            final(self).fact_layers.map() == with_layers(old(self).fact_layers.map(), facts@),
            *final(self) == (AgentMemory {
                facts: final(self).facts,
                fact_layers: final(self).fact_layers,
                ..*old(self)
            }),
    {
        merge_facts(&mut self.facts, facts);
        merge_layers(&mut self.fact_layers, facts);
    }
}

/// The facts of the partition of `scope`.
pub open spec fn scope_facts(memory: AgentMemory, scope: Seq<char>) -> Map<Seq<char>, String> {
    if memory.partitions.map().dom().contains(scope) {
        memory.partitions.map()[scope].facts.map()
    } else {
        Map::empty()
    }
}

/// A store of facts with more facts added, one after the other.
pub open spec fn with_facts(known: Map<Seq<char>, String>, facts: Seq<Fact>) -> Map<
    Seq<char>,
    String,
>
    decreases facts.len(),
{
    if facts.len() == 0 {
        known
    } else {
        with_facts(known, facts.drop_last()).insert(facts.last().key@, facts.last().value)
    }
}

/// The layers of the facts of the partition of `scope`.
pub open spec fn scope_layers(memory: AgentMemory, scope: Seq<char>) -> Map<Seq<char>, String> {
    if memory.partitions.map().dom().contains(scope) {
        memory.partitions.map()[scope].fact_layers.map()
    } else {
        Map::empty()
    }
}

/// The layers of facts with more facts added, one after the other. A fact that
/// names no layer leaves the one of its key as it was.
pub open spec fn with_layers(known: Map<Seq<char>, String>, facts: Seq<Fact>) -> Map<
    Seq<char>,
    String,
>
    decreases facts.len(),
{
    if facts.len() == 0 {
        known
    } else {
        let before = with_layers(known, facts.drop_last());
        match facts.last().layer {
            Some(layer) => before.insert(facts.last().key@, layer),
            None => before,
        }
    }
}

fn merge_layers(known: &mut TextMap<String>, facts: &Vec<Fact>)
    ensures
        final(known).map() == with_layers(old(known).map(), facts@),
{
    let mut i: usize = 0;
    assert(facts@.take(0) =~= Seq::<Fact>::empty());
    while i < facts.len()
        invariant
            i <= facts.len(),
            known.map() == with_layers(old(known).map(), facts@.take(i as int)),
        decreases facts.len() - i,
    {
        assert(facts@.take(i + 1).drop_last() =~= facts@.take(i as int));
        match &facts[i].layer {
            Some(layer) => {
                known.insert(facts[i].key.clone(), layer.clone());
            },
            None => {},
        }
        i = i + 1;
    }
    assert(facts@.take(i as int) =~= facts@);
}

fn merge_facts(known: &mut TextMap<String>, facts: &Vec<Fact>)
    ensures
        final(known).map() == with_facts(old(known).map(), facts@),
{
    let mut i: usize = 0;
    assert(facts@.take(0) =~= Seq::<Fact>::empty());
    while i < facts.len()
        invariant
            i <= facts.len(),
            known.map() == with_facts(old(known).map(), facts@.take(i as int)),
        decreases facts.len() - i,
    {
        assert(facts@.take(i + 1).drop_last() =~= facts@.take(i as int));
        known.insert(facts[i].key.clone(), facts[i].value.clone());
        i = i + 1;
    }
    assert(facts@.take(i as int) =~= facts@);
}

fn range_after(summarized: usize, total: usize, config: &MemoryConfig) -> (r: Option<SummaryRange>)
    ensures
        match r {
            Some(range) => summary_range(summarized as int, total as int, *config) == Some(
                (range.start as int, range.end as int),
            ) && range.start < range.end <= total,
            None => summary_range(summarized as int, total as int, *config) is None,
        },
{
    if config.strategy != MemoryStrategy::Summary || total <= config.summarize_after_messages
        || total < config.recent_messages {
        return None;
    }
    let end: usize = total - config.recent_messages;
    if summarized >= end || end - summarized < config.summary_chunk_messages {
        return None;
    }
    Some(SummaryRange { start: summarized, end })
}

/// What one agent stores in its partition, no other agent sees: every other
/// partition and the shared store stay as they were.
pub proof fn partitions_are_isolated(
    before: AgentMemory,
    after: AgentMemory,
    scope: Seq<char>,
    other: Seq<char>,
)
    requires
        only_scope_changed(before, after, scope),
        other != scope,
    ensures
        same_shared(before, after),
        scope_summarized(after, other) == scope_summarized(before, other),
        scope_facts(after, other) == scope_facts(before, other),
        scope_layers(after, other) == scope_layers(before, other),
        scope_summary(after, other) == scope_summary(before, other),
        after.partitions.map().dom().contains(other) == before.partitions.map().dom().contains(
            other,
        ),
{
    let a = before.partitions.map().remove(scope);
    let b = after.partitions.map().remove(scope);
    assert(a.dom().contains(other) == before.partitions.map().dom().contains(other));
    assert(b.dom().contains(other) == after.partitions.map().dom().contains(other));
    if a.dom().contains(other) {
        assert(a[other] == before.partitions.map()[other]);
        assert(b[other] == after.partitions.map()[other]);
    }
}

/// A summary takes messages in only once: after the messages of a range are
/// summarized, the next range begins where that one ended.
pub proof fn summaries_do_not_overlap(
    summarized: int,
    total: int,
    later: int,
    config: MemoryConfig,
)
    requires
        summary_range(summarized, total, config) is Some,
        total <= later,
    ensures
        ({
            let (start, end) = summary_range(summarized, total, config).unwrap();
            &&& summary_range(end, total, config) is None
            &&& summary_range(end, later, config) matches Some(next) ==> next.0 == end
        }),
{
}

/// The last fact of a key is the one that is known; what no fact speaks of stays
/// known as it was.
pub proof fn the_last_fact_counts(
    known: Map<Seq<char>, String>,
    facts: Seq<Fact>,
    i: int,
    other: Seq<char>,
)
    requires
        0 <= i < facts.len(),
        forall|j: int| i < j < facts.len() ==> (#[trigger] facts[j]).key@ != facts[i].key@,
        forall|j: int| 0 <= j < facts.len() ==> (#[trigger] facts[j]).key@ != other,
    ensures
        with_facts(known, facts).contains_key(facts[i].key@),
        with_facts(known, facts)[facts[i].key@] == facts[i].value,
        with_facts(known, facts).contains_key(other) == known.contains_key(other),
        known.contains_key(other) ==> with_facts(known, facts)[other] == known[other],
        with_layers(known, facts).contains_key(other) == known.contains_key(other),
        known.contains_key(other) ==> with_layers(known, facts)[other] == known[other],
{
    lemma_other_facts_stay(known, facts, other);
    lemma_last_fact(known, facts, i);
}

/// The last fact of a key is known.
pub proof fn lemma_last_fact(known: Map<Seq<char>, String>, facts: Seq<Fact>, i: int)
    requires
        0 <= i < facts.len(),
        forall|j: int| i < j < facts.len() ==> (#[trigger] facts[j]).key@ != facts[i].key@,
    ensures
        with_facts(known, facts).contains_key(facts[i].key@),
        with_facts(known, facts)[facts[i].key@] == facts[i].value,
    decreases facts.len(),
{
    if i < facts.len() - 1 {
        let rest = facts.drop_last();
        assert(rest[i] == facts[i]);
        assert forall|j: int| i < j < rest.len() implies (#[trigger] rest[j]).key@
            != rest[i].key@ by {
            assert(rest[j] == facts[j]);
        }
        lemma_last_fact(known, rest, i);
        assert(facts[facts.len() - 1].key@ != facts[i].key@);
    }
}

proof fn lemma_other_facts_stay(known: Map<Seq<char>, String>, facts: Seq<Fact>, other: Seq<char>)
    requires
        forall|j: int| 0 <= j < facts.len() ==> (#[trigger] facts[j]).key@ != other,
    ensures
        with_facts(known, facts).contains_key(other) == known.contains_key(other),
        known.contains_key(other) ==> with_facts(known, facts)[other] == known[other],
        with_layers(known, facts).contains_key(other) == known.contains_key(other),
        known.contains_key(other) ==> with_layers(known, facts)[other] == known[other],
    decreases facts.len(),
{
    if facts.len() > 0 {
        let rest = facts.drop_last();
        assert forall|j: int| 0 <= j < rest.len() implies (#[trigger] rest[j]).key@ != other by {
            assert(rest[j] == facts[j]);
        }
        lemma_other_facts_stay(known, rest, other);
        assert(facts[facts.len() - 1].key@ != other);
    }
}

/// A fact is in the layer that the last fact of its key to name one names; one
/// that names none changes no layer.
pub proof fn the_last_layer_counts(known: Map<Seq<char>, String>, facts: Seq<Fact>, i: int)
    requires
        0 <= i < facts.len(),
        facts[i].layer is Some,
        forall|j: int|
            i < j < facts.len() ==> (#[trigger] facts[j]).key@ != facts[i].key@
                || facts[j].layer is None,
    ensures
        with_layers(known, facts).contains_key(facts[i].key@),
        with_layers(known, facts)[facts[i].key@] == facts[i].layer->0,
    decreases facts.len(),
{
    if i < facts.len() - 1 {
        let rest = facts.drop_last();
        assert(rest[i] == facts[i]);
        assert forall|j: int| i < j < rest.len() implies (#[trigger] rest[j]).key@ != rest[i].key@
            || rest[j].layer is None by {
            assert(rest[j] == facts[j]);
        }
        the_last_layer_counts(known, rest, i);
        let last = facts[facts.len() - 1];
        assert(last.key@ != facts[i].key@ || last.layer is None);
    }
}

/// A summary begins where the one before ended and leaves out as many of the last
/// messages as are kept; it comes only with the strategy that asks for it, only
/// for a conversation that is long enough, and only for enough messages at once.
pub proof fn a_summary_takes_in_what_is_old(summarized: int, total: int, config: MemoryConfig)
    ensures
        config.strategy != MemoryStrategy::Summary ==> summary_range(
            summarized,
            total,
            config,
        ) is None,
        total <= config.summarize_after_messages ==> summary_range(
            summarized,
            total,
            config,
        ) is None,
        total - config.recent_messages <= summarized ==> summary_range(
            summarized,
            total,
            config,
        ) is None,
        summary_range(summarized, total, config) matches Some((start, end)) ==> start == summarized
            && total - end == config.recent_messages && end - start >= config.summary_chunk_messages
            && start < end,
        config.strategy == MemoryStrategy::Summary && total > config.summarize_after_messages
            && total - config.recent_messages - summarized >= config.summary_chunk_messages && total
            - config.recent_messages > summarized ==> summary_range(
            summarized,
            total,
            config,
        ) is Some,
{
}

} // verus!
