//! What the command line asks for, as values of the library.
use vstd::prelude::*;

use crate::chat::memory::{MemoryConfig, MemoryStrategy};
use crate::chat::{ConversationGoal, ConversationStopMode};
use crate::errors::AppError;
use crate::providers::{
    AnswerFormat, BillingLookup, BillingProvider, Float32, Float64, ModelPricing, ResponseControl,
    ResponseFormat,
};
use crate::text::{clone_list, clone_option, is_blank, same, trim};

verus! {

broadcast use vstd::string::group_string_axioms;

/// The format of a reply, as the command line names it.
#[derive(Debug, Clone, Copy, PartialEq, Eq, Structural)]
pub enum CliResponseFormat {
    Text,
    JsonObject,
    Toon,
}

/// The shape of an answer, as the command line names it.
#[derive(Debug, Clone, Copy, PartialEq, Eq, Structural)]
pub enum CliAnswerFormat {
    Natural,
    Bullets,
    Numbered,
    Short,
    Steps,
    Table,
}

/// Who says that the goal of a dialogue is reached, as the command line names
/// it.
#[derive(Debug, Clone, Copy, PartialEq, Eq, Structural)]
pub enum CliConversationStopMode {
    Manual,
    State,
    Instruction,
    Combined,
}

/// How much of the history goes to the provider, as the command line names it.
#[derive(Debug, Clone, Copy, PartialEq, Eq, Structural)]
pub enum CliMemoryStrategy {
    Summary,
    SlidingWindow,
    StickyFacts,
    Branching,
    ScopedBranches,
}

/// How a reply is to be made.
#[derive(Debug, PartialEq, Eq)]
pub struct ResponseControlArgs {
    pub response_format: CliResponseFormat,
    pub answer_format: CliAnswerFormat,
    pub max_tokens: Option<u32>,
    pub max_completion_tokens: Option<u32>,
    pub temperature: Option<Float32>,
    pub top_p: Option<Float32>,
    pub top_k: Option<u32>,
    pub min_p: Option<Float32>,
    pub top_a: Option<Float32>,
    pub presence_penalty: Option<Float32>,
    pub frequency_penalty: Option<Float32>,
    pub repetition_penalty: Option<Float32>,
    pub seed: Option<i64>,
    pub reasoning_effort: Option<String>,
    pub include_reasoning: Option<bool>,
    pub verbosity: Option<String>,
    pub logprobs: Option<bool>,
    pub top_logprobs: Option<u32>,
    pub n: Option<u32>,
    pub store: Option<bool>,
    pub parallel_tool_calls: Option<bool>,
    pub user: Option<String>,
    pub service_tier: Option<String>,
    pub stop: Vec<String>,
    pub answer_prefix: Option<String>,
    pub answer_suffix: Option<String>,
    pub address_as: Option<String>,
    pub quote_question: bool,
    pub format_instruction: Option<String>,
    pub completion_instruction: Option<String>,
}

/// The format of a reply.
pub open spec fn format_of(format: CliResponseFormat) -> ResponseFormat {
    match format {
        CliResponseFormat::Text => ResponseFormat::Text,
        CliResponseFormat::JsonObject => ResponseFormat::JsonObject,
        CliResponseFormat::Toon => ResponseFormat::Toon,
    }
}

/// The shape of an answer.
pub open spec fn shape_of(format: CliAnswerFormat) -> AnswerFormat {
    match format {
        CliAnswerFormat::Natural => AnswerFormat::Natural,
        CliAnswerFormat::Bullets => AnswerFormat::Bullets,
        CliAnswerFormat::Numbered => AnswerFormat::Numbered,
        CliAnswerFormat::Short => AnswerFormat::Short,
        CliAnswerFormat::Steps => AnswerFormat::Steps,
        CliAnswerFormat::Table => AnswerFormat::Table,
    }
}

/// Whether a control asks for what the command line does, and for nothing
/// besides.
pub open spec fn controls(a: ResponseControlArgs, c: ResponseControl) -> bool {
    &&& c.format == format_of(a.response_format)
    &&& c.answer_format == shape_of(a.answer_format)
    &&& c.extra_params@.len() == 0
    &&& c.max_tokens == a.max_tokens
    &&& c.max_completion_tokens == a.max_completion_tokens
    &&& c.temperature == a.temperature
    &&& c.top_p == a.top_p
    &&& c.top_k == a.top_k
    &&& c.min_p == a.min_p
    &&& c.top_a == a.top_a
    &&& c.presence_penalty == a.presence_penalty
    &&& c.frequency_penalty == a.frequency_penalty
    &&& c.repetition_penalty == a.repetition_penalty
    &&& c.seed == a.seed
    &&& c.reasoning_effort == a.reasoning_effort
    &&& c.include_reasoning == a.include_reasoning
    &&& c.verbosity == a.verbosity
    &&& c.logprobs == a.logprobs
    &&& c.top_logprobs == a.top_logprobs
    &&& c.n == a.n
    &&& c.store == a.store
    &&& c.parallel_tool_calls == a.parallel_tool_calls
    &&& c.user == a.user
    &&& c.service_tier == a.service_tier
    &&& crate::text::texts(c.stop@) == crate::text::texts(a.stop@)
    &&& c.answer_prefix == a.answer_prefix
    &&& c.answer_suffix == a.answer_suffix
    &&& c.address_as == a.address_as
    &&& c.quote_question == a.quote_question
    &&& c.format_instruction == a.format_instruction
    &&& c.completion_instruction == a.completion_instruction
}

impl ResponseControlArgs {
    /// The control that the command line asks for.
    pub fn response_control(&self) -> (r: ResponseControl)
        ensures
            controls(*self, r),
    {
        ResponseControl {
            format: match self.response_format {
                CliResponseFormat::Text => ResponseFormat::Text,
                CliResponseFormat::JsonObject => ResponseFormat::JsonObject,
                CliResponseFormat::Toon => ResponseFormat::Toon,
            },
            answer_format: match self.answer_format {
                CliAnswerFormat::Natural => AnswerFormat::Natural,
                CliAnswerFormat::Bullets => AnswerFormat::Bullets,
                CliAnswerFormat::Numbered => AnswerFormat::Numbered,
                CliAnswerFormat::Short => AnswerFormat::Short,
                CliAnswerFormat::Steps => AnswerFormat::Steps,
                CliAnswerFormat::Table => AnswerFormat::Table,
            },
            extra_params: Vec::new(),
            max_tokens: self.max_tokens,
            max_completion_tokens: self.max_completion_tokens,
            temperature: self.temperature,
            top_p: self.top_p,
            top_k: self.top_k,
            min_p: self.min_p,
            top_a: self.top_a,
            presence_penalty: self.presence_penalty,
            frequency_penalty: self.frequency_penalty,
            repetition_penalty: self.repetition_penalty,
            seed: self.seed,
            reasoning_effort: clone_option(&self.reasoning_effort),
            include_reasoning: self.include_reasoning,
            verbosity: clone_option(&self.verbosity),
            logprobs: self.logprobs,
            top_logprobs: self.top_logprobs,
            n: self.n,
            store: self.store,
            parallel_tool_calls: self.parallel_tool_calls,
            user: clone_option(&self.user),
            service_tier: clone_option(&self.service_tier),
            stop: clone_list(&self.stop),
            answer_prefix: clone_option(&self.answer_prefix),
            answer_suffix: clone_option(&self.answer_suffix),
            address_as: clone_option(&self.address_as),
            quote_question: self.quote_question,
            format_instruction: clone_option(&self.format_instruction),
            completion_instruction: clone_option(&self.completion_instruction),
        }
    }
}

impl From<&ResponseControlArgs> for ResponseControl {
    fn from(args: &ResponseControlArgs) -> (r: Self)
        ensures
            controls(*args, r),
    {
        args.response_control()
    }
}

impl vstd::std_specs::convert::FromSpecImpl<&ResponseControlArgs> for ResponseControl {
    open spec fn obeys_from_spec() -> bool {
        false
    }

    open spec fn from_spec(args: &ResponseControlArgs) -> Self {
        arbitrary()
    }
}

/// Prices that the command line gives, per million tokens.
#[derive(Debug, PartialEq, Eq)]
pub struct PricingArgs {
    pub input_price_per_million: Option<Float64>,
    pub output_price_per_million: Option<Float64>,
    pub cache_hit_input_price_per_million: Option<Float64>,
    pub cache_miss_input_price_per_million: Option<Float64>,
    pub price_currency: String,
}

impl PricingArgs {
    /// The prices of the request: none without prices of input and output, and
    /// no half of them.
    pub fn model_pricing(&self) -> (r: Result<Option<ModelPricing>, AppError>)
        ensures
            match (self.input_price_per_million, self.output_price_per_million) {
                (None, None) => r matches Ok(None),
                (Some(input), Some(output)) => r matches Ok(Some(p)) && p.currency
                    == self.price_currency && p.input_per_million == Some(input)
                    && p.output_per_million == output && p.cache_hit_input_per_million
                    == self.cache_hit_input_price_per_million && p.cache_miss_input_per_million
                    == self.cache_miss_input_price_per_million,
                _ => r matches Err(AppError::InvalidInput(message)) && message@
                    == "Set both --input-price-per-million and --output-price-per-million to calculate request cost."@,
            },
    {
        match (self.input_price_per_million, self.output_price_per_million) {
            (None, None) => Ok(None),
            (Some(input), Some(output_per_million)) => Ok(
                Some(
                    ModelPricing {
                        currency: self.price_currency.clone(),
                        input_per_million: Some(input),
                        output_per_million,
                        cache_hit_input_per_million: self.cache_hit_input_price_per_million,
                        cache_miss_input_per_million: self.cache_miss_input_price_per_million,
                    },
                ),
            ),
            _ => Err(
                AppError::InvalidInput(
                    "Set both --input-price-per-million and --output-price-per-million to calculate request cost.".to_string(),
                ),
            ),
        }
    }
}

/// Where the command line has the cost of a request looked up.
#[derive(Debug, PartialEq, Eq)]
pub struct BillingArgs {
    pub openai_admin_token: Option<String>,
    pub openai_cost_poll_seconds: u64,
}

/// Whether a look-up is the one for a token; a blank one asks for none.
pub open spec fn looks_up(token: Option<String>, seconds: u64, r: Option<BillingLookup>) -> bool {
    match token {
        Some(token) if !crate::text::blank(token@) => r matches Some(lookup) && lookup.provider
            == BillingProvider::OpenAiCosts && lookup.admin_token@ == crate::text::trimmed(token@)
            && lookup.poll_seconds == seconds,
        _ => r is None,
    }
}

impl BillingArgs {
    /// Where the cost of the request is looked up.
    pub fn billing_lookup(&self) -> (r: Option<BillingLookup>)
        ensures
            looks_up(self.openai_admin_token, self.openai_cost_poll_seconds, r),
    {
        match &self.openai_admin_token {
            Some(token) => {
                if is_blank(token.as_str()) {
                    None
                } else {
                    Some(
                        BillingLookup {
                            provider: BillingProvider::OpenAiCosts,
                            admin_token: trim(token.as_str()).to_string(),
                            poll_seconds: self.openai_cost_poll_seconds,
                        },
                    )
                }
            },
            None => None,
        }
    }
}

/// The goal of a dialogue, as the command line gives it.
#[derive(Debug, PartialEq, Eq)]
pub struct ConversationGoalArgs {
    pub required_field: Vec<String>,
    pub goal_stop_mode: CliConversationStopMode,
}

/// Who says that the goal is reached.
pub open spec fn mode_of(mode: CliConversationStopMode) -> ConversationStopMode {
    match mode {
        CliConversationStopMode::Manual => ConversationStopMode::Manual,
        CliConversationStopMode::State => ConversationStopMode::State,
        CliConversationStopMode::Instruction => ConversationStopMode::Instruction,
        CliConversationStopMode::Combined => ConversationStopMode::Combined,
    }
}

impl ConversationGoalArgs {
    /// The goal of the dialogue.
    pub fn conversation_goal(&self) -> (r: ConversationGoal)
        ensures
            crate::text::texts(r.required_fields@) == crate::text::texts(self.required_field@),
            r.mode == mode_of(self.goal_stop_mode),
    {
        ConversationGoal {
            required_fields: clone_list(&self.required_field),
            mode: match self.goal_stop_mode {
                CliConversationStopMode::Manual => ConversationStopMode::Manual,
                CliConversationStopMode::State => ConversationStopMode::State,
                CliConversationStopMode::Instruction => ConversationStopMode::Instruction,
                CliConversationStopMode::Combined => ConversationStopMode::Combined,
            },
        }
    }
}

impl From<&ConversationGoalArgs> for ConversationGoal {
    fn from(args: &ConversationGoalArgs) -> (r: Self)
        ensures
            crate::text::texts(r.required_fields@) == crate::text::texts(args.required_field@),
            r.mode == mode_of(args.goal_stop_mode),
    {
        args.conversation_goal()
    }
}

impl vstd::std_specs::convert::FromSpecImpl<&ConversationGoalArgs> for ConversationGoal {
    open spec fn obeys_from_spec() -> bool {
        false
    }

    open spec fn from_spec(args: &ConversationGoalArgs) -> Self {
        arbitrary()
    }
}

/// How the memory of a chat is kept, as the command line gives it.
#[derive(Debug, PartialEq, Eq)]
pub struct MemoryArgs {
    pub memory_strategy: CliMemoryStrategy,
    pub memory_recent_messages: usize,
    pub memory_summarize_after_messages: usize,
    pub memory_summary_chunk_messages: usize,
    pub memory_summarize_at_context_percent: u8,
    pub memory_summary_prompt: String,
    pub memory_facts_prompt: String,
    pub memory_active_branch: String,
}

/// How much of the history goes to the provider.
pub open spec fn strategy_of(strategy: CliMemoryStrategy) -> MemoryStrategy {
    match strategy {
        CliMemoryStrategy::Summary => MemoryStrategy::Summary,
        CliMemoryStrategy::SlidingWindow => MemoryStrategy::SlidingWindow,
        CliMemoryStrategy::StickyFacts => MemoryStrategy::StickyFacts,
        CliMemoryStrategy::Branching => MemoryStrategy::Branching,
        CliMemoryStrategy::ScopedBranches => MemoryStrategy::ScopedBranches,
    }
}

/// Whether a memory is kept as the command line asks.
pub open spec fn keeps(a: MemoryArgs, c: MemoryConfig) -> bool {
    &&& c.strategy == strategy_of(a.memory_strategy)
    &&& c.recent_messages == a.memory_recent_messages
    &&& c.summarize_after_messages == a.memory_summarize_after_messages
    &&& c.summary_chunk_messages == a.memory_summary_chunk_messages
    &&& c.summarize_at_context_percent == a.memory_summarize_at_context_percent
    &&& c.summary_prompt == a.memory_summary_prompt
    &&& c.facts_prompt == a.memory_facts_prompt
    &&& c.active_branch == a.memory_active_branch
    &&& c.facts_extraction_prompt@.len() == 0
    &&& c.topic_classifier_prompt@.len() == 0
    &&& !c.topic_file_routing
    &&& !c.scoped_auto_route
    &&& !c.topic_auto_create
}

impl MemoryArgs {
    /// How the memory of the chat is kept.
    pub fn memory_config(&self) -> (r: MemoryConfig)
        ensures
            keeps(*self, r),
    {
        MemoryConfig {
            strategy: match self.memory_strategy {
                CliMemoryStrategy::Summary => MemoryStrategy::Summary,
                CliMemoryStrategy::SlidingWindow => MemoryStrategy::SlidingWindow,
                CliMemoryStrategy::StickyFacts => MemoryStrategy::StickyFacts,
                CliMemoryStrategy::Branching => MemoryStrategy::Branching,
                CliMemoryStrategy::ScopedBranches => MemoryStrategy::ScopedBranches,
            },
            recent_messages: self.memory_recent_messages,
            summarize_after_messages: self.memory_summarize_after_messages,
            summary_chunk_messages: self.memory_summary_chunk_messages,
            summarize_at_context_percent: self.memory_summarize_at_context_percent,
            summary_prompt: self.memory_summary_prompt.clone(),
            facts_prompt: self.memory_facts_prompt.clone(),
            active_branch: self.memory_active_branch.clone(),
            ..MemoryConfig::default()
        }
    }
}

impl From<&MemoryArgs> for MemoryConfig {
    fn from(args: &MemoryArgs) -> (r: Self)
        ensures
            keeps(*args, r),
    {
        args.memory_config()
    }
}

impl vstd::std_specs::convert::FromSpecImpl<&MemoryArgs> for MemoryConfig {
    open spec fn obeys_from_spec() -> bool {
        false
    }

    open spec fn from_spec(args: &MemoryArgs) -> Self {
        arbitrary()
    }
}

/// Which server of the Model Context Protocol the command line names.
#[derive(Debug, PartialEq, Eq)]
pub struct McpToolsArgs {
    pub server: Option<String>,
    pub command: Option<String>,
    pub args: Vec<String>,
    pub url: Option<String>,
}

/// The shape with a name.
pub open spec fn shape_named(name: Seq<char>) -> Option<AnswerFormat> {
    if name == "natural"@ {
        Some(AnswerFormat::Natural)
    } else if name == "bullets"@ {
        Some(AnswerFormat::Bullets)
    } else if name == "numbered"@ {
        Some(AnswerFormat::Numbered)
    } else if name == "short"@ {
        Some(AnswerFormat::Short)
    } else if name == "steps"@ {
        Some(AnswerFormat::Steps)
    } else if name == "table"@ {
        Some(AnswerFormat::Table)
    } else {
        None
    }
}

/// The shape of an answer with a name.
pub fn parse_answer_format(value: &str) -> (r: Option<AnswerFormat>)
    ensures
        r == shape_named(value@),
{
    if same(value, "natural") {
        Some(AnswerFormat::Natural)
    } else if same(value, "bullets") {
        Some(AnswerFormat::Bullets)
    } else if same(value, "numbered") {
        Some(AnswerFormat::Numbered)
    } else if same(value, "short") {
        Some(AnswerFormat::Short)
    } else if same(value, "steps") {
        Some(AnswerFormat::Steps)
    } else if same(value, "table") {
        Some(AnswerFormat::Table)
    } else {
        None
    }
}

/// The mode with a name.
pub open spec fn mode_named(name: Seq<char>) -> Option<ConversationStopMode> {
    if name == "manual"@ {
        Some(ConversationStopMode::Manual)
    } else if name == "state"@ {
        Some(ConversationStopMode::State)
    } else if name == "instruction"@ {
        Some(ConversationStopMode::Instruction)
    } else if name == "combined"@ {
        Some(ConversationStopMode::Combined)
    } else {
        None
    }
}

/// The mode with a name.
pub fn parse_stop_mode(value: &str) -> (r: Option<ConversationStopMode>)
    ensures
        r == mode_named(value@),
{
    if same(value, "manual") {
        Some(ConversationStopMode::Manual)
    } else if same(value, "state") {
        Some(ConversationStopMode::State)
    } else if same(value, "instruction") {
        Some(ConversationStopMode::Instruction)
    } else if same(value, "combined") {
        Some(ConversationStopMode::Combined)
    } else {
        None
    }
}

/// The name of a shape is parsed back to the shape.
pub proof fn shape_name_is_parsed_back(format: AnswerFormat)
    ensures
        shape_named(crate::providers::answer_format_name(format)) == Some(format),
{
    reveal_strlit("natural");
    reveal_strlit("bullets");
    reveal_strlit("numbered");
    reveal_strlit("short");
    reveal_strlit("steps");
    reveal_strlit("table");
    assert("natural"@[0] == 'n' && "natural"@[1] == 'a');
    assert("numbered"@[1] == 'u');
    assert("bullets"@[0] == 'b');
    assert("short"@[0] == 's' && "short"@[1] == 'h');
    assert("steps"@[0] == 's' && "steps"@[1] == 't');
    assert("table"@[0] == 't');
}

/// What is asked for on the command line is asked of the model, argument by
/// argument.
pub proof fn arguments_control_the_answer(a: ResponseControlArgs, c: ResponseControl)
    requires
        controls(a, c),
    ensures
        a.response_format == CliResponseFormat::Text ==> c.format == ResponseFormat::Text,
        a.response_format == CliResponseFormat::JsonObject ==> c.format
            == ResponseFormat::JsonObject,
        a.response_format == CliResponseFormat::Toon ==> c.format == ResponseFormat::Toon,
        a.answer_format == CliAnswerFormat::Natural ==> c.answer_format == AnswerFormat::Natural,
        a.answer_format == CliAnswerFormat::Bullets ==> c.answer_format == AnswerFormat::Bullets,
        a.answer_format == CliAnswerFormat::Numbered ==> c.answer_format == AnswerFormat::Numbered,
        a.answer_format == CliAnswerFormat::Short ==> c.answer_format == AnswerFormat::Short,
        a.answer_format == CliAnswerFormat::Steps ==> c.answer_format == AnswerFormat::Steps,
        a.answer_format == CliAnswerFormat::Table ==> c.answer_format == AnswerFormat::Table,
        c.max_tokens == a.max_tokens && c.max_completion_tokens == a.max_completion_tokens,
        c.temperature == a.temperature && c.top_p == a.top_p && c.top_k == a.top_k && c.min_p
            == a.min_p && c.top_a == a.top_a,
        c.presence_penalty == a.presence_penalty && c.frequency_penalty == a.frequency_penalty
            && c.repetition_penalty == a.repetition_penalty,
        c.seed == a.seed && c.n == a.n && c.store == a.store && c.user == a.user && c.service_tier
            == a.service_tier,
        c.reasoning_effort == a.reasoning_effort && c.include_reasoning == a.include_reasoning
            && c.verbosity == a.verbosity,
        c.logprobs == a.logprobs && c.top_logprobs == a.top_logprobs && c.parallel_tool_calls
            == a.parallel_tool_calls,
        c.answer_prefix == a.answer_prefix && c.answer_suffix == a.answer_suffix && c.address_as
            == a.address_as && c.quote_question == a.quote_question,
        c.format_instruction == a.format_instruction && c.completion_instruction
            == a.completion_instruction,
        c.stop@.len() == a.stop@.len(),
        forall|i: int| 0 <= i < a.stop@.len() ==> (#[trigger] c.stop@[i])@ == a.stop@[i]@,
{
    let told = crate::text::texts(c.stop@);
    assert(told.len() == c.stop@.len());
    assert forall|i: int| 0 <= i < a.stop@.len() implies (#[trigger] c.stop@[i])@ == a.stop@[i]@ by {
        assert(told[i] == crate::text::texts(a.stop@)[i]);
    }
}

/// How memory is kept is told by its arguments, one by one.
pub proof fn arguments_choose_the_memory(a: MemoryArgs, c: MemoryConfig)
    requires
        keeps(a, c),
    ensures
        a.memory_strategy == CliMemoryStrategy::Summary ==> c.strategy == MemoryStrategy::Summary,
        a.memory_strategy == CliMemoryStrategy::SlidingWindow ==> c.strategy
            == MemoryStrategy::SlidingWindow,
        a.memory_strategy == CliMemoryStrategy::StickyFacts ==> c.strategy
            == MemoryStrategy::StickyFacts,
        a.memory_strategy == CliMemoryStrategy::Branching ==> c.strategy
            == MemoryStrategy::Branching,
        a.memory_strategy == CliMemoryStrategy::ScopedBranches ==> c.strategy
            == MemoryStrategy::ScopedBranches,
        c.recent_messages == a.memory_recent_messages,
        c.summarize_after_messages == a.memory_summarize_after_messages,
        c.summary_chunk_messages == a.memory_summary_chunk_messages,
        c.summary_prompt == a.memory_summary_prompt && c.facts_prompt == a.memory_facts_prompt,
        c.active_branch == a.memory_active_branch,
        !c.topic_file_routing && !c.scoped_auto_route && !c.topic_auto_create,
{
}

/// Costs are looked up with a token that holds something, without the white space
/// around it, and without a token not at all.
pub proof fn costs_are_looked_up_with_a_token(
    token: Option<String>,
    seconds: u64,
    r: Option<BillingLookup>,
)
    requires
        looks_up(token, seconds, r),
    ensures
        token is None ==> r is None,
        (token matches Some(t) && crate::text::blank(t@)) ==> r is None,
        (token matches Some(t) && !crate::text::blank(t@)) ==> r is Some && r->0.admin_token@
            == crate::text::trimmed(token->0@) && r->0.poll_seconds == seconds,
{
}

/// The ways in which a conversation comes to its end have these names.
pub proof fn stop_modes_have_these_names(name: Seq<char>)
    ensures
        mode_named(name) == Some(ConversationStopMode::Manual) <==> name == "manual"@,
        mode_named(name) == Some(ConversationStopMode::State) <==> name == "state"@,
        mode_named(name) == Some(ConversationStopMode::Instruction) <==> name == "instruction"@,
        mode_named(name) == Some(ConversationStopMode::Combined) <==> name == "combined"@,
        mode_of(CliConversationStopMode::Manual) == ConversationStopMode::Manual,
        mode_of(CliConversationStopMode::State) == ConversationStopMode::State,
        mode_of(CliConversationStopMode::Instruction) == ConversationStopMode::Instruction,
        mode_of(CliConversationStopMode::Combined) == ConversationStopMode::Combined,
{
    reveal_strlit("manual");
    reveal_strlit("state");
    reveal_strlit("instruction");
    reveal_strlit("combined");
    assert("manual"@.len() == 6 && "state"@.len() == 5);
    assert("instruction"@.len() == 11 && "combined"@.len() == 8);
}

} // verus!
