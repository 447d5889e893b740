//! The providers, their defaults, and what a chat request and its reply hold.
use vstd::prelude::*;

use crate::errors::AppError;
use crate::text::{cat2, cat3, join, same, to_ascii_lowercase};

pub mod deepseek;
pub mod gigachat;
pub mod kimi;
pub mod openai_compatible;
pub mod openrouter;

verus! {

broadcast use vstd::string::group_string_axioms;

/// The providers that profiles can name.
#[derive(Debug, Clone, Copy, PartialEq, Eq, PartialOrd, Ord, Structural)]
pub enum ProviderKind {
    OpenAiCompatible,
    OpenRouter,
    DeepSeek,
    GigaChat,
    Kimi,
}

/// The name of a provider.
pub open spec fn provider_name(kind: ProviderKind) -> Seq<char> {
    match kind {
        ProviderKind::OpenAiCompatible => "openai-compatible"@,
        ProviderKind::OpenRouter => "openrouter"@,
        ProviderKind::DeepSeek => "deepseek"@,
        ProviderKind::GigaChat => "gigachat"@,
        ProviderKind::Kimi => "kimi"@,
    }
}

/// The provider that a name in lower case stands for.
pub open spec fn provider_named(name: Seq<char>) -> Option<ProviderKind> {
    if name == "openai-compatible"@ || name == "openai"@ || name == "compatible"@ {
        Some(ProviderKind::OpenAiCompatible)
    } else if name == "openrouter"@ {
        Some(ProviderKind::OpenRouter)
    } else if name == "deepseek"@ {
        Some(ProviderKind::DeepSeek)
    } else if name == "gigachat"@ {
        Some(ProviderKind::GigaChat)
    } else if name == "kimi"@ || name == "moonshot"@ {
        Some(ProviderKind::Kimi)
    } else {
        None
    }
}

/// How a provider authenticates.
#[derive(Debug, Clone, Copy, PartialEq, Eq, Structural)]
pub enum AuthScheme {
    Bearer,
}

/// A header that every request to a provider carries.
#[derive(Debug, Clone, Copy, PartialEq, Eq)]
pub struct StaticHeader {
    pub name: &'static str,
    pub value: &'static str,
}

/// What is known of a provider.
#[derive(Debug, Clone, Copy, PartialEq, Eq)]
pub struct ProviderSpec {
    pub kind: ProviderKind,
    pub display_name: &'static str,
    pub default_base_url: &'static str,
    pub default_model: &'static str,
    pub auth_scheme: AuthScheme,
    pub extra_headers: &'static [StaticHeader],
    pub suggested_models: &'static [&'static str],
}

/// The base URL that a provider is reached at unless a profile says otherwise.
pub open spec fn provider_base_url(kind: ProviderKind) -> Seq<char> {
    match kind {
        ProviderKind::OpenAiCompatible => "https://api.openai.com/v1"@,
        ProviderKind::OpenRouter => "https://openrouter.ai/api/v1"@,
        ProviderKind::DeepSeek => "https://api.deepseek.com/v1"@,
        ProviderKind::GigaChat => "https://gigachat.devices.sberbank.ru/api/v1"@,
        ProviderKind::Kimi => "https://api.moonshot.ai/v1"@,
    }
}

/// The model that a provider is asked for unless a profile says otherwise.
pub open spec fn provider_model(kind: ProviderKind) -> Seq<char> {
    match kind {
        ProviderKind::OpenAiCompatible => "gpt-4.1-mini"@,
        ProviderKind::OpenRouter => "openai/gpt-4.1-mini"@,
        ProviderKind::DeepSeek => "deepseek-chat"@,
        ProviderKind::GigaChat => "GigaChat"@,
        ProviderKind::Kimi => "moonshot-v1-8k"@,
    }
}

/// The name of a provider in menus.
pub open spec fn provider_display_name(kind: ProviderKind) -> Seq<char> {
    match kind {
        ProviderKind::OpenAiCompatible => "OpenAI-compatible"@,
        ProviderKind::OpenRouter => "OpenRouter"@,
        ProviderKind::DeepSeek => "DeepSeek"@,
        ProviderKind::GigaChat => "GigaChat"@,
        ProviderKind::Kimi => "Kimi"@,
    }
}

/// The headers that every request to a provider carries, as name and value.
pub open spec fn provider_headers(kind: ProviderKind) -> Seq<(Seq<char>, Seq<char>)> {
    match kind {
        ProviderKind::OpenRouter => seq![
            ("HTTP-Referer"@, "https://ai-playground.local"@),
            ("X-Title"@, "ai-playground"@),
        ],
        _ => Seq::empty(),
    }
}

/// The models that a provider is known for.
pub open spec fn provider_suggestions(kind: ProviderKind) -> Seq<Seq<char>> {
    match kind {
        ProviderKind::DeepSeek => seq!["deepseek-chat"@, "deepseek-reasoner"@],
        ProviderKind::Kimi => seq!["moonshot-v1-8k"@, "moonshot-v1-32k"@, "moonshot-v1-128k"@],
        _ => Seq::empty(),
    }
}

/// The headers of a list, as name and value.
pub open spec fn header_texts(headers: Seq<StaticHeader>) -> Seq<(Seq<char>, Seq<char>)> {
    Seq::new(headers.len(), |i: int| (headers[i].name@, headers[i].value@))
}

/// The texts of a list of literals.
pub open spec fn literal_texts(list: Seq<&'static str>) -> Seq<Seq<char>> {
    Seq::new(list.len(), |i: int| list[i]@)
}

/// Whether `spec` is what is known of `kind`.
pub open spec fn describes(spec: ProviderSpec, kind: ProviderKind) -> bool {
    &&& spec.kind == kind
    &&& spec.display_name@ == provider_display_name(kind)
    &&& spec.default_base_url@ == provider_base_url(kind)
    &&& spec.default_model@ == provider_model(kind)
    &&& spec.auth_scheme == AuthScheme::Bearer
    &&& header_texts(spec.extra_headers@) == provider_headers(kind)
    &&& literal_texts(spec.suggested_models@) == provider_suggestions(kind)
}

impl ProviderKind {
    /// Every provider, in the order in which menus list them.
    pub fn all() -> (r: &'static [ProviderKind])
        ensures
            r@ == all_providers(),
    {
        &[
            ProviderKind::OpenAiCompatible,
            ProviderKind::OpenRouter,
            ProviderKind::DeepSeek,
            ProviderKind::GigaChat,
            ProviderKind::Kimi,
        ]
    }

    /// The name of the provider.
    pub fn name(&self) -> (r: &'static str)
        ensures
            r@ == provider_name(*self),
    {
        match self {
            ProviderKind::OpenAiCompatible => "openai-compatible",
            ProviderKind::OpenRouter => "openrouter",
            ProviderKind::DeepSeek => "deepseek",
            ProviderKind::GigaChat => "gigachat",
            ProviderKind::Kimi => "kimi",
        }
    }

    /// The provider that a name stands for, whatever the case of its ASCII
    /// letters.
    pub fn parse(value: &str) -> (r: Result<ProviderKind, AppError>)
        ensures
            match provider_named(crate::text::ascii_lower(value@)) {
                Some(kind) => r == Ok::<ProviderKind, AppError>(kind),
                None => r matches Err(AppError::UnsupportedProvider(name)) && name@
                    == crate::text::ascii_lower(value@),
            },
    {
        let lower = to_ascii_lowercase(value);
        let name = lower.as_str();
        if same(name, "openai-compatible") || same(name, "openai") || same(name, "compatible") {
            Ok(ProviderKind::OpenAiCompatible)
        } else if same(name, "openrouter") {
            Ok(ProviderKind::OpenRouter)
        } else if same(name, "deepseek") {
            Ok(ProviderKind::DeepSeek)
        } else if same(name, "gigachat") {
            Ok(ProviderKind::GigaChat)
        } else if same(name, "kimi") || same(name, "moonshot") {
            Ok(ProviderKind::Kimi)
        } else {
            Err(AppError::UnsupportedProvider(lower))
        }
    }

    /// What is known of the provider.
    pub fn spec(&self) -> (r: ProviderSpec)
        ensures
            describes(r, *self),
    {
        match self {
            ProviderKind::OpenAiCompatible => openai_compatible::spec(),
            ProviderKind::OpenRouter => openrouter::spec(),
            ProviderKind::DeepSeek => deepseek::spec(),
            ProviderKind::GigaChat => gigachat::spec(),
            ProviderKind::Kimi => kimi::spec(),
        }
    }

    /// The base URL unless a profile says otherwise.
    pub fn default_base_url(&self) -> (r: &'static str)
        ensures
            r@ == provider_base_url(*self),
    {
        self.spec().default_base_url
    }

    /// The model unless a profile says otherwise.
    pub fn default_model(&self) -> (r: &'static str)
        ensures
            r@ == provider_model(*self),
    {
        self.spec().default_model
    }
}

impl std::str::FromStr for ProviderKind {
    type Err = AppError;

    fn from_str(value: &str) -> (r: Result<ProviderKind, AppError>)
        ensures
            match provider_named(crate::text::ascii_lower(value@)) {
                Some(kind) => r == Ok::<ProviderKind, AppError>(kind),
                None => r matches Err(AppError::UnsupportedProvider(name)) && name@
                    == crate::text::ascii_lower(value@),
            },
    {
        ProviderKind::parse(value)
    }
}

/// Every provider, in the order in which menus list them.
pub open spec fn all_providers() -> Seq<ProviderKind> {
    seq![
        ProviderKind::OpenAiCompatible,
        ProviderKind::OpenRouter,
        ProviderKind::DeepSeek,
        ProviderKind::GigaChat,
        ProviderKind::Kimi,
    ]
}

/// A provider's own name stands for it.
pub proof fn provider_name_is_parsed_back(kind: ProviderKind)
    ensures
        provider_named(provider_name(kind)) == Some(kind),
        crate::text::ascii_lower(provider_name(kind)) == provider_name(kind),
{
    reveal_strlit("openai-compatible");
    reveal_strlit("openai");
    reveal_strlit("compatible");
    reveal_strlit("openrouter");
    reveal_strlit("deepseek");
    reveal_strlit("gigachat");
    reveal_strlit("kimi");
    reveal_strlit("moonshot");
    let name = provider_name(kind);
    assert(crate::text::ascii_lower(name) =~= name);
    assert("openrouter"@[4] != "openai"@[4]);
    assert("openrouter"@.len() == 10 && "openai"@.len() == 6 && "compatible"@.len() == 10);
    assert("openrouter"@[0] != "compatible"@[0]);
    assert("deepseek"@.len() == 8 && "gigachat"@.len() == 8 && "moonshot"@.len() == 8);
    assert("deepseek"@[0] == 'd' && "gigachat"@[0] == 'g' && "moonshot"@[0] == 'm');
    assert("kimi"@.len() == 4 && "openai-compatible"@.len() == 17);
}

/// Two providers never share a name.
pub proof fn provider_names_differ(a: ProviderKind, b: ProviderKind)
    requires
        provider_name(a) == provider_name(b),
    ensures
        a == b,
{
    provider_name_is_parsed_back(a);
    provider_name_is_parsed_back(b);
}

/// Who speaks in a message.
#[derive(Debug, Clone, Copy, PartialEq, Eq, Structural)]
pub enum Role {
    System,
    User,
    Assistant,
}

/// One message of a dialogue.
#[derive(Debug, PartialEq, Eq)]
pub struct ChatMessage {
    pub role: Role,
    pub content: String,
}

impl Clone for ChatMessage {
    fn clone(&self) -> (r: Self)
        ensures
            r == *self,
    {
        ChatMessage { role: self.role, content: self.content.clone() }
    }
}

/// The messages of a list, as speaker and text.
pub open spec fn message_views(messages: Seq<ChatMessage>) -> Seq<(Role, Seq<char>)> {
    Seq::new(messages.len(), |i: int| (messages[i].role, messages[i].content@))
}

/// A system message.
pub fn system_message(content: String) -> (r: ChatMessage)
    ensures
        r.role == Role::System,
        r.content == content,
{
    ChatMessage { role: Role::System, content }
}

/// The format that a reply is asked to have.
#[derive(Debug, Clone, Copy, PartialEq, Eq, Structural)]
pub enum ResponseFormat {
    Text,
    JsonObject,
    Toon,
}

impl ResponseFormat {
    /// The name of the format.
    pub fn name(&self) -> (r: &'static str)
        ensures
            r@ == (match *self {
                ResponseFormat::Text => "text"@,
                ResponseFormat::JsonObject => "json-object"@,
                ResponseFormat::Toon => "toon"@,
            }),
    {
        match self {
            ResponseFormat::Text => "text",
            ResponseFormat::JsonObject => "json-object",
            ResponseFormat::Toon => "toon",
        }
    }
}

impl Default for ResponseFormat {
    fn default() -> (r: Self)
        ensures
            r == ResponseFormat::Text,
    {
        ResponseFormat::Text
    }
}

/// The shape that an answer is asked to have.
#[derive(Debug, Clone, Copy, PartialEq, Eq, Structural)]
pub enum AnswerFormat {
    Natural,
    Bullets,
    Numbered,
    Short,
    Steps,
    Table,
}

/// The name of an answer shape.
pub open spec fn answer_format_name(format: AnswerFormat) -> Seq<char> {
    match format {
        AnswerFormat::Natural => "natural"@,
        AnswerFormat::Bullets => "bullets"@,
        AnswerFormat::Numbered => "numbered"@,
        AnswerFormat::Short => "short"@,
        AnswerFormat::Steps => "steps"@,
        AnswerFormat::Table => "table"@,
    }
}

impl AnswerFormat {
    /// The name of the shape.
    pub fn name(&self) -> (r: &'static str)
        ensures
            r@ == answer_format_name(*self),
    {
        match self {
            AnswerFormat::Natural => "natural",
            AnswerFormat::Bullets => "bullets",
            AnswerFormat::Numbered => "numbered",
            AnswerFormat::Short => "short",
            AnswerFormat::Steps => "steps",
            AnswerFormat::Table => "table",
        }
    }
}

impl Default for AnswerFormat {
    fn default() -> (r: Self)
        ensures
            r == AnswerFormat::Natural,
    {
        AnswerFormat::Natural
    }
}

/// A number with a fraction, carried as the 32 bits of its IEEE 754 form.
#[derive(Debug, Clone, Copy, PartialEq, Eq, Structural)]
pub struct Float32 {
    pub bits: u32,
}

/// A number with a fraction, carried as the 64 bits of its IEEE 754 form.
#[derive(Debug, Clone, Copy, PartialEq, Eq, Structural)]
pub struct Float64 {
    pub bits: u64,
}

/// How a reply is to be made: sampling, limits and the shape of the answer.
/// `extra_params` holds each further parameter's name and its JSON text.
#[derive(Debug, PartialEq, Eq)]
pub struct ResponseControl {
    pub format: ResponseFormat,
    pub answer_format: AnswerFormat,
    pub max_tokens: Option<u32>,
    pub max_completion_tokens: Option<u32>,
    pub temperature: Option<Float32>,
    pub top_p: Option<Float32>,
    pub top_k: Option<u32>,
    pub min_p: Option<Float32>,
    pub top_a: Option<Float32>,
    pub presence_penalty: Option<Float32>,
    pub frequency_penalty: Option<Float32>,
    pub repetition_penalty: Option<Float32>,
    pub seed: Option<i64>,
    pub reasoning_effort: Option<String>,
    pub include_reasoning: Option<bool>,
    pub verbosity: Option<String>,
    pub logprobs: Option<bool>,
    pub top_logprobs: Option<u32>,
    pub n: Option<u32>,
    pub store: Option<bool>,
    pub parallel_tool_calls: Option<bool>,
    pub user: Option<String>,
    pub service_tier: Option<String>,
    pub extra_params: Vec<(String, String)>,
    pub stop: Vec<String>,
    pub answer_prefix: Option<String>,
    pub answer_suffix: Option<String>,
    pub address_as: Option<String>,
    pub quote_question: bool,
    pub format_instruction: Option<String>,
    pub completion_instruction: Option<String>,
}

/// Whether two controls ask for the same.
pub open spec fn same_control(a: ResponseControl, b: ResponseControl) -> bool {
    &&& same_sampling(a, b)
    &&& a.answer_suffix == b.answer_suffix
    &&& a.completion_instruction == b.completion_instruction
}

/// Whether two controls ask for the same but for the suffix of the answer and
/// the instruction on when to finish.
pub open spec fn same_sampling(a: ResponseControl, b: ResponseControl) -> bool {
    &&& a.format == b.format
    &&& a.answer_format == b.answer_format
    &&& a.max_tokens == b.max_tokens
    &&& a.max_completion_tokens == b.max_completion_tokens
    &&& a.temperature == b.temperature
    &&& a.top_p == b.top_p
    &&& a.top_k == b.top_k
    &&& a.min_p == b.min_p
    &&& a.top_a == b.top_a
    &&& a.presence_penalty == b.presence_penalty
    &&& a.frequency_penalty == b.frequency_penalty
    &&& a.repetition_penalty == b.repetition_penalty
    &&& a.seed == b.seed
    &&& a.reasoning_effort == b.reasoning_effort
    &&& a.include_reasoning == b.include_reasoning
    &&& a.verbosity == b.verbosity
    &&& a.logprobs == b.logprobs
    &&& a.top_logprobs == b.top_logprobs
    &&& a.n == b.n
    &&& a.store == b.store
    &&& a.parallel_tool_calls == b.parallel_tool_calls
    &&& a.user == b.user
    &&& a.service_tier == b.service_tier
    &&& a.extra_params@ == b.extra_params@
    &&& a.stop@ == b.stop@
    &&& a.answer_prefix == b.answer_prefix
    &&& a.address_as == b.address_as
    &&& a.quote_question == b.quote_question
    &&& a.format_instruction == b.format_instruction
}

/// Whether a control asks for nothing.
pub open spec fn asks_nothing(c: ResponseControl) -> bool {
    &&& c.format == ResponseFormat::Text
    &&& c.answer_format == AnswerFormat::Natural
    &&& c.max_tokens is None
    &&& c.max_completion_tokens is None
    &&& c.temperature is None
    &&& c.top_p is None
    &&& c.top_k is None
    &&& c.min_p is None
    &&& c.top_a is None
    &&& c.presence_penalty is None
    &&& c.frequency_penalty is None
    &&& c.repetition_penalty is None
    &&& c.seed is None
    &&& c.reasoning_effort is None
    &&& c.include_reasoning is None
    &&& c.verbosity is None
    &&& c.logprobs is None
    &&& c.top_logprobs is None
    &&& c.n is None
    &&& c.store is None
    &&& c.parallel_tool_calls is None
    &&& c.user is None
    &&& c.service_tier is None
    &&& c.extra_params@.len() == 0
    &&& c.stop@.len() == 0
    &&& c.answer_prefix is None
    &&& c.answer_suffix is None
    &&& c.address_as is None
    &&& !c.quote_question
    &&& c.format_instruction is None
    &&& c.completion_instruction is None
}

/// One text, or none.
pub open spec fn optional(condition: bool, text: Seq<char>) -> Seq<Seq<char>> {
    if condition {
        seq![text]
    } else {
        Seq::empty()
    }
}

/// The rules on the shape of the answer that a control gives, in order.
pub open spec fn format_rules(c: ResponseControl) -> Seq<Seq<char>> {
    let shape = match c.answer_format {
        AnswerFormat::Natural => Seq::empty(),
        AnswerFormat::Bullets => seq!["Answer as concise bullet points."@],
        AnswerFormat::Numbered => seq!["Answer as a numbered list."@],
        AnswerFormat::Short => seq!["Answer in one or two short sentences."@],
        AnswerFormat::Steps => seq!["Answer as clear step-by-step instructions."@],
        AnswerFormat::Table => seq!["Answer as a Markdown table when possible."@],
    };
    shape + optional(
        c.quote_question,
        "Start by quoting the user's question in one short line."@,
    ) + optional(
        c.address_as is Some,
        "Address the user as \""@ + c.address_as->0@ + "\" at the start of the answer."@,
    ) + optional(
        c.answer_prefix is Some,
        "Start the answer exactly with this text: "@ + c.answer_prefix->0@,
    ) + optional(
        c.answer_suffix is Some,
        "End the answer exactly with this text: "@ + c.answer_suffix->0@,
    )
}

/// The system texts that a control adds before the messages, in order.
pub open spec fn instruction_texts(c: ResponseControl) -> Seq<Seq<char>> {
    let rules = format_rules(c);
    let format = match c.format {
        ResponseFormat::Text => optional(c.format_instruction is Some, c.format_instruction->0@),
        ResponseFormat::JsonObject => seq![
            if c.format_instruction is Some {
                c.format_instruction->0@
            } else {
                "Return only a valid JSON object. Do not include Markdown, prose, or code fences."@
            },
        ],
        ResponseFormat::Toon => seq![
            if c.format_instruction is Some {
                c.format_instruction->0@
            } else {
                "Return only a valid TOON document. Do not include Markdown, prose, JSON, or code fences."@
            },
        ],
    };
    optional(
        rules.len() > 0,
        "Answer formatting rules:\n- "@ + crate::text::joined(rules, "\n- "@),
    ) + format + optional(c.completion_instruction is Some, c.completion_instruction->0@)
}

/// Texts as system messages.
pub open spec fn as_system(texts: Seq<Seq<char>>) -> Seq<(Role, Seq<char>)> {
    Seq::new(texts.len(), |i: int| (Role::System, texts[i]))
}

impl Default for ResponseControl {
    fn default() -> (r: Self)
        ensures
            asks_nothing(r),
    {
        ResponseControl {
            format: ResponseFormat::Text,
            answer_format: AnswerFormat::Natural,
            max_tokens: None,
            max_completion_tokens: None,
            temperature: None,
            top_p: None,
            top_k: None,
            min_p: None,
            top_a: None,
            presence_penalty: None,
            frequency_penalty: None,
            repetition_penalty: None,
            seed: None,
            reasoning_effort: None,
            include_reasoning: None,
            verbosity: None,
            logprobs: None,
            top_logprobs: None,
            n: None,
            store: None,
            parallel_tool_calls: None,
            user: None,
            service_tier: None,
            extra_params: Vec::new(),
            stop: Vec::new(),
            answer_prefix: None,
            answer_suffix: None,
            address_as: None,
            quote_question: false,
            format_instruction: None,
            completion_instruction: None,
        }
    }
}

fn clone_pairs(v: &Vec<(String, String)>) -> (r: Vec<(String, String)>)
    ensures
        r@ == v@,
{
    let mut out: Vec<(String, String)> = Vec::new();
    let mut i: usize = 0;
    while i < v.len()
        invariant
            i <= v.len(),
            out@ == v@.take(i as int),
        decreases v.len() - i,
    {
        out.push((v[i].0.clone(), v[i].1.clone()));
        assert(v@.take(i + 1) =~= v@.take(i as int).push(v@[i as int]));
        i = i + 1;
    }
    assert(v@.take(i as int) =~= v@);
    out
}

impl Clone for ResponseControl {
    fn clone(&self) -> (r: Self)
        ensures
            same_control(r, *self),
    {
        ResponseControl {
            format: self.format,
            answer_format: self.answer_format,
            max_tokens: self.max_tokens,
            max_completion_tokens: self.max_completion_tokens,
            temperature: self.temperature,
            top_p: self.top_p,
            top_k: self.top_k,
            min_p: self.min_p,
            top_a: self.top_a,
            presence_penalty: self.presence_penalty,
            frequency_penalty: self.frequency_penalty,
            repetition_penalty: self.repetition_penalty,
            seed: self.seed,
            reasoning_effort: crate::text::clone_option(&self.reasoning_effort),
            include_reasoning: self.include_reasoning,
            verbosity: crate::text::clone_option(&self.verbosity),
            logprobs: self.logprobs,
            top_logprobs: self.top_logprobs,
            n: self.n,
            store: self.store,
            parallel_tool_calls: self.parallel_tool_calls,
            user: crate::text::clone_option(&self.user),
            service_tier: crate::text::clone_option(&self.service_tier),
            extra_params: clone_pairs(&self.extra_params),
            stop: crate::text::clone_list(&self.stop),
            answer_prefix: crate::text::clone_option(&self.answer_prefix),
            answer_suffix: crate::text::clone_option(&self.answer_suffix),
            address_as: crate::text::clone_option(&self.address_as),
            quote_question: self.quote_question,
            format_instruction: crate::text::clone_option(&self.format_instruction),
            completion_instruction: crate::text::clone_option(&self.completion_instruction),
        }
    }
}

fn push_text(list: &mut Vec<String>, text: String)
    ensures
        crate::text::texts(final(list)@) == crate::text::texts(old(list)@) + seq![text@],
{
    list.push(text);
    assert(crate::text::texts(list@) =~= crate::text::texts(old(list)@) + seq![text@]);
}

pub fn push_system(list: &mut Vec<ChatMessage>, text: String)
    ensures
        message_views(final(list)@) == message_views(old(list)@) + seq![(Role::System, text@)],
{
    list.push(system_message(text));
    assert(message_views(list@) =~= message_views(old(list)@) + seq![(Role::System, text@)]);
}

impl ResponseControl {
    /// The control that asks for nothing.
    pub fn uncontrolled() -> (r: Self)
        ensures
            asks_nothing(r),
    {
        ResponseControl::default()
    }

    /// Whether the control asks for nothing.
    pub fn is_uncontrolled(&self) -> (r: bool)
        ensures
            r == asks_nothing(*self),
    {
        self.format == ResponseFormat::Text && self.answer_format == AnswerFormat::Natural
            && self.max_tokens.is_none() && self.max_completion_tokens.is_none()
            && self.temperature.is_none() && self.top_p.is_none() && self.top_k.is_none()
            && self.min_p.is_none() && self.top_a.is_none() && self.presence_penalty.is_none()
            && self.frequency_penalty.is_none() && self.repetition_penalty.is_none()
            && self.seed.is_none() && self.reasoning_effort.is_none()
            && self.include_reasoning.is_none() && self.verbosity.is_none()
            && self.logprobs.is_none() && self.top_logprobs.is_none() && self.n.is_none()
            && self.store.is_none() && self.parallel_tool_calls.is_none() && self.user.is_none()
            && self.service_tier.is_none() && self.extra_params.is_empty() && self.stop.is_empty()
            && self.answer_prefix.is_none() && self.answer_suffix.is_none()
            && self.address_as.is_none() && !self.quote_question
            && self.format_instruction.is_none() && self.completion_instruction.is_none()
    }

    /// The system message on the shape of the answer, where a rule asks for one.
    pub fn answer_format_instruction(&self) -> (r: Option<String>)
        ensures
            match r {
                Some(text) => format_rules(*self).len() > 0 && text@
                    == "Answer formatting rules:\n- "@ + crate::text::joined(
                    format_rules(*self),
                    "\n- "@,
                ),
                None => format_rules(*self).len() == 0,
            },
    {
        let mut rules: Vec<String> = Vec::new();
        assert(crate::text::texts(rules@) =~= Seq::<Seq<char>>::empty());
        match self.answer_format {
            AnswerFormat::Natural => {},
            AnswerFormat::Bullets => push_text(
                &mut rules,
                "Answer as concise bullet points.".to_string(),
            ),
            AnswerFormat::Numbered => push_text(
                &mut rules,
                "Answer as a numbered list.".to_string(),
            ),
            AnswerFormat::Short => push_text(
                &mut rules,
                "Answer in one or two short sentences.".to_string(),
            ),
            AnswerFormat::Steps => push_text(
                &mut rules,
                "Answer as clear step-by-step instructions.".to_string(),
            ),
            AnswerFormat::Table => push_text(
                &mut rules,
                "Answer as a Markdown table when possible.".to_string(),
            ),
        }
        if self.quote_question {
            push_text(
                &mut rules,
                "Start by quoting the user's question in one short line.".to_string(),
            );
        }
        if let Some(name) = &self.address_as {
            push_text(
                &mut rules,
                cat3("Address the user as \"", name.as_str(), "\" at the start of the answer."),
            );
        }
        if let Some(prefix) = &self.answer_prefix {
            push_text(
                &mut rules,
                cat2("Start the answer exactly with this text: ", prefix.as_str()),
            );
        }
        if let Some(suffix) = &self.answer_suffix {
            push_text(
                &mut rules,
                cat2("End the answer exactly with this text: ", suffix.as_str()),
            );
        }
        assert(crate::text::texts(rules@) =~= format_rules(*self));
        if rules.is_empty() {
            None
        } else {
            let text = join(&rules, "\n- ");
            Some(cat2("Answer formatting rules:\n- ", text.as_str()))
        }
    }

    /// The system messages that the control adds before the dialogue: the shape
    /// of the answer, then its format, then when to finish.
    pub fn instruction_messages(&self) -> (r: Vec<ChatMessage>)
        ensures
            message_views(r@) == as_system(instruction_texts(*self)),
    {
        let mut messages: Vec<ChatMessage> = Vec::new();
        assert(message_views(messages@) =~= Seq::<(Role, Seq<char>)>::empty());
        if let Some(instruction) = self.answer_format_instruction() {
            push_system(&mut messages, instruction);
        }
        match self.format {
            ResponseFormat::Text => {
                if let Some(instruction) = &self.format_instruction {
                    push_system(&mut messages, instruction.clone());
                }
            },
            ResponseFormat::JsonObject => {
                let text = match &self.format_instruction {
                    Some(instruction) => instruction.clone(),
                    None => {
                        "Return only a valid JSON object. Do not include Markdown, prose, or code fences.".to_string()
                    },
                };
                push_system(&mut messages, text);
            },
            ResponseFormat::Toon => {
                let text = match &self.format_instruction {
                    Some(instruction) => instruction.clone(),
                    None => {
                        "Return only a valid TOON document. Do not include Markdown, prose, JSON, or code fences.".to_string()
                    },
                };
                push_system(&mut messages, text);
            },
        }
        if let Some(instruction) = &self.completion_instruction {
            push_system(&mut messages, instruction.clone());
        }
        assert(message_views(messages@) =~= as_system(instruction_texts(*self)));
        messages
    }
}

/// A control that asks for nothing adds no message.
pub proof fn uncontrolled_adds_no_message(c: ResponseControl)
    requires
        asks_nothing(c),
    ensures
        instruction_texts(c).len() == 0,
{
}

/// What a model costs, per million tokens.
#[derive(Debug, PartialEq, Eq)]
pub struct ModelPricing {
    pub currency: String,
    pub input_per_million: Option<Float64>,
    pub output_per_million: Float64,
    pub cache_hit_input_per_million: Option<Float64>,
    pub cache_miss_input_per_million: Option<Float64>,
}

impl Clone for ModelPricing {
    fn clone(&self) -> (r: Self)
        ensures
            r == *self,
    {
        ModelPricing {
            currency: self.currency.clone(),
            input_per_million: self.input_per_million,
            output_per_million: self.output_per_million,
            cache_hit_input_per_million: self.cache_hit_input_per_million,
            cache_miss_input_per_million: self.cache_miss_input_per_million,
        }
    }
}

/// A model that a provider offers.
#[derive(Debug, Clone, PartialEq, Eq)]
pub struct ModelInfo {
    pub id: String,
    pub pricing: Option<ModelPricing>,
}

/// Where a request's cost is looked up after the request.
#[derive(Debug, PartialEq, Eq)]
pub struct BillingLookup {
    pub provider: BillingProvider,
    pub admin_token: String,
    pub poll_seconds: u64,
}

impl Clone for BillingLookup {
    fn clone(&self) -> (r: Self)
        ensures
            r == *self,
    {
        BillingLookup {
            provider: self.provider,
            admin_token: self.admin_token.clone(),
            poll_seconds: self.poll_seconds,
        }
    }
}

/// The billing services.
#[derive(Debug, Clone, Copy, PartialEq, Eq, Structural)]
pub enum BillingProvider {
    OpenAiCosts,
}

/// A chat request before it is fitted to a provider.
#[derive(Debug, PartialEq, Eq)]
pub struct ChatRequest {
    pub model: String,
    pub messages: Vec<ChatMessage>,
    pub control: ResponseControl,
    pub pricing: Option<ModelPricing>,
    pub billing: Option<BillingLookup>,
}

/// The tokens that a request used.
#[derive(Debug, Clone, Copy, PartialEq, Eq, Structural)]
pub struct TokenUsage {
    pub input_tokens: u32,
    pub output_tokens: u32,
    pub total_tokens: u32,
    pub cache_hit_input_tokens: Option<u32>,
    pub cache_miss_input_tokens: Option<u32>,
    pub input_audio_tokens: Option<u32>,
    pub output_reasoning_tokens: Option<u32>,
    pub output_visible_tokens: Option<u32>,
    pub output_audio_tokens: Option<u32>,
    pub accepted_prediction_output_tokens: Option<u32>,
    pub rejected_prediction_output_tokens: Option<u32>,
}

impl Default for TokenUsage {
    fn default() -> (r: Self)
        ensures
            r.input_tokens == 0,
            r.output_tokens == 0,
            r.total_tokens == 0,
            r.cache_hit_input_tokens is None,
            r.cache_miss_input_tokens is None,
            r.input_audio_tokens is None,
            r.output_reasoning_tokens is None,
            r.output_visible_tokens is None,
            r.output_audio_tokens is None,
            r.accepted_prediction_output_tokens is None,
            r.rejected_prediction_output_tokens is None,
    {
        TokenUsage {
            input_tokens: 0,
            output_tokens: 0,
            total_tokens: 0,
            cache_hit_input_tokens: None,
            cache_miss_input_tokens: None,
            input_audio_tokens: None,
            output_reasoning_tokens: None,
            output_visible_tokens: None,
            output_audio_tokens: None,
            accepted_prediction_output_tokens: None,
            rejected_prediction_output_tokens: None,
        }
    }
}

/// Who says what a request cost.
#[derive(Debug, Clone, Copy, PartialEq, Eq, Structural)]
pub enum CostSource {
    ProviderReported,
    ConfiguredPricing,
    BillingApi,
}

impl CostSource {
    /// The name of the source.
    pub fn name(&self) -> (r: &'static str)
        ensures
            r@ == (match *self {
                CostSource::ProviderReported => "provider-reported"@,
                CostSource::ConfiguredPricing => "configured-pricing"@,
                CostSource::BillingApi => "billing-api"@,
            }),
    {
        match self {
            CostSource::ProviderReported => "provider-reported",
            CostSource::ConfiguredPricing => "configured-pricing",
            CostSource::BillingApi => "billing-api",
        }
    }
}

/// What a request cost.
#[derive(Debug, PartialEq, Eq)]
pub struct RequestCost {
    pub amount: Float64,
    pub currency: String,
    pub source: CostSource,
}

impl Clone for RequestCost {
    fn clone(&self) -> (r: Self)
        ensures
            r == *self,
    {
        RequestCost { amount: self.amount, currency: self.currency.clone(), source: self.source }
    }
}

/// How long a request took, what it used and what it cost.
#[derive(Debug, PartialEq, Eq)]
pub struct RequestMetrics {
    pub elapsed_ms: u128,
    pub usage: Option<TokenUsage>,
    pub cost: Option<RequestCost>,
}

impl Clone for RequestMetrics {
    fn clone(&self) -> (r: Self)
        ensures
            r == *self,
    {
        RequestMetrics {
            elapsed_ms: self.elapsed_ms,
            usage: self.usage,
            cost: match &self.cost {
                Some(cost) => Some(cost.clone()),
                None => None,
            },
        }
    }
}

impl Default for RequestMetrics {
    fn default() -> (r: Self)
        ensures
            r.elapsed_ms == 0,
            r.usage is None,
            r.cost is None,
    {
        RequestMetrics { elapsed_ms: 0, usage: None, cost: None }
    }
}

/// A provider's reply.
#[derive(Debug, Clone, PartialEq, Eq)]
pub struct ChatResponse {
    pub text: String,
    pub finish_reason: Option<String>,
    pub metrics: RequestMetrics,
}

/// The scheme of a URL as the `url` crate parses it, where it parses.
pub uninterp spec fn url_scheme(url: Seq<char>) -> Option<Seq<char>>;

/// `reqwest::Url::parse` and `Url::scheme`: the scheme of the parsed URL, or
/// nothing where the text is no URL. Both are functions of the text alone.
#[verifier::external_body]
fn parse_url_scheme(url: &str) -> (r: Option<String>)
    ensures
        crate::text::option_text(r) == url_scheme(url@),
{
    reqwest::Url::parse(url).ok().map(|parsed| parsed.scheme().to_string())
}

/// Whether a URL with the scheme `scheme` can be a base URL.
pub fn accepts_scheme(scheme: &Option<String>) -> (r: bool)
    ensures
        r == usable_scheme(crate::text::option_text(*scheme)),
{
    match scheme {
        Some(scheme) => same(scheme.as_str(), "https") || same(scheme.as_str(), "http"),
        None => false,
    }
}

/// The schemes of a base URL: `http` and `https`.
pub open spec fn usable_scheme(scheme: Option<Seq<char>>) -> bool {
    scheme == Some("https"@) || scheme == Some("http"@)
}

/// Accepts a base URL that parses and has the scheme `http` or `https`.
pub fn validate_base_url(profile_name: &str, base_url: &str) -> (r: Result<(), AppError>)
    ensures
        if usable_scheme(url_scheme(base_url@)) {
            r is Ok
        } else {
            r matches Err(AppError::InvalidBaseUrl { profile, url }) && profile@ == profile_name@
                && url@ == base_url@
        },
{
    let scheme = parse_url_scheme(base_url);
    if accepts_scheme(&scheme) {
        Ok(())
    } else {
        Err(
            AppError::InvalidBaseUrl {
                profile: profile_name.to_string(),
                url: base_url.to_string(),
            },
        )
    }
}

/// The file of extra root certificates beside the configuration.
pub const DEFAULT_CA_BUNDLE_FILE: &'static str = "russian_trusted_root_ca_pem.crt";

/// The file of extra root certificates: the one that the environment names, by
/// its present or else by its former variable, whether it is there or not; else
/// the one beside the configuration, where it is there.
pub fn extra_ca_bundle_path(
    named: Option<String>,
    formerly_named: Option<String>,
    beside_config: Option<String>,
    is_there: bool,
) -> (r: Option<String>)
    ensures
        r == (if named is Some {
            named
        } else if formerly_named is Some {
            formerly_named
        } else if is_there {
            beside_config
        } else {
            None
        }),
{
    if named.is_some() {
        return named;
    }
    if formerly_named.is_some() {
        return formerly_named;
    }
    if is_there {
        beside_config
    } else {
        None
    }
}

/// What each provider is called, and by which names it is found.
pub proof fn providers_are_known_by_these_names(name: Seq<char>)
    ensures
        provider_named(name) == Some(ProviderKind::OpenAiCompatible) <==> name
            == "openai-compatible"@ || name == "openai"@ || name == "compatible"@,
        provider_named(name) == Some(ProviderKind::OpenRouter) <==> name == "openrouter"@,
        provider_named(name) == Some(ProviderKind::DeepSeek) <==> name == "deepseek"@,
        provider_named(name) == Some(ProviderKind::GigaChat) <==> name == "gigachat"@,
        provider_named(name) == Some(ProviderKind::Kimi) <==> name == "kimi"@ || name == "moonshot"@,
{
    reveal_strlit("openai-compatible");
    reveal_strlit("openai");
    reveal_strlit("compatible");
    reveal_strlit("openrouter");
    reveal_strlit("deepseek");
    reveal_strlit("gigachat");
    reveal_strlit("kimi");
    reveal_strlit("moonshot");
    assert("openai-compatible"@.len() == 17 && "openai"@.len() == 6 && "kimi"@.len() == 4);
    assert("compatible"@.len() == 10 && "openrouter"@.len() == 10);
    assert("deepseek"@.len() == 8 && "gigachat"@.len() == 8 && "moonshot"@.len() == 8);
    assert("openrouter"@[0] == 'o' && "compatible"@[0] == 'c');
    assert("deepseek"@[0] == 'd' && "gigachat"@[0] == 'g' && "moonshot"@[0] == 'm');
}

/// Where each provider is reached unless a profile says otherwise; always by an
/// encrypted connection, and never at the address of another.
pub proof fn providers_are_reached_at_their_own_address(a: ProviderKind, b: ProviderKind)
    ensures
        crate::text::occurs_at(provider_base_url(a), "https://"@, 0),
        a != b ==> provider_base_url(a) != provider_base_url(b),
        crate::text::contains_text(
            provider_base_url(ProviderKind::OpenAiCompatible),
            "api.openai.com"@,
        ),
        crate::text::contains_text(
            provider_base_url(ProviderKind::OpenRouter),
            "openrouter.ai"@,
        ),
        crate::text::contains_text(
            provider_base_url(ProviderKind::DeepSeek),
            "api.deepseek.com"@,
        ),
        crate::text::contains_text(
            provider_base_url(ProviderKind::GigaChat),
            "gigachat.devices.sberbank.ru"@,
        ),
        crate::text::contains_text(provider_base_url(ProviderKind::Kimi), "api.moonshot.ai"@),
{
    reveal_strlit("https://");
    reveal_strlit("https://api.openai.com/v1");
    reveal_strlit("https://openrouter.ai/api/v1");
    reveal_strlit("https://api.deepseek.com/v1");
    reveal_strlit("https://gigachat.devices.sberbank.ru/api/v1");
    reveal_strlit("https://api.moonshot.ai/v1");
    reveal_strlit("api.openai.com");
    reveal_strlit("openrouter.ai");
    reveal_strlit("api.deepseek.com");
    reveal_strlit("gigachat.devices.sberbank.ru");
    reveal_strlit("api.moonshot.ai");
    assert(provider_base_url(a).subrange(0, 8) =~= "https://"@);
    let u = provider_base_url(ProviderKind::OpenAiCompatible);
    assert(u.subrange(8, 22) =~= "api.openai.com"@);
    assert(crate::text::occurs_at(u, "api.openai.com"@, 8));
    let v = provider_base_url(ProviderKind::OpenRouter);
    assert(v.subrange(8, 21) =~= "openrouter.ai"@);
    assert(crate::text::occurs_at(v, "openrouter.ai"@, 8));
    let w = provider_base_url(ProviderKind::DeepSeek);
    assert(w.subrange(8, 24) =~= "api.deepseek.com"@);
    assert(crate::text::occurs_at(w, "api.deepseek.com"@, 8));
    let x = provider_base_url(ProviderKind::GigaChat);
    assert(x.subrange(8, 36) =~= "gigachat.devices.sberbank.ru"@);
    assert(crate::text::occurs_at(x, "gigachat.devices.sberbank.ru"@, 8));
    let y = provider_base_url(ProviderKind::Kimi);
    assert(y.subrange(8, 23) =~= "api.moonshot.ai"@);
    assert(crate::text::occurs_at(y, "api.moonshot.ai"@, 8));
    assert(u.len() == 25 && v.len() == 28 && w.len() == 27 && x.len() == 43 && y.len() == 26);
}

/// Whether one of `texts` holds `part`.
pub open spec fn instructed(texts: Seq<Seq<char>>, part: Seq<char>) -> bool {
    exists|i: int| 0 <= i < texts.len() && crate::text::contains_text(#[trigger] texts[i], part)
}

proof fn lemma_rule_is_told(c: ResponseControl, i: int, part: Seq<char>)
    requires
        0 <= i < format_rules(c).len(),
        crate::text::contains_text(format_rules(c)[i], part),
    ensures
        instructed(instruction_texts(c), part),
{
    let none = Seq::<char>::empty();
    let rules = format_rules(c);
    let before = "Answer formatting rules:\n- "@;
    let whole = crate::text::joined(rules, "\n- "@);
    let text = before + whole;
    crate::text::joined_texts_hold_their_parts(rules, "\n- "@, i);
    crate::text::lemma_occurs_through(part, rules[i], whole);
    crate::text::lemma_part_occurs(before, whole, none);
    assert(before + whole + none =~= text);
    crate::text::lemma_occurs_through(part, whole, text);
    assert(instruction_texts(c)[0] == text);
}

/// Everything that the control asks of an answer is told the model: how to
/// address the user, what to begin and to end with, in which form to answer, and
/// when it is complete.
pub proof fn the_model_is_told_what_the_control_asks(c: ResponseControl)
    ensures
        c.address_as matches Some(t) ==> instructed(instruction_texts(c), t@),
        c.answer_prefix matches Some(t) ==> instructed(instruction_texts(c), t@),
        c.answer_suffix matches Some(t) ==> instructed(instruction_texts(c), t@),
        c.format_instruction matches Some(t) ==> instructed(instruction_texts(c), t@),
        c.completion_instruction matches Some(t) ==> instruction_texts(c).len() > 0
            && instruction_texts(c)[instruction_texts(c).len() - 1] == t@,
        c.format == ResponseFormat::JsonObject && c.format_instruction is None ==> instructed(
            instruction_texts(c),
            "Return only a valid JSON object."@,
        ),
        c.format == ResponseFormat::Toon && c.format_instruction is None ==> instructed(
            instruction_texts(c),
            "Return only a valid TOON document."@,
        ),
{
    let none = Seq::<char>::empty();
    let rules = format_rules(c);
    let all = instruction_texts(c);
    let shape: int = if c.answer_format == AnswerFormat::Natural {
        0
    } else {
        1
    };
    let quote: int = if c.quote_question {
        1
    } else {
        0
    };
    let address: int = if c.address_as is Some {
        1
    } else {
        0
    };
    let prefix: int = if c.answer_prefix is Some {
        1
    } else {
        0
    };
    if let Some(t) = c.address_as {
        let before = "Address the user as \""@;
        let after = "\" at the start of the answer."@;
        assert(rules[shape + quote] == before + t@ + after);
        crate::text::lemma_part_occurs(before, t@, after);
        lemma_rule_is_told(c, shape + quote, t@);
    }
    if let Some(t) = c.answer_prefix {
        let before = "Start the answer exactly with this text: "@;
        assert(rules[shape + quote + address] == before + t@);
        crate::text::lemma_part_occurs(before, t@, none);
        assert(before + t@ + none =~= before + t@);
        lemma_rule_is_told(c, shape + quote + address, t@);
    }
    if let Some(t) = c.answer_suffix {
        let before = "End the answer exactly with this text: "@;
        assert(rules[shape + quote + address + prefix] == before + t@);
        crate::text::lemma_part_occurs(before, t@, none);
        assert(before + t@ + none =~= before + t@);
        lemma_rule_is_told(c, shape + quote + address + prefix, t@);
    }
    let at: int = if rules.len() > 0 {
        1
    } else {
        0
    };
    if let Some(t) = c.format_instruction {
        assert(all[at] == t@);
        crate::text::lemma_part_occurs(none, t@, none);
        assert(none + t@ + none =~= t@);
        assert(crate::text::contains_text(all[at], t@));
    } else {
        if c.format == ResponseFormat::JsonObject {
            let text = "Return only a valid JSON object. Do not include Markdown, prose, or code fences."@;
            let part = "Return only a valid JSON object."@;
            reveal_strlit(
                "Return only a valid JSON object. Do not include Markdown, prose, or code fences.",
            );
            reveal_strlit("Return only a valid JSON object.");
            assert(all[at] == text);
            assert(text.subrange(0, 32) =~= part);
            assert(crate::text::occurs_at(text, part, 0));
            assert(crate::text::contains_text(all[at], part));
        }
        if c.format == ResponseFormat::Toon {
            let text = "Return only a valid TOON document. Do not include Markdown, prose, JSON, or code fences."@;
            let part = "Return only a valid TOON document."@;
            reveal_strlit(
                "Return only a valid TOON document. Do not include Markdown, prose, JSON, or code fences.",
            );
            reveal_strlit("Return only a valid TOON document.");
            assert(all[at] == text);
            assert(text.subrange(0, 34) =~= part);
            assert(crate::text::occurs_at(text, part, 0));
            assert(crate::text::contains_text(all[at], part));
        }
    }
}

/// An address is usable over the web's own protocols and over no other.
pub proof fn usable_schemes_are_these(scheme: Seq<char>)
    ensures
        usable_scheme(Some("https"@)),
        usable_scheme(Some("http"@)),
        usable_scheme(Some(scheme)) ==> scheme == "https"@ || scheme == "http"@,
        !usable_scheme(None),
{
}

/// The messages of a request as they are read: every one in its place, with who
/// said it and what was said.
pub proof fn messages_are_read_in_order(messages: Seq<ChatMessage>, i: int)
    requires
        0 <= i < messages.len(),
    ensures
        message_views(messages).len() == messages.len(),
        message_views(messages)[i].0 == messages[i].role,
        message_views(messages)[i].1 == messages[i].content@,
{
}

/// What is known of a provider: its own name and address, the model that it is
/// asked for unless another is named, which comes first among the suggested ones,
/// and a token that is sent as a bearer's.
pub proof fn a_provider_is_described_by_its_own(spec: ProviderSpec, kind: ProviderKind)
    requires
        describes(spec, kind),
    ensures
        spec.kind == kind,
        spec.default_base_url@ == provider_base_url(kind),
        spec.auth_scheme == AuthScheme::Bearer,
        kind == ProviderKind::OpenAiCompatible ==> spec.display_name@ == "OpenAI-compatible"@
            && spec.default_model@ == "gpt-4.1-mini"@,
        kind == ProviderKind::OpenRouter ==> spec.display_name@ == "OpenRouter"@
            && spec.default_model@ == "openai/gpt-4.1-mini"@ && spec.extra_headers@.len() == 2
            && spec.extra_headers@[0].name@ == "HTTP-Referer"@ && spec.extra_headers@[1].name@
            == "X-Title"@,
        kind == ProviderKind::DeepSeek ==> spec.display_name@ == "DeepSeek"@ && spec.default_model@
            == "deepseek-chat"@,
        kind == ProviderKind::GigaChat ==> spec.display_name@ == "GigaChat"@ && spec.default_model@
            == "GigaChat"@,
        kind == ProviderKind::Kimi ==> spec.display_name@ == "Kimi"@ && spec.default_model@
            == "moonshot-v1-8k"@,
        kind != ProviderKind::OpenRouter ==> spec.extra_headers@.len() == 0,
        spec.suggested_models@.len() > 0 ==> spec.suggested_models@[0]@ == spec.default_model@,
{
    let headers = header_texts(spec.extra_headers@);
    assert(headers.len() == spec.extra_headers@.len());
    if kind == ProviderKind::OpenRouter {
        assert(headers[0].0 == "HTTP-Referer"@);
        assert(headers[1].0 == "X-Title"@);
    }
    let models = literal_texts(spec.suggested_models@);
    assert(models.len() == spec.suggested_models@.len());
    if models.len() > 0 {
        assert(models[0] == spec.suggested_models@[0]@);
    }
}

} // verus!
