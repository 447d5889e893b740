//! Endpoints that speak the OpenAI chat completions protocol: what a request
//! holds, and what its response comes to.
use vstd::prelude::*;

use crate::errors::{map_http_status, AppError, EndpointCategory, HttpProblem, ProviderHttpError};
use crate::json::{json_error, object_json};
use crate::providers::{
    AuthScheme, BillingLookup, ChatMessage, ChatRequest, ChatResponse, CostSource, Float32,
    Float64, ModelInfo, ModelPricing, ProviderKind, ProviderSpec, RequestCost, RequestMetrics,
    ResponseControl, ResponseFormat, TokenUsage,
};
use crate::text::{cat2, cat3, join, number_text, strip_trailing_char, to_ascii_lowercase, words};
use crate::text_map::TextMap;

verus! {

broadcast use vstd::string::group_string_axioms;

/// What is known of OpenAI-compatible.
pub fn spec() -> (r: ProviderSpec)
    ensures
        crate::providers::describes(r, ProviderKind::OpenAiCompatible),
{
    let r = ProviderSpec {
        kind: ProviderKind::OpenAiCompatible,
        display_name: "OpenAI-compatible",
        default_base_url: "https://api.openai.com/v1",
        default_model: "gpt-4.1-mini",
        auth_scheme: AuthScheme::Bearer,
        extra_headers: &[],
        suggested_models: &[],
    };
    assert(crate::providers::header_texts(r.extra_headers@)
        =~= crate::providers::provider_headers(ProviderKind::OpenAiCompatible));
    assert(crate::providers::literal_texts(r.suggested_models@)
        =~= crate::providers::provider_suggestions(ProviderKind::OpenAiCompatible));
    r
}

/// The format that a reply is asked to have, as it stands in a request.
#[derive(Debug, Clone, Copy, PartialEq, Eq)]
pub struct OpenAiResponseFormat {
    pub kind: &'static str,
}

/// How much a model is to reason, as it stands in a request.
#[derive(Debug, PartialEq, Eq)]
pub struct OpenAiReasoning {
    pub effort: String,
}

/// A chat request as a provider takes it.
#[derive(Debug, PartialEq, Eq)]
pub struct OpenAiChatPayload {
    pub model: String,
    pub messages: Vec<ChatMessage>,
    pub response_format: Option<OpenAiResponseFormat>,
    pub max_tokens: Option<u32>,
    pub max_completion_tokens: Option<u32>,
    pub temperature: Option<Float32>,
    pub top_p: Option<Float32>,
    pub top_k: Option<u32>,
    pub min_p: Option<Float32>,
    pub top_a: Option<Float32>,
    pub presence_penalty: Option<Float32>,
    pub frequency_penalty: Option<Float32>,
    pub repetition_penalty: Option<Float32>,
    pub seed: Option<i64>,
    pub reasoning_effort: Option<String>,
    pub reasoning: Option<OpenAiReasoning>,
    pub include_reasoning: Option<bool>,
    pub verbosity: Option<String>,
    pub logprobs: Option<bool>,
    pub top_logprobs: Option<u32>,
    pub n: Option<u32>,
    pub store: Option<bool>,
    pub parallel_tool_calls: Option<bool>,
    pub user: Option<String>,
    pub service_tier: Option<String>,
    pub stop: Vec<String>,
    /// Each further parameter's name and its JSON text.
    pub extra_params: Vec<(String, String)>,
}

/// Whether the sampling of a request is what the control asks for.
pub open spec fn carries_sampling(p: OpenAiChatPayload, c: ResponseControl) -> bool {
    &&& p.temperature == c.temperature
    &&& p.top_p == c.top_p
    &&& p.top_k == c.top_k
    &&& p.min_p == c.min_p
    &&& p.top_a == c.top_a
    &&& p.presence_penalty == c.presence_penalty
    &&& p.frequency_penalty == c.frequency_penalty
    &&& p.repetition_penalty == c.repetition_penalty
    &&& p.seed == c.seed
    &&& p.reasoning_effort == c.reasoning_effort
    &&& p.verbosity == c.verbosity
    &&& p.logprobs == c.logprobs
    &&& p.top_logprobs == c.top_logprobs
    &&& p.n == c.n
    &&& p.store == c.store
    &&& p.parallel_tool_calls == c.parallel_tool_calls
    &&& p.user == c.user
    &&& p.service_tier == c.service_tier
    &&& p.stop == c.stop
    &&& p.extra_params == c.extra_params
}

/// The limit on the tokens of the answer, as a provider takes it: one that
/// speaks OpenAI's own protocol knows only the newer of the two fields.
pub open spec fn token_limits(provider: ProviderKind, c: ResponseControl) -> (
    Option<u32>,
    Option<u32>,
) {
    if provider == ProviderKind::OpenAiCompatible {
        (
            None,
            if c.max_completion_tokens is Some {
                c.max_completion_tokens
            } else {
                c.max_tokens
            },
        )
    } else {
        (c.max_tokens, c.max_completion_tokens)
    }
}

/// Whether a payload is the request fitted to a provider.
pub open spec fn fitted(provider: ProviderKind, request: ChatRequest, p: OpenAiChatPayload) -> bool {
    let c = request.control;
    let router = provider == ProviderKind::OpenRouter;
    &&& p.model == request.model
    &&& crate::providers::message_views(p.messages@) == crate::providers::as_system(
        crate::providers::instruction_texts(c),
    ) + crate::providers::message_views(request.messages@)
    &&& match p.response_format {
        Some(format) => c.format == ResponseFormat::JsonObject && format.kind@ == "json_object"@,
        None => c.format != ResponseFormat::JsonObject,
    }
    &&& (p.max_tokens, p.max_completion_tokens) == token_limits(provider, c)
    &&& match p.reasoning {
        Some(reasoning) => router && c.reasoning_effort == Some(reasoning.effort),
        None => !router || c.reasoning_effort is None,
    }
    &&& p.include_reasoning == (if router {
        c.include_reasoning
    } else {
        None
    })
    &&& carries_sampling(p, c)
}

/// The request as an endpoint of OpenAI's own protocol takes it.
pub fn chat_payload(request: ChatRequest) -> (r: OpenAiChatPayload)
    ensures
        fitted(ProviderKind::OpenAiCompatible, request, r),
{
    chat_payload_for_provider(ProviderKind::OpenAiCompatible, request)
}

/// The request as a provider takes it.
pub fn chat_payload_for_provider(provider: ProviderKind, request: ChatRequest) -> (r:
    OpenAiChatPayload)
    ensures
        fitted(provider, request, r),
{
    let response_format = api_response_format(request.control.format);
    let messages = controlled_messages(request.messages, &request.control);
    let control = request.control;
    let router = provider == ProviderKind::OpenRouter;
    let reasoning = if router {
        match &control.reasoning_effort {
            Some(effort) => Some(OpenAiReasoning { effort: effort.clone() }),
            None => None,
        }
    } else {
        None
    };
    let (max_tokens, max_completion_tokens) = if provider == ProviderKind::OpenAiCompatible {
        let limit = if control.max_completion_tokens.is_some() {
            control.max_completion_tokens
        } else {
            control.max_tokens
        };
        (None, limit)
    } else {
        (control.max_tokens, control.max_completion_tokens)
    };
    OpenAiChatPayload {
        model: request.model,
        messages,
        response_format,
        max_tokens,
        max_completion_tokens,
        reasoning_effort: control.reasoning_effort,
        reasoning,
        include_reasoning: if router {
            control.include_reasoning
        } else {
            None
        },
        temperature: control.temperature,
        top_p: control.top_p,
        top_k: control.top_k,
        min_p: control.min_p,
        top_a: control.top_a,
        presence_penalty: control.presence_penalty,
        frequency_penalty: control.frequency_penalty,
        repetition_penalty: control.repetition_penalty,
        seed: control.seed,
        verbosity: control.verbosity,
        logprobs: control.logprobs,
        top_logprobs: control.top_logprobs,
        n: control.n,
        store: control.store,
        parallel_tool_calls: control.parallel_tool_calls,
        user: control.user,
        service_tier: control.service_tier,
        stop: control.stop,
        extra_params: control.extra_params,
    }
}

fn api_response_format(format: ResponseFormat) -> (r: Option<OpenAiResponseFormat>)
    ensures
        match r {
            Some(f) => format == ResponseFormat::JsonObject && f.kind@ == "json_object"@,
            None => format != ResponseFormat::JsonObject,
        },
{
    match format {
        ResponseFormat::Text => None,
        ResponseFormat::Toon => None,
        ResponseFormat::JsonObject => Some(OpenAiResponseFormat { kind: "json_object" }),
    }
}

fn controlled_messages(messages: Vec<ChatMessage>, control: &ResponseControl) -> (r: Vec<
    ChatMessage,
>)
    ensures
        crate::providers::message_views(r@) == crate::providers::as_system(
            crate::providers::instruction_texts(*control),
        ) + crate::providers::message_views(messages@),
{
    let mut controlled = control.instruction_messages();
    let ghost first = controlled@;
    let mut messages = messages;
    let ghost then = messages@;
    controlled.append(&mut messages);
    assert(crate::providers::message_views(controlled@) =~= crate::providers::message_views(first)
        + crate::providers::message_views(then));
    controlled
}

/// The URL of an endpoint below a base URL, with one slash between them.
pub fn endpoint(base_url: &str, path: &str) -> (r: String)
    ensures
        r@ == crate::text::strip_trailing(base_url@, '/') + "/"@ + path@,
{
    cat3(strip_trailing_char(base_url, '/'), "/", path)
}

/// The headers of a list with names in lower case; of two with one name, the
/// later counts.
pub open spec fn header_map(headers: Seq<(Seq<char>, Seq<char>)>) -> Map<Seq<char>, Seq<char>>
    decreases headers.len(),
{
    if headers.len() == 0 {
        Map::empty()
    } else {
        header_map(headers.drop_last()).insert(
            crate::text::ascii_lower(headers.last().0),
            headers.last().1,
        )
    }
}

/// The texts of a map.
pub open spec fn map_texts(m: Map<Seq<char>, String>) -> Map<Seq<char>, Seq<char>> {
    m.map_values(|s: String| s@)
}

proof fn lemma_insert_text(m: Map<Seq<char>, String>, key: Seq<char>, value: String)
    ensures
        map_texts(m.insert(key, value)) == map_texts(m).insert(key, value@),
{
    assert(map_texts(m.insert(key, value)) =~= map_texts(m).insert(key, value@));
}

/// The headers of a request as they may be shown: the token stays hidden.
pub fn debug_request_headers(spec: &ProviderSpec) -> (r: TextMap<String>)
    ensures
        map_texts(r.map()) == header_map(
            seq![
                ("authorization"@, "Bearer [redacted]"@),
                ("content-type"@, "application/json"@),
            ] + crate::providers::header_texts(spec.extra_headers@),
        ),
{
    let mut headers: TextMap<String> = TextMap::new();
    let ghost fixed = seq![
        ("authorization"@, "Bearer [redacted]"@),
        ("content-type"@, "application/json"@),
    ];
    let ghost all = fixed + crate::providers::header_texts(spec.extra_headers@);
    proof {
        assert(map_texts(headers.map()) =~= Map::<Seq<char>, Seq<char>>::empty());
        lemma_fixed_headers();
    }
    let a = "Bearer [redacted]".to_string();
    let b = "application/json".to_string();
    proof {
        lemma_insert_text(headers.map(), "authorization"@, a);
        lemma_insert_text(headers.map().insert("authorization"@, a), "content-type"@, b);
    }
    headers.insert("authorization".to_string(), a);
    headers.insert("content-type".to_string(), b);
    let mut i: usize = 0;
    assert(all.take(2) =~= fixed);
    while i < spec.extra_headers.len()
        invariant
            i <= spec.extra_headers.len(),
            fixed.len() == 2,
            all == fixed + crate::providers::header_texts(spec.extra_headers@),
            map_texts(headers.map()) == header_map(all.take(i + 2)),
        decreases spec.extra_headers.len() - i,
    {
        assert(all.take(i + 3).drop_last() =~= all.take(i + 2));
        let value = spec.extra_headers[i].value.to_string();
        let name = to_ascii_lowercase(spec.extra_headers[i].name);
        proof {
            lemma_insert_text(headers.map(), name@, value);
        }
        headers.insert(name, value);
        i = i + 1;
    }
    assert(all.take(i + 2) =~= all);
    headers
}

proof fn lemma_fixed_headers()
    ensures
        header_map(
            seq![
                ("authorization"@, "Bearer [redacted]"@),
                ("content-type"@, "application/json"@),
            ],
        ) == Map::<Seq<char>, Seq<char>>::empty().insert(
            "authorization"@,
            "Bearer [redacted]"@,
        ).insert("content-type"@, "application/json"@),
{
    reveal_strlit("authorization");
    reveal_strlit("content-type");
    let one = seq![("authorization"@, "Bearer [redacted]"@)];
    let two = seq![
        ("authorization"@, "Bearer [redacted]"@),
        ("content-type"@, "application/json"@),
    ];
    assert(crate::text::ascii_lower("authorization"@) =~= "authorization"@);
    assert(crate::text::ascii_lower("content-type"@) =~= "content-type"@);
    assert(one.drop_last() =~= Seq::<(Seq<char>, Seq<char>)>::empty());
    assert(two.drop_last() =~= one);
    reveal_with_fuel(header_map, 3);
}

/// The headers of a list that can be shown: those whose value is a text.
pub open spec fn readable(headers: Seq<(String, Option<String>)>) -> Seq<(Seq<char>, Seq<char>)>
    decreases headers.len(),
{
    if headers.len() == 0 {
        Seq::empty()
    } else {
        let rest = readable(headers.drop_last());
        match headers.last().1 {
            Some(value) => rest.push((headers.last().0@, value@)),
            None => rest,
        }
    }
}

/// The headers of a response as they may be shown: those whose value is a text,
/// with their names in lower case.
pub fn debug_response_headers(headers: &Vec<(String, Option<String>)>) -> (r: TextMap<String>)
    ensures
        map_texts(r.map()) == header_map(readable(headers@)),
{
    let mut out: TextMap<String> = TextMap::new();
    let mut i: usize = 0;
    assert(headers@.take(0) =~= Seq::<(String, Option<String>)>::empty());
    assert(map_texts(out.map()) =~= Map::<Seq<char>, Seq<char>>::empty());
    while i < headers.len()
        invariant
            i <= headers.len(),
            map_texts(out.map()) == header_map(readable(headers@.take(i as int))),
        decreases headers.len() - i,
    {
        assert(headers@.take(i + 1).drop_last() =~= headers@.take(i as int));
        if let Some(value) = &headers[i].1 {
            let name = to_ascii_lowercase(headers[i].0.as_str());
            let value = value.clone();
            proof {
                let rest = readable(headers@.take(i as int));
                assert(rest.push((headers@[i as int].0@, value@)).drop_last() =~= rest);
                lemma_insert_text(out.map(), name@, value);
            }
            out.insert(name, value);
        }
        i = i + 1;
    }
    assert(headers@.take(i as int) =~= headers@);
    out
}

/// A body cut short for an error text: its words with single spaces, at most 180
/// characters of them.
pub open spec fn reason_of(body: Seq<char>) -> Seq<char> {
    let collapsed = crate::text::joined(crate::text::words_of(body), " "@);
    if collapsed.len() > 180 {
        collapsed.take(180) + "..."@
    } else if collapsed.len() == 0 {
        "empty response body"@
    } else {
        collapsed
    }
}

/// A body cut short for an error text.
pub fn short_reason(body: &str) -> (r: String)
    ensures
        r@ == reason_of(body@),
{
    let collapsed = join(&words(body), " ");
    if collapsed.as_str().unicode_len() > 180 {
        assert(collapsed@.subrange(0, 180) =~= collapsed@.take(180));
        cat2(collapsed.as_str().substring_char(0, 180), "...")
    } else if collapsed.as_str().is_empty() {
        "empty response body".to_string()
    } else {
        collapsed
    }
}

/// Whether a status says that a request succeeded.
pub open spec fn successful(status: u16) -> bool {
    200 <= status < 300
}

/// The body of a response that succeeded, else the error that its status means.
pub fn response_text_or_error(
    provider: ProviderKind,
    endpoint: EndpointCategory,
    status: u16,
    retry_after: Option<String>,
    body: String,
) -> (r: Result<String, AppError>)
    ensures
        match r {
            Ok(text) => successful(status) && text == body,
            Err(e) => !successful(status) && (e matches AppError::ProviderHttp(e) && e.provider@
                == crate::providers::provider_name(provider) && e.endpoint == endpoint && e.status
                == Some(status) && e.problem == crate::errors::status_problem(status, retry_after)
                && e.reason@ == reason_of(body@)),
        },
{
    if status >= 200 && status < 300 {
        return Ok(body);
    }
    let reason = short_reason(body.as_str());
    Err(
        AppError::ProviderHttp(
            map_http_status(provider.name(), endpoint, status, retry_after, reason.as_str()),
        ),
    )
}

/// What a response reports of the tokens it used.
#[derive(Debug, Clone, Copy, PartialEq, Eq, Structural)]
pub struct ReportedUsage {
    pub prompt_tokens: Option<u32>,
    pub completion_tokens: Option<u32>,
    pub total_tokens: Option<u32>,
    pub cost: Option<Float64>,
    pub prompt_cache_hit_tokens: Option<u32>,
    pub prompt_cache_miss_tokens: Option<u32>,
    /// The cached tokens among the details of the prompt's tokens.
    pub cached_tokens: Option<u32>,
}

/// One of the answers of a response.
#[derive(Debug, PartialEq, Eq)]
pub struct ReportedChoice {
    pub content: Option<String>,
    pub reasoning_content: Option<String>,
    pub finish_reason: Option<String>,
}

/// A response whose JSON has been decoded.
#[derive(Debug, PartialEq, Eq)]
pub struct ReportedResponse {
    pub choices: Vec<ReportedChoice>,
    pub usage: Option<ReportedUsage>,
}

/// A number or none for zero.
pub open spec fn count(tokens: Option<u32>) -> u32 {
    match tokens {
        Some(n) => n,
        None => 0,
    }
}

/// The tokens of the prompt that came out of a cache.
pub open spec fn cache_hits(usage: ReportedUsage) -> Option<u32> {
    if usage.prompt_cache_hit_tokens is Some {
        usage.prompt_cache_hit_tokens
    } else {
        usage.cached_tokens
    }
}

/// The tokens of the prompt that came out of a cache.
pub fn cache_hit_input_tokens(usage: &ReportedUsage) -> (r: Option<u32>)
    ensures
        r == cache_hits(*usage),
{
    if usage.prompt_cache_hit_tokens.is_some() {
        usage.prompt_cache_hit_tokens
    } else {
        usage.cached_tokens
    }
}

/// The tokens that a request used: a total that is not reported is the sum, as
/// far as it can be counted.
pub open spec fn used(usage: ReportedUsage) -> TokenUsage {
    let input = count(usage.prompt_tokens);
    let output = count(usage.completion_tokens);
    TokenUsage {
        input_tokens: input,
        output_tokens: output,
        total_tokens: match usage.total_tokens {
            Some(n) => n,
            None => if input + output > u32::MAX {
                u32::MAX
            } else {
                (input + output) as u32
            },
        },
        cache_hit_input_tokens: cache_hits(usage),
        cache_miss_input_tokens: usage.prompt_cache_miss_tokens,
        input_audio_tokens: None,
        output_reasoning_tokens: None,
        output_visible_tokens: None,
        output_audio_tokens: None,
        accepted_prediction_output_tokens: None,
        rejected_prediction_output_tokens: None,
    }
}

/// The tokens that a request used.
pub fn token_usage(usage: &ReportedUsage) -> (r: TokenUsage)
    ensures
        r == used(*usage),
{
    let input_tokens: u32 = match usage.prompt_tokens {
        Some(n) => n,
        None => 0,
    };
    let output_tokens: u32 = match usage.completion_tokens {
        Some(n) => n,
        None => 0,
    };
    TokenUsage {
        input_tokens,
        output_tokens,
        total_tokens: match usage.total_tokens {
            Some(n) => n,
            None => input_tokens.saturating_add(output_tokens),
        },
        cache_hit_input_tokens: cache_hit_input_tokens(usage),
        cache_miss_input_tokens: usage.prompt_cache_miss_tokens,
        ..TokenUsage::default()
    }
}

/// Tokens at a price per million.
#[derive(Debug, Clone, Copy, PartialEq, Eq, Structural)]
pub struct CostTerm {
    pub tokens: u32,
    pub price_per_million: Float64,
}

/// What a cost is made of: an amount as the provider reports it, or terms to be
/// summed in their order.
#[derive(Debug, PartialEq, Eq)]
pub enum CostBasis {
    Reported { amount: Float64 },
    Priced { input: Vec<CostTerm>, output: CostTerm, currency: String },
}

/// The number zero.
pub open spec fn zero() -> Float64 {
    Float64 { bits: 0 }
}

/// The terms of the tokens of the prompt: by cache where the usage and the
/// prices tell hits and misses apart, else all at the price of the input; a
/// model without that price does not charge for it.
pub open spec fn input_terms(usage: ReportedUsage, pricing: ModelPricing) -> Seq<CostTerm> {
    match (
        cache_hits(usage),
        usage.prompt_cache_miss_tokens,
        pricing.cache_hit_input_per_million,
        pricing.cache_miss_input_per_million,
    ) {
        (Some(hit), Some(miss), Some(hit_price), Some(miss_price)) => seq![
            CostTerm { tokens: hit, price_per_million: hit_price },
            CostTerm { tokens: miss, price_per_million: miss_price },
        ],
        _ => seq![
            CostTerm {
                tokens: count(usage.prompt_tokens),
                price_per_million: match pricing.input_per_million {
                    Some(price) => price,
                    None => zero(),
                },
            },
        ],
    }
}

/// Whether a basis is what a usage costs at configured prices: nothing can be
/// said where the tokens of the prompt are not reported.
pub open spec fn priced(
    usage: ReportedUsage,
    pricing: Option<ModelPricing>,
    basis: Option<CostBasis>,
) -> bool {
    match pricing {
        Some(pricing) if usage.prompt_tokens is Some => basis matches Some(
            CostBasis::Priced { input, output, currency },
        ) && input@ == input_terms(usage, pricing) && output == (CostTerm {
            tokens: count(usage.completion_tokens),
            price_per_million: pricing.output_per_million,
        }) && currency == pricing.currency,
        _ => basis is None,
    }
}

fn configured_cost(usage: &ReportedUsage, pricing: &ModelPricing) -> (r: Option<CostBasis>)
    ensures
        priced(*usage, Some(*pricing), r),
{
    let input_tokens: u32 = match usage.prompt_tokens {
        Some(n) => n,
        None => {
            return None;
        },
    };
    let output_tokens: u32 = match usage.completion_tokens {
        Some(n) => n,
        None => 0,
    };
    let mut input: Vec<CostTerm> = Vec::new();
    match (
        cache_hit_input_tokens(usage),
        usage.prompt_cache_miss_tokens,
        pricing.cache_hit_input_per_million,
        pricing.cache_miss_input_per_million,
    ) {
        (Some(hit), Some(miss), Some(hit_price), Some(miss_price)) => {
            input.push(CostTerm { tokens: hit, price_per_million: hit_price });
            input.push(CostTerm { tokens: miss, price_per_million: miss_price });
        },
        _ => {
            let price_per_million = match pricing.input_per_million {
                Some(price) => price,
                None => Float64 { bits: 0 },
            };
            input.push(CostTerm { tokens: input_tokens, price_per_million });
        },
    }
    assert(input@ =~= input_terms(*usage, *pricing));
    let output = CostTerm { tokens: output_tokens, price_per_million: pricing.output_per_million };
    Some(CostBasis::Priced { input, output, currency: pricing.currency.clone() })
}

/// What a request's cost is made of: the provider's own report comes before the
/// configured prices, and without prices nothing is guessed.
pub fn request_cost(usage: &ReportedUsage, pricing: Option<&ModelPricing>) -> (r: Option<CostBasis>)
    ensures
        match usage.cost {
            Some(amount) => r == Some(CostBasis::Reported { amount }),
            None => priced(
                *usage,
                match pricing {
                    Some(pricing) => Some(*pricing),
                    None => None,
                },
                r,
            ),
        },
{
    if let Some(amount) = usage.cost {
        return Some(CostBasis::Reported { amount });
    }
    match pricing {
        Some(pricing) => configured_cost(usage, pricing),
        None => None,
    }
}

/// A cost from its basis and its amount in numbers.
pub fn cost_of(basis: &CostBasis, amount: Float64) -> (r: RequestCost)
    ensures
        match *basis {
            CostBasis::Reported { amount: reported } => r.amount == reported && r.currency@
                == "credits"@ && r.source == CostSource::ProviderReported,
            CostBasis::Priced { input, output, currency } => r.amount == amount && r.currency
                == currency && r.source == CostSource::ConfiguredPricing,
        },
{
    match basis {
        CostBasis::Reported { amount: reported } => RequestCost {
            amount: *reported,
            currency: "credits".to_string(),
            source: CostSource::ProviderReported,
        },
        CostBasis::Priced { input, output, currency } => RequestCost {
            amount,
            currency: currency.clone(),
            source: CostSource::ConfiguredPricing,
        },
    }
}

/// The text of an answer: its content, or its reasoning where the content is
/// missing or empty.
pub open spec fn answer_text(choice: ReportedChoice) -> Seq<char> {
    match choice.content {
        Some(content) if content@.len() > 0 => content@,
        _ => match choice.reasoning_content {
            Some(reasoning) => reasoning@,
            None => Seq::empty(),
        },
    }
}

/// The error for a response in another form than the protocol's.
pub open spec fn malformed(
    e: AppError,
    provider: ProviderKind,
    endpoint: EndpointCategory,
    reason: Seq<char>,
) -> bool {
    e matches AppError::ProviderHttp(e) && e.provider@ == crate::providers::provider_name(provider)
        && e.endpoint == endpoint && e.status == Some(200u16) && e.problem
        == HttpProblem::UnexpectedFormat && e.reason@ == reason
}

fn malformed_response(provider: ProviderKind, endpoint: EndpointCategory, reason: &str) -> (r:
    AppError)
    ensures
        malformed(r, provider, endpoint, reason@),
{
    AppError::ProviderHttp(
        ProviderHttpError {
            provider: provider.name().to_string(),
            endpoint,
            status: Some(200),
            problem: HttpProblem::UnexpectedFormat,
            reason: reason.to_string(),
        },
    )
}

/// Whether `cost` is what a reply says that its request cost: the provider's own
/// report comes first; else `amount`, where prices are configured and the
/// tokens of the prompt are reported; else nothing.
pub open spec fn costs(
    usage: Option<ReportedUsage>,
    pricing: Option<ModelPricing>,
    amount: Float64,
    cost: Option<RequestCost>,
) -> bool {
    match usage {
        None => cost is None,
        Some(usage) => match (usage.cost, pricing) {
            (Some(reported), _) => cost matches Some(c) && c.amount == reported && c.currency@
                == "credits"@ && c.source == CostSource::ProviderReported,
            (None, Some(pricing)) if usage.prompt_tokens is Some => cost matches Some(c)
                && c.amount == amount && c.currency == pricing.currency && c.source
                == CostSource::ConfiguredPricing,
            _ => cost is None,
        },
    }
}

/// What a chat response comes to: its first answer, with what the request took,
/// used and cost. `decoded` is the response's JSON, or why it could not be
/// decoded; `amount` is what the usage comes to at the configured prices.
pub fn parse_chat_response(
    provider: ProviderKind,
    decoded: Result<ReportedResponse, String>,
    elapsed_ms: u128,
    pricing: Option<&ModelPricing>,
    amount: Float64,
) -> (r: Result<ChatResponse, AppError>)
    ensures
        match decoded {
            Err(reason) => r matches Err(e) && malformed(
                e,
                provider,
                EndpointCategory::Chat,
                reason@,
            ),
            Ok(response) => if response.choices@.len() == 0 {
                r matches Err(e) && malformed(
                    e,
                    provider,
                    EndpointCategory::Chat,
                    "missing choices[0].message.content"@,
                )
            } else {
                r matches Ok(reply) && reply.text@ == answer_text(response.choices@[0])
                    && reply.finish_reason == response.choices@[0].finish_reason
                    && reply.metrics.elapsed_ms == elapsed_ms && reply.metrics.usage == (
                match response.usage {
                    Some(usage) => Some(used(usage)),
                    None => None,
                }) && costs(
                    response.usage,
                    match pricing {
                        Some(pricing) => Some(*pricing),
                        None => None,
                    },
                    amount,
                    reply.metrics.cost,
                )
            },
        },
        (decoded matches Ok(response) && response.choices@.len() > 0) ==> {
            let choice = decoded->Ok_0.choices@[0];
            let has_content = choice.content is Some && choice.content->0@.len() > 0;
            &&& r is Ok
            &&& has_content ==> r->Ok_0.text@ == choice.content->0@
            &&& !has_content && choice.reasoning_content is Some ==> r->Ok_0.text@
                == choice.reasoning_content->0@
            &&& !has_content && choice.reasoning_content is None ==> r->Ok_0.text@.len() == 0
        },
{
    let response = match decoded {
        Ok(response) => response,
        Err(reason) => {
            return Err(malformed_response(provider, EndpointCategory::Chat, reason.as_str()));
        },
    };
    if response.choices.is_empty() {
        return Err(
            malformed_response(
                provider,
                EndpointCategory::Chat,
                "missing choices[0].message.content",
            ),
        );
    }
    let choice = &response.choices[0];
    let text = answer_of(choice);
    let usage = match &response.usage {
        Some(usage) => Some(token_usage(usage)),
        None => None,
    };
    let cost = match &response.usage {
        Some(usage) => match request_cost(usage, pricing) {
            Some(basis) => Some(cost_of(&basis, amount)),
            None => None,
        },
        None => None,
    };
    Ok(
        ChatResponse {
            text,
            finish_reason: crate::text::clone_option(&choice.finish_reason),
            metrics: RequestMetrics { elapsed_ms, usage, cost },
        },
    )
}

fn answer_of(choice: &ReportedChoice) -> (r: String)
    ensures
        r@ == answer_text(*choice),
{
    if let Some(content) = &choice.content {
        if !content.as_str().is_empty() {
            return content.clone();
        }
    }
    match &choice.reasoning_content {
        Some(reasoning) => reasoning.clone(),
        None => {
            let none = String::new();
            assert(none@ =~= Seq::<char>::empty());
            none
        },
    }
}

/// The prices of a model as a provider lists them, each per million tokens where
/// it could be read as a number.
#[derive(Debug, PartialEq, Eq)]
pub struct ListedPricing {
    pub prompt: Option<Option<Float64>>,
    pub completion: Option<Option<Float64>>,
    pub input: Option<Option<Float64>>,
    pub output: Option<Option<Float64>>,
    pub currency: Option<String>,
}

/// A model as a provider lists it.
#[derive(Debug, PartialEq, Eq)]
pub struct ListedModel {
    pub id: String,
    pub pricing: Option<ListedPricing>,
}

/// The first price that is listed, as a number.
pub open spec fn listed(first: Option<Option<Float64>>, second: Option<Option<Float64>>) -> Option<
    Float64,
> {
    match first {
        Some(price) => price,
        None => match second {
            Some(price) => price,
            None => None,
        },
    }
}

/// Whether prices are those that a provider lists: a model without a price of
/// the output has none, one without a price of the input still has.
pub open spec fn priced_as(listing: ListedPricing, r: Option<ModelPricing>) -> bool {
    match listed(listing.completion, listing.output) {
        None => r is None,
        Some(output) => r matches Some(p) && p.output_per_million == output && p.input_per_million
            == listed(listing.prompt, listing.input) && p.cache_hit_input_per_million is None
            && p.cache_miss_input_per_million is None && p.currency@ == (match listing.currency {
            Some(currency) => currency@,
            None => "USD"@,
        }),
    }
}

fn first_listed(first: Option<Option<Float64>>, second: Option<Option<Float64>>) -> (r: Option<
    Float64,
>)
    ensures
        r == listed(first, second),
{
    match first {
        Some(price) => price,
        None => match second {
            Some(price) => price,
            None => None,
        },
    }
}

/// The prices of a model, from its listing.
pub fn model_pricing_from_entry(listing: ListedPricing) -> (r: Option<ModelPricing>)
    ensures
        priced_as(listing, r),
{
    let output_per_million = match first_listed(listing.completion, listing.output) {
        Some(price) => price,
        None => {
            return None;
        },
    };
    Some(
        ModelPricing {
            currency: match listing.currency {
                Some(currency) => currency,
                None => "USD".to_string(),
            },
            input_per_million: first_listed(listing.prompt, listing.input),
            output_per_million,
            cache_hit_input_per_million: None,
            cache_miss_input_per_million: None,
        },
    )
}

/// The models that a provider offers. `decoded` is the JSON of the listing, or
/// why it could not be decoded.
pub fn parse_models_response(
    provider: ProviderKind,
    decoded: Result<Vec<ListedModel>, String>,
) -> (r: Result<Vec<ModelInfo>, AppError>)
    ensures
        match decoded {
            Err(reason) => r matches Err(e) && malformed(
                e,
                provider,
                EndpointCategory::Models,
                reason@,
            ),
            Ok(models) => r matches Ok(infos) && infos@.len() == models@.len() && forall|i: int|
                0 <= i < models@.len() ==> #[trigger] offers(models@[i], infos@[i]),
        },
{
    let models = match decoded {
        Ok(models) => models,
        Err(reason) => {
            return Err(malformed_response(provider, EndpointCategory::Models, reason.as_str()));
        },
    };
    let mut infos: Vec<ModelInfo> = Vec::new();
    let mut i: usize = 0;
    while i < models.len()
        invariant
            i <= models.len(),
            infos@.len() == i,
            forall|j: int| 0 <= j < i ==> #[trigger] offers(models@[j], infos@[j]),
        decreases models.len() - i,
    {
        let pricing = match &models[i].pricing {
            Some(listing) => model_pricing_from_entry(
                ListedPricing {
                    prompt: listing.prompt,
                    completion: listing.completion,
                    input: listing.input,
                    output: listing.output,
                    currency: crate::text::clone_option(&listing.currency),
                },
            ),
            None => None,
        };
        let ghost before = infos@;
        infos.push(ModelInfo { id: models[i].id.clone(), pricing });
        assert forall|j: int| 0 <= j < i + 1 implies #[trigger] offers(models@[j], infos@[j]) by {
            if j < i {
                assert(infos@[j] == before[j]);
            }
        }
        i = i + 1;
    }
    Ok(infos)
}

/// Whether a model is offered as it is listed.
pub open spec fn offers(model: ListedModel, info: ModelInfo) -> bool {
    &&& info.id == model.id
    &&& match model.pricing {
        Some(listing) => priced_as(listing, info.pricing),
        None => info.pricing is None,
    }
}

/// The seconds before a request from which on costs are looked up.
pub fn billing_window_start(now: u64) -> (r: u64)
    ensures
        r == (if now >= 60 {
            now - 60
        } else {
            0
        }),
{
    now.saturating_sub(60)
}

/// What the cost service is asked for: the costs of each minute from the start
/// of the window to two minutes from now.
pub fn billing_query(window_start: u64, now: u64) -> (r: Vec<(&'static str, String)>)
    ensures
        r@.len() == 3,
        r@[0].0@ == "start_time"@,
        r@[0].1@ == crate::text::decimal(window_start as nat),
        r@[1].0@ == "end_time"@,
        r@[1].1@ == crate::text::decimal(
            if now + 120 > u64::MAX {
                u64::MAX as nat
            } else {
                (now + 120) as nat
            },
        ),
        r@[2].0@ == "bucket_width"@,
        r@[2].1@ == "1m"@,
{
    let mut query: Vec<(&'static str, String)> = Vec::new();
    query.push(("start_time", number_text(window_start)));
    query.push(("end_time", number_text(now.saturating_add(120))));
    query.push(("bucket_width", "1m".to_string()));
    query
}

/// An amount that the cost service lists.
#[derive(Debug, PartialEq, Eq)]
pub struct ListedCost {
    pub currency: Option<String>,
    pub value: Option<Float64>,
}

/// The first currency that is named, from `from` on.
pub open spec fn named_currency(costs: Seq<ListedCost>, from: int) -> Seq<char>
    decreases costs.len() - from,
{
    if from < 0 || from >= costs.len() {
        "usd"@
    } else {
        match costs[from].currency {
            Some(currency) => currency@,
            None => named_currency(costs, from + 1),
        }
    }
}

/// The values that are listed, in order.
pub open spec fn listed_values(costs: Seq<ListedCost>) -> Seq<Float64>
    decreases costs.len(),
{
    if costs.len() == 0 {
        Seq::empty()
    } else {
        let rest = listed_values(costs.drop_last());
        match costs.last().value {
            Some(value) => rest.push(value),
            None => rest,
        }
    }
}

/// What the listed amounts are summed from, and their currency: the first that
/// is named, else dollars.
pub fn parse_openai_costs_total(costs: &Vec<ListedCost>) -> (r: (Vec<Float64>, String))
    ensures
        r.0@ == listed_values(costs@),
        r.1@ == named_currency(costs@, 0),
{
    let mut values: Vec<Float64> = Vec::new();
    let mut currency: Option<String> = None;
    let mut i: usize = 0;
    assert(costs@.take(0) =~= Seq::<ListedCost>::empty());
    while i < costs.len()
        invariant
            i <= costs.len(),
            values@ == listed_values(costs@.take(i as int)),
            match currency {
                Some(c) => c@ == named_currency(costs@, 0),
                None => named_currency(costs@, 0) == named_currency(costs@, i as int),
            },
        decreases costs.len() - i,
    {
        assert(costs@.take(i + 1).drop_last() =~= costs@.take(i as int));
        if currency.is_none() {
            currency = crate::text::clone_option(&costs[i].currency);
        }
        if let Some(value) = costs[i].value {
            values.push(value);
        }
        i = i + 1;
    }
    assert(costs@.take(i as int) =~= costs@);
    let currency = match currency {
        Some(currency) => currency,
        None => "usd".to_string(),
    };
    (values, currency)
}

/// Whether the cost of a request is looked up after it: where that is
/// configured, and the provider has not reported the cost.
pub fn looks_up_billing(cost: &Option<RequestCost>, billing: &Option<BillingLookup>) -> (r: bool)
    ensures
        r == (billing is Some && !(*cost matches Some(c) && c.source
            == CostSource::ProviderReported)),
{
    if billing.is_none() {
        return false;
    }
    match cost {
        Some(cost) => cost.source != CostSource::ProviderReported,
        None => true,
    }
}

/// By how much the total has grown since before the request.
#[derive(Debug, PartialEq, Eq)]
pub struct BillingGrowth {
    pub delta: Float64,
    /// Whether the delta is more than zero.
    pub positive: bool,
    pub currency: String,
}

/// What the look-up of a cost does next.
#[derive(Debug, PartialEq, Eq)]
pub enum BillingStep {
    /// The cost of the request.
    Found(RequestCost),
    /// The cost stays as it was.
    GiveUp,
    /// Look again after so many seconds.
    Wait { seconds: u64 },
}

/// What the look-up of a cost does after an answer of the service: a growth is
/// the cost; without one, it looks again until the deadline.
pub fn billing_step(growth: Option<BillingGrowth>, past_deadline: bool) -> (r: BillingStep)
    ensures
        match growth {
            Some(g) if g.positive => r matches BillingStep::Found(cost) && cost.amount == g.delta
                && cost.currency == g.currency && cost.source == CostSource::BillingApi,
            _ => if past_deadline {
                r is GiveUp
            } else {
                r == (BillingStep::Wait { seconds: 2 })
            },
        },
{
    if let Some(growth) = growth {
        if growth.positive {
            return BillingStep::Found(
                RequestCost {
                    amount: growth.delta,
                    currency: growth.currency,
                    source: CostSource::BillingApi,
                },
            );
        }
    }
    if past_deadline {
        BillingStep::GiveUp
    } else {
        BillingStep::Wait { seconds: 2 }
    }
}

/// A request as it may be shown. `body` is JSON text.
#[derive(Debug, PartialEq, Eq)]
pub struct HttpDebugRequest {
    pub method: String,
    pub url: String,
    pub headers: TextMap<String>,
    pub body: String,
}

/// A response as it may be shown. `body` is JSON text.
#[derive(Debug, PartialEq, Eq)]
pub struct HttpDebugResponse {
    pub status: u16,
    pub headers: TextMap<String>,
    pub body: String,
}

/// An exchange with a provider as it may be shown.
#[derive(Debug, PartialEq, Eq)]
pub struct ProviderExchangeDebug {
    pub request: HttpDebugRequest,
    pub response: HttpDebugResponse,
}

/// The request to a chat endpoint as it may be shown.
pub fn debug_chat_request(spec: &ProviderSpec, base_url: &str, body: String) -> (r:
    HttpDebugRequest)
    ensures
        r.method@ == "POST"@,
        r.url@ == crate::text::strip_trailing(base_url@, '/') + "/"@ + "chat/completions"@,
        map_texts(r.headers.map()) == header_map(
            seq![
                ("authorization"@, "Bearer [redacted]"@),
                ("content-type"@, "application/json"@),
            ] + crate::providers::header_texts(spec.extra_headers@),
        ),
        r.body == body,
{
    HttpDebugRequest {
        method: "POST".to_string(),
        url: endpoint(base_url, "chat/completions"),
        headers: debug_request_headers(spec),
        body,
    }
}

/// A body as JSON text: a body that is no JSON stands under the key `raw`.
pub open spec fn json_or_raw(body: Seq<char>) -> Seq<char> {
    if crate::json::json_problem(body) is None {
        body
    } else {
        match crate::json::json_object_text(seq![("raw"@, body)]) {
            Some(text) => text,
            None => "{}"@,
        }
    }
}

/// A body as JSON text: a body that is no JSON stands under the key `raw`.
pub fn parse_json_or_raw(raw: &str) -> (r: String)
    ensures
        r@ == json_or_raw(raw@),
{
    if json_error(raw).is_none() {
        return raw.to_string();
    }
    let mut entries: Vec<(String, String)> = Vec::new();
    entries.push(("raw".to_string(), raw.to_string()));
    assert(crate::json::pair_texts(entries@) =~= seq![("raw"@, raw@)]);
    match object_json(entries) {
        Some(text) => text,
        None => "{}".to_string(),
    }
}

/// The response of a chat endpoint as it may be shown.
pub fn debug_chat_response(status: u16, headers: TextMap<String>, raw: &str) -> (r:
    HttpDebugResponse)
    ensures
        r.status == status,
        r.headers == headers,
        r.body@ == json_or_raw(raw@),
{
    HttpDebugResponse { status, headers, body: parse_json_or_raw(raw) }
}

/// Nothing that is shown of a request holds its token, whatever the provider.
pub proof fn shown_headers_hide_the_token(kind: ProviderKind)
    ensures
        header_map(
            seq![
                ("authorization"@, "Bearer [redacted]"@),
                ("content-type"@, "application/json"@),
            ] + crate::providers::provider_headers(kind),
        )["authorization"@] == "Bearer [redacted]"@,
{
    let fixed = seq![
        ("authorization"@, "Bearer [redacted]"@),
        ("content-type"@, "application/json"@),
    ];
    let extra = crate::providers::provider_headers(kind);
    lemma_fixed_headers();
    reveal_strlit("authorization");
    reveal_strlit("content-type");
    reveal_strlit("HTTP-Referer");
    reveal_strlit("X-Title");
    assert("authorization"@.len() != "content-type"@.len());
    assert(crate::text::ascii_lower("HTTP-Referer"@).len() == "HTTP-Referer"@.len());
    assert(crate::text::ascii_lower("X-Title"@).len() == "X-Title"@.len());
    lemma_kept_header(fixed, extra);
}

proof fn lemma_kept_header(
    fixed: Seq<(Seq<char>, Seq<char>)>,
    extra: Seq<(Seq<char>, Seq<char>)>,
)
    requires
        forall|i: int|
            0 <= i < extra.len() ==> crate::text::ascii_lower((#[trigger] extra[i]).0)
                != "authorization"@,
    ensures
        header_map(fixed + extra)["authorization"@] == header_map(fixed)["authorization"@],
    decreases extra.len(),
{
    if extra.len() == 0 {
        assert(fixed + extra =~= fixed);
    } else {
        lemma_kept_header(fixed, extra.drop_last());
        assert((fixed + extra).drop_last() =~= fixed + extra.drop_last());
        assert((fixed + extra).last() == extra.last());
    }
}

/// The content of an answer is its text, whatever was reasoned; the reasoning is
/// the text only where the content is missing or empty. Two answers with one
/// content have one text.
pub proof fn content_comes_before_reasoning(choice: ReportedChoice, other: ReportedChoice)
    ensures
        choice.content is Some && choice.content->0@.len() > 0 ==> answer_text(choice)
            == choice.content->0@,
        (choice.content is None || choice.content->0@.len() == 0) && choice.reasoning_content is Some
            ==> answer_text(choice) == choice.reasoning_content->0@,
        (choice.content is None || choice.content->0@.len() == 0) && choice.reasoning_content is None
            ==> answer_text(choice).len() == 0,
        choice.content is Some && choice.content->0@.len() > 0 && other.content == choice.content
            ==> answer_text(other) == answer_text(choice),
{
}

/// The tokens of the prompt and of the answer are those reported, none where
/// nothing is; the total is the reported one, else the sum of the two, as far as
/// it can be counted.
pub proof fn usage_adds_up(usage: ReportedUsage)
    ensures
        usage.prompt_tokens matches Some(n) ==> used(usage).input_tokens == n,
        usage.prompt_tokens is None ==> used(usage).input_tokens == 0,
        usage.completion_tokens matches Some(n) ==> used(usage).output_tokens == n,
        usage.completion_tokens is None ==> used(usage).output_tokens == 0,
        usage.total_tokens matches Some(n) ==> used(usage).total_tokens == n,
        usage.total_tokens is None && used(usage).input_tokens + used(usage).output_tokens
            <= u32::MAX ==> used(usage).total_tokens == used(usage).input_tokens
            + used(usage).output_tokens,
        usage.total_tokens is None && used(usage).input_tokens + used(usage).output_tokens
            > u32::MAX ==> used(usage).total_tokens == u32::MAX,
        usage.prompt_cache_hit_tokens matches Some(n) ==> used(usage).cache_hit_input_tokens
            == Some(n),
        usage.prompt_cache_hit_tokens is None ==> used(usage).cache_hit_input_tokens
            == usage.cached_tokens,
        used(usage).cache_miss_input_tokens == usage.prompt_cache_miss_tokens,
{
}

/// A cost that the provider reports is the cost, in credits, whatever prices are
/// configured. Without a report the configured prices tell it, in their
/// currency; without those, or without a count of the prompt's tokens, none is
/// told.
pub proof fn a_reported_cost_comes_first(
    usage: Option<ReportedUsage>,
    pricing: Option<ModelPricing>,
    amount: Float64,
    cost: Option<RequestCost>,
)
    requires
        costs(usage, pricing, amount, cost),
    ensures
        usage is None ==> cost is None,
        (usage matches Some(u) && u.cost is Some) ==> cost is Some && Some(cost->0.amount)
            == usage->0.cost && cost->0.currency@ == "credits"@ && cost->0.source
            == CostSource::ProviderReported,
        (usage matches Some(u) && u.cost is None && pricing is None) ==> cost is None,
        (usage matches Some(u) && u.cost is None && u.prompt_tokens is None) ==> cost is None,
        (usage matches Some(u) && u.cost is None && u.prompt_tokens is Some && pricing is Some)
            ==> cost is Some && cost->0.amount == amount && cost->0.currency
            == pricing->0.currency && cost->0.source == CostSource::ConfiguredPricing,
{
}

/// What is charged for the prompt: the hits and the misses of the cache, each at
/// its own price, where all four numbers are known; else every token of the
/// prompt at the price of the input.
pub proof fn prompt_tokens_are_charged_once(usage: ReportedUsage, pricing: ModelPricing)
    ensures
        cache_hits(usage) is Some && usage.prompt_cache_miss_tokens is Some
            && pricing.cache_hit_input_per_million is Some
            && pricing.cache_miss_input_per_million is Some ==> {
            let terms = input_terms(usage, pricing);
            &&& terms.len() == 2
            &&& Some(terms[0].tokens) == cache_hits(usage)
            &&& Some(terms[0].price_per_million) == pricing.cache_hit_input_per_million
            &&& Some(terms[1].tokens) == usage.prompt_cache_miss_tokens
            &&& Some(terms[1].price_per_million) == pricing.cache_miss_input_per_million
        },
        cache_hits(usage) is None || usage.prompt_cache_miss_tokens is None
            || pricing.cache_hit_input_per_million is None
            || pricing.cache_miss_input_per_million is None ==> {
            let terms = input_terms(usage, pricing);
            &&& terms.len() == 1
            &&& usage.prompt_tokens matches Some(n) ==> terms[0].tokens == n
            &&& pricing.input_per_million matches Some(price) ==> terms[0].price_per_million == price
        },
{
}

/// A payload is the whole request: the model, and every message in its place
/// behind the instructions, which are system messages.
pub proof fn a_payload_carries_every_message(
    provider: ProviderKind,
    request: ChatRequest,
    p: OpenAiChatPayload,
)
    requires
        fitted(provider, request, p),
    ensures
        p.model == request.model,
        p.messages@.len() >= request.messages@.len(),
        forall|i: int|
            #![trigger request.messages@[i]]
            0 <= i < request.messages@.len() ==> {
                let sent = p.messages@[p.messages@.len() - request.messages@.len() + i];
                sent.role == request.messages@[i].role && sent.content@
                    == request.messages@[i].content@
            },
        forall|i: int|
            0 <= i < p.messages@.len() - request.messages@.len() ==> (
            #[trigger] p.messages@[i]).role == crate::providers::Role::System,
{
    let first = crate::providers::as_system(crate::providers::instruction_texts(request.control));
    let rest = crate::providers::message_views(request.messages@);
    let all = crate::providers::message_views(p.messages@);
    assert(all == first + rest);
    assert(all.len() == p.messages@.len());
    assert forall|i: int|
        #![trigger request.messages@[i]]
        0 <= i < request.messages@.len() implies {
        let sent = p.messages@[p.messages@.len() - request.messages@.len() + i];
        sent.role == request.messages@[i].role && sent.content@ == request.messages@[i].content@
    } by {
        assert(all[first.len() + i] == rest[i]);
    }
    assert forall|i: int| 0 <= i < p.messages@.len() - request.messages@.len() implies (
    #[trigger] p.messages@[i]).role == crate::providers::Role::System by {
        assert(all[i] == first[i]);
    }
}

/// A limit on the answer is never lost. An endpoint of OpenAI's own protocol gets
/// it in the newer field alone, where the newer limit counts before the older;
/// any other provider gets both as they are.
pub proof fn a_limit_is_never_lost(
    provider: ProviderKind,
    request: ChatRequest,
    p: OpenAiChatPayload,
)
    requires
        fitted(provider, request, p),
    ensures
        provider == ProviderKind::OpenAiCompatible ==> {
            &&& p.max_tokens is None
            &&& request.control.max_completion_tokens is Some ==> p.max_completion_tokens
                == request.control.max_completion_tokens
            &&& request.control.max_completion_tokens is None ==> p.max_completion_tokens
                == request.control.max_tokens
        },
        provider != ProviderKind::OpenAiCompatible ==> p.max_tokens == request.control.max_tokens
            && p.max_completion_tokens == request.control.max_completion_tokens,
{
}

/// What the control asks of a model stands in the payload, field by field; what
/// only one provider takes goes to that one alone.
pub proof fn a_payload_carries_the_control(
    provider: ProviderKind,
    request: ChatRequest,
    p: OpenAiChatPayload,
)
    requires
        fitted(provider, request, p),
    ensures
        request.control.format == ResponseFormat::JsonObject ==> p.response_format is Some
            && p.response_format->0.kind@ == "json_object"@,
        request.control.format != ResponseFormat::JsonObject ==> p.response_format is None,
        p.temperature == request.control.temperature,
        p.top_p == request.control.top_p,
        p.top_k == request.control.top_k,
        p.min_p == request.control.min_p,
        p.top_a == request.control.top_a,
        p.presence_penalty == request.control.presence_penalty,
        p.frequency_penalty == request.control.frequency_penalty,
        p.repetition_penalty == request.control.repetition_penalty,
        p.seed == request.control.seed,
        p.reasoning_effort == request.control.reasoning_effort,
        p.verbosity == request.control.verbosity,
        p.logprobs == request.control.logprobs,
        p.top_logprobs == request.control.top_logprobs,
        p.n == request.control.n,
        p.store == request.control.store,
        p.parallel_tool_calls == request.control.parallel_tool_calls,
        p.user == request.control.user,
        p.service_tier == request.control.service_tier,
        p.stop == request.control.stop,
        p.extra_params == request.control.extra_params,
        provider == ProviderKind::OpenRouter ==> p.include_reasoning
            == request.control.include_reasoning && (p.reasoning is Some
            <==> request.control.reasoning_effort is Some) && (p.reasoning matches Some(r)
            ==> request.control.reasoning_effort == Some(r.effort)),
        provider != ProviderKind::OpenRouter ==> p.include_reasoning is None && p.reasoning is None,
{
}

proof fn lemma_header_is_there(headers: Seq<(Seq<char>, Seq<char>)>, i: int)
    requires
        0 <= i < headers.len(),
        forall|j: int|
            i < j < headers.len() ==> crate::text::ascii_lower((#[trigger] headers[j]).0)
                != crate::text::ascii_lower(headers[i].0),
    ensures
        header_map(headers).contains_key(crate::text::ascii_lower(headers[i].0)),
        header_map(headers)[crate::text::ascii_lower(headers[i].0)] == headers[i].1,
    decreases headers.len(),
{
    if i < headers.len() - 1 {
        let rest = headers.drop_last();
        assert(rest[i] == headers[i]);
        assert forall|j: int| i < j < rest.len() implies crate::text::ascii_lower(
            (#[trigger] rest[j]).0,
        ) != crate::text::ascii_lower(rest[i].0) by {
            assert(rest[j] == headers[j]);
        }
        lemma_header_is_there(rest, i);
        assert(crate::text::ascii_lower(headers.last().0) != crate::text::ascii_lower(headers[i].0));
    }
}

proof fn lemma_header_comes_from(headers: Seq<(Seq<char>, Seq<char>)>, name: Seq<char>)
    requires
        header_map(headers).contains_key(name),
    ensures
        exists|i: int|
            0 <= i < headers.len() && crate::text::ascii_lower((#[trigger] headers[i]).0) == name,
    decreases headers.len(),
{
    if headers.len() > 0 {
        if crate::text::ascii_lower(headers.last().0) == name {
            assert(crate::text::ascii_lower(headers[headers.len() - 1].0) == name);
        } else {
            let rest = headers.drop_last();
            lemma_header_comes_from(rest, name);
            let i = choose|i: int|
                0 <= i < rest.len() && crate::text::ascii_lower((#[trigger] rest[i]).0) == name;
            assert(headers[i] == rest[i]);
        }
    }
}

/// A header is shown under its name in lower case with its own value, unless one
/// of that name comes later; and nothing else is shown.
pub proof fn headers_are_shown_by_name(
    headers: Seq<(Seq<char>, Seq<char>)>,
    i: int,
    name: Seq<char>,
)
    requires
        0 <= i < headers.len(),
        forall|j: int|
            i < j < headers.len() ==> crate::text::ascii_lower((#[trigger] headers[j]).0)
                != crate::text::ascii_lower(headers[i].0),
    ensures
        header_map(headers).contains_key(crate::text::ascii_lower(headers[i].0)),
        header_map(headers)[crate::text::ascii_lower(headers[i].0)] == headers[i].1,
        header_map(headers).contains_key(name) ==> exists|k: int|
            0 <= k < headers.len() && crate::text::ascii_lower((#[trigger] headers[k]).0) == name,
{
    lemma_header_is_there(headers, i);
    if header_map(headers).contains_key(name) {
        lemma_header_comes_from(headers, name);
    }
}

/// Headers with a value that is a text are kept in their order, and the others
/// left out: what is readable in two lists is what is readable in each.
pub proof fn readable_headers_are_kept(
    one: Seq<(String, Option<String>)>,
    two: Seq<(String, Option<String>)>,
    name: String,
    value: Option<String>,
)
    ensures
        readable(one + two) == readable(one) + readable(two),
        value matches Some(v) ==> readable(seq![(name, value)]) == seq![(name@, v@)],
        value is None ==> readable(seq![(name, value)]).len() == 0,
    decreases two.len(),
{
    let single = seq![(name, value)];
    assert(single.drop_last() =~= Seq::<(String, Option<String>)>::empty());
    assert(readable(Seq::<(String, Option<String>)>::empty()) =~= Seq::<
        (Seq<char>, Seq<char>),
    >::empty());
    if value is Some {
        assert(readable(single) =~= seq![(name@, value->0@)]);
    }
    if two.len() == 0 {
        assert(one + two =~= one);
        assert(readable(one) + readable(two) =~= readable(one));
    } else {
        readable_headers_are_kept(one, two.drop_last(), name, value);
        assert((one + two).drop_last() =~= one + two.drop_last());
        assert((one + two).last() == two.last());
        assert(readable(one + two) =~= readable(one) + readable(two));
    }
}

/// What an error tells of a body is never empty and never long, and holds every
/// word of a short body.
pub proof fn a_reason_is_short(body: Seq<char>, i: int)
    requires
        0 <= i < crate::text::words_of(body).len(),
    ensures
        0 < reason_of(body).len() <= 183,
        crate::text::joined(crate::text::words_of(body), " "@).len() <= 180
            ==> crate::text::contains_text(reason_of(body), crate::text::words_of(body)[i]),
        crate::text::joined(crate::text::words_of(body), " "@).len() > 180 ==> reason_of(body).take(
            180,
        ) == crate::text::joined(crate::text::words_of(body), " "@).take(180),
{
    reveal_strlit("...");
    reveal_strlit("empty response body");
    let words = crate::text::words_of(body);
    let whole = crate::text::joined(words, " "@);
    crate::text::joined_texts_hold_their_parts(words, " "@, i);
    assert(words.contains(words[i]));
    crate::text::words_stand_in_their_text(body, words[i]);
    assert(whole.len() > 0) by {
        let at = choose|at: int| crate::text::occurs_at(whole, words[i], at);
    }
    if whole.len() > 180 {
        assert(reason_of(body).take(180) =~= whole.take(180));
    }
}

/// The prices of a listing: that of a completion before that of the output, that
/// of the prompt before that of the input, dollars unless a currency is named;
/// and none at all without a price of the output.
pub proof fn listed_prices_are_read(listing: ListedPricing, r: Option<ModelPricing>)
    requires
        priced_as(listing, r),
    ensures
        (listing.completion matches Some(Some(price))) ==> r is Some && Some(
            Some(r->0.output_per_million),
        ) == listing.completion,
        listing.completion is None && (listing.output matches Some(Some(price))) ==> r is Some
            && Some(Some(r->0.output_per_million)) == listing.output,
        listing.completion is None && listing.output is None ==> r is None,
        listing.completion == Some(None::<Float64>) ==> r is None,
        r is Some && (listing.prompt matches Some(p)) ==> Some(r->0.input_per_million)
            == listing.prompt,
        r is Some && listing.prompt is None && (listing.input matches Some(p)) ==> Some(
            r->0.input_per_million,
        ) == listing.input,
        r is Some && listing.prompt is None && listing.input is None
            ==> r->0.input_per_million is None,
        r is Some && (listing.currency matches Some(c)) ==> r->0.currency@ == listing.currency->0@,
        r is Some && listing.currency is None ==> r->0.currency@ == "USD"@,
{
}

/// The currency of a list of costs is the first that is named, and dollars where
/// none is.
pub proof fn the_first_currency_counts(costs: Seq<ListedCost>, from: int, k: int)
    requires
        0 <= from <= k <= costs.len(),
        forall|i: int| from <= i < k ==> (#[trigger] costs[i]).currency is None,
        k < costs.len() ==> costs[k].currency is Some,
    ensures
        k < costs.len() ==> named_currency(costs, from) == costs[k].currency->0@,
        k == costs.len() ==> named_currency(costs, from) == "usd"@,
    decreases k - from,
{
    if from < k {
        assert(costs[from].currency is None);
        the_first_currency_counts(costs, from + 1, k);
    }
}

/// Every value of a list of costs is summed, in its order: what two lists give is
/// what each gives.
pub proof fn every_listed_value_counts(one: Seq<ListedCost>, two: Seq<ListedCost>, cost: ListedCost)
    ensures
        listed_values(one + two) == listed_values(one) + listed_values(two),
        cost.value matches Some(v) ==> listed_values(seq![cost]) == seq![v],
        cost.value is None ==> listed_values(seq![cost]).len() == 0,
    decreases two.len(),
{
    let single = seq![cost];
    assert(single.drop_last() =~= Seq::<ListedCost>::empty());
    assert(listed_values(Seq::<ListedCost>::empty()) =~= Seq::<Float64>::empty());
    if cost.value is Some {
        assert(listed_values(single) =~= seq![cost.value->0]);
    }
    if two.len() == 0 {
        assert(one + two =~= one);
        assert(listed_values(one) + listed_values(two) =~= listed_values(one));
    } else {
        every_listed_value_counts(one, two.drop_last(), cost);
        assert((one + two).drop_last() =~= one + two.drop_last());
        assert((one + two).last() == two.last());
        assert(listed_values(one + two) =~= listed_values(one) + listed_values(two));
    }
}

/// A status tells success from two hundred up to but not including three hundred.
pub proof fn these_statuses_are_successes(status: u16)
    ensures
        successful(status) <==> status >= 200 && status <= 299,
{
}

/// An answer in another form is an error of the provider, at the endpoint that was
/// asked, although the request succeeded; the reason says what is wrong.
pub proof fn another_form_is_the_providers_error(
    e: AppError,
    provider: ProviderKind,
    endpoint: EndpointCategory,
    reason: Seq<char>,
)
    requires
        malformed(e, provider, endpoint, reason),
    ensures
        e is ProviderHttp,
        e->ProviderHttp_0.provider@ == crate::providers::provider_name(provider),
        e->ProviderHttp_0.endpoint == endpoint,
        e->ProviderHttp_0.problem == HttpProblem::UnexpectedFormat,
        e->ProviderHttp_0.status == Some(200u16),
        e->ProviderHttp_0.reason@ == reason,
        crate::text::contains_text(crate::errors::error_text(e), reason),
{
    crate::errors::http_errors_tell_what_failed(e->ProviderHttp_0);
}

/// A model is offered under its own identifier; one that is listed without prices
/// has none.
pub proof fn models_are_offered_as_listed(model: ListedModel, info: ModelInfo)
    requires
        offers(model, info),
    ensures
        info.id@ == model.id@,
        model.pricing is None ==> info.pricing is None,
        info.pricing is Some ==> model.pricing is Some && (model.pricing->0.completion matches Some(
            Some(price),
        ) ==> info.pricing->0.output_per_million == price),
{
}

/// A body that is JSON is shown as it is.
pub proof fn json_bodies_are_shown_as_they_are(body: Seq<char>)
    ensures
        crate::json::json_problem(body) is None ==> json_or_raw(body) == body,
        crate::json::json_problem(body) is Some && crate::json::json_object_text(
            seq![("raw"@, body)],
        ) is Some ==> Some(json_or_raw(body)) == crate::json::json_object_text(
            seq![("raw"@, body)],
        ),
{
}

} // verus!
