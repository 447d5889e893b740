//! The web interface: what its requests ask for, and what it is answered with.
use vstd::prelude::*;

use crate::config::{AppConfig, ProfileConfig};
use crate::errors::AppError;
use crate::providers::{
    validate_base_url, AnswerFormat, BillingLookup, BillingProvider, ChatMessage, ChatRequest,
    Float32, Float64, ModelInfo, ModelPricing, ProviderKind, ResponseControl, ResponseFormat, Role,
};
use crate::secrets::{get_config_profile_token, set_profile_token, SecretStore};
use crate::text::{is_blank, same, trim};
use crate::text_map::less;

verus! {

broadcast use vstd::string::group_string_axioms;

/// What a parameter of a request may be. Numbers are in hundredths.
#[derive(Debug, Clone, Copy, PartialEq, Eq)]
pub struct ParameterConstraintView {
    pub id: &'static str,
    pub supported: bool,
    pub min: Option<i32>,
    pub max: Option<i32>,
    pub step: Option<i32>,
    pub note: &'static str,
}

/// A constraint with its texts as characters.
#[verifier::ext_equal]
pub struct Limit {
    pub id: Seq<char>,
    pub supported: bool,
    pub min: Option<i32>,
    pub max: Option<i32>,
    pub step: Option<i32>,
    pub note: Seq<char>,
}

/// A constraint that a provider takes.
pub open spec fn limit(
    id: Seq<char>,
    min: Option<i32>,
    max: Option<i32>,
    step: Option<i32>,
    note: Seq<char>,
) -> Limit {
    Limit { id, supported: true, min, max, step, note }
}

/// A constraint with its texts as characters.
pub open spec fn limit_of(c: ParameterConstraintView) -> Limit {
    Limit {
        id: c.id@,
        supported: c.supported,
        min: c.min,
        max: c.max,
        step: c.step,
        note: c.note@,
    }
}

/// Constraints with their texts as characters.
pub open spec fn limits_of(cs: Seq<ParameterConstraintView>) -> Seq<Limit> {
    Seq::new(cs.len(), |i: int| limit_of(cs[i]))
}

/// What most providers take.
pub open spec fn common_limits() -> Seq<Limit> {
    seq![
        limit("maxTokens"@, Some(100i32), None, Some(100i32), ">= 1"@),
        limit("maxCompletionTokens"@, Some(100i32), None, Some(100i32), ">= 1"@),
        limit("temperature"@, Some(0i32), Some(200i32), Some(10i32), "0..2"@),
        limit("topP"@, Some(0i32), Some(100i32), Some(5i32), "0..1"@),
        limit("topK"@, Some(0i32), None, Some(100i32), ">= 0"@),
        limit("minP"@, Some(0i32), Some(100i32), Some(1i32), "0..1"@),
        limit("topA"@, Some(0i32), Some(100i32), Some(1i32), "0..1"@),
        limit("presencePenalty"@, Some(-200i32), Some(200i32), Some(10i32), "-2..2"@),
        limit("frequencyPenalty"@, Some(-200i32), Some(200i32), Some(10i32), "-2..2"@),
        limit("repetitionPenalty"@, Some(0i32), Some(200i32), Some(5i32), "0..2"@),
        limit("topLogprobs"@, Some(0i32), Some(2000i32), Some(100i32), "0..20"@),
        limit("n"@, Some(100i32), None, Some(100i32), ">= 1"@),
        limit("includeReasoning"@, None, None, None, "boolean"@),
        limit("logprobs"@, None, None, None, "boolean"@),
        limit("store"@, None, None, None, "boolean"@),
        limit("parallelToolCalls"@, None, None, None, "Only send when tools are specified; OpenAI-compatible APIs reject it without tools."@),
    ]
}

/// The constraints with those of `ids` marked as not supported.
pub open spec fn unsupported(limits: Seq<Limit>, ids: Seq<Seq<char>>, note: Seq<char>) -> Seq<Limit> {
    Seq::new(
        limits.len(),
        |i: int|
            if ids.contains(limits[i].id) {
                Limit { supported: false, note, ..limits[i] }
            } else {
                limits[i]
            },
    )
}

/// The first constraint with an id, from `from` on.
pub open spec fn limit_index(limits: Seq<Limit>, id: Seq<char>, from: int) -> Option<int>
    decreases limits.len() - from,
{
    if from < 0 || from >= limits.len() {
        None
    } else if limits[from].id == id {
        Some(from)
    } else {
        limit_index(limits, id, from + 1)
    }
}

/// The constraints with other bounds for the first with an id.
pub open spec fn rebound(
    limits: Seq<Limit>,
    id: Seq<char>,
    min: Option<i32>,
    max: Option<i32>,
    note: Seq<char>,
) -> Seq<Limit> {
    match limit_index(limits, id, 0) {
        Some(i) => limits.update(i, Limit { min, max, note, ..limits[i] }),
        None => limits,
    }
}

/// What a provider takes.
pub open spec fn provider_limits(provider: ProviderKind) -> Seq<Limit> {
    match provider {
        ProviderKind::OpenRouter => common_limits(),
        ProviderKind::OpenAiCompatible => common_limits(),
        ProviderKind::DeepSeek => unsupported(
            common_limits(),
            deepseek_ignores(),
            "DeepSeek docs: unsupported/deprecated; the API will ignore this parameter."@,
        ),
        ProviderKind::Kimi => unsupported(
            common_limits(),
            kimi_ignores(),
            "Kimi current docs do not list this parameter for Chat Completion."@,
        ),
        ProviderKind::GigaChat => rebound(
            unsupported(
                common_limits(),
                gigachat_ignores(),
                "GigaChat docs do not list this parameter for Chat Completion."@,
            ),
            "temperature"@,
            Some(1i32),
            None,
            "GigaChat docs: temperature must be > 0; values above 2 can be too random."@,
        ),
    }
}

/// The parameters that DeepSeek does not take.
pub open spec fn deepseek_ignores() -> Seq<Seq<char>> {
    seq![
            "maxCompletionTokens"@,
            "topK"@,
            "minP"@,
            "topA"@,
            "presencePenalty"@,
            "frequencyPenalty"@,
            "repetitionPenalty"@,
            "n"@,
            "store"@,
            "parallelToolCalls"@,
        ]
}

/// The parameters that Kimi does not take.
pub open spec fn kimi_ignores() -> Seq<Seq<char>> {
    seq![
            "maxTokens"@,
            "temperature"@,
            "topP"@,
            "topK"@,
            "minP"@,
            "topA"@,
            "presencePenalty"@,
            "frequencyPenalty"@,
            "repetitionPenalty"@,
            "n"@,
            "store"@,
            "parallelToolCalls"@,
        ]
}

/// The parameters that GigaChat does not take.
pub open spec fn gigachat_ignores() -> Seq<Seq<char>> {
    seq![
            "maxCompletionTokens"@,
            "topK"@,
            "minP"@,
            "topA"@,
            "presencePenalty"@,
            "frequencyPenalty"@,
            "store"@,
            "parallelToolCalls"@,
        ]
}

fn constraint(
    id: &'static str,
    min: Option<i32>,
    max: Option<i32>,
    step: Option<i32>,
    note: &'static str,
) -> (r: ParameterConstraintView)
    ensures
        limit_of(r) == limit(id@, min, max, step, note@),
{
    ParameterConstraintView { id, supported: true, min, max, step, note }
}

fn common_constraints() -> (r: Vec<ParameterConstraintView>)
    ensures
        limits_of(r@) == common_limits(),
{
    let r = vec![
        constraint("maxTokens", Some(100), None, Some(100), ">= 1"),
        constraint("maxCompletionTokens", Some(100), None, Some(100), ">= 1"),
        constraint("temperature", Some(0), Some(200), Some(10), "0..2"),
        constraint("topP", Some(0), Some(100), Some(5), "0..1"),
        constraint("topK", Some(0), None, Some(100), ">= 0"),
        constraint("minP", Some(0), Some(100), Some(1), "0..1"),
        constraint("topA", Some(0), Some(100), Some(1), "0..1"),
        constraint("presencePenalty", Some(-200), Some(200), Some(10), "-2..2"),
        constraint("frequencyPenalty", Some(-200), Some(200), Some(10), "-2..2"),
        constraint("repetitionPenalty", Some(0), Some(200), Some(5), "0..2"),
        constraint("topLogprobs", Some(0), Some(2000), Some(100), "0..20"),
        constraint("n", Some(100), None, Some(100), ">= 1"),
        constraint("includeReasoning", None, None, None, "boolean"),
        constraint("logprobs", None, None, None, "boolean"),
        constraint("store", None, None, None, "boolean"),
        constraint("parallelToolCalls", None, None, None, "Only send when tools are specified; OpenAI-compatible APIs reject it without tools."),
    ];
    assert(limits_of(r@) =~= common_limits());
    r
}

fn names(ids: &[&'static str], id: &str) -> (r: bool)
    ensures
        r == crate::providers::literal_texts(ids@).contains(id@),
{
    let ghost all = crate::providers::literal_texts(ids@);
    let mut i: usize = 0;
    while i < ids.len()
        invariant
            i <= ids.len(),
            all == crate::providers::literal_texts(ids@),
            forall|j: int| 0 <= j < i ==> #[trigger] all[j] != id@,
        decreases ids.len() - i,
    {
        assert(all[i as int] == ids@[i as int]@);
        if same(ids[i], id) {
            assert(all.contains(id@));
            return true;
        }
        i = i + 1;
    }
    proof {
        assert(all.len() == ids@.len());
        if all.contains(id@) {
            let k = all.index_of(id@);
            assert(all[k] == id@);
        }
    }
    false
}

fn mark_unsupported(
    constraints: &mut Vec<ParameterConstraintView>,
    ids: &[&'static str],
    note: &'static str,
)
    ensures
        limits_of(final(constraints)@) == unsupported(
            limits_of(old(constraints)@),
            crate::providers::literal_texts(ids@),
            note@,
        ),
{
    let ghost first = constraints@;
    let ghost want = unsupported(
        limits_of(first),
        crate::providers::literal_texts(ids@),
        note@,
    );
    let mut i: usize = 0;
    while i < constraints.len()
        invariant
            i <= constraints.len(),
            constraints@.len() == first.len(),
            want == unsupported(
                limits_of(first),
                crate::providers::literal_texts(ids@),
                note@,
            ),
            forall|j: int| 0 <= j < i ==> limit_of(#[trigger] constraints@[j]) == want[j],
            forall|j: int| i <= j < first.len() ==> #[trigger] constraints@[j] == first[j],
        decreases constraints.len() - i,
    {
        assert(constraints@[i as int] == first[i as int]);
        if names(ids, constraints[i].id) {
            let changed = ParameterConstraintView { supported: false, note, ..constraints[i] };
            constraints.set(i, changed);
        }
        assert(limit_of(constraints@[i as int]) == want[i as int]);
        i = i + 1;
    }
    assert(limits_of(constraints@) =~= want);
}

fn set_constraint(
    constraints: &mut Vec<ParameterConstraintView>,
    id: &str,
    min: Option<i32>,
    max: Option<i32>,
    note: &'static str,
)
    ensures
        limits_of(final(constraints)@) == rebound(
            limits_of(old(constraints)@),
            id@,
            min,
            max,
            note@,
        ),
{
    let ghost all = limits_of(constraints@);
    let mut i: usize = 0;
    while i < constraints.len()
        invariant
            i <= constraints.len(),
            constraints@ == old(constraints)@,
            all == limits_of(constraints@),
            limit_index(all, id@, 0) == limit_index(all, id@, i as int),
        decreases constraints.len() - i,
    {
        assert(all[i as int].id == constraints@[i as int].id@);
        if same(constraints[i].id, id) {
            let changed = ParameterConstraintView { min, max, note, ..constraints[i] };
            constraints.set(i, changed);
            assert(limits_of(constraints@) =~= all.update(i as int, limit_of(changed)));
            return;
        }
        i = i + 1;
    }
}

/// What a provider takes.
pub fn parameter_constraints(provider: ProviderKind) -> (r: Vec<ParameterConstraintView>)
    ensures
        limits_of(r@) == provider_limits(provider),
{
    let mut constraints = common_constraints();
    match provider {
        ProviderKind::OpenRouter => {},
        ProviderKind::OpenAiCompatible => {},
        ProviderKind::DeepSeek => {
            let ids: [&'static str; 10] = ["maxCompletionTokens", "topK", "minP", "topA", "presencePenalty", "frequencyPenalty", "repetitionPenalty", "n", "store", "parallelToolCalls"];
            assert(crate::providers::literal_texts(ids@) =~= deepseek_ignores());
            mark_unsupported(
                &mut constraints,
                &ids,
                "DeepSeek docs: unsupported/deprecated; the API will ignore this parameter.",
            );
        },
        ProviderKind::Kimi => {
            let ids: [&'static str; 12] = ["maxTokens", "temperature", "topP", "topK", "minP", "topA", "presencePenalty", "frequencyPenalty", "repetitionPenalty", "n", "store", "parallelToolCalls"];
            assert(crate::providers::literal_texts(ids@) =~= kimi_ignores());
            mark_unsupported(
                &mut constraints,
                &ids,
                "Kimi current docs do not list this parameter for Chat Completion.",
            );
        },
        ProviderKind::GigaChat => {
            let ids: [&'static str; 8] = ["maxCompletionTokens", "topK", "minP", "topA", "presencePenalty", "frequencyPenalty", "store", "parallelToolCalls"];
            assert(crate::providers::literal_texts(ids@) =~= gigachat_ignores());
            mark_unsupported(
                &mut constraints,
                &ids,
                "GigaChat docs do not list this parameter for Chat Completion.",
            );
            set_constraint(
                &mut constraints,
                "temperature",
                Some(1),
                None,
                "GigaChat docs: temperature must be > 0; values above 2 can be too random.",
            );
        },
    }
    constraints
}

proof fn lemma_limit_index(limits: Seq<Limit>, id: Seq<char>, from: int)
    requires
        from >= 0,
    ensures
        limit_index(limits, id, from) matches Some(i) ==> from <= i < limits.len() && limits[i].id
            == id,
    decreases limits.len() - from,
{
    if from < limits.len() && limits[from].id != id {
        lemma_limit_index(limits, id, from + 1);
    }
}

/// Every provider is shown with every parameter, in one order, whether it takes
/// the parameter or not.
pub proof fn every_parameter_is_shown(provider: ProviderKind)
    ensures
        provider_limits(provider).len() == common_limits().len(),
        forall|i: int|
            0 <= i < common_limits().len() ==> (#[trigger] provider_limits(provider)[i]).id
                == common_limits()[i].id,
{
    let marked = unsupported(
        common_limits(),
        gigachat_ignores(),
        "GigaChat docs do not list this parameter for Chat Completion."@,
    );
    lemma_limit_index(marked, "temperature"@, 0);
}

/// A provider as the web interface shows it.
#[derive(Debug, PartialEq, Eq)]
pub struct ProviderView {
    pub id: String,
    pub name: String,
    pub default_base_url: String,
    pub default_model: String,
    pub parameter_constraints: Vec<ParameterConstraintView>,
}

/// Whether a view shows a provider.
pub open spec fn shows(view: ProviderView, kind: ProviderKind) -> bool {
    &&& view.id@ == crate::providers::provider_name(kind)
    &&& view.name@ == crate::providers::provider_display_name(kind)
    &&& view.default_base_url@ == crate::providers::provider_base_url(kind)
    &&& view.default_model@ == crate::providers::provider_model(kind)
    &&& limits_of(view.parameter_constraints@) == provider_limits(kind)
}

/// The providers as the web interface shows them.
pub fn provider_views() -> (r: Vec<ProviderView>)
    ensures
        r@.len() == crate::providers::all_providers().len(),
        forall|i: int|
            0 <= i < r@.len() ==> shows(
                #[trigger] r@[i],
                crate::providers::all_providers()[i],
            ),
{
    let all = ProviderKind::all();
    let mut out: Vec<ProviderView> = Vec::new();
    let mut i: usize = 0;
    while i < all.len()
        invariant
            i <= all.len(),
            all@ == crate::providers::all_providers(),
            out@.len() == i,
            forall|j: int| 0 <= j < i ==> shows(#[trigger] out@[j], all@[j]),
        decreases all.len() - i,
    {
        let kind = all[i];
        let spec = kind.spec();
        out.push(
            ProviderView {
                id: kind.name().to_string(),
                name: spec.display_name.to_string(),
                default_base_url: spec.default_base_url.to_string(),
                default_model: spec.default_model.to_string(),
                parameter_constraints: parameter_constraints(kind),
            },
        );
        i = i + 1;
    }
    out
}

/// A text without white space around it; none for a blank one.
pub open spec fn unblank(value: Option<String>) -> Option<Seq<char>> {
    match value {
        Some(text) if !crate::text::blank(text@) => Some(crate::text::trimmed(text@)),
        _ => None,
    }
}

/// A text without white space around it; none for a blank one.
pub fn blank_to_none(value: Option<String>) -> (r: Option<String>)
    ensures
        crate::text::option_text(r) == unblank(value),
{
    match value {
        Some(text) => {
            if is_blank(text.as_str()) {
                None
            } else {
                Some(trim(text.as_str()).to_string())
            }
        },
        None => None,
    }
}

/// How a reply is to be made, as the web interface asks for it.
#[derive(Debug, PartialEq, Eq)]
pub struct WebResponseControl {
    pub response_format: Option<String>,
    pub answer_format: Option<String>,
    pub max_tokens: Option<u32>,
    pub max_completion_tokens: Option<u32>,
    pub temperature: Option<Float32>,
    pub top_p: Option<Float32>,
    pub top_k: Option<u32>,
    pub min_p: Option<Float32>,
    pub top_a: Option<Float32>,
    pub presence_penalty: Option<Float32>,
    pub frequency_penalty: Option<Float32>,
    pub repetition_penalty: Option<Float32>,
    pub seed: Option<i64>,
    pub reasoning_effort: Option<String>,
    pub include_reasoning: Option<bool>,
    pub verbosity: Option<String>,
    pub logprobs: Option<bool>,
    pub top_logprobs: Option<u32>,
    pub n: Option<u32>,
    pub store: Option<bool>,
    pub parallel_tool_calls: Option<bool>,
    pub user: Option<String>,
    pub service_tier: Option<String>,
    pub extra_params: Option<Vec<(String, String)>>,
    pub stop: Vec<String>,
    pub answer_prefix: Option<String>,
    pub answer_suffix: Option<String>,
    pub address_as: Option<String>,
    pub quote_question: bool,
    pub format_instruction: Option<String>,
    pub completion_instruction: Option<String>,
}

/// The shape of an answer that the web interface names.
pub open spec fn web_shape(name: Option<String>) -> AnswerFormat {
    match name {
        Some(name) => match crate::cli::args::shape_named(name@) {
            Some(format) => format,
            None => AnswerFormat::Natural,
        },
        None => AnswerFormat::Natural,
    }
}

/// Whether a control asks for what the web interface does.
pub open spec fn web_controls(w: WebResponseControl, c: ResponseControl) -> bool {
    &&& c.format == (if w.response_format matches Some(name) && name@ == "json-object"@ {
        ResponseFormat::JsonObject
    } else {
        ResponseFormat::Text
    })
    &&& c.answer_format == web_shape(w.answer_format)
    &&& match w.extra_params {
        Some(params) => c.extra_params == params,
        None => c.extra_params@.len() == 0,
    }
    &&& c.stop == w.stop
    &&& c.quote_question == w.quote_question
    &&& c.max_tokens == w.max_tokens
    &&& c.max_completion_tokens == w.max_completion_tokens
    &&& c.temperature == w.temperature
    &&& c.top_p == w.top_p
    &&& c.top_k == w.top_k
    &&& c.min_p == w.min_p
    &&& c.top_a == w.top_a
    &&& c.presence_penalty == w.presence_penalty
    &&& c.frequency_penalty == w.frequency_penalty
    &&& c.repetition_penalty == w.repetition_penalty
    &&& c.seed == w.seed
    &&& c.include_reasoning == w.include_reasoning
    &&& c.logprobs == w.logprobs
    &&& c.top_logprobs == w.top_logprobs
    &&& c.n == w.n
    &&& c.store == w.store
    &&& c.parallel_tool_calls == w.parallel_tool_calls
    &&& crate::text::option_text(c.reasoning_effort) == unblank(w.reasoning_effort)
    &&& crate::text::option_text(c.verbosity) == unblank(w.verbosity)
    &&& crate::text::option_text(c.user) == unblank(w.user)
    &&& crate::text::option_text(c.service_tier) == unblank(w.service_tier)
    &&& crate::text::option_text(c.answer_prefix) == unblank(w.answer_prefix)
    &&& crate::text::option_text(c.answer_suffix) == unblank(w.answer_suffix)
    &&& crate::text::option_text(c.address_as) == unblank(w.address_as)
    &&& crate::text::option_text(c.format_instruction) == unblank(w.format_instruction)
    &&& crate::text::option_text(c.completion_instruction) == unblank(w.completion_instruction)
}

impl Default for WebResponseControl {
    fn default() -> (r: Self)
        ensures
            r.response_format is None,
            r.answer_format is None,
            r.extra_params is None,
            r.stop@.len() == 0,
            !r.quote_question,
            r.max_tokens is None,
            r.max_completion_tokens is None,
            r.temperature is None,
            r.top_p is None,
            r.top_k is None,
            r.min_p is None,
            r.top_a is None,
            r.presence_penalty is None,
            r.frequency_penalty is None,
            r.repetition_penalty is None,
            r.seed is None,
            r.include_reasoning is None,
            r.logprobs is None,
            r.top_logprobs is None,
            r.n is None,
            r.store is None,
            r.parallel_tool_calls is None,
            r.reasoning_effort is None,
            r.verbosity is None,
            r.user is None,
            r.service_tier is None,
            r.answer_prefix is None,
            r.answer_suffix is None,
            r.address_as is None,
            r.format_instruction is None,
            r.completion_instruction is None,
    {
        WebResponseControl {
            response_format: None,
            answer_format: None,
            extra_params: None,
            stop: Vec::new(),
            quote_question: false,
            max_tokens: None,
            max_completion_tokens: None,
            temperature: None,
            top_p: None,
            top_k: None,
            min_p: None,
            top_a: None,
            presence_penalty: None,
            frequency_penalty: None,
            repetition_penalty: None,
            seed: None,
            include_reasoning: None,
            logprobs: None,
            top_logprobs: None,
            n: None,
            store: None,
            parallel_tool_calls: None,
            reasoning_effort: None,
            verbosity: None,
            user: None,
            service_tier: None,
            answer_prefix: None,
            answer_suffix: None,
            address_as: None,
            format_instruction: None,
            completion_instruction: None,
        }
    }
}

impl WebResponseControl {
    /// The control that the web interface asks for.
    pub fn into_control(self) -> (r: ResponseControl)
        ensures
            web_controls(self, r),
    {
        let format = match &self.response_format {
            Some(name) => if same(name.as_str(), "json-object") {
                ResponseFormat::JsonObject
            } else {
                ResponseFormat::Text
            },
            None => ResponseFormat::Text,
        };
        let answer_format = match &self.answer_format {
            Some(name) => match crate::cli::args::parse_answer_format(name.as_str()) {
                Some(format) => format,
                None => AnswerFormat::Natural,
            },
            None => AnswerFormat::Natural,
        };
        ResponseControl {
            format,
            answer_format,
            extra_params: match self.extra_params {
                Some(params) => params,
                None => Vec::new(),
            },
            stop: self.stop,
            quote_question: self.quote_question,
            max_tokens: self.max_tokens,
            max_completion_tokens: self.max_completion_tokens,
            temperature: self.temperature,
            top_p: self.top_p,
            top_k: self.top_k,
            min_p: self.min_p,
            top_a: self.top_a,
            presence_penalty: self.presence_penalty,
            frequency_penalty: self.frequency_penalty,
            repetition_penalty: self.repetition_penalty,
            seed: self.seed,
            include_reasoning: self.include_reasoning,
            logprobs: self.logprobs,
            top_logprobs: self.top_logprobs,
            n: self.n,
            store: self.store,
            parallel_tool_calls: self.parallel_tool_calls,
            reasoning_effort: blank_to_none(self.reasoning_effort),
            verbosity: blank_to_none(self.verbosity),
            user: blank_to_none(self.user),
            service_tier: blank_to_none(self.service_tier),
            answer_prefix: blank_to_none(self.answer_prefix),
            answer_suffix: blank_to_none(self.answer_suffix),
            address_as: blank_to_none(self.address_as),
            format_instruction: blank_to_none(self.format_instruction),
            completion_instruction: blank_to_none(self.completion_instruction),
        }
    }
}

/// Prices that the web interface gives, per million tokens.
#[derive(Debug, PartialEq, Eq)]
pub struct WebPricing {
    pub input_per_million: Option<Float64>,
    pub output_per_million: Option<Float64>,
    pub cache_hit_input_per_million: Option<Float64>,
    pub cache_miss_input_per_million: Option<Float64>,
    pub currency: Option<String>,
}

/// Whether prices are those that the web interface gives: none without prices of
/// input and output.
pub open spec fn web_prices(w: WebPricing, r: Option<ModelPricing>) -> bool {
    match (w.input_per_million, w.output_per_million) {
        (Some(input), Some(output)) => {
            &&& r matches Some(p)
            &&& p.input_per_million == Some(input)
            &&& p.output_per_million == output
            &&& p.cache_hit_input_per_million == w.cache_hit_input_per_million
            &&& p.cache_miss_input_per_million == w.cache_miss_input_per_million
            &&& p.currency@ == (match unblank(w.currency) {
                Some(currency) => currency,
                None => "USD"@,
            })
        },
        _ => r is None,
    }
}

impl WebPricing {
    /// The prices of the request; none without prices of input and output.
    pub fn into_model_pricing(self) -> (r: Option<ModelPricing>)
        ensures
            web_prices(self, r),
    {
        match (self.input_per_million, self.output_per_million) {
            (Some(input), Some(output_per_million)) => {
                let currency = match blank_to_none(self.currency) {
                    Some(currency) => currency,
                    None => "USD".to_string(),
                };
                Some(
                    ModelPricing {
                        currency,
                        input_per_million: Some(input),
                        output_per_million,
                        cache_hit_input_per_million: self.cache_hit_input_per_million,
                        cache_miss_input_per_million: self.cache_miss_input_per_million,
                    },
                )
            },
            _ => None,
        }
    }
}

/// Where the web interface has the cost of a request looked up.
#[derive(Debug, PartialEq, Eq)]
pub struct WebBilling {
    pub openai_admin_token: Option<String>,
    pub openai_cost_poll_seconds: Option<u64>,
}

impl WebBilling {
    /// Where the cost of the request is looked up.
    pub fn into_billing_lookup(self) -> (r: Option<BillingLookup>)
        ensures
            crate::cli::args::looks_up(
                self.openai_admin_token,
                match self.openai_cost_poll_seconds {
                    Some(seconds) => seconds,
                    None => 20,
                },
                r,
            ),
    {
        let poll_seconds: u64 = match self.openai_cost_poll_seconds {
            Some(seconds) => seconds,
            None => 20,
        };
        match blank_to_none(self.openai_admin_token) {
            Some(admin_token) => Some(
                BillingLookup {
                    provider: BillingProvider::OpenAiCosts,
                    admin_token,
                    poll_seconds,
                },
            ),
            None => None,
        }
    }
}

/// A request for the models of a provider.
#[derive(Debug, PartialEq, Eq)]
pub struct ModelsRequest {
    pub provider: String,
    pub base_url: String,
    pub token: String,
    pub token_provider: Option<String>,
}

/// Whether a result is the error for a provider that is not known.
pub open spec fn unknown_provider<T>(name: Seq<char>, r: Result<T, AppError>) -> bool {
    r matches Err(AppError::UnsupportedProvider(n)) && n@ == crate::text::ascii_lower(name)
}

impl ModelsRequest {
    /// The profile that the request stands for.
    pub fn profile(&self) -> (r: Result<ProfileConfig, AppError>)
        ensures
            match crate::providers::provider_named(crate::text::ascii_lower(self.provider@)) {
                Some(kind) => r matches Ok(p) && p.provider == kind && p.model@
                    == crate::providers::provider_model(kind) && p.base_url@ == self.base_url@
                    && p.token_ref@.len() == 0,
                None => unknown_provider(self.provider@, r),
            },
    {
        let provider = match ProviderKind::parse(self.provider.as_str()) {
            Ok(provider) => provider,
            Err(error) => {
                return Err(error);
            },
        };
        Ok(
            ProfileConfig {
                provider,
                model: provider.default_model().to_string(),
                base_url: self.base_url.clone(),
                token_ref: String::new(),
            },
        )
    }
}

/// A request for an answer.
#[derive(Debug, PartialEq, Eq)]
pub struct ChatWebRequest {
    pub provider: String,
    pub base_url: String,
    pub token: String,
    pub token_provider: Option<String>,
    pub model: String,
    pub system_prompt: Option<String>,
    pub prompt: String,
    pub control: WebResponseControl,
    pub pricing: Option<WebPricing>,
    pub billing: Option<WebBilling>,
}

/// The messages of a request for an answer.
pub open spec fn web_messages(request: ChatWebRequest) -> Seq<(Role, Seq<char>)> {
    match unblank(request.system_prompt) {
        Some(system) => seq![(Role::System, system), (Role::User, request.prompt@)],
        None => seq![(Role::User, request.prompt@)],
    }
}

/// Whether a profile is the one that a request stands for.
pub open spec fn web_profile(request: ChatWebRequest, kind: ProviderKind, p: ProfileConfig) -> bool {
    &&& p.provider == kind
    &&& p.model@ == crate::text::trimmed(request.model@)
    &&& p.base_url@ == request.base_url@
    &&& p.token_ref@.len() == 0
}

impl ChatWebRequest {
    /// The profile that the request stands for.
    pub fn profile(&self) -> (r: Result<ProfileConfig, AppError>)
        ensures
            match crate::providers::provider_named(crate::text::ascii_lower(self.provider@)) {
                None => unknown_provider(self.provider@, r),
                Some(kind) => if crate::text::blank(self.model@) {
                    r matches Err(AppError::InvalidInput(message)) && message@
                        == "Model is required"@
                } else {
                    r matches Ok(p) && web_profile(*self, kind, p)
                },
            },
    {
        let provider = match ProviderKind::parse(self.provider.as_str()) {
            Ok(provider) => provider,
            Err(error) => {
                return Err(error);
            },
        };
        if is_blank(self.model.as_str()) {
            return Err(AppError::InvalidInput("Model is required".to_string()));
        }
        Ok(
            ProfileConfig {
                provider,
                model: trim(self.model.as_str()).to_string(),
                base_url: self.base_url.clone(),
                token_ref: String::new(),
            },
        )
    }

    /// The messages of the request: the system prompt, unless it is blank, then
    /// the user's.
    pub fn chat_messages(&self) -> (r: Vec<ChatMessage>)
        ensures
            crate::providers::message_views(r@) == web_messages(*self),
    {
        let mut messages: Vec<ChatMessage> = Vec::new();
        if let Some(content) = blank_to_none(crate::text::clone_option(&self.system_prompt)) {
            messages.push(ChatMessage { role: Role::System, content });
        }
        messages.push(ChatMessage { role: Role::User, content: self.prompt.clone() });
        assert(crate::providers::message_views(messages@) =~= web_messages(*self));
        messages
    }

    /// Accepts the request where it can be made: with a provider that is known,
    /// a model, a usable base URL and a prompt, looked at in this order.
    pub fn checked_profile(&self) -> (r: Result<ProfileConfig, AppError>)
        ensures
            match crate::providers::provider_named(crate::text::ascii_lower(self.provider@)) {
                None => unknown_provider(self.provider@, r),
                Some(kind) => if crate::text::blank(self.model@) {
                    r matches Err(AppError::InvalidInput(message)) && message@
                        == "Model is required"@
                } else if !crate::providers::usable_scheme(
                    crate::providers::url_scheme(self.base_url@),
                ) {
                    r matches Err(AppError::InvalidBaseUrl { profile, url }) && profile@
                        == crate::providers::provider_name(kind) && url@ == self.base_url@
                } else if crate::text::blank(self.prompt@) {
                    r matches Err(AppError::InvalidInput(message)) && message@
                        == "Prompt is required"@
                } else {
                    r matches Ok(p) && web_profile(*self, kind, p)
                },
            },
    {
        let profile = match self.profile() {
            Ok(profile) => profile,
            Err(error) => {
                return Err(error);
            },
        };
        match validate_base_url(profile.provider.name(), profile.base_url.as_str()) {
            Ok(()) => {},
            Err(error) => {
                return Err(error);
            },
        }
        if is_blank(self.prompt.as_str()) {
            return Err(AppError::InvalidInput("Prompt is required".to_string()));
        }
        Ok(profile)
    }

    /// The request as it goes to the model of a profile.
    pub fn chat_request(self, profile: &ProfileConfig) -> (r: ChatRequest)
        ensures
            r.model@ == profile.model@,
            crate::providers::message_views(r.messages@) == web_messages(self),
            web_controls(self.control, r.control),
            self.pricing is None ==> r.pricing is None,
            self.billing is None ==> r.billing is None,
            self.pricing matches Some(p) ==> web_prices(p, r.pricing),
            self.billing matches Some(b) ==> crate::cli::args::looks_up(
                b.openai_admin_token,
                match b.openai_cost_poll_seconds {
                    Some(seconds) => seconds,
                    None => 20,
                },
                r.billing,
            ),
    {
        let messages = self.chat_messages();
        let pricing = match self.pricing {
            Some(pricing) => pricing.into_model_pricing(),
            None => None,
        };
        let billing = match self.billing {
            Some(billing) => billing.into_billing_lookup(),
            None => None,
        };
        ChatRequest {
            model: profile.model.clone(),
            messages,
            control: self.control.into_control(),
            pricing,
            billing,
        }
    }
}

/// Whether a token that was typed belongs to a provider; nothing where it is
/// said to belong to one that is not known.
pub open spec fn typed_for(provider: ProviderKind, token_provider: Option<&str>) -> Option<bool> {
    match token_provider {
        None => Some(true),
        Some(name) => if crate::text::blank(name@) {
            Some(false)
        } else {
            match crate::providers::provider_named(
                crate::text::ascii_lower(crate::text::trimmed(name@)),
            ) {
                Some(kind) => Some(kind == provider),
                None => None,
            }
        },
    }
}

/// Whether a token that was typed belongs to the provider of a profile. One that
/// is not said to belong to another does.
pub fn token_override_belongs_to_provider(
    profile: &ProfileConfig,
    token_provider: Option<&str>,
) -> (r: Result<bool, AppError>)
    ensures
        match typed_for(profile.provider, token_provider) {
            Some(belongs) => r == Ok::<bool, AppError>(belongs),
            None => unknown_provider(crate::text::trimmed(token_provider->0@), r),
        },
{
    let name = match token_provider {
        Some(name) => trim(name),
        None => {
            return Ok(true);
        },
    };
    if name.is_empty() {
        return Ok(false);
    }
    match ProviderKind::parse(name) {
        Ok(kind) => Ok(kind == profile.provider),
        Err(error) => Err(error),
    }
}

/// The first profile of a provider, from `from` on, that has a token or shares
/// one.
pub open spec fn profile_with_token(
    tokens: Map<Seq<char>, Seq<char>>,
    profiles: Seq<(Seq<char>, ProfileConfig)>,
    provider: ProviderKind,
    from: int,
) -> Option<int>
    decreases profiles.len() - from,
{
    if from < 0 || from >= profiles.len() {
        None
    } else if profiles[from].1.provider == provider && crate::secrets::shared_token(
        tokens,
        profiles,
        profiles[from].0,
        profiles[from].1,
    ) is Some {
        Some(from)
    } else {
        profile_with_token(tokens, profiles, provider, from + 1)
    }
}

/// What is said where no token is to be had.
pub open spec fn asks_for_token<T>(r: Result<T, AppError>) -> bool {
    r matches Err(AppError::InvalidInput(message)) && message@
        == "API token is required. Save it with `ai token set --profile <name>` or paste it once in the web UI."@
}

/// The token that a request of the web interface comes with or that is stored
/// for its provider; nothing where the profiles have to be asked. A token that
/// was typed for the provider is stored.
pub fn direct_web_token<S: SecretStore>(
    secrets: &mut S,
    profile: &ProfileConfig,
    token_override: &str,
    token_provider: Option<&str>,
) -> (r: Result<Option<String>, AppError>)
    ensures
        !crate::text::blank(token_override@) && typed_for(
            profile.provider,
            token_provider,
        ) is None ==> unknown_provider(crate::text::trimmed(token_provider->0@), r)
            && *final(secrets) == *old(secrets),
        !crate::text::blank(token_override@) && typed_for(profile.provider, token_provider) == Some(
            true,
        ) ==> (r matches Ok(found) ==> crate::text::option_text(found) == Some(
            crate::text::trimmed(token_override@),
        ) && final(secrets).tokens() == old(secrets).tokens().insert(
            crate::providers::provider_name(profile.provider),
            crate::text::trimmed(token_override@),
        )),
        crate::text::blank(token_override@) || typed_for(profile.provider, token_provider) == Some(
            false,
        ) ==> *final(secrets) == *old(secrets) && (r matches Ok(found) ==> crate::text::option_text(
            found,
        ) == crate::secrets::lookup(
            old(secrets).tokens(),
            crate::providers::provider_name(profile.provider),
        )),
        old(secrets).answers() ==> final(secrets).answers(),
        old(secrets).answers() && (crate::text::blank(token_override@) || typed_for(
            profile.provider,
            token_provider,
        ) is Some) ==> r is Ok,
{
    let typed = trim(token_override);
    if !typed.is_empty() {
        match token_override_belongs_to_provider(profile, token_provider) {
            Err(error) => {
                return Err(error);
            },
            Ok(true) => {
                return match set_profile_token(secrets, profile, typed) {
                    Ok(()) => Ok(Some(typed.to_string())),
                    Err(error) => Err(error),
                };
            },
            Ok(false) => {},
        }
    }
    secrets.get_token(profile.provider.name())
}

/// The token of the first profile of a provider that has one or shares one.
pub fn web_token_of_profiles<S: SecretStore>(
    secrets: &mut S,
    profile: &ProfileConfig,
    config: &AppConfig,
) -> (r: Result<String, AppError>)
    ensures
        old(secrets).answers() ==> final(secrets).answers(),
        match profile_with_token(old(secrets).tokens(), config.profiles@, profile.provider, 0) {
            Some(i) => {
                let entry = config.profiles@[i];
                &&& r matches Ok(token) ==> crate::secrets::shared_token(
                    old(secrets).tokens(),
                    config.profiles@,
                    entry.0,
                    entry.1,
                ) == Some(token@) && final(secrets).tokens() == crate::secrets::tokens_after_search(
                    old(secrets).tokens(),
                    config.profiles@,
                    entry.0,
                    entry.1,
                )
                &&& old(secrets).answers() ==> r is Ok
            },
            None => r is Err && (old(secrets).answers() ==> asks_for_token(r)
                && final(secrets).tokens() == old(secrets).tokens()),
        },
{
    let ghost entries = config.profiles@;
    let ghost tokens = secrets.tokens();
    let n: usize = config.profiles.len();
    let mut i: usize = 0;
    while i < n
        invariant
            n == config.profiles@.len(),
            i <= n,
            entries == config.profiles@,
            tokens == old(secrets).tokens(),
            secrets.tokens() == tokens,
            old(secrets).answers() ==> secrets.answers(),
            profile_with_token(tokens, entries, profile.provider, 0) == profile_with_token(
                tokens,
                entries,
                profile.provider,
                i as int,
            ),
        decreases n - i,
    {
        let name = config.profiles.key_at(i);
        let candidate = config.profiles.value_at(i);
        assert(entries[i as int] == (name@, *candidate));
        if candidate.provider == profile.provider {
            match get_config_profile_token(secrets, config, name.as_str(), candidate) {
                Err(error) => {
                    return Err(error);
                },
                Ok(Some(token)) => {
                    return Ok(token);
                },
                Ok(None) => {},
            }
        }
        i = i + 1;
    }
    Err(
        AppError::InvalidInput(
            "API token is required. Save it with `ai token set --profile <name>` or paste it once in the web UI.".to_string(),
        ),
    )
}

/// The token of a request of the web interface: one that was typed for the
/// provider, which is then stored, else the one that is stored for it, else the
/// one of a profile.
pub fn resolve_web_token<S: SecretStore>(
    secrets: &mut S,
    profile: &ProfileConfig,
    token_override: &str,
    token_provider: Option<&str>,
    config: &AppConfig,
) -> (r: Result<String, AppError>)
    ensures
        !crate::text::blank(token_override@) && typed_for(
            profile.provider,
            token_provider,
        ) is None ==> unknown_provider(crate::text::trimmed(token_provider->0@), r)
            && *final(secrets) == *old(secrets),
        r matches Ok(token) ==> if !crate::text::blank(token_override@) && typed_for(
            profile.provider,
            token_provider,
        ) == Some(true) {
            &&& token@ == crate::text::trimmed(token_override@)
            &&& final(secrets).tokens() == old(secrets).tokens().insert(
                crate::providers::provider_name(profile.provider),
                crate::text::trimmed(token_override@),
            )
        } else {
            stored_web_token(
                old(secrets).tokens(),
                final(secrets).tokens(),
                config.profiles@,
                profile.provider,
                r,
            )
        },
        old(secrets).answers() ==> final(secrets).answers(),
        old(secrets).answers() && !crate::text::blank(token_override@) && typed_for(
            profile.provider,
            token_provider,
        ) == Some(true) ==> r is Ok,
        old(secrets).answers() && (crate::text::blank(token_override@) || typed_for(
            profile.provider,
            token_provider,
        ) == Some(false)) ==> stored_web_token(
            old(secrets).tokens(),
            final(secrets).tokens(),
            config.profiles@,
            profile.provider,
            r,
        ),
{
    match direct_web_token(secrets, profile, token_override, token_provider) {
        Err(error) => Err(error),
        Ok(Some(token)) => Ok(token),
        Ok(None) => web_token_of_profiles(secrets, profile, config),
    }
}

/// What a request without a token of its own is made with.
pub open spec fn stored_web_token(
    before: Map<Seq<char>, Seq<char>>,
    after: Map<Seq<char>, Seq<char>>,
    profiles: Seq<(Seq<char>, ProfileConfig)>,
    provider: ProviderKind,
    r: Result<String, AppError>,
) -> bool {
    match crate::secrets::lookup(before, crate::providers::provider_name(provider)) {
        Some(stored) => (r matches Ok(token) && token@ == stored) && after == before,
        None => match profile_with_token(before, profiles, provider, 0) {
            Some(i) => {
                &&& r matches Ok(token) && crate::secrets::shared_token(
                    before,
                    profiles,
                    profiles[i].0,
                    profiles[i].1,
                ) == Some(token@)
                &&& after == crate::secrets::tokens_after_search(
                    before,
                    profiles,
                    profiles[i].0,
                    profiles[i].1,
                )
            },
            None => asks_for_token(r) && after == before,
        },
    }
}

/// A token that was typed once for a provider answers the requests for it that
/// come without one.
pub proof fn typed_token_is_used_again(
    tokens: Map<Seq<char>, Seq<char>>,
    typed: Seq<char>,
    after: Map<Seq<char>, Seq<char>>,
    profiles: Seq<(Seq<char>, ProfileConfig)>,
    provider: ProviderKind,
    r: Result<String, AppError>,
)
    requires
        stored_web_token(
            tokens.insert(crate::providers::provider_name(provider), typed),
            after,
            profiles,
            provider,
            r,
        ),
    ensures
        r matches Ok(token) && token@ == typed,
        after == tokens.insert(crate::providers::provider_name(provider), typed),
{
}

/// A token that was typed for one provider leaves what is stored for another.
pub proof fn typed_token_stays_with_its_provider(
    tokens: Map<Seq<char>, Seq<char>>,
    typed: Seq<char>,
    provider: ProviderKind,
    other: ProviderKind,
)
    requires
        provider != other,
    ensures
        crate::secrets::lookup(
            tokens.insert(crate::providers::provider_name(provider), typed),
            crate::providers::provider_name(other),
        ) == crate::secrets::lookup(tokens, crate::providers::provider_name(other)),
{
    if crate::providers::provider_name(provider) == crate::providers::provider_name(other) {
        crate::providers::provider_names_differ(provider, other);
    }
}

/// The HTTP status that an error is answered with.
pub open spec fn status_for(error: AppError) -> u16 {
    match error {
        AppError::InvalidInput(_) => 400,
        AppError::InvalidBaseUrl { .. } => 400,
        AppError::ProviderHttp(_) => 502,
        _ => 500,
    }
}

/// The HTTP status that an error is answered with: the caller's fault, the
/// provider's, or ours.
pub fn error_status(error: &AppError) -> (r: u16)
    ensures
        r == status_for(*error),
{
    match error {
        AppError::InvalidInput(_) => 400,
        AppError::InvalidBaseUrl { .. } => 400,
        AppError::ProviderHttp(_) => 502,
        _ => 500,
    }
}

/// The models with an identifier, in their order.
pub open spec fn with_id(models: Seq<ModelInfo>, id: Seq<char>) -> Seq<ModelInfo>
    decreases models.len(),
{
    if models.len() == 0 {
        Seq::empty()
    } else {
        let rest = with_id(models.drop_last(), id);
        if models.last().id@ == id {
            rest.push(models.last())
        } else {
            rest
        }
    }
}

/// Whether models stand in the order of their identifiers.
pub open spec fn in_order(models: Seq<ModelInfo>) -> bool {
    forall|i: int, j: int|
        0 <= i < j < models.len() ==> !crate::text_map::text_less(
            (#[trigger] models[j]).id@,
            (#[trigger] models[i]).id@,
        )
}

proof fn lemma_with_id_concat(a: Seq<ModelInfo>, b: Seq<ModelInfo>, id: Seq<char>)
    ensures
        with_id(a + b, id) == with_id(a, id) + with_id(b, id),
    decreases b.len(),
{
    if b.len() == 0 {
        assert(a + b =~= a);
        assert(with_id(a, id) + with_id(b, id) =~= with_id(a, id));
    } else {
        lemma_with_id_concat(a, b.drop_last(), id);
        assert((a + b).drop_last() =~= a + b.drop_last());
        assert((a + b).last() == b.last());
        assert(with_id(a + b, id) =~= with_id(a, id) + with_id(b, id));
    }
}

proof fn lemma_without_id(models: Seq<ModelInfo>, id: Seq<char>)
    requires
        forall|i: int| 0 <= i < models.len() ==> (#[trigger] models[i]).id@ != id,
    ensures
        with_id(models, id).len() == 0,
    decreases models.len(),
{
    if models.len() > 0 {
        assert(models.last() == models[models.len() - 1]);
        lemma_without_id(models.drop_last(), id);
    }
}

proof fn lemma_inserted(models: Seq<ModelInfo>, at: int, model: ModelInfo, id: Seq<char>)
    requires
        0 <= at <= models.len(),
        forall|i: int| at <= i < models.len() ==> (#[trigger] models[i]).id@ != model.id@,
    ensures
        with_id(models.insert(at, model), id) == (if model.id@ == id {
            with_id(models, id).push(model)
        } else {
            with_id(models, id)
        }),
{
    let a = models.take(at);
    let b = models.skip(at);
    let one = seq![model];
    assert(models.insert(at, model) =~= a + one + b);
    assert(models =~= a + b);
    lemma_with_id_concat(a + one, b, id);
    lemma_with_id_concat(a, one, id);
    lemma_with_id_concat(a, b, id);
    assert(one.drop_last() =~= Seq::<ModelInfo>::empty());
    assert(with_id(one.drop_last(), id) =~= Seq::<ModelInfo>::empty());
    assert(with_id(one, id) =~= (if model.id@ == id {
        one
    } else {
        Seq::empty()
    }));
    if model.id@ == id {
        assert forall|i: int| 0 <= i < b.len() implies (#[trigger] b[i]).id@ != id by {
            assert(b[i] == models[at + i]);
        }
        lemma_without_id(b, id);
        assert(with_id(b, id) =~= Seq::<ModelInfo>::empty());
        assert(with_id(a, id) + one + with_id(b, id) =~= (with_id(a, id) + with_id(b, id)).push(
            model,
        ));
    } else {
        assert(with_id(a, id) + Seq::<ModelInfo>::empty() + with_id(b, id) =~= with_id(a, id)
            + with_id(b, id));
    }
}

fn insert_model(models: &mut Vec<ModelInfo>, model: ModelInfo)
    requires
        in_order(old(models)@),
    ensures
        in_order(final(models)@),
        forall|id: Seq<char>|
            #[trigger] with_id(final(models)@, id) == (if model.id@ == id {
                with_id(old(models)@, id).push(model)
            } else {
                with_id(old(models)@, id)
            }),
{
    let ghost before = models@;
    let mut at: usize = models.len();
    while at > 0 && less(model.id.as_str(), models[at - 1].id.as_str())
        invariant
            at <= models.len(),
            models@ == before,
            forall|i: int|
                at <= i < before.len() ==> crate::text_map::text_less(
                    model.id@,
                    (#[trigger] before[i]).id@,
                ),
        decreases at,
    {
        at = at - 1;
    }
    let ghost added = model;
    models.insert(at, model);
    proof {
        assert forall|i: int| at <= i < before.len() implies (#[trigger] before[i]).id@
            != added.id@ by {
            crate::text_map::lemma_text_less_irreflexive(added.id@);
        }
        assert forall|id: Seq<char>|
            #[trigger] with_id(models@, id) == (if added.id@ == id {
                with_id(before, id).push(added)
            } else {
                with_id(before, id)
            }) by {
            lemma_inserted(before, at as int, added, id);
        }
        assert forall|i: int, j: int| 0 <= i < j < models@.len() implies
            !crate::text_map::text_less(
            (#[trigger] models@[j]).id@,
            (#[trigger] models@[i]).id@,
        ) by {
            if i < at && j == at {
                assert(!crate::text_map::text_less(added.id@, before[at - 1].id@));
                if i < at - 1 {
                    let x = before[i].id@;
                    let y = before[at - 1].id@;
                    assert(!crate::text_map::text_less(y, x));
                    if crate::text_map::text_less(added.id@, x) {
                        crate::text_map::lemma_text_less_total(x, y);
                        if crate::text_map::text_less(x, y) {
                            crate::text_map::lemma_text_less_transitive(added.id@, x, y);
                        }
                    }
                }
            } else if i == at {
                let z = before[j - 1].id@;
                assert(crate::text_map::text_less(added.id@, z));
                if crate::text_map::text_less(z, added.id@) {
                    crate::text_map::lemma_text_less_transitive(added.id@, z, added.id@);
                    crate::text_map::lemma_text_less_irreflexive(added.id@);
                }
            } else if i < at && j < at {
                assert(models@[i] == before[i] && models@[j] == before[j]);
            } else if i < at {
                assert(models@[i] == before[i] && models@[j] == before[j - 1]);
            } else {
                assert(models@[i] == before[i - 1] && models@[j] == before[j - 1]);
            }
        }
    }
}

/// The models in the order of their identifiers; of equal identifiers each keeps
/// its place.
pub fn sort_models(models: Vec<ModelInfo>) -> (r: Vec<ModelInfo>)
    ensures
        in_order(r@),
        forall|id: Seq<char>| #[trigger] with_id(r@, id) == with_id(models@, id),
{
    let ghost all = models@;
    let mut sorted: Vec<ModelInfo> = Vec::new();
    let mut i: usize = 0;
    assert(all.take(0) =~= Seq::<ModelInfo>::empty());
    assert(sorted@ =~= Seq::<ModelInfo>::empty());
    while i < models.len()
        invariant
            i <= models.len(),
            models@ == all,
            in_order(sorted@),
            forall|id: Seq<char>| #[trigger] with_id(sorted@, id) == with_id(all.take(i as int), id),
        decreases models.len() - i,
    {
        let model = ModelInfo {
            id: models[i].id.clone(),
            pricing: match &models[i].pricing {
                Some(pricing) => Some(pricing.clone()),
                None => None,
            },
        };
        assert(model == all[i as int]);
        let ghost before = sorted@;
        insert_model(&mut sorted, model);
        proof {
            assert(all.take(i + 1).drop_last() =~= all.take(i as int));
            assert forall|id: Seq<char>|
                #[trigger] with_id(sorted@, id) == with_id(all.take(i + 1), id) by {
                assert(with_id(before, id) == with_id(all.take(i as int), id));
            }
        }
        i = i + 1;
    }
    assert(all.take(i as int) =~= all);
    sorted
}

/// A parameter that a provider takes no notice of is shown as unsupported, with
/// the reason; every other keeps what is known of it. None is lost and none
/// changes its place.
pub proof fn unsupported_parameters_are_marked(
    limits: Seq<Limit>,
    ids: Seq<Seq<char>>,
    note: Seq<char>,
    i: int,
)
    requires
        0 <= i < limits.len(),
    ensures
        unsupported(limits, ids, note).len() == limits.len(),
        unsupported(limits, ids, note)[i].id == limits[i].id,
        ids.contains(limits[i].id) ==> !unsupported(limits, ids, note)[i].supported && unsupported(
            limits,
            ids,
            note,
        )[i].note == note,
        !ids.contains(limits[i].id) ==> unsupported(limits, ids, note)[i] == limits[i],
        unsupported(limits, ids, note)[i].min == limits[i].min && unsupported(
            limits,
            ids,
            note,
        )[i].max == limits[i].max,
{
}

/// The bounds of a parameter are set for its identifier alone.
pub proof fn bounds_are_set_for_one_parameter(
    limits: Seq<Limit>,
    id: Seq<char>,
    min: Option<i32>,
    max: Option<i32>,
    note: Seq<char>,
    i: int,
)
    requires
        0 <= i < limits.len(),
        forall|j: int| 0 <= j < i ==> (#[trigger] limits[j]).id != id,
    ensures
        rebound(limits, id, min, max, note).len() == limits.len(),
        limits[i].id == id ==> rebound(limits, id, min, max, note)[i] == (Limit {
            min,
            max,
            note,
            ..limits[i]
        }),
        limits[i].id != id ==> rebound(limits, id, min, max, note)[i] == limits[i],
{
    lemma_limit_index(limits, id, 0);
    if limits[i].id == id {
        lemma_first_limit(limits, id, 0, i);
    }
}

proof fn lemma_first_limit(limits: Seq<Limit>, id: Seq<char>, from: int, k: int)
    requires
        0 <= from <= k < limits.len(),
        limits[k].id == id,
        forall|j: int| from <= j < k ==> (#[trigger] limits[j]).id != id,
    ensures
        limit_index(limits, id, from) == Some(k),
    decreases k - from,
{
    if from < k {
        assert(limits[from].id != id);
        lemma_first_limit(limits, id, from + 1, k);
    }
}

/// A text of the page counts where it holds something, without the white space
/// around it.
pub proof fn blank_texts_do_not_count(value: Option<String>)
    ensures
        value is None ==> unblank(value) is None,
        value matches Some(t) && crate::text::blank(t@) ==> unblank(value) is None,
        value matches Some(t) && !crate::text::blank(t@) ==> unblank(value) == Some(
            crate::text::trimmed(value->0@),
        ) && unblank(value)->0.len() > 0,
{
}

/// What the page asks for is asked of the model: JSON where it is chosen and text
/// otherwise, and every number and switch as it was set.
pub proof fn the_page_controls_the_answer(w: WebResponseControl, c: ResponseControl)
    requires
        web_controls(w, c),
    ensures
        (w.response_format matches Some(name) && name@ == "json-object"@) ==> c.format
            == ResponseFormat::JsonObject,
        w.response_format is None ==> c.format == ResponseFormat::Text,
        w.answer_format is None ==> c.answer_format == AnswerFormat::Natural,
        c.temperature == w.temperature && c.top_p == w.top_p && c.top_k == w.top_k && c.min_p
            == w.min_p && c.top_a == w.top_a,
        c.presence_penalty == w.presence_penalty && c.frequency_penalty == w.frequency_penalty
            && c.repetition_penalty == w.repetition_penalty,
        c.max_tokens == w.max_tokens && c.max_completion_tokens == w.max_completion_tokens,
        c.seed == w.seed && c.n == w.n && c.store == w.store && c.logprobs == w.logprobs
            && c.top_logprobs == w.top_logprobs && c.include_reasoning == w.include_reasoning
            && c.parallel_tool_calls == w.parallel_tool_calls,
        c.stop == w.stop && c.quote_question == w.quote_question,
        w.answer_prefix matches Some(t) && !crate::text::blank(t@) ==> crate::text::option_text(
            c.answer_prefix,
        ) == Some(crate::text::trimmed(w.answer_prefix->0@)),
        w.answer_suffix matches Some(t) && !crate::text::blank(t@) ==> crate::text::option_text(
            c.answer_suffix,
        ) == Some(crate::text::trimmed(w.answer_suffix->0@)),
        w.address_as matches Some(t) && !crate::text::blank(t@) ==> crate::text::option_text(
            c.address_as,
        ) == Some(crate::text::trimmed(w.address_as->0@)),
        w.format_instruction matches Some(t) && !crate::text::blank(t@)
            ==> crate::text::option_text(c.format_instruction) == Some(
            crate::text::trimmed(w.format_instruction->0@),
        ),
        w.completion_instruction matches Some(t) && !crate::text::blank(t@)
            ==> crate::text::option_text(c.completion_instruction) == Some(
            crate::text::trimmed(w.completion_instruction->0@),
        ),
        w.extra_params matches Some(params) ==> c.extra_params == params,
{
}

/// The prices of the page are used where both the input and the output have one,
/// each as it was given; in dollars unless a currency is named.
pub proof fn the_page_prices_both_ways_or_not_at_all(w: WebPricing, r: Option<ModelPricing>)
    requires
        web_prices(w, r),
    ensures
        r is Some <==> w.input_per_million is Some && w.output_per_million is Some,
        r matches Some(p) ==> p.input_per_million == w.input_per_million && Some(
            p.output_per_million,
        ) == w.output_per_million && p.cache_hit_input_per_million == w.cache_hit_input_per_million
            && p.cache_miss_input_per_million == w.cache_miss_input_per_million,
        r is Some && w.currency is None ==> r->0.currency@ == "USD"@,
        r is Some && (w.currency matches Some(t) && !crate::text::blank(t@)) ==> r->0.currency@
            == crate::text::trimmed(w.currency->0@),
{
}

/// The message of the page comes last, as it was written; before it stands the
/// system's prompt where there is one, and nothing else.
pub proof fn the_pages_message_comes_last(request: ChatWebRequest)
    ensures
        web_messages(request)[web_messages(request).len() - 1] == (Role::User, request.prompt@),
        (request.system_prompt matches Some(t) && !crate::text::blank(t@)) ==> web_messages(
            request,
        ).len() == 2 && web_messages(request)[0] == (
            Role::System,
            crate::text::trimmed(request.system_prompt->0@),
        ),
        request.system_prompt is None ==> web_messages(request).len() == 1,
        (request.system_prompt matches Some(t) && crate::text::blank(t@)) ==> web_messages(
            request,
        ).len() == 1,
{
}

/// A token that was typed for a provider is that provider's, and no other's; one
/// that was typed for none in particular is for the one at hand.
pub proof fn a_typed_token_names_its_provider(provider: ProviderKind, other: ProviderKind, name: &str)
    requires
        provider != other,
        !crate::text::blank(name@),
        crate::providers::provider_named(crate::text::ascii_lower(crate::text::trimmed(name@)))
            == Some(provider),
    ensures
        typed_for(provider, Some(name)) == Some(true),
        typed_for(other, Some(name)) == Some(false),
        typed_for(provider, None) == Some(true),
        typed_for(other, None) == Some(true),
{
}

/// What the page is answered for an error: its own fault for what it asked, the
/// provider's for what the provider answered, and the server's for the rest.
pub proof fn errors_have_these_statuses(error: AppError)
    ensures
        error is InvalidInput || error is InvalidBaseUrl ==> status_for(error) == 400,
        error is ProviderHttp ==> status_for(error) == 502,
        !(error is InvalidInput || error is InvalidBaseUrl || error is ProviderHttp) ==> status_for(
            error,
        ) == 500,
{
}

/// The token of a profile is the first that can be had for the provider.
pub proof fn profiles_of_the_provider_give_the_token(
    tokens: Map<Seq<char>, Seq<char>>,
    profiles: Seq<(Seq<char>, ProfileConfig)>,
    provider: ProviderKind,
    from: int,
    k: int,
)
    requires
        0 <= from <= k <= profiles.len(),
        k < profiles.len() ==> profiles[k].1.provider == provider && crate::secrets::shared_token(
            tokens,
            profiles,
            profiles[k].0,
            profiles[k].1,
        ) is Some,
        forall|j: int|
            from <= j < k ==> (#[trigger] profiles[j]).1.provider != provider
                || crate::secrets::shared_token(
                tokens,
                profiles,
                profiles[j].0,
                profiles[j].1,
            ) is None,
    ensures
        k < profiles.len() ==> profile_with_token(tokens, profiles, provider, from) == Some(k),
        k == profiles.len() ==> profile_with_token(tokens, profiles, provider, from) is None,
    decreases k - from,
{
    if from < k {
        assert(profiles[from].1.provider != provider || crate::secrets::shared_token(
            tokens,
            profiles,
            profiles[from].0,
            profiles[from].1,
        ) is None);
        profiles_of_the_provider_give_the_token(tokens, profiles, provider, from + 1, k);
    }
}

/// What is picked by an identifier is every model with it, in order, and no other.
pub proof fn models_are_picked_by_identifier(
    one: Seq<ModelInfo>,
    two: Seq<ModelInfo>,
    model: ModelInfo,
    id: Seq<char>,
)
    ensures
        with_id(one + two, id) == with_id(one, id) + with_id(two, id),
        model.id@ == id ==> with_id(seq![model], id) == seq![model],
        model.id@ != id ==> with_id(seq![model], id).len() == 0,
    decreases two.len(),
{
    let single = seq![model];
    assert(single.drop_last() =~= Seq::<ModelInfo>::empty());
    assert(with_id(Seq::<ModelInfo>::empty(), id) =~= Seq::<ModelInfo>::empty());
    if model.id@ == id {
        assert(with_id(single, id) =~= single);
    }
    if two.len() == 0 {
        assert(one + two =~= one);
        assert(with_id(one, id) + with_id(two, id) =~= with_id(one, id));
    } else {
        models_are_picked_by_identifier(one, two.drop_last(), model, id);
        assert((one + two).drop_last() =~= one + two.drop_last());
        assert((one + two).last() == two.last());
        assert(with_id(one + two, id) =~= with_id(one, id) + with_id(two, id));
    }
}

/// The parameters that a provider takes no notice of.
pub proof fn providers_ignore_these_parameters(id: Seq<char>)
    ensures
        deepseek_ignores().contains(id) <==> seq![
            "maxCompletionTokens"@,
            "topK"@,
            "minP"@,
            "topA"@,
            "presencePenalty"@,
            "frequencyPenalty"@,
            "repetitionPenalty"@,
            "n"@,
            "store"@,
            "parallelToolCalls"@,
        ].contains(id),
        kimi_ignores().contains(id) <==> seq![
            "maxTokens"@,
            "temperature"@,
            "topP"@,
            "topK"@,
            "minP"@,
            "topA"@,
            "presencePenalty"@,
            "frequencyPenalty"@,
            "repetitionPenalty"@,
            "n"@,
            "store"@,
            "parallelToolCalls"@,
        ].contains(id),
        gigachat_ignores().contains(id) <==> seq![
            "maxCompletionTokens"@,
            "topK"@,
            "minP"@,
            "topA"@,
            "presencePenalty"@,
            "frequencyPenalty"@,
            "store"@,
            "parallelToolCalls"@,
        ].contains(id),
{
}

/// The bounds of the parameters, in hundredths.
pub proof fn parameters_have_these_bounds()
    ensures
        ({
            let all = common_limits();
            &&& all.len() == 16
            &&& all[0].id == "maxTokens"@ && all[0].min == Some(100i32) && all[0].max is None
            &&& all[1].id == "maxCompletionTokens"@ && all[1].min == Some(100i32)
            &&& all[2].id == "temperature"@ && all[2].min == Some(0i32) && all[2].max == Some(
                200i32,
            )
            &&& all[3].id == "topP"@ && all[3].min == Some(0i32) && all[3].max == Some(100i32)
            &&& all[4].id == "topK"@ && all[4].min == Some(0i32) && all[4].max is None
            &&& all[5].id == "minP"@ && all[5].min == Some(0i32) && all[5].max == Some(100i32)
            &&& all[6].id == "topA"@ && all[6].min == Some(0i32) && all[6].max == Some(100i32)
            &&& all[7].id == "presencePenalty"@ && all[7].min == Some(-200i32) && all[7].max
                == Some(200i32)
            &&& all[8].id == "frequencyPenalty"@ && all[8].min == Some(-200i32) && all[8].max
                == Some(200i32)
            &&& all[9].id == "repetitionPenalty"@ && all[9].min == Some(0i32) && all[9].max
                == Some(200i32)
            &&& all[10].id == "topLogprobs"@ && all[10].min == Some(0i32) && all[10].max == Some(
                2000i32,
            )
            &&& all[11].id == "n"@ && all[11].min == Some(100i32) && all[11].max is None
            &&& forall|i: int| 0 <= i < all.len() ==> (#[trigger] all[i]).supported
        }),
{
}

/// A request of the page is made with the provider that it names, the model that
/// it names and the address that it names, and with no stored token.
pub proof fn the_page_names_its_provider(
    request: ChatWebRequest,
    kind: ProviderKind,
    p: ProfileConfig,
)
    requires
        web_profile(request, kind, p),
    ensures
        p.provider == kind,
        p.model@ == crate::text::trimmed(request.model@),
        p.base_url@ == request.base_url@,
        p.token_ref@.len() == 0,
{
}

/// The form of an answer is the one that the page names, and the natural one where
/// it names none or none that there is.
pub proof fn the_page_names_the_form(name: String)
    ensures
        web_shape(None) == AnswerFormat::Natural,
        name@ == "bullets"@ ==> web_shape(Some(name)) == AnswerFormat::Bullets,
        name@ == "numbered"@ ==> web_shape(Some(name)) == AnswerFormat::Numbered,
        name@ == "short"@ ==> web_shape(Some(name)) == AnswerFormat::Short,
        name@ == "steps"@ ==> web_shape(Some(name)) == AnswerFormat::Steps,
        name@ == "table"@ ==> web_shape(Some(name)) == AnswerFormat::Table,
        name@ == "natural"@ ==> web_shape(Some(name)) == AnswerFormat::Natural,
{
    crate::cli::args::shape_name_is_parsed_back(AnswerFormat::Bullets);
    crate::cli::args::shape_name_is_parsed_back(AnswerFormat::Numbered);
    crate::cli::args::shape_name_is_parsed_back(AnswerFormat::Short);
    crate::cli::args::shape_name_is_parsed_back(AnswerFormat::Steps);
    crate::cli::args::shape_name_is_parsed_back(AnswerFormat::Table);
    crate::cli::args::shape_name_is_parsed_back(AnswerFormat::Natural);
}

} // verus!
