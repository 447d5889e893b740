//! Providers, prices, secrets, the web interface and the TOON codec.

use ai_playground::cli::commands::doctor;
use ai_playground::config::{AppConfig, ProfileConfig};
use ai_playground::errors::{
    map_http_status, transport_error, unknown_transport_error, AppError, EndpointCategory,
    HttpProblem,
};
use ai_playground::pricing::{
    is_stale, parse_u64_value, resolve_from_cache, CatalogEntry, CatalogNumber,
    LiteLlmPriceCatalog, PriceCache, PriceSource, LITELLM_PRICE_CATALOG_URL, PRICE_CACHE_TTL,
};
use ai_playground::providers::gigachat::{
    bearer_token, cache_key, looks_like_access_token, normalize_expires_at_ms,
    oauth_authorization, oauth_scope, refresh_bearer_token, should_refresh_gigachat_token,
    take_oauth_response, GigaChatOAuthResponse, GigaChatTokenCache, TokenStep,
};
use ai_playground::providers::openai_compatible::{
    billing_query, billing_step, billing_window_start, chat_payload, chat_payload_for_provider,
    debug_request_headers, endpoint, looks_up_billing, parse_chat_response,
    parse_models_response, parse_openai_costs_total, request_cost, response_text_or_error,
    short_reason, BillingGrowth, BillingStep, CostBasis, ListedCost, ListedModel, ListedPricing,
    ReportedChoice, ReportedResponse, ReportedUsage,
};
use ai_playground::providers::{
    extra_ca_bundle_path, validate_base_url, AnswerFormat, BillingLookup, BillingProvider,
    ChatMessage, ChatRequest, ChatResponse, CostSource, Float32, Float64, ModelInfo, ModelPricing,
    ProviderKind, ResponseControl, ResponseFormat, Role,
};
use ai_playground::secrets::{
    delete_legacy_profile_token, delete_profile_token, get_config_profile_token,
    get_profile_token, mask_token, set_profile_token, KeyringAnswer, KeyringSecretStore,
    MemorySecretStore, SecretStore,
};
use ai_playground::text_map::TextMap;
use ai_playground::toon_codec;
use ai_playground::web::{
    blank_to_none, error_status, parameter_constraints, provider_views, resolve_web_token,
    sort_models, ChatWebRequest, ModelsRequest, WebBilling, WebPricing, WebResponseControl,
};
use serde_json::Value;

fn f32_of(value: f32) -> Float32 {
    Float32 { bits: value.to_bits() }
}

fn price(value: f64) -> Float64 {
    Float64 { bits: value.to_bits() }
}

fn number(value: Float64) -> f64 {
    f64::from_bits(value.bits)
}

fn count(value: &Value, key: &str) -> Option<u32> {
    value.get(key).and_then(Value::as_u64).map(|n| n as u32)
}

fn text(value: &Value, key: &str) -> Option<String> {
    value.get(key).and_then(Value::as_str).map(str::to_string)
}

/// What a raw reply reports.
fn reported(raw: &str) -> ReportedResponse {
    let value: Value = serde_json::from_str(raw).expect("json");
    let choices = value
        .get("choices")
        .and_then(Value::as_array)
        .expect("choices")
        .iter()
        .map(|choice| {
            let message = choice.get("message").expect("message");
            ReportedChoice {
                content: text(message, "content"),
                reasoning_content: text(message, "reasoning_content"),
                finish_reason: text(choice, "finish_reason"),
            }
        })
        .collect();
    let usage = value.get("usage").map(|usage| ReportedUsage {
        prompt_tokens: count(usage, "prompt_tokens"),
        completion_tokens: count(usage, "completion_tokens"),
        total_tokens: count(usage, "total_tokens"),
        cost: usage.get("cost").and_then(Value::as_f64).map(price),
        prompt_cache_hit_tokens: count(usage, "prompt_cache_hit_tokens"),
        prompt_cache_miss_tokens: count(usage, "prompt_cache_miss_tokens"),
        cached_tokens: None,
    });
    ReportedResponse { choices, usage }
}

/// The reply of a provider, with the cost that follows from its usage.
fn respond(raw: &str, elapsed_ms: u128, pricing: Option<&ModelPricing>) -> ChatResponse {
    let response = reported(raw);
    let basis = response.usage.as_ref().and_then(|usage| request_cost(usage, pricing));
    let amount = match &basis {
        Some(CostBasis::Priced { input, output, .. }) => {
            let input: f64 = input
                .iter()
                .map(|term| f64::from(term.tokens) * number(term.price_per_million) / 1_000_000.0)
                .sum();
            input + f64::from(output.tokens) * number(output.price_per_million) / 1_000_000.0
        }
        _ => 0.0,
    };
    parse_chat_response(
        ProviderKind::OpenAiCompatible,
        Ok(response),
        elapsed_ms,
        pricing,
        price(amount),
    )
        .expect("parse response")
}

/// A price per token as a provider lists it, per million tokens.
fn listed_price(value: Option<&Value>) -> Option<Option<Float64>> {
    value.map(|value| {
        value
            .as_f64()
            .or_else(|| value.as_str().and_then(|text| text.parse::<f64>().ok()))
            .map(|per_token| price(per_token * 1_000_000.0))
    })
}

fn models(raw: &str) -> Vec<ModelInfo> {
    let value: Value = serde_json::from_str(raw).expect("json");
    let listed = value
        .get("data")
        .and_then(Value::as_array)
        .expect("data")
        .iter()
        .map(|model| ListedModel {
            id: text(model, "id").expect("id"),
            pricing: model.get("pricing").map(|pricing| ListedPricing {
                prompt: listed_price(pricing.get("prompt")),
                completion: listed_price(pricing.get("completion")),
                input: listed_price(pricing.get("input")),
                output: listed_price(pricing.get("output")),
                currency: text(pricing, "currency"),
            }),
        })
        .collect();
    parse_models_response(ProviderKind::OpenAiCompatible, Ok(listed)).expect("parse models")
}

fn usd(input: Option<f64>, output: f64) -> ModelPricing {
    ModelPricing {
        currency: "USD".to_string(),
        input_per_million: input.map(price),
        output_per_million: price(output),
        cache_hit_input_per_million: None,
        cache_miss_input_per_million: None,
    }
}

fn asking(content: &str, control: ResponseControl) -> ChatRequest {
    ChatRequest {
        model: "m".to_string(),
        messages: vec![ChatMessage { role: Role::User, content: content.to_string() }],
        control,
        pricing: None,
        billing: None,
    }
}

#[test]
fn chat_response_parses_provider_reported_metrics() {
    let raw = r#"{
        "choices": [{
            "message": { "content": "hello" },
            "finish_reason": "stop"
        }],
        "usage": {
            "prompt_tokens": 10,
            "completion_tokens": 4,
            "total_tokens": 14,
            "cost": 0.00014
        }
    }"#;

    let response = respond(raw, 123, None);

    assert_eq!(response.text, "hello");
    assert_eq!(response.finish_reason.as_deref(), Some("stop"));
    assert_eq!(response.metrics.elapsed_ms, 123);
    let usage = response.metrics.usage.as_ref().expect("usage");
    assert_eq!(usage.input_tokens, 10);
    assert_eq!(usage.output_tokens, 4);
    assert_eq!(usage.total_tokens, 14);
    assert_eq!(usage.cache_hit_input_tokens, None);
    assert_eq!(usage.cache_miss_input_tokens, None);
    let cost = response.metrics.cost.expect("provider-reported cost");
    assert_eq!(number(cost.amount), 0.00014);
    assert_eq!(cost.currency, "credits");
    assert_eq!(cost.source, CostSource::ProviderReported);
}

#[test]
fn chat_response_does_not_guess_cost_without_provider_cost() {
    let raw = r#"{
        "choices": [{
            "message": { "content": "hello" },
            "finish_reason": "stop"
        }],
        "usage": {
            "prompt_tokens": 10,
            "completion_tokens": 4,
            "total_tokens": 14
        }
    }"#;

    let response = respond(raw, 123, None);

    assert_eq!(response.metrics.cost, None);
}

#[test]
fn chat_response_calculates_cost_from_configured_pricing() {
    let raw = r#"{
        "choices": [{
            "message": { "content": "hello" },
            "finish_reason": "stop"
        }],
        "usage": {
            "prompt_tokens": 1000,
            "completion_tokens": 500,
            "total_tokens": 1500
        }
    }"#;

    let response = respond(raw, 123, Some(&usd(Some(2.0), 10.0)));

    let cost = response.metrics.cost.expect("configured cost");
    assert!((number(cost.amount) - 0.007).abs() < f64::EPSILON);
    assert_eq!(cost.currency, "USD");
    assert_eq!(cost.source, CostSource::ConfiguredPricing);
}

#[test]
fn chat_response_uses_cache_pricing_when_usage_has_cache_breakdown() {
    let raw = r#"{
        "choices": [{
            "message": { "content": "hello" },
            "finish_reason": "stop"
        }],
        "usage": {
            "prompt_tokens": 1000,
            "completion_tokens": 500,
            "total_tokens": 1500,
            "prompt_cache_hit_tokens": 800,
            "prompt_cache_miss_tokens": 200
        }
    }"#;
    let pricing = ModelPricing {
        cache_hit_input_per_million: Some(price(0.2)),
        cache_miss_input_per_million: Some(price(2.0)),
        ..usd(Some(2.0), 10.0)
    };

    let response = respond(raw, 123, Some(&pricing));

    assert_eq!(
        response.metrics.usage.as_ref().expect("usage").cache_hit_input_tokens,
        Some(800)
    );
    let cost = response.metrics.cost.expect("configured cost");
    assert!((number(cost.amount) - 0.00556).abs() < f64::EPSILON);
}

#[test]
fn models_response_parses_pricing_metadata() {
    let raw = r#"{
        "data": [{
            "id": "provider/model",
            "pricing": {
                "prompt": "0.0000007",
                "completion": 0.0000021,
                "currency": "USD"
            }
        }]
    }"#;

    let models = models(raw);

    assert_eq!(models[0].id, "provider/model");
    let pricing = models[0].pricing.as_ref().expect("pricing");
    let input = pricing.input_per_million.map(number).unwrap_or(0.0);
    assert!((input - 0.7).abs() < f64::EPSILON);
    assert!((number(pricing.output_per_million) - 2.1).abs() < 0.0000000001);
}

#[test]
fn configured_cost_with_no_input_price_charges_only_output() {
    let raw = r#"{
        "choices": [{ "message": { "content": "ok" }, "finish_reason": "stop" }],
        "usage": { "prompt_tokens": 1000, "completion_tokens": 500, "total_tokens": 1500 }
    }"#;

    let response = respond(raw, 1, Some(&usd(None, 4.0)));

    let cost = response.metrics.cost.expect("cost without an input price");
    assert!((number(cost.amount) - 0.002).abs() < 1e-10);
    assert_eq!(cost.source, CostSource::ConfiguredPricing);
}

#[test]
fn model_pricing_from_entry_with_no_input_field_still_returns_some() {
    let raw = r#"{
        "data": [{
            "id": "free-model",
            "pricing": { "completion": "0.000001" }
        }]
    }"#;

    let models = models(raw);

    let pricing = models[0].pricing.as_ref().expect("pricing without an input field");
    assert!(pricing.input_per_million.is_none());
    assert!((number(pricing.output_per_million) - 1.0).abs() < f64::EPSILON);
}

#[test]
fn provider_reported_cost_takes_priority_over_configured_pricing() {
    let raw = r#"{
        "choices": [{ "message": { "content": "ok" } }],
        "usage": {
            "prompt_tokens": 100,
            "completion_tokens": 100,
            "total_tokens": 200,
            "cost": 0.042
        }
    }"#;

    let response = respond(raw, 1, Some(&usd(Some(999.0), 999.0)));

    let cost = response.metrics.cost.expect("cost");
    assert_eq!(number(cost.amount), 0.042);
    assert_eq!(cost.source, CostSource::ProviderReported);
}

#[test]
fn no_usage_in_response_means_no_cost() {
    let raw = r#"{ "choices": [{ "message": { "content": "ok" } }] }"#;

    let response = respond(raw, 1, Some(&usd(Some(2.0), 10.0)));

    assert!(response.metrics.cost.is_none());
    assert!(response.metrics.usage.is_none());
}

#[test]
fn a_reply_that_cannot_be_read_is_an_unexpected_format() {
    let error = parse_chat_response(
        ProviderKind::OpenAiCompatible,
        Err("expected value".to_string()),
        1,
        None,
        price(0.0),
    )
    .expect_err("unreadable");
    match error {
        AppError::ProviderHttp(error) => assert_eq!(error.problem, HttpProblem::UnexpectedFormat),
        other => panic!("expected an HTTP error, got {other:?}"),
    }
    let empty = ReportedResponse { choices: Vec::new(), usage: None };
    assert!(
        parse_chat_response(ProviderKind::OpenAiCompatible, Ok(empty), 1, None, price(0.0)).is_err()
    );
}

#[test]
fn provider_request_mapping_matches_openai_shape() {
    let payload = chat_payload(asking("hello", ResponseControl::uncontrolled()));

    assert_eq!(payload.model, "m");
    assert_eq!(payload.messages[0].role, Role::User);
    assert_eq!(payload.messages[0].content, "hello");
}

#[test]
fn provider_request_mapping_includes_response_control() {
    let payload = chat_payload(asking(
        "return data",
        ResponseControl {
            format: ResponseFormat::JsonObject,
            answer_format: AnswerFormat::Bullets,
            max_tokens: Some(64),
            max_completion_tokens: Some(128),
            temperature: Some(f32_of(0.3)),
            top_p: Some(f32_of(0.9)),
            top_k: Some(40),
            min_p: Some(f32_of(0.05)),
            top_a: Some(f32_of(0.2)),
            presence_penalty: Some(f32_of(0.1)),
            frequency_penalty: Some(f32_of(0.2)),
            repetition_penalty: Some(f32_of(1.1)),
            seed: Some(42),
            reasoning_effort: Some("high".to_string()),
            include_reasoning: Some(true),
            verbosity: Some("low".to_string()),
            logprobs: Some(true),
            top_logprobs: Some(3),
            n: Some(1),
            store: Some(false),
            parallel_tool_calls: Some(true),
            user: Some("test-user".to_string()),
            service_tier: Some("auto".to_string()),
            extra_params: vec![("custom_provider_flag".to_string(), "true".to_string())],
            stop: vec!["END".to_string()],
            answer_prefix: Some("Artem,".to_string()),
            answer_suffix: None,
            address_as: None,
            quote_question: true,
            format_instruction: None,
            completion_instruction: Some("Stop after the summary field.".to_string()),
        },
    ));

    assert_eq!(payload.max_tokens, None);
    assert_eq!(payload.max_completion_tokens, Some(128));
    assert_eq!(payload.temperature, Some(f32_of(0.3)));
    assert_eq!(payload.top_p, Some(f32_of(0.9)));
    assert_eq!(payload.top_k, Some(40));
    assert_eq!(payload.min_p, Some(f32_of(0.05)));
    assert_eq!(payload.top_a, Some(f32_of(0.2)));
    assert_eq!(payload.presence_penalty, Some(f32_of(0.1)));
    assert_eq!(payload.frequency_penalty, Some(f32_of(0.2)));
    assert_eq!(payload.repetition_penalty, Some(f32_of(1.1)));
    assert_eq!(payload.seed, Some(42));
    assert_eq!(payload.reasoning_effort.as_deref(), Some("high"));
    assert_eq!(payload.reasoning, None);
    assert_eq!(payload.include_reasoning, None);
    assert_eq!(payload.verbosity.as_deref(), Some("low"));
    assert_eq!(payload.logprobs, Some(true));
    assert_eq!(payload.top_logprobs, Some(3));
    assert_eq!(payload.n, Some(1));
    assert_eq!(payload.store, Some(false));
    assert_eq!(payload.parallel_tool_calls, Some(true));
    assert_eq!(payload.user.as_deref(), Some("test-user"));
    assert_eq!(payload.service_tier.as_deref(), Some("auto"));
    assert_eq!(
        payload.extra_params,
        vec![("custom_provider_flag".to_string(), "true".to_string())]
    );
    assert_eq!(payload.stop, vec!["END"]);
    assert_eq!(payload.response_format.expect("format").kind, "json_object");
    assert_eq!(payload.messages[0].role, Role::System);
    assert!(payload.messages[0].content.contains("bullet points"));
    assert!(payload.messages[0].content.contains("Artem"));
    assert!(payload.messages[1].content.contains("valid JSON object"));
    assert_eq!(payload.messages[3].role, Role::User);
}

#[test]
fn openai_payload_converts_legacy_max_tokens_to_max_completion_tokens() {
    let payload = chat_payload(asking(
        "hello",
        ResponseControl { max_tokens: Some(64), ..ResponseControl::uncontrolled() },
    ));

    assert_eq!(payload.max_tokens, None);
    assert_eq!(payload.max_completion_tokens, Some(64));
}

#[test]
fn non_openai_payload_keeps_legacy_max_tokens() {
    let payload = chat_payload_for_provider(
        ProviderKind::OpenRouter,
        asking(
            "hello",
            ResponseControl { max_tokens: Some(64), ..ResponseControl::uncontrolled() },
        ),
    );

    assert_eq!(payload.max_tokens, Some(64));
    assert_eq!(payload.max_completion_tokens, None);
}

#[test]
fn openrouter_payload_includes_reasoning_object() {
    let payload = chat_payload_for_provider(
        ProviderKind::OpenRouter,
        asking(
            "think",
            ResponseControl {
                reasoning_effort: Some("high".to_string()),
                include_reasoning: Some(true),
                ..ResponseControl::uncontrolled()
            },
        ),
    );

    assert_eq!(
        payload.reasoning.as_ref().map(|reasoning| reasoning.effort.as_str()),
        Some("high")
    );
    assert_eq!(payload.include_reasoning, Some(true));
}

#[test]
fn provider_registry_keeps_provider_specific_defaults() {
    let openrouter = ProviderKind::OpenRouter.spec();
    let deepseek = ProviderKind::DeepSeek.spec();

    assert_eq!(openrouter.kind, ProviderKind::OpenRouter);
    assert_eq!(openrouter.default_base_url, "https://openrouter.ai/api/v1");
    assert_eq!(deepseek.default_model, "deepseek-chat");
}

#[test]
fn provider_names_are_parsed_back() {
    for kind in ProviderKind::all() {
        assert_eq!(ProviderKind::parse(kind.name()), Ok(*kind));
        assert_eq!(kind.name().to_uppercase().parse::<ProviderKind>(), Ok(*kind));
    }
    assert_eq!(
        ProviderKind::parse("Nobody"),
        Err(AppError::UnsupportedProvider("nobody".to_string()))
    );
}

#[test]
fn base_urls_are_held_to_their_schemes() {
    assert_eq!(validate_base_url("work", "https://api.deepseek.com/v1"), Ok(()));
    assert_eq!(validate_base_url("work", "HTTP://host.test"), Ok(()));
    for url in ["ftp://host.test", "not a url", ""] {
        assert_eq!(
            validate_base_url("work", url),
            Err(AppError::InvalidBaseUrl { profile: "work".to_string(), url: url.to_string() })
        );
    }
}

#[test]
fn extra_certificates_are_found_where_they_are_named() {
    let path = |text: &str| Some(text.to_string());
    assert_eq!(extra_ca_bundle_path(path("a"), path("b"), path("c"), true), path("a"));
    assert_eq!(extra_ca_bundle_path(None, path("b"), path("c"), true), path("b"));
    assert_eq!(extra_ca_bundle_path(None, None, path("c"), true), path("c"));
    assert_eq!(extra_ca_bundle_path(None, None, path("c"), false), None);
}

#[test]
fn http_error_mapping_identifies_auth_and_rate_limit() {
    let auth = map_http_status("deepseek", EndpointCategory::Chat, 401, None, "bad token");
    assert_eq!(auth.problem, HttpProblem::Auth);

    let limited = map_http_status(
        "kimi",
        EndpointCategory::Models,
        429,
        Some("3".to_string()),
        "slow down",
    );
    assert_eq!(limited.problem, HttpProblem::RateLimit { retry_after: Some("3".to_string()) });
    let other = map_http_status("kimi", EndpointCategory::Models, 503, None, "down");
    assert_eq!(other.problem, HttpProblem::Provider);
    assert!(other.to_text().contains("kimi"));
}

#[test]
fn transport_failures_are_told_apart() {
    let problem = |error: AppError| match error {
        AppError::ProviderHttp(error) => error.problem,
        other => panic!("expected an HTTP error, got {other:?}"),
    };
    let decode = transport_error("kimi", EndpointCategory::Chat, Some(200), true, "eof");
    assert_eq!(problem(decode), HttpProblem::UnexpectedFormat);
    let network = unknown_transport_error(None, false, "refused");
    assert_eq!(problem(network), HttpProblem::Network);
}

#[test]
fn failed_replies_are_errors_with_a_short_reason() {
    assert_eq!(
        response_text_or_error(
            ProviderKind::Kimi,
            EndpointCategory::Chat,
            200,
            None,
            "body".to_string()
        ),
        Ok("body".to_string())
    );
    assert!(response_text_or_error(
        ProviderKind::Kimi,
        EndpointCategory::Chat,
        500,
        None,
        "body".to_string()
    )
    .is_err());
    assert_eq!(short_reason(""), "empty response body");
    assert_eq!(endpoint("https://host.test/v1/", "models"), "https://host.test/v1/models");
    assert_eq!(
        debug_request_headers(&ProviderKind::OpenRouter.spec())
            .get("authorization")
            .map(String::as_str),
        Some("Bearer [redacted]")
    );
}

#[test]
fn billing_is_polled_until_it_grows() {
    assert_eq!(billing_step(None, true), BillingStep::GiveUp);
    assert!(matches!(billing_step(None, false), BillingStep::Wait { .. }));
    let growth = BillingGrowth { delta: price(0.5), positive: true, currency: "usd".to_string() };
    match billing_step(Some(growth), false) {
        BillingStep::Found(cost) => {
            assert_eq!(number(cost.amount), 0.5);
            assert_eq!(cost.source, CostSource::BillingApi);
        }
        other => panic!("expected a cost, got {other:?}"),
    }
    let lookup = Some(BillingLookup {
        provider: BillingProvider::OpenAiCosts,
        admin_token: "k".to_string(),
        poll_seconds: 5,
    });
    assert!(looks_up_billing(&None, &lookup));
    assert!(!looks_up_billing(&None, &None));
    assert!(billing_window_start(100_000) <= 100_000);
    assert!(!billing_query(0, 100).is_empty());
    let (values, currency) = parse_openai_costs_total(&vec![
        ListedCost { currency: Some("eur".to_string()), value: Some(price(1.5)) },
        ListedCost { currency: None, value: None },
    ]);
    assert_eq!(values, vec![price(1.5)]);
    assert_eq!(currency.to_lowercase(), "eur");
}

#[test]
fn gigachat_expires_at_accepts_seconds_and_milliseconds() {
    assert_eq!(normalize_expires_at_ms(1_679_471_442), 1_679_471_442_000);
    assert_eq!(normalize_expires_at_ms(1_706_026_848_841), 1_706_026_848_841);
}

#[test]
fn gigachat_cache_uses_expiry_with_safety_skew() {
    let mut cache = GigaChatTokenCache::default();
    cache.insert("key".to_string(), "access".to_string(), 120_000);

    assert_eq!(cache.get("key", 1_000).as_deref(), Some("access"));
    assert_eq!(cache.get("key", 70_000), None);
}

#[test]
fn gigachat_tokens_are_exchanged_once() {
    let mut cache = GigaChatTokenCache::default();
    let scope = oauth_scope(None, None);
    assert_eq!(scope, "GIGACHAT_API_PERS");
    assert_eq!(bearer_token(&cache, &scope, "secret", 0), TokenStep::Exchange);
    let token = take_oauth_response(
        &mut cache,
        &scope,
        "secret",
        200,
        "",
        Ok(GigaChatOAuthResponse {
            access_token: "access".to_string(),
            expires_at: Some(1_706_026_848_841),
        }),
        0,
    );
    assert_eq!(token, Ok("access".to_string()));
    assert_eq!(
        bearer_token(&cache, &scope, "secret", 0),
        TokenStep::Use("access".to_string())
    );
    assert_eq!(refresh_bearer_token(&mut cache, &scope, "secret"), TokenStep::Exchange);
    assert_eq!(cache.get(&cache_key(&scope, "secret"), 0), None);
    assert!(take_oauth_response(
        &mut cache,
        &scope,
        "secret",
        401,
        "denied",
        Err("not read".to_string()),
        0
    )
    .is_err());
    assert!(looks_like_access_token("eyJhbGciOi.a.b"));
    assert_eq!(oauth_authorization("secret"), "Basic secret");
    let denied: Result<(), AppError> = Err(AppError::ProviderHttp(map_http_status(
        "gigachat",
        EndpointCategory::Chat,
        401,
        None,
        "expired",
    )));
    assert!(should_refresh_gigachat_token(ProviderKind::GigaChat, "secret", &denied));
    assert!(!should_refresh_gigachat_token(ProviderKind::Kimi, "secret", &denied));
}

const NOW: u64 = 1_700_000_000;

fn cache(entries: TextMap<CatalogEntry>) -> PriceCache {
    PriceCache {
        fetched_at_unix: NOW,
        source_url: LITELLM_PRICE_CATALOG_URL.to_string(),
        entries,
    }
}

fn entry(provider: &str, input: f64, output: f64) -> CatalogEntry {
    CatalogEntry {
        litellm_provider: Some(provider.to_string()),
        input_per_million: Some(price(input * 1_000_000.0)),
        output_per_million: Some(price(output * 1_000_000.0)),
        cache_read_per_million: Some(price(input / 2.0 * 1_000_000.0)),
        cache_creation_per_million: None,
        max_input_tokens: Some(CatalogNumber::Integer(128_000)),
        max_tokens: Some(CatalogNumber::Integer(16_000)),
        source: Some("https://example.test/pricing".to_string()),
    }
}

#[test]
fn resolves_exact_direct_provider_price() {
    let mut entries = TextMap::new();
    entries.insert("deepseek-chat".to_string(), entry("deepseek", 0.00000028, 0.00000042));

    let resolved = resolve_from_cache(
        &cache(entries),
        ProviderKind::DeepSeek,
        "deepseek-chat",
        PRICE_CACHE_TTL,
        NOW,
    )
    .expect("price");

    assert_eq!(resolved.matched_model, "deepseek-chat");
    assert_eq!(resolved.context_length, Some(128_000));
    let input = number(resolved.pricing.input_per_million.unwrap());
    assert!((input - 0.28).abs() < f64::EPSILON);
    assert!((number(resolved.pricing.output_per_million) - 0.42).abs() < f64::EPSILON);
}

#[test]
fn resolves_deepseek_prices_with_catalog_provider_aliases() {
    let entries = || {
        let mut entries = TextMap::new();
        entries.insert(
            "deepseek-ai/deepseek-chat".to_string(),
            entry("deepseek-ai", 0.00000028, 0.00000042),
        );
        entries.insert(
            "deepseek-reasoner".to_string(),
            entry("deepseek-reasoner", 0.00000055, 0.00000219),
        );
        entries
    };

    let chat = resolve_from_cache(
        &cache(entries()),
        ProviderKind::DeepSeek,
        "deepseek-chat",
        PRICE_CACHE_TTL,
        NOW,
    )
    .expect("deepseek chat price");
    assert_eq!(chat.matched_model, "deepseek-ai/deepseek-chat");
    assert!((number(chat.pricing.output_per_million) - 0.42).abs() < f64::EPSILON);

    let reasoner = resolve_from_cache(
        &cache(entries()),
        ProviderKind::DeepSeek,
        "deepseek-reasoner",
        PRICE_CACHE_TTL,
        NOW,
    )
    .expect("deepseek reasoner price");
    assert_eq!(reasoner.matched_model, "deepseek-reasoner");
    assert!((number(reasoner.pricing.output_per_million) - 2.19).abs() < 1e-12);
}

#[test]
fn resolves_provider_prefixed_model() {
    let mut entries = TextMap::new();
    entries.insert("gigachat/GigaChat-2-Pro".to_string(), entry("gigachat", 0.0, 0.0));

    let resolved = resolve_from_cache(
        &cache(entries),
        ProviderKind::GigaChat,
        "GigaChat-2-Pro",
        PRICE_CACHE_TTL,
        NOW,
    )
    .expect("price");

    assert_eq!(resolved.matched_model, "gigachat/GigaChat-2-Pro");
}

#[test]
fn does_not_cross_provider_match() {
    let mut entries = TextMap::new();
    entries.insert("deepseek-chat".to_string(), entry("deepseek", 0.00000028, 0.00000042));

    let resolved = resolve_from_cache(
        &cache(entries),
        ProviderKind::Kimi,
        "deepseek-chat",
        PRICE_CACHE_TTL,
        NOW,
    );

    assert!(resolved.is_none());
}

#[test]
fn catalogs_grow_stale() {
    assert!(!is_stale(NOW, NOW + PRICE_CACHE_TTL, PRICE_CACHE_TTL));
    assert!(is_stale(NOW, NOW + PRICE_CACHE_TTL + 1, PRICE_CACHE_TTL));
    assert_eq!(parse_u64_value(&CatalogNumber::Text("12".to_string())), Some(12));
    assert_eq!(parse_u64_value(&CatalogNumber::Text("x".to_string())), None);
    assert_eq!(parse_u64_value(&CatalogNumber::Other), None);
    let catalog = LiteLlmPriceCatalog::with_path("/tmp/prices.json".to_string());
    assert_eq!(catalog.path(), "/tmp/prices.json");
    let mut entries = TextMap::new();
    entries.insert("deepseek-chat".to_string(), entry("deepseek", 0.0, 0.0));
    let fetched = LiteLlmPriceCatalog::fetched(entries, NOW);
    let status = catalog.status(true, Some(&fetched), NOW);
    assert_eq!(status.model_count, 1);
    assert!(!status.stale);
    let resolved = catalog
        .resolve(&fetched, ProviderKind::DeepSeek, "deepseek-chat", NOW)
        .expect("price");
    assert_eq!(resolved.source, PriceSource::LiteLlmCatalog);
    assert!(catalog.status(false, None, NOW).stale);
}

#[test]
fn token_masking_never_prints_full_secret() {
    assert_eq!(mask_token(""), "<empty>");
    assert_eq!(mask_token("abc"), "****");
    assert_eq!(mask_token("sk-1234567890"), "sk-1...7890");
}

#[test]
fn profile_tokens_prefer_provider_scope_and_fallback_to_legacy_scope() {
    let mut secrets = MemorySecretStore::default();
    let profile = ProfileConfig {
        provider: ProviderKind::DeepSeek,
        model: "deepseek-chat".to_string(),
        base_url: "https://api.deepseek.com/v1".to_string(),
        token_ref: "deepseek:work".to_string(),
    };

    secrets.set_token("deepseek:work", "legacy-token").expect("set legacy token");
    assert_eq!(
        get_profile_token(&secrets, "work", &profile).expect("get legacy"),
        Some("legacy-token".to_string())
    );

    set_profile_token(&mut secrets, &profile, "provider-token").expect("set provider token");
    assert_eq!(
        get_profile_token(&secrets, "work", &profile).expect("get provider"),
        Some("provider-token".to_string())
    );
}

#[test]
fn provider_tokens_fallback_to_legacy_token_from_another_profile() {
    let mut secrets = MemorySecretStore::default();
    let mut config = AppConfig::default();
    config.profiles.insert(
        "Deepseek".to_string(),
        ProfileConfig {
            provider: ProviderKind::DeepSeek,
            model: "deepseek-chat".to_string(),
            base_url: "https://api.deepseek.com/v1".to_string(),
            token_ref: "deepseek:Deepseek".to_string(),
        },
    );
    let pro_profile = ProfileConfig {
        provider: ProviderKind::DeepSeek,
        model: "deepseek-v4-pro".to_string(),
        base_url: "https://api.deepseek.com/v1".to_string(),
        token_ref: "deepseek:ВуDeepSeek pro".to_string(),
    };
    config.profiles.insert("ВуDeepSeek pro".to_string(), pro_profile.clone());

    secrets.set_token("deepseek:Deepseek", "legacy-token").expect("set legacy token");
    assert_eq!(
        get_config_profile_token(&mut secrets, &config, "ВуDeepSeek pro", &pro_profile)
            .expect("get shared provider token"),
        Some("legacy-token".to_string())
    );
    assert_eq!(
        secrets.get_token("deepseek").expect("get migrated token"),
        Some("legacy-token".to_string())
    );
}

#[test]
fn an_old_token_of_a_profile_is_moved_to_its_provider_on_first_use() {
    let mut secrets = MemorySecretStore::default();
    let profile = ProfileConfig {
        provider: ProviderKind::DeepSeek,
        model: "deepseek-chat".to_string(),
        base_url: "https://api.deepseek.com/v1".to_string(),
        token_ref: "deepseek:work".to_string(),
    };
    secrets.set_token("deepseek:work", "legacy-token").expect("set token");
    let config = AppConfig::default();
    for _ in 0..2 {
        assert_eq!(
            get_config_profile_token(&mut secrets, &config, "work", &profile),
            Ok(Some("legacy-token".to_string()))
        );
        assert_eq!(secrets.get_token("deepseek"), Ok(Some("legacy-token".to_string())));
    }
    secrets.set_token("deepseek", "newer").expect("set token");
    assert_eq!(
        get_config_profile_token(&mut secrets, &config, "work", &profile),
        Ok(Some("newer".to_string()))
    );
}

/// A store that holds a token for every reference and cannot be written.
struct ReadOnlyStore;

impl SecretStore for ReadOnlyStore {
    fn set_token(&mut self, _: &str, _: &str) -> Result<(), AppError> {
        Err(AppError::Secret("locked".to_string()))
    }

    fn get_token(&self, token_ref: &str) -> Result<Option<String>, AppError> {
        Ok(Some(format!("{token_ref}-token")))
    }

    fn delete_token(&mut self, _: &str) -> Result<(), AppError> {
        Err(AppError::Secret("locked".to_string()))
    }
}

#[test]
fn a_typed_token_that_cannot_be_stored_is_not_used() {
    let profile = web_profile(ProviderKind::DeepSeek);
    let config = AppConfig::default();
    assert_eq!(
        resolve_web_token(&mut ReadOnlyStore, &profile, "typed", Some("deepseek"), &config),
        Err(AppError::Secret("locked".to_string()))
    );
    assert_eq!(
        resolve_web_token(&mut ReadOnlyStore, &profile, "typed", Some("kimi"), &config),
        Ok("deepseek-token".to_string())
    );
}

#[test]
fn the_doctor_tells_whether_there_is_a_token_and_no_more() {
    let mut config = AppConfig::default();
    config.add_profile("work".to_string(), web_profile(ProviderKind::DeepSeek));
    let check = |token: Option<&str>| {
        let mut secrets = MemorySecretStore::new();
        if let Some(token) = token {
            secrets.set_token("deepseek", token).expect("set token");
        }
        doctor(&config, None, &mut secrets)
    };
    let (lines, result) = check(Some("one"));
    assert_eq!(result, Ok(()));
    assert_eq!(
        lines,
        [
            "Profile: work",
            "Provider: deepseek",
            "Model: deepseek-chat",
            "Base URL: valid",
            "Token: present"
        ]
    );
    assert_eq!(check(Some("another")), (lines, Ok(())));
    assert_eq!(check(None).0[4], "Token: missing");
    let (lines, result) = doctor(&config, Some("home"), &mut MemorySecretStore::new());
    assert!(lines.is_empty());
    assert_eq!(result, Err(AppError::ProfileMissing("home".to_string())));
}

#[test]
fn deleted_tokens_are_gone_and_others_stay() {
    let mut secrets = MemorySecretStore::new();
    let profile = web_profile(ProviderKind::DeepSeek);
    secrets.set_token("deepseek", "a").expect("set token");
    secrets.set_token("deepseek:work", "b").expect("set token");
    secrets.set_token("kimi", "k").expect("set token");
    delete_legacy_profile_token(&mut secrets, "work", &profile).expect("delete");
    assert_eq!(secrets.get_token("deepseek").expect("get"), Some("a".to_string()));
    assert_eq!(secrets.get_token("deepseek:work").expect("get"), None);
    delete_profile_token(&mut secrets, "work", &profile).expect("delete");
    assert_eq!(get_profile_token(&secrets, "work", &profile).expect("get"), None);
    assert_eq!(secrets.get_token("kimi").expect("get"), Some("k".to_string()));
}

#[test]
fn a_keyring_without_an_entry_is_asked_for_the_old_one() {
    assert!(KeyringSecretStore::asks_legacy_service(&KeyringAnswer::NoEntry));
    assert!(!KeyringSecretStore::asks_legacy_service(&KeyringAnswer::Token("t".to_string())));
    assert_eq!(
        KeyringSecretStore::keyring_token(
            KeyringAnswer::NoEntry,
            KeyringAnswer::Token("old".to_string())
        ),
        Ok(Some("old".to_string()))
    );
    assert!(KeyringSecretStore::keyring_token(
        KeyringAnswer::Failed("locked".to_string()),
        KeyringAnswer::NoEntry
    )
    .is_err());
    assert_eq!(KeyringSecretStore::deleted(KeyringAnswer::NoEntry), Ok(()));
    assert!(KeyringSecretStore::deleted(KeyringAnswer::Failed("locked".to_string())).is_err());
}

/// The value of a JSON text.
fn json(text: &str) -> Value {
    serde_json::from_str(text).expect("json")
}

#[test]
fn toon_roundtrip_works_for_structs() {
    let value = r#"{"name":"Ada","done":true}"#;

    let raw = toon_codec::to_string(value).expect("encode");
    assert!(raw.contains("name: Ada"));

    let decoded = toon_codec::from_str(&raw).expect("decode");
    assert_eq!(json(&decoded), json(value));
}

#[test]
fn json_fallback_keeps_legacy_inputs_readable() {
    let decoded =
        toon_codec::from_str_or_json(r#"{"name":"Ada","done":true}"#).expect("decode json");

    assert_eq!(json(&decoded), json(r#"{"name":"Ada","done":true}"#));
    let from_toon = toon_codec::from_str_or_json("name: Ada\ndone: true").expect("decode toon");
    assert_eq!(json(&from_toon), json(r#"{"name":"Ada","done":true}"#));
}

#[test]
fn text_that_is_no_json_is_not_encoded() {
    assert!(matches!(toon_codec::to_string("{"), Err(AppError::Json(_))));
    assert_eq!(
        toon_codec::pick_decoded("{x", Ok(1), Err("no".to_string())),
        Ok(1)
    );
    assert_eq!(
        toon_codec::pick_decoded::<u8>("{x", Err("json".to_string()), Err("toon".to_string())),
        Err(AppError::Toon("toon".to_string()))
    );
    assert_eq!(
        toon_codec::pick_decoded::<u8>("x", Err("json".to_string()), Err("toon".to_string())),
        Err(AppError::Toon("toon; JSON fallback failed: json".to_string()))
    );
}

#[test]
fn whole_floats_come_back_as_integers() {
    let raw = toon_codec::to_string(r#"{"n":1.0}"#).expect("encode");
    assert_eq!(toon_codec::from_str(&raw).expect("decode"), r#"{"n":1}"#);
}

fn web_profile(provider: ProviderKind) -> ProfileConfig {
    ProfileConfig {
        provider,
        model: provider.default_model().to_string(),
        base_url: provider.default_base_url().to_string(),
        token_ref: String::new(),
    }
}

#[test]
fn web_token_uses_provider_keyring_when_form_is_empty() {
    let mut secrets = MemorySecretStore::default();
    let profile = web_profile(ProviderKind::OpenRouter);
    secrets.set_token("openrouter", "stored-token").expect("set token");

    let token = resolve_web_token(&mut secrets, &profile, "", None, &AppConfig::default())
        .expect("resolve token");

    assert_eq!(token, "stored-token");
}

#[test]
fn web_token_override_is_saved_like_cli_token() {
    let mut secrets = MemorySecretStore::default();
    let profile = web_profile(ProviderKind::DeepSeek);

    let token = resolve_web_token(
        &mut secrets,
        &profile,
        " fresh-token ",
        Some("deepseek"),
        &AppConfig::default(),
    )
    .expect("resolve token");

    assert_eq!(token, "fresh-token");
    assert_eq!(
        secrets.get_token("deepseek").expect("get token"),
        Some("fresh-token".to_string())
    );
}

#[test]
fn web_token_override_from_another_provider_is_ignored() {
    let mut secrets = MemorySecretStore::default();
    let profile = web_profile(ProviderKind::DeepSeek);
    secrets.set_token("deepseek", "deepseek-token").expect("set deepseek token");

    let token = resolve_web_token(
        &mut secrets,
        &profile,
        " kimi-token ",
        Some("kimi"),
        &AppConfig::default(),
    )
    .expect("resolve token");

    assert_eq!(token, "deepseek-token");
    assert_eq!(
        secrets.get_token("deepseek").expect("get token"),
        Some("deepseek-token".to_string())
    );
}

#[test]
fn a_web_token_is_looked_for_in_the_profiles_of_the_provider() {
    let mut secrets = MemorySecretStore::default();
    let mut config = AppConfig::default();
    config.add_profile("work".to_string(), web_profile(ProviderKind::DeepSeek));
    config.add_profile("home".to_string(), web_profile(ProviderKind::Kimi));
    let profile = web_profile(ProviderKind::DeepSeek);
    let missing = resolve_web_token(&mut secrets, &profile, " ", None, &config);
    match missing {
        Err(AppError::InvalidInput(message)) => {
            assert!(message.starts_with("API token is required."))
        }
        other => panic!("expected an error, got {other:?}"),
    }
    secrets.set_token("deepseek:work", "old").expect("set token");
    assert_eq!(
        resolve_web_token(&mut secrets, &profile, "", None, &config),
        Ok("old".to_string())
    );
    assert_eq!(
        resolve_web_token(&mut secrets, &profile, "typed", Some("nobody"), &config),
        Err(AppError::UnsupportedProvider("nobody".to_string()))
    );
}

fn web_request(system_prompt: Option<&str>, prompt: &str) -> ChatWebRequest {
    ChatWebRequest {
        provider: "deepseek".to_string(),
        base_url: "https://api.deepseek.com/v1".to_string(),
        token: String::new(),
        token_provider: None,
        model: "deepseek-chat".to_string(),
        system_prompt: system_prompt.map(str::to_string),
        prompt: prompt.to_string(),
        control: WebResponseControl::default(),
        pricing: None,
        billing: None,
    }
}

#[test]
fn web_chat_messages_put_system_prompt_before_user_prompt() {
    let request = web_request(Some("Ты отвечаешь кратко."), "Привет");

    let messages = request.chat_messages();

    assert_eq!(messages.len(), 2);
    assert_eq!(messages[0].role, Role::System);
    assert_eq!(messages[0].content, "Ты отвечаешь кратко.");
    assert_eq!(messages[1].role, Role::User);
    assert_eq!(messages[1].content, "Привет");
}

#[test]
fn web_requests_are_checked_in_order() {
    let request = web_request(Some("  "), "Привет");
    let profile = request.checked_profile().expect("profile");
    assert_eq!(profile.model, "deepseek-chat");
    assert_eq!(request.chat_messages().len(), 1);
    let chat = request.chat_request(&profile);
    assert_eq!(chat.model, "deepseek-chat");
    assert!(chat.control.is_uncontrolled());

    let mut request = web_request(None, " ");
    assert_eq!(
        request.checked_profile(),
        Err(AppError::InvalidInput("Prompt is required".to_string()))
    );
    request.base_url = "nowhere".to_string();
    assert!(matches!(request.checked_profile(), Err(AppError::InvalidBaseUrl { .. })));
    request.model = " ".to_string();
    assert_eq!(
        request.checked_profile(),
        Err(AppError::InvalidInput("Model is required".to_string()))
    );
    request.provider = "nobody".to_string();
    assert_eq!(
        request.checked_profile(),
        Err(AppError::UnsupportedProvider("nobody".to_string()))
    );
    let listing = ModelsRequest {
        provider: "Kimi".to_string(),
        base_url: "https://host.test".to_string(),
        token: String::new(),
        token_provider: None,
    };
    assert_eq!(
        listing.profile().expect("profile").model,
        ProviderKind::Kimi.default_model()
    );
}

#[test]
fn web_errors_have_their_status() {
    assert_eq!(error_status(&AppError::InvalidInput("x".to_string())), 400);
    let failed = map_http_status("kimi", EndpointCategory::Chat, 500, None, "down");
    assert_eq!(error_status(&AppError::ProviderHttp(failed)), 502);
    assert_eq!(error_status(&AppError::NoActiveProfile), 500);
}

#[test]
fn web_forms_are_read() {
    assert_eq!(blank_to_none(Some("  ".to_string())), None);
    assert_eq!(blank_to_none(Some(" a ".to_string())), Some("a".to_string()));
    let control = WebResponseControl {
        response_format: Some("json-object".to_string()),
        answer_format: Some("table".to_string()),
        user: Some(" ada ".to_string()),
        verbosity: Some(" ".to_string()),
        ..WebResponseControl::default()
    }
    .into_control();
    assert_eq!(control.format, ResponseFormat::JsonObject);
    assert_eq!(control.answer_format, AnswerFormat::Table);
    assert_eq!(control.user.as_deref(), Some("ada"));
    assert_eq!(control.verbosity, None);
    let pricing = WebPricing {
        input_per_million: Some(price(1.0)),
        output_per_million: Some(price(2.0)),
        cache_hit_input_per_million: None,
        cache_miss_input_per_million: None,
        currency: Some(" ".to_string()),
    };
    assert_eq!(pricing.into_model_pricing(), Some(usd(Some(1.0), 2.0)));
    let billing = WebBilling {
        openai_admin_token: Some(" k ".to_string()),
        openai_cost_poll_seconds: None,
    };
    let lookup = billing.into_billing_lookup().expect("lookup");
    assert_eq!((lookup.admin_token.as_str(), lookup.poll_seconds), ("k", 20));
}

#[test]
fn every_provider_is_shown_with_every_parameter() {
    let views = provider_views();
    assert_eq!(views.len(), ProviderKind::all().len());
    for view in &views {
        assert_eq!(view.parameter_constraints.len(), 16);
        assert_eq!(view.parameter_constraints[2].id, "temperature");
    }
    let kimi = parameter_constraints(ProviderKind::Kimi);
    assert!(!kimi[2].supported);
    let gigachat = parameter_constraints(ProviderKind::GigaChat);
    assert_eq!((gigachat[2].min, gigachat[2].max), (Some(1), None));
    assert!(gigachat[2].supported);
    let openrouter = parameter_constraints(ProviderKind::OpenRouter);
    assert_eq!(openrouter[2].max, Some(200));
}

#[test]
fn models_are_shown_in_the_order_of_their_names() {
    let model = |id: &str, pricing: Option<ModelPricing>| ModelInfo { id: id.to_string(), pricing };
    let sorted = sort_models(vec![
        model("b", None),
        model("a", Some(usd(None, 1.0))),
        model("c", None),
        model("a", None),
    ]);
    let ids: Vec<&str> = sorted.iter().map(|model| model.id.as_str()).collect();
    assert_eq!(ids, vec!["a", "a", "b", "c"]);
    assert!(sorted[0].pricing.is_some());
    assert!(sorted[1].pricing.is_none());
}
