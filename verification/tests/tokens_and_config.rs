//! Token accounting, the configuration and the command line.

use ai_playground::chat::memory::{MemoryConfig, MemoryStrategy, DEFAULT_FACTS_PROMPT};
use ai_playground::chat::token_accounting::{
    checked_exchange, checked_growth, checked_messages_tokens, context_status,
    estimate_exchange, estimate_text_tokens, repeated_words, simulate_growth, ContextStatus,
};
use ai_playground::chat::{ConversationGoal, ConversationStopMode};
use ai_playground::cli::args::{
    parse_answer_format, parse_stop_mode, BillingArgs, CliAnswerFormat, CliConversationStopMode,
    CliMemoryStrategy, CliResponseFormat, ConversationGoalArgs, McpToolsArgs, MemoryArgs,
    PricingArgs, ResponseControlArgs,
};
use ai_playground::cli::commands::{
    build_prompt_with_files, check_required_fields, connection_line, format_status,
    profile_line_at, report_conclusion, resolve_server, tool_line, unreadable_file, AttachedFile,
};
use ai_playground::cli::input::{default_label, given, optional, or_default, strip_line_end};
use ai_playground::cli::pricing::{
    after_catalog, after_listing, first_pricing_step, PricingStep,
};
use ai_playground::cli::profile_input::{
    choose_model, choose_profile, choose_provider, collected, model_line,
    profile_name_from_parts, select_profile_name, token_profile, ModelChoice,
};
use ai_playground::config::{
    legacy_token_ref, token_ref, AppConfig, McpServerConfig, ProfileConfig,
};
use ai_playground::dist::{
    binary_filename, check_overwrite, default_config, default_release_note, download_url, installed,
    is_executable, status, suggested_install_dir, target_asset_name, DistConfig,
};
use ai_playground::errors::AppError;
use ai_playground::mcp::{
    connect_error, connection, http_error, launch_error, listing_error, server_identity,
    timeout_error, McpToolInfo,
};
use ai_playground::providers::{
    AnswerFormat, ChatMessage, Float64, ModelInfo, ModelPricing, ProviderKind, ResponseControl,
    ResponseFormat, Role,
};
use ai_playground::secrets::{MemorySecretStore, SecretStore};

fn texts(items: &[&str]) -> Vec<String> {
    items.iter().map(|item| item.to_string()).collect()
}

fn price(value: f64) -> Float64 {
    Float64 { bits: value.to_bits() }
}

fn number(value: Float64) -> f64 {
    f64::from_bits(value.bits)
}

fn cost(input_tokens: u32, output_tokens: u32) -> f64 {
    f64::from(input_tokens) * 1.0 / 1_000_000.0 + f64::from(output_tokens) * 4.0 / 1_000_000.0
}

#[test]
fn cyrillic_text_is_not_over_estimated() {
    let word = "бюджеты";
    let tokens = estimate_text_tokens(word);
    assert!(tokens <= 5, "expected <=5 tokens for a 7-letter Cyrillic word, got {tokens}");

    let sentence = "Расскажи мне новый анекдот про двух соседей пожалуйста";
    let sentence_tokens = estimate_text_tokens(sentence);
    let char_count = sentence.chars().count() as u32;
    assert!(
        sentence_tokens < char_count,
        "estimate {sentence_tokens} should be below char count {char_count}"
    );
}

#[test]
fn token_estimate_splits_request_history_and_response() {
    let history =
        vec![ChatMessage { role: Role::System, content: "Answer briefly".to_string() }];
    let mut request = history.clone();
    request.push(ChatMessage { role: Role::User, content: "Hello there".to_string() });

    let estimate = estimate_exchange(&request, &history, "Hi", 128);

    assert!(estimate.current_request_tokens > estimate.history_tokens);
    assert!(estimate.response_tokens > 0);
    assert_eq!(
        estimate.total_tokens,
        estimate.current_request_tokens + estimate.response_tokens
    );
    assert_eq!(estimate.status, ContextStatus::Fits);
    assert!(cost(estimate.current_request_tokens, estimate.response_tokens) > 0.0);
    assert_eq!(checked_exchange(&request, &history, "Hi", 128), Some(estimate));
}

#[test]
fn growth_report_shows_long_dialogue_cost_growth() {
    let short = simulate_growth("short", 4_096, 2, 20, 30);
    let long = simulate_growth("long", 4_096, 8, 20, 30);

    assert!(long.rows.last().unwrap().request_tokens > short.rows.last().unwrap().request_tokens);
    let spent = |rows: &[ai_playground::chat::token_accounting::TokenGrowthRow]| {
        rows.iter().map(|row| cost(row.request_tokens, row.response_tokens)).sum::<f64>()
    };
    assert!(spent(&long.rows) > spent(&short.rows));
}

#[test]
fn growth_report_marks_context_overflow() {
    let report = simulate_growth("overflow", 300, 20, 40, 40);

    assert_eq!(report.rows.last().unwrap().status, ContextStatus::Overflow);
    assert!(report.breakage.as_ref().unwrap().contains("provider would reject"));
    let conclusion = report_conclusion(&report).expect("conclusion");
    assert!(conclusion.starts_with("Что ломается: turn "));
}

#[test]
fn tokens_are_counted_by_script() {
    assert_eq!(estimate_text_tokens(""), 0);
    assert_eq!(estimate_text_tokens("бюджеты"), 4);
    assert_eq!(estimate_text_tokens("Hello"), 2);
    assert_eq!(
        checked_messages_tokens(&[ChatMessage { role: Role::User, content: String::new() }]),
        Some(8)
    );
    assert_eq!(repeated_words("a", 3), "a0 a1 a2");
    assert_eq!(context_status(84, 100), ContextStatus::Fits);
    assert_eq!(context_status(85, 100), ContextStatus::NearLimit);
    assert_eq!(context_status(101, 100), ContextStatus::Overflow);
    assert_eq!(format_status(ContextStatus::NearLimit), "near-limit");
    assert_eq!(ContextStatus::Fits.name(), "fits");
}

#[test]
fn a_dialogue_that_fits_says_what_is_left() {
    let report = checked_growth("short", 4_096, 1, 20, 30).expect("report");
    let total = report.rows[0].total_tokens;
    assert_eq!(
        report_conclusion(&report),
        Some(format!("Итог: помещается, запас контекста {} токенов.", 4_096 - total))
    );
}

fn parts() -> Vec<String> {
    texts(&["ВуDeepSeek", "pro"])
}

#[test]
fn cli_profile_use_accepts_unquoted_names_with_spaces() {
    assert_eq!(profile_name_from_parts(&parts()), "ВуDeepSeek pro");
}

#[test]
fn cli_profile_use_can_open_interactive_menu_without_name() {
    let mut config = AppConfig::default();
    config.add_profile("work".to_string(), deepseek());
    let name: Vec<String> = Vec::new();
    assert!(name.is_empty());
    assert_eq!(select_profile_name(&config, &name), Ok(None));
}

#[test]
fn cli_top_level_use_accepts_profile_name() {
    let mut config = AppConfig::default();
    config.add_profile("ВуDeepSeek pro".to_string(), deepseek());
    assert_eq!(select_profile_name(&config, &parts()), Ok(Some("ВуDeepSeek pro".to_string())));
}

#[test]
fn cli_profile_remove_accepts_unquoted_names_with_spaces() {
    let mut config = AppConfig::default();
    config.add_profile("ВуDeepSeek pro".to_string(), deepseek());
    assert!(config.remove_profile(&profile_name_from_parts(&parts())).is_ok());
    assert_eq!(config.active_profile, None);
}

#[test]
fn mod_profile_use_accepts_unquoted_names_with_spaces() {
    assert_eq!(profile_name_from_parts(&parts()), "ВуDeepSeek pro");
}

#[test]
fn mod_profile_use_can_open_interactive_menu_without_name() {
    let name: Vec<String> = Vec::new();
    assert!(name.is_empty());
    assert!(select_profile_name(&AppConfig::default(), &name).is_err());
}

#[test]
fn mod_top_level_use_accepts_profile_name() {
    assert_eq!(profile_name_from_parts(&parts()), "ВуDeepSeek pro");
}

#[test]
fn mod_profile_remove_accepts_unquoted_names_with_spaces() {
    assert_eq!(profile_name_from_parts(&parts()), "ВуDeepSeek pro");
}

#[test]
fn memory_args_convert_custom_facts_prompt() {
    let args = MemoryArgs {
        memory_strategy: CliMemoryStrategy::StickyFacts,
        memory_recent_messages: 5,
        memory_summarize_after_messages: 18,
        memory_summary_chunk_messages: 10,
        memory_summarize_at_context_percent: 80,
        memory_summary_prompt: "Custom summary prompt".to_string(),
        memory_facts_prompt: "Custom facts prompt".to_string(),
        memory_active_branch: "default".to_string(),
    };

    let config = MemoryConfig::from(&args);

    assert_eq!(config.strategy, MemoryStrategy::StickyFacts);
    assert_eq!(config.recent_messages, 5);
    assert_eq!(config.facts_prompt, "Custom facts prompt");
}

#[test]
fn memory_args_convert_custom_summary_prompt_and_thresholds() {
    let args = MemoryArgs {
        memory_strategy: CliMemoryStrategy::Summary,
        memory_recent_messages: 7,
        memory_summarize_after_messages: 9,
        memory_summary_chunk_messages: 3,
        memory_summarize_at_context_percent: 70,
        memory_summary_prompt: "Summarize only stable decisions.".to_string(),
        memory_facts_prompt: DEFAULT_FACTS_PROMPT.to_string(),
        memory_active_branch: "default".to_string(),
    };

    let config = MemoryConfig::from(&args);

    assert_eq!(config.strategy, MemoryStrategy::Summary);
    assert_eq!(config.recent_messages, 7);
    assert_eq!(config.summarize_after_messages, 9);
    assert_eq!(config.summary_chunk_messages, 3);
    assert_eq!(config.summarize_at_context_percent, 70);
    assert_eq!(config.summary_prompt, "Summarize only stable decisions.");
}

fn control_args() -> ResponseControlArgs {
    ResponseControlArgs {
        response_format: CliResponseFormat::Text,
        answer_format: CliAnswerFormat::Natural,
        max_tokens: None,
        max_completion_tokens: None,
        temperature: None,
        top_p: None,
        top_k: None,
        min_p: None,
        top_a: None,
        presence_penalty: None,
        frequency_penalty: None,
        repetition_penalty: None,
        seed: None,
        reasoning_effort: None,
        include_reasoning: None,
        verbosity: None,
        logprobs: None,
        top_logprobs: None,
        n: None,
        store: None,
        parallel_tool_calls: None,
        user: None,
        service_tier: None,
        stop: Vec::new(),
        answer_prefix: None,
        answer_suffix: None,
        address_as: None,
        quote_question: false,
        format_instruction: None,
        completion_instruction: None,
    }
}

#[test]
fn control_args_become_a_control() {
    assert!(ResponseControl::from(&control_args()).is_uncontrolled());
    let args = ResponseControlArgs {
        response_format: CliResponseFormat::Toon,
        answer_format: CliAnswerFormat::Steps,
        seed: Some(42),
        stop: texts(&["END"]),
        user: Some("ada".to_string()),
        ..control_args()
    };
    let control = ResponseControl::from(&args);
    assert_eq!(control.format, ResponseFormat::Toon);
    assert_eq!(control.answer_format, AnswerFormat::Steps);
    assert_eq!(control.seed, Some(42));
    assert_eq!(control.stop, texts(&["END"]));
    assert_eq!(control.user.as_deref(), Some("ada"));
    assert!(!control.is_uncontrolled());
}

#[test]
fn goals_and_lookups_are_read_from_the_command_line() {
    let args = ConversationGoalArgs {
        required_field: texts(&["budget"]),
        goal_stop_mode: CliConversationStopMode::Combined,
    };
    let goal = ConversationGoal::from(&args);
    assert_eq!(goal.required_fields, texts(&["budget"]));
    assert_eq!(goal.mode, ConversationStopMode::Combined);
    let lookup =
        BillingArgs { openai_admin_token: Some(" key ".to_string()), openai_cost_poll_seconds: 5 }
            .billing_lookup()
            .expect("lookup");
    assert_eq!(lookup.admin_token, "key");
    assert_eq!(lookup.poll_seconds, 5);
    let blank =
        BillingArgs { openai_admin_token: Some("  ".to_string()), openai_cost_poll_seconds: 5 };
    assert_eq!(blank.billing_lookup(), None);
    assert_eq!(parse_answer_format("bullets"), Some(AnswerFormat::Bullets));
    assert_eq!(parse_answer_format("poem"), None);
    assert_eq!(parse_stop_mode("state"), Some(ConversationStopMode::State));
    assert_eq!(parse_stop_mode("never"), None);
}

fn pricing_args(input: Option<f64>, output: Option<f64>) -> PricingArgs {
    PricingArgs {
        input_price_per_million: input.map(price),
        output_price_per_million: output.map(price),
        cache_hit_input_price_per_million: None,
        cache_miss_input_price_per_million: None,
        price_currency: "USD".to_string(),
    }
}

#[test]
fn prices_come_from_the_command_line_the_catalog_or_the_provider() {
    match first_pricing_step(&pricing_args(Some(1.5), Some(2.5))) {
        Ok(PricingStep::Use(Some(pricing))) => {
            assert_eq!(number(pricing.input_per_million.expect("input")), 1.5);
            assert_eq!(number(pricing.output_per_million), 2.5);
        }
        other => panic!("expected prices, got {other:?}"),
    }
    assert_eq!(first_pricing_step(&pricing_args(None, None)), Ok(PricingStep::AskCatalog));
    assert!(matches!(
        first_pricing_step(&pricing_args(Some(1.0), None)),
        Err(AppError::InvalidInput(_))
    ));
    assert_eq!(after_catalog(Ok(None), true), PricingStep::AskProvider);
    assert_eq!(after_catalog(Ok(None), false), PricingStep::Use(None));
    assert_eq!(
        after_catalog(Err(AppError::Json("bad".to_string())), true),
        PricingStep::AskProvider
    );
    let offered = || ModelPricing {
        currency: "USD".to_string(),
        input_per_million: None,
        output_per_million: price(3.0),
        cache_hit_input_per_million: None,
        cache_miss_input_per_million: None,
    };
    let listing = Ok(vec![
        ModelInfo { id: "a".to_string(), pricing: None },
        ModelInfo { id: "b".to_string(), pricing: Some(offered()) },
    ]);
    assert_eq!(after_listing(&listing, "b"), Some(offered()));
    assert_eq!(after_listing(&listing, "a"), None);
    assert_eq!(after_listing(&listing, "c"), None);
    assert_eq!(after_listing(&Err(AppError::NoActiveProfile), "b"), None);
}

fn mcp_args(
    server: Option<&str>,
    command: Option<&str>,
    cmd_args: &[&str],
    url: Option<&str>,
) -> McpToolsArgs {
    McpToolsArgs {
        server: server.map(str::to_string),
        command: command.map(str::to_string),
        args: texts(cmd_args),
        url: url.map(str::to_string),
    }
}

#[test]
fn url_takes_precedence_over_command_and_server() {
    let (label, server) = resolve_server(
        &mcp_args(Some("configured"), Some("npx"), &["-y"], Some("https://host.test/mcp")),
        &AppConfig::default(),
    )
    .expect("resolve");
    assert_eq!(label, "https://host.test/mcp");
    match server {
        McpServerConfig::Http { url } => assert_eq!(url, "https://host.test/mcp"),
        other => panic!("expected http server, got {other:?}"),
    }
}

#[test]
fn command_takes_precedence_over_server_and_builds_label() {
    let (label, server) = resolve_server(
        &mcp_args(Some("configured"), Some("npx"), &["-y", "srv"], None),
        &AppConfig::default(),
    )
    .expect("resolve");
    assert_eq!(label, "npx -y srv");
    match server {
        McpServerConfig::Stdio { command, args } => {
            assert_eq!(command, "npx");
            assert_eq!(args, vec!["-y".to_string(), "srv".to_string()]);
        }
        other => panic!("expected stdio server, got {other:?}"),
    }
}

#[test]
fn the_default_server_is_asked_unless_another_is_named() {
    let config = AppConfig::default();
    let (label, _) = resolve_server(&mcp_args(None, None, &[], None), &config).expect("default");
    assert_eq!(label, "filesystem");
    assert!(matches!(
        resolve_server(&mcp_args(Some("absent"), None, &[], None), &config),
        Err(AppError::Mcp(_))
    ));
}

#[test]
fn connections_are_told_and_their_failures_too() {
    let tools = vec![
        McpToolInfo { name: "alpha".to_string(), description: Some("Alpha tool".to_string()) },
        McpToolInfo { name: "beta".to_string(), description: None },
    ];
    let (name, version) = server_identity(
        Some(("fixture-mcp-server".to_string(), "9.9.9".to_string())),
        "fixture",
    );
    let connection = connection(name, version, tools);
    assert_eq!(connection.tool_count, 2);
    assert_eq!(connection_line(&connection), "Connected to fixture-mcp-server v9.9.9 (2 tools)");
    assert_eq!(tool_line(&connection.tools[0]), "- alpha: Alpha tool");
    assert_eq!(tool_line(&connection.tools[1]), "- beta");
    assert_eq!(server_identity(None, "fixture").0, "fixture");

    let launch = launch_error("definitely-not-a-real-binary-xyz", "not found");
    assert!(matches!(launch, AppError::Mcp(_)));
    assert!(launch.to_text().contains("could not launch MCP server"));
    for error in [timeout_error("x"), connect_error("x", "y"), listing_error("x", "y")] {
        assert!(matches!(error, AppError::Mcp(_)));
    }
    assert!(http_error(connect_error("x", "y")).to_text().contains("Streamable-HTTP"));
    assert_eq!(http_error(AppError::NoActiveProfile), AppError::NoActiveProfile);
}

fn deepseek() -> ProfileConfig {
    ProfileConfig {
        provider: ProviderKind::DeepSeek,
        model: "deepseek-chat".to_string(),
        base_url: ProviderKind::DeepSeek.default_base_url().to_string(),
        token_ref: String::new(),
    }
}

#[test]
fn legacy_token_refs_keep_profile_name_for_migration() {
    assert_eq!(legacy_token_ref(&ProviderKind::DeepSeek, "work"), "deepseek:work");
    assert_eq!(token_ref(&ProviderKind::DeepSeek), "deepseek");
}

#[test]
fn default_config_includes_filesystem_mcp_server() {
    let config = AppConfig::default();
    let server = config.mcp_servers.get("filesystem").expect("default filesystem server");
    match server {
        McpServerConfig::Stdio { command, args } => {
            assert_eq!(command, "npx");
            assert!(args.iter().any(|arg| arg.contains("server-filesystem")));
        }
        other => panic!("expected stdio server, got {other:?}"),
    }
}

#[test]
fn mcp_server_lookup_ok_and_missing() {
    let config = AppConfig::default();
    assert!(config.mcp_server("filesystem").is_ok());
    let error = config.mcp_server("absent").expect_err("missing server");
    assert!(matches!(error, AppError::Mcp(_)));
}

#[test]
fn profile_selection_uses_active_or_requested() {
    let mut config = AppConfig::default();
    config.add_profile("one".to_string(), deepseek());
    config.add_profile(
        "two".to_string(),
        ProfileConfig {
            provider: ProviderKind::Kimi,
            model: "moonshot-v1-8k".to_string(),
            base_url: ProviderKind::Kimi.default_base_url().to_string(),
            token_ref: String::new(),
        },
    );

    assert_eq!(config.selected_profile(None).expect("active").0, "one");
    assert_eq!(config.selected_profile(Some("two")).expect("requested").0, "two");
    assert!(matches!(
        config.selected_profile(Some("missing")),
        Err(AppError::ProfileMissing(_))
    ));
    assert!(matches!(
        AppConfig::default().selected_profile(None),
        Err(AppError::NoActiveProfile)
    ));
}

#[test]
fn an_added_profile_gets_the_token_reference_of_its_provider() {
    let mut config = AppConfig::default();
    config.add_profile(
        "work".to_string(),
        ProfileConfig {
            provider: ProviderKind::OpenRouter,
            model: "openai/gpt-4.1".to_string(),
            base_url: "https://openrouter.ai/api/v1".to_string(),
            token_ref: String::new(),
        },
    );
    assert_eq!(config.profiles.get("work").expect("work").token_ref, "openrouter");
    assert_eq!(config.active_profile.as_deref(), Some("work"));
    assert!(config.use_profile("absent").is_err());
    assert!(config.remove_profile("absent").is_err());
}

#[test]
fn an_old_configuration_is_read_until_there_is_a_new_one() {
    let path = |new: bool, old: bool| {
        AppConfig::existing_config_path("new".to_string(), new, "old".to_string(), old)
    };
    assert_eq!(path(true, true), "new");
    assert_eq!(path(false, true), "old");
    assert_eq!(path(false, false), "new");
}

#[test]
fn profiles_are_listed_with_their_tokens() {
    let mut config = AppConfig::default();
    config.add_profile("one".to_string(), deepseek());
    config.add_profile("two".to_string(), ProfileConfig {
        provider: ProviderKind::Kimi,
        model: "moonshot-v1-8k".to_string(),
        base_url: String::new(),
        token_ref: String::new(),
    });
    let mut secrets = MemorySecretStore::new();
    secrets.set_token("kimi", "k").expect("set token");
    assert_eq!(
        profile_line_at(&mut secrets, &config, 0),
        Ok("* one [deepseek] deepseek-chat token: missing".to_string())
    );
    assert_eq!(
        profile_line_at(&mut secrets, &config, 1),
        Ok("  two [kimi] moonshot-v1-8k token: present".to_string())
    );
}

fn dist(url_override: Option<&str>) -> DistConfig {
    DistConfig {
        repo_url: "https://github.com/Langepas94/ai-playground".to_string(),
        channel: "dev".to_string(),
        asset_name: "ai-linux-x86_64".to_string(),
        install_path: "/tmp/ai".to_string(),
        url_override: url_override.map(str::to_string),
    }
}

#[test]
fn builds_default_github_release_url() {
    assert_eq!(
        download_url(&dist(None)),
        "https://github.com/Langepas94/ai-playground/releases/download/dev/ai-linux-x86_64"
    );
}

#[test]
fn override_url_wins_over_release_template() {
    assert_eq!(download_url(&dist(Some("https://example.test/ai"))), "https://example.test/ai");
}

#[test]
fn suggested_install_dir_has_bin_suffix() {
    let home = suggested_install_dir(Some("/home/ada/.local/bin".to_string()), None);
    let data = suggested_install_dir(None, Some("/data/bin".to_string()));
    for dir in [home, data] {
        assert!(dir.ends_with(".local/bin") || dir.ends_with("bin"), "got {dir:?}");
    }
    assert_eq!(suggested_install_dir(None, None), ".");
}

#[test]
fn the_release_note_names_the_download() {
    assert_eq!(
        default_release_note(Some("https://example.com/r".to_string()), "ai-linux-x64"),
        "Downloadable dev build: https://example.com/r/releases/download/dev/ai-linux-x64"
    );
    assert_eq!(
        default_release_note(None, "ai"),
        "Downloadable dev build: https://github.com/Langepas94/ai-playground/releases/download/dev/ai"
    );
}

#[test]
fn installs_are_described_and_not_overwritten_by_accident() {
    let config = dist(None);
    assert!(check_overwrite(&config, true, false).is_err());
    assert!(check_overwrite(&config, true, true).is_ok());
    assert!(check_overwrite(&config, false, false).is_ok());
    assert_eq!(installed(&config, 12).bytes_written, 12);
    let st = status(&config, true, false);
    assert_eq!(st.install_path, "/tmp/ai");
    assert!(st.installed && !st.executable);
    assert!(is_executable(true, Some(0o755)));
    assert!(!is_executable(true, Some(0o644)));
    assert!(!is_executable(false, None));
    assert_eq!(target_asset_name("linux", "x86_64", false), "ai-linux-x86_64");
    assert_eq!(binary_filename(true), "ai.exe");
    let config = default_config(
        None,
        Some("https://example.test/repo".to_string()),
        None,
        "ai-linux-x86_64".to_string(),
        "/tmp/ai".to_string(),
        None,
    );
    assert_eq!(
        download_url(&config),
        "https://example.test/repo/releases/download/dev/ai-linux-x86_64"
    );
}

#[test]
fn what_is_typed_is_read() {
    assert_eq!(strip_line_end(b"abc\r\n".to_vec()), b"abc".to_vec());
    assert_eq!(default_label("Model", "m"), "Model [m]");
    assert_eq!(or_default("  ".to_string(), "d"), "d");
    assert_eq!(or_default(" x ".to_string(), "d"), " x ");
    assert_eq!(optional(String::new()), None);
    assert_eq!(optional("t".to_string()), Some("t".to_string()));
    assert!(given("x") && !given(" "));
    assert_eq!(choose_provider("3"), Some(ProviderKind::all()[2]));
    assert_eq!(choose_provider("kimi"), Some(ProviderKind::Kimi));
    assert_eq!(choose_provider("99"), None);
    let models = texts(&["a", "b"]);
    assert_eq!(choose_model("2", &models, "a"), ModelChoice::Use("b".to_string()));
    assert_eq!(choose_model("", &models, "a"), ModelChoice::Use("a".to_string()));
    assert!(model_line(1, "a", "a").contains('a'));
    let mut config = AppConfig::default();
    config.add_profile("work".to_string(), deepseek());
    assert_eq!(choose_profile(&config, "1"), Some("work".to_string()));
    assert_eq!(choose_profile(&config, "work"), Some("work".to_string()));
    assert_eq!(choose_profile(&config, "absent"), None);
    let profile = token_profile(ProviderKind::Kimi, "https://host.test");
    assert_eq!(profile.provider, ProviderKind::Kimi);
    let taken = collected(
        "work".to_string(),
        ProviderKind::Kimi,
        "m".to_string(),
        "https://host.test".to_string(),
        true,
    );
    assert_eq!(taken.config.token_ref, "");
    assert!(taken.token_saved);
}

#[test]
fn files_are_appended_to_a_prompt() {
    let files = vec![AttachedFile { label: "a.txt".to_string(), content: "A".to_string() }];
    assert_eq!(build_prompt_with_files("Q", &files), "Q\n\n--- a.txt ---\nA");
    assert_eq!(build_prompt_with_files("Q", &Vec::new()), "Q");
    assert_eq!(
        unreadable_file("a.txt", "gone"),
        AppError::InvalidInput("Cannot read file 'a.txt': gone".to_string())
    );
    assert!(check_required_fields(&Vec::new()).is_err());
    assert!(check_required_fields(&texts(&["budget"])).is_ok());
}
