//! The agents of the swarm, their configuration, and what they remember.

use ai_playground::chat::memory::{
    AgentMemory, Fact, MemoryConfig, MemoryStrategy, TopicRouteDecision, DEFAULT_SUMMARY_PROMPT,
    DEFAULT_TOPIC_CLASSIFIER_PROMPT,
};
use ai_playground::chat::store::{
    AgentProfile, ProfileField, TaskArtifact, TaskContext, TaskPauseReason, TaskStage,
};
use ai_playground::chat::swarm::agent::{
    effective_memory_scope, service_record, InvariantCheckStatus, RequestSetup,
};
use ai_playground::chat::swarm::agents::default_role_prompt;
use ai_playground::chat::swarm::agents::responder::{
    lifecycle_safe_control, responder_outcome, responder_record, stage_rules, strip_stage_marker,
    STAGE_DONE_MARKER,
};
use ai_playground::chat::swarm::agents::service::{
    short_circuit, InvariantAgent, MemoryAgent, ProfileAgent, ProfileUpdate, SummaryAgent,
    TopicAgent, TopicRoute, TopicStep,
};
use ai_playground::chat::swarm::config::{SubAgentConfig, SubAgentRole, SwarmConfig};
use ai_playground::chat::swarm::lifecycle::{
    apply_stage_completion, explicit_approval_intent, lifecycle_request_rejection,
    normalize_control_intent, pause_intent, plan_lines, resume_intent, step_back_intent,
};
use ai_playground::chat::swarm::orchestrator::{
    build_invariant_refusal, invariant_status_label, invariant_summary, judge,
    local_invariant_violations_after_sanitize, stage_responder_role, user_evidence_context,
    Responder, SwarmOrchestrator,
};
use ai_playground::chat::swarm::prompt_builder::{PromptBuilder, PromptLayers, OUTPUT_POLICY};
use ai_playground::chat::swarm::runtime::{resolve_one, resolve_swarm, ResolvedSwarm};
use ai_playground::chat::swarm::task_facts::{
    capture_task_facts, extract_legal_task_facts, sentence_with, value_after_label,
};
use ai_playground::chat::swarm::SwarmRunRecord;
use ai_playground::config::{AppConfig, ProfileConfig};
use ai_playground::errors::AppError;
use ai_playground::providers::{
    ChatMessage, Float32, ProviderKind, RequestMetrics, ResponseControl, Role,
};
use ai_playground::secrets::{MemorySecretStore, SecretStore};

const ROLES: [SubAgentRole; 12] = [
    SubAgentRole::Planning,
    SubAgentRole::Execution,
    SubAgentRole::Validation,
    SubAgentRole::Done,
    SubAgentRole::General,
    SubAgentRole::Memory,
    SubAgentRole::Summary,
    SubAgentRole::Topic,
    SubAgentRole::Profile,
    SubAgentRole::Invariant,
    SubAgentRole::Worker,
    SubAgentRole::Task,
];

fn texts(items: &[&str]) -> Vec<String> {
    items.iter().map(|item| item.to_string()).collect()
}

fn pair(key: &str, value: &str) -> (String, String) {
    (key.to_string(), value.to_string())
}

fn fact(key: &str, value: &str) -> Fact {
    Fact { key: key.to_string(), value: value.to_string(), layer: None }
}

/// A store that answers nothing.
struct BrokenStore;

impl SecretStore for BrokenStore {
    fn set_token(&mut self, _: &str, _: &str) -> Result<(), AppError> {
        Err(AppError::Secret("locked".to_string()))
    }

    fn get_token(&self, _: &str) -> Result<Option<String>, AppError> {
        Err(AppError::Secret("locked".to_string()))
    }

    fn delete_token(&mut self, _: &str) -> Result<(), AppError> {
        Err(AppError::Secret("locked".to_string()))
    }
}

fn metrics() -> RequestMetrics {
    RequestMetrics { elapsed_ms: 1, usage: None, cost: None }
}

fn main_profile() -> ProfileConfig {
    ProfileConfig {
        provider: ProviderKind::OpenAiCompatible,
        model: "main-model".to_string(),
        base_url: "https://main.example".to_string(),
        token_ref: "main-ref".to_string(),
    }
}

#[test]
fn defaults_enable_every_role() {
    let config = SwarmConfig::defaults();
    assert_eq!(config.agents.len(), SubAgentRole::ALL.len());
    for role in SubAgentRole::ALL {
        assert!(config.is_enabled(role), "{role:?} should default enabled");
        assert!(config.get(role).inherits_provider());
    }
}

#[test]
fn missing_roles_are_filled_by_normalized() {
    let partial = SwarmConfig { agents: vec![SubAgentConfig::inherit(SubAgentRole::Memory)] };
    let full = partial.normalized();
    assert_eq!(full.agents.len(), SubAgentRole::ALL.len());
    for role in SubAgentRole::ALL {
        assert!(full.agents.iter().any(|agent| agent.role == role));
    }
}

#[test]
fn inherit_all_reuses_main_profile_and_token() {
    let resolved = ResolvedSwarm::inherit_all(&main_profile(), "main-token");
    for role in SubAgentRole::ALL {
        let agent = resolved.for_role(role).expect("role present");
        assert!(agent.inherits);
        assert_eq!(agent.token, "main-token");
        assert_eq!(agent.profile.model, "main-model");
    }
}

#[test]
fn model_only_override_keeps_main_token() {
    let mut config = SwarmConfig::defaults();
    config.set(SubAgentConfig {
        role: SubAgentRole::Summary,
        enabled: true,
        provider: String::new(),
        base_url: String::new(),
        model: "cheap-model".to_string(),
        system_prompt: String::new(),
        memory_scope: String::new(),
    });
    let mut secrets = MemorySecretStore::default();
    let app = AppConfig::default();
    let resolved = resolve_swarm(&main_profile(), "main-token", &config, &app, &mut secrets);
    let summary = resolved.for_role(SubAgentRole::Summary).expect("summary");
    assert_eq!(summary.profile.model, "cheap-model");
    assert_eq!(summary.token, "main-token");
    assert_eq!(summary.profile.provider, ProviderKind::OpenAiCompatible);
    assert!(!summary.inherits);
}

#[test]
fn persisted_disabled_role_is_forced_back_on() {
    let config = SwarmConfig {
        agents: vec![SubAgentConfig {
            role: SubAgentRole::Invariant,
            enabled: false,
            ..SubAgentConfig::inherit(SubAgentRole::Invariant)
        }],
    };
    let mut secrets = MemorySecretStore::default();
    let app = AppConfig::default();
    let resolved = resolve_swarm(&main_profile(), "main-token", &config, &app, &mut secrets);
    let invariant = resolved.for_role(SubAgentRole::Invariant).expect("mandatory role present");
    assert!(invariant.enabled);
    assert!(resolved.is_enabled(SubAgentRole::Invariant));
}

#[test]
fn another_provider_comes_with_its_own_token() {
    let mut config = SwarmConfig::defaults();
    config.set(SubAgentConfig {
        provider: "deepseek".to_string(),
        ..SubAgentConfig::inherit(SubAgentRole::Memory)
    });
    let app = AppConfig::default();

    let mut secrets = MemorySecretStore::default();
    secrets.set_token("deepseek", "deepseek-token").expect("set token");
    let resolved = resolve_swarm(&main_profile(), "main-token", &config, &app, &mut secrets);
    let memory = resolved.for_role(SubAgentRole::Memory).expect("memory");
    assert_eq!(memory.profile.provider, ProviderKind::DeepSeek);
    assert_eq!(memory.token, "deepseek-token");
    assert!(!memory.inherits);

    let mut empty = MemorySecretStore::default();
    let resolved = resolve_swarm(&main_profile(), "main-token", &config, &app, &mut empty);
    let memory = resolved.for_role(SubAgentRole::Memory).expect("memory");
    assert_eq!(memory.profile.provider, ProviderKind::OpenAiCompatible);
    assert_eq!(memory.token, "main-token");
    assert!(memory.inherits);
}

#[test]
fn a_store_that_errs_falls_back_to_the_main_agent() {
    let cfg = SubAgentConfig {
        provider: "deepseek".to_string(),
        system_prompt: " факты ".to_string(),
        ..SubAgentConfig::inherit(SubAgentRole::Memory)
    };
    let app = AppConfig::default();
    let memory = resolve_one(&cfg, &main_profile(), "main-token", &app, &mut BrokenStore);
    assert_eq!(memory.profile, main_profile());
    assert_eq!(memory.token, "main-token");
    assert_eq!(memory.system_prompt, "факты");
    assert!(memory.inherits);
    assert!(memory.enabled);
}

#[test]
fn the_main_token_is_not_sent_to_another_provider() {
    let main = ProfileConfig {
        provider: ProviderKind::Kimi,
        token_ref: "kimi".to_string(),
        ..main_profile()
    };
    let cfg = SubAgentConfig {
        provider: "deepseek".to_string(),
        ..SubAgentConfig::inherit(SubAgentRole::Memory)
    };
    let mut secrets = MemorySecretStore::default();
    secrets.set_token("kimi", "kimi-token").expect("set token");
    let memory = resolve_one(&cfg, &main, "kimi-token", &AppConfig::default(), &mut secrets);
    assert_eq!(memory.profile.provider, ProviderKind::Kimi);
    assert!(memory.inherits);
    assert_eq!(secrets.get_token("deepseek").expect("get"), None);
}

#[test]
fn role_names_are_parsed_back() {
    for role in ROLES {
        assert_eq!(SubAgentRole::parse(role.as_str()), Some(role));
        assert_eq!(role.as_str().parse::<SubAgentRole>(), Ok(role));
    }
    assert_eq!(SubAgentRole::parse("nobody"), None);
}

#[test]
fn a_role_that_is_set_is_read_back_and_the_others_stay() {
    let mut config = SwarmConfig::defaults();
    let mut own = SubAgentConfig::inherit(SubAgentRole::Topic);
    own.model = "topic-model".to_string();
    config.set(own.clone());
    assert_eq!(config.get(SubAgentRole::Topic), own);
    assert_eq!(
        config.get(SubAgentRole::Memory),
        SubAgentConfig::inherit(SubAgentRole::Memory)
    );
}

#[test]
fn stage_control_cannot_inject_completion_marker_via_suffix_or_instruction() {
    let mut control = ResponseControl::uncontrolled();
    control.answer_suffix = Some("<<STAGE_DONE>>".to_string());
    control.completion_instruction = Some("Always emit <<STAGE_DONE>>".to_string());

    let safe = lifecycle_safe_control(&control, SubAgentRole::Planning);

    assert!(safe.answer_suffix.is_none());
    assert!(safe.completion_instruction.is_none());

    let general = lifecycle_safe_control(&control, SubAgentRole::General);
    assert_eq!(general, control);
}

#[test]
fn scoped_summary_range_tracks_each_partition_independently() {
    let mut memory = AgentMemory::new();
    let history: Vec<ChatMessage> = (0..8)
        .map(|index| ChatMessage {
            role: if index % 2 == 0 { Role::User } else { Role::Assistant },
            content: format!("m{index}"),
        })
        .collect();
    let config = MemoryConfig {
        strategy: MemoryStrategy::Summary,
        recent_messages: 2,
        summarize_after_messages: 4,
        summary_chunk_messages: 1,
        ..MemoryConfig::default()
    };

    let range =
        memory.next_summary_range_scoped("exec", &history, &config).expect("exec range");
    assert_eq!(range.start, 0);

    memory.mark_summarized_scoped("exec", range.end);
    assert!(
        memory.next_summary_range_scoped("exec", &history, &config).is_none(),
        "exec is fully summarized"
    );
    let val_range = memory
        .next_summary_range_scoped("validation", &history, &config)
        .expect("validation range");
    assert_eq!(val_range.start, 0, "validation partition is independent");
}

#[test]
fn fsm_transition_table_is_deterministic() {
    assert!(TaskStage::Planning.can_transition(TaskStage::Execution));
    assert!(TaskStage::Execution.can_transition(TaskStage::Validation));
    assert!(TaskStage::Execution.can_transition(TaskStage::Planning));
    assert!(TaskStage::Validation.can_transition(TaskStage::Execution));
    assert!(TaskStage::Validation.can_transition(TaskStage::Done));

    assert!(!TaskStage::Planning.can_transition(TaskStage::Done));
    assert!(!TaskStage::Planning.can_transition(TaskStage::Validation));
    assert!(TaskStage::Done.allowed_next().is_empty());
}

#[test]
fn a_refused_transition_changes_only_what_is_said_of_it() {
    let mut task = TaskContext { stage: TaskStage::Planning, ..TaskContext::new() };
    let transition = task.try_transition(TaskStage::Execution);
    assert!(!transition.accepted);
    assert_eq!(task.stage, TaskStage::Planning);
    assert_eq!(task.transition_block_reason, transition.reason);
    assert!(!transition.reason.is_empty());
}

#[test]
fn specialized_agents_get_private_memory_by_default() {
    assert_eq!(effective_memory_scope(SubAgentRole::Execution, ""), "execution");
    assert_eq!(effective_memory_scope(SubAgentRole::Execution, " exec "), "exec");
    assert_eq!(effective_memory_scope(SubAgentRole::Execution, "Shared"), "");
    assert_eq!(effective_memory_scope(SubAgentRole::Execution, "общая"), "");
    assert_eq!(effective_memory_scope(SubAgentRole::Validation, ""), "validation");

    let mut memory = AgentMemory::new();
    MemoryAgent::learn(
        &mut memory,
        &effective_memory_scope(SubAgentRole::Execution, ""),
        &None,
        &vec![fact("goal", "выпустить релиз")],
    );
    assert!(!memory.facts.contains_key("goal"));
    let execution = memory.partition("execution").expect("execution partition");
    assert_eq!(execution.facts.get("goal").map(String::as_str), Some("выпустить релиз"));
}

#[test]
fn general_agent_defaults_to_the_shared_main_memory() {
    let scope = effective_memory_scope(SubAgentRole::General, "");
    assert_eq!(scope, "");
    let mut memory = AgentMemory::new();
    MemoryAgent::learn(&mut memory, &scope, &None, &vec![fact("goal", "выпустить релиз")]);
    assert!(memory.facts.contains_key("goal"));
    assert!(memory.partition("general").is_none());
}

#[test]
fn each_agent_writes_to_its_own_private_memory_partition() {
    let mut config = SwarmConfig::defaults();
    config.set(SubAgentConfig {
        role: SubAgentRole::Execution,
        memory_scope: "exec".to_string(),
        ..SubAgentConfig::inherit(SubAgentRole::Execution)
    });
    let setup = RequestSetup {
        roster: resolve_swarm(
            &main_profile(),
            "secret",
            &config,
            &AppConfig::default(),
            &mut MemorySecretStore::default(),
        ),
        main_profile: main_profile(),
        main_token: "secret".to_string(),
        control: ResponseControl::uncontrolled(),
        pricing: None,
        billing: None,
    };
    let mut memory = AgentMemory::new();
    MemoryAgent::learn(
        &mut memory,
        &setup.scope_for(SubAgentRole::Execution),
        &None,
        &vec![fact("goal", "выпустить релиз в пятницу")],
    );
    let exec = memory.partition("exec").expect("exec partition exists");
    assert!(exec.facts.contains_key("goal"));
    assert!(!memory.facts.contains_key("goal"));
    assert!(memory.partition("validation").is_none());
}

#[test]
fn facts_of_a_reply_go_before_facts_found_by_code() {
    let mut memory = AgentMemory::new();
    MemoryAgent::learn(
        &mut memory,
        "",
        &Some(vec![fact("city", "Рим")]),
        &vec![fact("goal", "отпуск")],
    );
    assert!(memory.facts.contains_key("city"));
    assert!(!memory.facts.contains_key("goal"));
}

#[test]
fn facts_keep_their_layer() {
    let layered = |value: &str, layer: Option<&str>| Fact {
        layer: layer.map(str::to_string),
        ..fact("city", value)
    };
    let mut memory = AgentMemory::new();
    for scope in ["", "exec"] {
        let first = vec![layered("Рим", Some("long-term")), fact("goal", "отпуск")];
        MemoryAgent::learn(&mut memory, scope, &Some(first), &Vec::new());
        MemoryAgent::learn(&mut memory, scope, &Some(vec![layered("Берлин", None)]), &Vec::new());
    }
    assert_eq!(memory.facts.get("city").map(String::as_str), Some("Берлин"));
    assert_eq!(memory.fact_layers.get("city").map(String::as_str), Some("long-term"));
    assert_eq!(memory.fact_layers.get("goal"), None);
    let exec = memory.partition("exec").expect("exec partition");
    assert_eq!(exec.fact_layers.get("city").map(String::as_str), Some("long-term"));
}

#[test]
fn known_facts_are_shown_as_json() {
    let mut memory = AgentMemory::new();
    memory.merge_shared_facts(&vec![fact("goal", "отпуск \"у моря\""), fact("city", "Рим")]);
    let question = MemoryAgent::question(&memory, "", "Едем завтра");
    assert!(
        question.starts_with(
            "Existing facts JSON:\n{\"city\":\"Рим\",\"goal\":\"отпуск \\\"у моря\\\"\"}\n\nLatest user message:\nЕдем завтра\n\n"
        ),
        "got {question:?}"
    );
    let private = MemoryAgent::question(&memory, "exec", "Едем завтра");
    assert!(private.starts_with("Existing facts JSON:\nnull\n\n"));
}

#[test]
fn old_messages_are_summed_up_once() {
    let mut memory = AgentMemory::new();
    let history: Vec<ChatMessage> = (0..8)
        .map(|index| ChatMessage { role: Role::User, content: format!("m{index}") })
        .collect();
    let config = MemoryConfig {
        strategy: MemoryStrategy::Summary,
        recent_messages: 2,
        summarize_after_messages: 4,
        summary_chunk_messages: 1,
        ..MemoryConfig::default()
    };
    let range = SummaryAgent::range(&memory, &history, &config, "").expect("range");
    assert_eq!((range.start, range.end), (0, 6));
    let question =
        SummaryAgent::question(&mut memory, "", range, "user: m0", &config).expect("question");
    assert_eq!(question.system_prompt, DEFAULT_SUMMARY_PROMPT);
    assert!(question.user_content.contains("user: m0"));
    let range = SummaryAgent::range(&memory, &history, &config, "").expect("range");
    assert!(!SummaryAgent::store(&mut memory, "", range, Some("  ")));
    let range = SummaryAgent::range(&memory, &history, &config, "").expect("range");
    assert!(SummaryAgent::store(&mut memory, "", range, Some(" итог ")));
    assert_eq!(memory.session_summary.as_deref(), Some("итог"));
    assert_eq!(memory.summarized_message_count, 6);
    assert!(SummaryAgent::range(&memory, &history, &config, "").is_none());
}

#[test]
fn a_profile_takes_what_the_user_said_and_nothing_sensitive() {
    let mut profile = AgentProfile {
        fields: vec![
            ProfileField {
                key: "name".to_string(),
                question: "Как вас зовут?".to_string(),
                required: true,
                value: String::new(),
            },
            ProfileField {
                key: "passport".to_string(),
                question: "Номер паспорта?".to_string(),
                required: false,
                value: String::new(),
            },
        ],
        updated_at_unix: 1,
    };
    let question = ProfileAgent::question(&profile, "Я Ада").expect("question");
    assert!(question.contains("- name (question: Как вас зовут?)"));
    assert!(question.contains("Я Ада"));
    let update = |key: &str, value: &str, sensitive: bool| ProfileUpdate {
        key: key.to_string(),
        value: value.to_string(),
        sensitive,
    };
    ProfileAgent::fill(&mut profile, &vec![update("passport", "1234", true)], 5);
    assert_eq!(profile.updated_at_unix, 1);
    ProfileAgent::fill(
        &mut profile,
        &vec![update("name", " Ада ", false), update("unknown", "x", false)],
        9,
    );
    assert_eq!(profile.fields[0].value, "Ада");
    assert_eq!(profile.fields[1].value, "");
    assert_eq!(profile.updated_at_unix, 9);
    assert!(profile.pending_questions().is_empty());
}

#[test]
fn a_message_is_routed_to_a_topic_of_the_catalog() {
    let config = MemoryConfig {
        strategy: MemoryStrategy::ScopedBranches,
        topic_file_routing: true,
        topic_classifier_prompt: String::new(),
        topic_auto_create: false,
        ..MemoryConfig::default()
    };
    assert!(TopicAgent::keeps_topic_file(&config));
    assert!(!TopicAgent::keeps_topic_file(&MemoryConfig::default()));
    let mut memory = AgentMemory::new();
    assert_eq!(
        TopicAgent::begin(&config, &memory, "", "Привет"),
        TopicStep::NotFound { reason: "topic catalog is empty".to_string() }
    );
    memory.topic_catalog.insert("rust".to_string(), "язык".to_string());
    match TopicAgent::begin(&config, &memory, "- rust: язык", "Привет") {
        TopicStep::Ask { system_prompt, user_content } => {
            assert_eq!(system_prompt, DEFAULT_TOPIC_CLASSIFIER_PROMPT);
            assert_eq!(
                user_content,
                "- rust: язык\n\nLatest user message:\nПривет\n\nReturn the JSON route decision only."
            );
        }
        other => panic!("expected a question, got {other:?}"),
    }
    let decision = |topic: &str| TopicRouteDecision {
        found: true,
        topic_id: Some(topic.to_string()),
        confidence: Float32 { bits: 0.9f32.to_bits() },
        reason: "match".to_string(),
    };
    assert_eq!(
        TopicAgent::finish(&mut memory, Some(decision("rust")), false),
        TopicRoute::Activate { topic_id: "rust".to_string() }
    );
    assert_eq!(memory.last_topic_route, Some(decision("rust")));
    assert_eq!(
        TopicAgent::finish(&mut memory, Some(decision("go")), true),
        TopicRoute::CreateTopic
    );
    assert_eq!(
        TopicAgent::finish(&mut memory, Some(decision("go")), false),
        TopicRoute::NotFound { reason: "match".to_string() }
    );
    assert_eq!(
        TopicAgent::finish(&mut memory, None, true),
        TopicRoute::NotFound { reason: "classifier did not return a route".to_string() }
    );
    assert_eq!(memory.last_topic_route, Some(decision("go")));
    assert_eq!(
        TopicAgent::finish(&mut memory, Some(TopicAgent::unreadable()), false),
        TopicRoute::NotFound { reason: "classifier response was not valid JSON".to_string() }
    );
    let mut config = config;
    assert!(!TopicAgent::activate(&mut config, "  "));
    assert!(TopicAgent::activate(&mut config, " rust "));
    assert_eq!(config.active_branch, "rust");
    let reply = short_circuit("Тема не найдена".to_string(), None);
    assert!(reply.short_circuit);
    assert_eq!(reply.answer.as_deref(), Some("Тема не найдена"));
}

#[test]
fn only_a_marker_at_the_end_on_its_own_line_completes_a_stage() {
    let (text, complete, _) = strip_stage_marker("Готово.\n<<STAGE_DONE>>");
    assert_eq!(text, "Готово.");
    assert!(complete);
    let (_, complete, _) = strip_stage_marker("Готово: <<STAGE_DONE>>");
    assert!(!complete);
    let (text, complete, _) = strip_stage_marker("Думаю дальше");
    assert_eq!(text, "Думаю дальше");
    assert!(!complete);
    assert!(stage_rules(SubAgentRole::Planning).expect("rules").contains(STAGE_DONE_MARKER));
    assert_eq!(stage_rules(SubAgentRole::General), None);
    let silent = responder_outcome(SubAgentRole::Planning, None);
    assert!(!silent.stage_complete);
    let general = responder_outcome(
        SubAgentRole::General,
        Some(("Готово.\n<<STAGE_DONE>>".to_string(), metrics())),
    );
    assert!(!general.stage_complete);
}

#[test]
fn records_say_whether_an_agent_ran() {
    let ran = service_record(SubAgentRole::Memory, "m", Some(metrics()));
    assert!(ran.ran);
    assert_eq!(ran.note, "");
    let failed = service_record(SubAgentRole::Memory, "m", None);
    assert!(!failed.ran);
    assert_eq!(failed.note, "no response");
    let silent = responder_record(SubAgentRole::General, "m", None);
    assert!(!silent.ran);
    assert_eq!(silent.note, "responder error");
    let fresh = SwarmRunRecord::new(SubAgentRole::Topic, "m");
    assert!(!fresh.ran);
    for role in ROLES {
        let _ = default_role_prompt(role);
    }
}

#[test]
fn confirmations_are_told_from_edits_and_lookalikes() {
    let plan = TaskPauseReason::PlanApproval;
    let said = |prompt: &str| normalize_control_intent(prompt);
    assert!(explicit_approval_intent(&said("Ок, поехали!"), plan));
    assert!(explicit_approval_intent(&said("да, давай продолжай"), plan));
    assert!(!explicit_approval_intent(&said("Какой срок указать?"), plan));
    assert!(!explicit_approval_intent(&said("нет, исправь второй пункт"), plan));
    let stage = TaskPauseReason::StageApproval;
    assert!(!explicit_approval_intent(&said("да"), stage));
    assert!(!explicit_approval_intent(&said("хорошо"), stage));
    assert!(!explicit_approval_intent(&said("Ок, поехали!"), stage));
    assert!(!explicit_approval_intent(&said("утверждаю план"), stage));
    assert!(explicit_approval_intent(&said("ок"), stage));
    assert!(explicit_approval_intent(&said("Утверждаю результат."), stage));
    assert!(pause_intent(&said("Поставь задачу на паузу")));
    assert!(!pause_intent(&said("Дальше")));
    assert!(resume_intent(&said("продолжай")));
    assert!(!resume_intent(&said("хм")));
    assert!(step_back_intent(&said("Стоп, вернись на шаг назад")));
    assert!(!step_back_intent(&said("Дальше")));
    assert!(step_back_intent(&said("передумал, обратно к плану реализации")));
    assert!(!step_back_intent(&said("я не передумал")));
    assert!(!step_back_intent(&said("не делай шаг назад")));
    assert!(!step_back_intent(&said("сделай шаг вперёд, назад не надо")));
    assert!(!step_back_intent(&said("передумали другие")));
}

#[test]
fn control_phrases_are_read_without_case_and_punctuation() {
    assert_eq!(normalize_control_intent("  ОК,   Поехали! "), "ок поехали");
    assert_eq!(normalize_control_intent("Ёлка-2"), "ёлка 2");
}

#[test]
fn a_request_for_a_later_stage_is_rejected() {
    let task = TaskContext { stage: TaskStage::Planning, ..TaskContext::new() };
    assert!(lifecycle_request_rejection(&task, Some(TaskStage::Execution)).is_some());
    assert!(lifecycle_request_rejection(&task, Some(TaskStage::Planning)).is_none());
    assert!(lifecycle_request_rejection(&task, None).is_none());
}

#[test]
fn a_completed_plan_waits_for_approval() {
    let mut task = TaskContext { stage: TaskStage::Planning, ..TaskContext::new() };
    let answer = "1. Собрать документы\n- Проверить сроки\n\nИтог";
    let transition =
        apply_stage_completion(&mut task, true, Some(pair("plan", answer)));
    let transition = transition.expect("transition");
    assert!(transition.accepted);
    assert_eq!((transition.from, transition.to), (TaskStage::Planning, TaskStage::Planning));
    assert!(task.paused);
    assert_eq!(task.pause_reason, TaskPauseReason::PlanApproval);
    assert_eq!(task.plan, plan_lines(answer));
    assert_eq!(task.artifacts, vec![TaskArtifact {
        stage: TaskStage::Planning,
        key: "plan".to_string(),
        value: answer.to_string(),
    }]);
}

#[test]
fn plan_lines_lose_their_marks() {
    assert_eq!(
        plan_lines("1. Собрать документы\n- Проверить сроки\n\nИтог"),
        texts(&["Собрать документы", "Проверить сроки", "Итог"])
    );
}

#[test]
fn responders_follow_stages() {
    assert_eq!(stage_responder_role(TaskStage::Clarify), SubAgentRole::Planning);
    assert_eq!(stage_responder_role(TaskStage::Planning), SubAgentRole::Planning);
    assert_eq!(stage_responder_role(TaskStage::Execution), SubAgentRole::Execution);
    assert_eq!(stage_responder_role(TaskStage::Validation), SubAgentRole::Validation);
    assert_eq!(stage_responder_role(TaskStage::Done), SubAgentRole::Done);
    let orchestrator = SwarmOrchestrator::new();
    match orchestrator.responder(SubAgentRole::Validation) {
        Responder::Stage(agent) => assert_eq!(agent.role, SubAgentRole::Validation),
        Responder::General(_) => panic!("validation is a stage"),
    }
    assert!(matches!(orchestrator.responder(SubAgentRole::General), Responder::General(_)));
}

#[test]
fn only_violations_block() {
    let invariants = texts(&["Без RxJava"]);
    let failed = InvariantAgent::check(&invariants, "RxJava", invariants.clone(), &Vec::new());
    assert_eq!(failed.invariant_status, InvariantCheckStatus::Failed);
    assert_eq!(failed.violations, invariants);
    let unknown = InvariantAgent::check(&invariants, "Rust", Vec::new(), &invariants);
    assert_eq!(unknown.invariant_status, InvariantCheckStatus::Advisory);
    let passed = InvariantAgent::check(&invariants, "Rust", Vec::new(), &Vec::new());
    assert_eq!(passed.invariant_status, InvariantCheckStatus::Passed);

    assert_eq!(invariant_status_label(InvariantCheckStatus::Failed), "blocked");
    assert_eq!(invariant_status_label(InvariantCheckStatus::Passed), "pass");
    assert_eq!(invariant_status_label(InvariantCheckStatus::Advisory), "advisory");
    assert_eq!(
        judge(InvariantCheckStatus::Failed, true, false),
        InvariantCheckStatus::Passed
    );
    assert_eq!(judge(InvariantCheckStatus::Passed, true, true), InvariantCheckStatus::Failed);
    assert!(invariant_summary(InvariantCheckStatus::Passed, &invariants, &Vec::new())
        .contains("PASS"));
    let refusal = build_invariant_refusal(&invariants);
    assert!(refusal.contains("Не могу выполнить эту часть запроса"));
    assert!(refusal.contains("Без RxJava"));
}

#[test]
fn a_cleaned_answer_no_longer_invents_norms() {
    let invariants = texts(&["Не выдумывать нормы права.", "Без RxJava"]);
    let left = local_invariant_violations_after_sanitize(&invariants, invariants.clone(), true);
    assert!(left.contains(&"Без RxJava".to_string()));
    let kept = local_invariant_violations_after_sanitize(&invariants, invariants.clone(), false);
    assert_eq!(kept, invariants);
}

#[test]
fn evidence_is_what_the_user_said() {
    let history = vec![
        ChatMessage { role: Role::User, content: "Долг 180".to_string() },
        ChatMessage { role: Role::Assistant, content: "Понял".to_string() },
    ];
    assert_eq!(user_evidence_context(&history, "Акт есть"), "Долг 180\nАкт есть");
}

#[test]
fn layers_stand_before_the_conversation() {
    let none: Vec<String> = Vec::new();
    let rules = texts(&["Без RxJava"]);
    let outputs: Vec<TaskArtifact> = Vec::new();
    let layers = PromptLayers {
        domain: "Ты юрист.",
        profile_block: None,
        task: None,
        worker_outputs: &outputs,
        invariants: &rules,
        retry_violations: &none,
        user_block: None,
    };
    let context = vec![ChatMessage { role: Role::Assistant, content: "раньше".to_string() }];
    let messages = PromptBuilder::build(context, &layers, None, "вопрос");
    let place = |text: &str| {
        messages.iter().position(|message| message.content.contains(text)).expect("message")
    };
    assert!(place("Ты юрист.") < place("раньше"));
    assert!(place("Без RxJava") < place("раньше"));
    assert!(place(OUTPUT_POLICY) < place("раньше"));
    assert_eq!(place("вопрос"), messages.len() - 1);
}

#[test]
fn legal_facts_are_found_in_prompts() {
    assert_eq!(
        sentence_with("Привет. Оплата в течение 5 дней! Пока.", &["оплат"]),
        Some("Оплата в течение 5 дней".to_string())
    );
    assert_eq!(
        value_after_label("Адрес: Москва, 1.", "адрес: москва, 1.", "адрес"),
        Some("Москва, 1".to_string())
    );
    let facts = extract_legal_task_facts("Заказчик ООО «Ромашка», акт подписан.").expect("facts");
    assert!(facts.contains(&pair("debtor_type", "ООО")));
    let mut results = texts(&["старое"]);
    capture_task_facts(&mut results, &vec![pair("debtor_type", "ООО")]);
    capture_task_facts(&mut results, &vec![pair("debtor_type", "ООО")]);
    assert_eq!(results, texts(&["старое", "debtor_type: ООО"]));
}
