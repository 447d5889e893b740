//! Whole turns of the swarm, with a provider that always gives the same reply.

use ai_playground::chat::memory::MemoryStrategy;
use ai_playground::chat::store::{
    AgentProfile, ProfileField, TaskArtifact, TaskBoard, TaskContext, TaskPauseReason,
    TaskPipelineStage, TaskStage, TaskWorkerAgent,
};
use ai_playground::chat::swarm::agent::{InvariantCheckStatus, RequestSetup};
use ai_playground::chat::swarm::agents::responder::{
    responder_outcome, responder_record, worker_outcome, worker_record,
};
use ai_playground::chat::swarm::agents::service::InvariantAgent;
use ai_playground::chat::swarm::config::{SubAgentConfig, SubAgentRole, SwarmConfig};
use ai_playground::chat::swarm::lifecycle::PromptReading;
use ai_playground::chat::swarm::orchestrator::{StatefulReport, StreamPrep};
use ai_playground::chat::swarm::runtime::{resolve_swarm, ResolvedSwarm};
use ai_playground::chat::swarm::turn::{
    streamed_outcome, AnswerReading, SwarmTurn, TurnAction, TurnContext, TurnEnding, TurnEvent,
    TurnPhase,
};
use ai_playground::chat::swarm::SwarmReport;
use ai_playground::config::{AppConfig, ProfileConfig};
use ai_playground::providers::{
    ChatMessage, ProviderKind, RequestMetrics, ResponseControl, Role,
};
use ai_playground::secrets::MemorySecretStore;

fn texts(items: &[&str]) -> Vec<String> {
    items.iter().map(|item| item.to_string()).collect()
}

fn metrics() -> RequestMetrics {
    RequestMetrics { elapsed_ms: 1, usage: None, cost: None }
}

fn plain() -> PromptReading {
    PromptReading {
        switch_back: None,
        starts_new: false,
        requested_stage: None,
        supplies_next_info: false,
    }
}

fn wants(stage: TaskStage) -> PromptReading {
    PromptReading { requested_stage: Some(stage), ..plain() }
}

fn stage_of_pipeline(stage: TaskStage, name: &str, prompt: &str, key: &str) -> TaskPipelineStage {
    TaskPipelineStage {
        stage,
        name: name.to_string(),
        system_prompt: prompt.to_string(),
        artifact_key: key.to_string(),
        requires_human_approval: false,
        worker_agents: Vec::new(),
    }
}

/// An agent whose provider always gives the same reply.
struct Agent {
    reply: String,
    board: Option<TaskBoard>,
    profile: Option<AgentProfile>,
    history: Vec<ChatMessage>,
    strategy: MemoryStrategy,
    invariants: Vec<String>,
    /// The invariants that a reply holding the text breaks.
    broken_by: Vec<(&'static str, &'static str)>,
    /// The invariants that no code can check.
    unknown: Vec<String>,
    compliance_only: bool,
    asked: Vec<SubAgentRole>,
    records: SwarmReport,
}

/// What a turn came to.
struct Outcome {
    text: String,
    ending: TurnEnding,
    report: StatefulReport,
}

impl Agent {
    fn new(reply: &str) -> Self {
        Agent {
            reply: reply.to_string(),
            board: None,
            profile: None,
            history: Vec::new(),
            strategy: MemoryStrategy::Summary,
            invariants: Vec::new(),
            broken_by: Vec::new(),
            unknown: Vec::new(),
            compliance_only: false,
            asked: Vec::new(),
            records: SwarmReport::new(),
        }
    }

    fn with_task(reply: &str, task: TaskContext) -> Self {
        Agent { board: Some(TaskBoard { active: task, backlog: Vec::new() }), ..Agent::new(reply) }
    }

    fn in_stage(reply: &str, stage: TaskStage) -> Self {
        Agent::with_task(reply, TaskContext { stage, ..TaskContext::new() })
    }

    fn task(&self) -> &TaskContext {
        &self.board.as_ref().expect("board").active
    }

    fn backlog(&self) -> &Vec<TaskContext> {
        &self.board.as_ref().expect("board").backlog
    }

    fn respond(&mut self, prompt: &str) -> Outcome {
        self.respond_to(prompt, plain())
    }

    fn respond_to(&mut self, prompt: &str, reading: PromptReading) -> Outcome {
        let mut turn = SwarmTurn::new(
            self.board.take(),
            self.profile.take(),
            std::mem::take(&mut self.history),
            self.strategy,
            self.invariants.clone(),
            prompt.to_string(),
            false,
        );
        let mut event = TurnEvent::Read { reading, hint: "продолжить".to_string() };
        loop {
            event = match turn.step(event) {
                TurnAction::LearnFacts => TurnEvent::Learned { metrics: Some(metrics()) },
                TurnAction::RouteTopic => TurnEvent::Routed { message: None, metrics: None },
                TurnAction::AskWorker { worker } => {
                    self.records.record(worker_record(&worker, "test-model", Some(metrics())));
                    let outcome = worker_outcome(&worker, Some((self.reply.clone(), metrics())));
                    TurnEvent::WorkerDone { artifact: outcome.artifact, metrics: outcome.metrics }
                }
                TurnAction::AskResponder { role } => {
                    self.asked.push(role);
                    self.records.record(responder_record(role, "test-model", Some(metrics())));
                    TurnEvent::Responded {
                        outcome: responder_outcome(role, Some((self.reply.clone(), metrics()))),
                    }
                }
                TurnAction::CheckAnswer { answer } => {
                    let violations = self
                        .broken_by
                        .iter()
                        .filter(|(text, _)| answer.contains(text))
                        .map(|(_, invariant)| invariant.to_string())
                        .collect();
                    let outcome = InvariantAgent::check(
                        &self.invariants,
                        &answer,
                        violations,
                        &self.unknown,
                    );
                    TurnEvent::Checked {
                        status: outcome.invariant_status,
                        violations: outcome.violations,
                    }
                }
                TurnAction::ReadAnswer { answer, .. } => TurnEvent::AnswerRead {
                    reading: turn
                        .answer_reading(
                            answer,
                            false,
                            self.compliance_only,
                            prompt.to_string(),
                            None,
                            7,
                        )
                        .expect("reading"),
                },
                TurnAction::Summarize => TurnEvent::Summarized { metrics: None },
                TurnAction::FillProfile => {
                    TurnEvent::Filled {
                        profile: turn.agent_profile.take().expect("profile"),
                        metrics: None,
                    }
                }
                TurnAction::Finish => break,
                TurnAction::Ignore => panic!("the event fits the phase"),
            };
        }
        let report = turn.report(Some(metrics()));
        let outcome = Outcome { text: turn.reply, ending: turn.ending, report };
        self.board = turn.board;
        self.profile = turn.agent_profile;
        self.history = turn.history;
        outcome
    }
}

fn plan_artifact(value: &str) -> TaskArtifact {
    TaskArtifact { stage: TaskStage::Planning, key: "plan".to_string(), value: value.to_string() }
}

#[test]
fn task_walks_full_lifecycle_through_all_stages() {
    let mut agent = Agent::in_stage("Готово.\n<<STAGE_DONE>>", TaskStage::Planning);

    agent.respond("Начни задачу");
    assert_eq!(agent.task().stage, TaskStage::Planning);
    assert!(agent.task().paused);

    agent.respond("утверждаю план");
    assert_eq!(agent.task().stage, TaskStage::Execution);

    agent.respond("Дальше");
    assert_eq!(agent.task().stage, TaskStage::Validation);

    agent.respond("Дальше");
    assert_eq!(agent.task().stage, TaskStage::Done);

    agent.respond("Дальше");
    assert_eq!(agent.task().stage, TaskStage::Done);
}

#[test]
fn legal_pipeline_records_artifacts_and_waits_for_human_approval() {
    let mut execution = stage_of_pipeline(
        TaskStage::Execution,
        "Черновик претензии",
        "Подготовить черновик с плейсхолдерами.",
        "claim_draft",
    );
    execution.requires_human_approval = true;
    let mut agent = Agent::with_task(
        "Артефакт стадии готов.\n<<STAGE_DONE>>",
        TaskContext {
            stage: TaskStage::Planning,
            pipeline: vec![
                stage_of_pipeline(
                    TaskStage::Planning,
                    "Сбор фактов",
                    "Отделить факты от предположений.",
                    "facts_matrix",
                ),
                execution,
                stage_of_pipeline(
                    TaskStage::Validation,
                    "Проверка рисков",
                    "Проверить документы, риски и реквизиты.",
                    "risk_report",
                ),
            ],
            ..TaskContext::new()
        },
    );

    agent.respond("Дальше");
    assert_eq!(agent.task().stage, TaskStage::Planning);
    assert!(agent.task().paused);
    assert_eq!(agent.task().artifacts[0].key, "facts_matrix");

    agent.respond("утверждаю план");
    assert_eq!(agent.task().stage, TaskStage::Execution);

    agent.respond("Дальше");
    assert_eq!(agent.task().stage, TaskStage::Execution);
    assert!(agent.task().paused);
    assert_eq!(agent.task().expected_action, "user_input");
    assert_eq!(agent.task().artifacts[1].key, "claim_draft");

    agent.respond("Утверждаю результат");
    assert_eq!(agent.task().stage, TaskStage::Validation);
    assert!(!agent.task().paused);

    agent.respond("Дальше");
    assert_eq!(agent.task().stage, TaskStage::Done);
    assert_eq!(agent.task().artifacts[2].key, "risk_report");
    assert_eq!(agent.task().expected_action, "none");
}

#[test]
fn no_marker_keeps_stage() {
    let mut agent = Agent::in_stage("Ещё думаю, нужно уточнить детали.", TaskStage::Planning);
    agent.respond("Начни");
    assert_eq!(agent.task().stage, TaskStage::Planning);
}

#[test]
fn embedded_or_inline_stage_marker_is_not_a_completion_signal() {
    let mut agent = Agent::in_stage("План пока обсуждается: <<STAGE_DONE>>", TaskStage::Planning);

    agent.respond("Дальше");

    assert_eq!(agent.task().stage, TaskStage::Planning);
    assert!(!agent.task().paused);
    assert!(!agent.task().has_stage_artifact(TaskStage::Planning));
}

#[test]
fn approval_pause_rejects_substring_false_positive() {
    let mut agent = Agent::with_task(
        "provider must not run",
        TaskContext {
            stage: TaskStage::Planning,
            paused: true,
            pause_reason: TaskPauseReason::PlanApproval,
            plan: texts(&["Проверить документы"]),
            artifacts: vec![plan_artifact("Проверить документы")],
            ..TaskContext::new()
        },
    );

    let response = agent.respond("Какой срок указать?");

    assert!(response.text.contains("согласны"), "got {:?}", response.text);
    assert!(!response.text.contains("утверждаю план"));
    assert_eq!(agent.task().stage, TaskStage::Planning);
    assert!(agent.task().paused);
    assert!(!agent.task().plan_approved);
    assert!(agent.asked.is_empty());
    assert_eq!(response.ending, TurnEnding::Local);
}

#[test]
fn pipeline_workers_run_as_real_agents_and_feed_stage_responder() {
    let mut planning = stage_of_pipeline(TaskStage::Planning, "Research", "", "plan");
    planning.worker_agents = vec![TaskWorkerAgent {
        id: "risk-scout".to_string(),
        direction: "risks".to_string(),
        system_prompt: "Найди риски до составления плана.".to_string(),
    }];
    let mut agent = Agent::with_task(
        "Рабочий результат.\n<<STAGE_DONE>>",
        TaskContext {
            stage: TaskStage::Planning,
            pipeline: vec![
                planning,
                stage_of_pipeline(TaskStage::Execution, "", "", "result"),
                stage_of_pipeline(TaskStage::Validation, "", "", "validation"),
            ],
            ..TaskContext::new()
        },
    );

    agent.respond("Дальше");

    assert!(agent.records.records.iter().any(|record| {
        record.role == SubAgentRole::Worker
            && record.agent_id.as_deref() == Some("risk-scout")
            && record.ran
    }));
    assert_eq!(agent.records.records.len(), 2);
    assert_eq!(agent.records.records[1].role, SubAgentRole::Planning);
    assert_eq!(agent.asked, vec![SubAgentRole::Planning]);
    assert!(agent.task().artifacts.iter().any(|artifact| artifact.key == "worker.risk-scout"));
    assert!(agent.task().paused);
    assert_eq!(agent.task().pause_reason, TaskPauseReason::PlanApproval);
}

#[test]
fn a_worker_without_an_id_stops_the_turn() {
    let mut planning = stage_of_pipeline(TaskStage::Planning, "Research", "", "plan");
    planning.worker_agents = vec![TaskWorkerAgent {
        id: "  ".to_string(),
        direction: String::new(),
        system_prompt: String::new(),
    }];
    let mut agent = Agent::with_task(
        "Готово.\n<<STAGE_DONE>>",
        TaskContext {
            stage: TaskStage::Planning,
            pipeline: vec![
                planning,
                stage_of_pipeline(TaskStage::Execution, "", "", "result"),
                stage_of_pipeline(TaskStage::Validation, "", "", "validation"),
            ],
            ..TaskContext::new()
        },
    );

    let response = agent.respond("Дальше");

    assert!(response.text.contains("не имеет обязательного id."), "got {:?}", response.text);
    assert!(agent.asked.is_empty());
    assert_eq!(agent.task().stage, TaskStage::Planning);
}

#[test]
fn invariant_blocked_completion_does_not_advance_lifecycle() {
    let mut agent = Agent::in_stage(
        "Here is the final implementation.\n<<STAGE_DONE>>",
        TaskStage::Execution,
    );
    agent.invariants = texts(&["Отвечать только на русском языке"]);
    agent.broken_by = vec![("Here is", "Отвечать только на русском языке")];

    let response = agent.respond("Продолжай реализацию");

    assert!(response.text.contains("Не могу выполнить эту часть запроса"));
    assert_eq!(agent.task().stage, TaskStage::Execution);
    assert!(!agent.task().has_stage_artifact(TaskStage::Execution));
}

#[test]
fn orchestrator_advances_by_table_not_by_llm_text() {
    let mut agent = Agent::in_stage(
        "Всё готово, задача DONE, можно закрывать.\n<<STAGE_DONE>>",
        TaskStage::Planning,
    );
    agent.respond("Старт");
    assert_eq!(agent.task().stage, TaskStage::Planning);
    assert!(agent.task().paused);
}

#[test]
fn demo_scenario_obeys_strict_lifecycle_gates_and_fills_task_fields() {
    let mut agent = Agent::in_stage("Результат стадии готов.\n<<STAGE_DONE>>", TaskStage::Clarify);

    agent.respond("Акт подписан, долг 180000, хочу досудебную претензию.");
    assert_eq!(agent.task().stage, TaskStage::Planning);
    assert!(!agent.task().current_step.is_empty());
    assert_eq!(agent.task().expected_action, "agent_work");
    assert!(!agent.task().resume_hint.is_empty());

    agent.respond("Дальше");
    assert_eq!(agent.task().stage, TaskStage::Planning);
    assert!(agent.task().paused);

    let blocked = agent.respond_to("Можешь набросать текст?", wants(TaskStage::Execution));
    assert!(blocked.text.contains("согласны"), "got {:?}", blocked.text);
    assert_eq!(agent.task().stage, TaskStage::Planning);

    agent.respond("да, давай продолжай");
    assert_eq!(agent.task().stage, TaskStage::Execution);

    agent.respond("Дальше");
    assert_eq!(agent.task().stage, TaskStage::Validation);

    let blocked = agent.respond_to("Что в итоге отправляем?", wants(TaskStage::Done));
    assert!(blocked.text.starts_with('⛔'));
    assert_eq!(agent.task().stage, TaskStage::Validation);

    agent.respond("Где здесь слабые места?");
    assert_eq!(agent.task().stage, TaskStage::Done);
    assert_eq!(agent.task().expected_action, "none");
}

#[test]
fn legal_task_facts_persist_in_shared_working_context_and_profile() {
    let mut agent = Agent::in_stage("Данные приняты.", TaskStage::Clarify);
    agent.profile = Some(AgentProfile {
        fields: [
            "debtor_type",
            "contract_details",
            "acceptance_act",
            "payment_terms",
            "debtor_address",
            "desired_outcome",
        ]
        .into_iter()
        .map(|key| ProfileField {
            key: key.to_string(),
            question: key.to_string(),
            required: true,
            value: String::new(),
        })
        .collect(),
        updated_at_unix: 0,
    });

    agent.respond("Акт подписали еще в апреле. Хочу начать без суда.");
    agent.respond(
        "Номер 12 от 1 апреля. Заказчик ООО «Ромашка», адрес Москва, улица Примерная, 1.",
    );
    agent.respond("Оплата в течение 5 рабочих дней после подписания акта.");

    let joined = agent.task().results.join("\n");
    assert!(joined.contains("debtor_type: ООО"));
    assert!(joined.contains("contract_details: Номер 12 от 1 апреля"));
    assert!(joined.contains("payment_terms: Оплата в течение 5 рабочих дней"));
    assert!(joined.contains("claim_status: претензия ещё не отправлена"));

    let profile = agent.profile.as_ref().expect("profile");
    assert_eq!(
        profile
            .fields
            .iter()
            .find(|field| field.key == "debtor_type")
            .map(|field| field.value.as_str()),
        Some("ООО")
    );
    assert!(profile
        .fields
        .iter()
        .find(|field| field.key == "payment_terms")
        .is_some_and(|field| field.value.contains("5 рабочих дней")));
}

#[test]
fn stage_marker_does_not_override_clear_planning_intent() {
    let mut agent = Agent::in_stage("План дополнен.\n<<STAGE_DONE>>", TaskStage::Planning);
    agent.respond_to(
        "Нашёл реквизиты договора для текущего плана.",
        wants(TaskStage::Planning),
    );
    assert_eq!(agent.task().stage, TaskStage::Planning);
}

#[test]
fn paused_task_resumes_on_continue_intent() {
    let mut agent = Agent::with_task(
        "Продолжаю работу.",
        TaskContext {
            stage: TaskStage::Execution,
            paused: true,
            resume_hint: "continue".to_string(),
            ..TaskContext::new()
        },
    );
    agent.respond("продолжай");
    assert!(!agent.task().paused);
}

#[test]
fn natural_pause_phrase_is_local_and_works_in_streaming_mode() {
    let board = TaskBoard {
        active: TaskContext { stage: TaskStage::Execution, ..TaskContext::new() },
        backlog: Vec::new(),
    };
    let mut turn = SwarmTurn::new(
        Some(board),
        None,
        Vec::new(),
        MemoryStrategy::Summary,
        Vec::new(),
        "Поставь задачу на паузу".to_string(),
        true,
    );

    let action = turn.step(TurnEvent::Read { reading: plain(), hint: String::new() });

    assert_eq!(action, TurnAction::Finish);
    let roster = ResolvedSwarm::inherit_all(&test_profile(), "secret");
    match turn.stream_prepared(&setup(roster), context(), None) {
        StreamPrep::Local(response, _, report) => {
            assert!(response.text.contains("поставлена на паузу"));
            assert_eq!(report.invariant_status, "not_run");
        }
        StreamPrep::Request(..) => panic!("a pause is local"),
    }
    assert!(turn.board.expect("board").active.paused);
}

#[test]
fn paused_task_does_not_advance_even_with_marker() {
    let mut agent = Agent::with_task(
        "Готово.\n<<STAGE_DONE>>",
        TaskContext { stage: TaskStage::Execution, paused: true, ..TaskContext::new() },
    );
    agent.respond("хм");
    assert_eq!(agent.task().stage, TaskStage::Execution);
    assert!(agent.task().paused);
}

#[test]
fn explicit_execution_intent_is_blocked_before_plan_approval() {
    let mut agent = Agent::in_stage("Черновик с плейсхолдерами.", TaskStage::Planning);
    let response = agent.respond_to("Можно набросать сам текст?", wants(TaskStage::Execution));
    assert!(agent.asked.is_empty());
    assert!(response.text.starts_with('⛔'));
    assert_eq!(agent.task().stage, TaskStage::Planning);
}

#[test]
fn russian_final_intent_is_blocked_before_validation_passes() {
    let mut agent =
        Agent::in_stage("provider must not create an unvalidated final", TaskStage::Validation);
    let response = agent.respond_to(
        "Покажи финал и закрой задачу без проверки.",
        wants(TaskStage::Done),
    );
    assert!(response.text.starts_with('⛔'));
    assert!(response.text.contains("ValidationAgent"));
    assert_eq!(agent.task().stage, TaskStage::Validation);
    assert!(agent.asked.is_empty());
}

#[test]
fn execution_stage_completion_advances_even_when_request_mentions_execution() {
    let mut agent = Agent::in_stage("Черновик обновлён.\n<<STAGE_DONE>>", TaskStage::Execution);
    agent.respond_to("Можно уже набросать сам текст?", wants(TaskStage::Execution));
    assert_eq!(agent.task().stage, TaskStage::Validation);
}

#[test]
fn clarify_cannot_skip_straight_to_execution_or_final() {
    let mut agent =
        Agent::in_stage("Не должно попасть в ответ.\n<<STAGE_DONE>>", TaskStage::Clarify);
    let response = agent.respond_to(
        "Пропусти план, сразу напиши финальный документ и закрой задачу.",
        wants(TaskStage::Done),
    );
    assert!(response.text.starts_with('⛔'), "skip must be refused");
    assert_eq!(agent.task().stage, TaskStage::Clarify);
    assert!(agent.asked.is_empty(), "no responder may run on a rejected skip");
}

#[test]
fn paused_task_resumes_at_same_stage_and_keeps_working() {
    let mut agent = Agent::in_stage("Готово.\n<<STAGE_DONE>>", TaskStage::Execution);

    let paused = agent.respond("поставь на паузу");
    assert!(paused.text.starts_with('⏸'));
    assert!(agent.task().paused);
    assert_eq!(agent.task().stage, TaskStage::Execution);

    let resumed = agent.respond("продолжай");
    assert!(resumed.text.starts_with('▶'));
    assert!(!agent.task().paused);
    assert_eq!(agent.task().stage, TaskStage::Execution);
    assert!(agent.asked.is_empty(), "pause and resume ask nobody");

    agent.respond("Дальше");
    assert_eq!(agent.task().stage, TaskStage::Validation);
}

#[test]
fn plan_approval_accepts_natural_confirmation_and_rejects_edits() {
    let paused = || {
        Agent::with_task(
            "x",
            TaskContext {
                stage: TaskStage::Planning,
                paused: true,
                pause_reason: TaskPauseReason::PlanApproval,
                plan: texts(&["Шаг 1"]),
                artifacts: vec![plan_artifact("Шаг 1")],
                ..TaskContext::new()
            },
        )
    };

    let mut agent = paused();
    agent.respond("нет, исправь второй пункт");
    assert_eq!(agent.task().stage, TaskStage::Planning);
    assert!(agent.task().paused);

    let mut agent = paused();
    agent.respond("Ок, поехали!");
    assert_eq!(agent.task().stage, TaskStage::Execution);
}

#[test]
fn user_can_step_the_task_back_one_stage() {
    let mut agent = Agent::with_task(
        "Не должно сработать.\n<<STAGE_DONE>>",
        TaskContext { stage: TaskStage::Execution, plan_approved: true, ..TaskContext::new() },
    );

    let response = agent.respond("Стоп, вернись на шаг назад");

    assert!(response.text.starts_with("⏪"), "got {:?}", response.text);
    assert_eq!(agent.task().stage, TaskStage::Planning);
    assert!(!agent.task().plan_approved, "rollback must reset plan approval");
    assert!(agent.asked.is_empty(), "a rollback must not run the responder");
}

#[test]
fn step_back_from_validation_returns_to_execution() {
    let mut agent = Agent::with_task(
        "x",
        TaskContext {
            stage: TaskStage::Validation,
            plan_approved: true,
            validation_passed: true,
            ..TaskContext::new()
        },
    );
    agent.respond("передумал, обратно к плану реализации");
    assert_eq!(agent.task().stage, TaskStage::Execution);
    assert!(!agent.task().validation_passed);
}

#[test]
fn persistent_invariant_violation_is_refused_not_returned() {
    let mut agent =
        Agent::in_stage("Here is the auth service, all in English.", TaskStage::Execution);
    agent.invariants = texts(&["Отвечать только на русском языке"]);
    agent.broken_by = vec![("English", "Отвечать только на русском языке")];

    let response = agent.respond("Сделай сервис авторизации");

    assert!(
        response.text.contains("Не могу выполнить эту часть запроса"),
        "expected a plain-language refusal, got: {}",
        response.text
    );
    assert!(response.text.contains("Отвечать только на русском языке"));
    assert!(!response.text.contains("auth service"));
    assert!(response.report.violations.iter().any(|v| v.contains("русском")));
    assert_eq!(agent.asked.len(), 3, "asked once and again twice");
    assert_eq!(agent.history.len(), 2);
    assert_eq!(agent.history[1].content, response.text);
}

#[test]
fn clean_answer_with_invariants_is_not_refused() {
    let mut agent = Agent::in_stage("Готовлю сервис авторизации на русском.", TaskStage::Execution);
    agent.invariants = texts(&["Отвечать только на русском языке"]);
    agent.broken_by = vec![("English", "Отвечать только на русском языке")];

    let response = agent.respond("Сделай сервис авторизации");

    assert!(!response.text.starts_with("⛔"), "must not refuse a clean answer");
    assert!(response.text.contains("авторизации"));
    assert!(response.report.violations.is_empty());
    assert_eq!(agent.asked.len(), 1);
}

#[test]
fn invariant_not_checkable_in_code_is_advisory_not_blocked() {
    let mut agent = Agent::in_stage("Перепишем сервис на Rust и Axum.", TaskStage::Execution);
    agent.invariants = texts(&["Всегда следовать внутреннему регламенту отдела A-17"]);
    agent.unknown = agent.invariants.clone();

    let response = agent.respond("Сделай реализацию");

    assert!(response.text.contains("Rust и Axum"), "got {:?}", response.text);
    assert!(!response.text.contains("на уровне кода"));
    assert_eq!(response.report.invariant_status, "advisory");
    assert!(response.report.invariant_summary.contains("ADVISORY"));
}

#[test]
fn forbidden_stack_is_blocked_by_local_code_without_valid_checker_json() {
    let mut agent = Agent::in_stage("Добавим RxJava для событий.", TaskStage::Execution);
    agent.invariants = texts(&["Без RxJava"]);
    agent.broken_by = vec![("RxJava", "Без RxJava")];

    let response = agent.respond("Реализуй обработку событий");

    assert!(response.text.contains("Не могу выполнить эту часть запроса"));
    assert!(response.text.contains("Без RxJava"));
    assert!(!response.text.contains("Добавим RxJava"));
    assert!(agent.task().expected_action.is_empty());
}

#[test]
fn architecture_and_business_rule_violations_are_blocked() {
    let architecture = "Архитектура только MVI";
    let business = "Не обещать гарантированный исход спора";
    let mut agent = Agent::in_stage("Сделаем MVC и гарантируем победу в суде.", TaskStage::Planning);
    agent.invariants = texts(&[architecture, business]);
    agent.broken_by = vec![("MVC", architecture), ("гарантируем", business)];

    let response = agent.respond("Предложи решение и прогноз");

    assert!(response.text.contains("Не могу выполнить эту часть запроса"));
    assert!(response.text.contains(architecture));
    assert!(response.text.contains(business));
    assert!(!response.text.contains("гарантируем победу"));
    assert_eq!(response.report.invariant_status, "blocked");
    assert_eq!(response.report.violations.len(), 2);
}

#[test]
fn semantic_checker_pass_allows_unknown_invariant() {
    let mut agent =
        Agent::in_stage("Оставляем MVI и сначала проверяем реквизиты.", TaskStage::Planning);
    agent.invariants = texts(&["Архитектура только MVI"]);

    let response = agent.respond("Предложи следующий шаг");

    assert!(!response.text.starts_with('⛔'));
    assert!(!response.text.starts_with('⚠'));
    assert_eq!(response.report.invariant_status, "pass");
    assert!(response.report.invariant_summary.contains("PASS"));
}

#[test]
fn legal_demo_positive_invariants_do_not_block_normal_planning_turn() {
    let mut agent = Agent::in_stage(
        "Вывод: можно начать с досудебной претензии. Уточню реквизиты договора и акт.",
        TaskStage::Clarify,
    );
    agent.invariants = texts(&[
        "Отвечать по-русски.",
        "Не называть ответ юридическим заключением.",
        "Отделять факты от предположений.",
        "Отмечать недостающие документы и риски.",
        "Если есть срок или риск суда, явно указать срочность.",
        "Не выдумывать нормы права.",
    ]);

    let response = agent.respond(
        "Акт подписали еще в апреле, но оплату так и не перевели. Сумма 180 000. Хочу начать без суда.",
    );

    assert!(!response.text.starts_with('⛔'));
    assert_eq!(agent.task().stage, TaskStage::Clarify);
    assert_eq!(agent.task().expected_action, "agent_work");
}

#[test]
fn lifecycle_invariants_never_emit_developer_block_message() {
    let mut agent = Agent::in_stage(
        "Готовлю требования по досудебной претензии. Уточню реквизиты договора и акт.",
        TaskStage::Execution,
    );
    agent.invariants = texts(&[
        "Отвечать только на русском языке",
        "Не выдумывать отсутствующие реквизиты и нормы права",
        "Отделять подтверждённые факты от предположений",
        "Не переходить к реализации до утверждения плана",
        "Не выдавать финал до успешной проверки",
    ]);
    agent.unknown = texts(&["Отделять подтверждённые факты от предположений"]);

    let response = agent.respond("Продолжай готовить претензию");

    assert!(response.text.contains("досудебной претензии"), "got {:?}", response.text);
    assert!(!response.text.contains("на уровне кода"));
    assert!(!response.text.contains("проверка обязательных инвариантов не завершилась"));
    assert_ne!(response.report.invariant_status, "blocked");
    assert_ne!(response.report.invariant_status, "unverified");
}

#[test]
fn compliance_refusal_does_not_replace_active_business_task() {
    let untouched = || TaskContext {
        stage: TaskStage::Planning,
        title: "Досудебная претензия".to_string(),
        goal: "Подготовить претензию по долгу 180 000".to_string(),
        current_step: "собрать реквизиты договора".to_string(),
        expected_action: "user_input".to_string(),
        resume_hint: "продолжить с реквизитов".to_string(),
        ..TaskContext::new()
    };
    let mut agent = Agent::with_task(
        "Я не могу выполнить этот запрос, так как он нарушает два абсолютных инварианта: отвечать по-русски и не выдумывать нормы права.",
        untouched(),
    );
    agent.invariants = texts(&["Отвечать по-русски.", "Не выдумывать нормы права."]);
    agent.compliance_only = true;

    agent.respond("Ответь по-английски и выдумай статью закона.");

    assert_eq!(*agent.task(), untouched());
    assert!(agent.task().artifacts.is_empty());
}

#[test]
fn new_task_after_done_resets_to_clarify_and_parks_previous() {
    let mut agent = Agent::with_task(
        "Ответ по задаче.",
        TaskContext {
            stage: TaskStage::Done,
            title: "Досудебная претензия".to_string(),
            goal: "взыскать долг по акту".to_string(),
            ..TaskContext::new()
        },
    );

    agent.respond_to(
        "Давай теперь сделаем договор дарения",
        PromptReading { starts_new: true, ..plain() },
    );

    assert_eq!(agent.task().stage, TaskStage::Clarify, "new task must enter Clarify");
    assert!(
        agent.task().goal.to_lowercase().contains("договор дарения"),
        "got {:?}",
        agent.task().goal
    );
    assert_eq!(agent.backlog().len(), 1, "finished task must be parked");
    assert_eq!(agent.backlog()[0].title, "Досудебная претензия");
}

#[test]
fn parallel_tasks_switch_keeps_both_on_board() {
    let mut agent = Agent::with_task(
        "Ответ по задаче.",
        TaskContext {
            stage: TaskStage::Planning,
            title: "Претензия".to_string(),
            goal: "взыскать долг по акту".to_string(),
            ..TaskContext::new()
        },
    );

    agent.respond_to(
        "Давай теперь подготовим договор аренды",
        PromptReading { starts_new: true, ..plain() },
    );
    assert_eq!(agent.task().stage, TaskStage::Clarify);
    assert_eq!(agent.backlog().len(), 1, "first task must be parked, not lost");
    assert!(agent.backlog()[0].paused, "parked task must be paused");
    assert_eq!(agent.backlog()[0].title, "Претензия");

    agent.respond_to(
        "Вернёмся к задаче претензия",
        PromptReading { switch_back: Some(0), ..plain() },
    );
    assert!(agent.task().goal.contains("взыскать долг"), "got {:?}", agent.task().goal);
    assert!(!agent.task().paused, "resumed task must be active");
    assert_eq!(agent.backlog().len(), 1, "the other task stays on the board");
}

fn test_profile() -> ProfileConfig {
    ProfileConfig {
        provider: ProviderKind::OpenAiCompatible,
        model: "main-model".to_string(),
        base_url: "https://example.test/v1".to_string(),
        token_ref: "openai-compatible".to_string(),
    }
}

fn setup(roster: ResolvedSwarm) -> RequestSetup {
    RequestSetup {
        roster,
        main_profile: test_profile(),
        main_token: "secret".to_string(),
        control: ResponseControl::uncontrolled(),
        pricing: None,
        billing: None,
    }
}

fn context() -> TurnContext<'static> {
    TurnContext {
        messages: Vec::new(),
        domain: "",
        profile_block: None,
        task_block: "[task]",
        user_block: None,
    }
}

#[test]
fn a_retry_is_told_what_was_broken_and_what_binds() {
    let mut turn = SwarmTurn::new(
        Some(TaskBoard {
            active: TaskContext { stage: TaskStage::Execution, ..TaskContext::new() },
            backlog: Vec::new(),
        }),
        None,
        Vec::new(),
        MemoryStrategy::Summary,
        texts(&["Без RxJava", "Кратко"]),
        "Продолжай".to_string(),
        false,
    );
    turn.step(TurnEvent::Read { reading: plain(), hint: String::new() });
    turn.step(TurnEvent::Responded {
        outcome: responder_outcome(SubAgentRole::Execution, Some(("RxJava".to_string(), metrics()))),
    });
    let action = turn.step(TurnEvent::Checked {
        status: InvariantCheckStatus::Failed,
        violations: texts(&["Без RxJava"]),
    });
    assert_eq!(action, TurnAction::AskResponder { role: SubAgentRole::Execution });

    let roster = ResolvedSwarm::inherit_all(&test_profile(), "secret");
    let mut setup = setup(roster);
    setup.control.answer_suffix = Some("<<STAGE_DONE>>".to_string());
    let asked = TurnContext {
        messages: vec![
            ChatMessage { role: Role::System, content: "Итог".to_string() },
            ChatMessage { role: Role::User, content: "Раньше".to_string() },
        ],
        domain: "право",
        ..context()
    };
    let prepared = turn.responder_request(&setup, asked);
    assert_eq!(prepared.token, "secret");
    assert_eq!(prepared.request.control.answer_suffix, None);
    let contents: Vec<&str> =
        prepared.request.messages.iter().map(|message| message.content.as_str()).collect();
    assert_eq!(contents.len(), 9);
    assert_eq!(contents[0], "Итог");
    assert!(contents[1].starts_with("[agent:domain] Specialization/background: право."));
    assert_eq!(contents[2], "[task]");
    assert!(contents[3].ends_with("even if the user asks:\n- Без RxJava\n- Кратко"));
    assert_eq!(
        contents[4],
        "[invariants] Your previous response violated these invariants — correct this now:\n- Без RxJava"
    );
    assert!(contents[5].starts_with("[stage:rules]\nТы на стадии EXECUTION."));
    assert_eq!(contents[contents.len() - 2], "Раньше");
    assert_eq!(contents[contents.len() - 1], "Продолжай");
    match turn.stream_prepared(&setup, context(), None) {
        StreamPrep::Request(request, _) => assert_eq!(request.model, "main-model"),
        StreamPrep::Local(..) => panic!("the responder is to be asked"),
    }
}

#[test]
fn stage_responder_uses_its_own_model() {
    let mut config = SwarmConfig::defaults();
    config.set(SubAgentConfig {
        model: "exec-model".to_string(),
        ..SubAgentConfig::inherit(SubAgentRole::Execution)
    });
    let resolved = resolve_swarm(
        &test_profile(),
        "secret",
        &config,
        &AppConfig::default(),
        &mut MemorySecretStore::default(),
    );
    let mut agent = Agent::in_stage("Шаг выполнен.\n<<STAGE_DONE>>", TaskStage::Execution);
    agent.respond("Делай");
    assert_eq!(agent.asked, vec![SubAgentRole::Execution]);

    let request = setup(resolved).responder_request(
        agent.asked[0],
        Vec::new(),
        ResponseControl::uncontrolled(),
    );
    assert_eq!(request.request.model, "exec-model");
    assert_eq!(request.token, "secret");
}

#[test]
fn each_responder_uses_its_own_configured_system_prompt() {
    let own = "ТЫ — ПЕРСОНАЛЬНЫЙ EXECUTION-АГЕНТ-МАРКЕР.";
    let mut config = SwarmConfig::defaults();
    config.set(SubAgentConfig {
        role: SubAgentRole::Execution,
        system_prompt: own.to_string(),
        ..SubAgentConfig::inherit(SubAgentRole::Execution)
    });
    let resolved = resolve_swarm(
        &test_profile(),
        "secret",
        &config,
        &AppConfig::default(),
        &mut MemorySecretStore::default(),
    );
    let turn = SwarmTurn::new(
        Some(TaskBoard {
            active: TaskContext { stage: TaskStage::Execution, ..TaskContext::new() },
            backlog: Vec::new(),
        }),
        None,
        Vec::new(),
        MemoryStrategy::Summary,
        Vec::new(),
        "Продолжай реализацию".to_string(),
        false,
    );
    let prepared = turn.responder_request(&setup(resolved), context());
    let messages = prepared.request.messages;
    assert!(messages
        .iter()
        .any(|message| message.role == Role::System && message.content.contains(own)));
    let last = messages.last().expect("messages");
    assert_eq!(last.role, Role::User);
    assert_eq!(last.content, "Продолжай реализацию");
}

#[test]
fn an_ended_turn_ignores_every_event() {
    let mut turn = SwarmTurn::new(
        None,
        None,
        Vec::new(),
        MemoryStrategy::ScopedBranches,
        Vec::new(),
        "Привет".to_string(),
        false,
    );
    let read = || TurnEvent::Read { reading: plain(), hint: String::new() };
    assert_eq!(turn.step(read()), TurnAction::RouteTopic);
    assert_eq!(
        turn.step(TurnEvent::Routed {
            message: Some("Тема не найдена".to_string()),
            metrics: Some(metrics()),
        }),
        TurnAction::Finish
    );
    assert_eq!(turn.phase, TurnPhase::Ended);
    assert_eq!(turn.ending, TurnEnding::Routed);
    assert_eq!(turn.step(read()), TurnAction::Ignore);
    assert_eq!(turn.aux_metrics, vec![metrics()]);
    assert_eq!(
        turn.step(TurnEvent::Learned { metrics: Some(metrics()) }),
        TurnAction::Ignore
    );
    assert_eq!(turn.aux_metrics.len(), 1);
    assert_eq!(turn.reply, "Тема не найдена");
    assert_eq!(turn.report(None), StatefulReport::default());
}

#[test]
fn facts_are_gathered_first_where_facts_stick() {
    let mut turn = SwarmTurn::new(
        None,
        None,
        Vec::new(),
        MemoryStrategy::StickyFacts,
        Vec::new(),
        "Привет".to_string(),
        false,
    );
    let read = TurnEvent::Read { reading: plain(), hint: String::new() };
    assert_eq!(turn.step(read), TurnAction::LearnFacts);
    assert_eq!(
        turn.step(TurnEvent::Learned { metrics: Some(metrics()) }),
        TurnAction::AskResponder { role: SubAgentRole::General }
    );
    let outcome = responder_outcome(SubAgentRole::General, Some(("Ответ".to_string(), metrics())));
    assert_eq!(
        turn.step(TurnEvent::Responded { outcome }),
        TurnAction::ReadAnswer { answer: "Ответ".to_string(), evidence: "\nПривет".to_string() }
    );
    assert_eq!(turn.main_metrics, vec![metrics()]);
    assert_eq!(turn.aux_metrics, vec![metrics()]);
}

#[test]
fn a_message_without_a_task_is_read_whatever_it_says() {
    let prompt = "İİİ адрес: ул. Мира, 1";
    let turn = |board: Option<TaskBoard>| {
        SwarmTurn::new(
            board,
            None,
            Vec::new(),
            MemoryStrategy::Summary,
            Vec::new(),
            prompt.to_string(),
            false,
        )
    };
    let read = |turn: &SwarmTurn, compliance_only: bool| {
        turn.answer_reading(
            "Ответ".to_string(),
            false,
            compliance_only,
            String::new(),
            None,
            0,
        )
    };
    let free = read(&turn(None), false).expect("reading");
    assert!(free.facts.is_empty());
    assert_eq!(free.answer, "Ответ");
    let board = || Some(TaskBoard { active: TaskContext::new(), backlog: Vec::new() });
    assert!(read(&turn(board()), true).expect("reading").facts.is_empty());
    assert_eq!(read(&turn(board()), false), None);
}

#[test]
fn what_is_shown_is_not_shown_again_with_the_users_profile() {
    let field = |key: &str, value: &str| ProfileField {
        key: key.to_string(),
        value: value.to_string(),
        question: String::new(),
        required: false,
    };
    let turn = SwarmTurn::new(
        None,
        Some(AgentProfile {
            fields: vec![field("city", "Рим"), field("job", " "), field("name", "Ада")],
            updated_at_unix: 0,
        }),
        Vec::new(),
        MemoryStrategy::Summary,
        texts(&["Кратко", "По-русски"]),
        "Привет".to_string(),
        false,
    );
    assert_eq!(
        turn.shown_values("право", true),
        texts(&["право", "Рим", "Ада", "Кратко", "По-русски"])
    );
    assert_eq!(turn.shown_values("", false), texts(&["Кратко", "По-русски"]));
}

#[test]
fn a_streamed_turn_is_not_asked_again() {
    let mut turn = SwarmTurn::new(
        None,
        None,
        Vec::new(),
        MemoryStrategy::Summary,
        texts(&["Без RxJava"]),
        "Привет".to_string(),
        true,
    );
    turn.step(TurnEvent::Read { reading: plain(), hint: String::new() });
    turn.step(TurnEvent::Responded {
        outcome: streamed_outcome(false, String::new(), "RxJava".to_string()),
    });
    let action = turn.step(TurnEvent::Checked {
        status: InvariantCheckStatus::Failed,
        violations: texts(&["Без RxJava"]),
    });
    assert!(matches!(action, TurnAction::ReadAnswer { .. }));
}

#[test]
fn an_answer_that_could_not_be_checked_is_withheld() {
    let mut turn = SwarmTurn::new(
        None,
        None,
        Vec::new(),
        MemoryStrategy::Summary,
        texts(&["Без RxJava"]),
        "Привет".to_string(),
        false,
    );
    turn.step(TurnEvent::Read { reading: plain(), hint: String::new() });
    turn.step(TurnEvent::Responded {
        outcome: responder_outcome(SubAgentRole::General, Some(("Ответ".to_string(), metrics()))),
    });
    turn.step(TurnEvent::Checked {
        status: InvariantCheckStatus::Unavailable,
        violations: Vec::new(),
    });
    turn.step(TurnEvent::AnswerRead {
        reading: AnswerReading {
            answer: "Ответ".to_string(),
            invents_no_norms: false,
            compliance_only: false,
            title: String::new(),
            decision: None,
            facts: Vec::new(),
            now: 0,
        },
    });
    assert!(!turn.reply.contains("Ответ"));
    assert!(turn.reply.contains("Без RxJava"));
    let report = turn.report(None);
    assert_eq!(report.invariant_status, "unverified");
    assert!(report.invariant_summary.contains("UNVERIFIED"));
}
