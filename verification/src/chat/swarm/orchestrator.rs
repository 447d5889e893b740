//! One turn of the swarm, decided by code alone: which agent runs next, whether
//! an answer is given out, and what becomes of the task.
use vstd::prelude::*;

use crate::chat::store::{StageTransition, TaskBoard, TaskContext, TaskStage};
use crate::chat::swarm::agent::InvariantCheckStatus;
use crate::chat::swarm::agents::responder::{GeneralAgent, StageAgent};
use crate::chat::swarm::config::SubAgentRole;
use crate::chat::swarm::lifecycle::{
    apply_lifecycle_control, apply_task_switching, lifecycle_block_message,
    lifecycle_request_rejection, LocalReply, PromptReading,
};
use crate::providers::{ChatMessage, ChatRequest, ChatResponse, RequestMetrics, Role};
use crate::text::{
    cat2, cat3, contains, is_blank, join, number_text, same, to_lowercase, trim, truncate,
};

verus! {

broadcast use vstd::string::group_string_axioms;

/// How often a responder is asked again after an answer that breaks an
/// invariant.
pub const MAX_INVARIANT_RETRIES: usize = 2;

/// The agents that can answer.
#[derive(Debug, Clone, Copy, PartialEq, Eq, Structural)]
pub enum Responder {
    Stage(StageAgent),
    General(GeneralAgent),
}

/// The agents that answer, one for each stage and the general one.
#[derive(Debug, Clone, Copy, PartialEq, Eq, Structural)]
pub struct SwarmOrchestrator {
    pub planning: StageAgent,
    pub execution: StageAgent,
    pub validation: StageAgent,
    pub done: StageAgent,
    pub general: GeneralAgent,
}

/// Whether each stage has the agent of its own role.
pub open spec fn well_cast(o: SwarmOrchestrator) -> bool {
    &&& o.planning.role == SubAgentRole::Planning
    &&& o.execution.role == SubAgentRole::Execution
    &&& o.validation.role == SubAgentRole::Validation
    &&& o.done.role == SubAgentRole::Done
}

impl Default for SwarmOrchestrator {
    fn default() -> (r: Self)
        ensures
            well_cast(r),
    {
        SwarmOrchestrator::new()
    }
}

impl SwarmOrchestrator {
    /// The agents that answer.
    pub fn new() -> (r: Self)
        ensures
            well_cast(r),
    {
        SwarmOrchestrator {
            planning: StageAgent::new(SubAgentRole::Planning),
            execution: StageAgent::new(SubAgentRole::Execution),
            validation: StageAgent::new(SubAgentRole::Validation),
            done: StageAgent::new(SubAgentRole::Done),
            general: GeneralAgent,
        }
    }

    /// The agent that answers for a role: a stage's own, else the general one.
    pub fn responder(&self, role: SubAgentRole) -> (r: Responder)
        requires
            well_cast(*self),
        ensures
            if crate::chat::swarm::config::stage_role(role) {
                r == Responder::Stage(StageAgent { role })
            } else {
                r is General
            },
    {
        match role {
            SubAgentRole::Planning => Responder::Stage(self.planning),
            SubAgentRole::Execution => Responder::Stage(self.execution),
            SubAgentRole::Validation => Responder::Stage(self.validation),
            SubAgentRole::Done => Responder::Stage(self.done),
            _ => Responder::General(self.general),
        }
    }
}

/// The role that answers at a stage; the clarifying belongs to the planning.
pub open spec fn role_of_stage(stage: TaskStage) -> SubAgentRole {
    match stage {
        TaskStage::Clarify => SubAgentRole::Planning,
        TaskStage::Planning => SubAgentRole::Planning,
        TaskStage::Execution => SubAgentRole::Execution,
        TaskStage::Validation => SubAgentRole::Validation,
        TaskStage::Done => SubAgentRole::Done,
    }
}

/// The role that answers at a stage.
pub fn stage_responder_role(stage: TaskStage) -> (r: SubAgentRole)
    ensures
        r == role_of_stage(stage),
        crate::chat::swarm::config::stage_role(r),
{
    match stage {
        TaskStage::Clarify => SubAgentRole::Planning,
        TaskStage::Planning => SubAgentRole::Planning,
        TaskStage::Execution => SubAgentRole::Execution,
        TaskStage::Validation => SubAgentRole::Validation,
        TaskStage::Done => SubAgentRole::Done,
    }
}

/// The role that answers in a turn: by the stage of the task alone.
pub open spec fn responder_role(board: Option<TaskBoard>) -> SubAgentRole {
    match board {
        Some(board) => role_of_stage(board.active.stage),
        None => SubAgentRole::General,
    }
}

/// What a status is called in a report.
pub open spec fn status_label(status: InvariantCheckStatus) -> Seq<char> {
    match status {
        InvariantCheckStatus::NotRun => "not_run"@,
        InvariantCheckStatus::Passed => "pass"@,
        InvariantCheckStatus::Failed => "blocked"@,
        InvariantCheckStatus::Advisory => "advisory"@,
        InvariantCheckStatus::Unavailable => "unverified"@,
    }
}

/// What a status is called in a report.
pub fn invariant_status_label(status: InvariantCheckStatus) -> (r: &'static str)
    ensures
        r@ == status_label(status),
{
    match status {
        InvariantCheckStatus::NotRun => "not_run",
        InvariantCheckStatus::Passed => "pass",
        InvariantCheckStatus::Failed => "blocked",
        InvariantCheckStatus::Advisory => "advisory",
        InvariantCheckStatus::Unavailable => "unverified",
    }
}

/// What a report says of the check.
pub open spec fn status_summary(status: InvariantCheckStatus, invariants: int, violations: int) -> Seq<
    char,
> {
    match status {
        InvariantCheckStatus::NotRun => "Инварианты не заданы."@,
        InvariantCheckStatus::Passed => "PASS: кодовый gate допустил ответ после проверки "@
            + crate::text::decimal(invariants as nat) + " инвариант(ов)."@,
        InvariantCheckStatus::Failed => "BLOCKED: ответ не выдан; нарушено "@
            + crate::text::decimal(violations as nat) + " инвариант(ов)."@,
        InvariantCheckStatus::Advisory => "ADVISORY: проверяемые кодом инварианты соблюдены; остальные переданы модели как указания."@,
        InvariantCheckStatus::Unavailable => "UNVERIFIED: семантическую проверку нельзя подтвердить; ответ заблокирован, требуется уточнение или повторная проверка."@,
    }
}

/// What a report says of the check.
pub fn invariant_summary(
    status: InvariantCheckStatus,
    invariants: &Vec<String>,
    violations: &Vec<String>,
) -> (r: String)
    ensures
        r@ == status_summary(status, invariants@.len() as int, violations@.len() as int),
{
    match status {
        InvariantCheckStatus::NotRun => "Инварианты не заданы.".to_string(),
        InvariantCheckStatus::Passed => {
            let count = number_text(invariants.len() as u64);
            cat3(
                "PASS: кодовый gate допустил ответ после проверки ",
                count.as_str(),
                " инвариант(ов).",
            )
        },
        InvariantCheckStatus::Failed => {
            let count = number_text(violations.len() as u64);
            cat3("BLOCKED: ответ не выдан; нарушено ", count.as_str(), " инвариант(ов).")
        },
        InvariantCheckStatus::Advisory => "ADVISORY: проверяемые кодом инварианты соблюдены; остальные переданы модели как указания.".to_string(),
        InvariantCheckStatus::Unavailable => "UNVERIFIED: семантическую проверку нельзя подтвердить; ответ заблокирован, требуется уточнение или повторная проверка.".to_string(),
    }
}

/// What an answer that broke invariants is replaced with.
pub open spec fn refusal_text(violations: Seq<String>) -> Seq<char> {
    "Не могу выполнить эту часть запроса: она нарушает обязательные ограничения.\n- "@
        + crate::text::joined(crate::text::texts(violations), "\n- "@)
}

/// What an answer that broke invariants is replaced with.
pub fn build_invariant_refusal(violations: &Vec<String>) -> (r: String)
    ensures
        r@ == refusal_text(violations@),
{
    let listed = join(violations, "\n- ");
    cat2(
        "Не могу выполнить эту часть запроса: она нарушает обязательные ограничения.\n- ",
        listed.as_str(),
    )
}

/// What an answer that could not be checked is replaced with.
pub open spec fn unverified_text(invariants: Seq<String>) -> Seq<char> {
    "Не могу подтвердить, что ответ соблюдает обязательные ограничения. Уточните запрос или повторите его.\n- "@
        + crate::text::joined(crate::text::texts(invariants), "\n- "@)
}

/// What an answer that could not be checked is replaced with.
pub fn build_invariant_unverified_response(invariants: &Vec<String>) -> (r: String)
    ensures
        r@ == unverified_text(invariants@),
{
    let listed = join(invariants, "\n- ");
    cat2(
        "Не могу подтвердить, что ответ соблюдает обязательные ограничения. Уточните запрос или повторите его.\n- ",
        listed.as_str(),
    )
}

/// The user's messages of a conversation, in order.
pub open spec fn user_texts(history: Seq<(Role, Seq<char>)>) -> Seq<Seq<char>>
    decreases history.len(),
{
    if history.len() == 0 {
        Seq::empty()
    } else {
        let rest = user_texts(history.drop_last());
        if history.last().0 == Role::User {
            rest.push(history.last().1)
        } else {
            rest
        }
    }
}

/// Everything that the user has said, with the message of this turn last.
pub open spec fn evidence(history: Seq<(Role, Seq<char>)>, prompt: Seq<char>) -> Seq<char> {
    crate::text::joined(user_texts(history), "\n"@) + "\n"@ + prompt
}

/// Everything that the user has said, with the message of this turn last.
pub fn user_evidence_context(history: &Vec<ChatMessage>, prompt: &str) -> (r: String)
    ensures
        r@ == evidence(crate::providers::message_views(history@), prompt@),
{
    let ghost views = crate::providers::message_views(history@);
    let mut said: Vec<String> = Vec::new();
    let mut i: usize = 0;
    assert(views.take(0) =~= Seq::<(Role, Seq<char>)>::empty());
    assert(crate::text::texts(said@) =~= Seq::<Seq<char>>::empty());
    while i < history.len()
        invariant
            i <= history.len(),
            views == crate::providers::message_views(history@),
            crate::text::texts(said@) == user_texts(views.take(i as int)),
        decreases history.len() - i,
    {
        assert(views.take(i + 1).drop_last() =~= views.take(i as int));
        if history[i].role == Role::User {
            let ghost before = crate::text::texts(said@);
            said.push(history[i].content.clone());
            assert(crate::text::texts(said@) =~= before.push(views[i as int].1));
        }
        i = i + 1;
    }
    assert(views.take(i as int) =~= views);
    let joined = join(&said, "\n");
    cat3(joined.as_str(), "\n", prompt)
}

/// Whether an invariant forbids to invent legal norms.
pub open spec fn forbids_invented_norms(rule: Seq<char>) -> bool {
    let lower = crate::text::lowercase(rule);
    crate::text::contains_text(lower, "не выдумывать"@) && crate::text::contains_text(
        lower,
        "норм"@,
    )
}

/// The first invariant, from `from` on, that forbids to invent legal norms.
pub open spec fn norms_invariant(invariants: Seq<String>, from: int) -> Option<int>
    decreases invariants.len() - from,
{
    if from < 0 || from >= invariants.len() {
        None
    } else if forbids_invented_norms(invariants[from]@) {
        Some(from)
    } else {
        norms_invariant(invariants, from + 1)
    }
}

/// The texts without `dropped`.
pub open spec fn without(texts: Seq<Seq<char>>, dropped: Seq<char>) -> Seq<Seq<char>>
    decreases texts.len(),
{
    if texts.len() == 0 {
        Seq::empty()
    } else {
        let rest = without(texts.drop_last(), dropped);
        if texts.last() == dropped {
            rest
        } else {
            rest.push(texts.last())
        }
    }
}

/// The violations that are left once the answer has been cleaned: where the
/// cleaned answer invents no norms, the invariant that forbids it is kept.
pub open spec fn surviving(
    invariants: Seq<String>,
    violations: Seq<String>,
    invents_no_norms: bool,
) -> Seq<Seq<char>> {
    match norms_invariant(invariants, 0) {
        Some(i) if invents_no_norms => without(crate::text::texts(violations), invariants[i]@),
        _ => crate::text::texts(violations),
    }
}

fn find_norms_invariant(invariants: &Vec<String>) -> (r: Option<usize>)
    ensures
        match r {
            Some(i) => i < invariants@.len() && norms_invariant(invariants@, 0) == Some(i as int),
            None => norms_invariant(invariants@, 0) is None,
        },
{
    let mut i: usize = 0;
    while i < invariants.len()
        invariant
            i <= invariants.len(),
            norms_invariant(invariants@, 0) == norms_invariant(invariants@, i as int),
        decreases invariants.len() - i,
    {
        let lower = to_lowercase(invariants[i].as_str());
        if contains(lower.as_str(), "не выдумывать") && contains(lower.as_str(), "норм") {
            return Some(i);
        }
        i = i + 1;
    }
    None
}

/// The violations that are left once the answer has been cleaned.
pub fn local_invariant_violations_after_sanitize(
    invariants: &Vec<String>,
    violations: Vec<String>,
    invents_no_norms: bool,
) -> (r: Vec<String>)
    ensures
        crate::text::texts(r@) == surviving(invariants@, violations@, invents_no_norms),
{
    if !invents_no_norms {
        return violations;
    }
    let dropped = match find_norms_invariant(invariants) {
        Some(i) => invariants[i].as_str(),
        None => {
            return violations;
        },
    };
    let ghost all = crate::text::texts(violations@);
    let mut kept: Vec<String> = Vec::new();
    let mut i: usize = 0;
    assert(all.take(0) =~= Seq::<Seq<char>>::empty());
    assert(crate::text::texts(kept@) =~= Seq::<Seq<char>>::empty());
    while i < violations.len()
        invariant
            i <= violations.len(),
            all == crate::text::texts(violations@),
            crate::text::texts(kept@) == without(all.take(i as int), dropped@),
        decreases violations.len() - i,
    {
        assert(all.take(i + 1).drop_last() =~= all.take(i as int));
        if !same(violations[i].as_str(), dropped) {
            let ghost before = crate::text::texts(kept@);
            kept.push(violations[i].clone());
            assert(crate::text::texts(kept@) =~= before.push(all[i as int]));
        }
        i = i + 1;
    }
    assert(all.take(i as int) =~= all);
    kept
}

/// What the check of an answer comes to in the end. A violation withholds the
/// answer, and so does a check that could not be made.
pub open spec fn final_status(
    status: InvariantCheckStatus,
    has_invariants: bool,
    violated: bool,
) -> InvariantCheckStatus {
    if status == InvariantCheckStatus::Unavailable {
        InvariantCheckStatus::Unavailable
    } else if violated {
        InvariantCheckStatus::Failed
    } else if status == InvariantCheckStatus::Advisory {
        InvariantCheckStatus::Advisory
    } else if has_invariants || status == InvariantCheckStatus::Failed {
        InvariantCheckStatus::Passed
    } else {
        status
    }
}

/// What the check of an answer comes to in the end.
pub fn judge(status: InvariantCheckStatus, has_invariants: bool, violated: bool) -> (r:
    InvariantCheckStatus)
    ensures
        r == final_status(status, has_invariants, violated),
{
    match status {
        InvariantCheckStatus::Unavailable => InvariantCheckStatus::Unavailable,
        _ if violated => InvariantCheckStatus::Failed,
        InvariantCheckStatus::Advisory => InvariantCheckStatus::Advisory,
        InvariantCheckStatus::Failed => InvariantCheckStatus::Passed,
        _ => if has_invariants {
            InvariantCheckStatus::Passed
        } else {
            status
        },
    }
}

/// The conversation after a turn.
pub open spec fn committed(
    before: Seq<(Role, Seq<char>)>,
    prompt: Seq<char>,
    answer: Seq<char>,
) -> Seq<(Role, Seq<char>)> {
    before.push((Role::User, prompt)).push((Role::Assistant, answer))
}

/// Adds the user's message and the answer to the conversation.
pub fn commit(history: &mut Vec<ChatMessage>, prompt: &str, answer: &str)
    ensures
        crate::providers::message_views(final(history)@) == committed(
            crate::providers::message_views(old(history)@),
            prompt@,
            answer@,
        ),
{
    history.push(ChatMessage { role: Role::User, content: prompt.to_string() });
    history.push(ChatMessage { role: Role::Assistant, content: answer.to_string() });
    assert(crate::providers::message_views(history@) =~= committed(
        crate::providers::message_views(old(history)@),
        prompt@,
        answer@,
    ));
}

/// What a waiting task is called: its title, else its goal, cut short.
pub open spec fn waiting_label(task: TaskContext) -> Seq<char> {
    if crate::text::blank(task.title@) {
        crate::text::taken(crate::text::trimmed(crate::text::trimmed(task.goal@)), 60)
    } else {
        crate::text::trimmed(task.title@)
    }
}

/// What the waiting tasks are called; one without a name is left out.
pub open spec fn waiting_labels(backlog: Seq<TaskContext>) -> Seq<Seq<char>> {
    crate::text::non_empty(Seq::new(backlog.len(), |i: int| waiting_label(backlog[i])))
}

/// What the waiting tasks are called.
pub fn backlog_titles(backlog: &Vec<TaskContext>) -> (r: Vec<String>)
    ensures
        crate::text::texts(r@) == waiting_labels(backlog@),
{
    let ghost all = Seq::new(backlog@.len(), |i: int| waiting_label(backlog@[i]));
    let mut out: Vec<String> = Vec::new();
    let mut i: usize = 0;
    assert(all.take(0) =~= Seq::<Seq<char>>::empty());
    assert(crate::text::texts(out@) =~= Seq::<Seq<char>>::empty());
    while i < backlog.len()
        invariant
            i <= backlog.len(),
            all == Seq::new(backlog@.len(), |i: int| waiting_label(backlog@[i])),
            crate::text::texts(out@) == crate::text::non_empty(all.take(i as int)),
        decreases backlog.len() - i,
    {
        assert(all.take(i + 1).drop_last() =~= all.take(i as int));
        let label = if is_blank(backlog[i].title.as_str()) {
            truncate(trim(backlog[i].goal.as_str()), 60)
        } else {
            trim(backlog[i].title.as_str()).to_string()
        };
        assert(all[i as int] == label@);
        if !label.as_str().is_empty() {
            let ghost before = crate::text::texts(out@);
            let ghost shown = label@;
            out.push(label);
            assert(crate::text::texts(out@) =~= before.push(shown));
        }
        i = i + 1;
    }
    assert(all.take(i as int) =~= all);
    out
}

/// What a turn did, for the user's eyes.
#[derive(Debug, PartialEq, Eq)]
pub struct StatefulReport {
    pub stage: Option<TaskStage>,
    pub current_step: String,
    pub expected_action: String,
    pub paused: bool,
    pub resume_hint: String,
    pub transition_block_reason: String,
    pub next_stage: Option<TaskStage>,
    pub next_transition_requirement: String,
    pub backlog: Vec<String>,
    pub stage_transition: Option<StageTransition>,
    pub violations: Vec<String>,
    pub pending_questions: Vec<String>,
    pub invariant_status: String,
    pub invariant_summary: String,
    pub metrics: Option<RequestMetrics>,
}

/// Whether a report shows no task.
pub open spec fn shows_no_task(report: StatefulReport) -> bool {
    &&& report.stage is None
    &&& report.current_step@.len() == 0
    &&& report.expected_action@.len() == 0
    &&& !report.paused
    &&& report.resume_hint@.len() == 0
    &&& report.transition_block_reason@.len() == 0
    &&& report.next_stage is None
    &&& report.next_transition_requirement@.len() == 0
    &&& report.backlog@.len() == 0
}

/// Whether a report shows where the task stands.
pub open spec fn shows_task(report: StatefulReport, board: TaskBoard) -> bool {
    let task = board.active;
    &&& report.stage == Some(task.stage)
    &&& report.current_step@ == task.current_step@
    &&& report.expected_action@ == task.expected_action@
    &&& report.paused == task.paused
    &&& report.resume_hint@ == task.resume_hint@
    &&& report.transition_block_reason@ == task.transition_block_reason@
    &&& report.next_stage == crate::chat::store::stage_after(task.stage)
    &&& report.next_transition_requirement@ == crate::chat::store::requirement(task)
    &&& crate::text::texts(report.backlog@) == waiting_labels(board.backlog@)
}

/// Whether a report shows where things stand.
pub open spec fn shows_board(report: StatefulReport, board: Option<TaskBoard>) -> bool {
    match board {
        Some(board) => shows_task(report, board),
        None => shows_no_task(report),
    }
}

/// Whether a report says nothing of the turn itself.
pub open spec fn says_nothing(report: StatefulReport) -> bool {
    &&& report.stage_transition is None
    &&& report.violations@.len() == 0
    &&& report.pending_questions@.len() == 0
    &&& report.invariant_status@.len() == 0
    &&& report.invariant_summary@.len() == 0
    &&& report.metrics is None
}

impl Default for StatefulReport {
    fn default() -> (r: Self)
        ensures
            shows_no_task(r),
            says_nothing(r),
    {
        StatefulReport {
            stage: None,
            current_step: String::new(),
            expected_action: String::new(),
            paused: false,
            resume_hint: String::new(),
            transition_block_reason: String::new(),
            next_stage: None,
            next_transition_requirement: String::new(),
            backlog: Vec::new(),
            stage_transition: None,
            violations: Vec::new(),
            pending_questions: Vec::new(),
            invariant_status: String::new(),
            invariant_summary: String::new(),
            metrics: None,
        }
    }
}

/// Where things stand, with nothing said of the turn.
pub fn board_report(board: &Option<TaskBoard>) -> (r: StatefulReport)
    ensures
        shows_board(r, *board),
        says_nothing(r),
{
    let report = StatefulReport::default();
    match board {
        Some(board) => {
            let task = &board.active;
            StatefulReport {
                stage: Some(task.stage),
                current_step: task.current_step.clone(),
                expected_action: task.expected_action.clone(),
                paused: task.paused,
                resume_hint: task.resume_hint.clone(),
                transition_block_reason: task.transition_block_reason.clone(),
                next_stage: task.next_stage(),
                next_transition_requirement: task.next_transition_requirement().to_string(),
                backlog: backlog_titles(&board.backlog),
                ..report
            }
        },
        None => report,
    }
}

/// Whether `r` gives out a message for which no responder was asked.
pub open spec fn local_response(
    message: Seq<char>,
    metrics: Option<RequestMetrics>,
    r: ChatResponse,
) -> bool {
    &&& r.text@ == message
    &&& crate::text::option_text(r.finish_reason) == Some("stop"@)
    &&& r.metrics == (match metrics {
        Some(m) => m,
        None => (RequestMetrics { elapsed_ms: 0, usage: None, cost: None }),
    })
}

/// The response that a local answer is given out as.
pub fn local_chat_response(message: String, metrics: Option<RequestMetrics>) -> (r: ChatResponse)
    ensures
        local_response(message@, metrics, r),
{
    let metrics = match metrics {
        Some(metrics) => metrics,
        None => RequestMetrics { elapsed_ms: 0, usage: None, cost: None },
    };
    ChatResponse { text: message, finish_reason: Some("stop".to_string()), metrics }
}

/// What the preparation of a streamed turn comes to.
#[derive(Debug, PartialEq, Eq)]
pub enum StreamPrep {
    /// The request to stream.
    Request(ChatRequest, Option<RequestMetrics>),
    /// A reply that needs no model.
    Local(ChatResponse, Option<RequestMetrics>, StatefulReport),
}

/// What a message does to the tasks before any agent runs: other tasks come
/// first, then words of control, then requests that come too early.
pub open spec fn board_begun(
    a: TaskBoard,
    b: TaskBoard,
    prompt: Seq<char>,
    reading: PromptReading,
    hint: Seq<char>,
    r: Option<LocalReply>,
) -> bool {
    exists|mid: TaskBoard, after: TaskBoard, reply: Option<LocalReply>| #[trigger]
        switched_and_controlled(a, mid, after, prompt, reading, hint, reply) && {
            if reply is Some {
                b == after && r == reply
            } else {
                guarded(after, b, reading.requested_stage, r)
            }
        }
}

/// `mid` is the board after tasks were switched, `after` the one after words of
/// control.
pub open spec fn switched_and_controlled(
    a: TaskBoard,
    mid: TaskBoard,
    after: TaskBoard,
    prompt: Seq<char>,
    reading: PromptReading,
    hint: Seq<char>,
    reply: Option<LocalReply>,
) -> bool {
    &&& crate::chat::swarm::lifecycle::switched(a, mid, reading, prompt, hint)
    &&& after.backlog == mid.backlog
    &&& crate::chat::swarm::lifecycle::controlled(
        mid.active,
        after.active,
        crate::chat::swarm::lifecycle::control_intent(prompt),
        reading.supplies_next_info,
        hint,
        reply,
    )
}

/// What a request for the work of a stage leads to: one that comes too early is
/// turned down, and the task notes why.
pub open spec fn guarded(
    a: TaskBoard,
    b: TaskBoard,
    requested: Option<TaskStage>,
    r: Option<LocalReply>,
) -> bool {
    match requested {
        Some(stage) if crate::chat::swarm::lifecycle::asks_too_early(a.active.stage, stage) => {
            let reason = crate::chat::store::requirement(a.active);
            &&& b.backlog == a.backlog
            &&& crate::chat::store::held_back(a.active, b.active, reason)
            &&& r matches Some(reply) && reply.message@
                == crate::chat::swarm::lifecycle::block_message(a.active.stage, reason) && (
            reply.transition matches Some(t) && t.from == a.active.stage && t.to == stage
                && !t.accepted && t.reason@ == reason)
        },
        _ => b == a && r is None,
    }
}

/// Follows a message before any agent runs.
pub fn begin_board(board: &mut TaskBoard, prompt: &str, reading: &PromptReading, hint: &str) -> (r:
    Option<LocalReply>)
    ensures
        board_begun(*old(board), *final(board), prompt@, *reading, hint@, r),
        crate::chat::swarm::lifecycle::all_gated(*old(board))
            ==> crate::chat::swarm::lifecycle::all_gated(*final(board)),
{
    let ghost a = *board;
    apply_task_switching(board, reading, prompt, hint);
    let ghost mid = *board;
    let reply = apply_lifecycle_control(
        &mut board.active,
        prompt,
        reading.supplies_next_info,
        hint,
    );
    let ghost after = *board;
    proof {
        assert(after.backlog == mid.backlog);
        assert(switched_and_controlled(a, mid, after, prompt@, *reading, hint@, reply));
        assert(crate::chat::swarm::lifecycle::all_gated(mid)
            ==> crate::chat::swarm::lifecycle::all_gated(after)) by {
            assert forall|i: int|
                crate::chat::swarm::lifecycle::all_gated(mid) && 0 <= i
                    < after.backlog@.len() implies #[trigger] crate::chat::store::gated(
                after.backlog@[i],
            ) by {
                assert(after.backlog@[i] == mid.backlog@[i]);
            }
        }
    }
    if reply.is_some() {
        return reply;
    }
    match lifecycle_request_rejection(&board.active, reading.requested_stage) {
        Some((requested, reason)) => {
            let current = board.active.stage;
            board.active.transition_block_reason = reason.clone();
            proof {
                assert forall|i: int|
                    crate::chat::swarm::lifecycle::all_gated(after) && 0 <= i
                        < board.backlog@.len() implies #[trigger] crate::chat::store::gated(
                    board.backlog@[i],
                ) by {
                    assert(board.backlog@[i] == after.backlog@[i]);
                }
            }
            let message = lifecycle_block_message(current, reason.as_str());
            let transition = StageTransition {
                from: current,
                to: requested,
                accepted: false,
                reason,
            };
            let r = Some(LocalReply { message, transition: Some(transition) });
            assert(guarded(after, *board, reading.requested_stage, r));
            r
        },
        None => None,
    }
}

/// A refusal names every rule that was broken, and the words for what could not
/// be checked name every rule.
pub proof fn refusals_name_the_rules(rules: Seq<String>, i: int)
    requires
        0 <= i < rules.len(),
    ensures
        crate::text::contains_text(refusal_text(rules), rules[i]@),
        crate::text::contains_text(unverified_text(rules), rules[i]@),
{
    let none = Seq::<char>::empty();
    let list = crate::text::texts(rules);
    let whole = crate::text::joined(list, "\n- "@);
    crate::text::joined_texts_hold_their_parts(list, "\n- "@, i);
    assert(list[i] == rules[i]@);
    let refused = "Не могу выполнить эту часть запроса: она нарушает обязательные ограничения.\n- "@;
    crate::text::lemma_part_occurs(refused, whole, none);
    assert(refused + whole + none =~= refusal_text(rules));
    crate::text::lemma_occurs_through(rules[i]@, whole, refusal_text(rules));
    let unsure = "Не могу подтвердить, что ответ соблюдает обязательные ограничения. Уточните запрос или повторите его.\n- "@;
    crate::text::lemma_part_occurs(unsure, whole, none);
    assert(unsure + whole + none =~= unverified_text(rules));
    crate::text::lemma_occurs_through(rules[i]@, whole, unverified_text(rules));
}

proof fn lemma_without(texts: Seq<Seq<char>>, dropped: Seq<char>, text: Seq<char>)
    ensures
        without(texts, dropped).contains(text) <==> texts.contains(text) && text != dropped,
    decreases texts.len(),
{
    if texts.len() > 0 {
        let rest = texts.drop_last();
        let kept = without(rest, dropped);
        lemma_without(rest, dropped, text);
        if texts.contains(text) {
            let i = choose|i: int| 0 <= i < texts.len() && texts[i] == text;
            if i < rest.len() {
                assert(rest[i] == text);
            }
        }
        if rest.contains(text) {
            let i = choose|i: int| 0 <= i < rest.len() && rest[i] == text;
            assert(texts[i] == text);
        }
        if texts.last() != dropped {
            if kept.contains(text) {
                let i = choose|i: int| 0 <= i < kept.len() && kept[i] == text;
                assert(kept.push(texts.last())[i] == text);
            }
            if text == texts.last() {
                assert(texts[texts.len() - 1] == text);
                assert(kept.push(texts.last())[kept.len() as int] == text);
            }
            if without(texts, dropped).contains(text) && !kept.contains(text) {
                let i = choose|i: int|
                    0 <= i < without(texts, dropped).len() && without(texts, dropped)[i] == text;
                if i < kept.len() {
                    assert(kept[i] == text);
                }
                assert(texts[texts.len() - 1] == text);
            }
        }
    }
}

proof fn lemma_norms_invariant(invariants: Seq<String>, from: int)
    requires
        0 <= from <= invariants.len(),
    ensures
        norms_invariant(invariants, from) matches Some(i) ==> from <= i < invariants.len()
            && forbids_invented_norms(invariants[i]@),
    decreases invariants.len() - from,
{
    if from < invariants.len() && !forbids_invented_norms(invariants[from]@) {
        lemma_norms_invariant(invariants, from + 1);
    }
}

/// A broken rule stays broken, but for the rule against invented norms where the
/// cleaned answer invents none; and nothing counts as broken that was not found
/// to be.
pub proof fn broken_rules_stay_broken(
    invariants: Seq<String>,
    violations: Seq<String>,
    invents_no_norms: bool,
    text: Seq<char>,
)
    ensures
        !invents_no_norms ==> surviving(invariants, violations, invents_no_norms)
            == crate::text::texts(violations),
        surviving(invariants, violations, invents_no_norms).contains(text) ==> crate::text::texts(
            violations,
        ).contains(text),
        crate::text::texts(violations).contains(text) && !forbids_invented_norms(text) ==> surviving(
            invariants,
            violations,
            invents_no_norms,
        ).contains(text),
{
    lemma_norms_invariant(invariants, 0);
    if let Some(i) = norms_invariant(invariants, 0) {
        if invents_no_norms {
            lemma_without(crate::text::texts(violations), invariants[i]@, text);
        }
    }
}

/// What was broken is never called passed, what could not be checked never
/// anything else, and what was checked and held is not called broken.
pub proof fn the_status_tells_what_was_found(
    status: InvariantCheckStatus,
    has_invariants: bool,
    violated: bool,
)
    ensures
        status == InvariantCheckStatus::Unavailable ==> final_status(
            status,
            has_invariants,
            violated,
        ) == InvariantCheckStatus::Unavailable,
        status != InvariantCheckStatus::Unavailable && violated ==> final_status(
            status,
            has_invariants,
            violated,
        ) == InvariantCheckStatus::Failed,
        !violated ==> final_status(status, has_invariants, violated) != InvariantCheckStatus::Failed,
        !violated && (status == InvariantCheckStatus::Passed || status
            == InvariantCheckStatus::Advisory) ==> final_status(status, has_invariants, violated)
            == status,
        !violated && status == InvariantCheckStatus::Failed ==> final_status(
            status,
            has_invariants,
            violated,
        ) == InvariantCheckStatus::Passed,
        !violated && status == InvariantCheckStatus::NotRun && !has_invariants ==> final_status(
            status,
            has_invariants,
            violated,
        ) == InvariantCheckStatus::NotRun,
        status_label(InvariantCheckStatus::NotRun) == "not_run"@,
        status_label(InvariantCheckStatus::Passed) == "pass"@,
        status_label(InvariantCheckStatus::Failed) == "blocked"@,
        status_label(InvariantCheckStatus::Advisory) == "advisory"@,
        status_label(InvariantCheckStatus::Unavailable) == "unverified"@,
{
}

proof fn lemma_user_texts(history: Seq<(Role, Seq<char>)>, i: int)
    requires
        0 <= i < history.len(),
        history[i].0 == Role::User,
    ensures
        user_texts(history).contains(history[i].1),
    decreases history.len(),
{
    let rest = user_texts(history.drop_last());
    if i < history.len() - 1 {
        lemma_user_texts(history.drop_last(), i);
        assert(history.drop_last()[i] == history[i]);
        let k = choose|k: int| 0 <= k < rest.len() && rest[k] == history[i].1;
        assert(user_texts(history)[k] == history[i].1);
    } else {
        assert(user_texts(history)[rest.len() as int] == history[i].1);
    }
}

proof fn lemma_only_users(history: Seq<(Role, Seq<char>)>)
    requires
        forall|i: int| 0 <= i < history.len() ==> (#[trigger] history[i]).0 != Role::User,
    ensures
        user_texts(history).len() == 0,
    decreases history.len(),
{
    if history.len() > 0 {
        let rest = history.drop_last();
        assert forall|i: int| 0 <= i < rest.len() implies (#[trigger] rest[i]).0 != Role::User by {
            assert(rest[i] == history[i]);
        }
        lemma_only_users(rest);
        assert(history[history.len() - 1].0 != Role::User);
    }
}

/// What an answer is held against is all that the user has said: every message
/// of theirs, and the present one. What others said is no part of it.
pub proof fn evidence_is_what_the_user_said(
    history: Seq<(Role, Seq<char>)>,
    prompt: Seq<char>,
    i: int,
)
    requires
        0 <= i < history.len(),
    ensures
        crate::text::contains_text(evidence(history, prompt), prompt),
        history[i].0 == Role::User ==> crate::text::contains_text(
            evidence(history, prompt),
            history[i].1,
        ),
        (forall|k: int| 0 <= k < history.len() ==> (#[trigger] history[k]).0 != Role::User)
            ==> evidence(history, prompt) == "\n"@ + prompt,
{
    let none = Seq::<char>::empty();
    let said = user_texts(history);
    let whole = crate::text::joined(said, "\n"@);
    let all = evidence(history, prompt);
    crate::text::lemma_part_occurs(whole + "\n"@, prompt, none);
    assert(whole + "\n"@ + prompt + none =~= all);
    if history[i].0 == Role::User {
        lemma_user_texts(history, i);
        let k = choose|k: int| 0 <= k < said.len() && said[k] == history[i].1;
        crate::text::joined_texts_hold_their_parts(said, "\n"@, k);
        crate::text::lemma_part_occurs(none, whole, "\n"@ + prompt);
        assert(none + whole + ("\n"@ + prompt) =~= all);
        crate::text::lemma_occurs_through(history[i].1, whole, all);
    }
    if forall|k: int| 0 <= k < history.len() ==> (#[trigger] history[k]).0 != Role::User {
        lemma_only_users(history);
        assert(whole =~= none);
        assert(all =~= "\n"@ + prompt);
    }
}

/// The agent of a stage answers while the task is at it; the planning also asks
/// what has to be cleared up first; without a task the general one answers.
pub proof fn the_stage_chooses_its_agent(board: TaskBoard)
    ensures
        responder_role(None) == SubAgentRole::General,
        board.active.stage == TaskStage::Clarify || board.active.stage == TaskStage::Planning
            ==> responder_role(Some(board)) == SubAgentRole::Planning,
        board.active.stage == TaskStage::Execution ==> responder_role(Some(board))
            == SubAgentRole::Execution,
        board.active.stage == TaskStage::Validation ==> responder_role(Some(board))
            == SubAgentRole::Validation,
        board.active.stage == TaskStage::Done ==> responder_role(Some(board))
            == SubAgentRole::Done,
{
}

/// A conversation grows by the user's message and the reply to it, and keeps all
/// that was in it.
pub proof fn an_exchange_is_kept(
    before: Seq<(Role, Seq<char>)>,
    prompt: Seq<char>,
    answer: Seq<char>,
    i: int,
)
    requires
        0 <= i < before.len(),
    ensures
        committed(before, prompt, answer).len() == before.len() + 2,
        committed(before, prompt, answer)[i] == before[i],
        committed(before, prompt, answer)[before.len() as int] == (Role::User, prompt),
        committed(before, prompt, answer)[before.len() as int + 1] == (Role::Assistant, answer),
{
}

/// A report shows the task as it stands: its stage and the one that comes next,
/// its step, whether it waits, and what keeps it.
pub proof fn a_report_shows_the_task(report: StatefulReport, board: TaskBoard)
    requires
        shows_board(report, Some(board)),
    ensures
        report.stage == Some(board.active.stage),
        report.paused == board.active.paused,
        report.current_step@ == board.active.current_step@,
        report.expected_action@ == board.active.expected_action@,
        report.resume_hint@ == board.active.resume_hint@,
        report.transition_block_reason@ == board.active.transition_block_reason@,
        board.active.stage == TaskStage::Clarify ==> report.next_stage == Some(TaskStage::Planning),
        board.active.stage == TaskStage::Planning ==> report.next_stage == Some(
            TaskStage::Execution,
        ),
        board.active.stage == TaskStage::Execution ==> report.next_stage == Some(
            TaskStage::Validation,
        ),
        board.active.stage == TaskStage::Validation ==> report.next_stage == Some(TaskStage::Done),
        board.active.stage == TaskStage::Done ==> report.next_stage is None,
{
}

/// A waiting task is shown by its title, and without one by the beginning of its
/// goal.
pub proof fn waiting_tasks_are_shown_by_title(task: TaskContext)
    ensures
        !crate::text::blank(task.title@) ==> waiting_label(task) == crate::text::trimmed(
            task.title@,
        ),
        crate::text::blank(task.title@) ==> waiting_label(task).len() <= 60
            && crate::text::contains_text(task.goal@, waiting_label(task)),
{
    let none = Seq::<char>::empty();
    if crate::text::blank(task.title@) {
        let goal = crate::text::trimmed(task.goal@);
        let again = crate::text::trimmed(goal);
        let label = crate::text::taken(again, 60);
        crate::text::lemma_trimmed_stands(task.goal@);
        crate::text::lemma_trimmed_stands(goal);
        let n = label.len() as int;
        crate::text::lemma_part_occurs(none, label, again.skip(n));
        assert(none + label + again.skip(n) =~= again);
        crate::text::lemma_occurs_through(label, again, goal);
        crate::text::lemma_occurs_through(label, goal, task.goal@);
    }
}

/// Every waiting task that has something to be shown by is in the list.
pub proof fn every_waiting_task_is_listed(backlog: Seq<TaskContext>, i: int)
    requires
        0 <= i < backlog.len(),
        waiting_label(backlog[i]).len() > 0,
    ensures
        waiting_labels(backlog).contains(waiting_label(backlog[i])),
{
    let all = Seq::new(backlog.len(), |k: int| waiting_label(backlog[k]));
    assert(all[i] == waiting_label(backlog[i]));
    crate::text::lemma_non_empty_is_there(all, waiting_label(backlog[i]));
}

/// What is told of a check tells how many rules there are where it passed, and how
/// many were broken where it did not.
pub proof fn checks_are_told_with_their_numbers(invariants: nat, violations: nat)
    ensures
        crate::text::contains_text(
            status_summary(InvariantCheckStatus::Passed, invariants as int, violations as int),
            crate::text::decimal(invariants),
        ),
        crate::text::contains_text(
            status_summary(InvariantCheckStatus::Failed, invariants as int, violations as int),
            crate::text::decimal(violations),
        ),
{
    crate::text::lemma_part_occurs(
        "PASS: кодовый gate допустил ответ после проверки "@,
        crate::text::decimal(invariants),
        " инвариант(ов)."@,
    );
    crate::text::lemma_part_occurs(
        "BLOCKED: ответ не выдан; нарушено "@,
        crate::text::decimal(violations),
        " инвариант(ов)."@,
    );
}

/// A reply that needed no model is the message itself, ended in the ordinary way,
/// with what other requests took.
pub proof fn local_replies_are_their_message(
    message: Seq<char>,
    metrics: Option<RequestMetrics>,
    r: ChatResponse,
)
    requires
        local_response(message, metrics, r),
    ensures
        r.text@ == message,
        r.finish_reason is Some && r.finish_reason->0@ == "stop"@,
        metrics matches Some(m) ==> r.metrics == m,
        metrics is None ==> r.metrics.elapsed_ms == 0 && r.metrics.usage is None
            && r.metrics.cost is None,
{
}

/// A message for the work of a later stage leaves the task where it is and is
/// answered with what has to come first; any other is let through.
pub proof fn a_message_out_of_turn_is_held_back(
    a: TaskBoard,
    b: TaskBoard,
    requested: Option<TaskStage>,
    r: Option<LocalReply>,
)
    requires
        guarded(a, b, requested, r),
    ensures
        b.active.stage == a.active.stage && b.active.artifacts == a.active.artifacts && b.backlog
            == a.backlog,
        requested is None ==> r is None && b == a,
        requested == Some(a.active.stage) ==> r is None && b == a,
        requested == Some(TaskStage::Execution) && a.active.stage == TaskStage::Planning
            ==> r is Some && crate::text::contains_text(r->0.message@, "planning"@),
        requested == Some(TaskStage::Done) && a.active.stage == TaskStage::Execution ==> r is Some
            && crate::text::contains_text(r->0.message@, "execution"@),
        r matches Some(reply) ==> (reply.transition matches Some(t) && !t.accepted),
{
    let none = Seq::<char>::empty();
    let reason = crate::chat::store::requirement(a.active);
    let before = "⛔ Нельзя перейти дальше со стадии `"@;
    let name = crate::chat::store::stage_name(a.active.stage);
    let after = "`.\n\n"@ + reason
        + "\n\nСледующее допустимое действие задаётся lifecycle-панелью задачи."@;
    crate::text::lemma_part_occurs(before, name, after);
    assert(before + name + after =~= crate::chat::swarm::lifecycle::block_message(
        a.active.stage,
        reason,
    ));
}

/// A rule is against invented norms where it says so in these words, in whatever
/// case, and no other rule is.
pub proof fn rules_against_invented_norms_say_so(rule: Seq<char>)
    ensures
        crate::text::contains_text(crate::text::lowercase(rule), "не выдумывать"@)
            && crate::text::contains_text(crate::text::lowercase(rule), "норм"@)
            ==> forbids_invented_norms(rule),
        !crate::text::contains_text(crate::text::lowercase(rule), "не выдумывать"@)
            ==> !forbids_invented_norms(rule),
        !crate::text::contains_text(crate::text::lowercase(rule), "норм"@)
            ==> !forbids_invented_norms(rule),
{
}

/// Each stage is cast with an agent of its own.
pub proof fn every_stage_has_its_agent(o: SwarmOrchestrator)
    requires
        well_cast(o),
    ensures
        o.planning.role == SubAgentRole::Planning,
        o.execution.role == SubAgentRole::Execution,
        o.validation.role == SubAgentRole::Validation,
        o.done.role == SubAgentRole::Done,
{
}

/// A report without a task shows none, and one that says nothing holds nothing.
pub proof fn a_report_without_a_task_shows_none(report: StatefulReport)
    requires
        shows_board(report, None),
    ensures
        report.stage is None,
        report.next_stage is None,
        !report.paused,
        report.current_step@.len() == 0 && report.expected_action@.len() == 0,
        report.resume_hint@.len() == 0 && report.transition_block_reason@.len() == 0,
        report.next_transition_requirement@.len() == 0,
        report.backlog@.len() == 0,
        says_nothing(report) ==> report.violations@.len() == 0 && report.metrics is None
            && report.stage_transition is None && report.pending_questions@.len() == 0
            && report.invariant_status@.len() == 0 && report.invariant_summary@.len() == 0,
{
}

/// A report lists the tasks that wait, and says what the active one needs next.
pub proof fn a_report_lists_what_waits(report: StatefulReport, board: TaskBoard, i: int)
    requires
        shows_board(report, Some(board)),
        0 <= i < board.backlog@.len(),
        !crate::text::blank(board.backlog@[i].title@),
    ensures
        crate::text::texts(report.backlog@).contains(
            crate::text::trimmed(board.backlog@[i].title@),
        ),
        report.next_transition_requirement@ == crate::chat::store::requirement(board.active),
{
    waiting_tasks_are_shown_by_title(board.backlog@[i]);
    every_waiting_task_is_listed(board.backlog@, i);
}

/// A message is read against the task that it goes over to: what it means for the
/// task is decided there, and only a message that means nothing for it is held
/// against the stage. Its answer is the answer of the turn.
pub proof fn control_comes_before_the_guard(
    a: TaskBoard,
    b: TaskBoard,
    prompt: Seq<char>,
    reading: PromptReading,
    hint: Seq<char>,
    r: Option<LocalReply>,
)
    requires
        board_begun(a, b, prompt, reading, hint, r),
        reading.switch_back is None,
        !reading.starts_new,
    ensures
        b.backlog == a.backlog,
        a.active.paused ==> r is Some && crate::chat::swarm::lifecycle::controlled(
            a.active,
            b.active,
            crate::chat::swarm::lifecycle::control_intent(prompt),
            reading.supplies_next_info,
            hint,
            r,
        ),
        !a.active.paused && crate::chat::swarm::lifecycle::pauses(
            crate::chat::swarm::lifecycle::control_intent(prompt),
        ) ==> r is Some && b.active.paused && b.active.stage == a.active.stage,
        r is None ==> b == a,
{
}

} // verus!
