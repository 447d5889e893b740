//! One turn as a machine: it says which agent is to run, is told what came of
//! it, and says what is next, until the turn has ended.
use vstd::prelude::*;

use crate::chat::memory::MemoryStrategy;
use crate::chat::store::{
    AgentProfile, StageTransition, TaskArtifact, TaskBoard, TaskContext, TaskPipelineStage,
    TaskStage, TaskWorkerAgent,
};
use crate::chat::swarm::agent::{
    InvariantCheckStatus, PreparedRequest, RequestSetup, SubAgentOutcome,
};
use crate::chat::swarm::agents::responder::{lifecycle_safe_control, resolved_stage_rules};
use crate::chat::swarm::config::SubAgentRole;
use crate::chat::swarm::lifecycle::{
    apply_stage_completion, lifecycle_block_message, LocalReply, PromptReading,
};
use crate::chat::swarm::orchestrator::{
    begin_board, board_report, build_invariant_refusal, build_invariant_unverified_response, commit,
    invariant_status_label, invariant_summary, judge, local_chat_response,
    local_invariant_violations_after_sanitize, stage_responder_role, user_evidence_context,
    StatefulReport, StreamPrep, MAX_INVARIANT_RETRIES,
};
use crate::chat::swarm::prompt_builder::{PromptBuilder, PromptLayers};
use crate::chat::swarm::task_facts::{
    capture_profile_fields, extract_legal_task_facts, seed_task_progress,
};
use crate::providers::{ChatMessage, RequestMetrics, Role};
use crate::text::{cat3, clone_list, is_blank, trim, truncate};

verus! {

broadcast use vstd::string::group_string_axioms;

/// Where a turn stands.
#[derive(Debug, Clone, Copy, PartialEq, Eq, Structural)]
pub enum TurnPhase {
    /// The message has not been read.
    Start,
    /// Facts are gathered before the answer.
    PreMemory,
    /// The message is routed to a topic.
    Topic,
    /// A worker of the stage is asked.
    Worker,
    /// The responder is asked.
    Respond,
    /// The answer is checked against the invariants.
    Check,
    /// The answer is cleaned and read.
    Settle,
    /// Facts are gathered after the answer.
    PostMemory,
    /// What is old is summed up.
    Summary,
    /// The profile is filled.
    Profile,
    /// Nothing is left to do.
    Ended,
}

/// What a turn ended with.
#[derive(Debug, Clone, Copy, PartialEq, Eq, Structural)]
pub enum TurnEnding {
    /// It has not ended.
    Open,
    /// A reply of the lifecycle; no responder was asked.
    Local,
    /// A reply of the routing; no responder was asked.
    Routed,
    /// An answer, or the refusal in its place.
    Answered,
}

/// What is to be done next.
#[derive(Debug, PartialEq, Eq)]
pub enum TurnAction {
    /// Run the agent that gathers facts.
    LearnFacts,
    /// Run the agent that routes to a topic.
    RouteTopic,
    /// Ask a worker.
    AskWorker { worker: TaskWorkerAgent },
    /// Ask the responder of a role.
    AskResponder { role: SubAgentRole },
    /// Check an answer.
    CheckAnswer { answer: String },
    /// Clean and read an answer, given all that the user has said.
    ReadAnswer { answer: String, evidence: String },
    /// Run the agent that sums up.
    Summarize,
    /// Run the agent that fills the profile.
    FillProfile,
    /// Give the reply out.
    Finish,
    /// The event does not belong to the phase; nothing has changed.
    Ignore,
}

/// What is read out of an answer.
#[derive(Debug, PartialEq, Eq)]
pub struct AnswerReading {
    /// The cleaned answer.
    pub answer: String,
    /// Whether the cleaned answer invents no legal norms.
    pub invents_no_norms: bool,
    /// Whether the answer does nothing but refuse for an invariant's sake.
    pub compliance_only: bool,
    /// What the task is called after the message, should it have no title.
    pub title: String,
    /// What the exchange has decided.
    pub decision: Option<String>,
    /// What the message tells about the task.
    pub facts: Vec<(String, String)>,
    pub now: u64,
}

/// What came of an action.
#[derive(Debug, PartialEq, Eq)]
pub enum TurnEvent {
    /// The message was read; `hint` is what a pause of the task is taken up
    /// with.
    Read { reading: PromptReading, hint: String },
    /// Facts were gathered.
    Learned { metrics: Option<RequestMetrics> },
    /// The message was routed; a message ends the turn.
    Routed { message: Option<String>, metrics: Option<RequestMetrics> },
    /// A worker has finished, with the key and the value of its artifact.
    WorkerDone { artifact: Option<(String, String)>, metrics: Option<RequestMetrics> },
    /// The responder has finished.
    Responded { outcome: SubAgentOutcome },
    /// The answer was checked.
    Checked { status: InvariantCheckStatus, violations: Vec<String> },
    /// The answer was read.
    AnswerRead { reading: AnswerReading },
    /// What was old was summed up, if anything.
    Summarized { metrics: Option<RequestMetrics> },
    /// The profile was filled.
    Filled { profile: AgentProfile, metrics: Option<RequestMetrics> },
}

/// One turn.
#[derive(Debug, PartialEq, Eq)]
pub struct SwarmTurn {
    pub board: Option<TaskBoard>,
    pub agent_profile: Option<AgentProfile>,
    pub history: Vec<ChatMessage>,
    pub strategy: MemoryStrategy,
    pub invariants: Vec<String>,
    pub prompt: String,
    /// How often a responder may be asked again.
    pub retry_limit: usize,
    pub phase: TurnPhase,
    /// The worker that is asked.
    pub worker: usize,
    /// How often the responder was asked again.
    pub retries: usize,
    /// What the workers have produced in this turn.
    pub worker_outputs: Vec<TaskArtifact>,
    /// What the answer before this one broke.
    pub retry_violations: Vec<String>,
    /// What the responder has brought back.
    pub answer: Option<String>,
    pub stage_complete: bool,
    pub artifact: Option<(String, String)>,
    pub status: InvariantCheckStatus,
    pub violations: Vec<String>,
    pub transition: Option<StageTransition>,
    /// What the user is given.
    pub reply: String,
    pub ending: TurnEnding,
    /// What the requests of the responder took, in their order.
    pub main_metrics: Vec<RequestMetrics>,
    /// What the requests of all other agents took, in their order.
    pub aux_metrics: Vec<RequestMetrics>,
}

/// The worker of the task's stage at `index`.
pub open spec fn worker_at(task: TaskContext, index: int) -> Option<TaskWorkerAgent> {
    match crate::chat::store::pipeline_entry(task.pipeline@, task.stage, 0) {
        Some(i) if 0 <= index < task.pipeline@[i].worker_agents@.len() => Some(
            task.pipeline@[i].worker_agents@[index],
        ),
        _ => None,
    }
}

/// Why a worker without an identifier stops a stage.
pub open spec fn nameless_worker(task: TaskContext) -> Seq<char> {
    "Pipeline worker для стадии "@ + crate::chat::store::stage_name(task.stage)
        + " не имеет обязательного id."@
}

/// Why a worker without a result stops a stage.
pub open spec fn fruitless_worker(task: TaskContext, id: Seq<char>) -> Seq<char> {
    "Pipeline worker `"@ + crate::text::trimmed(id) + "` не создал результат; стадия "@
        + crate::chat::store::stage_name(task.stage) + " остановлена."@
}

/// `b` is `a` after it ended with a reply of its own.
pub open spec fn ended_with(
    a: SwarmTurn,
    b: SwarmTurn,
    ending: TurnEnding,
    message: Seq<char>,
    transition: Option<StageTransition>,
) -> bool {
    &&& b == (SwarmTurn {
        phase: TurnPhase::Ended,
        ending,
        history: b.history,
        reply: b.reply,
        transition,
        ..a
    })
    &&& b.reply@ == message
    &&& crate::providers::message_views(b.history@)
        == crate::chat::swarm::orchestrator::committed(
        crate::providers::message_views(a.history@),
        a.prompt@,
        message,
    )
}

/// `b` is `a` after its stage was stopped for `reason`.
pub open spec fn stopped(a: SwarmTurn, b: SwarmTurn, reason: Seq<char>) -> bool {
    a.board matches Some(before) && b.board matches Some(after) && {
        &&& after.backlog == before.backlog
        &&& crate::chat::store::held_back(before.active, after.active, reason)
        &&& ended_with(
            (SwarmTurn { board: b.board, ..a }),
            b,
            TurnEnding::Local,
            crate::chat::swarm::lifecycle::block_message(before.active.stage, reason),
            None,
        )
    }
}

/// `b` is `a` with the responder to be asked.
pub open spec fn turns_to_responder(a: SwarmTurn, b: SwarmTurn, action: TurnAction) -> bool {
    &&& b == (SwarmTurn { phase: TurnPhase::Respond, retry_violations: b.retry_violations, ..a })
    &&& b.retry_violations@.len() == 0
    &&& action == (TurnAction::AskResponder {
        role: crate::chat::swarm::orchestrator::responder_role(a.board),
    })
}

/// `b` is `a` with the worker at `index` to be asked, or with the responder
/// where no worker is left.
pub open spec fn turns_to_worker(a: SwarmTurn, b: SwarmTurn, index: int, action: TurnAction) -> bool {
    match a.board {
        Some(board) if !board.active.paused && worker_at(board.active, index) is Some => {
            let worker = worker_at(board.active, index)->0;
            if crate::text::blank(worker.id@) {
                stopped(a, b, nameless_worker(board.active)) && action is Finish
            } else {
                &&& b == (SwarmTurn { phase: TurnPhase::Worker, worker: index as usize, ..a })
                &&& index <= usize::MAX
                &&& action == (TurnAction::AskWorker { worker })
            }
        },
        _ => turns_to_responder(a, b, action),
    }
}

/// `b` is `a` after the message let the agents run.
pub open spec fn proceeds(a: SwarmTurn, b: SwarmTurn, action: TurnAction) -> bool {
    if a.strategy == MemoryStrategy::StickyFacts {
        b == (SwarmTurn { phase: TurnPhase::PreMemory, ..a }) && action is LearnFacts
    } else if a.strategy == MemoryStrategy::ScopedBranches {
        b == (SwarmTurn { phase: TurnPhase::Topic, ..a }) && action is RouteTopic
    } else {
        turns_to_worker(a, b, 0, action)
    }
}

/// What a reading of the message leads to.
pub open spec fn begun(
    a: SwarmTurn,
    b: SwarmTurn,
    reading: PromptReading,
    hint: Seq<char>,
    action: TurnAction,
) -> bool {
    match a.board {
        None => proceeds(a, b, action),
        Some(before) => exists|after: TaskBoard, reply: Option<LocalReply>| #[trigger]
            crate::chat::swarm::orchestrator::board_begun(
                before,
                after,
                a.prompt@,
                reading,
                hint,
                reply,
            ) && {
                let mid = SwarmTurn { board: Some(after), ..a };
                match reply {
                    Some(reply) => ended_with(
                        mid,
                        b,
                        TurnEnding::Local,
                        reply.message@,
                        reply.transition,
                    ) && action is Finish,
                    None => proceeds(mid, b, action),
                }
            },
    }
}

/// `b` is `a` with a worker's artifact: among the outputs of the turn and among
/// the artifacts of the task.
pub open spec fn produced(a: SwarmTurn, b: SwarmTurn, key: Seq<char>, value: Seq<char>) -> bool {
    a.board matches Some(before) && b.board matches Some(after) && {
        &&& b == (SwarmTurn { board: b.board, worker_outputs: b.worker_outputs, ..a })
        &&& after.backlog == before.backlog
        &&& crate::chat::store::recorded(before.active, after.active, key, value)
        &&& b.worker_outputs@.len() == a.worker_outputs@.len() + 1
        &&& b.worker_outputs@.drop_last() == a.worker_outputs@
        &&& b.worker_outputs@.last() == after.active.artifacts@.last()
    }
}

/// What a worker's result leads to.
pub open spec fn worked(
    a: SwarmTurn,
    b: SwarmTurn,
    artifact: Option<(String, String)>,
    action: TurnAction,
) -> bool {
    match a.board {
        None => turns_to_responder(a, b, action),
        Some(board) => match artifact {
            Some((key, value)) => exists|mid: SwarmTurn| #[trigger]
                produced(a, mid, key@, value@) && turns_to_worker(mid, b, a.worker + 1, action),
            None => {
                let id = match worker_at(board.active, a.worker as int) {
                    Some(worker) => worker.id@,
                    None => Seq::empty(),
                };
                stopped(a, b, fruitless_worker(board.active, id)) && action is Finish
            },
        },
    }
}

/// The answer that waits to be given out.
pub open spec fn pending_answer(turn: SwarmTurn) -> Seq<char> {
    match turn.answer {
        Some(answer) => answer@,
        None => Seq::empty(),
    }
}

/// `b` is `a` with the pending answer to be read.
pub open spec fn turns_to_reading(a: SwarmTurn, b: SwarmTurn, action: TurnAction) -> bool {
    &&& b == (SwarmTurn { phase: TurnPhase::Settle, retry_violations: b.retry_violations, ..a })
    &&& b.retry_violations@.len() == 0
    &&& action matches TurnAction::ReadAnswer { answer, evidence } && answer@ == pending_answer(a)
        && evidence@ == crate::chat::swarm::orchestrator::evidence(
        crate::providers::message_views(a.history@),
        a.prompt@,
    )
}

/// What the responder's outcome leads to: with invariants a check, else the
/// reading.
pub open spec fn responded(
    a: SwarmTurn,
    b: SwarmTurn,
    outcome: SubAgentOutcome,
    action: TurnAction,
) -> bool {
    let mid = SwarmTurn {
        answer: outcome.answer,
        stage_complete: outcome.stage_complete,
        artifact: outcome.artifact,
        ..a
    };
    if a.invariants@.len() > 0 {
        &&& b == (SwarmTurn { phase: TurnPhase::Check, ..mid })
        &&& action matches TurnAction::CheckAnswer { answer } && answer@ == pending_answer(mid)
    } else {
        turns_to_reading(mid, b, action)
    }
}

/// What a check leads to: an answer that breaks an invariant is asked for again
/// while that is allowed, any other is read.
pub open spec fn checked(
    a: SwarmTurn,
    b: SwarmTurn,
    status: InvariantCheckStatus,
    violations: Vec<String>,
    action: TurnAction,
) -> bool {
    let mid = SwarmTurn { status, violations, ..a };
    if status == InvariantCheckStatus::Failed && a.retries < a.retry_limit {
        &&& b == (SwarmTurn {
            phase: TurnPhase::Respond,
            retries: (a.retries + 1) as usize,
            retry_violations: b.retry_violations,
            ..mid
        })
        &&& crate::text::texts(b.retry_violations@) == crate::text::texts(violations@)
        &&& action == (TurnAction::AskResponder {
            role: crate::chat::swarm::orchestrator::responder_role(a.board),
        })
    } else {
        turns_to_reading(mid, b, action)
    }
}

/// The violations that are left in an answer.
pub open spec fn left_broken(turn: SwarmTurn, reading: AnswerReading) -> Seq<Seq<char>> {
    crate::chat::swarm::orchestrator::surviving(
        turn.invariants@,
        turn.violations@,
        reading.invents_no_norms,
    )
}

/// Whether an answer is withheld: it breaks an invariant, or could not be
/// checked.
pub open spec fn withheld(turn: SwarmTurn, reading: AnswerReading) -> bool {
    left_broken(turn, reading).len() > 0 || turn.status == InvariantCheckStatus::Unavailable
}

/// Whether an answer that is read so leaves the task as it is: it is withheld, or
/// does nothing but refuse for an invariant's sake.
pub open spec fn untold(turn: SwarmTurn, invents_no_norms: bool, compliance_only: bool) -> bool {
    ||| crate::chat::swarm::orchestrator::surviving(
        turn.invariants@,
        turn.violations@,
        invents_no_norms,
    ).len() > 0
    ||| turn.status == InvariantCheckStatus::Unavailable
    ||| compliance_only
}

/// Whether an answer leaves the task as it is.
pub open spec fn leaves_task(turn: SwarmTurn, reading: AnswerReading) -> bool {
    untold(turn, reading.invents_no_norms, reading.compliance_only)
}

/// What an answer that is given out does to the task.
pub open spec fn task_answered(
    turn: SwarmTurn,
    reading: AnswerReading,
    a: TaskContext,
    b: TaskContext,
    r: Option<StageTransition>,
) -> bool {
    exists|mid: TaskContext| #[trigger]
        crate::chat::swarm::task_facts::seeded(
            a,
            mid,
            turn.prompt@,
            reading.title@,
            crate::chat::swarm::task_facts::fact_views(reading.facts@),
            crate::text::option_text(reading.decision),
        ) && crate::chat::swarm::lifecycle::completed(
            mid,
            b,
            turn.stage_complete,
            crate::chat::swarm::lifecycle::reported(mid.stage, turn.artifact).0,
            crate::chat::swarm::lifecycle::reported(mid.stage, turn.artifact).1,
            r,
        )
}

/// Whether `b` is `a` but for its violations, which are `left`.
pub open spec fn violations_noted(a: TaskContext, b: TaskContext, left: Seq<Seq<char>>) -> bool {
    b == (TaskContext { violations: b.violations, ..a }) && crate::text::texts(b.violations@) == left
}

/// What an answer does to the tasks.
pub open spec fn board_settled(
    turn: SwarmTurn,
    reading: AnswerReading,
    after: Option<TaskBoard>,
    r: Option<StageTransition>,
) -> bool {
    let left = left_broken(turn, reading);
    match turn.board {
        None => after is None && r is None,
        Some(before) => after matches Some(after) && after.backlog == before.backlog && {
            if leaves_task(turn, reading) {
                r is None && violations_noted(before.active, after.active, left)
            } else {
                exists|fin: TaskContext| #[trigger]
                    task_answered(turn, reading, before.active, fin, r) && violations_noted(
                        fin,
                        after.active,
                        left,
                    )
            }
        },
    }
}

/// What an answer does to the profile: the message of a turn with a task fills
/// its empty fields.
pub open spec fn profile_settled(
    turn: SwarmTurn,
    reading: AnswerReading,
    after: Option<AgentProfile>,
) -> bool {
    let facts = crate::chat::swarm::task_facts::fact_views(reading.facts@);
    match turn.agent_profile {
        Some(before) if turn.board is Some && !leaves_task(turn, reading) && !crate::text::blank(
            turn.prompt@,
        ) => after matches Some(after) && crate::chat::swarm::task_facts::profile_captured(
            before,
            after,
            facts,
            reading.now,
        ),
        _ => after == turn.agent_profile,
    }
}

/// What the reading of an answer leads to.
pub open spec fn settled(
    a: SwarmTurn,
    b: SwarmTurn,
    reading: AnswerReading,
    action: TurnAction,
) -> bool {
    let left = left_broken(a, reading);
    let after_memory = a.strategy == MemoryStrategy::StickyFacts;
    &&& b == (SwarmTurn {
        board: b.board,
        agent_profile: b.agent_profile,
        history: b.history,
        violations: b.violations,
        status: crate::chat::swarm::orchestrator::final_status(
            a.status,
            a.invariants@.len() > 0,
            left.len() > 0,
        ),
        transition: b.transition,
        reply: b.reply,
        ending: TurnEnding::Answered,
        phase: if after_memory {
            TurnPhase::Summary
        } else {
            TurnPhase::PostMemory
        },
        ..a
    })
    &&& crate::text::texts(b.violations@) == left
    &&& b.reply@ == (if a.status == InvariantCheckStatus::Unavailable {
        crate::chat::swarm::orchestrator::unverified_text(a.invariants@)
    } else if left.len() > 0 {
        crate::chat::swarm::orchestrator::refusal_text(b.violations@)
    } else {
        reading.answer@
    })
    &&& crate::providers::message_views(b.history@)
        == crate::chat::swarm::orchestrator::committed(
        crate::providers::message_views(a.history@),
        a.prompt@,
        b.reply@,
    )
    &&& board_settled(a, reading, b.board, b.transition)
    &&& profile_settled(a, reading, b.agent_profile)
    &&& if after_memory {
        action is Summarize
    } else {
        action is LearnFacts
    }
}

/// Whether an event belongs to a phase.
pub open spec fn fits(phase: TurnPhase, event: TurnEvent) -> bool {
    match (phase, event) {
        (TurnPhase::Start, TurnEvent::Read { .. }) => true,
        (TurnPhase::PreMemory, TurnEvent::Learned { .. }) => true,
        (TurnPhase::Topic, TurnEvent::Routed { .. }) => true,
        (TurnPhase::Worker, TurnEvent::WorkerDone { .. }) => true,
        (TurnPhase::Respond, TurnEvent::Responded { .. }) => true,
        (TurnPhase::Check, TurnEvent::Checked { .. }) => true,
        (TurnPhase::Settle, TurnEvent::AnswerRead { .. }) => true,
        (TurnPhase::PostMemory, TurnEvent::Learned { .. }) => true,
        (TurnPhase::Summary, TurnEvent::Summarized { .. }) => true,
        (TurnPhase::Profile, TurnEvent::Filled { .. }) => true,
        _ => false,
    }
}

/// What the request of an agent other than the responder took.
pub open spec fn aux_of(event: TurnEvent) -> Option<RequestMetrics> {
    match event {
        TurnEvent::Learned { metrics } => metrics,
        TurnEvent::Routed { metrics, .. } => metrics,
        TurnEvent::WorkerDone { metrics, .. } => metrics,
        TurnEvent::Summarized { metrics } => metrics,
        TurnEvent::Filled { metrics, .. } => metrics,
        _ => None,
    }
}

/// What the request of the responder took.
pub open spec fn main_of(event: TurnEvent) -> Option<RequestMetrics> {
    match event {
        TurnEvent::Responded { outcome } => outcome.metrics,
        _ => None,
    }
}

/// A list with one more, where there is one.
pub open spec fn with_more(
    list: Seq<RequestMetrics>,
    more: Option<RequestMetrics>,
) -> Seq<RequestMetrics> {
    match more {
        Some(metrics) => list.push(metrics),
        None => list,
    }
}

/// `b` is `a` with what an event took noted.
pub open spec fn counted(a: SwarmTurn, b: SwarmTurn, event: TurnEvent) -> bool {
    &&& b == (SwarmTurn { main_metrics: b.main_metrics, aux_metrics: b.aux_metrics, ..a })
    &&& b.main_metrics@ == with_more(a.main_metrics@, main_of(event))
    &&& b.aux_metrics@ == with_more(a.aux_metrics@, aux_of(event))
}

/// What an event leads to, once what it took has been noted.
pub open spec fn taken(a: SwarmTurn, b: SwarmTurn, event: TurnEvent, action: TurnAction) -> bool {
    match (a.phase, event) {
        (TurnPhase::Start, TurnEvent::Read { reading, hint }) => begun(a, b, reading, hint@, action),
        (TurnPhase::PreMemory, TurnEvent::Learned { .. }) => turns_to_worker(a, b, 0, action),
        (TurnPhase::Topic, TurnEvent::Routed { message: Some(message), .. }) => ended_with(
            a,
            b,
            TurnEnding::Routed,
            message@,
            None,
        ) && action is Finish,
        (TurnPhase::Topic, TurnEvent::Routed { message: None, .. }) => turns_to_worker(
            a,
            b,
            0,
            action,
        ),
        (TurnPhase::Worker, TurnEvent::WorkerDone { artifact, .. }) => worked(a, b, artifact, action),
        (TurnPhase::Respond, TurnEvent::Responded { outcome }) => responded(a, b, outcome, action),
        (TurnPhase::Check, TurnEvent::Checked { status, violations }) => checked(
            a,
            b,
            status,
            violations,
            action,
        ),
        (TurnPhase::Settle, TurnEvent::AnswerRead { reading }) => settled(a, b, reading, action),
        (TurnPhase::PostMemory, TurnEvent::Learned { .. }) => b == (SwarmTurn {
            phase: TurnPhase::Summary,
            ..a
        }) && action is Summarize,
        (TurnPhase::Summary, TurnEvent::Summarized { .. }) => if a.agent_profile is Some {
            b == (SwarmTurn { phase: TurnPhase::Profile, ..a }) && action is FillProfile
        } else {
            b == (SwarmTurn { phase: TurnPhase::Ended, ..a }) && action is Finish
        },
        (TurnPhase::Profile, TurnEvent::Filled { profile, .. }) => b == (SwarmTurn {
            phase: TurnPhase::Ended,
            agent_profile: Some(profile),
            ..a
        }) && action is Finish,
        _ => b == a && action is Ignore,
    }
}

/// What an event leads to: what it took is noted, and the turn goes on. An event
/// that does not belong to the phase changes nothing.
pub open spec fn stepped(a: SwarmTurn, b: SwarmTurn, event: TurnEvent, action: TurnAction) -> bool {
    if fits(a.phase, event) {
        exists|mid: SwarmTurn| #[trigger]
            counted(a, mid, event) && taken(mid, b, event, action)
    } else {
        b == a && action is Ignore
    }
}

/// What a turn does not hold of its responder's prompt.
#[derive(Debug)]
pub struct TurnContext<'a> {
    /// What memory keeps of the conversation.
    pub messages: Vec<ChatMessage>,
    /// What the agent is specialized in; may be empty.
    pub domain: &'a str,
    /// The agent's profile, where there is something to show.
    pub profile_block: Option<&'a str>,
    /// How the task is shown, where there is one.
    pub task_block: &'a str,
    /// The user's profile, where there is something to show.
    pub user_block: Option<&'a str>,
}

/// Whether `layers` are those of a turn.
pub open spec fn turn_layers(turn: SwarmTurn, context: TurnContext, layers: PromptLayers) -> bool {
    &&& layers.domain@ == context.domain@
    &&& layers.profile_block == context.profile_block
    &&& match turn.board {
        Some(board) => layers.task matches Some((task, shown)) && *task == board.active && shown
            == context.task_block,
        None => layers.task is None,
    }
    &&& layers.worker_outputs@ == turn.worker_outputs@
    &&& layers.invariants@ == turn.invariants@
    &&& layers.retry_violations@ == turn.retry_violations@
    &&& layers.user_block == context.user_block
}

/// Whether `prepared` is what a turn asks its responder.
pub open spec fn asks_responder(
    turn: SwarmTurn,
    setup: RequestSetup,
    context: TurnContext,
    prepared: PreparedRequest,
) -> bool {
    let role = crate::chat::swarm::orchestrator::responder_role(turn.board);
    &&& crate::chat::swarm::agent::responds_with(setup, role, prepared.profile, prepared.token@)
    &&& prepared.request.model == prepared.profile.model
    &&& crate::chat::swarm::agents::responder::safe_control(
        setup.control,
        role,
        prepared.request.control,
    )
    &&& prepared.request.pricing == setup.pricing
    &&& prepared.request.billing == setup.billing
    &&& exists|layers: PromptLayers| #[trigger]
        turn_layers(turn, context, layers) && crate::providers::message_views(
            prepared.request.messages@,
        ) == crate::chat::swarm::prompt_builder::layered(
            crate::providers::message_views(context.messages@),
            crate::chat::swarm::prompt_builder::layer_texts(
                layers,
                crate::chat::swarm::agents::responder::rules_for(setup.roster, role),
            ),
        ).push((Role::User, turn.prompt@))
}

/// Whether every task of the turn has what its stage presupposes.
pub open spec fn turn_gated(turn: SwarmTurn) -> bool {
    turn.board matches Some(board) ==> crate::chat::swarm::lifecycle::all_gated(board)
}

fn worker_of(task: &TaskContext, index: usize) -> (r: Option<TaskWorkerAgent>)
    ensures
        r == worker_at(*task, index as int),
        index == usize::MAX ==> worker_at(*task, index + 1) is None,
{
    match task.active_pipeline_stage() {
        Some(stage) => if index < stage.worker_agents.len() {
            Some(stage.worker_agents[index].clone())
        } else {
            None
        },
        None => None,
    }
}

impl SwarmTurn {
    /// A turn that has not begun. A streamed answer is not asked for again.
    pub fn new(
        board: Option<TaskBoard>,
        agent_profile: Option<AgentProfile>,
        history: Vec<ChatMessage>,
        strategy: MemoryStrategy,
        invariants: Vec<String>,
        prompt: String,
        streamed: bool,
    ) -> (r: Self)
        ensures
            r.board == board,
            r.agent_profile == agent_profile,
            r.history == history,
            r.strategy == strategy,
            r.invariants == invariants,
            r.prompt == prompt,
            r.retry_limit == (if streamed {
                0
            } else {
                MAX_INVARIANT_RETRIES
            }),
            r.phase == TurnPhase::Start,
            r.worker == 0,
            r.retries == 0,
            r.worker_outputs@.len() == 0,
            r.retry_violations@.len() == 0,
            r.answer is None,
            !r.stage_complete,
            r.artifact is None,
            r.status == InvariantCheckStatus::NotRun,
            r.violations@.len() == 0,
            r.transition is None,
            r.reply@.len() == 0,
            r.ending == TurnEnding::Open,
            r.main_metrics@.len() == 0,
            r.aux_metrics@.len() == 0,
    {
        SwarmTurn {
            board,
            agent_profile,
            history,
            strategy,
            invariants,
            prompt,
            retry_limit: if streamed {
                0
            } else {
                MAX_INVARIANT_RETRIES
            },
            phase: TurnPhase::Start,
            worker: 0,
            retries: 0,
            worker_outputs: Vec::new(),
            retry_violations: Vec::new(),
            answer: None,
            stage_complete: false,
            artifact: None,
            status: InvariantCheckStatus::NotRun,
            violations: Vec::new(),
            transition: None,
            reply: String::new(),
            ending: TurnEnding::Open,
            main_metrics: Vec::new(),
            aux_metrics: Vec::new(),
        }
    }

    fn end(
        &mut self,
        ending: TurnEnding,
        message: String,
        transition: Option<StageTransition>,
    ) -> (r: TurnAction)
        ensures
            ended_with(*old(self), *final(self), ending, message@, transition),
            r is Finish,
    {
        commit(&mut self.history, self.prompt.as_str(), message.as_str());
        self.phase = TurnPhase::Ended;
        self.ending = ending;
        self.reply = message;
        self.transition = transition;
        TurnAction::Finish
    }

    fn stop(&mut self, reason: String) -> (r: TurnAction)
        requires
            old(self).board is Some,
        ensures
            stopped(*old(self), *final(self), reason@),
            r is Finish,
            turn_gated(*old(self)) ==> turn_gated(*final(self)),
    {
        let mut message = String::new();
        if let Some(mut board) = self.board.take() {
            let ghost before = board;
            message = lifecycle_block_message(board.active.stage, reason.as_str());
            board.active.transition_block_reason = reason;
            self.board = Some(board);
            proof {
                lemma_same_backlog_keeps_gates(before, self.board->0);
            }
        }
        self.end(TurnEnding::Local, message, None)
    }

    fn role(&self) -> (r: SubAgentRole)
        ensures
            r == crate::chat::swarm::orchestrator::responder_role(self.board),
    {
        match &self.board {
            Some(board) => stage_responder_role(board.active.stage),
            None => SubAgentRole::General,
        }
    }

    fn turn_to_responder(&mut self) -> (r: TurnAction)
        ensures
            turns_to_responder(*old(self), *final(self), r),
    {
        self.phase = TurnPhase::Respond;
        self.retry_violations = Vec::new();
        TurnAction::AskResponder { role: self.role() }
    }

    fn turn_to_worker(&mut self, index: usize) -> (r: TurnAction)
        ensures
            turns_to_worker(*old(self), *final(self), index as int, r),
            turn_gated(*old(self)) ==> turn_gated(*final(self)),
    {
        let worker = match &self.board {
            Some(board) => if board.active.paused {
                None
            } else {
                worker_of(&board.active, index)
            },
            None => None,
        };
        match worker {
            Some(worker) => {
                if is_blank(worker.id.as_str()) {
                    let stage = match &self.board {
                        Some(board) => board.active.stage.name(),
                        None => "",
                    };
                    let reason = cat3(
                        "Pipeline worker для стадии ",
                        stage,
                        " не имеет обязательного id.",
                    );
                    return self.stop(reason);
                }
                self.phase = TurnPhase::Worker;
                self.worker = index;
                TurnAction::AskWorker { worker }
            },
            None => self.turn_to_responder(),
        }
    }

    fn proceed(&mut self) -> (r: TurnAction)
        ensures
            proceeds(*old(self), *final(self), r),
            turn_gated(*old(self)) ==> turn_gated(*final(self)),
    {
        match self.strategy {
            MemoryStrategy::StickyFacts => {
                self.phase = TurnPhase::PreMemory;
                TurnAction::LearnFacts
            },
            MemoryStrategy::ScopedBranches => {
                self.phase = TurnPhase::Topic;
                TurnAction::RouteTopic
            },
            _ => self.turn_to_worker(0),
        }
    }

    fn begin(&mut self, reading: PromptReading, hint: String) -> (r: TurnAction)
        ensures
            begun(*old(self), *final(self), reading, hint@, r),
            turn_gated(*old(self)) ==> turn_gated(*final(self)),
    {
        match self.board.take() {
            Some(mut board) => {
                let ghost before = board;
                let reply = begin_board(&mut board, self.prompt.as_str(), &reading, hint.as_str());
                let ghost after = board;
                self.board = Some(board);
                assert(crate::chat::swarm::orchestrator::board_begun(
                    before,
                    after,
                    old(self).prompt@,
                    reading,
                    hint@,
                    reply,
                ));
                assert(*self == (SwarmTurn { board: Some(after), ..*old(self) }));
                match reply {
                    Some(reply) => self.end(TurnEnding::Local, reply.message, reply.transition),
                    None => self.proceed(),
                }
            },
            None => {
                assert(*self == *old(self));
                self.proceed()
            },
        }
    }

    fn take_worker(&mut self, artifact: Option<(String, String)>) -> (r: TurnAction)
        ensures
            worked(*old(self), *final(self), artifact, r),
            turn_gated(*old(self)) ==> turn_gated(*final(self)),
    {
        let index: usize = self.worker;
        let mut board = match self.board.take() {
            Some(board) => board,
            None => {
                assert(*self == *old(self));
                return self.turn_to_responder();
            },
        };
        let ghost before = board;
        match artifact {
            Some((key, value)) => {
                let artifact = TaskArtifact { stage: board.active.stage, key, value };
                let last = worker_of(&board.active, index);
                self.worker_outputs.push(artifact.clone());
                board.active.artifacts.push(artifact);
                assert(board.active.artifacts@.drop_last() =~= before.active.artifacts@);
                assert(self.worker_outputs@.drop_last() =~= old(self).worker_outputs@);
                proof {
                    lemma_same_backlog_keeps_gates(before, board);
                }
                self.board = Some(board);
                assert(produced(*old(self), *self, key@, value@));
                if index == usize::MAX {
                    self.turn_to_responder()
                } else {
                    self.turn_to_worker(index + 1)
                }
            },
            None => {
                let id = match worker_of(&board.active, index) {
                    Some(worker) => worker.id,
                    None => {
                        let none = String::new();
                        assert(none@ =~= Seq::<char>::empty());
                        none
                    },
                };
                let head = cat3(
                    "Pipeline worker `",
                    trim(id.as_str()),
                    "` не создал результат; стадия ",
                );
                let reason = cat3(head.as_str(), board.active.stage.name(), " остановлена.");
                self.board = Some(board);
                assert(*self == *old(self));
                self.stop(reason)
            },
        }
    }

    fn turn_to_reading(&mut self) -> (r: TurnAction)
        ensures
            turns_to_reading(*old(self), *final(self), r),
    {
        self.phase = TurnPhase::Settle;
        self.retry_violations = Vec::new();
        TurnAction::ReadAnswer {
            answer: self.pending(),
            evidence: user_evidence_context(&self.history, self.prompt.as_str()),
        }
    }

    fn pending(&self) -> (r: String)
        ensures
            r@ == pending_answer(*self),
    {
        match &self.answer {
            Some(answer) => answer.clone(),
            None => {
                let none = String::new();
                assert(none@ =~= Seq::<char>::empty());
                none
            },
        }
    }

    fn take_outcome(&mut self, outcome: SubAgentOutcome) -> (r: TurnAction)
        ensures
            responded(*old(self), *final(self), outcome, r),
            final(self).board == old(self).board,
    {
        self.answer = outcome.answer;
        self.stage_complete = outcome.stage_complete;
        self.artifact = outcome.artifact;
        if self.invariants.is_empty() {
            return self.turn_to_reading();
        }
        self.phase = TurnPhase::Check;
        TurnAction::CheckAnswer { answer: self.pending() }
    }

    fn take_check(&mut self, status: InvariantCheckStatus, violations: Vec<String>) -> (r: TurnAction)
        ensures
            checked(*old(self), *final(self), status, violations, r),
            final(self).board == old(self).board,
    {
        self.status = status;
        self.violations = violations;
        if status == InvariantCheckStatus::Failed && self.retries < self.retry_limit {
            self.retries = self.retries + 1;
            self.retry_violations = clone_list(&self.violations);
            self.phase = TurnPhase::Respond;
            return TurnAction::AskResponder { role: self.role() };
        }
        self.turn_to_reading()
    }
}

proof fn lemma_same_backlog_keeps_gates(a: TaskBoard, b: TaskBoard)
    requires
        b.backlog == a.backlog,
        crate::chat::store::gated(a.active) ==> crate::chat::store::gated(b.active),
    ensures
        crate::chat::swarm::lifecycle::all_gated(a)
            ==> crate::chat::swarm::lifecycle::all_gated(b),
{
    if crate::chat::swarm::lifecycle::all_gated(a) {
        assert forall|i: int| 0 <= i < b.backlog@.len() implies #[trigger] crate::chat::store::gated(
            b.backlog@[i],
        ) by {
            assert(crate::chat::store::gated(a.backlog@[i]));
        }
    }
}

/// What an answer does to the active task.
pub open spec fn active_settled(
    turn: SwarmTurn,
    reading: AnswerReading,
    a: TaskContext,
    b: TaskContext,
    r: Option<StageTransition>,
) -> bool {
    let left = left_broken(turn, reading);
    if leaves_task(turn, reading) {
        r is None && violations_noted(a, b, left)
    } else {
        exists|fin: TaskContext| #[trigger]
            task_answered(turn, reading, a, fin, r) && violations_noted(fin, b, left)
    }
}

fn settle_task(
    task: &mut TaskContext,
    Ghost(turn): Ghost<SwarmTurn>,
    prompt: &str,
    stage_complete: bool,
    artifact: Option<(String, String)>,
    unchecked: bool,
    reading: &AnswerReading,
    left: &Vec<String>,
) -> (r: Option<StageTransition>)
    requires
        unchecked == (turn.status == InvariantCheckStatus::Unavailable),
        turn.prompt@ == prompt@,
        turn.stage_complete == stage_complete,
        turn.artifact == artifact,
        crate::text::texts(left@) == left_broken(turn, *reading),
    ensures
        active_settled(turn, *reading, *old(task), *final(task), r),
        crate::chat::store::lifecycle_step(*old(task), *final(task)),
        crate::chat::store::gated(*old(task)) ==> crate::chat::store::gated(*final(task)),
{
    assert(left@.len() == crate::text::texts(left@).len());
    if unchecked || !left.is_empty() || reading.compliance_only {
        task.violations = clone_list(left);
        return None;
    }
    let ghost a = *task;
    seed_task_progress(
        task,
        prompt,
        reading.title.as_str(),
        &reading.facts,
        crate::text::clone_option(&reading.decision),
    );
    let ghost mid = *task;
    let transition = apply_stage_completion(task, stage_complete, artifact);
    let ghost fin = *task;
    assert(task_answered(turn, *reading, a, fin, transition));
    task.violations = clone_list(left);
    transition
}

fn take_artifact(artifact: &Option<(String, String)>) -> (r: Option<(String, String)>)
    ensures
        r == *artifact,
{
    match artifact {
        Some((key, value)) => Some((key.clone(), value.clone())),
        None => None,
    }
}

impl SwarmTurn {
    fn settle(&mut self, reading: AnswerReading) -> (r: TurnAction)
        ensures
            settled(*old(self), *final(self), reading, r),
            turn_gated(*old(self)) ==> turn_gated(*final(self)),
    {
        let ghost a = *self;
        let left = local_invariant_violations_after_sanitize(
            &self.invariants,
            clone_list(&self.violations),
            reading.invents_no_norms,
        );
        assert(crate::text::texts(left@) == left_broken(a, reading));
        assert(left@.len() == crate::text::texts(left@).len());
        let unchecked = self.status == InvariantCheckStatus::Unavailable;
        let keeps_task = unchecked || !left.is_empty() || reading.compliance_only;
        self.status = judge(self.status, !self.invariants.is_empty(), !left.is_empty());
        let reply = if unchecked {
            build_invariant_unverified_response(&self.invariants)
        } else if left.is_empty() {
            reading.answer.clone()
        } else {
            build_invariant_refusal(&left)
        };
        commit(&mut self.history, self.prompt.as_str(), reply.as_str());
        self.reply = reply;
        self.transition = None;
        let has_task = self.board.is_some();
        match self.board.take() {
            Some(mut board) => {
                let ghost before = board;
                let artifact = take_artifact(&self.artifact);
                self.transition = settle_task(
                    &mut board.active,
                    Ghost(a),
                    self.prompt.as_str(),
                    self.stage_complete,
                    artifact,
                    unchecked,
                    &reading,
                    &left,
                );
                proof {
                    lemma_same_backlog_keeps_gates(before, board);
                }
                self.board = Some(board);
            },
            None => {},
        }
        if has_task && !keeps_task && !is_blank(self.prompt.as_str()) {
            match self.agent_profile.take() {
                Some(mut profile) => {
                    capture_profile_fields(&mut profile, &reading.facts, reading.now);
                    self.agent_profile = Some(profile);
                },
                None => {},
            }
        }
        self.violations = left;
        self.ending = TurnEnding::Answered;
        if self.strategy == MemoryStrategy::StickyFacts {
            self.phase = TurnPhase::Summary;
            TurnAction::Summarize
        } else {
            self.phase = TurnPhase::PostMemory;
            TurnAction::LearnFacts
        }
    }

    fn count_main(&mut self, metrics: &Option<RequestMetrics>)
        ensures
            *final(self) == (SwarmTurn { main_metrics: final(self).main_metrics, ..*old(self) }),
            final(self).main_metrics@ == with_more(old(self).main_metrics@, *metrics),
    {
        if let Some(metrics) = metrics {
            self.main_metrics.push(metrics.clone());
        }
    }

    fn count_aux(&mut self, metrics: Option<RequestMetrics>)
        ensures
            *final(self) == (SwarmTurn { aux_metrics: final(self).aux_metrics, ..*old(self) }),
            final(self).aux_metrics@ == with_more(old(self).aux_metrics@, metrics),
    {
        if let Some(metrics) = metrics {
            self.aux_metrics.push(metrics);
        }
    }

    /// Takes what came of an action, and says what is next.
    pub fn step(&mut self, event: TurnEvent) -> (r: TurnAction)
        ensures
            stepped(*old(self), *final(self), event, r),
            turn_gated(*old(self)) ==> turn_gated(*final(self)),
    {
        match (self.phase, event) {
            (TurnPhase::Start, TurnEvent::Read { reading, hint }) => {
                assert(counted(*old(self), *self, event));
                self.begin(reading, hint)
            },
            (TurnPhase::PreMemory, TurnEvent::Learned { metrics }) => {
                self.count_aux(metrics);
                assert(counted(*old(self), *self, event));
                self.turn_to_worker(0)
            },
            (TurnPhase::Topic, TurnEvent::Routed { message, metrics }) => {
                self.count_aux(metrics);
                assert(counted(*old(self), *self, event));
                match message {
                    Some(message) => self.end(TurnEnding::Routed, message, None),
                    None => self.turn_to_worker(0),
                }
            },
            (TurnPhase::Worker, TurnEvent::WorkerDone { artifact, metrics }) => {
                self.count_aux(metrics);
                assert(counted(*old(self), *self, event));
                self.take_worker(artifact)
            },
            (TurnPhase::Respond, TurnEvent::Responded { outcome }) => {
                self.count_main(&outcome.metrics);
                assert(counted(*old(self), *self, event));
                self.take_outcome(outcome)
            },
            (TurnPhase::Check, TurnEvent::Checked { status, violations }) => {
                assert(counted(*old(self), *self, event));
                self.take_check(status, violations)
            },
            (TurnPhase::Settle, TurnEvent::AnswerRead { reading }) => {
                assert(counted(*old(self), *self, event));
                self.settle(reading)
            },
            (TurnPhase::PostMemory, TurnEvent::Learned { metrics }) => {
                self.count_aux(metrics);
                assert(counted(*old(self), *self, event));
                self.phase = TurnPhase::Summary;
                TurnAction::Summarize
            },
            (TurnPhase::Summary, TurnEvent::Summarized { metrics }) => {
                self.count_aux(metrics);
                assert(counted(*old(self), *self, event));
                if self.agent_profile.is_some() {
                    self.phase = TurnPhase::Profile;
                    TurnAction::FillProfile
                } else {
                    self.phase = TurnPhase::Ended;
                    TurnAction::Finish
                }
            },
            (TurnPhase::Profile, TurnEvent::Filled { profile, metrics }) => {
                self.count_aux(metrics);
                assert(counted(*old(self), *self, event));
                self.agent_profile = Some(profile);
                self.phase = TurnPhase::Ended;
                TurnAction::Finish
            },
            _ => TurnAction::Ignore,
        }
    }

    /// What is read out of an answer, with what the message tells about the
    /// task, where the answer goes on with one. None where it does and the
    /// message cannot be cut behind a label in it: its lower case takes another
    /// number of bytes.
    pub fn answer_reading(
        &self,
        answer: String,
        invents_no_norms: bool,
        compliance_only: bool,
        title: String,
        decision: Option<String>,
        now: u64,
    ) -> (r: Option<AnswerReading>)
        ensures
            ({
                let prompt = crate::text::trimmed(self.prompt@);
                let lower = crate::text::lowercase(prompt);
                let told = self.board is Some && !untold(*self, invents_no_norms, compliance_only);
                match r {
                    Some(reading) => {
                        &&& reading == (AnswerReading {
                            answer,
                            invents_no_norms,
                            compliance_only,
                            title,
                            decision,
                            facts: reading.facts,
                            now,
                        })
                        &&& if told {
                            &&& crate::chat::swarm::task_facts::label_in_place(
                                prompt,
                                lower,
                                "адрес"@,
                            )
                            &&& crate::chat::swarm::task_facts::fact_views(reading.facts@)
                                == crate::chat::swarm::task_facts::legal_facts(prompt, lower)
                        } else {
                            reading.facts@.len() == 0
                        }
                    },
                    None => told && !crate::chat::swarm::task_facts::label_in_place(
                        prompt,
                        lower,
                        "адрес"@,
                    ),
                }
            }),
    {
        let left = local_invariant_violations_after_sanitize(
            &self.invariants,
            clone_list(&self.violations),
            invents_no_norms,
        );
        assert(left@.len() == crate::text::texts(left@).len());
        let told = self.board.is_some() && self.status != InvariantCheckStatus::Unavailable
            && left.is_empty() && !compliance_only;
        let facts = if told {
            match extract_legal_task_facts(trim(self.prompt.as_str())) {
                Some(facts) => facts,
                None => {
                    return None;
                },
            }
        } else {
            Vec::new()
        };
        Some(
            AnswerReading {
                answer,
                invents_no_norms,
                compliance_only,
                title,
                decision,
                facts,
                now,
            },
        )
    }

    /// What a prompt shows before the user's profile: a value of it that is among
    /// these is not to be shown again. `profile_shown` says whether the agent's
    /// profile has something to show.
    pub fn shown_values(&self, domain: &str, profile_shown: bool) -> (r: Vec<String>)
        ensures
            crate::text::texts(r@) == crate::chat::swarm::prompt_builder::shown_before(
                domain@,
                if profile_shown {
                    self.agent_profile
                } else {
                    None
                },
                self.invariants@,
            ),
    {
        let profile = if profile_shown {
            self.agent_profile.as_ref()
        } else {
            None
        };
        PromptBuilder::shown_values(domain, profile, &self.invariants)
    }

    /// The request of the responder of this turn: who answers is decided by the
    /// stage of the task; the layers hold the task, what the workers have
    /// produced, the invariants, what the answer before this one broke, and the
    /// rules of the role with its own prompt; the user's message comes last.
    pub fn responder_request(&self, setup: &RequestSetup, context: TurnContext) -> (r:
        PreparedRequest)
        ensures
            asks_responder(*self, *setup, context, r),
    {
        let role = self.role();
        let rules = resolved_stage_rules(&setup.roster, role);
        let rules_text = match &rules {
            Some(text) => Some(text.as_str()),
            None => None,
        };
        let task = match &self.board {
            Some(board) => Some((&board.active, context.task_block)),
            None => None,
        };
        let layers = PromptLayers {
            domain: context.domain,
            profile_block: context.profile_block,
            task,
            worker_outputs: &self.worker_outputs,
            invariants: &self.invariants,
            retry_violations: &self.retry_violations,
            user_block: context.user_block,
        };
        let messages = PromptBuilder::build(
            context.messages,
            &layers,
            rules_text,
            self.prompt.as_str(),
        );
        let control = lifecycle_safe_control(&setup.control, role);
        let prepared = setup.responder_request(role, messages, control);
        assert(turn_layers(*self, context, layers));
        prepared
    }

    /// What the turn did, for the user's eyes.
    pub fn report(&self, metrics: Option<RequestMetrics>) -> (r: StatefulReport)
        ensures
            reports(*self, metrics, r),
    {
        match self.ending {
            TurnEnding::Local => StatefulReport {
                stage_transition: clone_transition(&self.transition),
                invariant_status: "not_run".to_string(),
                invariant_summary: "Локальный lifecycle guard; ответ модели не запускался.".to_string(),
                metrics,
                ..board_report(&self.board)
            },
            TurnEnding::Answered => {
                let pending_questions = match &self.agent_profile {
                    Some(profile) => profile.pending_questions(),
                    None => {
                        let none: Vec<String> = Vec::new();
                        assert(crate::text::texts(none@) =~= Seq::<Seq<char>>::empty());
                        none
                    },
                };
                StatefulReport {
                    stage_transition: clone_transition(&self.transition),
                    violations: clone_list(&self.violations),
                    pending_questions,
                    invariant_status: invariant_status_label(self.status).to_string(),
                    invariant_summary: invariant_summary(
                        self.status,
                        &self.invariants,
                        &self.violations,
                    ),
                    metrics,
                    ..board_report(&self.board)
                }
            },
            _ => StatefulReport::default(),
        }
    }

    /// What the preparation of a streamed turn comes to: a turn that has ended
    /// is answered at once; any other asks its responder.
    pub fn stream_prepared(
        &self,
        setup: &RequestSetup,
        context: TurnContext,
        metrics: Option<RequestMetrics>,
    ) -> (r: StreamPrep)
        ensures
            if self.phase == TurnPhase::Ended {
                r matches StreamPrep::Local(response, aux, report)
                    && crate::chat::swarm::orchestrator::local_response(
                    self.reply@,
                    metrics,
                    response,
                ) && aux == metrics && reports(*self, metrics, report)
            } else {
                r matches StreamPrep::Request(request, aux) && aux == metrics && exists|
                    prepared: PreparedRequest,
                | #[trigger]
                    asks_responder(*self, *setup, context, prepared) && prepared.request == request
            },
    {
        if self.phase == TurnPhase::Ended {
            let aux = clone_metrics(&metrics);
            let report = self.report(clone_metrics(&metrics));
            StreamPrep::Local(local_chat_response(self.reply.clone(), metrics), aux, report)
        } else {
            let prepared = self.responder_request(setup, context);
            assert(asks_responder(*self, *setup, context, prepared));
            StreamPrep::Request(prepared.request, metrics)
        }
    }
}

fn clone_transition(transition: &Option<StageTransition>) -> (r: Option<StageTransition>)
    ensures
        r == *transition,
{
    match transition {
        Some(transition) => Some(transition.clone()),
        None => None,
    }
}

fn clone_metrics(metrics: &Option<RequestMetrics>) -> (r: Option<RequestMetrics>)
    ensures
        r == *metrics,
{
    match metrics {
        Some(metrics) => Some(metrics.clone()),
        None => None,
    }
}

/// What a report says of a turn.
pub open spec fn reports(
    turn: SwarmTurn,
    metrics: Option<RequestMetrics>,
    report: StatefulReport,
) -> bool {
    match turn.ending {
        TurnEnding::Local => {
            &&& crate::chat::swarm::orchestrator::shows_board(report, turn.board)
            &&& report.stage_transition == turn.transition
            &&& report.violations@.len() == 0
            &&& report.pending_questions@.len() == 0
            &&& report.invariant_status@ == "not_run"@
            &&& report.invariant_summary@
                == "Локальный lifecycle guard; ответ модели не запускался."@
            &&& report.metrics == metrics
        },
        TurnEnding::Answered => {
            &&& crate::chat::swarm::orchestrator::shows_board(report, turn.board)
            &&& report.stage_transition == turn.transition
            &&& crate::text::texts(report.violations@) == crate::text::texts(turn.violations@)
            &&& crate::text::texts(report.pending_questions@) == (match turn.agent_profile {
                Some(profile) => crate::chat::store::open_questions(profile.fields@),
                None => Seq::empty(),
            })
            &&& report.invariant_status@ == crate::chat::swarm::orchestrator::status_label(
                turn.status,
            )
            &&& report.invariant_summary@ == crate::chat::swarm::orchestrator::status_summary(
                turn.status,
                turn.invariants@.len() as int,
                turn.violations@.len() as int,
            )
            &&& report.metrics == metrics
        },
        _ => crate::chat::swarm::orchestrator::shows_no_task(report)
            && crate::chat::swarm::orchestrator::says_nothing(report),
    }
}

/// What a streamed reply brings back, once its marker is taken off and it is
/// cleaned.
pub fn streamed_outcome(complete: bool, key: String, answer: String) -> (r: SubAgentOutcome)
    ensures
        r.answer == Some(answer),
        r.stage_complete == complete,
        if complete {
            r.artifact matches Some((k, v)) && k == key && v@ == crate::text::taken(
                crate::text::trimmed(answer@),
                280,
            )
        } else {
            r.artifact is None
        },
        r.violations@.len() == 0,
        r.metrics is None,
{
    let artifact = if complete {
        Some((key, truncate(answer.as_str(), 280)))
    } else {
        None
    };
    SubAgentOutcome {
        answer: Some(answer),
        stage_complete: complete,
        artifact,
        ..SubAgentOutcome::default()
    }
}

/// An answer that breaks an invariant, or that could not be checked, is never
/// given out: the user gets a refusal, the conversation holds the refusal, and
/// the task stands where it stood, with the violations noted.
pub proof fn broken_answer_is_withheld(
    a: SwarmTurn,
    b: SwarmTurn,
    reading: AnswerReading,
    action: TurnAction,
)
    requires
        settled(a, b, reading, action),
        withheld(a, reading),
    ensures
        b.status == InvariantCheckStatus::Failed || b.status == InvariantCheckStatus::Unavailable,
        b.reply@ == crate::chat::swarm::orchestrator::refusal_text(b.violations@) || b.reply@
            == crate::chat::swarm::orchestrator::unverified_text(a.invariants@),
        crate::providers::message_views(b.history@).last().1 == b.reply@,
        b.transition is None,
        b.agent_profile == a.agent_profile,
        a.board matches Some(before) ==> b.board matches Some(after) && violations_noted(
            before.active,
            after.active,
            left_broken(a, reading),
        ),
{
}

/// Any other answer is given out as it was read, also one that holds to
/// invariants that code cannot check.
pub proof fn unbroken_answer_is_given(
    a: SwarmTurn,
    b: SwarmTurn,
    reading: AnswerReading,
    action: TurnAction,
)
    requires
        settled(a, b, reading, action),
        !withheld(a, reading),
    ensures
        b.status != InvariantCheckStatus::Failed,
        a.status == InvariantCheckStatus::Advisory ==> b.status == InvariantCheckStatus::Advisory,
        b.reply@ == reading.answer@,
        crate::providers::message_views(b.history@).last().1 == reading.answer@,
{
}

/// A turn that has ended takes nothing more.
pub proof fn ended_turn_stays(a: SwarmTurn, b: SwarmTurn, event: TurnEvent, action: TurnAction)
    requires
        stepped(a, b, event, action),
        a.phase == TurnPhase::Ended,
    ensures
        b == a,
        action is Ignore,
{
}

/// A message that the lifecycle answers by itself ends the turn: no agent is
/// asked.
pub proof fn local_reply_asks_nobody(
    a: SwarmTurn,
    b: SwarmTurn,
    event: TurnEvent,
    action: TurnAction,
)
    requires
        stepped(a, b, event, action),
        a.ending == TurnEnding::Open,
        b.ending == TurnEnding::Local,
    ensures
        b.phase == TurnPhase::Ended,
        action is Finish,
        b.answer == a.answer,
{
}

/// Who answers is decided by the stage of the task alone: no message and no
/// answer can choose the agent of another stage.
pub proof fn responder_follows_stage(
    a: SwarmTurn,
    b: SwarmTurn,
    event: TurnEvent,
    action: TurnAction,
)
    requires
        stepped(a, b, event, action),
        action is AskResponder,
    ensures
        action->role == crate::chat::swarm::orchestrator::responder_role(b.board),
        b.phase == TurnPhase::Respond,
{
}

/// A responder is asked again only so often: each time counts, and the count
/// stays within its limit.
pub proof fn retries_are_bounded(a: SwarmTurn, b: SwarmTurn, event: TurnEvent, action: TurnAction)
    requires
        stepped(a, b, event, action),
        a.retries <= a.retry_limit,
    ensures
        b.retry_limit == a.retry_limit,
        a.retries <= b.retries <= b.retry_limit,
        a.phase == TurnPhase::Check && action is AskResponder ==> b.retries == a.retries + 1,
{
}

/// The tasks that wait are touched by the message alone: no agent's result
/// changes them.
pub proof fn waiting_tasks_rest(a: SwarmTurn, b: SwarmTurn, event: TurnEvent, action: TurnAction)
    requires
        stepped(a, b, event, action),
        a.phase != TurnPhase::Start,
    ensures
        a.board matches Some(before) ==> b.board matches Some(after) && after.backlog
            == before.backlog,
        a.board is None ==> b.board is None,
{
}

proof fn lemma_layer_is_there(
    context: Seq<(Role, Seq<char>)>,
    before: Seq<Seq<char>>,
    text: Seq<char>,
    after: Seq<Seq<char>>,
    last: (Role, Seq<char>),
)
    ensures
        crate::chat::swarm::prompt_builder::layered(
            context,
            before + seq![text] + after,
        ).push(last).contains((Role::System, text)),
{
    crate::chat::swarm::prompt_builder::lemma_start_in_range(context);
    let at = crate::chat::swarm::prompt_builder::conversation_start(context);
    let all = crate::chat::swarm::prompt_builder::layered(context, before + seq![text] + after);
    assert((before + seq![text] + after)[before.len() as int] == text);
    assert(all.push(last)[at + before.len()] == (Role::System, text));
}

/// What a responder is asked carries the invariants, what the answer before this
/// one broke, and the rules of its role with the prompt that is configured for
/// it; the user's message comes last.
pub proof fn request_carries_what_binds(
    turn: SwarmTurn,
    setup: RequestSetup,
    context: TurnContext,
    prepared: PreparedRequest,
)
    requires
        asks_responder(turn, setup, context, prepared),
    ensures
        ({
            let messages = crate::providers::message_views(prepared.request.messages@);
            let rules = crate::chat::swarm::agents::responder::rules_for(
                setup.roster,
                crate::chat::swarm::orchestrator::responder_role(turn.board),
            );
            &&& crate::chat::swarm::prompt_builder::invariants_layer(
                turn.invariants@,
            ) matches Some(text) ==> messages.contains((Role::System, text))
            &&& crate::chat::swarm::prompt_builder::violations_layer(
                turn.retry_violations@,
            ) matches Some(text) ==> messages.contains((Role::System, text))
            &&& crate::chat::swarm::prompt_builder::rules_layer(rules) matches Some(text)
                ==> messages.contains((Role::System, text))
            &&& messages.last() == (Role::User, turn.prompt@)
        }),
{
    let views = crate::providers::message_views(context.messages@);
    let rules = crate::chat::swarm::agents::responder::rules_for(
        setup.roster,
        crate::chat::swarm::orchestrator::responder_role(turn.board),
    );
    let layers = choose|layers: PromptLayers| #[trigger]
        turn_layers(turn, context, layers) && crate::providers::message_views(
            prepared.request.messages@,
        ) == crate::chat::swarm::prompt_builder::layered(
            views,
            crate::chat::swarm::prompt_builder::layer_texts(layers, rules),
        ).push((Role::User, turn.prompt@));
    let all = crate::chat::swarm::prompt_builder::layer_texts(layers, rules);
    let user = (Role::User, turn.prompt@);
    let a = crate::chat::swarm::prompt_builder::at_most_one(
        crate::chat::swarm::prompt_builder::domain_layer(layers.domain@),
    ) + crate::chat::swarm::prompt_builder::at_most_one(
        crate::chat::swarm::prompt_builder::text_of(layers.profile_block),
    ) + crate::chat::swarm::prompt_builder::task_layers(layers.task)
        + crate::chat::swarm::prompt_builder::at_most_one(
        crate::chat::swarm::prompt_builder::outputs_layer(layers.worker_outputs@),
    );
    let b = crate::chat::swarm::prompt_builder::at_most_one(
        crate::chat::swarm::prompt_builder::invariants_layer(layers.invariants@),
    );
    let c = crate::chat::swarm::prompt_builder::at_most_one(
        crate::chat::swarm::prompt_builder::violations_layer(layers.retry_violations@),
    );
    let d = crate::chat::swarm::prompt_builder::at_most_one(
        crate::chat::swarm::prompt_builder::text_of(layers.user_block),
    );
    let e = crate::chat::swarm::prompt_builder::at_most_one(
        crate::chat::swarm::prompt_builder::rules_layer(rules),
    );
    let f = all.skip((a + b + c + d + e).len() as int);
    assert(all =~= a + b + c + d + e + f);
    if b.len() > 0 {
        assert(all =~= a + seq![b[0]] + (c + d + e + f));
        lemma_layer_is_there(views, a, b[0], c + d + e + f, user);
    }
    if c.len() > 0 {
        assert(all =~= (a + b) + seq![c[0]] + (d + e + f));
        lemma_layer_is_there(views, a + b, c[0], d + e + f, user);
    }
    if e.len() > 0 {
        assert(all =~= (a + b + c + d) + seq![e[0]] + f);
        lemma_layer_is_there(views, a + b + c + d, e[0], f, user);
    }
}

/// A responder that is asked again because its answer broke invariants is told
/// which.
pub proof fn retry_names_what_was_broken(
    a: SwarmTurn,
    b: SwarmTurn,
    event: TurnEvent,
    action: TurnAction,
)
    requires
        stepped(a, b, event, action),
        a.phase == TurnPhase::Check,
        action is AskResponder,
    ensures
        event matches TurnEvent::Checked { violations, .. } && crate::text::texts(
            b.retry_violations@,
        ) == crate::text::texts(violations@),
{
}

/// What the requests of a turn took is never lost: each step keeps what was
/// noted before, and adds what its own event took.
pub proof fn metrics_are_kept(a: SwarmTurn, b: SwarmTurn, event: TurnEvent, action: TurnAction)
    requires
        stepped(a, b, event, action),
        fits(a.phase, event),
    ensures
        b.main_metrics@ == with_more(a.main_metrics@, main_of(event)),
        b.aux_metrics@ == with_more(a.aux_metrics@, aux_of(event)),
{
}

/// What the user tells about a task is kept with the task once an answer is
/// given out, and what was kept before stays.
pub proof fn told_facts_are_kept(
    a: SwarmTurn,
    b: SwarmTurn,
    reading: AnswerReading,
    action: TurnAction,
    i: int,
    earlier: Seq<char>,
)
    requires
        settled(a, b, reading, action),
        a.board is Some,
        !leaves_task(a, reading),
        !crate::text::blank(a.prompt@),
        0 <= i < reading.facts@.len(),
    ensures
        b.board is Some,
        crate::text::texts(b.board->0.active.results@).contains(
            crate::chat::swarm::task_facts::fact_note(
                crate::chat::swarm::task_facts::fact_views(reading.facts@)[i],
            ),
        ),
        crate::text::texts(a.board->0.active.results@).contains(earlier) ==> crate::text::texts(
            b.board->0.active.results@,
        ).contains(earlier),
{
    let facts = crate::chat::swarm::task_facts::fact_views(reading.facts@);
    let before = a.board->0.active;
    let after = b.board->0.active;
    let fin = choose|fin: TaskContext| #[trigger]
        task_answered(a, reading, before, fin, b.transition) && violations_noted(
            fin,
            after,
            left_broken(a, reading),
        );
    let mid = choose|mid: TaskContext| #[trigger]
        crate::chat::swarm::task_facts::seeded(
            before,
            mid,
            a.prompt@,
            reading.title@,
            facts,
            crate::text::option_text(reading.decision),
        ) && crate::chat::swarm::lifecycle::completed(
            mid,
            fin,
            a.stage_complete,
            crate::chat::swarm::lifecycle::reported(mid.stage, a.artifact).0,
            crate::chat::swarm::lifecycle::reported(mid.stage, a.artifact).1,
            b.transition,
        );
    let told = crate::chat::swarm::task_facts::with_notes(
        crate::text::texts(before.results@),
        facts,
    );
    crate::chat::swarm::task_facts::lemma_with_notes(
        crate::text::texts(before.results@),
        facts,
        earlier,
    );
    let note = crate::chat::swarm::task_facts::fact_note(facts[i]);
    if let Some(decision) = reading.decision {
        crate::chat::swarm::task_facts::lemma_noted(told, decision@, note);
        crate::chat::swarm::task_facts::lemma_noted(told, decision@, earlier);
    }
    assert(fin.results == mid.results);
}

/// Whether a turn that begins anew goes through `states`, takes `events` one
/// after the other and answers with `actions`.
pub open spec fn runs(
    states: Seq<SwarmTurn>,
    events: Seq<TurnEvent>,
    actions: Seq<TurnAction>,
) -> bool {
    &&& states.len() == events.len() + 1
    &&& actions.len() == events.len()
    &&& states[0].phase == TurnPhase::Start
    &&& states[0].worker_outputs@.len() == 0
    &&& forall|i: int|
        0 <= i < events.len() ==> stepped(
            states[i],
            states[i + 1],
            #[trigger] events[i],
            actions[i],
        )
}

/// The worker that was asked last before step `n`.
pub open spec fn last_asked(actions: Seq<TurnAction>, n: int) -> Option<TaskWorkerAgent>
    decreases n,
{
    if n <= 0 {
        None
    } else {
        match actions[n - 1] {
            TurnAction::AskWorker { worker } => Some(worker),
            _ => last_asked(actions, n - 1),
        }
    }
}

/// Whether every worker brings its work back under its own name.
pub open spec fn workers_sign(events: Seq<TurnEvent>, actions: Seq<TurnAction>) -> bool {
    forall|i: int|
        #![trigger events[i]]
        0 <= i < events.len() ==> (match (last_asked(actions, i), events[i]) {
            (Some(worker), TurnEvent::WorkerDone { artifact: Some((key, _)), .. }) => key@
                == "worker."@ + crate::text::trimmed(worker.id@),
            _ => true,
        })
}

/// Whether a worker was asked before step `n`.
pub open spec fn was_asked(actions: Seq<TurnAction>, n: int, worker: TaskWorkerAgent) -> bool {
    exists|m: int| 0 <= m < n && #[trigger] actions[m] == (TurnAction::AskWorker { worker })
}

/// Whether the first `m` workers of a task's stage have been asked before step
/// `n`, and their work is there.
spec fn first_workers_ran(
    turn: SwarmTurn,
    task: TaskContext,
    m: int,
    actions: Seq<TurnAction>,
    n: int,
) -> bool {
    forall|i: int|
        #![trigger turn.worker_outputs@[i]]
        0 <= i < m ==> {
            &&& worker_at(task, i) is Some
            &&& turn.worker_outputs@[i].key@ == "worker."@ + crate::text::trimmed(
                worker_at(task, i)->0.id@,
            )
            &&& task.artifacts@.contains(turn.worker_outputs@[i])
            &&& was_asked(actions, n, worker_at(task, i)->0)
        }
}

/// What holds of a turn at each of its states.
spec fn workers_in_order(turn: SwarmTurn, actions: Seq<TurnAction>, n: int) -> bool {
    let outputs = turn.worker_outputs@;
    match turn.phase {
        TurnPhase::Start | TurnPhase::PreMemory | TurnPhase::Topic => outputs.len() == 0,
        TurnPhase::Worker => turn.board matches Some(board) && {
            &&& !board.active.paused
            &&& worker_at(board.active, turn.worker as int) is Some
            &&& outputs.len() == turn.worker
            &&& last_asked(actions, n) == worker_at(board.active, turn.worker as int)
            &&& was_asked(actions, n, worker_at(board.active, turn.worker as int)->0)
            &&& first_workers_ran(turn, board.active, outputs.len() as int, actions, n)
        },
        TurnPhase::Respond | TurnPhase::Check | TurnPhase::Settle => match turn.board {
            Some(board) => if board.active.paused {
                outputs.len() == 0
            } else {
                &&& worker_at(board.active, outputs.len() as int) is None
                &&& first_workers_ran(turn, board.active, outputs.len() as int, actions, n)
            },
            None => outputs.len() == 0,
        },
        _ => true,
    }
}

proof fn lemma_was_asked(actions: Seq<TurnAction>, n: int, worker: TaskWorkerAgent)
    ensures
        was_asked(actions, n, worker) ==> was_asked(actions, n + 1, worker),
{
}

proof fn lemma_ran_stays(
    a: SwarmTurn,
    b: SwarmTurn,
    task: TaskContext,
    after: TaskContext,
    m: int,
    actions: Seq<TurnAction>,
    n: int,
)
    requires
        first_workers_ran(a, task, m, actions, n),
        m <= a.worker_outputs@.len() <= b.worker_outputs@.len(),
        forall|i: int| 0 <= i < m ==> #[trigger] b.worker_outputs@[i] == a.worker_outputs@[i],
        after.pipeline == task.pipeline,
        after.stage == task.stage,
        forall|x: TaskArtifact| #[trigger] task.artifacts@.contains(x) ==> after.artifacts@.contains(
            x,
        ),
    ensures
        first_workers_ran(b, after, m, actions, n + 1),
{
    assert forall|i: int| #![trigger b.worker_outputs@[i]] 0 <= i < m implies {
        &&& worker_at(after, i) is Some
        &&& b.worker_outputs@[i].key@ == "worker."@ + crate::text::trimmed(
            worker_at(after, i)->0.id@,
        )
        &&& after.artifacts@.contains(b.worker_outputs@[i])
        &&& was_asked(actions, n + 1, worker_at(after, i)->0)
    } by {
        assert(b.worker_outputs@[i] == a.worker_outputs@[i]);
        assert(worker_at(after, i) == worker_at(task, i));
        assert(task.artifacts@.contains(a.worker_outputs@[i]));
        lemma_was_asked(actions, n, worker_at(task, i)->0);
    }
}

proof fn lemma_worker_step(
    states: Seq<SwarmTurn>,
    events: Seq<TurnEvent>,
    actions: Seq<TurnAction>,
    n: int,
)
    requires
        runs(states, events, actions),
        workers_sign(events, actions),
        0 <= n < events.len(),
        workers_in_order(states[n], actions, n),
    ensures
        workers_in_order(states[n + 1], actions, n + 1),
{
    let a = states[n];
    let b = states[n + 1];
    let event = events[n];
    let action = actions[n];
    assert(stepped(a, b, event, action));
    if fits(a.phase, event) {
        let mid = choose|mid: SwarmTurn| #[trigger]
            counted(a, mid, event) && taken(mid, b, event, action);
        match (a.phase, event) {
            (TurnPhase::Worker, TurnEvent::WorkerDone { artifact, .. }) => {
                let task = a.board->0.active;
                if let Some((key, value)) = artifact {
                    assert(key@ == "worker."@ + crate::text::trimmed(
                        worker_at(task, a.worker as int)->0.id@,
                    ));
                    let got = choose|got: SwarmTurn| #[trigger]
                        produced(mid, got, key@, value@) && turns_to_worker(
                            got,
                            b,
                            mid.worker + 1,
                            action,
                        );
                    let after = got.board->0.active;
                    assert forall|x: TaskArtifact| #[trigger]
                        task.artifacts@.contains(x) implies after.artifacts@.contains(x) by {
                        let j = choose|j: int|
                            0 <= j < task.artifacts@.len() && task.artifacts@[j] == x;
                        assert(after.artifacts@.drop_last()[j] == x);
                        assert(after.artifacts@[j] == x);
                    }
                    assert forall|i: int| 0 <= i < a.worker_outputs@.len() implies (
                    #[trigger] got.worker_outputs@[i]) == a.worker_outputs@[i] by {
                        assert(got.worker_outputs@.drop_last()[i] == got.worker_outputs@[i]);
                    }
                    lemma_ran_stays(
                        a,
                        got,
                        task,
                        after,
                        a.worker_outputs@.len() as int,
                        actions,
                        n,
                    );
                    let last = a.worker_outputs@.len() as int;
                    assert(worker_at(after, last) == worker_at(task, last));
                    lemma_was_asked(actions, n, worker_at(task, last)->0);
                    assert(after.artifacts@.contains(got.worker_outputs@[last])) by {
                        assert(got.worker_outputs@.last() == after.artifacts@.last());
                        assert(after.artifacts@[after.artifacts@.len() - 1]
                            == got.worker_outputs@[last]);
                    }
                    assert(first_workers_ran(got, after, last + 1, actions, n + 1));
                    if b.phase == TurnPhase::Worker {
                        assert(actions[n] == (TurnAction::AskWorker {
                            worker: worker_at(after, last + 1)->0,
                        }));
                    }
                }
            },
            (TurnPhase::Respond, _) | (TurnPhase::Check, _) => {
                if let Some(board) = a.board {
                    assert(b.worker_outputs == a.worker_outputs);
                    assert(b.board == a.board);
                    if !board.active.paused {
                        lemma_ran_stays(
                            a,
                            b,
                            board.active,
                            board.active,
                            a.worker_outputs@.len() as int,
                            actions,
                            n,
                        );
                    }
                }
            },
            _ => {},
        }
    } else {
        if let Some(board) = a.board {
            if a.phase == TurnPhase::Worker {
                lemma_was_asked(actions, n, worker_at(board.active, a.worker as int)->0);
            }
            if first_workers_ran(a, board.active, a.worker_outputs@.len() as int, actions, n) {
                lemma_ran_stays(
                    a,
                    b,
                    board.active,
                    board.active,
                    a.worker_outputs@.len() as int,
                    actions,
                    n,
                );
            }
        }
    }
}

proof fn lemma_workers_in_order(
    states: Seq<SwarmTurn>,
    events: Seq<TurnEvent>,
    actions: Seq<TurnAction>,
    n: int,
)
    requires
        runs(states, events, actions),
        workers_sign(events, actions),
        0 <= n < states.len(),
    ensures
        workers_in_order(states[n], actions, n),
    decreases n,
{
    if n > 0 {
        lemma_workers_in_order(states, events, actions, n - 1);
        lemma_worker_step(states, events, actions, n - 1);
    }
}

proof fn lemma_entry_is_first(pipeline: Seq<TaskPipelineStage>, stage: TaskStage, from: int, k: int)
    requires
        0 <= from <= k < pipeline.len(),
        pipeline[k].stage == stage,
        forall|j: int| 0 <= j < k ==> (#[trigger] pipeline[j]).stage != stage,
    ensures
        crate::chat::store::pipeline_entry(pipeline, stage, from) == Some(k),
    decreases k - from,
{
    if from < k {
        lemma_entry_is_first(pipeline, stage, from + 1, k);
    }
}

proof fn lemma_no_entry(pipeline: Seq<TaskPipelineStage>, stage: TaskStage, from: int)
    requires
        0 <= from <= pipeline.len(),
        forall|j: int| 0 <= j < pipeline.len() ==> (#[trigger] pipeline[j]).stage != stage,
    ensures
        crate::chat::store::pipeline_entry(pipeline, stage, from) is None,
    decreases pipeline.len() - from,
{
    if from < pipeline.len() {
        lemma_no_entry(pipeline, stage, from + 1);
    }
}

/// No responder is asked before every worker of the stage has done its work: from
/// the moment a responder is asked until its answer is settled, there is one
/// output for each worker of the stage's pipeline entry `k`, in their order and
/// under their names; each of them was asked, and each output is among the
/// artifacts of the task.
pub proof fn every_worker_runs_before_the_responder(
    states: Seq<SwarmTurn>,
    events: Seq<TurnEvent>,
    actions: Seq<TurnAction>,
    n: int,
    board: TaskBoard,
    k: int,
)
    requires
        runs(states, events, actions),
        workers_sign(events, actions),
        0 <= n < states.len(),
        states[n].phase == TurnPhase::Respond || states[n].phase == TurnPhase::Check
            || states[n].phase == TurnPhase::Settle,
        states[n].board == Some(board),
        !board.active.paused,
        0 <= k < board.active.pipeline@.len(),
        board.active.pipeline@[k].stage == board.active.stage,
        forall|j: int|
            0 <= j < k ==> (#[trigger] board.active.pipeline@[j]).stage != board.active.stage,
    ensures
        states[n].worker_outputs@.len() == board.active.pipeline@[k].worker_agents@.len(),
        forall|i: int|
            #![trigger states[n].worker_outputs@[i]]
            0 <= i < states[n].worker_outputs@.len() ==> {
                let worker = board.active.pipeline@[k].worker_agents@[i];
                &&& states[n].worker_outputs@[i].key@ == "worker."@ + crate::text::trimmed(
                    worker.id@,
                )
                &&& board.active.artifacts@.contains(states[n].worker_outputs@[i])
                &&& was_asked(actions, n, worker)
            },
{
    lemma_workers_in_order(states, events, actions, n);
    lemma_entry_is_first(board.active.pipeline@, board.active.stage, 0, k);
    let workers = board.active.pipeline@[k].worker_agents@;
    let outputs = states[n].worker_outputs@;
    assert(worker_at(board.active, outputs.len() as int) is None);
    if outputs.len() > workers.len() {
        let last = outputs[outputs.len() - 1];
        assert(worker_at(board.active, outputs.len() - 1) is Some);
    }
    assert forall|i: int| #![trigger outputs[i]] 0 <= i < outputs.len() implies worker_at(
        board.active,
        i,
    ) == Some(workers[i]) by {}
}

/// A stage without a pipeline entry has no workers, and a turn without a task or
/// with a paused one asks none.
pub proof fn other_turns_ask_no_worker(
    states: Seq<SwarmTurn>,
    events: Seq<TurnEvent>,
    actions: Seq<TurnAction>,
    n: int,
)
    requires
        runs(states, events, actions),
        workers_sign(events, actions),
        0 <= n < states.len(),
        states[n].phase == TurnPhase::Respond || states[n].phase == TurnPhase::Check
            || states[n].phase == TurnPhase::Settle,
        states[n].board matches Some(board) ==> board.active.paused || forall|j: int|
            0 <= j < board.active.pipeline@.len() ==> (#[trigger] board.active.pipeline@[j]).stage
                != board.active.stage,
    ensures
        states[n].worker_outputs@.len() == 0,
{
    lemma_workers_in_order(states, events, actions, n);
    if let Some(board) = states[n].board {
        if !board.active.paused {
            lemma_no_entry(board.active.pipeline@, board.active.stage, 0);
            let outputs = states[n].worker_outputs@;
            if outputs.len() > 0 {
                let first = outputs[0];
                assert(worker_at(board.active, 0) is Some);
            }
        }
    }
}

/// Whether a system message of `messages` holds `part`.
pub open spec fn told(messages: Seq<(Role, Seq<char>)>, part: Seq<char>) -> bool {
    exists|k: int|
        0 <= k < messages.len() && (#[trigger] messages[k]).0 == Role::System
            && crate::text::contains_text(messages[k].1, part)
}

/// Whether a system message of `messages` holds `first`, and `second` behind it.
pub open spec fn told_in_order(
    messages: Seq<(Role, Seq<char>)>,
    first: Seq<char>,
    second: Seq<char>,
) -> bool {
    exists|k: int|
        0 <= k < messages.len() && (#[trigger] messages[k]).0 == Role::System
            && crate::text::one_after_other(messages[k].1, first, second)
}

proof fn lemma_told(
    context: Seq<(Role, Seq<char>)>,
    layers: Seq<Seq<char>>,
    last: (Role, Seq<char>),
    part: Seq<char>,
)
    requires
        crate::chat::swarm::prompt_builder::said(layers, part),
    ensures
        told(crate::chat::swarm::prompt_builder::layered(context, layers).push(last), part),
{
    let all = crate::chat::swarm::prompt_builder::layered(context, layers);
    let i = choose|i: int|
        0 <= i < layers.len() && crate::text::contains_text(#[trigger] layers[i], part);
    crate::chat::swarm::prompt_builder::prompts_say_what_their_layers_say(context, layers, i);
    let k = choose|k: int| 0 <= k < all.len() && #[trigger] all[k] == (Role::System, layers[i]);
    assert(all.push(last)[k] == all[k]);
}

proof fn lemma_told_in_order(
    context: Seq<(Role, Seq<char>)>,
    layers: Seq<Seq<char>>,
    last: (Role, Seq<char>),
    first: Seq<char>,
    second: Seq<char>,
)
    requires
        crate::chat::swarm::prompt_builder::said_in_order(layers, first, second),
    ensures
        told_in_order(
            crate::chat::swarm::prompt_builder::layered(context, layers).push(last),
            first,
            second,
        ),
{
    let all = crate::chat::swarm::prompt_builder::layered(context, layers);
    let i = choose|i: int|
        0 <= i < layers.len() && crate::text::one_after_other(#[trigger] layers[i], first, second);
    crate::chat::swarm::prompt_builder::prompts_say_what_their_layers_say(context, layers, i);
    let k = choose|k: int| 0 <= k < all.len() && #[trigger] all[k] == (Role::System, layers[i]);
    assert(all.push(last)[k] == all[k]);
}

/// The responder is told everything that the turn holds for it, in system
/// messages of its request: of every worker's output the key and behind it the
/// value; every invariant; everything that its answer before broke; what the
/// agent is specialized in; the profiles of the agent and of the user; and the
/// task as it is shown. The user's message is the last one.
pub proof fn the_responder_is_told(
    turn: SwarmTurn,
    setup: RequestSetup,
    context: TurnContext,
    prepared: PreparedRequest,
)
    requires
        asks_responder(turn, setup, context, prepared),
    ensures
        ({
            let messages = crate::providers::message_views(prepared.request.messages@);
            &&& forall|i: int|
                0 <= i < turn.worker_outputs@.len() ==> told_in_order(
                    messages,
                    crate::text::trimmed((#[trigger] turn.worker_outputs@[i]).key@),
                    crate::text::trimmed(turn.worker_outputs@[i].value@),
                )
            &&& forall|i: int|
                0 <= i < turn.invariants@.len() ==> told(
                    messages,
                    (#[trigger] turn.invariants@[i])@,
                )
            &&& forall|i: int|
                0 <= i < turn.retry_violations@.len() ==> told(
                    messages,
                    (#[trigger] turn.retry_violations@[i])@,
                )
            &&& context.domain@.len() > 0 ==> told(messages, context.domain@)
            &&& context.profile_block matches Some(t) ==> told(messages, t@)
            &&& context.user_block matches Some(t) ==> told(messages, t@)
            &&& turn.board is Some ==> told(messages, context.task_block@)
            &&& messages.len() > 0
            &&& messages[messages.len() - 1] == (Role::User, turn.prompt@)
        }),
{
    let views = crate::providers::message_views(context.messages@);
    let messages = crate::providers::message_views(prepared.request.messages@);
    let rules = crate::chat::swarm::agents::responder::rules_for(
        setup.roster,
        crate::chat::swarm::orchestrator::responder_role(turn.board),
    );
    let user = (Role::User, turn.prompt@);
    let layers = choose|layers: PromptLayers| #[trigger]
        turn_layers(turn, context, layers) && messages
            == crate::chat::swarm::prompt_builder::layered(
            views,
            crate::chat::swarm::prompt_builder::layer_texts(layers, rules),
        ).push(user);
    let all = crate::chat::swarm::prompt_builder::layer_texts(layers, rules);
    assert forall|i: int| 0 <= i < turn.worker_outputs@.len() implies told_in_order(
        messages,
        crate::text::trimmed((#[trigger] turn.worker_outputs@[i]).key@),
        crate::text::trimmed(turn.worker_outputs@[i].value@),
    ) by {
        crate::chat::swarm::prompt_builder::layers_tell_every_output(layers, rules, i);
        lemma_told_in_order(
            views,
            all,
            user,
            crate::text::trimmed(turn.worker_outputs@[i].key@),
            crate::text::trimmed(turn.worker_outputs@[i].value@),
        );
    }
    assert forall|i: int| 0 <= i < turn.invariants@.len() implies told(
        messages,
        (#[trigger] turn.invariants@[i])@,
    ) by {
        crate::chat::swarm::prompt_builder::layers_tell_every_invariant(layers, rules, i);
        lemma_told(views, all, user, turn.invariants@[i]@);
    }
    assert forall|i: int| 0 <= i < turn.retry_violations@.len() implies told(
        messages,
        (#[trigger] turn.retry_violations@[i])@,
    ) by {
        crate::chat::swarm::prompt_builder::layers_tell_every_violation(layers, rules, i);
        lemma_told(views, all, user, turn.retry_violations@[i]@);
    }
    crate::chat::swarm::prompt_builder::layers_tell_who_and_what(layers, rules);
    if context.domain@.len() > 0 {
        lemma_told(views, all, user, context.domain@);
    }
    if let Some(t) = context.profile_block {
        lemma_told(views, all, user, t@);
    }
    if let Some(t) = context.user_block {
        lemma_told(views, all, user, t@);
    }
    if turn.board is Some {
        lemma_told(views, all, user, context.task_block@);
    }
}

/// The responder to a task is told what the pipeline asks of the stage that the
/// task is at: the key of the artifact, the instruction, and of each worker the
/// id and behind it the instruction.
pub proof fn the_responder_is_told_its_stage(
    turn: SwarmTurn,
    setup: RequestSetup,
    context: TurnContext,
    prepared: PreparedRequest,
    entry: int,
)
    requires
        asks_responder(turn, setup, context, prepared),
        turn.board is Some,
        0 <= entry < turn.board->0.active.pipeline@.len(),
        turn.board->0.active.pipeline@[entry].stage == turn.board->0.active.stage,
        forall|i: int|
            0 <= i < entry ==> (#[trigger] turn.board->0.active.pipeline@[i]).stage
                != turn.board->0.active.stage,
    ensures
        ({
            let messages = crate::providers::message_views(prepared.request.messages@);
            let stage = turn.board->0.active.pipeline@[entry];
            &&& told(messages, crate::text::trimmed(stage.artifact_key@))
            &&& !crate::text::blank(stage.system_prompt@) ==> told(
                messages,
                crate::text::trimmed(stage.system_prompt@),
            )
            &&& forall|i: int|
                0 <= i < stage.worker_agents@.len() ==> told_in_order(
                    messages,
                    crate::text::trimmed((#[trigger] stage.worker_agents@[i]).id@),
                    crate::text::trimmed(stage.worker_agents@[i].system_prompt@),
                )
        }),
{
    let views = crate::providers::message_views(context.messages@);
    let messages = crate::providers::message_views(prepared.request.messages@);
    let rules = crate::chat::swarm::agents::responder::rules_for(
        setup.roster,
        crate::chat::swarm::orchestrator::responder_role(turn.board),
    );
    let user = (Role::User, turn.prompt@);
    let layers = choose|layers: PromptLayers| #[trigger]
        turn_layers(turn, context, layers) && messages
            == crate::chat::swarm::prompt_builder::layered(
            views,
            crate::chat::swarm::prompt_builder::layer_texts(layers, rules),
        ).push(user);
    let all = crate::chat::swarm::prompt_builder::layer_texts(layers, rules);
    let task = turn.board->0.active;
    let stage = task.pipeline@[entry];
    lemma_entry_is_first(task.pipeline@, task.stage, 0, entry);
    crate::chat::swarm::prompt_builder::layers_tell_the_stage(
        layers,
        rules,
        task,
        context.task_block@,
        entry,
    );
    lemma_told(views, all, user, crate::text::trimmed(stage.artifact_key@));
    if !crate::text::blank(stage.system_prompt@) {
        lemma_told(views, all, user, crate::text::trimmed(stage.system_prompt@));
    }
    assert forall|i: int| 0 <= i < stage.worker_agents@.len() implies told_in_order(
        messages,
        crate::text::trimmed((#[trigger] stage.worker_agents@[i]).id@),
        crate::text::trimmed(stage.worker_agents@[i].system_prompt@),
    ) by {
        lemma_told_in_order(
            views,
            all,
            user,
            crate::text::trimmed(stage.worker_agents@[i].id@),
            crate::text::trimmed(stage.worker_agents@[i].system_prompt@),
        );
    }
}

/// A read answer ends in an exchange: the conversation keeps all that was in it
/// and gains the user's message and the reply, which is what the user is given.
pub proof fn the_reply_is_kept_with_its_question(
    a: SwarmTurn,
    b: SwarmTurn,
    reading: AnswerReading,
    action: TurnAction,
)
    requires
        stepped(a, b, TurnEvent::AnswerRead { reading }, action),
        a.phase == TurnPhase::Settle,
    ensures
        b.history@.len() == a.history@.len() + 2,
        forall|i: int|
            #![trigger a.history@[i]]
            0 <= i < a.history@.len() ==> b.history@[i].role == a.history@[i].role
                && b.history@[i].content@ == a.history@[i].content@,
        b.history@[a.history@.len() as int].role == Role::User,
        b.history@[a.history@.len() as int].content@ == a.prompt@,
        b.history@[a.history@.len() as int + 1].role == Role::Assistant,
        b.history@[a.history@.len() as int + 1].content@ == b.reply@,
        b.ending == TurnEnding::Answered,
        b.prompt == a.prompt && b.invariants == a.invariants,
{
    let before = crate::providers::message_views(a.history@);
    let after = crate::providers::message_views(b.history@);
    assert(after.len() == b.history@.len());
    let n = a.history@.len() as int;
    assert(after == before.push((Role::User, a.prompt@)).push((Role::Assistant, b.reply@)));
    assert(after[n] == (Role::User, a.prompt@));
    assert(after[n + 1] == (Role::Assistant, b.reply@));
    assert forall|i: int|
        #![trigger a.history@[i]]
        0 <= i < a.history@.len() implies b.history@[i].role == a.history@[i].role
        && b.history@[i].content@ == a.history@[i].content@ by {
        assert(after[i] == before[i]);
    }
}

/// An answer in which nothing was found broken is the reply, as it was read. One
/// that broke a rule is not: the reply then names the rule, the task stays at its
/// stage with its artifacts, and nothing is learned from the message.
pub proof fn a_broken_rule_withholds_the_answer(
    a: SwarmTurn,
    b: SwarmTurn,
    reading: AnswerReading,
    action: TurnAction,
    broken: int,
)
    requires
        stepped(a, b, TurnEvent::AnswerRead { reading }, action),
        a.phase == TurnPhase::Settle,
    ensures
        a.violations@.len() == 0 && a.status != InvariantCheckStatus::Unavailable ==> b.reply@
            == reading.answer@ && b.violations@.len() == 0,
        0 <= broken < a.violations@.len() && a.status != InvariantCheckStatus::Unavailable && (
        !reading.invents_no_norms || !crate::chat::swarm::orchestrator::forbids_invented_norms(
            a.violations@[broken]@,
        )) ==> {
            &&& crate::text::contains_text(b.reply@, a.violations@[broken]@)
            &&& b.status == InvariantCheckStatus::Failed
            &&& b.transition is None
            &&& b.agent_profile == a.agent_profile
            &&& a.board matches Some(before) ==> b.board is Some && b.board->0.active.stage
                == before.active.stage && b.board->0.active.artifacts == before.active.artifacts
                && b.board->0.active.results == before.active.results && b.board->0.active.paused
                == before.active.paused
        },
        a.status == InvariantCheckStatus::Unavailable ==> {
            &&& b.status == InvariantCheckStatus::Unavailable
            &&& b.transition is None
            &&& forall|i: int|
                0 <= i < a.invariants@.len() ==> crate::text::contains_text(
                    b.reply@,
                    (#[trigger] a.invariants@[i])@,
                )
            &&& a.board matches Some(before) ==> b.board is Some && b.board->0.active.stage
                == before.active.stage && b.board->0.active.artifacts == before.active.artifacts
        },
{
    let left = left_broken(a, reading);
    let found = crate::text::texts(a.violations@);
    if a.violations@.len() == 0 {
        if left.len() > 0 {
            crate::chat::swarm::orchestrator::broken_rules_stay_broken(
                a.invariants@,
                a.violations@,
                reading.invents_no_norms,
                left[0],
            );
            assert(left.contains(left[0]));
            assert(found.contains(left[0]));
        }
        assert(b.violations@.len() == crate::text::texts(b.violations@).len());
    }
    if 0 <= broken < a.violations@.len() && (!reading.invents_no_norms
        || !crate::chat::swarm::orchestrator::forbids_invented_norms(a.violations@[broken]@)) {
        let text = a.violations@[broken]@;
        assert(found[broken] == text);
        crate::chat::swarm::orchestrator::broken_rules_stay_broken(
            a.invariants@,
            a.violations@,
            reading.invents_no_norms,
            text,
        );
        assert(left.contains(text));
        let k = choose|k: int| 0 <= k < left.len() && left[k] == text;
        assert(crate::text::texts(b.violations@)[k] == text);
        assert(b.violations@[k]@ == text);
        crate::chat::swarm::orchestrator::refusals_name_the_rules(b.violations@, k);
    }
    if a.status == InvariantCheckStatus::Unavailable {
        assert forall|i: int| 0 <= i < a.invariants@.len() implies crate::text::contains_text(
            b.reply@,
            (#[trigger] a.invariants@[i])@,
        ) by {
            crate::chat::swarm::orchestrator::refusals_name_the_rules(a.invariants@, i);
        }
    }
}

/// With rules to keep, no answer is read before it was checked; without any, none
/// is checked. What is checked and what is read is the responder's own answer.
pub proof fn answers_are_checked_before_they_are_read(
    a: SwarmTurn,
    b: SwarmTurn,
    outcome: SubAgentOutcome,
    action: TurnAction,
)
    requires
        stepped(a, b, TurnEvent::Responded { outcome }, action),
        a.phase == TurnPhase::Respond,
        outcome.answer is Some,
    ensures
        a.invariants@.len() > 0 ==> b.phase == TurnPhase::Check && action is CheckAnswer
            && action->CheckAnswer_answer@ == outcome.answer->0@,
        a.invariants@.len() == 0 ==> b.phase == TurnPhase::Settle && action is ReadAnswer
            && action->ReadAnswer_answer@ == outcome.answer->0@,
        b.answer == outcome.answer,
        b.stage_complete == outcome.stage_complete,
        b.artifact == outcome.artifact,
        b.board == a.board && b.history == a.history && b.worker_outputs == a.worker_outputs,
{
}

/// An answer that failed its check is asked for again while that is allowed, and
/// the responder is then told everything that it broke; any other is read, with
/// all that was found.
pub proof fn a_failed_check_asks_again(
    a: SwarmTurn,
    b: SwarmTurn,
    status: InvariantCheckStatus,
    violations: Vec<String>,
    action: TurnAction,
)
    requires
        stepped(a, b, TurnEvent::Checked { status, violations }, action),
        a.phase == TurnPhase::Check,
    ensures
        status == InvariantCheckStatus::Failed && a.retries < a.retry_limit ==> {
            &&& action is AskResponder
            &&& b.phase == TurnPhase::Respond
            &&& b.retries == a.retries + 1
            &&& b.retry_violations@.len() == violations@.len()
            &&& forall|i: int|
                0 <= i < violations@.len() ==> (#[trigger] b.retry_violations@[i])@
                    == violations@[i]@
        },
        status != InvariantCheckStatus::Failed || a.retries >= a.retry_limit ==> action is ReadAnswer
            && b.phase == TurnPhase::Settle && (a.answer matches Some(answer)
            ==> action->ReadAnswer_answer@ == answer@) && b.violations == violations && b.status
            == status && b.retries == a.retries,
        b.board == a.board && b.history == a.history && b.answer == a.answer,
{
    if status == InvariantCheckStatus::Failed && a.retries < a.retry_limit {
        let told = crate::text::texts(b.retry_violations@);
        assert(told == crate::text::texts(violations@));
        assert(told.len() == b.retry_violations@.len());
        assert forall|i: int| 0 <= i < violations@.len() implies (
        #[trigger] b.retry_violations@[i])@ == violations@[i]@ by {
            assert(told[i] == crate::text::texts(violations@)[i]);
        }
    }
}

/// What an answer is read against holds the user's present message and every
/// message of theirs before it.
pub proof fn answers_are_read_against_the_users_words(
    a: SwarmTurn,
    b: SwarmTurn,
    event: TurnEvent,
    action: TurnAction,
)
    requires
        stepped(a, b, event, action),
        action is ReadAnswer,
    ensures
        crate::text::contains_text(action->evidence@, a.prompt@),
        forall|i: int|
            0 <= i < a.history@.len() && (#[trigger] a.history@[i]).role == Role::User
                ==> crate::text::contains_text(action->evidence@, a.history@[i].content@),
{
    let views = crate::providers::message_views(a.history@);
    let none = Seq::<char>::empty();
    assert(action->evidence@ == crate::chat::swarm::orchestrator::evidence(views, a.prompt@));
    if a.history@.len() > 0 {
        crate::chat::swarm::orchestrator::evidence_is_what_the_user_said(views, a.prompt@, 0);
    } else {
        let whole = crate::text::joined(
            crate::chat::swarm::orchestrator::user_texts(views),
            "\n"@,
        );
        crate::text::lemma_part_occurs(whole + "\n"@, a.prompt@, none);
        assert(whole + "\n"@ + a.prompt@ + none =~= action->evidence@);
    }
    assert forall|i: int|
        0 <= i < a.history@.len() && (#[trigger] a.history@[i]).role == Role::User implies
        crate::text::contains_text(action->evidence@, a.history@[i].content@) by {
        crate::chat::swarm::orchestrator::evidence_is_what_the_user_said(views, a.prompt@, i);
        assert(views[i] == (Role::User, a.history@[i].content@));
    }
}

/// What a worker brings back is kept twice: as an output of the turn, which the
/// responder is told, and as an artifact of the task, after those it has.
pub proof fn a_workers_result_is_kept(
    a: SwarmTurn,
    b: SwarmTurn,
    artifact: Option<(String, String)>,
    metrics: Option<RequestMetrics>,
    action: TurnAction,
)
    requires
        stepped(a, b, TurnEvent::WorkerDone { artifact, metrics }, action),
        a.phase == TurnPhase::Worker,
        a.board is Some,
    ensures
        artifact matches Some((key, value)) ==> {
            let n = a.worker_outputs@.len();
            let m = a.board->0.active.artifacts@.len();
            &&& b.worker_outputs@.len() == n + 1
            &&& b.worker_outputs@[n as int].key@ == key@
            &&& b.worker_outputs@[n as int].value@ == value@
            &&& b.worker_outputs@[n as int].stage == a.board->0.active.stage
            &&& forall|i: int|
                0 <= i < n ==> #[trigger] b.worker_outputs@[i] == a.worker_outputs@[i]
            &&& b.board is Some
            &&& b.board->0.active.artifacts@.len() == m + 1
            &&& b.board->0.active.artifacts@[m as int].key@ == key@
            &&& b.board->0.active.artifacts@[m as int].value@ == value@
            &&& b.board->0.active.stage == a.board->0.active.stage
        },
        artifact is None ==> action is Finish && b.ending == TurnEnding::Local && b.board is Some
            && b.board->0.active.stage == a.board->0.active.stage
            && b.board->0.active.artifacts == a.board->0.active.artifacts && b.worker_outputs
            == a.worker_outputs,
{
    let counted_turn = choose|mid: SwarmTurn| #[trigger]
        counted(a, mid, TurnEvent::WorkerDone { artifact, metrics }) && taken(
            mid,
            b,
            TurnEvent::WorkerDone { artifact, metrics },
            action,
        );
    if let Some((key, value)) = artifact {
        let mid = choose|mid: SwarmTurn| #[trigger]
            produced(counted_turn, mid, key@, value@) && turns_to_worker(
                mid,
                b,
                counted_turn.worker + 1,
                action,
            );
        let n = a.worker_outputs@.len();
        assert(mid.worker_outputs@.drop_last() == a.worker_outputs@);
        assert forall|i: int| 0 <= i < n implies #[trigger] b.worker_outputs@[i]
            == a.worker_outputs@[i] by {
            assert(mid.worker_outputs@.drop_last()[i] == a.worker_outputs@[i]);
        }
    }
}

/// Which agents run around an answer is told by the strategy of memory: facts are
/// gathered before it, or the message is routed to a topic, or neither; facts
/// are gathered after it unless they were before.
pub proof fn memory_runs_by_its_strategy(
    a: SwarmTurn,
    b: SwarmTurn,
    reading: PromptReading,
    hint: String,
    action: TurnAction,
)
    requires
        stepped(a, b, TurnEvent::Read { reading, hint }, action),
        a.phase == TurnPhase::Start,
        a.board is None,
    ensures
        a.strategy == MemoryStrategy::StickyFacts ==> action is LearnFacts && b.phase
            == TurnPhase::PreMemory,
        a.strategy == MemoryStrategy::ScopedBranches ==> action is RouteTopic && b.phase
            == TurnPhase::Topic,
        a.strategy != MemoryStrategy::StickyFacts && a.strategy != MemoryStrategy::ScopedBranches
            ==> action == (TurnAction::AskResponder { role: SubAgentRole::General }) && b.phase
            == TurnPhase::Respond,
        b.history == a.history && b.prompt == a.prompt && b.board is None,
{
}

/// After its answer a turn gathers facts, unless it did so before, then sums up,
/// then fills the profile where there is one, and ends. None of this touches the
/// reply or the conversation.
pub proof fn a_turn_ends_in_order(a: SwarmTurn, b: SwarmTurn, event: TurnEvent, action: TurnAction)
    requires
        stepped(a, b, event, action),
        fits(a.phase, event),
    ensures
        a.phase == TurnPhase::Settle && a.strategy == MemoryStrategy::StickyFacts ==> b.phase
            == TurnPhase::Summary && action is Summarize,
        a.phase == TurnPhase::Settle && a.strategy != MemoryStrategy::StickyFacts ==> b.phase
            == TurnPhase::PostMemory && action is LearnFacts,
        a.phase == TurnPhase::PostMemory ==> b.phase == TurnPhase::Summary && action is Summarize,
        a.phase == TurnPhase::Summary && a.agent_profile is Some ==> b.phase == TurnPhase::Profile
            && action is FillProfile,
        a.phase == TurnPhase::Summary && a.agent_profile is None ==> b.phase == TurnPhase::Ended
            && action is Finish,
        a.phase == TurnPhase::Profile ==> b.phase == TurnPhase::Ended && action is Finish && (
        event matches TurnEvent::Filled { profile, .. } && b.agent_profile == Some(profile)),
        a.phase == TurnPhase::PostMemory || a.phase == TurnPhase::Summary || a.phase
            == TurnPhase::Profile ==> b.reply == a.reply && b.history == a.history && b.board
            == a.board && b.violations == a.violations && b.status == a.status,
{
}

/// A routed message ends the turn with the words of the routing.
pub proof fn a_routed_message_is_the_reply(
    a: SwarmTurn,
    b: SwarmTurn,
    message: String,
    metrics: Option<RequestMetrics>,
    action: TurnAction,
)
    requires
        stepped(a, b, TurnEvent::Routed { message: Some(message), metrics }, action),
        a.phase == TurnPhase::Topic,
    ensures
        b.reply@ == message@,
        b.phase == TurnPhase::Ended,
        action is Finish,
        b.history@.len() == a.history@.len() + 2,
        b.history@[a.history@.len() as int].content@ == a.prompt@,
        b.history@[a.history@.len() as int + 1].content@ == message@,
        b.board == a.board,
{
    let before = crate::providers::message_views(a.history@);
    let after = crate::providers::message_views(b.history@);
    let n = a.history@.len() as int;
    assert(after.len() == b.history@.len());
    assert(after[n] == (Role::User, a.prompt@));
    assert(after[n + 1] == (Role::Assistant, message@));
}

/// Each request of a turn is counted once, the responder's apart from those of
/// the other agents.
pub proof fn requests_are_counted_once(
    a: SwarmTurn,
    b: SwarmTurn,
    event: TurnEvent,
    action: TurnAction,
)
    requires
        stepped(a, b, event, action),
        fits(a.phase, event),
    ensures
        event matches TurnEvent::Responded { outcome } ==> b.aux_metrics@ == a.aux_metrics@ && (
        outcome.metrics matches Some(m) ==> b.main_metrics@ == a.main_metrics@.push(m)) && (
        outcome.metrics is None ==> b.main_metrics@ == a.main_metrics@),
        event matches TurnEvent::WorkerDone { metrics, .. } ==> b.main_metrics@ == a.main_metrics@
            && (metrics matches Some(m) ==> b.aux_metrics@ == a.aux_metrics@.push(m)),
        event matches TurnEvent::Learned { metrics } ==> b.main_metrics@ == a.main_metrics@ && (
        metrics matches Some(m) ==> b.aux_metrics@ == a.aux_metrics@.push(m)),
        event matches TurnEvent::Routed { metrics, .. } ==> b.main_metrics@ == a.main_metrics@ && (
        metrics matches Some(m) ==> b.aux_metrics@ == a.aux_metrics@.push(m)),
        event matches TurnEvent::Summarized { metrics } ==> b.main_metrics@ == a.main_metrics@ && (
        metrics matches Some(m) ==> b.aux_metrics@ == a.aux_metrics@.push(m)),
        event matches TurnEvent::Filled { metrics, .. } ==> b.main_metrics@ == a.main_metrics@ && (
        metrics matches Some(m) ==> b.aux_metrics@ == a.aux_metrics@.push(m)),
{
}

/// A message to a task that waits for an approval either approves or changes
/// nothing: with an approval the work begins on its plan, without one the task
/// waits on at its stage. Either way the turn ends there, and no agent is asked.
pub proof fn a_waiting_task_hears_approvals_alone(
    a: SwarmTurn,
    b: SwarmTurn,
    reading: PromptReading,
    hint: String,
    action: TurnAction,
)
    requires
        stepped(a, b, TurnEvent::Read { reading, hint }, action),
        a.phase == TurnPhase::Start,
        a.board is Some,
        reading.switch_back is None,
        !reading.starts_new,
        a.board->0.active.paused,
        a.board->0.active.pause_reason == crate::chat::store::TaskPauseReason::PlanApproval,
    ensures
        b.board is Some,
        action is Finish,
        b.phase == TurnPhase::Ended,
        b.ending == TurnEnding::Local,
        b.board->0.backlog == a.board->0.backlog,
        b.board->0.active.artifacts == a.board->0.active.artifacts,
        ({
            let task = a.board->0.active;
            let p = crate::chat::swarm::lifecycle::control_intent(a.prompt@);
            let approves = crate::chat::swarm::lifecycle::approves(
                p,
                crate::chat::store::TaskPauseReason::PlanApproval,
            );
            &&& approves && task.stage == TaskStage::Planning
                && crate::chat::store::stage_has_artifact(task.artifacts@, TaskStage::Planning)
                ==> b.board->0.active.stage == TaskStage::Execution
                && b.board->0.active.plan_approved && !b.board->0.active.paused
            &&& !approves ==> b.board->0.active.stage == task.stage
                && b.board->0.active.plan_approved == task.plan_approved
                && b.board->0.active.paused && b.transition is None
            &&& crate::text::words_of(p).contains("нет"@) || crate::text::words_of(p).contains(
                "не"@,
            ) ==> b.board->0.active.stage == task.stage && b.board->0.active.plan_approved
                == task.plan_approved && b.board->0.active.paused
        }),
{
    let event = TurnEvent::Read { reading, hint };
    let noted = choose|mid: SwarmTurn| #[trigger]
        counted(a, mid, event) && taken(mid, b, event, action);
    let before = noted.board->0;
    let p = crate::chat::swarm::lifecycle::control_intent(a.prompt@);
    let (after, reply) = choose|after: TaskBoard, reply: Option<LocalReply>| #[trigger]
        crate::chat::swarm::orchestrator::board_begun(
            before,
            after,
            noted.prompt@,
            reading,
            hint@,
            reply,
        ) && {
            let mid = SwarmTurn { board: Some(after), ..noted };
            match reply {
                Some(reply) => ended_with(
                    mid,
                    b,
                    TurnEnding::Local,
                    reply.message@,
                    reply.transition,
                ) && action is Finish,
                None => proceeds(mid, b, action),
            }
        };
    let (mid, controlled, answered) = choose|
        mid: TaskBoard,
        controlled: TaskBoard,
        answered: Option<LocalReply>,
    | #[trigger]
        crate::chat::swarm::orchestrator::switched_and_controlled(
            before,
            mid,
            controlled,
            noted.prompt@,
            reading,
            hint@,
            answered,
        ) && {
            if answered is Some {
                after == controlled && reply == answered
            } else {
                crate::chat::swarm::orchestrator::guarded(
                    controlled,
                    after,
                    reading.requested_stage,
                    reply,
                )
            }
        };
    assert(mid == before);
    if crate::text::words_of(p).contains("нет"@) || crate::text::words_of(p).contains("не"@) {
        crate::chat::swarm::lifecycle::no_is_no_approval(p, crate::chat::store::TaskPauseReason::PlanApproval);
    }
}

/// An answer that is given out and finishes its stage hands its artifact to the
/// task, and the task goes on: from the questions to the plan, from the plan to
/// the user, from the work to its validation and from there to the end. One that
/// does not finish its stage leaves the task at it.
pub proof fn a_finished_answer_leads_the_task_on(
    a: SwarmTurn,
    b: SwarmTurn,
    reading: AnswerReading,
    action: TurnAction,
)
    requires
        stepped(a, b, TurnEvent::AnswerRead { reading }, action),
        a.phase == TurnPhase::Settle,
        a.board is Some,
        a.violations@.len() == 0,
        a.status != InvariantCheckStatus::Unavailable,
        !reading.compliance_only,
        !a.board->0.active.paused,
        a.board->0.active.pipeline@.len() == 0,
    ensures
        b.board is Some,
        b.board->0.backlog == a.board->0.backlog,
        !a.stage_complete ==> b.board->0.active.stage == a.board->0.active.stage
            && b.board->0.active.artifacts == a.board->0.active.artifacts
            && !b.board->0.active.paused && b.transition is None,
        a.stage_complete && (a.artifact matches Some((key, value)) && !crate::text::blank(value@))
            ==> {
            let task = a.board->0.active;
            let next = b.board->0.active;
            &&& next.artifacts@.len() == task.artifacts@.len() + 1
            &&& next.artifacts@[task.artifacts@.len() as int].value@ == (a.artifact->0).1@
            &&& next.artifacts@[task.artifacts@.len() as int].stage == task.stage
            &&& task.stage == TaskStage::Clarify ==> next.stage == TaskStage::Planning
            &&& task.stage == TaskStage::Planning ==> next.stage == TaskStage::Planning
                && next.paused && next.pause_reason == crate::chat::store::TaskPauseReason::PlanApproval
            &&& task.stage == TaskStage::Execution ==> next.stage == TaskStage::Validation
            &&& task.stage == TaskStage::Validation ==> next.stage == TaskStage::Done
                && next.validation_passed
            &&& task.stage == TaskStage::Done ==> next.stage == TaskStage::Done
        },
{
    let event = TurnEvent::AnswerRead { reading };
    let noted = choose|mid: SwarmTurn| #[trigger]
        counted(a, mid, event) && taken(mid, b, event, action);
    let left = left_broken(noted, reading);
    let before = a.board->0.active;
    let after = b.board->0.active;
    assert(left.len() == 0) by {
        if left.len() > 0 {
            crate::chat::swarm::orchestrator::broken_rules_stay_broken(
                a.invariants@,
                a.violations@,
                reading.invents_no_norms,
                left[0],
            );
            assert(left.contains(left[0]));
        }
    }
    assert(!leaves_task(noted, reading));
    let fin = choose|fin: TaskContext| #[trigger]
        task_answered(noted, reading, before, fin, b.transition) && violations_noted(
            fin,
            after,
            left,
        );
    let key = crate::chat::swarm::lifecycle::reported(before.stage, a.artifact).0;
    let value = crate::chat::swarm::lifecycle::reported(before.stage, a.artifact).1;
    let mid = choose|mid: TaskContext| #[trigger]
        crate::chat::swarm::task_facts::seeded(
            before,
            mid,
            noted.prompt@,
            reading.title@,
            crate::chat::swarm::task_facts::fact_views(reading.facts@),
            crate::text::option_text(reading.decision),
        ) && crate::chat::swarm::lifecycle::completed(
            mid,
            fin,
            noted.stage_complete,
            crate::chat::swarm::lifecycle::reported(mid.stage, noted.artifact).0,
            crate::chat::swarm::lifecycle::reported(mid.stage, noted.artifact).1,
            b.transition,
        );
    assert(mid.stage == before.stage);
    if a.stage_complete && a.artifact is Some && !crate::text::blank((a.artifact->0).1@) {
        crate::chat::swarm::lifecycle::a_finished_stage_leads_on(
            mid,
            fin,
            key,
            value,
            b.transition,
        );
    }
}

/// A turn is reported as it ended: the violations that were left, how the check
/// went, the transition that was made, what is still asked, and the task as it
/// stands.
pub proof fn turns_are_reported_as_they_ended(
    turn: SwarmTurn,
    metrics: Option<RequestMetrics>,
    report: StatefulReport,
)
    requires
        reports(turn, metrics, report),
        turn.ending == TurnEnding::Answered || turn.ending == TurnEnding::Local,
    ensures
        report.stage_transition == turn.transition,
        report.metrics == metrics,
        turn.board matches Some(board) ==> report.stage == Some(board.active.stage)
            && report.paused == board.active.paused,
        turn.board is None ==> report.stage is None,
        turn.ending == TurnEnding::Local ==> report.invariant_status@ == "not_run"@
            && report.violations@.len() == 0,
        turn.ending == TurnEnding::Answered ==> report.violations@.len() == turn.violations@.len()
            && forall|i: int|
            0 <= i < turn.violations@.len() ==> (#[trigger] report.violations@[i])@
                == turn.violations@[i]@,
        turn.ending == TurnEnding::Answered && turn.status == InvariantCheckStatus::Failed
            ==> report.invariant_status@ == "blocked"@,
        turn.ending == TurnEnding::Answered && turn.status == InvariantCheckStatus::Passed
            ==> report.invariant_status@ == "pass"@,
        turn.ending == TurnEnding::Answered && turn.status == InvariantCheckStatus::Unavailable
            ==> report.invariant_status@ == "unverified"@,
{
    if turn.ending == TurnEnding::Answered {
        let told = crate::text::texts(report.violations@);
        assert(told.len() == report.violations@.len());
        assert forall|i: int| 0 <= i < turn.violations@.len() implies (
        #[trigger] report.violations@[i])@ == turn.violations@[i]@ by {
            assert(told[i] == crate::text::texts(turn.violations@)[i]);
        }
    }
}

/// A worker's stop tells which one stopped, and at which stage.
pub proof fn a_stopped_stage_tells_its_worker(task: TaskContext, id: Seq<char>)
    ensures
        crate::text::one_after_other(
            fruitless_worker(task, id),
            crate::text::trimmed(id),
            crate::chat::store::stage_name(task.stage),
        ),
        crate::text::contains_text(
            nameless_worker(task),
            crate::chat::store::stage_name(task.stage),
        ),
{
    let stage = crate::chat::store::stage_name(task.stage);
    crate::text::lemma_one_after_other(
        "Pipeline worker `"@,
        crate::text::trimmed(id),
        "` не создал результат; стадия "@,
        stage,
        " остановлена."@,
    );
    crate::text::lemma_part_occurs(
        "Pipeline worker для стадии "@,
        stage,
        " не имеет обязательного id."@,
    );
}

/// A responder is asked with the model of its own profile, the prices and the
/// look-up of costs of the turn, and the sampling that was asked for.
pub proof fn the_responder_is_asked_as_set_up(
    turn: SwarmTurn,
    setup: RequestSetup,
    context: TurnContext,
    prepared: PreparedRequest,
)
    requires
        asks_responder(turn, setup, context, prepared),
    ensures
        prepared.request.model == prepared.profile.model,
        prepared.request.pricing == setup.pricing,
        prepared.request.billing == setup.billing,
        prepared.request.control.temperature == setup.control.temperature,
        prepared.request.control.max_tokens == setup.control.max_tokens,
        prepared.request.control.max_completion_tokens == setup.control.max_completion_tokens,
        prepared.request.control.format == setup.control.format,
        setup.roster@.len() == 0 ==> prepared.profile == setup.main_profile && prepared.token@
            == setup.main_token@,
        turn.board is Some ==> (prepared.request.control.answer_suffix matches Some(t)
            ==> !crate::text::contains_text(t@, "<<STAGE_DONE"@)),
        turn.board is None ==> prepared.request.control.answer_suffix
            == setup.control.answer_suffix && prepared.request.control.completion_instruction
            == setup.control.completion_instruction,
{
}

/// A responder that is asked for the first time is told of no broken rule, and an
/// answer that is read leaves none to be told.
pub proof fn only_a_retry_tells_of_broken_rules(
    a: SwarmTurn,
    b: SwarmTurn,
    event: TurnEvent,
    action: TurnAction,
)
    requires
        stepped(a, b, event, action),
    ensures
        action is AskResponder && a.phase != TurnPhase::Check ==> b.retry_violations@.len() == 0,
        action is ReadAnswer ==> b.retry_violations@.len() == 0,
{
}

} // verus!
