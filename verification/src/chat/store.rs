//! A task and its lifecycle: the stages, the edges between them, and what has
//! to be there before an edge may be taken.
use vstd::prelude::*;

use crate::text::{cat3, cat5, is_blank, trim};

verus! {

broadcast use vstd::string::group_string_axioms;

/// The stages of a task.
#[derive(Debug, Clone, Copy, PartialEq, Eq, Structural)]
pub enum TaskStage {
    Clarify,
    Planning,
    Execution,
    Validation,
    Done,
}

/// The name of a stage.
pub open spec fn stage_name(stage: TaskStage) -> Seq<char> {
    match stage {
        TaskStage::Clarify => "clarify"@,
        TaskStage::Planning => "planning"@,
        TaskStage::Execution => "execution"@,
        TaskStage::Validation => "validation"@,
        TaskStage::Done => "done"@,
    }
}

/// The position of a stage in the order.
pub open spec fn stage_rank(stage: TaskStage) -> int {
    match stage {
        TaskStage::Clarify => 0,
        TaskStage::Planning => 1,
        TaskStage::Execution => 2,
        TaskStage::Validation => 3,
        TaskStage::Done => 4,
    }
}

/// The stages that a stage may be followed by.
pub open spec fn next_stages(stage: TaskStage) -> Seq<TaskStage> {
    match stage {
        TaskStage::Clarify => seq![TaskStage::Planning],
        TaskStage::Planning => seq![TaskStage::Execution],
        TaskStage::Execution => seq![TaskStage::Validation, TaskStage::Planning],
        TaskStage::Validation => seq![TaskStage::Done, TaskStage::Execution],
        TaskStage::Done => Seq::empty(),
    }
}

/// Whether the table has an edge from `from` to `to`.
pub open spec fn edge(from: TaskStage, to: TaskStage) -> bool {
    next_stages(from).contains(to)
}

/// The next stage of the order.
pub open spec fn stage_after(stage: TaskStage) -> Option<TaskStage> {
    match stage {
        TaskStage::Clarify => Some(TaskStage::Planning),
        TaskStage::Planning => Some(TaskStage::Execution),
        TaskStage::Execution => Some(TaskStage::Validation),
        TaskStage::Validation => Some(TaskStage::Done),
        TaskStage::Done => None,
    }
}

/// The stage that a task can be taken back to.
pub open spec fn stage_before(stage: TaskStage) -> Option<TaskStage> {
    match stage {
        TaskStage::Execution => Some(TaskStage::Planning),
        TaskStage::Validation => Some(TaskStage::Execution),
        _ => None,
    }
}

/// An edge leads to the next stage of the order or back by one; in particular
/// no edge jumps over a stage and none leaves the last one.
pub proof fn edges_never_jump(from: TaskStage, to: TaskStage)
    ensures
        edge(from, to) <==> stage_after(from) == Some(to) || stage_before(from) == Some(to),
        edge(from, to) ==> stage_rank(to) == stage_rank(from) + 1 || stage_rank(to) == stage_rank(
            from,
        ) - 1,
        from == TaskStage::Done ==> !edge(from, to),
{
    assert(seq![TaskStage::Planning].contains(to) <==> to == TaskStage::Planning) by {
        assert(seq![TaskStage::Planning][0] == TaskStage::Planning);
    }
    assert(seq![TaskStage::Execution].contains(to) <==> to == TaskStage::Execution) by {
        assert(seq![TaskStage::Execution][0] == TaskStage::Execution);
    }
    let e = seq![TaskStage::Validation, TaskStage::Planning];
    assert(e.contains(to) <==> to == TaskStage::Validation || to == TaskStage::Planning) by {
        assert(e[0] == TaskStage::Validation && e[1] == TaskStage::Planning);
    }
    let v = seq![TaskStage::Done, TaskStage::Execution];
    assert(v.contains(to) <==> to == TaskStage::Done || to == TaskStage::Execution) by {
        assert(v[0] == TaskStage::Done && v[1] == TaskStage::Execution);
    }
}

impl TaskStage {
    /// The stages in order.
    pub const ORDERED: [TaskStage; 5] = [
        TaskStage::Clarify,
        TaskStage::Planning,
        TaskStage::Execution,
        TaskStage::Validation,
        TaskStage::Done,
    ];

    /// The position of the stage in the order.
    pub fn rank(self) -> (r: usize)
        ensures
            r == stage_rank(self),
            TaskStage::ORDERED@[r as int] == self,
    {
        match self {
            TaskStage::Clarify => 0,
            TaskStage::Planning => 1,
            TaskStage::Execution => 2,
            TaskStage::Validation => 3,
            TaskStage::Done => 4,
        }
    }

    /// The name of the stage.
    pub fn name(self) -> (r: &'static str)
        ensures
            r@ == stage_name(self),
    {
        match self {
            TaskStage::Clarify => "clarify",
            TaskStage::Planning => "planning",
            TaskStage::Execution => "execution",
            TaskStage::Validation => "validation",
            TaskStage::Done => "done",
        }
    }

    /// The stages that the stage may be followed by.
    pub fn allowed_next(self) -> (r: &'static [TaskStage])
        ensures
            r@ == next_stages(self),
    {
        match self {
            TaskStage::Clarify => &[TaskStage::Planning],
            TaskStage::Planning => &[TaskStage::Execution],
            TaskStage::Execution => &[TaskStage::Validation, TaskStage::Planning],
            TaskStage::Validation => &[TaskStage::Done, TaskStage::Execution],
            TaskStage::Done => &[],
        }
    }

    /// Whether the table has an edge to `next`.
    pub fn can_transition(self, next: TaskStage) -> (r: bool)
        ensures
            r == edge(self, next),
    {
        let targets = self.allowed_next();
        let mut i: usize = 0;
        while i < targets.len()
            invariant
                i <= targets.len(),
                targets@ == next_stages(self),
                forall|j: int| 0 <= j < i ==> targets@[j] != next,
            decreases targets.len() - i,
        {
            if targets[i] == next {
                return true;
            }
            i = i + 1;
        }
        false
    }

    /// The next stage of the order.
    pub fn canonical_next(self) -> (r: Option<TaskStage>)
        ensures
            r == stage_after(self),
    {
        match self {
            TaskStage::Clarify => Some(TaskStage::Planning),
            TaskStage::Planning => Some(TaskStage::Execution),
            TaskStage::Execution => Some(TaskStage::Validation),
            TaskStage::Validation => Some(TaskStage::Done),
            TaskStage::Done => None,
        }
    }

    /// The stage that a task can be taken back to.
    pub fn previous(self) -> (r: Option<TaskStage>)
        ensures
            r == stage_before(self),
    {
        match self {
            TaskStage::Execution => Some(TaskStage::Planning),
            TaskStage::Validation => Some(TaskStage::Execution),
            _ => None,
        }
    }
}

impl Default for TaskStage {
    fn default() -> (r: Self)
        ensures
            r == TaskStage::Clarify,
    {
        TaskStage::Clarify
    }
}

/// Why a task is paused.
#[derive(Debug, Clone, Copy, PartialEq, Eq, Structural)]
pub enum TaskPauseReason {
    /// The user asked for a pause.
    Manual,
    /// The plan waits for the user's approval.
    PlanApproval,
    /// The artifact of a stage waits for the user's approval.
    StageApproval,
}

/// What a stage produced.
#[derive(Debug, PartialEq, Eq)]
pub struct TaskArtifact {
    pub stage: TaskStage,
    pub key: String,
    pub value: String,
}

impl Clone for TaskArtifact {
    fn clone(&self) -> (r: Self)
        ensures
            r == *self,
    {
        TaskArtifact { stage: self.stage, key: self.key.clone(), value: self.value.clone() }
    }
}

/// A worker that is asked before the responder of a stage.
#[derive(Debug, PartialEq, Eq)]
pub struct TaskWorkerAgent {
    pub id: String,
    pub direction: String,
    pub system_prompt: String,
}

impl Clone for TaskWorkerAgent {
    fn clone(&self) -> (r: Self)
        ensures
            r == *self,
    {
        TaskWorkerAgent {
            id: self.id.clone(),
            direction: self.direction.clone(),
            system_prompt: self.system_prompt.clone(),
        }
    }
}

/// What a pipeline asks of one stage.
#[derive(Debug, PartialEq, Eq)]
pub struct TaskPipelineStage {
    pub stage: TaskStage,
    pub name: String,
    pub system_prompt: String,
    pub artifact_key: String,
    pub requires_human_approval: bool,
    pub worker_agents: Vec<TaskWorkerAgent>,
}

/// A task: where it stands in its lifecycle and what it has gathered.
#[derive(Debug, PartialEq, Eq)]
pub struct TaskContext {
    pub stage: TaskStage,
    pub title: String,
    pub goal: String,
    pub plan: Vec<String>,
    pub current_step: String,
    pub expected_action: String,
    pub paused: bool,
    pub pause_reason: TaskPauseReason,
    pub resume_hint: String,
    pub plan_approved: bool,
    pub validation_passed: bool,
    pub transition_block_reason: String,
    pub artifacts: Vec<TaskArtifact>,
    pub pipeline: Vec<TaskPipelineStage>,
    pub violations: Vec<String>,
    pub results: Vec<String>,
}

/// What became of an attempt to change the stage.
#[derive(Debug, PartialEq, Eq)]
pub struct StageTransition {
    pub from: TaskStage,
    pub to: TaskStage,
    pub accepted: bool,
    pub reason: String,
}

impl Clone for StageTransition {
    fn clone(&self) -> (r: Self)
        ensures
            r == *self,
    {
        StageTransition {
            from: self.from,
            to: self.to,
            accepted: self.accepted,
            reason: self.reason.clone(),
        }
    }
}

/// What is done at a stage.
pub open spec fn stage_step(stage: TaskStage) -> Seq<char> {
    match stage {
        TaskStage::Clarify => "уточнить задачу"@,
        TaskStage::Planning => "подготовить план"@,
        TaskStage::Execution => "выполнить план"@,
        TaskStage::Validation => "проверить результат"@,
        TaskStage::Done => "задача завершена"@,
    }
}

/// Who acts next at a stage.
pub open spec fn stage_action(stage: TaskStage) -> Seq<char> {
    match stage {
        TaskStage::Done => "none"@,
        _ => "agent_work"@,
    }
}

/// Whether a stage of the task has produced an artifact.
pub open spec fn stage_has_artifact(artifacts: Seq<TaskArtifact>, stage: TaskStage) -> bool {
    exists|i: int| 0 <= i < artifacts.len() && #[trigger] artifacts[i].stage == stage
}

/// Whether what an edge asks for is there: the approved plan before the work,
/// the passed validation before the end.
pub open spec fn gate_open(task: TaskContext, next: TaskStage) -> bool {
    &&& (task.stage == TaskStage::Planning && next == TaskStage::Execution) ==> task.plan_approved
    &&& (task.stage == TaskStage::Validation && next == TaskStage::Done) ==> task.validation_passed
}

/// Whether the task may go to `next`.
pub open spec fn may_transition(task: TaskContext, next: TaskStage) -> bool {
    edge(task.stage, next) && gate_open(task, next)
}

/// What has to happen before the task can go on from its stage.
pub open spec fn requirement(task: TaskContext) -> Seq<char> {
    match task.stage {
        TaskStage::Clarify => "Сначала завершите уточнение задачи; реализация и проверка пока заблокированы."@,
        TaskStage::Planning => if !stage_has_artifact(task.artifacts@, TaskStage::Planning) {
            "Сначала PlanningAgent должен подготовить план."@
        } else {
            "Сначала пользователь должен явно утвердить план."@
        },
        TaskStage::Execution => "Сначала ExecutionAgent должен завершить результат, затем его проверит ValidationAgent."@,
        TaskStage::Validation => "Финал доступен только после успешного результата ValidationAgent."@,
        TaskStage::Done => "Задача уже завершена."@,
    }
}

/// Why the table or a gate keeps a task from going to `next`.
pub open spec fn refusal(task: TaskContext, next: TaskStage) -> Seq<char> {
    if !edge(task.stage, next) {
        "Переход `"@ + stage_name(task.stage) + "` → `"@ + stage_name(next)
            + "` не предусмотрен."@
    } else {
        requirement(task)
    }
}

/// Whether everything that the task has gathered is the same.
pub open spec fn same_work(a: TaskContext, b: TaskContext) -> bool {
    &&& a.title == b.title
    &&& a.goal == b.goal
    &&& a.plan == b.plan
    &&& a.artifacts == b.artifacts
    &&& a.pipeline == b.pipeline
    &&& a.violations == b.violations
    &&& a.results == b.results
}

/// Whether the task shows the step and the action of its stage.
pub open spec fn in_step(task: TaskContext) -> bool {
    task.current_step@ == stage_step(task.stage) && task.expected_action@ == stage_action(task.stage)
}

/// `b` is `a` after it was taken to the stage `next`.
pub open spec fn moved_to(a: TaskContext, b: TaskContext, next: TaskStage) -> bool {
    &&& b == (TaskContext {
        stage: next,
        current_step: b.current_step,
        expected_action: b.expected_action,
        resume_hint: b.resume_hint,
        transition_block_reason: b.transition_block_reason,
        plan_approved: a.plan_approved && !(a.stage == TaskStage::Execution && next
            == TaskStage::Planning),
        validation_passed: a.validation_passed && !(a.stage == TaskStage::Validation && next
            == TaskStage::Execution),
        ..a
    })
    &&& in_step(b)
    &&& b.resume_hint == b.current_step
    &&& b.transition_block_reason@.len() == 0
}

/// `b` is `a` but for the reason why it is held back.
pub open spec fn held_back(a: TaskContext, b: TaskContext, reason: Seq<char>) -> bool {
    &&& b == (TaskContext { transition_block_reason: b.transition_block_reason, ..a })
    &&& b.transition_block_reason@ == reason
}

/// `b` is `a` paused for `reason`: the next move is the user's, and everything
/// else is as it was.
pub open spec fn paused_for(
    a: TaskContext,
    b: TaskContext,
    reason: TaskPauseReason,
    hint: Seq<char>,
) -> bool {
    &&& b == (TaskContext {
        paused: true,
        pause_reason: reason,
        resume_hint: b.resume_hint,
        expected_action: b.expected_action,
        ..a
    })
    &&& b.resume_hint@ == hint
    &&& b.expected_action@ == "user_input"@
}

/// `b` is `a` set aside: paused, with all that it has gathered.
pub open spec fn parked(a: TaskContext, b: TaskContext, hint: Seq<char>) -> bool {
    paused_for(a, b, TaskPauseReason::Manual, hint)
}

/// `b` is `a` taken up again where it stood.
pub open spec fn taken_up(a: TaskContext, b: TaskContext) -> bool {
    &&& b == (TaskContext {
        paused: false,
        pause_reason: TaskPauseReason::Manual,
        expected_action: b.expected_action,
        transition_block_reason: b.transition_block_reason,
        ..a
    })
    &&& b.expected_action@ == stage_action(a.stage)
    &&& b.transition_block_reason@.len() == 0
}

/// Whether a task has a goal and nothing more.
pub open spec fn just_begun(task: TaskContext, goal: Seq<char>) -> bool {
    &&& task.stage == TaskStage::Clarify
    &&& task.title@.len() == 0
    &&& task.goal@ == goal
    &&& task.plan@.len() == 0
    &&& task.current_step@.len() == 0
    &&& task.expected_action@.len() == 0
    &&& !task.paused
    &&& task.pause_reason == TaskPauseReason::Manual
    &&& task.resume_hint@.len() == 0
    &&& !task.plan_approved
    &&& !task.validation_passed
    &&& task.transition_block_reason@.len() == 0
    &&& task.artifacts@.len() == 0
    &&& task.pipeline@.len() == 0
    &&& task.violations@.len() == 0
    &&& task.results@.len() == 0
}

impl TaskContext {
    /// A task that has not begun.
    pub fn new() -> (r: Self)
        ensures
            just_begun(r, Seq::empty()),
    {
        let task = TaskContext {
            stage: TaskStage::Clarify,
            title: String::new(),
            goal: String::new(),
            plan: Vec::new(),
            current_step: String::new(),
            expected_action: String::new(),
            paused: false,
            pause_reason: TaskPauseReason::Manual,
            resume_hint: String::new(),
            plan_approved: false,
            validation_passed: false,
            transition_block_reason: String::new(),
            artifacts: Vec::new(),
            pipeline: Vec::new(),
            violations: Vec::new(),
            results: Vec::new(),
        };
        assert(task.goal@ =~= Seq::<char>::empty());
        task
    }

    /// Whether the stage has produced an artifact.
    pub fn has_stage_artifact(&self, stage: TaskStage) -> (r: bool)
        ensures
            r == stage_has_artifact(self.artifacts@, stage),
    {
        let mut i: usize = 0;
        while i < self.artifacts.len()
            invariant
                i <= self.artifacts.len(),
                forall|j: int| 0 <= j < i ==> #[trigger] self.artifacts@[j].stage != stage,
            decreases self.artifacts.len() - i,
        {
            if self.artifacts[i].stage == stage {
                return true;
            }
            i = i + 1;
        }
        false
    }

    /// What has to happen before the task can go on.
    pub fn next_transition_requirement(&self) -> (r: &'static str)
        ensures
            r@ == requirement(*self),
    {
        match self.stage {
            TaskStage::Clarify => "Сначала завершите уточнение задачи; реализация и проверка пока заблокированы.",
            TaskStage::Planning => if !self.has_stage_artifact(TaskStage::Planning) {
                "Сначала PlanningAgent должен подготовить план."
            } else {
                "Сначала пользователь должен явно утвердить план."
            },
            TaskStage::Execution => "Сначала ExecutionAgent должен завершить результат, затем его проверит ValidationAgent.",
            TaskStage::Validation => "Финал доступен только после успешного результата ValidationAgent.",
            TaskStage::Done => "Задача уже завершена.",
        }
    }

    /// Shows the step and the action of the stage.
    pub fn sync_progress_for_stage(&mut self)
        ensures
            *final(self) == (TaskContext {
                current_step: final(self).current_step,
                expected_action: final(self).expected_action,
                resume_hint: final(self).resume_hint,
                ..*old(self)
            }),
            in_step(*final(self)),
            final(self).resume_hint == final(self).current_step,
    {
        let step = match self.stage {
            TaskStage::Clarify => "уточнить задачу",
            TaskStage::Planning => "подготовить план",
            TaskStage::Execution => "выполнить план",
            TaskStage::Validation => "проверить результат",
            TaskStage::Done => "задача завершена",
        };
        let action = match self.stage {
            TaskStage::Done => "none",
            _ => "agent_work",
        };
        self.current_step = step.to_string();
        self.expected_action = action.to_string();
        self.resume_hint = self.current_step.clone();
    }

    /// Takes the task to `next` where the table has the edge and its gate is
    /// open. Going back takes back what the stage had gained: the approval of
    /// the plan, or the passed validation.
    pub fn try_transition(&mut self, next: TaskStage) -> (r: StageTransition)
        ensures
            r.from == old(self).stage,
            r.to == next,
            r.accepted == may_transition(*old(self), next),
            r.accepted ==> moved_to(*old(self), *final(self), next) && r.reason@.len() == 0,
            !r.accepted ==> held_back(*old(self), *final(self), refusal(*old(self), next))
                && r.reason@ == refusal(*old(self), next),
    {
        let from = self.stage;
        if !from.can_transition(next) {
            let reason = cat5("Переход `", from.name(), "` → `", next.name(), "` не предусмотрен.");
            self.transition_block_reason = reason.clone();
            return StageTransition { from, to: next, accepted: false, reason };
        }
        let unapproved = from == TaskStage::Planning && next == TaskStage::Execution
            && !self.plan_approved;
        let unvalidated = from == TaskStage::Validation && next == TaskStage::Done
            && !self.validation_passed;
        if unapproved || unvalidated {
            let reason = self.next_transition_requirement().to_string();
            self.transition_block_reason = reason.clone();
            return StageTransition { from, to: next, accepted: false, reason };
        }
        if from == TaskStage::Execution && next == TaskStage::Planning {
            self.plan_approved = false;
        }
        if from == TaskStage::Validation && next == TaskStage::Execution {
            self.validation_passed = false;
        }
        self.stage = next;
        self.transition_block_reason = String::new();
        self.sync_progress_for_stage();
        StageTransition { from, to: next, accepted: true, reason: String::new() }
    }

    /// Pauses the task for `reason`; the next move is the user's.
    pub fn pause_for(&mut self, reason: TaskPauseReason, hint: &str)
        ensures
            paused_for(*old(self), *final(self), reason, hint@),
    {
        self.paused = true;
        self.pause_reason = reason;
        self.resume_hint = hint.to_string();
        self.expected_action = "user_input".to_string();
    }

    /// Pauses the task because the user asked for it.
    pub fn pause(&mut self, hint: &str)
        ensures
            parked(*old(self), *final(self), hint@),
    {
        self.pause_for(TaskPauseReason::Manual, hint);
    }

    /// Ends a pause; the task goes on where it stood.
    pub fn resume(&mut self)
        ensures
            taken_up(*old(self), *final(self)),
    {
        self.paused = false;
        self.pause_reason = TaskPauseReason::Manual;
        self.transition_block_reason = String::new();
        self.expected_action = match self.stage {
            TaskStage::Done => "none".to_string(),
            _ => "agent_work".to_string(),
        };
    }

    /// Records what the current stage produced. A blank key stands for the name
    /// of the stage.
    pub fn record_stage_artifact(&mut self, stage: TaskStage, key: &str, value: &str) -> (r: bool)
        ensures
            r == (stage == old(self).stage),
            !r ==> *final(self) == *old(self),
            r ==> recorded(*old(self), *final(self), artifact_key(stage, key@), value@),
    {
        if stage != self.stage {
            return false;
        }
        let key = if is_blank(key) {
            stage.name().to_string()
        } else {
            trim(key).to_string()
        };
        self.artifacts.push(TaskArtifact { stage, key, value: value.to_string() });
        assert(self.artifacts@.drop_last() =~= old(self).artifacts@);
        true
    }
}

/// The key of an artifact: a blank one stands for the name of the stage.
pub open spec fn artifact_key(stage: TaskStage, key: Seq<char>) -> Seq<char> {
    if crate::text::blank(key) {
        stage_name(stage)
    } else {
        crate::text::trimmed(key)
    }
}

/// `b` is `a` with one more artifact of its stage.
pub open spec fn recorded(a: TaskContext, b: TaskContext, key: Seq<char>, value: Seq<char>) -> bool {
    &&& b == (TaskContext { artifacts: b.artifacts, ..a })
    &&& b.artifacts@.len() == a.artifacts@.len() + 1
    &&& b.artifacts@.drop_last() == a.artifacts@
    &&& b.artifacts@.last().stage == a.stage
    &&& b.artifacts@.last().key@ == key
    &&& b.artifacts@.last().value@ == value
}

/// The first entry of a pipeline for `stage`, from `from` on.
pub open spec fn pipeline_entry(
    pipeline: Seq<TaskPipelineStage>,
    stage: TaskStage,
    from: int,
) -> Option<int>
    decreases pipeline.len() - from,
{
    if from < 0 || from >= pipeline.len() {
        None
    } else if pipeline[from].stage == stage {
        Some(from)
    } else {
        pipeline_entry(pipeline, stage, from + 1)
    }
}

/// The first entry of a pipeline without an artifact key, from `from` on.
pub open spec fn keyless_entry(pipeline: Seq<TaskPipelineStage>, from: int) -> Option<int>
    decreases pipeline.len() - from,
{
    if from < 0 || from >= pipeline.len() {
        None
    } else if crate::text::blank(pipeline[from].artifact_key@) {
        Some(from)
    } else {
        keyless_entry(pipeline, from + 1)
    }
}

/// Whether one operation takes a task only along the table and through open
/// gates: it stays, or takes an edge; the work begins with an approved plan,
/// the end comes with a passed validation.
pub open spec fn lifecycle_step(a: TaskContext, b: TaskContext) -> bool {
    a.stage == b.stage || {
        &&& edge(a.stage, b.stage)
        &&& a.stage == TaskStage::Planning ==> b.plan_approved
        &&& b.stage == TaskStage::Done ==> b.validation_passed
    }
}

/// Whether the task has what its stage presupposes: an approved plan from the
/// execution on, a passed validation at the end.
pub open spec fn gated(task: TaskContext) -> bool {
    &&& stage_rank(task.stage) >= 2 ==> task.plan_approved
    &&& task.stage == TaskStage::Done ==> task.validation_passed
}

/// A transition that is tried never takes a task past a closed gate, and keeps
/// what the stages presuppose.
pub proof fn transition_keeps_gates(a: TaskContext, b: TaskContext, next: TaskStage)
    requires
        moved_to(a, b, next),
        may_transition(a, next),
    ensures
        lifecycle_step(a, b),
        gated(a) ==> gated(b),
{
    edges_never_jump(a.stage, next);
}

/// Which pause an artifact waits in.
pub open spec fn awaits_approval(task: TaskContext) -> bool {
    task.paused && (task.pause_reason == TaskPauseReason::PlanApproval || task.pause_reason
        == TaskPauseReason::StageApproval)
}

/// Whether an approval takes the task on: a plan needs to be there, and a
/// finished task has no next stage.
pub open spec fn approval_succeeds(task: TaskContext) -> bool {
    if task.pause_reason == TaskPauseReason::PlanApproval {
        task.stage == TaskStage::Planning && stage_has_artifact(
            task.artifacts@,
            TaskStage::Planning,
        )
    } else {
        task.stage == TaskStage::Clarify || task.stage == TaskStage::Execution || task.stage
            == TaskStage::Validation || (task.stage == TaskStage::Planning && task.plan_approved)
    }
}

/// Whether `b` is `a` after the user approved what it was waiting for.
pub open spec fn approved(a: TaskContext, b: TaskContext) -> bool {
    &&& stage_after(a.stage) == Some(b.stage)
    &&& b == (TaskContext {
        stage: b.stage,
        paused: false,
        pause_reason: TaskPauseReason::Manual,
        current_step: b.current_step,
        expected_action: b.expected_action,
        resume_hint: b.resume_hint,
        transition_block_reason: b.transition_block_reason,
        plan_approved: a.plan_approved || a.pause_reason == TaskPauseReason::PlanApproval,
        validation_passed: a.validation_passed || a.stage == TaskStage::Validation,
        ..a
    })
    &&& in_step(b)
    &&& b.resume_hint == b.current_step
    &&& b.transition_block_reason@.len() == 0
}

/// `b` is `a` waiting for the user to approve its plan.
pub open spec fn awaits_plan(a: TaskContext, b: TaskContext, hint: Seq<char>) -> bool {
    &&& b == (TaskContext {
        paused: true,
        pause_reason: TaskPauseReason::PlanApproval,
        resume_hint: b.resume_hint,
        current_step: b.current_step,
        expected_action: b.expected_action,
        ..a
    })
    &&& b.resume_hint@ == hint
    &&& b.current_step@ == "утвердить план"@
    &&& b.expected_action@ == "approve_plan"@
}

/// What a task that waits for the approval of its plan is taken up with.
pub open spec fn plan_hint() -> Seq<char> {
    "Проверьте подготовленный план и явно напишите «утверждаю план»."@
}

impl TaskContext {
    /// The stage after the current one.
    pub fn next_stage(&self) -> (r: Option<TaskStage>)
        ensures
            r == stage_after(self.stage),
    {
        self.stage.canonical_next()
    }

    /// What the pipeline asks of the current stage.
    pub fn active_pipeline_stage(&self) -> (r: Option<&TaskPipelineStage>)
        ensures
            match pipeline_entry(self.pipeline@, self.stage, 0) {
                Some(i) => r == Some(&self.pipeline@[i]) && 0 <= i < self.pipeline@.len()
                    && self.pipeline@[i].stage == self.stage,
                None => r is None,
            },
    {
        let mut i: usize = 0;
        while i < self.pipeline.len()
            invariant
                i <= self.pipeline.len(),
                pipeline_entry(self.pipeline@, self.stage, 0) == pipeline_entry(
                    self.pipeline@,
                    self.stage,
                    i as int,
                ),
            decreases self.pipeline.len() - i,
        {
            if self.pipeline[i].stage == self.stage {
                return Some(&self.pipeline[i]);
            }
            i = i + 1;
        }
        None
    }

    /// Accepts a pipeline in which every stage names its artifact.
    pub fn validate_pipeline(&self) -> (r: Result<(), String>)
        ensures
            match keyless_entry(self.pipeline@, 0) {
                Some(i) => r matches Err(reason) && reason@ == "Pipeline: у стадии "@ + stage_name(
                    self.pipeline@[i].stage,
                ) + " нет ключа артефакта."@,
                None => r is Ok,
            },
    {
        let mut i: usize = 0;
        while i < self.pipeline.len()
            invariant
                i <= self.pipeline.len(),
                keyless_entry(self.pipeline@, 0) == keyless_entry(self.pipeline@, i as int),
            decreases self.pipeline.len() - i,
        {
            if is_blank(self.pipeline[i].artifact_key.as_str()) {
                return Err(
                    cat3(
                        "Pipeline: у стадии ",
                        self.pipeline[i].stage.name(),
                        " нет ключа артефакта.",
                    ),
                );
            }
            i = i + 1;
        }
        Ok(())
    }

    /// Takes the task on from a stage that is finished: a finished validation
    /// has passed, and the task goes to the next stage of the order.
    pub fn leave_stage(&mut self) -> (r: Option<StageTransition>)
        ensures
            r is None <==> stage_after(old(self).stage) is None,
            lifecycle_step(*old(self), *final(self)),
            gated(*old(self)) ==> gated(*final(self)),
            stage_after(old(self).stage) matches Some(next) ==> left(*old(self), *final(self), next, r->0),
            r is None ==> *final(self) == *old(self),
    {
        let next = match self.stage.canonical_next() {
            Some(next) => next,
            None => {
                return None;
            },
        };
        if self.stage == TaskStage::Validation {
            self.validation_passed = true;
        }
        let ghost mid = *self;
        let r = self.try_transition(next);
        proof {
            edges_never_jump(mid.stage, next);
            if r.accepted {
                transition_keeps_gates(mid, *self, next);
            }
        }
        Some(r)
    }

    /// Waits for the user to approve the plan.
    pub fn await_plan_approval(&mut self, hint: &str)
        ensures
            awaits_plan(*old(self), *final(self), hint@),
    {
        self.pause_for(TaskPauseReason::PlanApproval, hint);
        self.current_step = "утвердить план".to_string();
        self.expected_action = "approve_plan".to_string();
    }

    /// Goes on after the user approved the plan or the artifact that the task
    /// was waiting with. Where that cannot be, only the reason is noted.
    pub fn approve_pipeline_pause(&mut self) -> (r: bool)
        requires
            awaits_approval(*old(self)),
        ensures
            r == approval_succeeds(*old(self)),
            r ==> approved(*old(self), *final(self)),
            !r ==> held_back(*old(self), *final(self), requirement(*old(self))),
            lifecycle_step(*old(self), *final(self)),
            gated(*old(self)) ==> gated(*final(self)),
    {
        let is_plan = self.pause_reason == TaskPauseReason::PlanApproval;
        let possible = if is_plan {
            self.stage == TaskStage::Planning && self.has_stage_artifact(TaskStage::Planning)
        } else {
            match self.stage {
                TaskStage::Done => false,
                TaskStage::Planning => self.plan_approved,
                _ => true,
            }
        };
        if !possible {
            self.transition_block_reason = self.next_transition_requirement().to_string();
            return false;
        }
        self.resume();
        if is_plan {
            self.plan_approved = true;
        }
        let ghost mid = *self;
        let moved = self.leave_stage();
        proof {
            edges_never_jump(mid.stage, stage_after(mid.stage)->0);
        }
        true
    }

    /// Records the artifact of a pipeline stage under the key that the pipeline
    /// names. A finished plan, and a stage whose artifact needs it, waits for
    /// the user's approval; any other stage is left. A stage that the pipeline
    /// does not name is not completed.
    pub fn complete_pipeline_stage(&mut self, value: &str) -> (r: Option<StageTransition>)
        ensures
            pipeline_entry(old(self).pipeline@, old(self).stage, 0) is None ==> r is None
                && *final(self) == *old(self),
            pipeline_entry(old(self).pipeline@, old(self).stage, 0) matches Some(i)
                ==> pipeline_completed(
                *old(self),
                *final(self),
                old(self).pipeline@[i],
                value@,
                r,
            ),
            lifecycle_step(*old(self), *final(self)),
            gated(*old(self)) ==> gated(*final(self)),
    {
        let (key, needs_approval) = match self.active_pipeline_stage() {
            Some(entry) => (entry.artifact_key.clone(), entry.requires_human_approval),
            None => {
                return None;
            },
        };
        let stage = self.stage;
        self.record_stage_artifact(stage, key.as_str(), value);
        if stage == TaskStage::Planning {
            self.await_plan_approval(
                "Проверьте подготовленный план и явно напишите «утверждаю план».",
            );
            return Some(
                StageTransition {
                    from: stage,
                    to: stage,
                    accepted: true,
                    reason: self.transition_block_reason.clone(),
                },
            );
        }
        if needs_approval {
            self.pause_for(
                TaskPauseReason::StageApproval,
                "Проверьте результат стадии и подтвердите его.",
            );
            return Some(
                StageTransition {
                    from: stage,
                    to: stage,
                    accepted: true,
                    reason: self.transition_block_reason.clone(),
                },
            );
        }
        self.leave_stage()
    }
}

/// `b` is `a` after it left its stage for `next`, with `r` to say so.
pub open spec fn left(a: TaskContext, b: TaskContext, next: TaskStage, r: StageTransition) -> bool {
    let passed = TaskContext {
        validation_passed: a.validation_passed || a.stage == TaskStage::Validation,
        ..a
    };
    &&& r.from == a.stage
    &&& r.to == next
    &&& r.accepted == (a.stage == TaskStage::Planning ==> a.plan_approved)
    &&& r.accepted ==> moved_to(passed, b, next) && r.reason@.len() == 0
    &&& !r.accepted ==> held_back(passed, b, requirement(a)) && r.reason@ == requirement(a)
}

/// Whether a stage was completed but not left.
pub open spec fn stays(a: TaskContext, r: Option<StageTransition>) -> bool {
    r matches Some(t) && t.from == a.stage && t.to == a.stage && t.accepted && t.reason@
        == a.transition_block_reason@
}

/// What completing a stage of a pipeline comes to.
pub open spec fn pipeline_completed(
    a: TaskContext,
    b: TaskContext,
    entry: TaskPipelineStage,
    value: Seq<char>,
    r: Option<StageTransition>,
) -> bool {
    exists|mid: TaskContext| #[trigger]
        recorded(a, mid, artifact_key(a.stage, entry.artifact_key@), value) && {
            if a.stage == TaskStage::Planning {
                awaits_plan(mid, b, plan_hint()) && stays(a, r)
            } else if entry.requires_human_approval {
                paused_for(
                    mid,
                    b,
                    TaskPauseReason::StageApproval,
                    "Проверьте результат стадии и подтвердите его."@,
                ) && stays(a, r)
            } else {
                match stage_after(a.stage) {
                    Some(next) => r is Some && left(mid, b, next, r->0),
                    None => r is None && b == mid,
                }
            }
        }
}

/// A question of the interview that fills an agent's profile.
#[derive(Debug, PartialEq, Eq)]
pub struct ProfileField {
    pub key: String,
    pub question: String,
    pub required: bool,
    pub value: String,
}

/// What an agent has been told about its work.
#[derive(Debug, PartialEq, Eq)]
pub struct AgentProfile {
    pub fields: Vec<ProfileField>,
    pub updated_at_unix: u64,
}

/// What is asked for a field: its question, else its key.
pub open spec fn field_prompt(field: ProfileField) -> Seq<char> {
    if crate::text::blank(field.question@) {
        field.key@
    } else {
        crate::text::trimmed(field.question@)
    }
}

/// What is still to be asked: the questions of the required fields without a
/// value, in order.
pub open spec fn open_questions(fields: Seq<ProfileField>) -> Seq<Seq<char>>
    decreases fields.len(),
{
    if fields.len() == 0 {
        Seq::empty()
    } else {
        let rest = open_questions(fields.drop_last());
        let field = fields.last();
        if field.required && crate::text::blank(field.value@) {
            rest.push(field_prompt(field))
        } else {
            rest
        }
    }
}

impl AgentProfile {
    /// What is still to be asked.
    pub fn pending_questions(&self) -> (r: Vec<String>)
        ensures
            crate::text::texts(r@) == open_questions(self.fields@),
    {
        let mut out: Vec<String> = Vec::new();
        let mut i: usize = 0;
        assert(crate::text::texts(out@) =~= Seq::<Seq<char>>::empty());
        assert(self.fields@.take(0) =~= Seq::<ProfileField>::empty());
        while i < self.fields.len()
            invariant
                i <= self.fields.len(),
                crate::text::texts(out@) == open_questions(self.fields@.take(i as int)),
            decreases self.fields.len() - i,
        {
            let ghost before = crate::text::texts(out@);
            assert(self.fields@.take(i + 1).drop_last() =~= self.fields@.take(i as int));
            let field = &self.fields[i];
            if field.required && is_blank(field.value.as_str()) {
                let question = if is_blank(field.question.as_str()) {
                    field.key.clone()
                } else {
                    trim(field.question.as_str()).to_string()
                };
                out.push(question);
                assert(crate::text::texts(out@) =~= before.push(field_prompt(*field)));
            }
            i = i + 1;
        }
        assert(self.fields@.take(i as int) =~= self.fields@);
        out
    }
}

/// The task being worked on and the tasks that wait.
#[derive(Debug, PartialEq, Eq)]
pub struct TaskBoard {
    pub active: TaskContext,
    pub backlog: Vec<TaskContext>,
}

impl TaskBoard {
    /// Sets the active task aside and begins a new one with the goal `goal`.
    pub fn start_new_task(&mut self, goal: &str, hint: &str)
        ensures
            final(self).backlog@.len() == old(self).backlog@.len() + 1,
            final(self).backlog@.drop_last() == old(self).backlog@,
            parked(old(self).active, final(self).backlog@.last(), hint@),
            just_begun(final(self).active, goal@),
            gated(final(self).active),
    {
        let mut task = TaskContext::new();
        task.goal = goal.to_string();
        std::mem::swap(&mut task, &mut self.active);
        task.pause(hint);
        self.backlog.push(task);
        assert(self.backlog@.drop_last() =~= old(self).backlog@);
    }

    /// Takes up the waiting task at `index`; the active one takes its turn to
    /// wait.
    pub fn switch_to_backlog(&mut self, index: usize)
        requires
            index < old(self).backlog@.len(),
        ensures
            final(self).backlog@.len() == old(self).backlog@.len(),
            final(self).backlog@.drop_last() == old(self).backlog@.remove(index as int),
            parked(
                old(self).active,
                final(self).backlog@.last(),
                old(self).active.resume_hint@,
            ),
            taken_up(old(self).backlog@[index as int], final(self).active),
    {
        let mut task = self.backlog.remove(index);
        task.resume();
        std::mem::swap(&mut task, &mut self.active);
        let hint = task.resume_hint.clone();
        task.pause(hint.as_str());
        self.backlog.push(task);
        assert(self.backlog@.drop_last() =~= old(self).backlog@.remove(index as int));
    }
}

/// The stages follow each other in one order, and there is a way back from the
/// work and from its validation alone.
pub proof fn stages_follow_in_order(stage: TaskStage)
    ensures
        stage_after(TaskStage::Clarify) == Some(TaskStage::Planning),
        stage_after(TaskStage::Planning) == Some(TaskStage::Execution),
        stage_after(TaskStage::Execution) == Some(TaskStage::Validation),
        stage_after(TaskStage::Validation) == Some(TaskStage::Done),
        stage_after(TaskStage::Done) is None,
        stage_after(stage) matches Some(next) ==> stage_rank(next) == stage_rank(stage) + 1 && edge(
            stage,
            next,
        ),
        stage_before(stage) matches Some(back) ==> stage_after(back) == Some(stage) && edge(
            stage,
            back,
        ),
        stage_before(stage) is Some <==> stage == TaskStage::Execution || stage
            == TaskStage::Validation,
{
    assert(next_stages(TaskStage::Clarify)[0] == TaskStage::Planning);
    assert(next_stages(TaskStage::Planning)[0] == TaskStage::Execution);
    assert(next_stages(TaskStage::Execution)[0] == TaskStage::Validation);
    assert(next_stages(TaskStage::Execution)[1] == TaskStage::Planning);
    assert(next_stages(TaskStage::Validation)[0] == TaskStage::Done);
    assert(next_stages(TaskStage::Validation)[1] == TaskStage::Execution);
}

/// The work is closed until the plan is approved, and the end until the validation
/// has passed; no other way is closed.
pub proof fn gates_open_by_approval_and_validation(task: TaskContext, next: TaskStage)
    ensures
        task.stage == TaskStage::Planning && next == TaskStage::Execution ==> gate_open(task, next)
            == task.plan_approved,
        task.stage == TaskStage::Validation && next == TaskStage::Done ==> gate_open(task, next)
            == task.validation_passed,
        task.stage == TaskStage::Clarify || task.stage == TaskStage::Execution || task.stage
            == TaskStage::Done ==> gate_open(task, next),
        may_transition(task, next) ==> gate_open(task, next) && edge(task.stage, next),
        edge(task.stage, next) && gate_open(task, next) ==> may_transition(task, next),
{
}

/// A move to another stage takes back what the way back makes void, and nothing
/// else of what was gained; the task is then at the step of its new stage.
pub proof fn moves_keep_what_was_gained(a: TaskContext, b: TaskContext, next: TaskStage)
    requires
        moved_to(a, b, next),
    ensures
        b.stage == next,
        a.stage == TaskStage::Execution && next == TaskStage::Planning ==> !b.plan_approved
            && b.validation_passed == a.validation_passed,
        a.stage == TaskStage::Validation && next == TaskStage::Execution ==> !b.validation_passed
            && b.plan_approved == a.plan_approved,
        stage_rank(next) > stage_rank(a.stage) ==> b.plan_approved == a.plan_approved
            && b.validation_passed == a.validation_passed,
        b.artifacts == a.artifacts && b.plan == a.plan && b.goal == a.goal && b.title == a.title
            && b.results == a.results && b.pipeline == a.pipeline && b.violations == a.violations,
        b.resume_hint@ == b.current_step@,
        b.transition_block_reason@.len() == 0,
        next == TaskStage::Clarify ==> b.current_step@ == "уточнить задачу"@,
        next == TaskStage::Planning ==> b.current_step@ == "подготовить план"@,
        next == TaskStage::Execution ==> b.current_step@ == "выполнить план"@,
        next == TaskStage::Validation ==> b.current_step@ == "проверить результат"@,
        next == TaskStage::Done ==> b.current_step@ == "задача завершена"@ && b.expected_action@
            == "none"@,
        next != TaskStage::Done ==> b.expected_action@ == "agent_work"@,
{
}

/// An artifact is kept under its key without the white space around it; one
/// without a key is kept under the name of its stage.
pub proof fn artifacts_have_keys(stage: TaskStage, key: Seq<char>)
    ensures
        !crate::text::blank(key) ==> artifact_key(stage, key) == crate::text::trimmed(key),
        crate::text::blank(key) ==> artifact_key(stage, key) == stage_name(stage),
        artifact_key(stage, key).len() > 0,
        stage_name(TaskStage::Clarify) == "clarify"@,
        stage_name(TaskStage::Planning) == "planning"@,
        stage_name(TaskStage::Execution) == "execution"@,
        stage_name(TaskStage::Validation) == "validation"@,
        stage_name(TaskStage::Done) == "done"@,
{
    reveal_strlit("clarify");
    reveal_strlit("planning");
    reveal_strlit("execution");
    reveal_strlit("validation");
    reveal_strlit("done");
}

/// What has to come before a task can go on: the plan before its approval, the
/// approval before the work.
pub proof fn a_task_needs_its_plan_before_its_approval(task: TaskContext)
    requires
        task.stage == TaskStage::Planning,
    ensures
        (forall|i: int|
            0 <= i < task.artifacts@.len() ==> (#[trigger] task.artifacts@[i]).stage
                != TaskStage::Planning) ==> requirement(task)
            == "Сначала PlanningAgent должен подготовить план."@,
        (exists|i: int|
            0 <= i < task.artifacts@.len() && (#[trigger] task.artifacts@[i]).stage
                == TaskStage::Planning) ==> requirement(task)
            == "Сначала пользователь должен явно утвердить план."@,
{
}

/// What is still asked of the user is every required field without a value, in
/// the order of the fields, by its question or else by its key.
pub proof fn required_fields_are_asked_for(
    one: Seq<ProfileField>,
    two: Seq<ProfileField>,
    field: ProfileField,
)
    ensures
        open_questions(one + two) == open_questions(one) + open_questions(two),
        field.required && crate::text::blank(field.value@) && !crate::text::blank(field.question@)
            ==> open_questions(seq![field]) == seq![crate::text::trimmed(field.question@)],
        field.required && crate::text::blank(field.value@) && crate::text::blank(field.question@)
            ==> open_questions(seq![field]) == seq![field.key@],
        !field.required || !crate::text::blank(field.value@) ==> open_questions(seq![field]).len()
            == 0,
    decreases two.len(),
{
    let single = seq![field];
    assert(single.drop_last() =~= Seq::<ProfileField>::empty());
    assert(open_questions(Seq::<ProfileField>::empty()) =~= Seq::<Seq<char>>::empty());
    if field.required && crate::text::blank(field.value@) {
        assert(open_questions(single) =~= seq![field_prompt(field)]);
    }
    if two.len() == 0 {
        assert(one + two =~= one);
        assert(open_questions(one) + open_questions(two) =~= open_questions(one));
    } else {
        required_fields_are_asked_for(one, two.drop_last(), field);
        assert((one + two).drop_last() =~= one + two.drop_last());
        assert((one + two).last() == two.last());
        assert(open_questions(one + two) =~= open_questions(one) + open_questions(two));
    }
}

/// A way that does not exist is refused with both of its ends; one that is closed
/// with what would open it.
pub proof fn refusals_tell_what_is_missing(task: TaskContext, next: TaskStage)
    ensures
        !edge(task.stage, next) ==> crate::text::one_after_other(
            refusal(task, next),
            stage_name(task.stage),
            stage_name(next),
        ),
        edge(task.stage, next) ==> refusal(task, next) == requirement(task),
{
    crate::text::lemma_one_after_other(
        "Переход `"@,
        stage_name(task.stage),
        "` → `"@,
        stage_name(next),
        "` не предусмотрен."@,
    );
}

/// A task that is held back differs in the reason alone.
pub proof fn held_back_tasks_stay_as_they_are(a: TaskContext, b: TaskContext, reason: Seq<char>)
    requires
        held_back(a, b, reason),
    ensures
        b.transition_block_reason@ == reason,
        b.stage == a.stage && b.paused == a.paused && b.pause_reason == a.pause_reason
            && b.plan_approved == a.plan_approved && b.validation_passed == a.validation_passed
            && b.current_step == a.current_step && b.expected_action == a.expected_action
            && b.resume_hint == a.resume_hint,
        b.artifacts == a.artifacts && b.plan == a.plan && b.goal == a.goal && b.title == a.title
            && b.results == a.results && b.pipeline == a.pipeline && b.violations == a.violations,
{
}

/// A task that is paused waits for the user with the hint it was given, at its
/// stage; one that is taken up works on at that stage, and nothing keeps it.
pub proof fn pauses_wait_for_the_user(
    a: TaskContext,
    b: TaskContext,
    c: TaskContext,
    reason: TaskPauseReason,
    hint: Seq<char>,
)
    requires
        paused_for(a, b, reason, hint),
        taken_up(b, c),
    ensures
        b.paused && b.pause_reason == reason && b.resume_hint@ == hint && b.expected_action@
            == "user_input"@,
        b.stage == a.stage && b.current_step == a.current_step && b.plan_approved
            == a.plan_approved && b.artifacts == a.artifacts && b.goal == a.goal && b.plan == a.plan,
        !c.paused && c.pause_reason == TaskPauseReason::Manual && c.transition_block_reason@.len()
            == 0,
        c.stage == a.stage && c.current_step == a.current_step && c.plan_approved
            == a.plan_approved && c.validation_passed == a.validation_passed && c.artifacts
            == a.artifacts && c.goal == a.goal && c.plan == a.plan && c.resume_hint@ == hint,
        a.stage == TaskStage::Done ==> c.expected_action@ == "none"@,
        a.stage != TaskStage::Done ==> c.expected_action@ == "agent_work"@,
{
}

/// An approval takes a task to the stage that comes next and ends its waiting; it
/// approves the plan where the plan was waited for, and passes the validation
/// where that was.
pub proof fn an_approval_leads_to_the_next_stage(a: TaskContext, b: TaskContext)
    requires
        approved(a, b),
    ensures
        a.stage == TaskStage::Clarify ==> b.stage == TaskStage::Planning,
        a.stage == TaskStage::Planning ==> b.stage == TaskStage::Execution,
        a.stage == TaskStage::Execution ==> b.stage == TaskStage::Validation,
        a.stage == TaskStage::Validation ==> b.stage == TaskStage::Done && b.validation_passed,
        a.stage != TaskStage::Done,
        !b.paused && b.transition_block_reason@.len() == 0,
        b.current_step@ == stage_step(b.stage) && b.resume_hint@ == b.current_step@,
        a.pause_reason == TaskPauseReason::PlanApproval ==> b.plan_approved,
        a.pause_reason != TaskPauseReason::PlanApproval ==> b.plan_approved == a.plan_approved,
        a.stage != TaskStage::Validation ==> b.validation_passed == a.validation_passed,
        b.artifacts == a.artifacts && b.plan == a.plan && b.goal == a.goal,
{
}

/// An approval of a plan needs a plan; one of a result does not need another, but
/// no plan is passed over without its own approval, and nothing follows the end.
pub proof fn approvals_need_something_to_approve(task: TaskContext)
    ensures
        task.pause_reason == TaskPauseReason::PlanApproval && (forall|i: int|
            0 <= i < task.artifacts@.len() ==> (#[trigger] task.artifacts@[i]).stage
                != TaskStage::Planning) ==> !approval_succeeds(task),
        task.pause_reason == TaskPauseReason::PlanApproval && task.stage != TaskStage::Planning
            ==> !approval_succeeds(task),
        task.pause_reason == TaskPauseReason::StageApproval && task.stage == TaskStage::Execution
            ==> approval_succeeds(task),
        task.pause_reason == TaskPauseReason::StageApproval && task.stage == TaskStage::Planning
            && !task.plan_approved ==> !approval_succeeds(task),
        task.stage == TaskStage::Done ==> !approval_succeeds(task),
{
}

/// A plan that waits says so: in its step, in what is expected, and in the words
/// that approve it; the task is otherwise as it was.
pub proof fn a_waiting_plan_says_so(a: TaskContext, b: TaskContext)
    requires
        awaits_plan(a, b, plan_hint()),
    ensures
        b.paused && b.pause_reason == TaskPauseReason::PlanApproval,
        b.stage == a.stage && b.plan_approved == a.plan_approved && b.artifacts == a.artifacts
            && b.plan == a.plan && b.goal == a.goal,
        b.current_step@ == "утвердить план"@,
        b.expected_action@ == "approve_plan"@,
        crate::text::contains_text(b.resume_hint@, "утверждаю план"@),
{
    let hint = "Проверьте подготовленный план и явно напишите «утверждаю план»."@;
    reveal_strlit("Проверьте подготовленный план и явно напишите «утверждаю план».");
    reveal_strlit("утверждаю план");
    assert(hint.subrange(47, 61) =~= "утверждаю план"@);
    assert(crate::text::occurs_at(hint, "утверждаю план"@, 47));
}

/// Leaving a stage goes on to the next one, but for a plan that is not approved:
/// that is refused, with what is missing. Leaving the validation passes it.
pub proof fn leaving_a_stage_respects_the_plan(
    a: TaskContext,
    b: TaskContext,
    next: TaskStage,
    r: StageTransition,
)
    requires
        left(a, b, next, r),
    ensures
        r.from == a.stage && r.to == next,
        a.stage == TaskStage::Planning && !a.plan_approved ==> !r.accepted && b.stage == a.stage
            && r.reason@ == requirement(a) && b.transition_block_reason@ == requirement(a),
        a.stage != TaskStage::Planning || a.plan_approved ==> r.accepted && b.stage == next,
        a.stage == TaskStage::Validation ==> next == TaskStage::Execution || b.validation_passed,
        b.artifacts == a.artifacts && b.plan == a.plan && b.goal == a.goal,
{
}

/// An artifact is added behind those that are there, with its key, its value and
/// the stage it comes from.
pub proof fn artifacts_are_added_at_the_end(
    a: TaskContext,
    b: TaskContext,
    key: Seq<char>,
    value: Seq<char>,
    i: int,
)
    requires
        recorded(a, b, key, value),
        0 <= i < a.artifacts@.len(),
    ensures
        b.artifacts@.len() == a.artifacts@.len() + 1,
        b.artifacts@[i] == a.artifacts@[i],
        b.artifacts@[a.artifacts@.len() as int].key@ == key,
        b.artifacts@[a.artifacts@.len() as int].value@ == value,
        b.artifacts@[a.artifacts@.len() as int].stage == a.stage,
        b.stage == a.stage && b.paused == a.paused && b.plan == a.plan && b.plan_approved
            == a.plan_approved,
{
    assert(b.artifacts@.drop_last()[i] == a.artifacts@[i]);
}

/// The first entry of a pipeline for a stage is the one that counts.
pub proof fn the_first_entry_of_a_stage_counts(
    pipeline: Seq<TaskPipelineStage>,
    stage: TaskStage,
    from: int,
    k: int,
)
    requires
        0 <= from <= k <= pipeline.len(),
        k < pipeline.len() ==> pipeline[k].stage == stage,
        forall|j: int| from <= j < k ==> (#[trigger] pipeline[j]).stage != stage,
    ensures
        k < pipeline.len() ==> pipeline_entry(pipeline, stage, from) == Some(k),
        k == pipeline.len() ==> pipeline_entry(pipeline, stage, from) is None,
    decreases k - from,
{
    if from < k {
        assert(pipeline[from].stage != stage);
        the_first_entry_of_a_stage_counts(pipeline, stage, from + 1, k);
    }
}

/// A task has what its stage presupposes where its plan is approved from the work
/// on and its validation has passed at the end.
pub proof fn stages_presuppose_approval_and_validation(task: TaskContext)
    ensures
        gated(task) <==> (task.stage == TaskStage::Clarify || task.stage == TaskStage::Planning
            || task.plan_approved) && (task.stage == TaskStage::Done ==> task.validation_passed),
{
}

/// A task that has just begun has its goal and nothing else.
pub proof fn a_new_task_has_its_goal_alone(task: TaskContext, goal: Seq<char>)
    requires
        just_begun(task, goal),
    ensures
        task.goal@ == goal,
        task.stage == TaskStage::Clarify,
        !task.paused && !task.plan_approved && !task.validation_passed,
        task.artifacts@.len() == 0 && task.plan@.len() == 0 && task.pipeline@.len() == 0
            && task.results@.len() == 0 && task.violations@.len() == 0,
        task.title@.len() == 0 && task.current_step@.len() == 0,
        gated(task),
{
}

} // verus!
