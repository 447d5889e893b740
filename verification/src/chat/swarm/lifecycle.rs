//! The lifecycle of a task under the user's hand: what a message means for it,
//! and what a finished stage leads to. Nothing here asks a model.
use vstd::prelude::*;

use crate::chat::store::{StageTransition, TaskBoard, TaskContext, TaskPauseReason, TaskStage};
use crate::text::{
    cat2, cat3, cat5, chars_of, contains, from_chars, is_alphanumeric, is_blank, is_white_space,
    join, same, split_any, strip_leading_any, to_lowercase, trim, words,
};

verus! {

broadcast use vstd::string::group_string_axioms;

/// What is read out of a user's message besides its words of control.
#[derive(Debug, Clone, Copy, PartialEq, Eq, Structural)]
pub struct PromptReading {
    /// The waiting task that the message goes back to.
    pub switch_back: Option<usize>,
    /// Whether the message begins another task.
    pub starts_new: bool,
    /// The stage whose work the message asks for.
    pub requested_stage: Option<TaskStage>,
    /// Whether the message supplies what a paused task waits for.
    pub supplies_next_info: bool,
}

/// A reply that needs no model.
#[derive(Debug, PartialEq, Eq)]
pub struct LocalReply {
    pub message: String,
    pub transition: Option<StageTransition>,
}

/// A character of a message of control: letters, digits and white space stay,
/// everything else separates words.
pub open spec fn control_char(c: char) -> char {
    if crate::text::alphanumeric(c) || crate::text::white_space(c) {
        c
    } else {
        ' '
    }
}

/// The words of a message, in lower case, with one space between them.
pub open spec fn control_intent(value: Seq<char>) -> Seq<char> {
    let lower = crate::text::lowercase(crate::text::trimmed(value));
    crate::text::joined(
        crate::text::words_of(lower.map_values(|c: char| control_char(c))),
        " "@,
    )
}

/// The words of a message, in lower case, with one space between them.
pub fn normalize_control_intent(value: &str) -> (r: String)
    ensures
        r@ == control_intent(value@),
{
    let lower = to_lowercase(trim(value));
    let cs = chars_of(lower.as_str());
    let mut out: Vec<char> = Vec::new();
    let mut i: usize = 0;
    while i < cs.len()
        invariant
            i <= cs.len(),
            out@.len() == i,
            forall|j: int| 0 <= j < i ==> out@[j] == control_char(cs@[j]),
        decreases cs.len() - i,
    {
        let c = cs[i];
        if is_alphanumeric(c) || is_white_space(c) {
            out.push(c);
        } else {
            out.push(' ');
        }
        i = i + 1;
    }
    assert(out@ =~= lower@.map_values(|c: char| control_char(c)));
    let spaced = from_chars(&out);
    join(&words(spaced.as_str()), " ")
}

/// The approvals that a single word gives.
pub open spec fn short_approval(p: Seq<char>) -> bool {
    p == "ок"@ || p == "ok"@ || p == "approved"@ || p == "утверждаю"@ || p == "одобряю"@
}

/// The approvals that name the plan.
pub open spec fn plan_approval(p: Seq<char>) -> bool {
    p == "утверждаю план"@ || p == "одобряю план"@ || p == "план утвержден"@ || p
        == "план утверждён"@ || p == "approve plan"@ || p == "plan approved"@
}

/// The approvals that name the result.
pub open spec fn result_approval(p: Seq<char>) -> bool {
    p == "утверждаю результат"@ || p == "одобряю результат"@ || p == "результат утвержден"@ || p
        == "результат утверждён"@ || p == "approve result"@ || p == "artifact approved"@
}

/// A word that confirms.
pub open spec fn confirms(word: Seq<char>) -> bool {
    word == "да"@ || word == "ок"@ || word == "ok"@ || word == "окей"@ || word == "okay"@ || word
        == "yes"@ || word == "хорошо"@ || word == "согласен"@ || word == "согласна"@ || word
        == "согласны"@ || word == "подтверждаю"@ || word == "утверждаю"@ || word == "одобряю"@
        || word == "approved"@ || word == "поехали"@
}

/// A word that may stand beside one that confirms.
pub open spec fn urges(word: Seq<char>) -> bool {
    word == "давай"@ || word == "продолжай"@ || word == "продолжаем"@ || word == "дальше"@
}

/// Whether a message confirms in ordinary words: nothing but words that confirm
/// or urge on, and at least one that confirms.
pub open spec fn natural_confirmation(words: Seq<Seq<char>>) -> bool {
    &&& forall|i: int| 0 <= i < words.len() ==> confirms(#[trigger] words[i]) || urges(words[i])
    &&& exists|i: int| 0 <= i < words.len() && confirms(#[trigger] words[i])
}

/// Whether a message approves what a task waits with. Only whole words count,
/// and ordinary words approve a plan alone.
pub open spec fn approves(p: Seq<char>, reason: TaskPauseReason) -> bool {
    ||| short_approval(p)
    ||| reason == TaskPauseReason::PlanApproval && (plan_approval(p) || natural_confirmation(
        crate::text::words_of(p),
    ))
    ||| reason == TaskPauseReason::StageApproval && result_approval(p)
}

fn is_confirming(word: &str) -> (r: bool)
    ensures
        r == confirms(word@),
{
    same(word, "да") || same(word, "ок") || same(word, "ok") || same(word, "окей") || same(
        word,
        "okay",
    ) || same(word, "yes") || same(word, "хорошо") || same(word, "согласен") || same(
        word,
        "согласна",
    ) || same(word, "согласны") || same(word, "подтверждаю") || same(word, "утверждаю") || same(
        word,
        "одобряю",
    ) || same(word, "approved") || same(word, "поехали")
}

fn is_urging(word: &str) -> (r: bool)
    ensures
        r == urges(word@),
{
    same(word, "давай") || same(word, "продолжай") || same(word, "продолжаем") || same(
        word,
        "дальше",
    )
}

fn confirms_naturally(p: &str) -> (r: bool)
    ensures
        r == natural_confirmation(crate::text::words_of(p@)),
{
    let parts = words(p);
    let ghost all = crate::text::words_of(p@);
    let mut found = false;
    let mut i: usize = 0;
    while i < parts.len()
        invariant
            i <= parts.len(),
            all == crate::text::words_of(p@),
            crate::text::texts(parts@) == all,
            forall|j: int| 0 <= j < i ==> confirms(#[trigger] all[j]) || urges(all[j]),
            found == (exists|j: int| 0 <= j < i && confirms(#[trigger] all[j])),
        decreases parts.len() - i,
    {
        assert(all[i as int] == parts@[i as int]@);
        if is_confirming(parts[i].as_str()) {
            found = true;
        } else if !is_urging(parts[i].as_str()) {
            assert(!(confirms(all[i as int]) || urges(all[i as int])));
            return false;
        }
        i = i + 1;
    }
    found
}

/// Whether a message, already brought to its words, approves what a task waits
/// with.
pub fn explicit_approval_intent(prompt: &str, reason: TaskPauseReason) -> (r: bool)
    ensures
        r == approves(prompt@, reason),
{
    if same(prompt, "ок") || same(prompt, "ok") || same(prompt, "approved") || same(
        prompt,
        "утверждаю",
    ) || same(prompt, "одобряю") {
        return true;
    }
    match reason {
        TaskPauseReason::PlanApproval => same(prompt, "утверждаю план") || same(
            prompt,
            "одобряю план",
        ) || same(prompt, "план утвержден") || same(prompt, "план утверждён") || same(
            prompt,
            "approve plan",
        ) || same(prompt, "plan approved") || confirms_naturally(prompt),
        TaskPauseReason::StageApproval => same(prompt, "утверждаю результат") || same(
            prompt,
            "одобряю результат",
        ) || same(prompt, "результат утвержден") || same(prompt, "результат утверждён") || same(
            prompt,
            "approve result",
        ) || same(prompt, "artifact approved"),
        TaskPauseReason::Manual => false,
    }
}

/// Whether a message ends a pause.
pub open spec fn resumes(p: Seq<char>) -> bool {
    p == "continue"@ || p == "continue task"@ || p == "resume"@ || p == "resume task"@ || p
        == "продолжай"@ || p == "продолжить"@ || p == "продолжить задачу"@ || p
        == "снять с паузы"@ || p == "возобновить"@ || p == "возобновляй"@
}

/// Whether a message, already brought to its words, ends a pause.
pub fn resume_intent(prompt: &str) -> (r: bool)
    ensures
        r == resumes(prompt@),
{
    same(prompt, "continue") || same(prompt, "continue task") || same(prompt, "resume") || same(
        prompt,
        "resume task",
    ) || same(prompt, "продолжай") || same(prompt, "продолжить") || same(
        prompt,
        "продолжить задачу",
    ) || same(prompt, "снять с паузы") || same(prompt, "возобновить") || same(
        prompt,
        "возобновляй",
    )
}

/// Whether a message asks for a pause.
pub open spec fn pauses(p: Seq<char>) -> bool {
    p == "pause"@ || p == "pause task"@ || p == "пауза"@ || p == "поставь на паузу"@ || p
        == "поставь задачу на паузу"@ || p == "приостанови"@ || p == "приостанови задачу"@ || p
        == "останови задачу"@ || p == "вернусь позже"@ || p == "потом продолжим"@
}

/// Whether a message, already brought to its words, asks for a pause.
pub fn pause_intent(prompt: &str) -> (r: bool)
    ensures
        r == pauses(prompt@),
{
    same(prompt, "pause") || same(prompt, "pause task") || same(prompt, "пауза") || same(
        prompt,
        "поставь на паузу",
    ) || same(prompt, "поставь задачу на паузу") || same(prompt, "приостанови") || same(
        prompt,
        "приостанови задачу",
    ) || same(prompt, "останови задачу") || same(prompt, "вернусь позже") || same(
        prompt,
        "потом продолжим",
    )
}

/// Whether words ask for the stage before at position `i`.
pub open spec fn back_at(words: Seq<Seq<char>>, i: int) -> bool {
    ||| words[i] == "передумал"@
    ||| words[i] == "шаг"@ && i + 1 < words.len() && words[i + 1] == "назад"@
}

/// Whether a message takes the task back by a stage: it asks for that in whole
/// words, and no «не» stands before them.
pub open spec fn steps_back(p: Seq<char>) -> bool {
    let words = crate::text::words_of(p);
    exists|i: int| #[trigger]
        back_at(words, i) && 0 <= i < words.len() && !words.take(i).contains("не"@)
}

/// Whether a message, already brought to its words, takes the task back by a
/// stage.
pub fn step_back_intent(prompt: &str) -> (r: bool)
    ensures
        r == steps_back(prompt@),
{
    let parts = words(prompt);
    let ghost all = crate::text::words_of(prompt@);
    let mut i: usize = 0;
    while i < parts.len()
        invariant
            i <= parts.len(),
            all == crate::text::words_of(prompt@),
            crate::text::texts(parts@) == all,
            !all.take(i as int).contains("не"@),
            forall|j: int| 0 <= j < i ==> !#[trigger] back_at(all, j),
        decreases parts.len() - i,
    {
        assert(all[i as int] == parts@[i as int]@);
        if i + 1 < parts.len() {
            assert(all[i + 1] == parts@[i + 1]@);
        }
        if same(parts[i].as_str(), "передумал") || (same(parts[i].as_str(), "шаг") && i + 1
            < parts.len() && same(parts[i + 1].as_str(), "назад")) {
            assert(back_at(all, i as int));
            return true;
        }
        if same(parts[i].as_str(), "не") {
            assert forall|j: int| #[trigger]
                back_at(all, j) && 0 <= j < all.len() implies all.take(j).contains("не"@) by {
                assert(all.take(j)[i as int] == "не"@);
            }
            return false;
        }
        assert(!all.take(i + 1).contains("не"@)) by {
            let more = all.take(i + 1);
            if more.contains("не"@) {
                let k = choose|k: int| 0 <= k < more.len() && more[k] == "не"@;
                if k < i {
                    assert(all.take(i as int)[k] == "не"@);
                }
            }
        }
        i = i + 1;
    }
    false
}

/// What the user is told when a task cannot go on.
pub open spec fn block_message(stage: TaskStage, reason: Seq<char>) -> Seq<char> {
    "⛔ Нельзя перейти дальше со стадии `"@ + crate::chat::store::stage_name(stage) + "`.\n\n"@
        + reason + "\n\nСледующее допустимое действие задаётся lifecycle-панелью задачи."@
}

/// What the user is told when a task cannot go on.
pub fn lifecycle_block_message(stage: TaskStage, reason: &str) -> (r: String)
    ensures
        r@ == block_message(stage, reason@),
{
    cat5(
        "⛔ Нельзя перейти дальше со стадии `",
        stage.name(),
        "`.\n\n",
        reason,
        "\n\nСледующее допустимое действие задаётся lifecycle-панелью задачи.",
    )
}

/// What a task that waits for an approval asks for.
pub open spec fn approval_request(reason: TaskPauseReason) -> Seq<char> {
    if reason == TaskPauseReason::PlanApproval {
        "План ожидает подтверждения. Если вы согласны с ним, подтвердите своими словами."@
    } else {
        "Артефакт ожидает явного утверждения. Напишите «утверждаю результат»."@
    }
}

/// What a task that the user paused asks for.
pub open spec fn resume_request() -> Seq<char> {
    "Задача на паузе. Напишите «продолжай», чтобы возобновить её."@
}

/// What a message does to a task that waits for an approval.
pub open spec fn approval_controlled(
    a: TaskContext,
    b: TaskContext,
    p: Seq<char>,
    r: Option<LocalReply>,
) -> bool {
    let asked = approval_request(a.pause_reason);
    let here = crate::chat::store::stage_name(a.stage);
    let there = crate::chat::store::stage_name(b.stage);
    if !approves(p, a.pause_reason) {
        &&& crate::chat::store::held_back(a, b, asked)
        &&& r matches Some(reply) && reply.message@ == "⏸ "@ + asked + "\n\nТекущая стадия: `"@
            + here + "`."@ && reply.transition is None
    } else if crate::chat::store::approval_succeeds(a) {
        &&& crate::chat::store::approved(a, b)
        &&& r matches Some(reply) && reply.message@ == "✅ Approval принят. Задача перешла `"@ + here
            + "` → `"@ + there + "`. Следующий ход выполнит только агент стадии `"@ + there + "`."@
            && (reply.transition matches Some(t) && t.from == a.stage && t.to == b.stage
            && t.accepted && t.reason@ == "Явное пользовательское approval."@)
    } else {
        let needed = crate::chat::store::requirement(a);
        &&& crate::chat::store::held_back(a, b, needed)
        &&& r matches Some(reply) && reply.message@ == block_message(a.stage, needed) && (
        reply.transition matches Some(t) && t.from == a.stage && t.to == (
        match crate::chat::store::stage_after(a.stage) {
            Some(next) => next,
            None => a.stage,
        }) && !t.accepted && t.reason@ == needed)
    }
}

/// What a message of control does to a task, and what it is answered with. No
/// reply: the message is none, and the task stays as it is.
pub open spec fn controlled(
    a: TaskContext,
    b: TaskContext,
    p: Seq<char>,
    supplies_next_info: bool,
    hint: Seq<char>,
    r: Option<LocalReply>,
) -> bool {
    let here = crate::chat::store::stage_name(a.stage);
    if crate::chat::store::awaits_approval(a) {
        approval_controlled(a, b, p, r)
    } else if a.paused && (resumes(p) || supplies_next_info) {
        &&& crate::chat::store::taken_up(a, b)
        &&& r matches Some(reply) && reply.message@ == "▶️ Задача возобновлена на стадии `"@ + here
            + "`. Продолжаю с сохранённого шага: "@ + crate::text::trimmed(a.resume_hint@) + "."@
            && reply.transition is None
    } else if a.paused {
        &&& crate::chat::store::held_back(a, b, resume_request())
        &&& r matches Some(reply) && reply.message@ == "⏸ "@ + resume_request()
            && reply.transition is None
    } else if pauses(p) {
        &&& crate::chat::store::parked(a, b, hint)
        &&& r matches Some(reply) && reply.message@
            == "⏸ Задача поставлена на паузу на стадии `"@ + here + "`. Для продолжения: "@ + hint
            + "."@ && reply.transition is None
    } else if steps_back(p) && crate::chat::store::stage_before(a.stage) is Some {
        let back = crate::chat::store::stage_before(a.stage)->0;
        &&& crate::chat::store::moved_to(a, b, back)
        &&& r matches Some(reply) && reply.message@ == "⏪ Задача возвращена `"@ + here + "` → `"@
            + crate::chat::store::stage_name(back) + "`."@ && (reply.transition matches Some(t)
            && t.from == a.stage && t.to == back && t.accepted && t.reason@.len() == 0)
    } else {
        r is None && b == a
    }
}

fn control_approval(task: &mut TaskContext, prompt: &str) -> (r: LocalReply)
    requires
        crate::chat::store::awaits_approval(*old(task)),
    ensures
        approval_controlled(*old(task), *final(task), prompt@, Some(r)),
        crate::chat::store::lifecycle_step(*old(task), *final(task)),
        crate::chat::store::gated(*old(task)) ==> crate::chat::store::gated(*final(task)),
{
    let from = task.stage;
    if !explicit_approval_intent(prompt, task.pause_reason) {
        let reason = if task.pause_reason == TaskPauseReason::PlanApproval {
            "План ожидает подтверждения. Если вы согласны с ним, подтвердите своими словами."
        } else {
            "Артефакт ожидает явного утверждения. Напишите «утверждаю результат»."
        };
        task.transition_block_reason = reason.to_string();
        let message = cat5("⏸ ", reason, "\n\nТекущая стадия: `", from.name(), "`.");
        return LocalReply { message, transition: None };
    }
    if task.approve_pipeline_pause() {
        let to = task.stage;
        let moved = cat5(
            "✅ Approval принят. Задача перешла `",
            from.name(),
            "` → `",
            to.name(),
            "`. Следующий ход выполнит только агент стадии `",
        );
        let message = cat3(moved.as_str(), to.name(), "`.");
        let transition = StageTransition {
            from,
            to,
            accepted: true,
            reason: "Явное пользовательское approval.".to_string(),
        };
        return LocalReply { message, transition: Some(transition) };
    }
    let reason = task.transition_block_reason.clone();
    let to = match from.canonical_next() {
        Some(next) => next,
        None => from,
    };
    LocalReply {
        message: lifecycle_block_message(from, reason.as_str()),
        transition: Some(StageTransition { from, to, accepted: false, reason }),
    }
}

/// Follows a message of control: an approval, the end of a pause, a pause, a
/// step back. `hint` is what a pause of the task is taken up with.
pub fn apply_lifecycle_control(
    task: &mut TaskContext,
    user_prompt: &str,
    supplies_next_info: bool,
    hint: &str,
) -> (r: Option<LocalReply>)
    ensures
        controlled(
            *old(task),
            *final(task),
            control_intent(user_prompt@),
            supplies_next_info,
            hint@,
            r,
        ),
        crate::chat::store::lifecycle_step(*old(task), *final(task)),
        crate::chat::store::gated(*old(task)) ==> crate::chat::store::gated(*final(task)),
{
    let prompt = normalize_control_intent(user_prompt);
    let prompt = prompt.as_str();
    if task.paused {
        if task.pause_reason == TaskPauseReason::PlanApproval || task.pause_reason
            == TaskPauseReason::StageApproval {
            return Some(control_approval(task, prompt));
        }
        if resume_intent(prompt) || supplies_next_info {
            task.resume();
            let message = cat5(
                "▶️ Задача возобновлена на стадии `",
                task.stage.name(),
                "`. Продолжаю с сохранённого шага: ",
                trim(task.resume_hint.as_str()),
                ".",
            );
            return Some(LocalReply { message, transition: None });
        }
        let reason = "Задача на паузе. Напишите «продолжай», чтобы возобновить её.";
        task.transition_block_reason = reason.to_string();
        return Some(LocalReply { message: cat2("⏸ ", reason), transition: None });
    }
    if pause_intent(prompt) {
        task.pause(hint);
        let message = cat5(
            "⏸ Задача поставлена на паузу на стадии `",
            task.stage.name(),
            "`. Для продолжения: ",
            hint,
            ".",
        );
        return Some(LocalReply { message, transition: None });
    }
    if step_back_intent(prompt) {
        let from = task.stage;
        if let Some(back) = from.previous() {
            let ghost before = *task;
            proof {
                crate::chat::store::edges_never_jump(before.stage, back);
            }
            let transition = task.try_transition(back);
            proof {
                crate::chat::store::transition_keeps_gates(before, *task, back);
            }
            let message = cat5("⏪ Задача возвращена `", from.name(), "` → `", back.name(), "`.");
            return Some(LocalReply { message, transition: Some(transition) });
        }
    }
    None
}

/// Whether a message asks for the work of a stage that the task has not come
/// to. Going on to the planning from the start, and back to it, is no such
/// request.
pub open spec fn asks_too_early(current: TaskStage, requested: TaskStage) -> bool {
    &&& crate::chat::store::stage_rank(requested) > crate::chat::store::stage_rank(current)
    &&& !(current == TaskStage::Clarify && requested == TaskStage::Planning)
}

/// Turns down a message that asks for the work of a stage that the task has not
/// come to. Returns the stage and what has to happen first.
pub fn lifecycle_request_rejection(task: &TaskContext, requested: Option<TaskStage>) -> (r: Option<
    (TaskStage, String),
>)
    ensures
        match requested {
            Some(stage) if asks_too_early(task.stage, stage) => r matches Some((s, reason)) && s
                == stage && reason@ == crate::chat::store::requirement(*task),
            _ => r is None,
        },
{
    let requested = match requested {
        Some(requested) => requested,
        None => {
            return None;
        },
    };
    if task.stage == TaskStage::Clarify && requested == TaskStage::Planning {
        return None;
    }
    if requested.rank() <= task.stage.rank() {
        return None;
    }
    Some((requested, task.next_transition_requirement().to_string()))
}

/// What a message about other tasks does: going back to a waiting task comes
/// before beginning another.
pub open spec fn switched(
    a: TaskBoard,
    b: TaskBoard,
    reading: PromptReading,
    prompt: Seq<char>,
    hint: Seq<char>,
) -> bool {
    if reading.switch_back matches Some(i) && i < a.backlog@.len() {
        let i = reading.switch_back->0 as int;
        &&& b.backlog@.len() == a.backlog@.len()
        &&& b.backlog@.drop_last() == a.backlog@.remove(i)
        &&& crate::chat::store::parked(a.active, b.backlog@.last(), a.active.resume_hint@)
        &&& crate::chat::store::taken_up(a.backlog@[i], b.active)
    } else if reading.starts_new {
        &&& b.backlog@.len() == a.backlog@.len() + 1
        &&& b.backlog@.drop_last() == a.backlog@
        &&& crate::chat::store::parked(a.active, b.backlog@.last(), hint)
        &&& crate::chat::store::just_begun(b.active, crate::text::trimmed(prompt))
    } else {
        b == a
    }
}

/// Follows a message about other tasks. `hint` is what the active task is taken
/// up with later.
pub fn apply_task_switching(
    board: &mut TaskBoard,
    reading: &PromptReading,
    prompt: &str,
    hint: &str,
)
    ensures
        switched(*old(board), *final(board), *reading, prompt@, hint@),
        all_gated(*old(board)) ==> all_gated(*final(board)),
{
    if let Some(index) = reading.switch_back {
        if index < board.backlog.len() {
            let ghost before = *board;
            board.switch_to_backlog(index);
            proof {
                lemma_switching_keeps_gates(before, *board, index as int);
            }
            return;
        }
    }
    if reading.starts_new {
        let ghost before = *board;
        board.start_new_task(trim(prompt), hint);
        proof {
            assert forall|i: int| all_gated(before) && 0 <= i < board.backlog@.len() implies
                #[trigger] crate::chat::store::gated(board.backlog@[i]) by {
                if i < before.backlog@.len() {
                    assert(board.backlog@.drop_last()[i] == before.backlog@[i]);
                }
            }
        }
    }
}

/// Whether every task of the board has what its stage presupposes.
pub open spec fn all_gated(board: TaskBoard) -> bool {
    &&& crate::chat::store::gated(board.active)
    &&& forall|i: int|
        0 <= i < board.backlog@.len() ==> #[trigger] crate::chat::store::gated(board.backlog@[i])
}

proof fn lemma_switching_keeps_gates(a: TaskBoard, b: TaskBoard, index: int)
    requires
        0 <= index < a.backlog@.len(),
        b.backlog@.len() == a.backlog@.len(),
        b.backlog@.drop_last() == a.backlog@.remove(index),
        crate::chat::store::parked(a.active, b.backlog@.last(), a.active.resume_hint@),
        crate::chat::store::taken_up(a.backlog@[index], b.active),
    ensures
        all_gated(a) ==> all_gated(b),
{
    if all_gated(a) {
        assert(crate::chat::store::gated(a.backlog@[index]));
        assert forall|i: int| 0 <= i < b.backlog@.len() implies #[trigger] crate::chat::store::gated(
            b.backlog@[i],
        ) by {
            if i < b.backlog@.len() - 1 {
                assert(b.backlog@.drop_last()[i] == b.backlog@[i]);
                if i < index {
                    assert(a.backlog@.remove(index)[i] == a.backlog@[i]);
                } else {
                    assert(a.backlog@.remove(index)[i] == a.backlog@[i + 1]);
                }
            }
        }
    }
}

/// A line of a plan without its bullet or number.
pub open spec fn plan_item(line: Seq<char>) -> Seq<char> {
    crate::text::trimmed(
        crate::text::strip_leading(
            crate::text::strip_leading(crate::text::trimmed(line), seq!['-', '*', '•']),
            seq!['0', '1', '2', '3', '4', '5', '6', '7', '8', '9', '.', ')'],
        ),
    )
}

/// The lines of a plan without their bullets and numbers; empty ones stay.
pub open spec fn plan_item_lines(lines: Seq<Seq<char>>) -> Seq<Seq<char>> {
    Seq::new(lines.len(), |i: int| plan_item(lines[i]))
}

/// The items of a plan: its first twelve lines that hold something.
pub open spec fn plan_items(answer: Seq<char>) -> Seq<Seq<char>> {
    let items = crate::text::non_empty(
        plan_item_lines(crate::text::split_any_of(answer, seq!['\n'])),
    );
    if items.len() > 12 {
        items.take(12)
    } else {
        items
    }
}

fn plan_line(line: &str) -> (r: String)
    ensures
        r@ == plan_item(line@),
{
    let bullets: [char; 3] = ['-', '*', '•'];
    let numbers: [char; 12] = ['0', '1', '2', '3', '4', '5', '6', '7', '8', '9', '.', ')'];
    assert(bullets@ =~= seq!['-', '*', '•']);
    assert(numbers@ =~= seq!['0', '1', '2', '3', '4', '5', '6', '7', '8', '9', '.', ')']);
    let text = strip_leading_any(trim(line), &bullets);
    trim(strip_leading_any(text, &numbers)).to_string()
}

proof fn lemma_more_items(lines: Seq<Seq<char>>, i: int)
    requires
        0 <= i <= lines.len(),
    ensures
        crate::text::non_empty(lines.take(i)).len() <= crate::text::non_empty(lines).len(),
        crate::text::non_empty(lines).take(
            crate::text::non_empty(lines.take(i)).len() as int,
        ) == crate::text::non_empty(lines.take(i)),
    decreases lines.len(),
{
    if i < lines.len() {
        lemma_more_items(lines.drop_last(), i);
        assert(lines.drop_last().take(i) =~= lines.take(i));
        let k = crate::text::non_empty(lines.take(i)).len() as int;
        assert(crate::text::non_empty(lines).take(k) =~= crate::text::non_empty(
            lines.drop_last(),
        ).take(k));
    } else {
        assert(lines.take(i) =~= lines);
        assert(crate::text::non_empty(lines).take(crate::text::non_empty(lines).len() as int)
            =~= crate::text::non_empty(lines));
    }
}

/// The items of a plan.
pub fn plan_lines(answer: &str) -> (r: Vec<String>)
    ensures
        crate::text::texts(r@) == plan_items(answer@),
{
    let seps: [char; 1] = ['\n'];
    assert(seps@ =~= seq!['\n']);
    let lines = split_any(answer, &seps);
    let ghost items = plan_item_lines(crate::text::texts(lines@));
    let mut out: Vec<String> = Vec::new();
    let mut i: usize = 0;
    assert(crate::text::texts(out@) =~= Seq::<Seq<char>>::empty());
    assert(items.take(0) =~= Seq::<Seq<char>>::empty());
    while i < lines.len() && out.len() < 12
        invariant
            i <= lines.len(),
            out.len() <= 12,
            items == plan_item_lines(crate::text::texts(lines@)),
            crate::text::texts(out@) == crate::text::non_empty(items.take(i as int)),
        decreases lines.len() - i,
    {
        let ghost before = crate::text::texts(out@);
        assert(items.take(i + 1).drop_last() =~= items.take(i as int));
        let item = plan_line(lines[i].as_str());
        assert(items[i as int] == item@);
        if !item.as_str().is_empty() {
            let ghost shown = item@;
            out.push(item);
            assert(crate::text::texts(out@) =~= before.push(shown));
        }
        i = i + 1;
    }
    proof {
        lemma_more_items(items, i as int);
        assert(crate::text::texts(out@).len() == out@.len());
        if i == lines.len() {
            assert(items.take(i as int) =~= items);
        }
    }
    out
}

/// Whether only the plan differs.
pub open spec fn with_plan(a: TaskContext, b: TaskContext) -> bool {
    b == (TaskContext { plan: b.plan, ..a })
}

/// `b` is `a` with the items of `value` for its plan, where it is planning and
/// has none yet.
pub open spec fn planned(a: TaskContext, b: TaskContext, value: Seq<char>) -> bool {
    if a.stage == TaskStage::Planning && a.plan@.len() == 0 {
        with_plan(a, b) && crate::text::texts(b.plan@) == plan_items(value)
    } else {
        b == a
    }
}

fn take_plan(task: &mut TaskContext, value: &str)
    ensures
        planned(*old(task), *final(task), value@),
{
    if task.stage == TaskStage::Planning && task.plan.is_empty() {
        task.plan = plan_lines(value);
    }
}

/// What a finished stage of a task without a pipeline leads to, from the task
/// with the artifact and the plan: a plan waits for its approval, any other
/// stage is left for the next one.
pub open spec fn plainly_completed(
    a: TaskContext,
    b: TaskContext,
    r: Option<StageTransition>,
) -> bool {
    if a.stage == TaskStage::Planning {
        &&& crate::chat::store::awaits_plan(a, b, crate::chat::store::plan_hint())
        &&& r matches Some(t) && t.from == a.stage && t.to == a.stage && t.accepted && t.reason@
            == "План подготовлен; переход в execution ожидает явного approval."@
    } else {
        match crate::chat::store::stage_after(a.stage) {
            Some(next) => r is Some && crate::chat::store::left(a, b, next, r->0),
            None => r is None && b == a,
        }
    }
}

/// `t` says that the task stays at `stage` for `reason`.
pub open spec fn stays(t: Option<StageTransition>, stage: TaskStage, reason: Seq<char>) -> bool {
    t matches Some(t) && t.from == stage && t.to == stage && !t.accepted && t.reason@ == reason
}

/// Why an empty result does not finish a stage.
pub open spec fn empty_result(stage: TaskStage) -> Seq<char> {
    "Стадия "@ + crate::chat::store::stage_name(stage) + " не завершена: результат пуст."@
}

/// What the report of a finished stage leads to.
pub open spec fn completed(
    a: TaskContext,
    b: TaskContext,
    complete: bool,
    key: Seq<char>,
    value: Seq<char>,
    r: Option<StageTransition>,
) -> bool {
    if !complete || a.paused {
        r is None && b == a
    } else if crate::text::blank(value) {
        crate::chat::store::held_back(a, b, empty_result(a.stage)) && stays(
            r,
            a.stage,
            empty_result(a.stage),
        )
    } else if a.pipeline@.len() > 0 {
        match crate::chat::store::keyless_entry(a.pipeline@, 0) {
            Some(i) => {
                let reason = "Pipeline: у стадии "@ + crate::chat::store::stage_name(
                    a.pipeline@[i].stage,
                ) + " нет ключа артефакта."@;
                crate::chat::store::held_back(a, b, reason) && stays(r, a.stage, reason)
            },
            None => pipeline_finished(a, b, value, r),
        }
    } else {
        finished(a, b, key, value, r)
    }
}

/// What a finished stage of a pipeline leads to.
pub open spec fn pipeline_finished(
    a: TaskContext,
    b: TaskContext,
    value: Seq<char>,
    r: Option<StageTransition>,
) -> bool {
    exists|mid: TaskContext, t: Option<StageTransition>| #[trigger]
        planned_then(a, mid, value, t) && {
            &&& match crate::chat::store::pipeline_entry(mid.pipeline@, mid.stage, 0) {
                Some(i) => crate::chat::store::pipeline_completed(
                    mid,
                    b,
                    mid.pipeline@[i],
                    value,
                    t,
                ),
                None => t is None && b == mid,
            }
            &&& match t {
                Some(t) => r matches Some(s) && s.from == t.from && s.to == t.to && s.accepted
                    == t.accepted && s.reason@ == b.transition_block_reason@,
                None => r is None,
            }
        }
}

/// `mid` is `a` with the plan that `value` gives; `t` is any transition.
pub open spec fn planned_then(
    a: TaskContext,
    mid: TaskContext,
    value: Seq<char>,
    t: Option<StageTransition>,
) -> bool {
    planned(a, mid, value)
}

/// What a finished stage of a task without a pipeline leads to.
pub open spec fn finished(
    a: TaskContext,
    b: TaskContext,
    key: Seq<char>,
    value: Seq<char>,
    r: Option<StageTransition>,
) -> bool {
    exists|noted: TaskContext, mid: TaskContext| #[trigger]
        noted_and_planned(a, noted, mid, key, value) && plainly_completed(mid, b, r)
}

/// `noted` is `a` with its artifact, `mid` is `noted` with its plan.
pub open spec fn noted_and_planned(
    a: TaskContext,
    noted: TaskContext,
    mid: TaskContext,
    key: Seq<char>,
    value: Seq<char>,
) -> bool {
    crate::chat::store::recorded(
        a,
        noted,
        crate::chat::store::artifact_key(a.stage, key),
        value,
    ) && planned(noted, mid, value)
}

/// The key and the value of what a stage reports: one that reports nothing has
/// a note to that effect.
pub open spec fn reported(stage: TaskStage, artifact: Option<(String, String)>) -> (
    Seq<char>,
    Seq<char>,
) {
    match artifact {
        Some((key, value)) => (key@, value@),
        None => (
            crate::chat::store::stage_name(stage),
            "Stage responder returned no artifact."@,
        ),
    }
}

fn refuse_completion(task: &mut TaskContext, reason: String) -> (r: Option<StageTransition>)
    ensures
        crate::chat::store::held_back(*old(task), *final(task), reason@),
        stays(r, old(task).stage, reason@),
{
    let current = task.stage;
    task.transition_block_reason = reason.clone();
    Some(StageTransition { from: current, to: current, accepted: false, reason })
}

/// Takes the report of a finished stage: the artifact is recorded, and the task
/// goes where the table and its gates let it.
pub fn apply_stage_completion(
    task: &mut TaskContext,
    complete: bool,
    artifact: Option<(String, String)>,
) -> (r: Option<StageTransition>)
    ensures
        completed(
            *old(task),
            *final(task),
            complete,
            reported(old(task).stage, artifact).0,
            reported(old(task).stage, artifact).1,
            r,
        ),
        crate::chat::store::lifecycle_step(*old(task), *final(task)),
        crate::chat::store::gated(*old(task)) ==> crate::chat::store::gated(*final(task)),
{
    if !complete || task.paused {
        return None;
    }
    let current = task.stage;
    let (key, value) = match artifact {
        Some(artifact) => artifact,
        None => (current.name().to_string(), "Stage responder returned no artifact.".to_string()),
    };
    if is_blank(value.as_str()) {
        let reason = cat3("Стадия ", current.name(), " не завершена: результат пуст.");
        return refuse_completion(task, reason);
    }
    if !task.pipeline.is_empty() {
        return complete_pipeline(task, value.as_str());
    }
    complete_plainly(task, key.as_str(), value.as_str())
}

fn complete_pipeline(task: &mut TaskContext, value: &str) -> (r: Option<StageTransition>)
    ensures
        match crate::chat::store::keyless_entry(old(task).pipeline@, 0) {
            Some(i) => {
                let reason = "Pipeline: у стадии "@ + crate::chat::store::stage_name(
                    old(task).pipeline@[i].stage,
                ) + " нет ключа артефакта."@;
                crate::chat::store::held_back(*old(task), *final(task), reason) && stays(
                    r,
                    old(task).stage,
                    reason,
                )
            },
            None => pipeline_finished(*old(task), *final(task), value@, r),
        },
        crate::chat::store::lifecycle_step(*old(task), *final(task)),
        crate::chat::store::gated(*old(task)) ==> crate::chat::store::gated(*final(task)),
{
    match task.validate_pipeline() {
        Err(reason) => {
            return refuse_completion(task, reason);
        },
        Ok(()) => {},
    }
    let ghost a = *task;
    take_plan(task, value);
    let ghost mid = *task;
    let moved = task.complete_pipeline_stage(value);
    let ghost t = moved;
    assert(planned_then(a, mid, value@, t));
    match moved {
        Some(moved) => Some(
            StageTransition {
                from: moved.from,
                to: moved.to,
                accepted: moved.accepted,
                reason: task.transition_block_reason.clone(),
            },
        ),
        None => None,
    }
}

fn complete_plainly(task: &mut TaskContext, key: &str, value: &str) -> (r: Option<StageTransition>)
    ensures
        finished(*old(task), *final(task), key@, value@, r),
        crate::chat::store::lifecycle_step(*old(task), *final(task)),
        crate::chat::store::gated(*old(task)) ==> crate::chat::store::gated(*final(task)),
{
    let ghost a = *task;
    let current = task.stage;
    task.record_stage_artifact(current, key, value);
    let ghost noted = *task;
    take_plan(task, value);
    let ghost mid = *task;
    assert(noted_and_planned(a, noted, mid, key@, value@));
    if current == TaskStage::Planning {
        task.await_plan_approval(
            "Проверьте подготовленный план и явно напишите «утверждаю план».",
        );
        return Some(
            StageTransition {
                from: current,
                to: current,
                accepted: true,
                reason: "План подготовлен; переход в execution ожидает явного approval.".to_string(),
            },
        );
    }
    task.leave_stage()
}

/// A finished stage takes a task along one edge at most, and never past a closed
/// gate: whatever a model reports, the work begins with an approved plan and the
/// end comes with a passed validation.
pub proof fn completion_takes_one_edge(
    a: TaskContext,
    b: TaskContext,
    complete: bool,
    key: Seq<char>,
    value: Seq<char>,
    r: Option<StageTransition>,
)
    requires
        completed(a, b, complete, key, value, r),
    ensures
        crate::chat::store::lifecycle_step(a, b),
        crate::chat::store::gated(a) ==> crate::chat::store::gated(b),
        a.stage == TaskStage::Planning ==> b.stage == TaskStage::Planning || a.plan_approved,
        a.paused ==> b == a,
{
    crate::chat::store::edges_never_jump(a.stage, b.stage);
}

/// What a message of control does takes a task along one edge at most, and
/// never past a closed gate.
pub proof fn control_takes_one_edge(
    a: TaskContext,
    b: TaskContext,
    p: Seq<char>,
    supplies_next_info: bool,
    hint: Seq<char>,
    r: Option<LocalReply>,
)
    requires
        controlled(a, b, p, supplies_next_info, hint, r),
    ensures
        crate::chat::store::lifecycle_step(a, b),
        crate::chat::store::gated(a) ==> crate::chat::store::gated(b),
        crate::chat::store::same_work(a, b),
        a.paused ==> r is Some,
{
    crate::chat::store::edges_never_jump(a.stage, b.stage);
}

/// A pause and its end leave the task at its stage, with all that it has
/// gathered and gained.
pub proof fn pause_and_resume_keep_the_task(
    a: TaskContext,
    b: TaskContext,
    c: TaskContext,
    hint: Seq<char>,
)
    requires
        crate::chat::store::parked(a, b, hint),
        crate::chat::store::taken_up(b, c),
    ensures
        c.stage == a.stage,
        !c.paused,
        c.current_step == a.current_step,
        c.plan_approved == a.plan_approved,
        c.validation_passed == a.validation_passed,
        crate::chat::store::same_work(a, c),
{
}

/// Whether a word refuses: it begins with «не» or with "no", as «нет», «не» and
/// "not" do.
pub open spec fn refuses(word: Seq<char>) -> bool {
    word.len() >= 2 && ((word[0] == 'н' && word[1] == 'е') || (word[0] == 'n' && word[1] == 'o'))
}

/// Whether nothing in `p` begins as a word of refusal does.
spec fn without_refusal(p: Seq<char>) -> bool {
    forall|k: int|
        0 <= k < p.len() - 1 ==> !(#[trigger] p[k] == 'н' && p[k + 1] == 'е') && !(p[k] == 'n'
            && p[k + 1] == 'o')
}

proof fn lemma_no_word_refuses(p: Seq<char>, i: int)
    requires
        without_refusal(p),
        0 <= i < crate::text::words_of(p).len(),
    ensures
        !refuses(crate::text::words_of(p)[i]),
{
    let word = crate::text::words_of(p)[i];
    crate::text::words_stand_in_their_text(p, word);
    let at = choose|at: int| crate::text::occurs_at(p, word, at);
    if refuses(word) {
        let there = p.subrange(at, at + word.len());
        assert(there[0] == p[at]);
        assert(there[1] == p[at + 1]);
    }
}

proof fn lemma_short_approvals_refuse_nothing(p: Seq<char>)
    requires
        short_approval(p),
    ensures
        without_refusal(p),
{
    reveal_strlit("ок");
    reveal_strlit("ok");
    reveal_strlit("approved");
    reveal_strlit("утверждаю");
    reveal_strlit("одобряю");
    assert forall|k: int| p == "ок"@ && 0 <= k < p.len() - 1 implies !(#[trigger] p[k]
        == 'н' && p[k + 1] == 'е') && !(p[k] == 'n' && p[k + 1] == 'o') by {
        assert(k == 0);
    }
    assert forall|k: int| p == "ok"@ && 0 <= k < p.len() - 1 implies !(#[trigger] p[k]
        == 'н' && p[k + 1] == 'е') && !(p[k] == 'n' && p[k + 1] == 'o') by {
        assert(k == 0);
    }
    assert forall|k: int| p == "approved"@ && 0 <= k < p.len() - 1 implies !(#[trigger] p[k]
        == 'н' && p[k + 1] == 'е') && !(p[k] == 'n' && p[k + 1] == 'o') by {
        assert(k == 0 || k == 1 || k == 2 || k == 3 || k == 4 || k == 5 || k == 6);
    }
    assert forall|k: int| p == "утверждаю"@ && 0 <= k < p.len() - 1 implies !(#[trigger] p[k]
        == 'н' && p[k + 1] == 'е') && !(p[k] == 'n' && p[k + 1] == 'o') by {
        assert(k == 0 || k == 1 || k == 2 || k == 3 || k == 4 || k == 5 || k == 6 || k == 7);
    }
    assert forall|k: int| p == "одобряю"@ && 0 <= k < p.len() - 1 implies !(#[trigger] p[k]
        == 'н' && p[k + 1] == 'е') && !(p[k] == 'n' && p[k + 1] == 'o') by {
        assert(k == 0 || k == 1 || k == 2 || k == 3 || k == 4 || k == 5);
    }
}

proof fn lemma_plan_approvals_refuse_nothing(p: Seq<char>)
    requires
        plan_approval(p),
    ensures
        without_refusal(p),
{
    reveal_strlit("утверждаю план");
    reveal_strlit("одобряю план");
    reveal_strlit("план утвержден");
    reveal_strlit("план утверждён");
    reveal_strlit("approve plan");
    reveal_strlit("plan approved");
    assert forall|k: int| p == "утверждаю план"@ && 0 <= k < p.len() - 1 implies !(#[trigger] p[k]
        == 'н' && p[k + 1] == 'е') && !(p[k] == 'n' && p[k + 1] == 'o') by {
        assert(k == 0 || k == 1 || k == 2 || k == 3 || k == 4 || k == 5 || k == 6 || k == 7 || k == 8 || k == 9 || k == 10 || k == 11 || k == 12);
    }
    assert forall|k: int| p == "одобряю план"@ && 0 <= k < p.len() - 1 implies !(#[trigger] p[k]
        == 'н' && p[k + 1] == 'е') && !(p[k] == 'n' && p[k + 1] == 'o') by {
        assert(k == 0 || k == 1 || k == 2 || k == 3 || k == 4 || k == 5 || k == 6 || k == 7 || k == 8 || k == 9 || k == 10);
    }
    assert forall|k: int| p == "план утвержден"@ && 0 <= k < p.len() - 1 implies !(#[trigger] p[k]
        == 'н' && p[k + 1] == 'е') && !(p[k] == 'n' && p[k + 1] == 'o') by {
        assert(k == 0 || k == 1 || k == 2 || k == 3 || k == 4 || k == 5 || k == 6 || k == 7 || k == 8 || k == 9 || k == 10 || k == 11 || k == 12);
    }
    assert forall|k: int| p == "план утверждён"@ && 0 <= k < p.len() - 1 implies !(#[trigger] p[k]
        == 'н' && p[k + 1] == 'е') && !(p[k] == 'n' && p[k + 1] == 'o') by {
        assert(k == 0 || k == 1 || k == 2 || k == 3 || k == 4 || k == 5 || k == 6 || k == 7 || k == 8 || k == 9 || k == 10 || k == 11 || k == 12);
    }
    assert forall|k: int| p == "approve plan"@ && 0 <= k < p.len() - 1 implies !(#[trigger] p[k]
        == 'н' && p[k + 1] == 'е') && !(p[k] == 'n' && p[k + 1] == 'o') by {
        assert(k == 0 || k == 1 || k == 2 || k == 3 || k == 4 || k == 5 || k == 6 || k == 7 || k == 8 || k == 9 || k == 10);
    }
    assert forall|k: int| p == "plan approved"@ && 0 <= k < p.len() - 1 implies !(#[trigger] p[k]
        == 'н' && p[k + 1] == 'е') && !(p[k] == 'n' && p[k + 1] == 'o') by {
        assert(k == 0 || k == 1 || k == 2 || k == 3 || k == 4 || k == 5 || k == 6 || k == 7 || k == 8 || k == 9 || k == 10 || k == 11);
    }
}

proof fn lemma_result_approvals_refuse_nothing(p: Seq<char>)
    requires
        result_approval(p),
    ensures
        without_refusal(p),
{
    reveal_strlit("утверждаю результат");
    reveal_strlit("одобряю результат");
    reveal_strlit("результат утвержден");
    reveal_strlit("результат утверждён");
    reveal_strlit("approve result");
    reveal_strlit("artifact approved");
    assert forall|k: int| p == "утверждаю результат"@ && 0 <= k < p.len() - 1 implies !(#[trigger] p[k]
        == 'н' && p[k + 1] == 'е') && !(p[k] == 'n' && p[k + 1] == 'o') by {
        assert(k == 0 || k == 1 || k == 2 || k == 3 || k == 4 || k == 5 || k == 6 || k == 7 || k == 8 || k == 9 || k == 10 || k == 11 || k == 12 || k == 13 || k == 14 || k == 15 || k == 16 || k == 17);
    }
    assert forall|k: int| p == "одобряю результат"@ && 0 <= k < p.len() - 1 implies !(#[trigger] p[k]
        == 'н' && p[k + 1] == 'е') && !(p[k] == 'n' && p[k + 1] == 'o') by {
        assert(k == 0 || k == 1 || k == 2 || k == 3 || k == 4 || k == 5 || k == 6 || k == 7 || k == 8 || k == 9 || k == 10 || k == 11 || k == 12 || k == 13 || k == 14 || k == 15);
    }
    assert forall|k: int| p == "результат утвержден"@ && 0 <= k < p.len() - 1 implies !(#[trigger] p[k]
        == 'н' && p[k + 1] == 'е') && !(p[k] == 'n' && p[k + 1] == 'o') by {
        assert(k == 0 || k == 1 || k == 2 || k == 3 || k == 4 || k == 5 || k == 6 || k == 7 || k == 8 || k == 9 || k == 10 || k == 11 || k == 12 || k == 13 || k == 14 || k == 15 || k == 16 || k == 17);
    }
    assert forall|k: int| p == "результат утверждён"@ && 0 <= k < p.len() - 1 implies !(#[trigger] p[k]
        == 'н' && p[k + 1] == 'е') && !(p[k] == 'n' && p[k + 1] == 'o') by {
        assert(k == 0 || k == 1 || k == 2 || k == 3 || k == 4 || k == 5 || k == 6 || k == 7 || k == 8 || k == 9 || k == 10 || k == 11 || k == 12 || k == 13 || k == 14 || k == 15 || k == 16 || k == 17);
    }
    assert forall|k: int| p == "approve result"@ && 0 <= k < p.len() - 1 implies !(#[trigger] p[k]
        == 'н' && p[k + 1] == 'е') && !(p[k] == 'n' && p[k + 1] == 'o') by {
        assert(k == 0 || k == 1 || k == 2 || k == 3 || k == 4 || k == 5 || k == 6 || k == 7 || k == 8 || k == 9 || k == 10 || k == 11 || k == 12);
    }
    assert forall|k: int| p == "artifact approved"@ && 0 <= k < p.len() - 1 implies !(#[trigger] p[k]
        == 'н' && p[k + 1] == 'е') && !(p[k] == 'n' && p[k + 1] == 'o') by {
        assert(k == 0 || k == 1 || k == 2 || k == 3 || k == 4 || k == 5 || k == 6 || k == 7 || k == 8 || k == 9 || k == 10 || k == 11 || k == 12 || k == 13 || k == 14 || k == 15);
    }
}

proof fn lemma_resumptions_refuse_nothing(p: Seq<char>)
    requires
        resumes(p),
    ensures
        without_refusal(p),
{
    reveal_strlit("continue");
    reveal_strlit("continue task");
    reveal_strlit("resume");
    reveal_strlit("resume task");
    reveal_strlit("продолжай");
    reveal_strlit("продолжить");
    reveal_strlit("продолжить задачу");
    reveal_strlit("снять с паузы");
    reveal_strlit("возобновить");
    reveal_strlit("возобновляй");
    assert forall|k: int| p == "continue"@ && 0 <= k < p.len() - 1 implies !(#[trigger] p[k]
        == 'н' && p[k + 1] == 'е') && !(p[k] == 'n' && p[k + 1] == 'o') by {
        assert(k == 0 || k == 1 || k == 2 || k == 3 || k == 4 || k == 5 || k == 6);
    }
    assert forall|k: int| p == "continue task"@ && 0 <= k < p.len() - 1 implies !(#[trigger] p[k]
        == 'н' && p[k + 1] == 'е') && !(p[k] == 'n' && p[k + 1] == 'o') by {
        assert(k == 0 || k == 1 || k == 2 || k == 3 || k == 4 || k == 5 || k == 6 || k == 7 || k == 8 || k == 9 || k == 10 || k == 11);
    }
    assert forall|k: int| p == "resume"@ && 0 <= k < p.len() - 1 implies !(#[trigger] p[k]
        == 'н' && p[k + 1] == 'е') && !(p[k] == 'n' && p[k + 1] == 'o') by {
        assert(k == 0 || k == 1 || k == 2 || k == 3 || k == 4);
    }
    assert forall|k: int| p == "resume task"@ && 0 <= k < p.len() - 1 implies !(#[trigger] p[k]
        == 'н' && p[k + 1] == 'е') && !(p[k] == 'n' && p[k + 1] == 'o') by {
        assert(k == 0 || k == 1 || k == 2 || k == 3 || k == 4 || k == 5 || k == 6 || k == 7 || k == 8 || k == 9);
    }
    assert forall|k: int| p == "продолжай"@ && 0 <= k < p.len() - 1 implies !(#[trigger] p[k]
        == 'н' && p[k + 1] == 'е') && !(p[k] == 'n' && p[k + 1] == 'o') by {
        assert(k == 0 || k == 1 || k == 2 || k == 3 || k == 4 || k == 5 || k == 6 || k == 7);
    }
    assert forall|k: int| p == "продолжить"@ && 0 <= k < p.len() - 1 implies !(#[trigger] p[k]
        == 'н' && p[k + 1] == 'е') && !(p[k] == 'n' && p[k + 1] == 'o') by {
        assert(k == 0 || k == 1 || k == 2 || k == 3 || k == 4 || k == 5 || k == 6 || k == 7 || k == 8);
    }
    assert forall|k: int| p == "продолжить задачу"@ && 0 <= k < p.len() - 1 implies !(#[trigger] p[k]
        == 'н' && p[k + 1] == 'е') && !(p[k] == 'n' && p[k + 1] == 'o') by {
        assert(k == 0 || k == 1 || k == 2 || k == 3 || k == 4 || k == 5 || k == 6 || k == 7 || k == 8 || k == 9 || k == 10 || k == 11 || k == 12 || k == 13 || k == 14 || k == 15);
    }
    assert forall|k: int| p == "снять с паузы"@ && 0 <= k < p.len() - 1 implies !(#[trigger] p[k]
        == 'н' && p[k + 1] == 'е') && !(p[k] == 'n' && p[k + 1] == 'o') by {
        assert(k == 0 || k == 1 || k == 2 || k == 3 || k == 4 || k == 5 || k == 6 || k == 7 || k == 8 || k == 9 || k == 10 || k == 11);
    }
    assert forall|k: int| p == "возобновить"@ && 0 <= k < p.len() - 1 implies !(#[trigger] p[k]
        == 'н' && p[k + 1] == 'е') && !(p[k] == 'n' && p[k + 1] == 'o') by {
        assert(k == 0 || k == 1 || k == 2 || k == 3 || k == 4 || k == 5 || k == 6 || k == 7 || k == 8 || k == 9);
    }
    assert forall|k: int| p == "возобновляй"@ && 0 <= k < p.len() - 1 implies !(#[trigger] p[k]
        == 'н' && p[k + 1] == 'е') && !(p[k] == 'n' && p[k + 1] == 'o') by {
        assert(k == 0 || k == 1 || k == 2 || k == 3 || k == 4 || k == 5 || k == 6 || k == 7 || k == 8 || k == 9);
    }
}

proof fn lemma_pauses_refuse_nothing(p: Seq<char>)
    requires
        pauses(p),
    ensures
        without_refusal(p),
{
    reveal_strlit("pause");
    reveal_strlit("pause task");
    reveal_strlit("пауза");
    reveal_strlit("поставь на паузу");
    reveal_strlit("поставь задачу на паузу");
    reveal_strlit("приостанови");
    reveal_strlit("приостанови задачу");
    reveal_strlit("останови задачу");
    reveal_strlit("вернусь позже");
    reveal_strlit("потом продолжим");
    assert forall|k: int| p == "pause"@ && 0 <= k < p.len() - 1 implies !(#[trigger] p[k]
        == 'н' && p[k + 1] == 'е') && !(p[k] == 'n' && p[k + 1] == 'o') by {
        assert(k == 0 || k == 1 || k == 2 || k == 3);
    }
    assert forall|k: int| p == "pause task"@ && 0 <= k < p.len() - 1 implies !(#[trigger] p[k]
        == 'н' && p[k + 1] == 'е') && !(p[k] == 'n' && p[k + 1] == 'o') by {
        assert(k == 0 || k == 1 || k == 2 || k == 3 || k == 4 || k == 5 || k == 6 || k == 7 || k == 8);
    }
    assert forall|k: int| p == "пауза"@ && 0 <= k < p.len() - 1 implies !(#[trigger] p[k]
        == 'н' && p[k + 1] == 'е') && !(p[k] == 'n' && p[k + 1] == 'o') by {
        assert(k == 0 || k == 1 || k == 2 || k == 3);
    }
    assert forall|k: int| p == "поставь на паузу"@ && 0 <= k < p.len() - 1 implies !(#[trigger] p[k]
        == 'н' && p[k + 1] == 'е') && !(p[k] == 'n' && p[k + 1] == 'o') by {
        assert(k == 0 || k == 1 || k == 2 || k == 3 || k == 4 || k == 5 || k == 6 || k == 7 || k == 8 || k == 9 || k == 10 || k == 11 || k == 12 || k == 13 || k == 14);
    }
    assert forall|k: int| p == "поставь задачу на паузу"@ && 0 <= k < p.len() - 1 implies !(#[trigger] p[k]
        == 'н' && p[k + 1] == 'е') && !(p[k] == 'n' && p[k + 1] == 'o') by {
        assert(k == 0 || k == 1 || k == 2 || k == 3 || k == 4 || k == 5 || k == 6 || k == 7 || k == 8 || k == 9 || k == 10 || k == 11 || k == 12 || k == 13 || k == 14 || k == 15 || k == 16 || k == 17 || k == 18 || k == 19 || k == 20 || k == 21);
    }
    assert forall|k: int| p == "приостанови"@ && 0 <= k < p.len() - 1 implies !(#[trigger] p[k]
        == 'н' && p[k + 1] == 'е') && !(p[k] == 'n' && p[k + 1] == 'o') by {
        assert(k == 0 || k == 1 || k == 2 || k == 3 || k == 4 || k == 5 || k == 6 || k == 7 || k == 8 || k == 9);
    }
    assert forall|k: int| p == "приостанови задачу"@ && 0 <= k < p.len() - 1 implies !(#[trigger] p[k]
        == 'н' && p[k + 1] == 'е') && !(p[k] == 'n' && p[k + 1] == 'o') by {
        assert(k == 0 || k == 1 || k == 2 || k == 3 || k == 4 || k == 5 || k == 6 || k == 7 || k == 8 || k == 9 || k == 10 || k == 11 || k == 12 || k == 13 || k == 14 || k == 15 || k == 16);
    }
    assert forall|k: int| p == "останови задачу"@ && 0 <= k < p.len() - 1 implies !(#[trigger] p[k]
        == 'н' && p[k + 1] == 'е') && !(p[k] == 'n' && p[k + 1] == 'o') by {
        assert(k == 0 || k == 1 || k == 2 || k == 3 || k == 4 || k == 5 || k == 6 || k == 7 || k == 8 || k == 9 || k == 10 || k == 11 || k == 12 || k == 13);
    }
    assert forall|k: int| p == "вернусь позже"@ && 0 <= k < p.len() - 1 implies !(#[trigger] p[k]
        == 'н' && p[k + 1] == 'е') && !(p[k] == 'n' && p[k + 1] == 'o') by {
        assert(k == 0 || k == 1 || k == 2 || k == 3 || k == 4 || k == 5 || k == 6 || k == 7 || k == 8 || k == 9 || k == 10 || k == 11);
    }
    assert forall|k: int| p == "потом продолжим"@ && 0 <= k < p.len() - 1 implies !(#[trigger] p[k]
        == 'н' && p[k + 1] == 'е') && !(p[k] == 'n' && p[k + 1] == 'o') by {
        assert(k == 0 || k == 1 || k == 2 || k == 3 || k == 4 || k == 5 || k == 6 || k == 7 || k == 8 || k == 9 || k == 10 || k == 11 || k == 12 || k == 13);
    }
}

proof fn lemma_confirming_words_refuse_nothing(word: Seq<char>)
    requires
        confirms(word) || urges(word),
    ensures
        !refuses(word),
{
    reveal_strlit("да");
    reveal_strlit("ок");
    reveal_strlit("ok");
    reveal_strlit("окей");
    reveal_strlit("okay");
    reveal_strlit("yes");
    reveal_strlit("хорошо");
    reveal_strlit("согласен");
    reveal_strlit("согласна");
    reveal_strlit("согласны");
    reveal_strlit("подтверждаю");
    reveal_strlit("утверждаю");
    reveal_strlit("одобряю");
    reveal_strlit("approved");
    reveal_strlit("поехали");
    reveal_strlit("давай");
    reveal_strlit("продолжай");
    reveal_strlit("продолжаем");
    reveal_strlit("дальше");
}

/// A message that holds a word of refusal approves nothing, whatever is waited
/// for; nor does it end a pause or ask for one.
pub proof fn refusal_approves_nothing(p: Seq<char>, reason: TaskPauseReason, i: int)
    requires
        0 <= i < crate::text::words_of(p).len(),
        refuses(crate::text::words_of(p)[i]),
    ensures
        !approves(p, reason),
        !resumes(p),
        !pauses(p),
{
    let words = crate::text::words_of(p);
    if without_refusal(p) {
        lemma_no_word_refuses(p, i);
    }
    if short_approval(p) {
        lemma_short_approvals_refuse_nothing(p);
    }
    if plan_approval(p) {
        lemma_plan_approvals_refuse_nothing(p);
    }
    if result_approval(p) {
        lemma_result_approvals_refuse_nothing(p);
    }
    if resumes(p) {
        lemma_resumptions_refuse_nothing(p);
    }
    if pauses(p) {
        lemma_pauses_refuse_nothing(p);
    }
    if natural_confirmation(words) {
        lemma_confirming_words_refuse_nothing(words[i]);
    }
}

/// A message with «нет», «не», "no" or "not" among its words approves nothing,
/// whatever stands beside them.
pub proof fn no_is_no_approval(p: Seq<char>, reason: TaskPauseReason)
    requires
        crate::text::words_of(p).contains("нет"@) || crate::text::words_of(p).contains("не"@)
            || crate::text::words_of(p).contains("no"@) || crate::text::words_of(p).contains(
            "not"@,
        ),
    ensures
        !approves(p, reason),
        !resumes(p),
        !pauses(p),
{
    reveal_strlit("нет");
    reveal_strlit("не");
    reveal_strlit("no");
    reveal_strlit("not");
    let words = crate::text::words_of(p);
    let i = choose|i: int|
        0 <= i < words.len() && (words[i] == "нет"@ || words[i] == "не"@ || words[i] == "no"@
            || words[i] == "not"@);
    refusal_approves_nothing(p, reason, i);
}

/// What approves, in full. One word of assent does at every gate; a plan is
/// approved by name, or by ordinary words of assent and nothing else; a result is
/// approved by name; a pause that waits for no approval takes one word alone.
pub proof fn approvals_are_these(p: Seq<char>, reason: TaskPauseReason)
    ensures
        ({
            let by_one_word = seq!["ок"@, "ok"@, "approved"@, "утверждаю"@, "одобряю"@].contains(p);
            let plan_by_name = seq!["утверждаю план"@, "одобряю план"@, "план утвержден"@, "план утверждён"@, "approve plan"@, "plan approved"@].contains(p);
            let result_by_name = seq!["утверждаю результат"@, "одобряю результат"@, "результат утвержден"@, "результат утверждён"@, "approve result"@, "artifact approved"@].contains(p);
            let assent = seq!["да"@, "ок"@, "ok"@, "окей"@, "okay"@, "yes"@, "хорошо"@, "согласен"@, "согласна"@, "согласны"@, "подтверждаю"@, "утверждаю"@, "одобряю"@, "approved"@, "поехали"@];
            let urging = seq!["давай"@, "продолжай"@, "продолжаем"@, "дальше"@];
            let words = crate::text::words_of(p);
            let in_ordinary_words = (forall|i: int|
                0 <= i < words.len() ==> assent.contains(#[trigger] words[i]) || urging.contains(
                    words[i],
                )) && (exists|i: int| 0 <= i < words.len() && assent.contains(#[trigger] words[i]));
            match reason {
                TaskPauseReason::PlanApproval => approves(p, reason) == (by_one_word
                    || plan_by_name || in_ordinary_words),
                TaskPauseReason::StageApproval => approves(p, reason) == (by_one_word
                    || result_by_name),
                TaskPauseReason::Manual => approves(p, reason) == by_one_word,
            }
        }),
{
    let by_one_word = seq!["ок"@, "ok"@, "approved"@, "утверждаю"@, "одобряю"@];
    let plan_by_name = seq!["утверждаю план"@, "одобряю план"@, "план утвержден"@, "план утверждён"@, "approve plan"@, "plan approved"@];
    let result_by_name = seq!["утверждаю результат"@, "одобряю результат"@, "результат утвержден"@, "результат утверждён"@, "approve result"@, "artifact approved"@];
    let assent = seq!["да"@, "ок"@, "ok"@, "окей"@, "okay"@, "yes"@, "хорошо"@, "согласен"@, "согласна"@, "согласны"@, "подтверждаю"@, "утверждаю"@, "одобряю"@, "approved"@, "поехали"@];
    let urging = seq!["давай"@, "продолжай"@, "продолжаем"@, "дальше"@];
    assert(short_approval(p) == by_one_word.contains(p)) by {
        assert(by_one_word[0] == "ок"@);
        assert(by_one_word[1] == "ok"@);
        assert(by_one_word[2] == "approved"@);
        assert(by_one_word[3] == "утверждаю"@);
        assert(by_one_word[4] == "одобряю"@);
    }
    assert(plan_approval(p) == plan_by_name.contains(p)) by {
        assert(plan_by_name[0] == "утверждаю план"@);
        assert(plan_by_name[1] == "одобряю план"@);
        assert(plan_by_name[2] == "план утвержден"@);
        assert(plan_by_name[3] == "план утверждён"@);
        assert(plan_by_name[4] == "approve plan"@);
        assert(plan_by_name[5] == "plan approved"@);
    }
    assert(result_approval(p) == result_by_name.contains(p)) by {
        assert(result_by_name[0] == "утверждаю результат"@);
        assert(result_by_name[1] == "одобряю результат"@);
        assert(result_by_name[2] == "результат утвержден"@);
        assert(result_by_name[3] == "результат утверждён"@);
        assert(result_by_name[4] == "approve result"@);
        assert(result_by_name[5] == "artifact approved"@);
    }
    assert forall|w: Seq<char>| confirms(w) == #[trigger] assent.contains(w) by {
        assert(assent[0] == "да"@);
        assert(assent[1] == "ок"@);
        assert(assent[2] == "ok"@);
        assert(assent[3] == "окей"@);
        assert(assent[4] == "okay"@);
        assert(assent[5] == "yes"@);
        assert(assent[6] == "хорошо"@);
        assert(assent[7] == "согласен"@);
        assert(assent[8] == "согласна"@);
        assert(assent[9] == "согласны"@);
        assert(assent[10] == "подтверждаю"@);
        assert(assent[11] == "утверждаю"@);
        assert(assent[12] == "одобряю"@);
        assert(assent[13] == "approved"@);
        assert(assent[14] == "поехали"@);
    }
    assert forall|w: Seq<char>| urges(w) == #[trigger] urging.contains(w) by {
        assert(urging[0] == "давай"@);
        assert(urging[1] == "продолжай"@);
        assert(urging[2] == "продолжаем"@);
        assert(urging[3] == "дальше"@);
    }
}

/// What asks for a pause and what ends one, in full.
pub proof fn pauses_and_resumptions_are_these(p: Seq<char>)
    ensures
        pauses(p) == seq!["pause"@, "pause task"@, "пауза"@, "поставь на паузу"@, "поставь задачу на паузу"@, "приостанови"@, "приостанови задачу"@, "останови задачу"@, "вернусь позже"@, "потом продолжим"@].contains(p),
        resumes(p) == seq!["continue"@, "continue task"@, "resume"@, "resume task"@, "продолжай"@, "продолжить"@, "продолжить задачу"@, "снять с паузы"@, "возобновить"@, "возобновляй"@].contains(p),
{
    let pausing = seq!["pause"@, "pause task"@, "пауза"@, "поставь на паузу"@, "поставь задачу на паузу"@, "приостанови"@, "приостанови задачу"@, "останови задачу"@, "вернусь позже"@, "потом продолжим"@];
    let resuming = seq!["continue"@, "continue task"@, "resume"@, "resume task"@, "продолжай"@, "продолжить"@, "продолжить задачу"@, "снять с паузы"@, "возобновить"@, "возобновляй"@];
    assert(pauses(p) == pausing.contains(p)) by {
        assert(pausing[0] == "pause"@);
        assert(pausing[1] == "pause task"@);
        assert(pausing[2] == "пауза"@);
        assert(pausing[3] == "поставь на паузу"@);
        assert(pausing[4] == "поставь задачу на паузу"@);
        assert(pausing[5] == "приостанови"@);
        assert(pausing[6] == "приостанови задачу"@);
        assert(pausing[7] == "останови задачу"@);
        assert(pausing[8] == "вернусь позже"@);
        assert(pausing[9] == "потом продолжим"@);
    }
    assert(resumes(p) == resuming.contains(p)) by {
        assert(resuming[0] == "continue"@);
        assert(resuming[1] == "continue task"@);
        assert(resuming[2] == "resume"@);
        assert(resuming[3] == "resume task"@);
        assert(resuming[4] == "продолжай"@);
        assert(resuming[5] == "продолжить"@);
        assert(resuming[6] == "продолжить задачу"@);
        assert(resuming[7] == "снять с паузы"@);
        assert(resuming[8] == "возобновить"@);
        assert(resuming[9] == "возобновляй"@);
    }
}

/// A change of mind is heard where no «не» stands in the message, and never where
/// the message begins with «не» or holds neither «передумал» nor «шаг назад».
pub proof fn stepping_back_is_asked_for(p: Seq<char>)
    ensures
        ({
            let words = crate::text::words_of(p);
            let asked = words.contains("передумал"@) || (exists|i: int|
                0 <= i < words.len() - 1 && #[trigger] words[i] == "шаг"@ && words[i + 1]
                    == "назад"@);
            &&& asked && !words.contains("не"@) ==> steps_back(p)
            &&& steps_back(p) ==> asked
            &&& words.len() > 0 && words[0] == "не"@ ==> !steps_back(p)
        }),
{
    let words = crate::text::words_of(p);
    let asked = words.contains("передумал"@) || (exists|i: int|
        0 <= i < words.len() - 1 && #[trigger] words[i] == "шаг"@ && words[i + 1] == "назад"@);
    reveal_strlit("не");
    reveal_strlit("передумал");
    reveal_strlit("шаг");
    assert("не"@.len() == 2 && "передумал"@.len() == 9 && "шаг"@.len() == 3);
    if asked && !words.contains("не"@) {
        let i = choose|i: int|
            0 <= i < words.len() && (#[trigger] words[i] == "передумал"@ || (i + 1 < words.len() && words[i]
                == "шаг"@ && words[i + 1] == "назад"@));
        assert(back_at(words, i));
        assert(!words.take(i).contains("не"@)) by {
            if words.take(i).contains("не"@) {
                let k = choose|k: int| 0 <= k < i && words.take(i)[k] == "не"@;
                assert(words[k] == "не"@);
            }
        }
    }
    if steps_back(p) {
        let i = choose|i: int| #[trigger]
            back_at(words, i) && 0 <= i < words.len() && !words.take(i).contains("не"@);
        if words[0] == "не"@ {
            assert(i > 0);
            assert(words.take(i)[0] == "не"@);
        }
    }
}

/// An approval takes a waiting task one stage on, and only an approval does. With
/// an approved plan the work begins; an approved result goes to its validation;
/// an approved validation ends the task. What is not approved keeps waiting, as
/// it was.
pub proof fn approval_takes_the_task_on(
    a: TaskContext,
    b: TaskContext,
    p: Seq<char>,
    supplies_next_info: bool,
    hint: Seq<char>,
    r: Option<LocalReply>,
)
    requires
        controlled(a, b, p, supplies_next_info, hint, r),
        a.paused,
        a.pause_reason != TaskPauseReason::Manual,
    ensures
        a.pause_reason == TaskPauseReason::PlanApproval && a.stage == TaskStage::Planning && (exists|
            i: int,
        |
            0 <= i < a.artifacts@.len() && (#[trigger] a.artifacts@[i]).stage == TaskStage::Planning)
            && (p == "утверждаю план"@ || p == "да"@ || p == "ок"@) ==> b.stage
            == TaskStage::Execution && b.plan_approved && !b.paused,
        a.pause_reason == TaskPauseReason::StageApproval && (p == "утверждаю результат"@ || p
            == "ок"@) ==> {
            &&& a.stage == TaskStage::Clarify ==> b.stage == TaskStage::Planning && !b.paused
            &&& a.stage == TaskStage::Execution ==> b.stage == TaskStage::Validation && !b.paused
            &&& a.stage == TaskStage::Validation ==> b.stage == TaskStage::Done
                && b.validation_passed && !b.paused
        },
        a.pause_reason == TaskPauseReason::PlanApproval && p == "утверждаю результат"@ ==> b.stage
            == a.stage && b.paused,
        a.pause_reason == TaskPauseReason::StageApproval && (p == "утверждаю план"@ || p == "да"@)
            ==> b.stage == a.stage && b.paused,
        !approves(p, a.pause_reason) ==> b.stage == a.stage && b.paused && b.pause_reason
            == a.pause_reason && b.plan_approved == a.plan_approved && b.validation_passed
            == a.validation_passed && r is Some && r->0.transition is None,
        b.stage != a.stage ==> !b.paused && r is Some && (r->0.transition matches Some(t) && t.from
            == a.stage && t.to == b.stage && t.accepted),
        b.artifacts == a.artifacts && b.plan == a.plan && b.goal == a.goal && b.pipeline
            == a.pipeline,
{
    reveal_strlit("утверждаю план");
    reveal_strlit("утверждаю результат");
    reveal_strlit("да");
    reveal_strlit("ок");
    reveal_strlit("ok");
    reveal_strlit("approved");
    reveal_strlit("утверждаю");
    reveal_strlit("одобряю");
    reveal_strlit("одобряю план");
    reveal_strlit("план утвержден");
    reveal_strlit("план утверждён");
    reveal_strlit("approve plan");
    reveal_strlit("plan approved");
    reveal_strlit("одобряю результат");
    reveal_strlit("результат утвержден");
    reveal_strlit("результат утверждён");
    reveal_strlit("approve result");
    reveal_strlit("artifact approved");
    if p == "да"@ {
        crate::text::lemma_one_word(p);
        assert(crate::text::words_of(p)[0] == p);
    }
    if a.pause_reason == TaskPauseReason::PlanApproval && p == "утверждаю результат"@ {
        lemma_result_is_no_plan();
    }
    if a.pause_reason == TaskPauseReason::StageApproval && (p == "утверждаю план"@ || p == "да"@) {
        assert("утверждаю план"@.len() == 14 && "да"@.len() == 2);
        assert("утверждаю план"@[0] == 'у' && "approve result"@[0] == 'a');
        assert("да"@[0] == 'д' && "ок"@[0] == 'о' && "ok"@[0] == 'o');
        assert(!short_approval(p));
        assert(!result_approval(p));
    }
}

/// No words of assent to a result are ordinary words of assent.
proof fn lemma_result_is_no_plan()
    ensures
        !natural_confirmation(crate::text::words_of("утверждаю результат"@)),
{
    let p = "утверждаю результат"@;
    reveal_strlit("утверждаю результат");
    crate::text::lemma_two_words(p, 9);
    let word = p.skip(10);
    assert(crate::text::words_of(p)[1] == word);
    assert(word.len() == 9 && word[0] == 'р');
    reveal_strlit("да");
    reveal_strlit("ок");
    reveal_strlit("ok");
    reveal_strlit("окей");
    reveal_strlit("okay");
    reveal_strlit("yes");
    reveal_strlit("хорошо");
    reveal_strlit("согласен");
    reveal_strlit("согласна");
    reveal_strlit("согласны");
    reveal_strlit("подтверждаю");
    reveal_strlit("утверждаю");
    reveal_strlit("одобряю");
    reveal_strlit("approved");
    reveal_strlit("поехали");
    reveal_strlit("давай");
    reveal_strlit("продолжай");
    reveal_strlit("продолжаем");
    reveal_strlit("дальше");
}

/// A pause keeps the task where it is until a message ends it.
pub proof fn a_pause_lasts_until_it_is_ended(
    a: TaskContext,
    b: TaskContext,
    p: Seq<char>,
    supplies_next_info: bool,
    hint: Seq<char>,
    r: Option<LocalReply>,
)
    requires
        controlled(a, b, p, supplies_next_info, hint, r),
        a.pause_reason == TaskPauseReason::Manual,
    ensures
        a.paused && (p == "продолжай"@ || p == "resume"@ || supplies_next_info) ==> !b.paused
            && b.stage == a.stage,
        a.paused && !supplies_next_info && !resumes(p) ==> b.paused && b.stage == a.stage,
        !a.paused && (p == "пауза"@ || p == "pause"@) ==> b.paused && b.pause_reason
            == TaskPauseReason::Manual && b.stage == a.stage && b.resume_hint@ == hint,
        a.paused ==> r is Some && r->0.transition is None && b.resume_hint == a.resume_hint,
        b.plan_approved != a.plan_approved ==> a.stage == TaskStage::Execution && b.stage
            == TaskStage::Planning,
        b.validation_passed != a.validation_passed ==> a.stage == TaskStage::Validation && b.stage
            == TaskStage::Execution,
{
}

/// A change of mind takes the work back to the plan, which then has to be
/// approved again, and the validation back to the work, which then has to be
/// validated again. From any other stage there is no way back.
pub proof fn a_change_of_mind_goes_one_stage_back(
    a: TaskContext,
    b: TaskContext,
    p: Seq<char>,
    supplies_next_info: bool,
    hint: Seq<char>,
    r: Option<LocalReply>,
)
    requires
        controlled(a, b, p, supplies_next_info, hint, r),
        !a.paused,
        !pauses(p),
    ensures
        steps_back(p) && a.stage == TaskStage::Execution ==> b.stage == TaskStage::Planning
            && !b.plan_approved && r is Some,
        steps_back(p) && a.stage == TaskStage::Validation ==> b.stage == TaskStage::Execution
            && !b.validation_passed && b.plan_approved == a.plan_approved && r is Some,
        !steps_back(p) || a.stage == TaskStage::Clarify || a.stage == TaskStage::Planning || a.stage
            == TaskStage::Done ==> r is None && b == a,
        b.artifacts == a.artifacts && b.plan == a.plan && b.goal == a.goal && b.paused == a.paused,
{
}

/// The report of a finished stage is kept as an artifact of that stage, after
/// those that are there. A plan then waits for the user; any other stage is
/// followed by the next one, and the last one by nothing.
pub proof fn a_finished_stage_leads_on(
    a: TaskContext,
    b: TaskContext,
    key: Seq<char>,
    value: Seq<char>,
    r: Option<StageTransition>,
)
    requires
        completed(a, b, true, key, value, r),
        !a.paused,
        !crate::text::blank(value),
        a.pipeline@.len() == 0,
    ensures
        b.artifacts@.len() == a.artifacts@.len() + 1,
        forall|i: int| 0 <= i < a.artifacts@.len() ==> #[trigger] b.artifacts@[i] == a.artifacts@[i],
        b.artifacts@.last().value@ == value,
        b.artifacts@.last().stage == a.stage,
        !crate::text::blank(key) ==> b.artifacts@.last().key@ == crate::text::trimmed(key),
        a.stage == TaskStage::Clarify ==> b.stage == TaskStage::Planning && !b.paused,
        a.stage == TaskStage::Planning ==> b.stage == TaskStage::Planning && b.paused
            && b.pause_reason == TaskPauseReason::PlanApproval && b.plan_approved
            == a.plan_approved,
        a.stage == TaskStage::Execution ==> b.stage == TaskStage::Validation && !b.paused,
        a.stage == TaskStage::Validation ==> b.stage == TaskStage::Done && b.validation_passed,
        a.stage == TaskStage::Done ==> b.stage == TaskStage::Done && r is None,
        b.goal == a.goal && b.violations == a.violations && b.results == a.results,
        a.plan@.len() > 0 || a.stage != TaskStage::Planning ==> b.plan == a.plan,
{
    let (noted, mid) = choose|noted: TaskContext, mid: TaskContext| #[trigger]
        noted_and_planned(a, noted, mid, key, value) && plainly_completed(mid, b, r);
    assert(noted.artifacts@.drop_last() == a.artifacts@);
    assert forall|i: int| 0 <= i < a.artifacts@.len() implies #[trigger] b.artifacts@[i]
        == a.artifacts@[i] by {
        assert(noted.artifacts@.drop_last()[i] == a.artifacts@[i]);
    }
}

/// What does not finish a stage moves nothing: a report that is none, one while
/// the task waits, and an empty one.
pub proof fn an_unfinished_stage_stays(
    a: TaskContext,
    b: TaskContext,
    complete: bool,
    key: Seq<char>,
    value: Seq<char>,
    r: Option<StageTransition>,
)
    requires
        completed(a, b, complete, key, value, r),
        !complete || a.paused || crate::text::blank(value),
    ensures
        b.stage == a.stage && b.artifacts == a.artifacts && b.plan == a.plan && b.paused
            == a.paused && b.plan_approved == a.plan_approved && b.validation_passed
            == a.validation_passed,
        r matches Some(t) ==> !t.accepted,
{
}

/// A stage of a pipeline that asks for a human keeps its task until there is one;
/// any other hands it on. The plan always waits.
pub proof fn a_pipeline_stage_waits_for_its_human(
    a: TaskContext,
    b: TaskContext,
    key: Seq<char>,
    value: Seq<char>,
    r: Option<StageTransition>,
    entry: int,
)
    requires
        completed(a, b, true, key, value, r),
        !a.paused,
        !crate::text::blank(value),
        0 <= entry < a.pipeline@.len(),
        a.pipeline@[entry].stage == a.stage,
        forall|i: int| 0 <= i < entry ==> (#[trigger] a.pipeline@[i]).stage != a.stage,
        forall|i: int|
            0 <= i < a.pipeline@.len() ==> !crate::text::blank(
                (#[trigger] a.pipeline@[i]).artifact_key@,
            ),
    ensures
        b.artifacts@.len() == a.artifacts@.len() + 1,
        b.artifacts@.last().value@ == value,
        b.artifacts@.last().stage == a.stage,
        b.artifacts@.last().key@ == crate::text::trimmed(a.pipeline@[entry].artifact_key@),
        a.stage == TaskStage::Planning ==> b.stage == a.stage && b.paused && b.pause_reason
            == TaskPauseReason::PlanApproval,
        a.stage != TaskStage::Planning && a.pipeline@[entry].requires_human_approval ==> b.stage
            == a.stage && b.paused && b.pause_reason == TaskPauseReason::StageApproval,
        !a.pipeline@[entry].requires_human_approval ==> {
            &&& a.stage == TaskStage::Clarify ==> b.stage == TaskStage::Planning && !b.paused
            &&& a.stage == TaskStage::Execution ==> b.stage == TaskStage::Validation && !b.paused
            &&& a.stage == TaskStage::Validation ==> b.stage == TaskStage::Done
                && b.validation_passed && !b.paused
        },
{
    lemma_every_entry_has_a_key(a.pipeline@, 0);
    lemma_first_entry(a.pipeline@, a.stage, 0, entry);
}

proof fn lemma_every_entry_has_a_key(pipeline: Seq<crate::chat::store::TaskPipelineStage>, from: int)
    requires
        0 <= from <= pipeline.len(),
        forall|i: int|
            0 <= i < pipeline.len() ==> !crate::text::blank((#[trigger] pipeline[i]).artifact_key@),
    ensures
        crate::chat::store::keyless_entry(pipeline, from) is None,
    decreases pipeline.len() - from,
{
    if from < pipeline.len() {
        lemma_every_entry_has_a_key(pipeline, from + 1);
    }
}

proof fn lemma_first_entry(
    pipeline: Seq<crate::chat::store::TaskPipelineStage>,
    stage: TaskStage,
    from: int,
    entry: int,
)
    requires
        0 <= from <= entry < pipeline.len(),
        pipeline[entry].stage == stage,
        forall|i: int| from <= i < entry ==> (#[trigger] pipeline[i]).stage != stage,
    ensures
        crate::chat::store::pipeline_entry(pipeline, stage, from) == Some(entry),
    decreases entry - from,
{
    if from < entry {
        lemma_first_entry(pipeline, stage, from + 1, entry);
    }
}

/// What is asked for out of turn is the work of a later stage: nothing after the
/// planning before the plan, no validation and no end before the work. Planning
/// from the start is no such request, nor is any stage that the task is at or
/// has left.
pub proof fn later_work_is_turned_down(current: TaskStage, requested: TaskStage)
    ensures
        asks_too_early(current, current) == false,
        requested == TaskStage::Clarify || requested == TaskStage::Planning ==> !asks_too_early(
            current,
            requested,
        ),
        requested == TaskStage::Execution ==> asks_too_early(current, requested) == (current
            == TaskStage::Clarify || current == TaskStage::Planning),
        requested == TaskStage::Validation ==> asks_too_early(current, requested) == (current
            == TaskStage::Clarify || current == TaskStage::Planning || current
            == TaskStage::Execution),
        requested == TaskStage::Done ==> asks_too_early(current, requested) == (current
            != TaskStage::Done),
{
}

/// Going over to another task loses none: the one that is left waits at the end
/// of the backlog, at its stage and with what it has gathered.
pub proof fn switching_loses_no_task(
    a: TaskBoard,
    b: TaskBoard,
    reading: PromptReading,
    prompt: Seq<char>,
    hint: Seq<char>,
)
    requires
        switched(a, b, reading, prompt, hint),
    ensures
        (reading.switch_back matches Some(i) && i < a.backlog@.len()) ==> {
            let i = reading.switch_back->0 as int;
            let chosen = a.backlog@[i];
            let left = b.backlog@[b.backlog@.len() - 1];
            &&& b.active.goal == chosen.goal && b.active.stage == chosen.stage && b.active.artifacts
                == chosen.artifacts && b.active.plan == chosen.plan && b.active.plan_approved
                == chosen.plan_approved && !b.active.paused
            &&& left.goal == a.active.goal && left.stage == a.active.stage && left.artifacts
                == a.active.artifacts && left.paused && left.plan_approved == a.active.plan_approved
            &&& b.backlog@.len() == a.backlog@.len()
        },
        (!(reading.switch_back matches Some(i) && i < a.backlog@.len()) && reading.starts_new) ==> {
            let left = b.backlog@[a.backlog@.len() as int];
            &&& b.backlog@.len() == a.backlog@.len() + 1
            &&& b.active.goal@ == crate::text::trimmed(prompt) && b.active.stage
                == TaskStage::Clarify && !b.active.plan_approved && b.active.artifacts@.len() == 0
                && !b.active.paused
            &&& left.goal == a.active.goal && left.stage == a.active.stage && left.artifacts
                == a.active.artifacts && left.paused && left.resume_hint@ == hint
            &&& forall|i: int|
                0 <= i < a.backlog@.len() ==> #[trigger] b.backlog@[i] == a.backlog@[i]
        },
        !reading.starts_new && reading.switch_back is None ==> b == a,
{
    assert forall|i: int|
        0 <= i < a.backlog@.len() && b.backlog@.len() == a.backlog@.len() + 1 && b.backlog@.drop_last()
            == a.backlog@ implies #[trigger] b.backlog@[i] == a.backlog@[i] by {
        assert(b.backlog@.drop_last()[i] == a.backlog@[i]);
    }
}

/// An item of a plan is its line without a bullet or a number before it: whatever
/// is written behind them is kept.
pub proof fn bullets_and_numbers_are_taken_off(item: Seq<char>)
    requires
        item.len() > 0,
        !crate::text::white_space(item[0]),
        !crate::text::white_space(item.last()),
        item[0] != '-' && item[0] != '*' && item[0] != '•' && item[0] != '.' && item[0] != ')',
        !('0' <= item[0] <= '9'),
    ensures
        plan_item(item) == item,
        plan_item("- "@ + item) == item,
        plan_item("1. "@ + item) == item,
        plan_item("2) "@ + item) == item,
{
    reveal_strlit("- ");
    reveal_strlit("1. ");
    reveal_strlit("2) ");
    lemma_plan_item(Seq::<char>::empty(), item);
    assert(Seq::<char>::empty() + item =~= item);
    assert("- "@ =~= seq!['-', ' ']);
    lemma_plan_item("- "@, item);
    lemma_plan_item("1. "@, item);
    lemma_plan_item("2) "@, item);
}

/// A bullet or a number with a space behind it, or nothing.
spec fn plan_mark(mark: Seq<char>) -> bool {
    mark.len() == 0 || mark == seq!['-', ' '] || (mark.len() == 3 && '0' <= mark[0] <= '9' && (mark[1]
        == '.' || mark[1] == ')') && mark[2] == ' ')
}

proof fn lemma_plan_item(mark: Seq<char>, item: Seq<char>)
    requires
        plan_mark(mark),
        item.len() > 0,
        !crate::text::white_space(item[0]),
        !crate::text::white_space(item.last()),
        item[0] != '-' && item[0] != '*' && item[0] != '•' && item[0] != '.' && item[0] != ')',
        !('0' <= item[0] <= '9'),
    ensures
        plan_item(mark + item) == item,
{
    let none = Seq::<char>::empty();
    let line = mark + item;
    let bullets = seq!['-', '*', '•'];
    let digits = seq!['0', '1', '2', '3', '4', '5', '6', '7', '8', '9', '.', ')'];
    assert(line.last() == item.last());
    crate::text::lemma_trimmed_already(line);
    crate::text::lemma_trimmed_already(item);
    lemma_no_bullet(item[0]);
    lemma_no_bullet(' ');
    if mark.len() == 0 {
        assert(line =~= item);
        assert(crate::text::strip_leading(item, bullets) == item);
        assert(crate::text::strip_leading(item, digits) == item);
    } else if mark.len() == 2 {
        assert(bullets[0] == '-');
        assert(line.skip(1)[0] == ' ');
        assert(crate::text::strip_leading(line, bullets) == crate::text::strip_leading(
            line.skip(1),
            bullets,
        ));
        assert(crate::text::strip_leading(line.skip(1), bullets) == line.skip(1));
        assert(crate::text::strip_leading(line.skip(1), digits) == line.skip(1));
        crate::text::lemma_trimmed_around(seq![' '], item, none);
        assert(line.skip(1) =~= seq![' '] + item + none);
    } else {
        lemma_digit_is_stripped(mark[0]);
        lemma_digit_is_stripped(mark[1]);
        assert(!bullets.contains(mark[0])) by {
            lemma_digit_is_no_bullet(mark[0]);
        }
        assert(crate::text::strip_leading(line, bullets) == line);
        let one = line.skip(1);
        let two = one.skip(1);
        assert(one[0] == mark[1]);
        assert(two[0] == ' ');
        assert(crate::text::strip_leading(line, digits) == crate::text::strip_leading(one, digits));
        assert(crate::text::strip_leading(one, digits) == crate::text::strip_leading(two, digits));
        assert(crate::text::strip_leading(two, digits) == two);
        crate::text::lemma_trimmed_around(seq![' '], item, none);
        assert(two =~= seq![' '] + item + none);
    }
}

proof fn lemma_no_bullet(c: char)
    requires
        c != '-' && c != '*' && c != '•' && c != '.' && c != ')' && !('0' <= c <= '9'),
    ensures
        !seq!['-', '*', '•'].contains(c),
        !seq!['0', '1', '2', '3', '4', '5', '6', '7', '8', '9', '.', ')'].contains(c),
{
}

proof fn lemma_digit_is_no_bullet(c: char)
    requires
        '0' <= c <= '9',
    ensures
        !seq!['-', '*', '•'].contains(c),
{
}

proof fn lemma_digit_is_stripped(c: char)
    requires
        '0' <= c <= '9' || c == '.' || c == ')',
    ensures
        seq!['0', '1', '2', '3', '4', '5', '6', '7', '8', '9', '.', ')'].contains(c),
{
    let all = seq!['0', '1', '2', '3', '4', '5', '6', '7', '8', '9', '.', ')'];
    if c == '.' {
        assert(all[10] == c);
    } else if c == ')' {
        assert(all[11] == c);
    } else {
        let k = c as int - 48;
        assert(0 <= k <= 9);
        assert(all[k] == c);
    }
}

/// A plan has twelve items at most, none of them empty, and each stands in the
/// answer that it was made from.
pub proof fn plans_are_made_from_the_answer(answer: Seq<char>, i: int)
    requires
        0 <= i < plan_items(answer).len(),
    ensures
        plan_items(answer).len() <= 12,
        plan_items(answer)[i].len() > 0,
        crate::text::contains_text(answer, plan_items(answer)[i]),
{
    let lines = crate::text::split_any_of(answer, seq!['\n']);
    let all = plan_item_lines(lines);
    let items = crate::text::non_empty(all);
    let item = plan_items(answer)[i];
    assert(items[i] == item);
    assert(items.contains(item));
    crate::text::lemma_non_empty_is_there(all, item);
    let k = choose|k: int| 0 <= k < all.len() && all[k] == item;
    crate::text::pieces_stand_in_their_text(answer, seq!['\n'], k);
    lemma_item_stands_in_line(lines[k]);
    crate::text::lemma_occurs_through(item, lines[k], answer);
}

proof fn lemma_item_stands_in_line(line: Seq<char>)
    ensures
        crate::text::contains_text(line, plan_item(line)),
{
    let a = crate::text::trimmed(line);
    let b = crate::text::strip_leading(a, seq!['-', '*', '•']);
    let c = crate::text::strip_leading(
        b,
        seq!['0', '1', '2', '3', '4', '5', '6', '7', '8', '9', '.', ')'],
    );
    let d = crate::text::trimmed(c);
    crate::text::lemma_trimmed_stands(line);
    crate::text::lemma_stripped_stands(a, seq!['-', '*', '•']);
    crate::text::lemma_stripped_stands(
        b,
        seq!['0', '1', '2', '3', '4', '5', '6', '7', '8', '9', '.', ')'],
    );
    crate::text::lemma_trimmed_stands(c);
    crate::text::lemma_occurs_through(d, c, b);
    crate::text::lemma_occurs_through(d, b, a);
    crate::text::lemma_occurs_through(d, a, line);
}

/// White space around a message does not change what it means for a task.
pub proof fn white_space_around_a_message_means_nothing(
    before: Seq<char>,
    message: Seq<char>,
    after: Seq<char>,
)
    requires
        forall|k: int| 0 <= k < before.len() ==> crate::text::white_space(#[trigger] before[k]),
        forall|k: int| 0 <= k < after.len() ==> crate::text::white_space(#[trigger] after[k]),
    ensures
        control_intent(before + message + after) == control_intent(message),
{
    crate::text::lemma_trimmed_around(before, message, after);
}

/// What is told to go on with tells the stage that keeps the task and why.
pub proof fn blocks_tell_stage_and_reason(stage: TaskStage, reason: Seq<char>)
    ensures
        crate::text::one_after_other(
            block_message(stage, reason),
            crate::chat::store::stage_name(stage),
            reason,
        ),
{
    crate::text::lemma_one_after_other(
        "⛔ Нельзя перейти дальше со стадии `"@,
        crate::chat::store::stage_name(stage),
        "`.\n\n"@,
        reason,
        "\n\nСледующее допустимое действие задаётся lifecycle-панелью задачи."@,
    );
}

proof fn lemma_joined_characters(words: Seq<Seq<char>>, k: int)
    requires
        0 <= k < crate::text::joined(words, seq![' ']).len(),
    ensures
        ({
            let c = crate::text::joined(words, seq![' '])[k];
            c == ' ' || exists|i: int| 0 <= i < words.len() && (#[trigger] words[i]).contains(c)
        }),
    decreases words.len(),
{
    let whole = crate::text::joined(words, seq![' ']);
    let c = whole[k];
    if words.len() == 1 {
        assert(words[0][k] == c);
        assert(words[0].contains(c));
    } else if words.len() > 1 {
        let rest = words.drop_last();
        let head = crate::text::joined(rest, seq![' ']);
        if k < head.len() {
            lemma_joined_characters(rest, k);
            assert(head[k] == c);
            if c != ' ' {
                let i = choose|i: int| 0 <= i < rest.len() && (#[trigger] rest[i]).contains(c);
                assert(words[i].contains(c));
            }
        } else if k > head.len() {
            let last = words[words.len() - 1];
            assert(last[k - head.len() - 1] == c);
            assert(words[words.len() - 1].contains(c));
        }
    }
}

/// What a message comes to is made of letters and digits with spaces between them,
/// and of nothing else.
pub proof fn messages_come_to_letters_and_digits(value: Seq<char>, k: int)
    requires
        0 <= k < control_intent(value).len(),
    ensures
        control_intent(value)[k] == ' ' || crate::text::alphanumeric(control_intent(value)[k]),
{
    reveal_strlit(" ");
    assert(" "@ =~= seq![' ']);
    let lower = crate::text::lowercase(crate::text::trimmed(value));
    let spaced = lower.map_values(|c: char| control_char(c));
    let words = crate::text::words_of(spaced);
    lemma_joined_characters(words, k);
    let c = control_intent(value)[k];
    if c != ' ' {
        let i = choose|i: int| 0 <= i < words.len() && (#[trigger] words[i]).contains(c);
        let word = words[i];
        assert(words.contains(word));
        crate::text::words_hold_no_white_space(spaced, word);
        crate::text::words_stand_in_their_text(spaced, word);
        let j = choose|j: int| 0 <= j < word.len() && word[j] == c;
        let at = choose|at: int| crate::text::occurs_at(spaced, word, at);
        assert(spaced.subrange(at, at + word.len())[j] == spaced[at + j]);
        assert(!crate::text::white_space(c));
        assert(c == control_char(lower[at + j]));
    }
}

/// A message of one word is that word in lower case, and of two words with any
/// sign between them those two with a space.
pub proof fn words_of_a_message_stay(value: Seq<char>, at: int)
    requires
        ({
            let lower = crate::text::lowercase(crate::text::trimmed(value));
            &&& lower.len() > 0
            &&& 0 < at <= lower.len()
            &&& at != lower.len() - 1
            &&& forall|k: int|
                0 <= k < lower.len() && k != at ==> crate::text::alphanumeric(#[trigger] lower[k])
                    && !crate::text::white_space(lower[k])
            &&& at < lower.len() ==> !crate::text::alphanumeric(lower[at])
                && !crate::text::white_space(lower[at])
        }),
    ensures
        ({
            let lower = crate::text::lowercase(crate::text::trimmed(value));
            &&& at == lower.len() ==> control_intent(value) == lower
            &&& at < lower.len() ==> control_intent(value) == lower.take(at) + " "@ + lower.skip(
                at + 1,
            )
        }),
{
    reveal_strlit(" ");
    let lower = crate::text::lowercase(crate::text::trimmed(value));
    let spaced = lower.map_values(|c: char| control_char(c));
    let none = Seq::<Seq<char>>::empty();
    if at == lower.len() {
        assert(spaced =~= lower);
        crate::text::lemma_one_word(lower);
        assert(seq![lower].drop_last() =~= none);
        assert(crate::text::joined(seq![lower], " "@) =~= lower);
    } else {
        assert(spaced[at] == ' ');
        assert forall|k: int| 0 <= k < spaced.len() && k != at implies !crate::text::white_space(
            #[trigger] spaced[k],
        ) by {
            assert(spaced[k] == lower[k]);
        }
        crate::text::lemma_two_words(spaced, at);
        let a = lower.take(at);
        let b = lower.skip(at + 1);
        assert(spaced.take(at) =~= a);
        assert(spaced.skip(at + 1) =~= b);
        let both = seq![a, b];
        assert(both.drop_last() =~= seq![a]);
        assert(seq![a].drop_last() =~= none);
        assert(crate::text::joined(seq![a], " "@) =~= a);
        assert(crate::text::joined(both, " "@) =~= a + " "@ + b);
    }
}

/// A task that waits says what it waits for, and what it says to write ends the
/// waiting.
pub proof fn waiting_tasks_say_what_ends_the_waiting()
    ensures
        crate::text::contains_text(
            approval_request(TaskPauseReason::StageApproval),
            "утверждаю результат"@,
        ),
        approves("утверждаю результат"@, TaskPauseReason::StageApproval),
        crate::text::contains_text(resume_request(), "продолжай"@),
        resumes("продолжай"@),
        crate::text::contains_text(approval_request(TaskPauseReason::PlanApproval), "План"@),
        crate::text::contains_text(
            approval_request(TaskPauseReason::PlanApproval),
            "подтвердите своими словами"@,
        ),
        approves("да"@, TaskPauseReason::PlanApproval),
{
    let a = "Артефакт ожидает явного утверждения. Напишите «утверждаю результат»."@;
    reveal_strlit("Артефакт ожидает явного утверждения. Напишите «утверждаю результат».");
    reveal_strlit("утверждаю результат");
    assert(a.subrange(47, 66) =~= "утверждаю результат"@);
    assert(crate::text::occurs_at(a, "утверждаю результат"@, 47));
    let b = "Задача на паузе. Напишите «продолжай», чтобы возобновить её."@;
    reveal_strlit("Задача на паузе. Напишите «продолжай», чтобы возобновить её.");
    reveal_strlit("продолжай");
    assert(b.subrange(27, 36) =~= "продолжай"@);
    assert(crate::text::occurs_at(b, "продолжай"@, 27));
    let c = "План ожидает подтверждения. Если вы согласны с ним, подтвердите своими словами."@;
    reveal_strlit(
        "План ожидает подтверждения. Если вы согласны с ним, подтвердите своими словами.",
    );
    reveal_strlit("План");
    reveal_strlit("подтвердите своими словами");
    assert(c.subrange(0, 4) =~= "План"@);
    assert(crate::text::occurs_at(c, "План"@, 0));
    assert(c.subrange(52, 78) =~= "подтвердите своими словами"@);
    assert(crate::text::occurs_at(c, "подтвердите своими словами"@, 52));
    reveal_strlit("да");
    crate::text::lemma_one_word("да"@);
    assert(crate::text::words_of("да"@)[0] == "да"@);
}

/// What a stage reports is its artifact as it is, or, where it has none, a note
/// under the name of the stage that says something.
pub proof fn a_stage_always_reports_something(
    stage: TaskStage,
    artifact: Option<(String, String)>,
)
    ensures
        artifact matches Some((key, value)) ==> reported(stage, artifact) == (key@, value@),
        artifact is None ==> reported(stage, artifact).0 == crate::chat::store::stage_name(stage)
            && !crate::text::blank(reported(stage, artifact).1),
        crate::text::contains_text(empty_result(stage), crate::chat::store::stage_name(stage)),
{
    let note = "Stage responder returned no artifact."@;
    reveal_strlit("Stage responder returned no artifact.");
    crate::text::trimming_takes_off_white_space_alone(note);
    assert(!crate::text::white_space(note[0]));
    crate::text::lemma_part_occurs(
        "Стадия "@,
        crate::chat::store::stage_name(stage),
        " не завершена: результат пуст."@,
    );
}

/// Going back to a waiting task leaves the order of the others as it was.
pub proof fn switching_keeps_the_order_of_the_others(
    a: TaskBoard,
    b: TaskBoard,
    reading: PromptReading,
    prompt: Seq<char>,
    hint: Seq<char>,
    j: int,
)
    requires
        switched(a, b, reading, prompt, hint),
        reading.switch_back is Some,
        reading.switch_back->0 < a.backlog@.len(),
        0 <= j < a.backlog@.len(),
    ensures
        j < reading.switch_back->0 ==> b.backlog@[j] == a.backlog@[j],
        j > reading.switch_back->0 ==> b.backlog@[j - 1] == a.backlog@[j],
{
    let i = reading.switch_back->0 as int;
    let rest = a.backlog@.remove(i);
    if j < i {
        assert(b.backlog@.drop_last()[j] == rest[j]);
    } else if j > i {
        assert(b.backlog@.drop_last()[j - 1] == rest[j - 1]);
    }
}

/// A board is in order where each of its tasks has what its stage presupposes: an
/// approved plan from the work on, and a passed validation at the end.
pub proof fn every_task_of_a_board_is_gated(board: TaskBoard, i: int)
    requires
        all_gated(board),
        0 <= i < board.backlog@.len(),
    ensures
        board.active.stage == TaskStage::Execution || board.active.stage == TaskStage::Validation
            || board.active.stage == TaskStage::Done ==> board.active.plan_approved,
        board.active.stage == TaskStage::Done ==> board.active.validation_passed,
        board.backlog@[i].stage == TaskStage::Execution ==> board.backlog@[i].plan_approved,
        board.backlog@[i].stage == TaskStage::Done ==> board.backlog@[i].validation_passed
            && board.backlog@[i].plan_approved,
{
    assert(crate::chat::store::gated(board.backlog@[i]));
}

} // verus!
