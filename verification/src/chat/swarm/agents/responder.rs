//! The responders: one for each stage of a task, and the general one. A stage
//! says that its work is done by a marker on a last line of its own; which
//! stage comes next, code decides.
use vstd::prelude::*;

use crate::chat::store::TaskWorkerAgent;
use crate::chat::swarm::agent::SubAgentOutcome;
use crate::chat::swarm::config::SubAgentRole;
use crate::chat::swarm::runtime::ResolvedSwarm;
use crate::chat::swarm::SwarmRunRecord;
use crate::providers::{RequestMetrics, ResponseControl};
use crate::text::{cat2, cat3, chars_of, contains, is_blank, same, trim, trim_end, truncate};

verus! {

broadcast use vstd::string::group_string_axioms;

/// The marker with which a stage says that it is complete.
pub const STAGE_DONE_MARKER: &'static str = "<<STAGE_DONE>>";

/// The responder of a stage.
#[derive(Debug, Clone, Copy, PartialEq, Eq, Structural)]
pub struct StageAgent {
    pub role: SubAgentRole,
}

impl StageAgent {
    /// The responder of the stage of `role`.
    pub fn new(role: SubAgentRole) -> (r: Self)
        requires
            crate::chat::swarm::config::stage_role(role),
        ensures
            r.role == role,
    {
        StageAgent { role }
    }
}

/// The responder of a chat without a task.
#[derive(Debug, Clone, Copy, PartialEq, Eq, Structural)]
pub struct GeneralAgent;

/// The instruction of a stage.
pub open spec fn rules_of(role: SubAgentRole) -> Option<Seq<char>> {
    match role {
        SubAgentRole::Planning => Some(
            "Ты на стадии PLANNING. Собери требования и предложи утверждённый план. Не пиши финальный код. Когда план готов и согласован — заверши ответ ОТДЕЛЬНОЙ последней строкой <<STAGE_DONE>>."@,
        ),
        SubAgentRole::Execution => Some(
            "Ты на стадии EXECUTION. Работай в рамках текущего шага плана. Если данных не хватает — НЕ блокируй подготовку: дай полезный черновик с явными плейсхолдерами в квадратных скобках (например [номер договора], [дата], [сумма]) и отдельным списком 'что проверить'. Неизвестные значения (даты, номера, суммы, нормы права) оставляй плейсхолдером, не выдумывай. Не переноси известный срок оплаты по договору на срок исполнения претензии: если срок требования пользователь не назвал, пиши [срок требования]. Не добавляй придуманные примеры дат внутрь плейсхолдеров. Когда черновик готов — заверши ответ ОТДЕЛЬНОЙ последней строкой <<STAGE_DONE>>."@,
        ),
        SubAgentRole::Validation => Some(
            "Ты на стадии VALIDATION. Проверь результат: риски, пробелы, соответствие плану. Отдели подтверждённые факты от предположений. Когда проверка пройдена — заверши ответ ОТДЕЛЬНОЙ последней строкой <<STAGE_DONE>>."@,
        ),
        SubAgentRole::Done => Some(
            "Ты на стадии DONE. Кратко перечисли: что готово, что отправляем, какие приложения, что проверить перед отправкой. Задача завершена, дальнейших переходов нет."@,
        ),
        _ => None,
    }
}

/// The instruction of a stage.
pub fn stage_rules(role: SubAgentRole) -> (r: Option<&'static str>)
    ensures
        match r {
            Some(rules) => rules_of(role) == Some(rules@),
            None => rules_of(role) is None,
        },
{
    match role {
        SubAgentRole::Planning => Some(
            "Ты на стадии PLANNING. Собери требования и предложи утверждённый план. Не пиши финальный код. Когда план готов и согласован — заверши ответ ОТДЕЛЬНОЙ последней строкой <<STAGE_DONE>>.",
        ),
        SubAgentRole::Execution => Some(
            "Ты на стадии EXECUTION. Работай в рамках текущего шага плана. Если данных не хватает — НЕ блокируй подготовку: дай полезный черновик с явными плейсхолдерами в квадратных скобках (например [номер договора], [дата], [сумма]) и отдельным списком 'что проверить'. Неизвестные значения (даты, номера, суммы, нормы права) оставляй плейсхолдером, не выдумывай. Не переноси известный срок оплаты по договору на срок исполнения претензии: если срок требования пользователь не назвал, пиши [срок требования]. Не добавляй придуманные примеры дат внутрь плейсхолдеров. Когда черновик готов — заверши ответ ОТДЕЛЬНОЙ последней строкой <<STAGE_DONE>>.",
        ),
        SubAgentRole::Validation => Some(
            "Ты на стадии VALIDATION. Проверь результат: риски, пробелы, соответствие плану. Отдели подтверждённые факты от предположений. Когда проверка пройдена — заверши ответ ОТДЕЛЬНОЙ последней строкой <<STAGE_DONE>>.",
        ),
        SubAgentRole::Done => Some(
            "Ты на стадии DONE. Кратко перечисли: что готово, что отправляем, какие приложения, что проверить перед отправкой. Задача завершена, дальнейших переходов нет.",
        ),
        _ => None,
    }
}

/// What a responder is told of its role: the prompt that is configured for it,
/// and the rules of its stage.
pub open spec fn rules_for(roster: ResolvedSwarm, role: SubAgentRole) -> Option<Seq<char>> {
    let own = match crate::chat::swarm::runtime::agent_for(roster@, role, 0) {
        Some(i) => crate::text::trimmed(roster@[i].system_prompt@),
        None => Seq::empty(),
    };
    if own.len() == 0 {
        rules_of(role)
    } else {
        match rules_of(role) {
            Some(rules) => Some(own + "\n\n"@ + rules),
            None => Some(own),
        }
    }
}

/// What a responder is told of its role: the prompt that is configured for it,
/// and the rules of its stage.
pub fn resolved_stage_rules(roster: &ResolvedSwarm, role: SubAgentRole) -> (r: Option<String>)
    ensures
        crate::text::option_text(r) == rules_for(*roster, role),
{
    let own = match roster.for_role(role) {
        Some(agent) => trim(agent.system_prompt.as_str()),
        None => {
            proof {
                reveal_strlit("");
            }
            assert(""@ =~= Seq::<char>::empty());
            ""
        },
    };
    match stage_rules(role) {
        Some(rules) => if own.is_empty() {
            Some(rules.to_string())
        } else {
            Some(cat3(own, "\n\n", rules))
        },
        None => if own.is_empty() {
            None
        } else {
            Some(own.to_string())
        },
    }
}

/// The last line of `s`: what follows its last line break.
pub open spec fn last_line(s: Seq<char>) -> Seq<char>
    decreases s.len(),
{
    if s.len() == 0 || s.last() == '\n' {
        Seq::empty()
    } else {
        last_line(s.drop_last()).push(s.last())
    }
}

/// What a line that is a marker names as the key of the artifact: nothing for
/// the bare marker. None for a line that is no marker.
pub open spec fn marker_key(line: Seq<char>) -> Option<Seq<char>> {
    if line == STAGE_DONE_MARKER@ {
        Some(Seq::empty())
    } else if line.len() >= 15 && line.take(13) == "<<STAGE_DONE:"@ && line.skip(line.len() - 2)
        == ">>"@ {
        Some(crate::text::trimmed(line.subrange(13, line.len() - 2)))
    } else {
        None
    }
}

/// What a reply comes to: the answer, whether its stage is complete, and the
/// key that the marker names. Only a marker on a last line of its own counts.
pub open spec fn parsed_reply(text: Seq<char>) -> (Seq<char>, bool, Seq<char>) {
    let t = crate::text::trim_end_of(text);
    let line = last_line(t);
    match marker_key(crate::text::trimmed(line)) {
        Some(key) => (crate::text::trimmed(t.take(t.len() - line.len())), true, key),
        None => (crate::text::trimmed(text), false, Seq::empty()),
    }
}

proof fn lemma_last_line_at(s: Seq<char>, i: int)
    requires
        0 <= i <= s.len(),
        i > 0 ==> s[i - 1] == '\n',
        forall|j: int| i <= j < s.len() ==> s[j] != '\n',
    ensures
        last_line(s) == s.skip(i),
    decreases s.len(),
{
    if i < s.len() {
        lemma_last_line_at(s.drop_last(), i);
        assert(s.drop_last().skip(i).push(s.last()) =~= s.skip(i));
    } else {
        assert(s.skip(i) =~= Seq::<char>::empty());
    }
}

fn key_of_marker(line: &str) -> (r: Option<String>)
    ensures
        crate::text::option_text(r) == marker_key(line@),
{
    if same(line, STAGE_DONE_MARKER) {
        let r = String::new();
        assert(r@ =~= Seq::<char>::empty());
        return Some(r);
    }
    let n: usize = line.unicode_len();
    if n < 15 {
        return None;
    }
    assert(line@.subrange(0, 13) =~= line@.take(13));
    assert(line@.subrange(n - 2, n as int) =~= line@.skip(n - 2));
    if same(line.substring_char(0, 13), "<<STAGE_DONE:") && same(
        line.substring_char(n - 2, n),
        ">>",
    ) {
        Some(trim(line.substring_char(13, n - 2)).to_string())
    } else {
        None
    }
}

/// Takes the marker off a reply. Returns the answer, whether the stage is
/// complete, and the key that the marker names.
pub fn strip_stage_marker(text: &str) -> (r: (String, bool, String))
    ensures
        (r.0@, r.1, r.2@) == parsed_reply(text@),
{
    let t = trim_end(text);
    let cs = chars_of(t);
    let n: usize = cs.len();
    let mut i: usize = n;
    while i > 0 && cs[i - 1] != '\n'
        invariant
            cs@ == t@,
            n == cs.len(),
            i <= n,
            forall|j: int| i <= j < n ==> t@[j] != '\n',
        decreases i,
    {
        i = i - 1;
    }
    proof {
        lemma_last_line_at(t@, i as int);
        assert(t@.subrange(i as int, n as int) =~= t@.skip(i as int));
        assert(t@.subrange(0, i as int) =~= t@.take(i as int));
    }
    match key_of_marker(trim(t.substring_char(i, n))) {
        Some(key) => (trim(t.substring_char(0, i)).to_string(), true, key),
        None => {
            let none = String::new();
            assert(none@ =~= Seq::<char>::empty());
            (trim(text).to_string(), false, none)
        },
    }
}

/// A reply without a line break at all is complete only where it is nothing but
/// the marker: a marker inside a sentence is no signal.
pub proof fn inline_marker_is_no_signal(text: Seq<char>)
    requires
        forall|i: int| 0 <= i < text.len() ==> text[i] != '\n',
        marker_key(crate::text::trimmed(crate::text::trim_end_of(text))) is None,
    ensures
        !parsed_reply(text).1,
{
    let t = crate::text::trim_end_of(text);
    lemma_trim_end_prefix(text);
    lemma_last_line_at(t, 0);
    assert(t.skip(0) =~= t);
}

proof fn lemma_trim_end_prefix(s: Seq<char>)
    ensures
        crate::text::trim_end_of(s).len() <= s.len(),
        crate::text::trim_end_of(s) == s.take(crate::text::trim_end_of(s).len() as int),
    decreases s.len(),
{
    if s.len() > 0 && crate::text::white_space(s.last()) {
        lemma_trim_end_prefix(s.drop_last());
        let k = crate::text::trim_end_of(s).len() as int;
        assert(s.drop_last().take(k) =~= s.take(k));
    } else {
        assert(s.take(s.len() as int) =~= s);
    }
}

/// Whether a text could make a model end with the marker.
pub open spec fn names_marker(text: Option<String>) -> bool {
    text matches Some(t) && crate::text::contains_text(t@, "<<STAGE_DONE"@)
}

fn mentions_marker(text: &Option<String>) -> (r: bool)
    ensures
        r == names_marker(*text),
{
    match text {
        Some(t) => contains(t.as_str(), "<<STAGE_DONE"),
        None => false,
    }
}

/// Whether `r` is `control` without what would have a stage complete itself: a
/// suffix or an instruction that names the marker is dropped.
pub open spec fn safe_control(
    control: ResponseControl,
    role: SubAgentRole,
    r: ResponseControl,
) -> bool {
    let stage = crate::chat::swarm::config::stage_role(role);
    &&& crate::providers::same_sampling(r, control)
    &&& r.answer_suffix == (if stage && names_marker(control.answer_suffix) {
        None
    } else {
        control.answer_suffix
    })
    &&& r.completion_instruction == (if stage && names_marker(control.completion_instruction) {
        None
    } else {
        control.completion_instruction
    })
}

/// The control that a responder's request is made with: of a stage, neither the
/// suffix of the answer nor the instruction on when to finish may name the
/// marker.
pub fn lifecycle_safe_control(control: &ResponseControl, role: SubAgentRole) -> (r: ResponseControl)
    ensures
        safe_control(*control, role, r),
        crate::chat::swarm::config::stage_role(role) ==> !names_marker(r.answer_suffix)
            && !names_marker(r.completion_instruction),
{
    let mut safe = control.clone();
    if role.is_stage() {
        if mentions_marker(&control.answer_suffix) {
            safe.answer_suffix = None;
        }
        if mentions_marker(&control.completion_instruction) {
            safe.completion_instruction = None;
        }
    }
    safe
}

/// Whether an outcome is what a responder's reply comes to.
pub open spec fn responded(
    outcome: SubAgentOutcome,
    role: SubAgentRole,
    text: Seq<char>,
    metrics: RequestMetrics,
) -> bool {
    let (answer, complete, key) = parsed_reply(text);
    &&& crate::text::option_text(outcome.answer) == Some(answer)
    &&& outcome.stage_complete == (complete && crate::chat::swarm::config::stage_role(role))
    &&& if complete {
        outcome.artifact matches Some((k, v)) && k@ == (if key.len() == 0 {
            crate::chat::swarm::config::role_name(role)
        } else {
            key
        }) && v@ == crate::text::taken(crate::text::trimmed(answer), 280)
    } else {
        outcome.artifact is None
    }
    &&& outcome.violations@.len() == 0
    &&& outcome.invariant_status == crate::chat::swarm::agent::InvariantCheckStatus::NotRun
    &&& !outcome.short_circuit
    &&& outcome.metrics == Some(metrics)
}

/// What a responder brings back from its reply: the answer, and, where the
/// stage is complete, its artifact. A failed request brings back nothing.
pub fn responder_outcome(role: SubAgentRole, reply: Option<(String, RequestMetrics)>) -> (r:
    SubAgentOutcome)
    ensures
        match reply {
            Some((text, metrics)) => responded(r, role, text@, metrics),
            None => crate::chat::swarm::agent::idle(r),
        },
{
    match reply {
        None => SubAgentOutcome::default(),
        Some((text, metrics)) => {
            let (answer, complete, key) = strip_stage_marker(text.as_str());
            let artifact = if complete {
                let key = if key.as_str().is_empty() {
                    role.as_str().to_string()
                } else {
                    key
                };
                let value = truncate(answer.as_str(), 280);
                Some((key, value))
            } else {
                None
            };
            SubAgentOutcome {
                answer: Some(answer),
                stage_complete: complete && role.is_stage(),
                artifact,
                metrics: Some(metrics),
                ..SubAgentOutcome::default()
            }
        },
    }
}

/// The record of a responder's request.
pub fn responder_record(role: SubAgentRole, model: &str, metrics: Option<RequestMetrics>) -> (r:
    SwarmRunRecord)
    ensures
        crate::chat::swarm::tells(r, role, model@, metrics, "responder error"@, None),
{
    SwarmRunRecord::finished(role, model, metrics, "responder error")
}

/// The key of what a pipeline worker produces.
pub open spec fn worker_key(id: Seq<char>) -> Seq<char> {
    "worker."@ + crate::text::trimmed(id)
}

/// What a pipeline worker brings back: its text as an artifact under its own
/// key. A failed request and an empty text bring back no artifact; a worker
/// never completes a stage.
pub fn worker_outcome(worker: &TaskWorkerAgent, reply: Option<(String, RequestMetrics)>) -> (r:
    SubAgentOutcome)
    ensures
        !r.stage_complete,
        r.answer is None,
        !r.short_circuit,
        r.violations@.len() == 0,
        r.invariant_status == crate::chat::swarm::agent::InvariantCheckStatus::NotRun,
        match reply {
            Some((text, metrics)) => {
                &&& r.metrics == Some(metrics)
                &&& if crate::text::blank(parsed_reply(text@).0) {
                    r.artifact is None
                } else {
                    r.artifact matches Some((k, v)) && k@ == worker_key(worker.id@) && v@
                        == parsed_reply(text@).0
                }
            },
            None => r.artifact is None && r.metrics is None,
        },
{
    match reply {
        None => SubAgentOutcome::default(),
        Some((text, metrics)) => {
            let (answer, _, _) = strip_stage_marker(text.as_str());
            let artifact = if is_blank(answer.as_str()) {
                None
            } else {
                let key = cat2("worker.", trim(worker.id.as_str()));
                Some((key, answer))
            };
            SubAgentOutcome { artifact, metrics: Some(metrics), ..SubAgentOutcome::default() }
        },
    }
}

/// The record of a pipeline worker's request.
pub fn worker_record(worker: &TaskWorkerAgent, model: &str, metrics: Option<RequestMetrics>) -> (r:
    SwarmRunRecord)
    ensures
        crate::chat::swarm::tells(
            r,
            SubAgentRole::Worker,
            model@,
            metrics,
            "no response"@,
            Some(crate::text::trimmed(worker.id@)),
        ),
{
    let mut record = SwarmRunRecord::finished(SubAgentRole::Worker, model, metrics, "no response");
    record.agent_id = Some(trim(worker.id.as_str()).to_string());
    record
}

proof fn lemma_marked_reply(body: Seq<char>, line: Seq<char>)
    requires
        line.len() > 0,
        !crate::text::white_space(line[0]),
        !crate::text::white_space(line.last()),
        forall|i: int| 0 <= i < line.len() ==> line[i] != '\n',
        marker_key(line) is Some,
    ensures
        parsed_reply(body + seq!['\n'] + line) == (
            crate::text::trimmed(body),
            true,
            marker_key(line)->0,
        ),
{
    let none = Seq::<char>::empty();
    let text = body + seq!['\n'] + line;
    assert(text.last() == line.last());
    assert(crate::text::trim_end_of(text) == text);
    let at = body.len() as int + 1;
    lemma_last_line_at(text, at);
    assert(text.skip(at) =~= line);
    crate::text::lemma_trimmed_already(line);
    assert(text.take(text.len() - line.len()) =~= none + body + seq!['\n']);
    crate::text::lemma_trimmed_around(none, body, seq!['\n']);
}

/// An answer with the marker on a line of its own at the end finishes its stage:
/// the marker is taken off, and all that stands above it is the answer.
pub proof fn a_marker_on_its_own_line_finishes_the_stage(body: Seq<char>)
    ensures
        parsed_reply(body + "\n<<STAGE_DONE>>"@) == (
            crate::text::trimmed(body),
            true,
            Seq::<char>::empty(),
        ),
{
    reveal_strlit("\n<<STAGE_DONE>>");
    reveal_strlit("<<STAGE_DONE>>");
    let line = "<<STAGE_DONE>>"@;
    assert("\n<<STAGE_DONE>>"@ =~= seq!['\n'] + line);
    assert(body + "\n<<STAGE_DONE>>"@ =~= body + seq!['\n'] + line);
    assert(STAGE_DONE_MARKER@ == line);
    lemma_marked_reply(body, line);
}

/// A marker that names a key hands the key over, without the white space around
/// it.
pub proof fn a_marker_names_its_key(body: Seq<char>, key: Seq<char>)
    requires
        forall|i: int| 0 <= i < key.len() ==> key[i] != '\n',
    ensures
        parsed_reply(body + "\n<<STAGE_DONE:"@ + key + ">>"@) == (
            crate::text::trimmed(body),
            true,
            crate::text::trimmed(key),
        ),
{
    reveal_strlit("\n<<STAGE_DONE:");
    reveal_strlit("<<STAGE_DONE:");
    reveal_strlit("<<STAGE_DONE>>");
    reveal_strlit(">>");
    let line = "<<STAGE_DONE:"@ + key + ">>"@;
    assert(body + "\n<<STAGE_DONE:"@ + key + ">>"@ =~= body + seq!['\n'] + line);
    assert(line.take(13) =~= "<<STAGE_DONE:"@);
    assert(line.skip(line.len() - 2) =~= ">>"@);
    assert(line.subrange(13, line.len() - 2) =~= key);
    assert(line[12] == ':');
    assert("<<STAGE_DONE>>"@[12] == '>');
    assert(line != STAGE_DONE_MARKER@);
    lemma_marked_reply(body, line);
}

/// An answer that holds no «<» has no marker: it is given as it is, trimmed, and
/// finishes nothing.
pub proof fn an_answer_without_a_marker_finishes_nothing(text: Seq<char>)
    requires
        forall|i: int| 0 <= i < text.len() ==> text[i] != '<',
    ensures
        parsed_reply(text) == (crate::text::trimmed(text), false, Seq::<char>::empty()),
{
    reveal_strlit("<<STAGE_DONE:");
    reveal_strlit("<<STAGE_DONE>>");
    let t = crate::text::trim_end_of(text);
    lemma_trim_end_prefix(text);
    let line = last_line(t);
    lemma_last_line_within(t, '<');
    let r = crate::text::trimming_takes_off_white_space_alone(line);
    let inner = crate::text::trimmed(line);
    if inner.len() > 0 {
        assert(inner[0] == line[r.0]);
        assert(inner[0] != '<');
        assert("<<STAGE_DONE>>"@[0] == '<');
        if inner.len() >= 15 {
            assert(inner.take(13)[0] == inner[0]);
            assert("<<STAGE_DONE:"@[0] == '<');
        }
    } else {
        assert("<<STAGE_DONE>>"@.len() == 14);
    }
}

proof fn lemma_last_line_within(s: Seq<char>, c: char)
    requires
        forall|i: int| 0 <= i < s.len() ==> s[i] != c,
    ensures
        forall|i: int| 0 <= i < last_line(s).len() ==> last_line(s)[i] != c,
    decreases s.len(),
{
    if s.len() > 0 && s.last() != '\n' {
        let rest = s.drop_last();
        assert forall|i: int| 0 <= i < rest.len() implies rest[i] != c by {
            assert(rest[i] == s[i]);
        }
        lemma_last_line_within(rest, c);
        let line = last_line(rest);
        assert(last_line(s) == line.push(s.last()));
        assert forall|i: int| 0 <= i < last_line(s).len() implies last_line(s)[i] != c by {
            if i < line.len() {
                assert(line.push(s.last())[i] == line[i]);
            } else {
                assert(s[s.len() - 1] != c);
            }
        }
    }
}

/// Only the agent of a stage can finish it; what it finishes with is an artifact
/// that holds its answer, cut to a length that can be kept. Every answer is
/// handed on, with what its request took.
pub proof fn only_stage_agents_finish_stages(
    outcome: SubAgentOutcome,
    role: SubAgentRole,
    text: Seq<char>,
    metrics: RequestMetrics,
)
    requires
        responded(outcome, role, text, metrics),
    ensures
        outcome.stage_complete ==> role == SubAgentRole::Planning || role
            == SubAgentRole::Execution || role == SubAgentRole::Validation || role
            == SubAgentRole::Done,
        outcome.stage_complete ==> outcome.artifact is Some,
        outcome.artifact is Some && outcome.answer->0@.len() <= 280 ==> (outcome.artifact->0).1@
            == crate::text::trimmed(outcome.answer->0@),
        outcome.artifact is Some ==> (outcome.artifact->0).1@.len() <= 280,
        outcome.answer is Some,
        outcome.metrics == Some(metrics),
{
    let answer = parsed_reply(text).0;
    crate::text::trimming_takes_off_white_space_alone(answer);
}

/// What a responder of a role is told to keep to holds the prompt that is
/// configured for the role and the rules of the role.
pub proof fn rules_hold_the_configured_prompt(roster: ResolvedSwarm, role: SubAgentRole, i: int)
    requires
        crate::chat::swarm::runtime::agent_for(roster@, role, 0) == Some(i),
        crate::text::trimmed(roster@[i].system_prompt@).len() > 0,
    ensures
        rules_for(roster, role) is Some,
        crate::text::contains_text(
            rules_for(roster, role)->0,
            crate::text::trimmed(roster@[i].system_prompt@),
        ),
        rules_of(role) matches Some(rules) ==> crate::text::contains_text(
            rules_for(roster, role)->0,
            rules,
        ),
{
    let none = Seq::<char>::empty();
    let own = crate::text::trimmed(roster@[i].system_prompt@);
    match rules_of(role) {
        Some(rules) => {
            crate::text::lemma_part_occurs(none, own, "\n\n"@ + rules);
            assert(none + own + ("\n\n"@ + rules) =~= own + "\n\n"@ + rules);
            crate::text::lemma_part_occurs(own + "\n\n"@, rules, none);
            assert(own + "\n\n"@ + rules + none =~= own + "\n\n"@ + rules);
        },
        None => {
            crate::text::lemma_part_occurs(none, own, none);
            assert(none + own + none =~= own);
        },
    }
}

/// No agent of a stage is asked for its marker by the control of a request: what
/// names it is left out, and everything else stays.
pub proof fn control_asks_for_no_marker(
    control: ResponseControl,
    role: SubAgentRole,
    r: ResponseControl,
)
    requires
        safe_control(control, role, r),
        role == SubAgentRole::Planning || role == SubAgentRole::Execution || role
            == SubAgentRole::Validation || role == SubAgentRole::Done,
    ensures
        r.answer_suffix matches Some(t) ==> !crate::text::contains_text(t@, "<<STAGE_DONE"@),
        r.completion_instruction matches Some(t) ==> !crate::text::contains_text(
            t@,
            "<<STAGE_DONE"@,
        ),
        (control.answer_suffix matches Some(t) && !crate::text::contains_text(
            t@,
            "<<STAGE_DONE"@,
        )) ==> r.answer_suffix == control.answer_suffix,
        (control.completion_instruction matches Some(t) && !crate::text::contains_text(
            t@,
            "<<STAGE_DONE"@,
        )) ==> r.completion_instruction == control.completion_instruction,
{
}

/// What a worker produces is kept under its identifier, so that two workers with
/// different identifiers never share a key.
pub proof fn workers_have_keys_of_their_own(one: Seq<char>, two: Seq<char>)
    ensures
        crate::text::contains_text(worker_key(one), crate::text::trimmed(one)),
        crate::text::occurs_at(worker_key(one), "worker."@, 0),
        crate::text::trimmed(one) != crate::text::trimmed(two) ==> worker_key(one) != worker_key(
            two,
        ),
        crate::text::trimmed(one) == crate::text::trimmed(two) ==> worker_key(one) == worker_key(
            two,
        ),
{
    let none = Seq::<char>::empty();
    let a = crate::text::trimmed(one);
    let b = crate::text::trimmed(two);
    crate::text::lemma_part_occurs("worker."@, a, none);
    assert("worker."@ + a + none =~= worker_key(one));
    assert(worker_key(one).subrange(0, "worker."@.len() as int) =~= "worker."@);
    if a != b && worker_key(one) == worker_key(two) {
        let n = "worker."@.len() as int;
        assert(worker_key(one).skip(n) =~= a);
        assert(worker_key(two).skip(n) =~= b);
    }
}

/// The rules of a stage name it, and those of a stage that leads on to another ask
/// for the marker that finishes it.
pub proof fn rules_name_their_stage()
    ensures
        rules_of(SubAgentRole::Planning) is Some && crate::text::contains_text(
            rules_of(SubAgentRole::Planning)->0,
            "PLANNING"@,
        ),
        rules_of(SubAgentRole::Execution) is Some && crate::text::contains_text(
            rules_of(SubAgentRole::Execution)->0,
            "EXECUTION"@,
        ),
        rules_of(SubAgentRole::Validation) is Some && crate::text::contains_text(
            rules_of(SubAgentRole::Validation)->0,
            "VALIDATION"@,
        ),
        rules_of(SubAgentRole::Done) is Some && crate::text::contains_text(
            rules_of(SubAgentRole::Done)->0,
            "DONE"@,
        ),
        crate::text::contains_text(
            rules_of(SubAgentRole::Planning)->0,
            "<<STAGE_DONE>>"@,
        ),
        crate::text::contains_text(
            rules_of(SubAgentRole::Execution)->0,
            "<<STAGE_DONE>>"@,
        ),
        crate::text::contains_text(
            rules_of(SubAgentRole::Validation)->0,
            "<<STAGE_DONE>>"@,
        ),
        rules_of(SubAgentRole::General) is None,
        rules_of(SubAgentRole::Worker) is None,
{
    lemma_planning_rules();
    lemma_execution_rules();
    lemma_validation_rules();
    lemma_done_rules();
}

#[verifier::rlimit(60)]
proof fn lemma_planning_rules()
    ensures
        crate::text::contains_text(rules_of(SubAgentRole::Planning)->0, "PLANNING"@),
        crate::text::contains_text(rules_of(SubAgentRole::Planning)->0, "<<STAGE_DONE>>"@),
{
    let text = rules_of(SubAgentRole::Planning)->0;
    reveal_strlit("Ты на стадии PLANNING. Собери требования и предложи утверждённый план. Не пиши финальный код. Когда план готов и согласован — заверши ответ ОТДЕЛЬНОЙ последней строкой <<STAGE_DONE>>.");
    reveal_strlit("PLANNING");
    assert(text.subrange(13, 21) =~= "PLANNING"@);
    assert(crate::text::occurs_at(text, "PLANNING"@, 13));
    reveal_strlit("<<STAGE_DONE>>");
    assert(text.subrange(168, 182) =~= "<<STAGE_DONE>>"@);
    assert(crate::text::occurs_at(text, "<<STAGE_DONE>>"@, 168));
}

#[verifier::rlimit(60)]
proof fn lemma_execution_rules()
    ensures
        crate::text::contains_text(rules_of(SubAgentRole::Execution)->0, "EXECUTION"@),
        crate::text::contains_text(rules_of(SubAgentRole::Execution)->0, "<<STAGE_DONE>>"@),
{
    let text = rules_of(SubAgentRole::Execution)->0;
    reveal_strlit("Ты на стадии EXECUTION. Работай в рамках текущего шага плана. Если данных не хватает — НЕ блокируй подготовку: дай полезный черновик с явными плейсхолдерами в квадратных скобках (например [номер договора], [дата], [сумма]) и отдельным списком 'что проверить'. Неизвестные значения (даты, номера, суммы, нормы права) оставляй плейсхолдером, не выдумывай. Не переноси известный срок оплаты по договору на срок исполнения претензии: если срок требования пользователь не назвал, пиши [срок требования]. Не добавляй придуманные примеры дат внутрь плейсхолдеров. Когда черновик готов — заверши ответ ОТДЕЛЬНОЙ последней строкой <<STAGE_DONE>>.");
    reveal_strlit("EXECUTION");
    assert(text.subrange(13, 22) =~= "EXECUTION"@);
    assert(crate::text::occurs_at(text, "EXECUTION"@, 13));
    reveal_strlit("<<STAGE_DONE>>");
    assert(text.subrange(622, 636) =~= "<<STAGE_DONE>>"@);
    assert(crate::text::occurs_at(text, "<<STAGE_DONE>>"@, 622));
}

#[verifier::rlimit(60)]
proof fn lemma_validation_rules()
    ensures
        crate::text::contains_text(rules_of(SubAgentRole::Validation)->0, "VALIDATION"@),
        crate::text::contains_text(rules_of(SubAgentRole::Validation)->0, "<<STAGE_DONE>>"@),
{
    let text = rules_of(SubAgentRole::Validation)->0;
    reveal_strlit("Ты на стадии VALIDATION. Проверь результат: риски, пробелы, соответствие плану. Отдели подтверждённые факты от предположений. Когда проверка пройдена — заверши ответ ОТДЕЛЬНОЙ последней строкой <<STAGE_DONE>>.");
    reveal_strlit("VALIDATION");
    assert(text.subrange(13, 23) =~= "VALIDATION"@);
    assert(crate::text::occurs_at(text, "VALIDATION"@, 13));
    reveal_strlit("<<STAGE_DONE>>");
    assert(text.subrange(194, 208) =~= "<<STAGE_DONE>>"@);
    assert(crate::text::occurs_at(text, "<<STAGE_DONE>>"@, 194));
}

#[verifier::rlimit(60)]
proof fn lemma_done_rules()
    ensures
        crate::text::contains_text(rules_of(SubAgentRole::Done)->0, "DONE"@),
{
    let text = rules_of(SubAgentRole::Done)->0;
    reveal_strlit("Ты на стадии DONE. Кратко перечисли: что готово, что отправляем, какие приложения, что проверить перед отправкой. Задача завершена, дальнейших переходов нет.");
    reveal_strlit("DONE");
    assert(text.subrange(13, 17) =~= "DONE"@);
    assert(crate::text::occurs_at(text, "DONE"@, 13));
}

} // verus!
