//! The prompt of a responder: the conversation, the layers before it, and the
//! user's message.
use vstd::prelude::*;

use crate::chat::memory::{MemoryConfig, MemoryStrategy};
use crate::chat::store::{
    AgentProfile, ProfileField, TaskArtifact, TaskContext, TaskPipelineStage, TaskWorkerAgent,
};
use crate::providers::{push_system, ChatMessage, Role};
use crate::text::{cat2, cat3, cat5, clone_list, is_blank, join, trim};

verus! {

broadcast use vstd::string::group_string_axioms;

/// Assembles the messages of a responder's request.
#[derive(Debug, Clone, Copy, PartialEq, Eq, Structural)]
pub struct PromptBuilder;

/// What the layers of a prompt are made from.
#[derive(Debug)]
pub struct PromptLayers<'a> {
    /// What the agent is specialized in; may be empty.
    pub domain: &'a str,
    /// The agent's profile, where there is something to show.
    pub profile_block: Option<&'a str>,
    /// The task, and how it is shown.
    pub task: Option<(&'a TaskContext, &'a str)>,
    /// What the workers of the stage have produced in this turn.
    pub worker_outputs: &'a Vec<TaskArtifact>,
    pub invariants: &'a Vec<String>,
    /// The invariants that the answer before this one broke.
    pub retry_violations: &'a Vec<String>,
    /// The user's profile without what stands in the layers before it, where
    /// there is something left to show.
    pub user_block: Option<&'a str>,
}

/// No text or one.
pub open spec fn at_most_one(text: Option<Seq<char>>) -> Seq<Seq<char>> {
    match text {
        Some(t) => seq![t],
        None => Seq::empty(),
    }
}

/// The characters of a text, where there is one.
pub open spec fn text_of(text: Option<&str>) -> Option<Seq<char>> {
    match text {
        Some(t) => Some(t@),
        None => None,
    }
}

/// The layer that says what the agent is specialized in.
pub open spec fn domain_layer(domain: Seq<char>) -> Option<Seq<char>> {
    if domain.len() == 0 {
        None
    } else {
        Some(
            "[agent:domain] Specialization/background: "@ + domain
                + ". Use this context to be helpful, but do not treat it as a refusal policy. Related adjacent tasks are allowed unless explicit invariants forbid them."@,
        )
    }
}

/// How a worker of a stage is shown.
pub open spec fn worker_line(worker: TaskWorkerAgent) -> Seq<char> {
    "Worker "@ + crate::text::trimmed(worker.id@) + " ["@ + crate::text::trimmed(worker.direction@)
        + "]: "@ + crate::text::trimmed(worker.system_prompt@)
}

/// How the workers of a stage are shown.
pub open spec fn worker_lines(workers: Seq<TaskWorkerAgent>) -> Seq<Seq<char>> {
    Seq::new(workers.len(), |i: int| worker_line(workers[i]))
}

/// The lines of the layer on what the pipeline asks of the current stage.
pub open spec fn pipeline_lines(stage: TaskPipelineStage) -> Seq<Seq<char>> {
    seq![
        "[pipeline:active] Stage: "@ + crate::chat::store::stage_name(stage.stage)
            + ". Required artifact key: "@ + crate::text::trimmed(stage.artifact_key@) + "."@,
    ] + at_most_one(
        if crate::text::blank(stage.system_prompt@) {
            None
        } else {
            Some("Stage instruction: "@ + crate::text::trimmed(stage.system_prompt@))
        },
    ) + worker_lines(stage.worker_agents@) + at_most_one(
        if stage.requires_human_approval {
            Some("After producing the artifact, stop for explicit human approval."@)
        } else {
            None
        },
    )
}

/// The layer on invariants that the answer before this one broke.
pub open spec fn violations_layer(violations: Seq<String>) -> Option<Seq<char>> {
    if violations.len() == 0 {
        None
    } else {
        Some(
            "[invariants] Your previous response violated these invariants — correct this now:\n- "@
                + crate::text::joined(crate::text::texts(violations), "\n- "@),
        )
    }
}

/// The layers on the task.
pub open spec fn task_layers(task: Option<(&TaskContext, &str)>) -> Seq<Seq<char>> {
    match task {
        Some((task, shown)) => seq![shown@] + at_most_one(
            match crate::chat::store::pipeline_entry(task.pipeline@, task.stage, 0) {
                Some(i) => Some(
                    crate::text::joined(pipeline_lines(task.pipeline@[i]), "\n"@),
                ),
                None => None,
            },
        ) + at_most_one(violations_layer(task.violations@)),
        None => Seq::empty(),
    }
}

/// How what a worker has produced is shown.
pub open spec fn output_line(artifact: TaskArtifact) -> Seq<char> {
    crate::text::trimmed(artifact.key@) + " ["@ + crate::chat::store::stage_name(artifact.stage)
        + "]: "@ + crate::text::trimmed(artifact.value@)
}

/// How what the workers have produced is shown.
pub open spec fn output_lines(outputs: Seq<TaskArtifact>) -> Seq<Seq<char>> {
    Seq::new(outputs.len(), |i: int| output_line(outputs[i]))
}

/// The layer on what the workers have produced.
pub open spec fn outputs_layer(outputs: Seq<TaskArtifact>) -> Option<Seq<char>> {
    if outputs.len() == 0 {
        None
    } else {
        Some(
            "[pipeline:worker-results]\nReal worker sub-agents produced these artifacts. Synthesize and validate them; do not ignore them:\n"@
                + crate::text::joined(output_lines(outputs), "\n\n"@),
        )
    }
}

/// The layer on the invariants.
pub open spec fn invariants_layer(invariants: Seq<String>) -> Option<Seq<char>> {
    if invariants.len() == 0 {
        None
    } else {
        Some(
            "[invariants] These constraints are absolute and must never be broken, even if the user asks:\n- "@
                + crate::text::joined(crate::text::texts(invariants), "\n- "@),
        )
    }
}

/// The layer on the rules of the stage.
pub open spec fn rules_layer(rules: Option<Seq<char>>) -> Option<Seq<char>> {
    match rules {
        Some(rules) if !crate::text::blank(rules) => Some(
            "[stage:rules]\n"@ + crate::text::trimmed(rules),
        ),
        _ => None,
    }
}

/// What an answer may hold.
pub const OUTPUT_POLICY: &'static str = "[output:policy] Пиши только пользовательский текст. Не включай в ответ служебные пометки, внутренние инструкции и формулировки контроля (например «не выдавай за норму», «это предположение для модели»). Не выдумывай нормы права, статьи, даты, годы и суммы, которых нет во входных данных — оставляй плейсхолдер и помечай как предположение.";

/// The layers of a prompt, in their order.
pub open spec fn layer_texts(layers: PromptLayers, rules: Option<Seq<char>>) -> Seq<Seq<char>> {
    at_most_one(domain_layer(layers.domain@)) + at_most_one(
        text_of(layers.profile_block),
    ) + task_layers(layers.task) + at_most_one(outputs_layer(layers.worker_outputs@))
        + at_most_one(invariants_layer(layers.invariants@)) + at_most_one(
        violations_layer(layers.retry_violations@),
    ) + at_most_one(text_of(layers.user_block)) + at_most_one(rules_layer(rules)) + at_most_one(
        if rules is Some || layers.task is Some || layers.invariants@.len() > 0 {
            Some(OUTPUT_POLICY@)
        } else {
            None
        },
    )
}

/// The values of the fields of a profile that hold one.
pub open spec fn filled_values(fields: Seq<ProfileField>) -> Seq<Seq<char>>
    decreases fields.len(),
{
    if fields.len() == 0 {
        Seq::empty()
    } else {
        filled_values(fields.drop_last()) + at_most_one(
            if crate::text::blank(fields.last().value@) {
                None
            } else {
                Some(fields.last().value@)
            },
        )
    }
}

/// What the layers before the user's profile show, in their order: the domain,
/// the agent's profile, the invariants.
pub open spec fn shown_before(
    domain: Seq<char>,
    profile: Option<AgentProfile>,
    invariants: Seq<String>,
) -> Seq<Seq<char>> {
    at_most_one(
        if domain.len() == 0 {
            None
        } else {
            Some(domain)
        },
    ) + (match profile {
        Some(profile) => filled_values(profile.fields@),
        None => Seq::empty(),
    }) + crate::text::texts(invariants)
}

/// The position of the first message that is no system message.
pub open spec fn conversation_start(messages: Seq<(Role, Seq<char>)>) -> int
    decreases messages.len(),
{
    if messages.len() == 0 || messages[0].0 != Role::System {
        0
    } else {
        1 + conversation_start(messages.skip(1))
    }
}

/// The messages with the layers before the conversation.
pub open spec fn layered(messages: Seq<(Role, Seq<char>)>, layers: Seq<Seq<char>>) -> Seq<
    (Role, Seq<char>),
> {
    let at = conversation_start(messages);
    messages.take(at) + crate::providers::as_system(layers) + messages.skip(at)
}

proof fn lemma_conversation_start(messages: Seq<(Role, Seq<char>)>, at: int)
    requires
        0 <= at <= messages.len(),
        forall|i: int| 0 <= i < at ==> messages[i].0 == Role::System,
        at < messages.len() ==> messages[at].0 != Role::System,
    ensures
        conversation_start(messages) == at,
    decreases messages.len(),
{
    if at > 0 {
        lemma_conversation_start(messages.skip(1), at - 1);
    }
}

fn pipeline_text(stage: &TaskPipelineStage) -> (r: String)
    ensures
        r@ == crate::text::joined(pipeline_lines(*stage), "\n"@),
{
    let mut lines: Vec<String> = Vec::new();
    lines.push(
        cat5(
            "[pipeline:active] Stage: ",
            stage.stage.name(),
            ". Required artifact key: ",
            trim(stage.artifact_key.as_str()),
            ".",
        ),
    );
    if !is_blank(stage.system_prompt.as_str()) {
        lines.push(cat2("Stage instruction: ", trim(stage.system_prompt.as_str())));
    }
    let ghost head = crate::text::texts(lines@);
    assert(head =~= seq![pipeline_lines(*stage)[0]] + at_most_one(
        if crate::text::blank(stage.system_prompt@) {
            None
        } else {
            Some("Stage instruction: "@ + crate::text::trimmed(stage.system_prompt@))
        },
    ));
    let mut i: usize = 0;
    assert(worker_lines(stage.worker_agents@.take(0)) =~= Seq::<Seq<char>>::empty());
    assert(crate::text::texts(lines@) =~= head + worker_lines(stage.worker_agents@.take(0)));
    while i < stage.worker_agents.len()
        invariant
            i <= stage.worker_agents.len(),
            crate::text::texts(lines@) == head + worker_lines(stage.worker_agents@.take(i as int)),
        decreases stage.worker_agents.len() - i,
    {
        let worker = &stage.worker_agents[i];
        let named = cat5(
            "Worker ",
            trim(worker.id.as_str()),
            " [",
            trim(worker.direction.as_str()),
            "]: ",
        );
        let ghost before = crate::text::texts(lines@);
        lines.push(cat2(named.as_str(), trim(worker.system_prompt.as_str())));
        assert(crate::text::texts(lines@) =~= before.push(worker_line(*worker)));
        assert(worker_lines(stage.worker_agents@.take(i + 1)) =~= worker_lines(
            stage.worker_agents@.take(i as int),
        ).push(worker_line(*worker)));
        i = i + 1;
    }
    assert(stage.worker_agents@.take(i as int) =~= stage.worker_agents@);
    let ghost before = crate::text::texts(lines@);
    if stage.requires_human_approval {
        lines.push("After producing the artifact, stop for explicit human approval.".to_string());
    }
    assert(crate::text::texts(lines@) =~= before + at_most_one(
        if stage.requires_human_approval {
            Some("After producing the artifact, stop for explicit human approval."@)
        } else {
            None
        },
    ));
    assert(crate::text::texts(lines@) =~= pipeline_lines(*stage));
    join(&lines, "\n")
}

fn domain_text(domain: &str) -> (r: Option<String>)
    ensures
        crate::text::option_text(r) == domain_layer(domain@),
{
    if domain.is_empty() {
        return None;
    }
    Some(
        cat3(
            "[agent:domain] Specialization/background: ",
            domain,
            ". Use this context to be helpful, but do not treat it as a refusal policy. Related adjacent tasks are allowed unless explicit invariants forbid them.",
        ),
    )
}

fn violations_text(violations: &Vec<String>) -> (r: Option<String>)
    ensures
        crate::text::option_text(r) == violations_layer(violations@),
{
    if violations.is_empty() {
        return None;
    }
    let listed = join(violations, "\n- ");
    Some(
        cat2(
            "[invariants] Your previous response violated these invariants — correct this now:\n- ",
            listed.as_str(),
        ),
    )
}

fn outputs_text(outputs: &Vec<TaskArtifact>) -> (r: Option<String>)
    ensures
        crate::text::option_text(r) == outputs_layer(outputs@),
{
    if outputs.is_empty() {
        return None;
    }
    let mut lines: Vec<String> = Vec::new();
    let mut i: usize = 0;
    while i < outputs.len()
        invariant
            i <= outputs.len(),
            lines@.len() == i,
            forall|j: int| 0 <= j < i ==> (#[trigger] lines@[j])@ == output_line(outputs@[j]),
        decreases outputs.len() - i,
    {
        let artifact = &outputs[i];
        lines.push(
            cat5(
                trim(artifact.key.as_str()),
                " [",
                artifact.stage.name(),
                "]: ",
                trim(artifact.value.as_str()),
            ),
        );
        i = i + 1;
    }
    assert(crate::text::texts(lines@) =~= output_lines(outputs@));
    let listed = join(&lines, "\n\n");
    Some(
        cat2(
            "[pipeline:worker-results]\nReal worker sub-agents produced these artifacts. Synthesize and validate them; do not ignore them:\n",
            listed.as_str(),
        ),
    )
}

fn invariants_text(invariants: &Vec<String>) -> (r: Option<String>)
    ensures
        crate::text::option_text(r) == invariants_layer(invariants@),
{
    if invariants.is_empty() {
        return None;
    }
    let listed = join(invariants, "\n- ");
    Some(
        cat2(
            "[invariants] These constraints are absolute and must never be broken, even if the user asks:\n- ",
            listed.as_str(),
        ),
    )
}

fn rules_text(rules: Option<&str>) -> (r: Option<String>)
    ensures
        crate::text::option_text(r) == rules_layer(text_of(rules)),
{
    match rules {
        Some(rules) => if is_blank(rules) {
            None
        } else {
            Some(cat2("[stage:rules]\n", trim(rules)))
        },
        None => None,
    }
}

fn owned(text: Option<&str>) -> (r: Option<String>)
    ensures
        crate::text::option_text(r) == text_of(text),
{
    match text {
        Some(t) => Some(t.to_string()),
        None => None,
    }
}

/// Whether messages are system messages with these texts.
pub open spec fn shows(messages: Seq<ChatMessage>, texts: Seq<Seq<char>>) -> bool {
    crate::providers::message_views(messages) == crate::providers::as_system(texts)
}

fn push_layer(
    blocks: &mut Vec<ChatMessage>,
    text: Option<String>,
    Ghost(before): Ghost<Seq<Seq<char>>>,
)
    requires
        shows(old(blocks)@, before),
    ensures
        shows(final(blocks)@, before + at_most_one(crate::text::option_text(text))),
{
    match text {
        Some(text) => {
            let ghost shown = text@;
            push_system(blocks, text);
            assert(crate::providers::as_system(before) + seq![(Role::System, shown)]
                =~= crate::providers::as_system(before + seq![shown]));
        },
        None => {
            assert(before + Seq::<Seq<char>>::empty() =~= before);
        },
    }
}

fn push_task_layers(
    blocks: &mut Vec<ChatMessage>,
    task: Option<(&TaskContext, &str)>,
    Ghost(before): Ghost<Seq<Seq<char>>>,
)
    requires
        shows(old(blocks)@, before),
    ensures
        shows(final(blocks)@, before + task_layers(task)),
{
    match task {
        Some((task, shown)) => {
            let pipeline = match task.active_pipeline_stage() {
                Some(stage) => Some(pipeline_text(stage)),
                None => None,
            };
            let violations = violations_text(&task.violations);
            let ghost a = before + at_most_one(Some(shown@));
            let ghost b = a + at_most_one(crate::text::option_text(pipeline));
            let ghost c = b + at_most_one(crate::text::option_text(violations));
            push_layer(blocks, Some(shown.to_string()), Ghost(before));
            push_layer(blocks, pipeline, Ghost(a));
            push_layer(blocks, violations, Ghost(b));
            assert(c =~= before + task_layers(Some((task, shown))));
        },
        None => {
            assert(before + Seq::<Seq<char>>::empty() =~= before);
        },
    }
}

fn layer_blocks(layers: &PromptLayers, rules: Option<&str>) -> (r: Vec<ChatMessage>)
    ensures
        shows(r@, layer_texts(*layers, text_of(rules))),
{
    let mut blocks: Vec<ChatMessage> = Vec::new();
    let ghost none = Seq::<Seq<char>>::empty();
    assert(crate::providers::message_views(blocks@) =~= crate::providers::as_system(none));
    let ghost a = at_most_one(domain_layer(layers.domain@));
    push_layer(&mut blocks, domain_text(layers.domain), Ghost(none));
    assert(none + a =~= a);
    let profile = owned(layers.profile_block);
    let ghost b = a + at_most_one(crate::text::option_text(profile));
    push_layer(&mut blocks, profile, Ghost(a));
    let ghost c = b + task_layers(layers.task);
    push_task_layers(&mut blocks, layers.task, Ghost(b));
    let ghost d = c + at_most_one(outputs_layer(layers.worker_outputs@));
    push_layer(&mut blocks, outputs_text(layers.worker_outputs), Ghost(c));
    let ghost e = d + at_most_one(invariants_layer(layers.invariants@));
    push_layer(&mut blocks, invariants_text(layers.invariants), Ghost(d));
    let ghost f = e + at_most_one(violations_layer(layers.retry_violations@));
    push_layer(&mut blocks, violations_text(layers.retry_violations), Ghost(e));
    let user = owned(layers.user_block);
    let ghost g = f + at_most_one(crate::text::option_text(user));
    push_layer(&mut blocks, user, Ghost(f));
    let ghost h = g + at_most_one(rules_layer(text_of(rules)));
    push_layer(&mut blocks, rules_text(rules), Ghost(g));
    let policy = if rules.is_some() || layers.task.is_some() || !layers.invariants.is_empty() {
        Some(OUTPUT_POLICY.to_string())
    } else {
        None
    };
    push_layer(&mut blocks, policy, Ghost(h));
    blocks
}

impl PromptBuilder {
    /// How many messages of the conversation go into a prompt: with sticky
    /// facts, the user's message counts as one of them.
    pub fn recent_messages(config: &MemoryConfig) -> (r: usize)
        ensures
            r == (if config.strategy == MemoryStrategy::StickyFacts && config.recent_messages > 0 {
                config.recent_messages - 1
            } else {
                config.recent_messages as int
            }),
    {
        if config.strategy == MemoryStrategy::StickyFacts && config.recent_messages > 0 {
            config.recent_messages - 1
        } else {
            config.recent_messages
        }
    }

    /// What the layers before the user's profile show: the domain, the agent's
    /// profile where it is shown, and every invariant.
    pub fn shown_values(
        domain: &str,
        profile: Option<&AgentProfile>,
        invariants: &Vec<String>,
    ) -> (r: Vec<String>)
        ensures
            crate::text::texts(r@) == shown_before(
                domain@,
                match profile {
                    Some(profile) => Some(*profile),
                    None => None,
                },
                invariants@,
            ),
    {
        let mut values: Vec<String> = Vec::new();
        if !domain.is_empty() {
            values.push(domain.to_string());
        }
        let ghost head = crate::text::texts(values@);
        assert(head =~= at_most_one(
            if domain@.len() == 0 {
                None
            } else {
                Some(domain@)
            },
        ));
        let ghost mut filled: Seq<Seq<char>> = Seq::empty();
        assert(head + filled =~= head);
        if let Some(profile) = profile {
            let mut i: usize = 0;
            assert(profile.fields@.take(0) =~= Seq::<ProfileField>::empty());
            while i < profile.fields.len()
                invariant
                    i <= profile.fields.len(),
                    filled == filled_values(profile.fields@.take(i as int)),
                    crate::text::texts(values@) == head + filled,
                decreases profile.fields.len() - i,
            {
                let value = &profile.fields[i].value;
                let ghost before = crate::text::texts(values@);
                let ghost upto = profile.fields@.take(i + 1);
                assert(upto.drop_last() =~= profile.fields@.take(i as int));
                assert(upto.last() == profile.fields@[i as int]);
                if !is_blank(value.as_str()) {
                    values.push(value.clone());
                    assert(crate::text::texts(values@) =~= before.push(value@));
                }
                proof {
                    filled = filled_values(upto);
                }
                assert(crate::text::texts(values@) =~= head + filled);
                i = i + 1;
            }
            assert(profile.fields@.take(i as int) =~= profile.fields@);
        }
        let ghost shown = head + filled;
        let mut rest = clone_list(invariants);
        values.append(&mut rest);
        assert(crate::text::texts(values@) =~= shown + crate::text::texts(invariants@));
        values
    }

    /// Puts the layers before the first message that is no system message.
    pub fn inject_layers(
        messages: Vec<ChatMessage>,
        layers: &PromptLayers,
        rules: Option<&str>,
    ) -> (r: Vec<ChatMessage>)
        ensures
            crate::providers::message_views(r@) == layered(
                crate::providers::message_views(messages@),
                layer_texts(*layers, text_of(rules)),
            ),
    {
        let ghost views = crate::providers::message_views(messages@);
        let mut at: usize = 0;
        while at < messages.len() && messages[at].role == Role::System
            invariant
                at <= messages.len(),
                views == crate::providers::message_views(messages@),
                forall|i: int| 0 <= i < at ==> (#[trigger] views[i]).0 == Role::System,
            decreases messages.len() - at,
        {
            at = at + 1;
        }
        proof {
            lemma_conversation_start(views, at as int);
        }
        let mut out = messages;
        let mut tail = out.split_off(at);
        let mut blocks = layer_blocks(layers, rules);
        out.append(&mut blocks);
        out.append(&mut tail);
        assert(crate::providers::message_views(out@) =~= layered(
            views,
            layer_texts(*layers, text_of(rules)),
        ));
        out
    }

    /// The messages of a responder's request: the context with the layers in
    /// it, then the user's message.
    pub fn build(
        context: Vec<ChatMessage>,
        layers: &PromptLayers,
        rules: Option<&str>,
        prompt: &str,
    ) -> (r: Vec<ChatMessage>)
        ensures
            crate::providers::message_views(r@) == layered(
                crate::providers::message_views(context@),
                layer_texts(*layers, text_of(rules)),
            ).push((Role::User, prompt@)),
    {
        let mut messages = PromptBuilder::inject_layers(context, layers, rules);
        let ghost before = crate::providers::message_views(messages@);
        messages.push(ChatMessage { role: Role::User, content: prompt.to_string() });
        assert(crate::providers::message_views(messages@) =~= before.push((Role::User, prompt@)));
        messages
    }
}

/// Every layer of a prompt stands before the conversation, which stays as it
/// was: a message that is no system message comes after all layers, and is the
/// one of the context.
pub proof fn layers_precede_the_conversation(
    context: Seq<(Role, Seq<char>)>,
    layers: Seq<Seq<char>>,
    i: int,
)
    requires
        0 <= i < layered(context, layers).len(),
        layered(context, layers)[i].0 != Role::System,
    ensures
        conversation_start(context) + layers.len() <= i,
        context[i - layers.len()] == layered(context, layers)[i],
        forall|j: int|
            0 <= j < layers.len() ==> layered(context, layers)[conversation_start(context) + j] == (
                Role::System,
                #[trigger] layers[j],
            ),
{
    lemma_start_in_range(context);
    let at = conversation_start(context);
    let all = layered(context, layers);
    if i < at {
        assert(all[i] == context[i]);
    }
}

/// System messages alone stand before the start of the conversation.
pub proof fn lemma_start_in_range(messages: Seq<(Role, Seq<char>)>)
    ensures
        0 <= conversation_start(messages) <= messages.len(),
        forall|i: int|
            0 <= i < conversation_start(messages) ==> (#[trigger] messages[i]).0 == Role::System,
    decreases messages.len(),
{
    if messages.len() > 0 && messages[0].0 == Role::System {
        lemma_start_in_range(messages.skip(1));
        assert forall|i: int| 0 <= i < conversation_start(messages) implies (
        #[trigger] messages[i]).0 == Role::System by {
            if i > 0 {
                assert(messages.skip(1)[i - 1] == messages[i]);
            }
        }
    }
}

/// Whether one of `texts` holds `part`.
pub open spec fn said(texts: Seq<Seq<char>>, part: Seq<char>) -> bool {
    exists|i: int| 0 <= i < texts.len() && crate::text::contains_text(#[trigger] texts[i], part)
}

/// Whether one of `texts` holds `first`, and `second` behind it.
pub open spec fn said_in_order(texts: Seq<Seq<char>>, first: Seq<char>, second: Seq<char>) -> bool {
    exists|i: int|
        0 <= i < texts.len() && crate::text::one_after_other(#[trigger] texts[i], first, second)
}

proof fn lemma_either(a: Seq<Seq<char>>, b: Seq<Seq<char>>, text: Seq<char>)
    requires
        a.contains(text) || b.contains(text),
    ensures
        (a + b).contains(text),
{
    if a.contains(text) {
        let i = choose|i: int| 0 <= i < a.len() && a[i] == text;
        assert((a + b)[i] == text);
    } else {
        let i = choose|i: int| 0 <= i < b.len() && b[i] == text;
        assert((a + b)[a.len() + i] == text);
    }
}

proof fn lemma_layers_contain(layers: PromptLayers, rules: Option<Seq<char>>, text: Seq<char>)
    requires
        domain_layer(layers.domain@) == Some(text) || text_of(layers.profile_block) == Some(text)
            || task_layers(layers.task).contains(text) || outputs_layer(layers.worker_outputs@)
            == Some(text) || invariants_layer(layers.invariants@) == Some(text) || violations_layer(
            layers.retry_violations@,
        ) == Some(text) || text_of(layers.user_block) == Some(text) || rules_layer(rules)
            == Some(text),
    ensures
        layer_texts(layers, rules).contains(text),
{
    let a = at_most_one(domain_layer(layers.domain@));
    let b = at_most_one(text_of(layers.profile_block));
    let c = task_layers(layers.task);
    let d = at_most_one(outputs_layer(layers.worker_outputs@));
    let e = at_most_one(invariants_layer(layers.invariants@));
    let f = at_most_one(violations_layer(layers.retry_violations@));
    let g = at_most_one(text_of(layers.user_block));
    let h = at_most_one(rules_layer(rules));
    assert(seq![text][0] == text);
    let first = a + b + c + d;
    assert(first.contains(text) || e.contains(text) || f.contains(text) || g.contains(text)
        || h.contains(text)) by {
        if a.contains(text) || b.contains(text) {
            lemma_either(a, b, text);
        }
        if (a + b).contains(text) || c.contains(text) {
            lemma_either(a + b, c, text);
        }
        if (a + b + c).contains(text) || d.contains(text) {
            lemma_either(a + b + c, d, text);
        }
    }
    let rest = layer_texts(layers, rules).skip((first + e + f + g + h).len() as int);
    if first.contains(text) || e.contains(text) {
        lemma_either(first, e, text);
    }
    if (first + e).contains(text) || f.contains(text) {
        lemma_either(first + e, f, text);
    }
    if (first + e + f).contains(text) || g.contains(text) {
        lemma_either(first + e + f, g, text);
    }
    lemma_either(first + e + f + g, h, text);
    lemma_either(first + e + f + g + h, rest, text);
    assert(layer_texts(layers, rules) =~= first + e + f + g + h + rest);
}

proof fn lemma_said(texts: Seq<Seq<char>>, text: Seq<char>, part: Seq<char>)
    requires
        texts.contains(text),
        crate::text::contains_text(text, part),
    ensures
        said(texts, part),
{
    let i = choose|i: int| 0 <= i < texts.len() && texts[i] == text;
    assert(crate::text::contains_text(texts[i], part));
}

proof fn lemma_listed(before: Seq<char>, list: Seq<Seq<char>>, sep: Seq<char>, i: int)
    requires
        0 <= i < list.len(),
    ensures
        crate::text::contains_text(before + crate::text::joined(list, sep), list[i]),
{
    let none = Seq::<char>::empty();
    let whole = crate::text::joined(list, sep);
    crate::text::joined_texts_hold_their_parts(list, sep, i);
    crate::text::lemma_part_occurs(before, whole, none);
    assert(before + whole + none =~= before + whole);
    crate::text::lemma_occurs_through(list[i], whole, before + whole);
}

/// The layers of a prompt tell every output of a worker, its key first and its
/// value behind the key.
pub proof fn layers_tell_every_output(layers: PromptLayers, rules: Option<Seq<char>>, i: int)
    requires
        0 <= i < layers.worker_outputs@.len(),
    ensures
        said_in_order(
            layer_texts(layers, rules),
            crate::text::trimmed(layers.worker_outputs@[i].key@),
            crate::text::trimmed(layers.worker_outputs@[i].value@),
        ),
{
    let none = Seq::<char>::empty();
    let outputs = layers.worker_outputs@;
    let key = crate::text::trimmed(outputs[i].key@);
    let value = crate::text::trimmed(outputs[i].value@);
    let between = " ["@ + crate::chat::store::stage_name(outputs[i].stage) + "]: "@;
    let line = output_lines(outputs)[i];
    assert(line =~= none + key + between + value + none);
    crate::text::lemma_one_after_other(none, key, between, value, none);
    let text = outputs_layer(outputs)->0;
    lemma_listed(
        "[pipeline:worker-results]\nReal worker sub-agents produced these artifacts. Synthesize and validate them; do not ignore them:\n"@,
        output_lines(outputs),
        "\n\n"@,
        i,
    );
    crate::text::lemma_order_through(key, value, line, text);
    lemma_layers_contain(layers, rules, text);
    let k = choose|k: int|
        0 <= k < layer_texts(layers, rules).len() && layer_texts(layers, rules)[k] == text;
    assert(crate::text::one_after_other(layer_texts(layers, rules)[k], key, value));
}

/// The layers of a prompt tell every invariant.
pub proof fn layers_tell_every_invariant(layers: PromptLayers, rules: Option<Seq<char>>, i: int)
    requires
        0 <= i < layers.invariants@.len(),
    ensures
        said(layer_texts(layers, rules), layers.invariants@[i]@),
{
    let list = crate::text::texts(layers.invariants@);
    let text = invariants_layer(layers.invariants@)->0;
    assert(list[i] == layers.invariants@[i]@);
    lemma_listed(
        "[invariants] These constraints are absolute and must never be broken, even if the user asks:\n- "@,
        list,
        "\n- "@,
        i,
    );
    lemma_layers_contain(layers, rules, text);
    lemma_said(layer_texts(layers, rules), text, list[i]);
}

/// The layers of a prompt tell everything that the answer before broke.
pub proof fn layers_tell_every_violation(layers: PromptLayers, rules: Option<Seq<char>>, i: int)
    requires
        0 <= i < layers.retry_violations@.len(),
    ensures
        said(layer_texts(layers, rules), layers.retry_violations@[i]@),
{
    let list = crate::text::texts(layers.retry_violations@);
    let text = violations_layer(layers.retry_violations@)->0;
    assert(list[i] == layers.retry_violations@[i]@);
    lemma_listed(
        "[invariants] Your previous response violated these invariants — correct this now:\n- "@,
        list,
        "\n- "@,
        i,
    );
    lemma_layers_contain(layers, rules, text);
    lemma_said(layer_texts(layers, rules), text, list[i]);
}

/// The layers of a prompt tell what the agent is specialized in, its profile, how
/// the task is shown, the user's profile and the rules of the role, as far as
/// there is anything of these.
pub proof fn layers_tell_who_and_what(layers: PromptLayers, rules: Option<Seq<char>>)
    ensures
        layers.domain@.len() > 0 ==> said(layer_texts(layers, rules), layers.domain@),
        layers.profile_block matches Some(t) ==> said(layer_texts(layers, rules), t@),
        layers.task matches Some((task, shown)) ==> said(layer_texts(layers, rules), shown@),
        layers.user_block matches Some(t) ==> said(layer_texts(layers, rules), t@),
        (rules matches Some(t) && !crate::text::blank(t)) ==> said(
            layer_texts(layers, rules),
            crate::text::trimmed(rules->0),
        ),
{
    let none = Seq::<char>::empty();
    let all = layer_texts(layers, rules);
    if layers.domain@.len() > 0 {
        let text = domain_layer(layers.domain@)->0;
        crate::text::lemma_part_occurs(
            "[agent:domain] Specialization/background: "@,
            layers.domain@,
            ". Use this context to be helpful, but do not treat it as a refusal policy. Related adjacent tasks are allowed unless explicit invariants forbid them."@,
        );
        lemma_layers_contain(layers, rules, text);
        lemma_said(all, text, layers.domain@);
    }
    if let Some(t) = layers.profile_block {
        crate::text::lemma_part_occurs(none, t@, none);
        assert(none + t@ + none =~= t@);
        lemma_layers_contain(layers, rules, t@);
        lemma_said(all, t@, t@);
    }
    if let Some(t) = layers.user_block {
        crate::text::lemma_part_occurs(none, t@, none);
        assert(none + t@ + none =~= t@);
        lemma_layers_contain(layers, rules, t@);
        lemma_said(all, t@, t@);
    }
    if let Some((task, shown)) = layers.task {
        crate::text::lemma_part_occurs(none, shown@, none);
        assert(none + shown@ + none =~= shown@);
        assert(task_layers(layers.task)[0] == shown@);
        lemma_layers_contain(layers, rules, shown@);
        lemma_said(all, shown@, shown@);
    }
    if rules is Some && !crate::text::blank(rules->0) {
        let part = crate::text::trimmed(rules->0);
        let text = rules_layer(rules)->0;
        crate::text::lemma_part_occurs("[stage:rules]\n"@, part, none);
        assert("[stage:rules]\n"@ + part + none =~= text);
        lemma_layers_contain(layers, rules, text);
        lemma_said(all, text, part);
    }
}

/// The layers of a prompt tell what the pipeline asks of the stage that the task
/// is at: the key of its artifact, its instruction, and of each worker its id,
/// direction and instruction.
pub proof fn layers_tell_the_stage(
    layers: PromptLayers,
    rules: Option<Seq<char>>,
    task: TaskContext,
    shown: Seq<char>,
    entry: int,
)
    requires
        layers.task matches Some((t, s)) && *t == task && s@ == shown,
        crate::chat::store::pipeline_entry(task.pipeline@, task.stage, 0) == Some(entry),
        0 <= entry < task.pipeline@.len(),
    ensures
        ({
            let stage = task.pipeline@[entry];
            let all = layer_texts(layers, rules);
            &&& said(all, crate::text::trimmed(stage.artifact_key@))
            &&& !crate::text::blank(stage.system_prompt@) ==> said(
                all,
                crate::text::trimmed(stage.system_prompt@),
            )
            &&& forall|i: int|
                0 <= i < stage.worker_agents@.len() ==> said_in_order(
                    all,
                    crate::text::trimmed((#[trigger] stage.worker_agents@[i]).id@),
                    crate::text::trimmed(stage.worker_agents@[i].system_prompt@),
                ) && said(all, crate::text::trimmed(stage.worker_agents@[i].direction@))
            &&& stage.requires_human_approval ==> said(
                all,
                "stop for explicit human approval"@,
            )
        }),
{
    let none = Seq::<char>::empty();
    let stage = task.pipeline@[entry];
    let all = layer_texts(layers, rules);
    let lines = pipeline_lines(stage);
    let text = crate::text::joined(lines, "\n"@);
    let tl = task_layers(layers.task);
    assert(tl.contains(text)) by {
        assert(at_most_one(Some(text))[0] == text);
        lemma_either(seq![shown], at_most_one(Some(text)), text);
        lemma_either(
            seq![shown] + at_most_one(Some(text)),
            at_most_one(violations_layer(task.violations@)),
            text,
        );
        assert(tl =~= seq![shown] + at_most_one(Some(text)) + at_most_one(
            violations_layer(task.violations@),
        ));
    }
    lemma_layers_contain(layers, rules, text);
    let at = choose|k: int| 0 <= k < all.len() && all[k] == text;
    let first = lines[0];
    let key = crate::text::trimmed(stage.artifact_key@);
    crate::text::joined_texts_hold_their_parts(lines, "\n"@, 0);
    crate::text::lemma_part_occurs(
        "[pipeline:active] Stage: "@ + crate::chat::store::stage_name(stage.stage)
            + ". Required artifact key: "@,
        key,
        "."@,
    );
    crate::text::lemma_occurs_through(key, first, text);
    lemma_said(all, text, key);
    let head: int = if crate::text::blank(stage.system_prompt@) {
        1
    } else {
        2
    };
    if head == 2 {
        let part = crate::text::trimmed(stage.system_prompt@);
        assert(lines[1] =~= "Stage instruction: "@ + part + none);
        crate::text::lemma_part_occurs("Stage instruction: "@, part, none);
        crate::text::joined_texts_hold_their_parts(lines, "\n"@, 1);
        crate::text::lemma_occurs_through(part, lines[1], text);
        lemma_said(all, text, part);
    }
    assert forall|i: int| 0 <= i < stage.worker_agents@.len() implies said_in_order(
        all,
        crate::text::trimmed((#[trigger] stage.worker_agents@[i]).id@),
        crate::text::trimmed(stage.worker_agents@[i].system_prompt@),
    ) && said(all, crate::text::trimmed(stage.worker_agents@[i].direction@)) by {
        let worker = stage.worker_agents@[i];
        let id = crate::text::trimmed(worker.id@);
        let direction = crate::text::trimmed(worker.direction@);
        let prompt = crate::text::trimmed(worker.system_prompt@);
        let line = lines[head + i];
        assert(line == worker_line(worker));
        assert(line =~= "Worker "@ + id + (" ["@ + direction + "]: "@) + prompt + none);
        crate::text::lemma_one_after_other(
            "Worker "@,
            id,
            " ["@ + direction + "]: "@,
            prompt,
            none,
        );
        crate::text::joined_texts_hold_their_parts(lines, "\n"@, head + i);
        crate::text::lemma_order_through(id, prompt, line, text);
        assert(crate::text::one_after_other(all[at], id, prompt));
        assert(line =~= ("Worker "@ + id + " ["@) + direction + ("]: "@ + prompt));
        crate::text::lemma_part_occurs("Worker "@ + id + " ["@, direction, "]: "@ + prompt);
        crate::text::lemma_occurs_through(direction, line, text);
        lemma_said(all, text, direction);
    }
    if stage.requires_human_approval {
        let last = head + stage.worker_agents@.len();
        let part = "stop for explicit human approval"@;
        let line = "After producing the artifact, stop for explicit human approval."@;
        assert(lines[last] == line);
        reveal_strlit("After producing the artifact, stop for explicit human approval.");
        reveal_strlit("stop for explicit human approval");
        reveal_strlit("After producing the artifact, ");
        reveal_strlit(".");
        assert(line =~= "After producing the artifact, "@ + part + "."@);
        crate::text::lemma_part_occurs("After producing the artifact, "@, part, "."@);
        crate::text::joined_texts_hold_their_parts(lines, "\n"@, last);
        crate::text::lemma_occurs_through(part, line, text);
        lemma_said(all, text, part);
    }
}

/// What the layers say, the system messages of the prompt say, whatever the
/// conversation holds.
pub proof fn prompts_say_what_their_layers_say(
    messages: Seq<(Role, Seq<char>)>,
    layers: Seq<Seq<char>>,
    i: int,
)
    requires
        0 <= i < layers.len(),
    ensures
        exists|k: int|
            0 <= k < layered(messages, layers).len() && #[trigger] layered(messages, layers)[k] == (
                Role::System,
                layers[i],
            ),
{
    lemma_start_in_range(messages);
    let at = conversation_start(messages);
    assert(layered(messages, layers)[at + i] == (Role::System, layers[i]));
}

/// A prompt keeps every message of its context, in its order.
pub proof fn prompts_keep_their_context(
    messages: Seq<(Role, Seq<char>)>,
    layers: Seq<Seq<char>>,
    i: int,
)
    requires
        0 <= i < messages.len(),
    ensures
        layered(messages, layers).len() == messages.len() + layers.len(),
        i < conversation_start(messages) ==> layered(messages, layers)[i] == messages[i],
        i >= conversation_start(messages) ==> layered(messages, layers)[i + layers.len()]
            == messages[i],
        messages[i].0 != Role::System ==> conversation_start(messages) <= i,
{
    lemma_start_in_range(messages);
}

proof fn lemma_filled(fields: Seq<ProfileField>, i: int)
    requires
        0 <= i < fields.len(),
        !crate::text::blank(fields[i].value@),
    ensures
        filled_values(fields).contains(fields[i].value@),
    decreases fields.len(),
{
    let rest = filled_values(fields.drop_last());
    let last = at_most_one(
        if crate::text::blank(fields.last().value@) {
            None
        } else {
            Some(fields.last().value@)
        },
    );
    if i < fields.len() - 1 {
        lemma_filled(fields.drop_last(), i);
    } else {
        assert(last[0] == fields[i].value@);
    }
    lemma_either(rest, last, fields[i].value@);
}

/// What was shown before the user's profile is what the layers before it show: the
/// domain, every filled field of the agent's profile, and every invariant.
pub proof fn what_was_shown_is_known(
    domain: Seq<char>,
    profile: AgentProfile,
    invariants: Seq<String>,
    i: int,
    k: int,
)
    requires
        0 <= i < profile.fields@.len(),
        0 <= k < invariants.len(),
    ensures
        domain.len() > 0 ==> shown_before(domain, Some(profile), invariants).contains(domain),
        !crate::text::blank(profile.fields@[i].value@) ==> shown_before(
            domain,
            Some(profile),
            invariants,
        ).contains(profile.fields@[i].value@),
        shown_before(domain, Some(profile), invariants).contains(invariants[k]@),
{
    let a = at_most_one(
        if domain.len() == 0 {
            None
        } else {
            Some(domain)
        },
    );
    let b = filled_values(profile.fields@);
    let c = crate::text::texts(invariants);
    if domain.len() > 0 {
        assert(a[0] == domain);
        lemma_either(a, b, domain);
        lemma_either(a + b, c, domain);
    }
    if !crate::text::blank(profile.fields@[i].value@) {
        lemma_filled(profile.fields@, i);
        lemma_either(a, b, profile.fields@[i].value@);
        lemma_either(a + b, c, profile.fields@[i].value@);
    }
    assert(c[k] == invariants[k]@);
    lemma_either(a + b, c, invariants[k]@);
}

/// How answers are to be given is told last of all layers, to every responder that
/// has rules, a task or invariants to keep to, and to no other.
pub proof fn the_policy_of_answers_is_told_last(layers: PromptLayers, rules: Option<Seq<char>>)
    ensures
        rules is Some || layers.task is Some || layers.invariants@.len() > 0 ==> layer_texts(
            layers,
            rules,
        ).len() > 0 && layer_texts(layers, rules)[layer_texts(layers, rules).len() - 1]
            == OUTPUT_POLICY@,
        rules is None && layers.task is None && layers.invariants@.len() == 0
            && layers.domain@.len() == 0 && layers.profile_block is None
            && layers.worker_outputs@.len() == 0 && layers.retry_violations@.len() == 0
            && layers.user_block is None ==> layer_texts(layers, rules).len() == 0,
{
}

} // verus!
