//! What a message tells about a task: found by code, stored with the task and in
//! the agent's profile.
use vstd::prelude::*;

use crate::chat::store::{AgentProfile, ProfileField, TaskContext};
use crate::text::{
    byte_len, cat3, contains, find, is_blank, same, split_any, strip_leading_any, to_lowercase,
    trim,
};

verus! {

broadcast use vstd::string::group_string_axioms;

/// Whether a text holds one of the needles.
pub open spec fn holds_any(text: Seq<char>, needles: Seq<&str>) -> bool {
    exists|i: int| 0 <= i < needles.len() && crate::text::contains_text(text, #[trigger] needles[i]@)
}

fn has_any(text: &str, needles: &[&str]) -> (r: bool)
    ensures
        r == holds_any(text@, needles@),
{
    let mut i: usize = 0;
    while i < needles.len()
        invariant
            i <= needles.len(),
            forall|j: int|
                0 <= j < i ==> !crate::text::contains_text(text@, #[trigger] needles@[j]@),
        decreases needles.len() - i,
    {
        if contains(text, needles[i]) {
            assert(crate::text::contains_text(text@, needles@[i as int]@));
            return true;
        }
        i = i + 1;
    }
    false
}

/// The sentences of a text.
pub open spec fn sentences(text: Seq<char>) -> Seq<Seq<char>> {
    crate::text::split_any_of(text, seq!['\n', '.', '!', '?'])
}

/// The first sentence, from `from` on, that holds a needle in lower case.
pub open spec fn sentence_index(parts: Seq<Seq<char>>, needles: Seq<&str>, from: int) -> Option<int>
    decreases parts.len() - from,
{
    if from < 0 || from >= parts.len() {
        None
    } else if holds_any(crate::text::lowercase(crate::text::trimmed(parts[from])), needles) {
        Some(from)
    } else {
        sentence_index(parts, needles, from + 1)
    }
}

/// The first sentence that holds a needle in lower case; not a blank one.
pub open spec fn sentence_of(text: Seq<char>, needles: Seq<&str>) -> Option<Seq<char>> {
    match sentence_index(sentences(text), needles, 0) {
        Some(i) if !crate::text::blank(sentences(text)[i]) => Some(
            crate::text::trimmed(sentences(text)[i]),
        ),
        _ => None,
    }
}

fn split_sentences(text: &str) -> (r: Vec<String>)
    ensures
        crate::text::texts(r@) == sentences(text@),
{
    let seps: [char; 4] = ['\n', '.', '!', '?'];
    assert(seps@ =~= seq!['\n', '.', '!', '?']);
    split_any(text, &seps)
}

/// The first sentence that holds a needle in lower case.
pub fn sentence_with(text: &str, needles: &[&str]) -> (r: Option<String>)
    ensures
        crate::text::option_text(r) == sentence_of(text@, needles@),
{
    let parts = split_sentences(text);
    let ghost all = sentences(text@);
    let mut i: usize = 0;
    while i < parts.len()
        invariant
            i <= parts.len(),
            all == sentences(text@),
            crate::text::texts(parts@) == all,
            sentence_index(all, needles@, 0) == sentence_index(all, needles@, i as int),
        decreases parts.len() - i,
    {
        assert(all[i as int] == parts@[i as int]@);
        let part = trim(parts[i].as_str());
        let lower = to_lowercase(part);
        if has_any(lower.as_str(), needles) {
            if part.is_empty() {
                return None;
            }
            return Some(part.to_string());
        }
        i = i + 1;
    }
    None
}

/// How many bytes of `lower` lie before the end of the first `label`.
pub open spec fn bytes_to_label_end(lower: Seq<char>, label: Seq<char>) -> Option<int> {
    match crate::text::first_occurrence(lower, label) {
        Some(p) => Some(
            vstd::utf8::encode_utf8(lower.take(p)).len() as int + vstd::utf8::encode_utf8(
                label,
            ).len() as int,
        ),
        None => None,
    }
}

/// Whether the end of the label in `lower` is also a place in `text`: lower case
/// can take more bytes, or fewer.
pub open spec fn label_in_place(text: Seq<char>, lower: Seq<char>, label: Seq<char>) -> bool {
    bytes_to_label_end(lower, label) matches Some(b) ==> vstd::utf8::is_char_boundary(
        vstd::utf8::encode_utf8(text),
        b,
    )
}

/// What follows the first `bytes` bytes of a text.
pub open spec fn after_bytes(text: Seq<char>, bytes: int) -> Seq<char> {
    let all = vstd::utf8::encode_utf8(text);
    vstd::utf8::decode_utf8(all.subrange(bytes, all.len() as int))
}

/// What a sentence holds after its label and the marks that may follow it.
pub open spec fn label_value(rest: Seq<char>) -> Option<Seq<char>> {
    let value = crate::text::trimmed(
        crate::text::strip_leading(
            crate::text::trimmed(sentences(rest)[0]),
            seq![':', '-', '—', ' '],
        ),
    );
    if value.len() == 0 {
        None
    } else {
        Some(value)
    }
}

/// What stands after the first `label`, up to the end of the sentence.
pub open spec fn value_after(text: Seq<char>, lower: Seq<char>, label: Seq<char>) -> Option<
    Seq<char>,
> {
    match bytes_to_label_end(lower, label) {
        Some(b) => label_value(after_bytes(text, b)),
        None => None,
    }
}

proof fn lemma_sentences_exist(text: Seq<char>)
    ensures
        sentences(text).len() > 0,
{
}

fn label_end(lower: &str, label: &str) -> (r: Option<usize>)
    ensures
        match r {
            Some(b) => bytes_to_label_end(lower@, label@) == Some(b as int),
            None => bytes_to_label_end(lower@, label@) is None,
        },
{
    match find(lower, label) {
        Some(p) => {
            let m: usize = label.unicode_len();
            proof {
                let l = lower@;
                crate::text::lemma_first_from(l, label@, 0);
                assert(l.subrange(p as int, p + m) == label@);
                assert(l.subrange(0, p as int) =~= l.take(p as int));
                assert(l =~= l.take(p as int) + label@ + l.skip(p + m));
                crate::text::lemma_bytes_of_concat(l.take(p as int) + label@, l.skip(p + m));
                crate::text::lemma_bytes_of_concat(l.take(p as int), label@);
            }
            let all: usize = byte_len(lower);
            let before: usize = byte_len(lower.substring_char(0, p));
            let own: usize = byte_len(label);
            Some(before + own)
        },
        None => None,
    }
}

/// What stands after the first `label`, up to the end of the sentence. `lower`
/// is the text in lower case.
pub fn value_after_label(text: &str, lower: &str, label: &str) -> (r: Option<String>)
    requires
        label_in_place(text@, lower@, label@),
    ensures
        crate::text::option_text(r) == value_after(text@, lower@, label@),
{
    let start = match label_end(lower, label) {
        Some(start) => start,
        None => {
            return None;
        },
    };
    let rest = text.split_at(start).1;
    proof {
        vstd::utf8::encode_utf8_decode_utf8(rest@);
        lemma_sentences_exist(rest@);
    }
    let parts = split_sentences(rest);
    assert(crate::text::texts(parts@)[0] == parts@[0]@);
    let marks: [char; 4] = [':', '-', '—', ' '];
    assert(marks@ =~= seq![':', '-', '—', ' ']);
    let value = trim(strip_leading_any(trim(parts[0].as_str()), &marks));
    if value.is_empty() {
        None
    } else {
        Some(value.to_string())
    }
}

/// A fact of its own where there is one.
pub open spec fn fact_of(key: Seq<char>, value: Option<Seq<char>>) -> Seq<(Seq<char>, Seq<char>)> {
    match value {
        Some(v) => seq![(key, v)],
        None => Seq::empty(),
    }
}

/// The facts about a claim that a message states, from the message and its lower
/// case.
pub open spec fn legal_facts(prompt: Seq<char>, lower: Seq<char>) -> Seq<(Seq<char>, Seq<char>)> {
    fact_of(
        "debtor_type"@,
        if crate::text::contains_text(lower, "заказчик ооо"@) || crate::text::contains_text(
            lower,
            "должник ооо"@,
        ) {
            Some("ООО"@)
        } else {
            None
        },
    ) + fact_of(
        "contract_details"@,
        sentence_of(prompt, seq!["номер", "договор №", "договор номер"]),
    ) + fact_of("acceptance_act"@, sentence_of(prompt, seq!["акт подпис"])) + fact_of(
        "payment_terms"@,
        sentence_of(prompt, seq!["оплата в течение", "срок оплаты"]),
    ) + fact_of("debtor_address"@, value_after(prompt, lower, "адрес"@)) + fact_of(
        "desired_outcome"@,
        if crate::text::contains_text(lower, "без суда"@) {
            Some("начать с досудебной претензии, без суда"@)
        } else {
            None
        },
    ) + fact_of(
        "claim_status"@,
        if crate::text::contains_text(lower, "без суда"@) {
            Some("претензия ещё не отправлена"@)
        } else {
            None
        },
    )
}

/// Facts as texts.
pub open spec fn fact_views(facts: Seq<(String, String)>) -> Seq<(Seq<char>, Seq<char>)> {
    Seq::new(facts.len(), |i: int| (facts[i].0@, facts[i].1@))
}

fn push_fact(facts: &mut Vec<(String, String)>, key: &str, value: Option<String>)
    ensures
        fact_views(final(facts)@) == fact_views(old(facts)@) + fact_of(
            key@,
            crate::text::option_text(value),
        ),
{
    match value {
        Some(value) => {
            let ghost shown = value@;
            facts.push((key.to_string(), value));
            assert(fact_views(facts@) =~= fact_views(old(facts)@) + seq![(key@, shown)]);
        },
        None => {
            assert(fact_views(facts@) =~= fact_views(old(facts)@) + Seq::<
                (Seq<char>, Seq<char>),
            >::empty());
        },
    }
}

fn when(condition: bool, value: &str) -> (r: Option<String>)
    ensures
        crate::text::option_text(r) == (if condition {
            Some(value@)
        } else {
            None
        }),
{
    if condition {
        Some(value.to_string())
    } else {
        None
    }
}

/// The facts about a claim that a message states, given the message in lower
/// case.
pub fn legal_task_facts(prompt: &str, lower: &str) -> (r: Vec<(String, String)>)
    requires
        label_in_place(prompt@, lower@, "адрес"@),
    ensures
        fact_views(r@) == legal_facts(prompt@, lower@),
{
    let mut facts: Vec<(String, String)> = Vec::new();
    let contract: [&str; 3] = ["номер", "договор №", "договор номер"];
    let act: [&str; 1] = ["акт подпис"];
    let payment: [&str; 2] = ["оплата в течение", "срок оплаты"];
    assert(contract@ =~= seq!["номер", "договор №", "договор номер"]);
    assert(act@ =~= seq!["акт подпис"]);
    assert(payment@ =~= seq!["оплата в течение", "срок оплаты"]);
    assert(fact_views(facts@) =~= Seq::<(Seq<char>, Seq<char>)>::empty());
    let company = contains(lower, "заказчик ооо") || contains(lower, "должник ооо");
    let settled = contains(lower, "без суда");
    push_fact(&mut facts, "debtor_type", when(company, "ООО"));
    push_fact(&mut facts, "contract_details", sentence_with(prompt, &contract));
    push_fact(&mut facts, "acceptance_act", sentence_with(prompt, &act));
    push_fact(&mut facts, "payment_terms", sentence_with(prompt, &payment));
    push_fact(&mut facts, "debtor_address", value_after_label(prompt, lower, "адрес"));
    push_fact(
        &mut facts,
        "desired_outcome",
        when(settled, "начать с досудебной претензии, без суда"),
    );
    push_fact(&mut facts, "claim_status", when(settled, "претензия ещё не отправлена"));
    assert(fact_views(facts@) =~= legal_facts(prompt@, lower@));
    facts
}

/// The facts about a claim that a message states. None where the lower case of
/// the message takes other bytes than the message before its address, so that
/// the address has no place in it.
pub fn extract_legal_task_facts(prompt: &str) -> (r: Option<Vec<(String, String)>>)
    ensures
        match r {
            Some(facts) => label_in_place(
                prompt@,
                crate::text::lowercase(prompt@),
                "адрес"@,
            ) && fact_views(facts@) == legal_facts(prompt@, crate::text::lowercase(prompt@)),
            None => !label_in_place(prompt@, crate::text::lowercase(prompt@), "адрес"@),
        },
{
    let lower = to_lowercase(prompt);
    if let Some(start) = label_end(lower.as_str(), "адрес") {
        if !prompt.is_char_boundary(start) {
            return None;
        }
    }
    Some(legal_task_facts(prompt, lower.as_str()))
}

/// How a fact is noted with a task.
pub open spec fn fact_note(fact: (Seq<char>, Seq<char>)) -> Seq<char> {
    fact.0 + ": "@ + fact.1
}

/// The results of a task with one more note, unless it is there.
pub open spec fn noted(results: Seq<Seq<char>>, note: Seq<char>) -> Seq<Seq<char>> {
    if results.contains(note) {
        results
    } else {
        results.push(note)
    }
}

/// The results of a task with the facts noted, one after the other.
pub open spec fn with_notes(
    results: Seq<Seq<char>>,
    facts: Seq<(Seq<char>, Seq<char>)>,
) -> Seq<Seq<char>>
    decreases facts.len(),
{
    if facts.len() == 0 {
        results
    } else {
        noted(with_notes(results, facts.drop_last()), fact_note(facts.last()))
    }
}

fn note_result(results: &mut Vec<String>, note: String)
    ensures
        crate::text::texts(final(results)@) == noted(
            crate::text::texts(old(results)@),
            note@,
        ),
{
    let mut i: usize = 0;
    while i < results.len()
        invariant
            i <= results.len(),
            results@ == old(results)@,
            forall|j: int| 0 <= j < i ==> (#[trigger] results@[j])@ != note@,
        decreases results.len() - i,
    {
        if same(results[i].as_str(), note.as_str()) {
            assert(crate::text::texts(results@)[i as int] == note@);
            return;
        }
        i = i + 1;
    }
    let ghost shown = note@;
    assert(!crate::text::texts(results@).contains(shown)) by {
        if crate::text::texts(results@).contains(shown) {
            let k = crate::text::texts(results@).index_of(shown);
            assert(results@[k]@ == shown);
        }
    }
    results.push(note);
    assert(crate::text::texts(results@) =~= crate::text::texts(old(results)@).push(shown));
}

/// Notes facts with a task.
pub fn capture_task_facts(results: &mut Vec<String>, facts: &Vec<(String, String)>)
    ensures
        crate::text::texts(final(results)@) == with_notes(
            crate::text::texts(old(results)@),
            fact_views(facts@),
        ),
{
    let ghost views = fact_views(facts@);
    let mut i: usize = 0;
    assert(views.take(0) =~= Seq::<(Seq<char>, Seq<char>)>::empty());
    while i < facts.len()
        invariant
            i <= facts.len(),
            views == fact_views(facts@),
            crate::text::texts(results@) == with_notes(
                crate::text::texts(old(results)@),
                views.take(i as int),
            ),
        decreases facts.len() - i,
    {
        assert(views.take(i + 1).drop_last() =~= views.take(i as int));
        let note = cat3(facts[i].0.as_str(), ": ", facts[i].1.as_str());
        note_result(results, note);
        i = i + 1;
    }
    assert(views.take(i as int) =~= views);
}

/// The first fact with the key `key`, from `from` on.
pub open spec fn fact_index(
    facts: Seq<(Seq<char>, Seq<char>)>,
    key: Seq<char>,
    from: int,
) -> Option<int>
    decreases facts.len() - from,
{
    if from < 0 || from >= facts.len() {
        None
    } else if facts[from].0 == key {
        Some(from)
    } else {
        fact_index(facts, key, from + 1)
    }
}

/// The value of a field after facts were taken over: a field with a value keeps
/// it, any other has the first fact of its key.
pub open spec fn field_after(field: ProfileField, facts: Seq<(Seq<char>, Seq<char>)>) -> Seq<char> {
    if !crate::text::blank(field.value@) {
        field.value@
    } else {
        match fact_index(facts, field.key@, 0) {
            Some(i) => facts[i].1,
            None => field.value@,
        }
    }
}

/// Whether a field takes a fact over.
pub open spec fn field_takes(field: ProfileField, facts: Seq<(Seq<char>, Seq<char>)>) -> bool {
    crate::text::blank(field.value@) && fact_index(facts, field.key@, 0) is Some
}

fn fact_for(facts: &Vec<(String, String)>, key: &str) -> (r: Option<usize>)
    ensures
        match r {
            Some(i) => i < facts@.len() && fact_index(fact_views(facts@), key@, 0) == Some(
                i as int,
            ),
            None => fact_index(fact_views(facts@), key@, 0) is None,
        },
{
    let ghost views = fact_views(facts@);
    let mut i: usize = 0;
    while i < facts.len()
        invariant
            i <= facts.len(),
            views == fact_views(facts@),
            fact_index(views, key@, 0) == fact_index(views, key@, i as int),
        decreases facts.len() - i,
    {
        assert(views[i as int].0 == facts@[i as int].0@);
        if same(facts[i].0.as_str(), key) {
            return Some(i);
        }
        i = i + 1;
    }
    None
}

/// Whether `b` is `a` with its empty fields filled with facts, at the time `now`.
pub open spec fn profile_captured(
    a: AgentProfile,
    b: AgentProfile,
    facts: Seq<(Seq<char>, Seq<char>)>,
    now: u64,
) -> bool {
    &&& crate::chat::swarm::agents::service::same_questions(a.fields@, b.fields@)
    &&& forall|i: int|
        0 <= i < a.fields@.len() ==> (#[trigger] b.fields@[i]).value@ == field_after(
            a.fields@[i],
            facts,
        )
    &&& b.updated_at_unix == (if exists|i: int|
        0 <= i < a.fields@.len() && field_takes(#[trigger] a.fields@[i], facts) {
        now
    } else {
        a.updated_at_unix
    })
}

/// Fills the empty fields of a profile with facts, and notes the time where one
/// was filled.
pub fn capture_profile_fields(
    profile: &mut AgentProfile,
    facts: &Vec<(String, String)>,
    now: u64,
)
    ensures
        profile_captured(*old(profile), *final(profile), fact_views(facts@), now),
{
    let ghost first = profile.fields@;
    let ghost views = fact_views(facts@);
    let mut changed = false;
    let mut i: usize = 0;
    while i < profile.fields.len()
        invariant
            i <= profile.fields.len(),
            first == old(profile).fields@,
            views == fact_views(facts@),
            profile.updated_at_unix == old(profile).updated_at_unix,
            crate::chat::swarm::agents::service::same_questions(first, profile.fields@),
            forall|j: int|
                0 <= j < i ==> (#[trigger] profile.fields@[j]).value@ == field_after(
                    first[j],
                    views,
                ),
            forall|j: int| i <= j < first.len() ==> #[trigger] profile.fields@[j] == first[j],
            changed == (exists|j: int| 0 <= j < i && field_takes(#[trigger] first[j], views)),
        decreases profile.fields.len() - i,
    {
        assert(profile.fields@[i as int] == first[i as int]);
        if is_blank(profile.fields[i].value.as_str()) {
            match fact_for(facts, profile.fields[i].key.as_str()) {
                Some(k) => {
                    assert(views[k as int].1 == facts@[k as int].1@);
                    profile.fields[i].value = facts[k].1.clone();
                    assert(field_takes(first[i as int], views));
                    changed = true;
                },
                None => {},
            }
        }
        i = i + 1;
    }
    if changed {
        profile.updated_at_unix = now;
    }
}

/// Whether `b` is `a` with what a message and its answer tell noted.
pub open spec fn seeded(
    a: TaskContext,
    b: TaskContext,
    prompt: Seq<char>,
    title: Seq<char>,
    facts: Seq<(Seq<char>, Seq<char>)>,
    decision: Option<Seq<char>>,
) -> bool {
    if crate::text::blank(prompt) {
        b == a
    } else {
        let unsynced = crate::text::blank(a.current_step@) || crate::text::blank(
            a.expected_action@,
        );
        let told = with_notes(crate::text::texts(a.results@), facts);
        &&& b.goal@ == (if crate::text::blank(a.goal@) {
            crate::text::trimmed(prompt)
        } else {
            a.goal@
        })
        &&& b.title@ == (if crate::text::blank(a.title@) {
            title
        } else {
            a.title@
        })
        &&& if unsynced {
            crate::chat::store::in_step(b) && b.resume_hint == b.current_step
        } else {
            b.current_step == a.current_step && b.expected_action == a.expected_action
                && b.resume_hint == a.resume_hint
        }
        &&& crate::text::texts(b.results@) == (match decision {
            Some(d) => noted(told, d),
            None => told,
        })
        &&& b == (TaskContext {
            goal: b.goal,
            title: b.title,
            current_step: b.current_step,
            expected_action: b.expected_action,
            resume_hint: b.resume_hint,
            results: b.results,
            ..a
        })
    }
}

/// Notes with a task what a message and its answer tell: the goal and the title
/// where there is none yet, the facts, and a decision.
pub fn seed_task_progress(
    task: &mut TaskContext,
    prompt: &str,
    title: &str,
    facts: &Vec<(String, String)>,
    decision: Option<String>,
)
    ensures
        seeded(
            *old(task),
            *final(task),
            prompt@,
            title@,
            fact_views(facts@),
            crate::text::option_text(decision),
        ),
{
    let prompt = trim(prompt);
    if prompt.is_empty() {
        return;
    }
    if is_blank(task.goal.as_str()) {
        task.goal = prompt.to_string();
    }
    if is_blank(task.title.as_str()) {
        task.title = title.to_string();
    }
    if is_blank(task.current_step.as_str()) || is_blank(task.expected_action.as_str()) {
        task.sync_progress_for_stage();
    }
    capture_task_facts(&mut task.results, facts);
    if let Some(decision) = decision {
        note_result(&mut task.results, decision);
    }
}

/// The notes of all facts are there, and what was there stays.
pub proof fn lemma_with_notes(
    results: Seq<Seq<char>>,
    facts: Seq<(Seq<char>, Seq<char>)>,
    note: Seq<char>,
)
    ensures
        results.contains(note) ==> with_notes(results, facts).contains(note),
        forall|i: int|
            0 <= i < facts.len() ==> with_notes(results, facts).contains(
                fact_note(#[trigger] facts[i]),
            ),
    decreases facts.len(),
{
    if facts.len() > 0 {
        let before = with_notes(results, facts.drop_last());
        lemma_with_notes(results, facts.drop_last(), note);
        let last = fact_note(facts.last());
        if results.contains(note) {
            lemma_noted(before, last, note);
        }
        assert forall|i: int| 0 <= i < facts.len() implies with_notes(results, facts).contains(
            fact_note(#[trigger] facts[i]),
        ) by {
            lemma_noted(before, last, fact_note(facts[i]));
            if i < facts.len() - 1 {
                assert(facts.drop_last()[i] == facts[i]);
            }
        }
    }
}

/// A note that is taken is there, and what was there stays.
pub proof fn lemma_noted(results: Seq<Seq<char>>, note: Seq<char>, other: Seq<char>)
    ensures
        noted(results, note).contains(note),
        results.contains(other) ==> noted(results, note).contains(other),
{
    if !results.contains(note) {
        assert(results.push(note)[results.len() as int] == note);
    }
    if results.contains(other) {
        let i = choose|i: int| 0 <= i < results.len() && results[i] == other;
        assert(results.push(note)[i] == other);
    }
}

/// A note tells the key of a fact and, behind it, the value.
pub proof fn a_note_tells_its_fact(fact: (Seq<char>, Seq<char>))
    ensures
        crate::text::one_after_other(fact_note(fact), fact.0, fact.1),
{
    let none = Seq::<char>::empty();
    crate::text::lemma_one_after_other(none, fact.0, ": "@, fact.1, none);
    assert(none + fact.0 + ": "@ + fact.1 + none =~= fact_note(fact));
}

/// A note is taken once, behind those that are there, which all stay in their
/// places.
pub proof fn notes_are_taken_once(results: Seq<Seq<char>>, note: Seq<char>, i: int)
    requires
        0 <= i < results.len(),
    ensures
        noted(results, note).contains(note),
        noted(results, note)[i] == results[i],
        results.contains(note) ==> noted(results, note).len() == results.len(),
        !results.contains(note) ==> noted(results, note).len() == results.len() + 1,
        noted(noted(results, note), note) == noted(results, note),
{
    lemma_noted(results, note, note);
}

/// A message names a task that has no name and gives a goal to one that has none;
/// a task that has them keeps them. Its stage, plan and artifacts are not for a
/// message to change, and an empty message changes nothing.
pub proof fn a_message_seeds_what_is_missing(
    a: TaskContext,
    b: TaskContext,
    prompt: Seq<char>,
    title: Seq<char>,
    facts: Seq<(Seq<char>, Seq<char>)>,
    decision: Option<Seq<char>>,
)
    requires
        seeded(a, b, prompt, title, facts, decision),
    ensures
        crate::text::blank(prompt) ==> b == a,
        !crate::text::blank(a.goal@) ==> b.goal@ == a.goal@,
        crate::text::blank(a.goal@) && !crate::text::blank(prompt) ==> b.goal@
            == crate::text::trimmed(prompt),
        !crate::text::blank(a.title@) ==> b.title@ == a.title@,
        crate::text::blank(a.title@) && !crate::text::blank(prompt) ==> b.title@ == title,
        b.stage == a.stage && b.plan == a.plan && b.artifacts == a.artifacts && b.paused == a.paused
            && b.plan_approved == a.plan_approved && b.validation_passed == a.validation_passed
            && b.pipeline == a.pipeline,
        decision is Some && !crate::text::blank(prompt) ==> crate::text::texts(
            b.results@,
        ).contains(decision->0),
{
    if decision is Some {
        lemma_noted(
            with_notes(crate::text::texts(a.results@), facts),
            decision->0,
            decision->0,
        );
    }
}

proof fn lemma_first_fact(
    facts: Seq<(Seq<char>, Seq<char>)>,
    key: Seq<char>,
    from: int,
    k: int,
)
    requires
        0 <= from <= k <= facts.len(),
        k < facts.len() ==> facts[k].0 == key,
        forall|j: int| from <= j < k ==> (#[trigger] facts[j]).0 != key,
    ensures
        k < facts.len() ==> fact_index(facts, key, from) == Some(k),
        k == facts.len() ==> fact_index(facts, key, from) is None,
    decreases k - from,
{
    if from < k {
        assert(facts[from].0 != key);
        lemma_first_fact(facts, key, from + 1, k);
    }
}

/// A field that has a value keeps it, whatever a message tells; one that has none
/// takes the first fact of its key, and stays empty where there is no such fact.
pub proof fn empty_fields_take_the_first_fact(
    a: AgentProfile,
    b: AgentProfile,
    facts: Seq<(Seq<char>, Seq<char>)>,
    now: u64,
    i: int,
    k: int,
)
    requires
        profile_captured(a, b, facts, now),
        0 <= i < a.fields@.len(),
        0 <= k <= facts.len(),
        k < facts.len() ==> facts[k].0 == a.fields@[i].key@,
        forall|j: int| 0 <= j < k ==> (#[trigger] facts[j]).0 != a.fields@[i].key@,
    ensures
        b.fields@.len() == a.fields@.len(),
        b.fields@[i].key == a.fields@[i].key,
        b.fields@[i].question == a.fields@[i].question,
        !crate::text::blank(a.fields@[i].value@) ==> b.fields@[i].value@ == a.fields@[i].value@,
        crate::text::blank(a.fields@[i].value@) && k < facts.len() ==> b.fields@[i].value@
            == facts[k].1 && b.updated_at_unix == now,
        k == facts.len() ==> b.fields@[i].value@ == a.fields@[i].value@,
{
    lemma_first_fact(facts, a.fields@[i].key@, 0, k);
    assert(b.fields@[i].value@ == field_after(a.fields@[i], facts));
    if crate::text::blank(a.fields@[i].value@) && k < facts.len() {
        assert(field_takes(a.fields@[i], facts));
    }
}

/// A sentence that is found is one of the text's, whole but for the white space
/// around it, and names what was looked for.
pub proof fn a_found_sentence_is_in_the_text(text: Seq<char>, needles: Seq<&str>)
    ensures
        sentence_of(text, needles) matches Some(found) ==> found.len() > 0
            && crate::text::contains_text(text, found) && holds_any(
            crate::text::lowercase(found),
            needles,
        ),
{
    let none = Seq::<char>::empty();
    let parts = sentences(text);
    lemma_sentence_index(parts, needles, 0);
    if let Some(i) = sentence_index(parts, needles, 0) {
        let part = parts[i];
        if !crate::text::blank(part) {
            let r = crate::text::trimming_takes_off_white_space_alone(part);
            let found = crate::text::trimmed(part);
            crate::text::lemma_part_occurs(part.take(r.0), found, part.skip(r.1));
            assert(part.take(r.0) + found + part.skip(r.1) =~= part);
            crate::text::pieces_stand_in_their_text(text, seq!['\n', '.', '!', '?'], i);
            crate::text::lemma_occurs_through(found, part, text);
        }
    }
}

proof fn lemma_sentence_index(parts: Seq<Seq<char>>, needles: Seq<&str>, from: int)
    requires
        0 <= from <= parts.len(),
    ensures
        sentence_index(parts, needles, from) matches Some(i) ==> from <= i < parts.len()
            && holds_any(crate::text::lowercase(crate::text::trimmed(parts[i])), needles),
    decreases parts.len() - from,
{
    if from < parts.len() {
        lemma_sentence_index(parts, needles, from + 1);
    }
}

/// What a message tells of a claim: a company as the debtor where it is named so,
/// and a settlement out of court where one is wished for; and neither where the
/// message holds no such words.
pub proof fn claims_are_told_by_their_words(prompt: Seq<char>, lower: Seq<char>)
    ensures
        crate::text::contains_text(lower, "заказчик ооо"@) || crate::text::contains_text(
            lower,
            "должник ооо"@,
        ) ==> legal_facts(prompt, lower).contains(("debtor_type"@, "ООО"@)),
        crate::text::contains_text(lower, "без суда"@) ==> legal_facts(prompt, lower).contains(
            ("desired_outcome"@, "начать с досудебной претензии, без суда"@),
        ) && legal_facts(prompt, lower).contains(
            ("claim_status"@, "претензия ещё не отправлена"@),
        ),
        sentence_of(prompt, seq!["акт подпис"]) matches Some(found) ==> legal_facts(
            prompt,
            lower,
        ).contains(("acceptance_act"@, found)),
        sentence_of(prompt, seq!["оплата в течение", "срок оплаты"]) matches Some(found)
            ==> legal_facts(prompt, lower).contains(("payment_terms"@, found)),
        sentence_of(prompt, seq!["номер", "договор №", "договор номер"]) matches Some(found)
            ==> legal_facts(prompt, lower).contains(("contract_details"@, found)),
        value_after(prompt, lower, "адрес"@) matches Some(found) ==> legal_facts(
            prompt,
            lower,
        ).contains(("debtor_address"@, found)),
{
    let a = fact_of(
        "debtor_type"@,
        if crate::text::contains_text(lower, "заказчик ооо"@) || crate::text::contains_text(
            lower,
            "должник ооо"@,
        ) {
            Some("ООО"@)
        } else {
            None
        },
    );
    let b = fact_of(
        "contract_details"@,
        sentence_of(prompt, seq!["номер", "договор №", "договор номер"]),
    );
    let c = fact_of("acceptance_act"@, sentence_of(prompt, seq!["акт подпис"]));
    let d = fact_of(
        "payment_terms"@,
        sentence_of(prompt, seq!["оплата в течение", "срок оплаты"]),
    );
    let e = fact_of("debtor_address"@, value_after(prompt, lower, "адрес"@));
    let f = fact_of(
        "desired_outcome"@,
        if crate::text::contains_text(lower, "без суда"@) {
            Some("начать с досудебной претензии, без суда"@)
        } else {
            None
        },
    );
    let g = fact_of(
        "claim_status"@,
        if crate::text::contains_text(lower, "без суда"@) {
            Some("претензия ещё не отправлена"@)
        } else {
            None
        },
    );
    let all = legal_facts(prompt, lower);
    assert(all =~= a + b + c + d + e + f + g);
    if a.len() > 0 {
        assert(all[0] == a[0]);
    }
    if b.len() > 0 {
        assert(all[a.len() as int] == b[0]);
    }
    if c.len() > 0 {
        assert(all[(a + b).len() as int] == c[0]);
    }
    if d.len() > 0 {
        assert(all[(a + b + c).len() as int] == d[0]);
    }
    if e.len() > 0 {
        assert(all[(a + b + c + d).len() as int] == e[0]);
    }
    if f.len() > 0 {
        assert(all[(a + b + c + d + e).len() as int] == f[0]);
    }
    if g.len() > 0 {
        assert(all[(a + b + c + d + e + f).len() as int] == g[0]);
    }
}

/// What stands behind a label is told without the signs and the white space before
/// it, up to the end of its sentence; where nothing is left, there is none.
pub proof fn a_labels_value_says_something(rest: Seq<char>)
    ensures
        label_value(rest) matches Some(value) ==> value.len() > 0 && crate::text::contains_text(
            sentences(rest)[0],
            value,
        ),
        crate::text::blank(sentences(rest)[0]) ==> label_value(rest) is None,
{
    let first = sentences(rest)[0];
    let a = crate::text::trimmed(first);
    let b = crate::text::strip_leading(a, seq![':', '-', '—', ' ']);
    let c = crate::text::trimmed(b);
    crate::text::lemma_trimmed_stands(first);
    crate::text::lemma_stripped_stands(a, seq![':', '-', '—', ' ']);
    crate::text::lemma_trimmed_stands(b);
    crate::text::lemma_occurs_through(c, b, a);
    crate::text::lemma_occurs_through(c, a, first);
    if a.len() == 0 {
        assert(b.len() == 0);
        crate::text::trimming_takes_off_white_space_alone(b);
    }
}

} // verus!
