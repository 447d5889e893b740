//! How many tokens texts and dialogues take, and what becomes of the context
//! window as a dialogue grows.
use vstd::prelude::*;

use crate::providers::{ChatMessage, Role};
use crate::text::{cat5, chars_of, is_alphanumeric, is_white_space, number_text};

verus! {

broadcast use vstd::string::group_string_axioms;

/// The tokens of a message beside its role and its text.
pub const TOKENS_PER_MESSAGE: u32 = 4;

/// The tokens before a reply.
pub const TOKENS_PER_REPLY_PRIMER: u32 = 3;

/// How a request stands to the context window.
#[derive(Debug, Clone, Copy, PartialEq, Eq, Structural)]
pub enum ContextStatus {
    Fits,
    NearLimit,
    Overflow,
}

impl ContextStatus {
    /// The name of the status.
    pub fn name(&self) -> (r: &'static str)
        ensures
            r@ == (match *self {
                ContextStatus::Fits => "fits"@,
                ContextStatus::NearLimit => "near-limit"@,
                ContextStatus::Overflow => "overflow"@,
            }),
    {
        match self {
            ContextStatus::Fits => "fits",
            ContextStatus::NearLimit => "near-limit",
            ContextStatus::Overflow => "overflow",
        }
    }
}

/// The least of a number and what fits in 32 bits.
pub open spec fn capped(n: int) -> int {
    if n > u32::MAX {
        u32::MAX as int
    } else {
        n
    }
}

/// Whether `c` can stand in an ASCII word.
pub open spec fn ascii_word_char(c: char) -> bool {
    ('a' <= c <= 'z') || ('A' <= c <= 'Z') || ('0' <= c <= '9') || c == '_'
}

/// Whether a character is counted with other letters and digits.
pub open spec fn other_letter(c: char, letter: bool) -> bool {
    !ascii_word_char(c) && letter
}

/// Whether a character is a token by itself.
pub open spec fn lone_token(c: char, letter: bool) -> bool {
    !ascii_word_char(c) && !letter && !crate::text::white_space(c)
}

/// The number of ASCII words and of single characters that count for a token
/// each. `letters` tells which characters are letters or digits.
pub open spec fn unit_tokens(s: Seq<char>, letters: Seq<bool>) -> nat
    decreases s.len(),
{
    if s.len() == 0 {
        0
    } else {
        let rest = unit_tokens(s.drop_last(), letters.drop_last());
        let starts_word = ascii_word_char(s.last()) && (s.len() == 1 || !ascii_word_char(
            s[s.len() - 2],
        ));
        if starts_word || lone_token(s.last(), letters.last()) {
            rest + 1
        } else {
            rest
        }
    }
}

/// The number of letters and digits outside ASCII.
pub open spec fn other_letters(s: Seq<char>, letters: Seq<bool>) -> nat
    decreases s.len(),
{
    if s.len() == 0 {
        0
    } else {
        let rest = other_letters(s.drop_last(), letters.drop_last());
        if other_letter(s.last(), letters.last()) {
            rest + 1
        } else {
            rest
        }
    }
}

/// The estimated tokens of a text: one for each ASCII word and each sign, one
/// for two letters outside ASCII, and at least one for four characters.
pub open spec fn text_tokens_with(s: Seq<char>, letters: Seq<bool>) -> int {
    let units = capped(
        capped(unit_tokens(s, letters) as int) + (capped(other_letters(s, letters) as int) + 1) / 2,
    );
    let floor = capped((s.len() % 0x1_0000_0000) as int + 3) / 4;
    if units > floor {
        units
    } else {
        floor
    }
}

/// Which characters of a text are letters or digits.
pub open spec fn letters_of(s: Seq<char>) -> Seq<bool> {
    s.map_values(|c: char| crate::text::alphanumeric(c))
}

/// The estimated tokens of a text.
pub open spec fn text_tokens(s: Seq<char>) -> int {
    text_tokens_with(s, letters_of(s))
}

fn is_ascii_word_char(c: char) -> (r: bool)
    ensures
        r == ascii_word_char(c),
{
    ('a' <= c && c <= 'z') || ('A' <= c && c <= 'Z') || ('0' <= c && c <= '9') || c == '_'
}

/// The estimated tokens of the characters `cs`, of which `letters` tells which
/// are letters or digits.
pub fn count_tokens(cs: &Vec<char>, letters: &Vec<bool>) -> (r: u32)
    requires
        letters@.len() == cs@.len(),
    ensures
        r == text_tokens_with(cs@, letters@),
{
    let n: usize = cs.len();
    let mut tokens: u32 = 0;
    let mut in_ascii_word: bool = false;
    let mut others: u32 = 0;
    let mut i: usize = 0;
    assert(cs@.take(0) =~= Seq::<char>::empty());
    while i < n
        invariant
            n == cs@.len(),
            letters@.len() == n,
            i <= n,
            tokens == capped(unit_tokens(cs@.take(i as int), letters@.take(i as int)) as int),
            others == capped(other_letters(cs@.take(i as int), letters@.take(i as int)) as int),
            in_ascii_word == (i > 0 && ascii_word_char(cs@[i - 1])),
        decreases n - i,
    {
        let c: char = cs[i];
        proof {
            assert(cs@.take(i + 1).drop_last() =~= cs@.take(i as int));
            assert(letters@.take(i + 1).drop_last() =~= letters@.take(i as int));
            assert(cs@.take(i + 1).last() == c);
            assert(letters@.take(i + 1).last() == letters@[i as int]);
        }
        if is_ascii_word_char(c) {
            if !in_ascii_word {
                tokens = tokens.saturating_add(1);
                in_ascii_word = true;
            }
        } else if letters[i] {
            in_ascii_word = false;
            others = others.saturating_add(1);
        } else {
            in_ascii_word = false;
            if !is_white_space(c) {
                tokens = tokens.saturating_add(1);
            }
        }
        i = i + 1;
    }
    assert(cs@.take(n as int) =~= cs@);
    assert(letters@.take(n as int) =~= letters@);
    let half: u32 = if others % 2 == 0 {
        others / 2
    } else {
        others / 2 + 1
    };
    let units: u32 = tokens.saturating_add(half);
    let low: u32 = (n as u64 % 0x1_0000_0000) as u32;
    let floor: u32 = low.saturating_add(3) / 4;
    if units > floor {
        units
    } else {
        floor
    }
}

/// Whether a text holds ASCII characters only.
pub open spec fn ascii_text(s: Seq<char>) -> bool {
    forall|i: int| 0 <= i < s.len() ==> (#[trigger] s[i] as u32) < 0x80
}

/// Which characters of an ASCII text are letters or digits.
pub open spec fn ascii_letters(s: Seq<char>) -> Seq<bool> {
    s.map_values(|c: char| crate::text::ascii_alphanumeric(c))
}

/// The estimated tokens of a text.
pub fn estimate_text_tokens(text: &str) -> (r: u32)
    ensures
        r == text_tokens(text@),
        ascii_text(text@) ==> r == text_tokens_with(text@, ascii_letters(text@)),
{
    let cs = chars_of(text);
    let mut letters: Vec<bool> = Vec::new();
    let mut i: usize = 0;
    while i < cs.len()
        invariant
            i <= cs.len(),
            cs@ == text@,
            letters@ == letters_of(text@.take(i as int)),
            ascii_text(text@) ==> letters@ == ascii_letters(text@.take(i as int)),
        decreases cs.len() - i,
    {
        letters.push(is_alphanumeric(cs[i]));
        i = i + 1;
        assert(letters@ =~= letters_of(text@.take(i as int)));
        assert(ascii_text(text@) ==> letters@ =~= ascii_letters(text@.take(i as int)));
    }
    assert(text@.take(i as int) =~= text@);
    count_tokens(&cs, &letters)
}

/// The tokens that a role takes.
pub fn role_tokens(role: &Role) -> (r: u32)
    ensures
        r == 1,
{
    match role {
        Role::System => 1,
        Role::User => 1,
        Role::Assistant => 1,
    }
}

/// The estimated tokens of a message.
pub open spec fn message_tokens(content: Seq<char>) -> int {
    capped(TOKENS_PER_MESSAGE + 1 + text_tokens(content))
}

/// The estimated tokens of a message.
pub fn estimate_message_tokens(message: &ChatMessage) -> (r: u32)
    ensures
        r == message_tokens(message.content@),
{
    TOKENS_PER_MESSAGE.saturating_add(role_tokens(&message.role)).saturating_add(
        estimate_text_tokens(message.content.as_str()),
    )
}

/// The texts of messages.
pub open spec fn contents(messages: Seq<ChatMessage>) -> Seq<Seq<char>> {
    Seq::new(messages.len(), |i: int| messages[i].content@)
}

/// The sum of the estimated tokens of messages.
pub open spec fn tokens_sum(texts: Seq<Seq<char>>) -> int
    decreases texts.len(),
{
    if texts.len() == 0 {
        0
    } else {
        tokens_sum(texts.drop_last()) + message_tokens(texts.last())
    }
}

/// Whether the estimated tokens of messages can be added up in 32 bits.
pub open spec fn sum_fits(texts: Seq<Seq<char>>) -> bool {
    tokens_sum(texts) <= u32::MAX
}

/// The estimated tokens of messages and of what comes before the reply.
pub open spec fn messages_tokens(texts: Seq<Seq<char>>) -> int {
    capped(tokens_sum(texts) + TOKENS_PER_REPLY_PRIMER)
}

proof fn lemma_tokens_sum_grows(texts: Seq<Seq<char>>, i: int)
    requires
        0 <= i <= texts.len(),
    ensures
        0 <= tokens_sum(texts.take(i)) <= tokens_sum(texts),
    decreases texts.len(),
{
    if i < texts.len() {
        lemma_tokens_sum_grows(texts.drop_last(), i);
        assert(texts.drop_last().take(i) =~= texts.take(i));
    } else {
        assert(texts.take(i) =~= texts);
        if texts.len() > 0 {
            lemma_tokens_sum_grows(texts.drop_last(), texts.len() - 1);
            assert(texts.drop_last().take(texts.len() - 1) =~= texts.drop_last());
        }
    }
}

/// The estimated tokens of messages, where they can be added up.
pub fn estimate_messages_tokens(messages: &[ChatMessage]) -> (r: u32)
    requires
        sum_fits(contents(messages@)),
    ensures
        r == messages_tokens(contents(messages@)),
{
    let ghost texts = contents(messages@);
    let mut sum: u32 = 0;
    let mut i: usize = 0;
    assert(texts.take(0) =~= Seq::<Seq<char>>::empty());
    while i < messages.len()
        invariant
            i <= messages.len(),
            texts == contents(messages@),
            sum_fits(texts),
            sum == tokens_sum(texts.take(i as int)),
        decreases messages.len() - i,
    {
        proof {
            assert(texts.take(i + 1).drop_last() =~= texts.take(i as int));
            lemma_tokens_sum_grows(texts, i + 1);
        }
        sum = sum + estimate_message_tokens(&messages[i]);
        i = i + 1;
    }
    assert(texts.take(i as int) =~= texts);
    sum.saturating_add(TOKENS_PER_REPLY_PRIMER)
}

/// Whether the estimated tokens of messages can be added up.
pub fn messages_fit(messages: &[ChatMessage]) -> (r: bool)
    ensures
        r == sum_fits(contents(messages@)),
{
    let ghost texts = contents(messages@);
    let mut sum: u32 = 0;
    let mut i: usize = 0;
    assert(texts.take(0) =~= Seq::<Seq<char>>::empty());
    while i < messages.len()
        invariant
            i <= messages.len(),
            texts == contents(messages@),
            sum == tokens_sum(texts.take(i as int)),
        decreases messages.len() - i,
    {
        proof {
            assert(texts.take(i + 1).drop_last() =~= texts.take(i as int));
            lemma_tokens_sum_grows(texts, i + 1);
        }
        match sum.checked_add(estimate_message_tokens(&messages[i])) {
            Some(next) => {
                sum = next;
            },
            None => {
                return false;
            },
        }
        i = i + 1;
    }
    assert(texts.take(i as int) =~= texts);
    true
}

/// The estimated tokens of messages, or nothing where they cannot be added up.
pub fn checked_messages_tokens(messages: &[ChatMessage]) -> (r: Option<u32>)
    ensures
        match r {
            Some(tokens) => sum_fits(contents(messages@)) && tokens == messages_tokens(
                contents(messages@),
            ),
            None => !sum_fits(contents(messages@)),
        },
{
    if messages_fit(messages) {
        Some(estimate_messages_tokens(messages))
    } else {
        None
    }
}

/// How a request stands to the context window: over the limit, at 85 percent of
/// it or more, or below. Products are cut off at what fits in 32 bits.
pub open spec fn status_of(total: int, limit: int) -> ContextStatus {
    if total > limit {
        ContextStatus::Overflow
    } else if capped(total * 100) >= capped(limit * 85) {
        ContextStatus::NearLimit
    } else {
        ContextStatus::Fits
    }
}

fn times(n: u32, factor: u32) -> (r: u32)
    requires
        factor <= 100,
    ensures
        r == capped(n * factor),
{
    assert(n * factor <= 0xffff_ffff * 100) by (nonlinear_arith)
        requires
            n <= 0xffff_ffff,
            factor <= 100,
    ;
    assert(0 <= n * factor) by (nonlinear_arith)
        requires
            n >= 0,
            factor >= 0,
    ;
    let product: u64 = n as u64 * factor as u64;
    if product > u32::MAX as u64 {
        u32::MAX
    } else {
        product as u32
    }
}

/// How a request of `total_tokens` stands to a window of `context_limit`.
pub fn context_status(total_tokens: u32, context_limit: u32) -> (r: ContextStatus)
    ensures
        r == status_of(total_tokens as int, context_limit as int),
{
    if total_tokens > context_limit {
        ContextStatus::Overflow
    } else if times(total_tokens, 100) >= times(context_limit, 85) {
        ContextStatus::NearLimit
    } else {
        ContextStatus::Fits
    }
}

/// A request with more tokens is never further from the limit.
pub proof fn status_never_improves_with_tokens(fewer: int, more: int, limit: int)
    requires
        0 <= fewer <= more,
        0 <= limit,
    ensures
        status_of(fewer, limit) == ContextStatus::Overflow ==> status_of(more, limit)
            == ContextStatus::Overflow,
        status_of(more, limit) == ContextStatus::Fits ==> status_of(fewer, limit)
            == ContextStatus::Fits,
{
}

/// The tokens of one exchange, split into what is new, what is history and what
/// comes back.
#[derive(Debug, Clone, Copy, PartialEq, Eq, Structural)]
pub struct TokenEstimate {
    pub current_request_tokens: u32,
    pub history_tokens: u32,
    pub response_tokens: u32,
    pub total_tokens: u32,
    pub context_limit: u32,
    pub remaining_tokens: i64,
    pub status: ContextStatus,
}

/// Whether `e` is the estimate of an exchange.
pub open spec fn estimates(
    e: TokenEstimate,
    request: Seq<Seq<char>>,
    history: Seq<Seq<char>>,
    response: Seq<char>,
    limit: u32,
) -> bool {
    &&& e.current_request_tokens == messages_tokens(request)
    &&& e.history_tokens == messages_tokens(history)
    &&& e.response_tokens == text_tokens(response)
    &&& e.total_tokens == capped(e.current_request_tokens + e.response_tokens)
    &&& e.context_limit == limit
    &&& e.remaining_tokens == limit - e.total_tokens
    &&& e.status == status_of(e.total_tokens as int, limit as int)
}

/// The estimate of an exchange, where the tokens can be added up.
pub fn estimate_exchange(
    request_messages: &[ChatMessage],
    history_messages: &[ChatMessage],
    response_text: &str,
    context_limit: u32,
) -> (r: TokenEstimate)
    requires
        sum_fits(contents(request_messages@)),
        sum_fits(contents(history_messages@)),
    ensures
        estimates(
            r,
            contents(request_messages@),
            contents(history_messages@),
            response_text@,
            context_limit,
        ),
{
    let current_request_tokens = estimate_messages_tokens(request_messages);
    let history_tokens = estimate_messages_tokens(history_messages);
    let response_tokens = estimate_text_tokens(response_text);
    let total_tokens = current_request_tokens.saturating_add(response_tokens);
    TokenEstimate {
        current_request_tokens,
        history_tokens,
        response_tokens,
        total_tokens,
        context_limit,
        remaining_tokens: context_limit as i64 - total_tokens as i64,
        status: context_status(total_tokens, context_limit),
    }
}

/// The estimate of an exchange, or nothing where the tokens cannot be added up.
pub fn checked_exchange(
    request_messages: &[ChatMessage],
    history_messages: &[ChatMessage],
    response_text: &str,
    context_limit: u32,
) -> (r: Option<TokenEstimate>)
    ensures
        match r {
            Some(e) => sum_fits(contents(request_messages@)) && sum_fits(
                contents(history_messages@),
            ) && estimates(
                e,
                contents(request_messages@),
                contents(history_messages@),
                response_text@,
                context_limit,
            ),
            None => !sum_fits(contents(request_messages@)) || !sum_fits(
                contents(history_messages@),
            ),
        },
{
    if messages_fit(request_messages) && messages_fit(history_messages) {
        Some(estimate_exchange(request_messages, history_messages, response_text, context_limit))
    } else {
        None
    }
}

/// `count` words, each `word` with its number, with a space between them.
pub open spec fn repeated(word: Seq<char>, count: int) -> Seq<char>
    decreases count,
{
    if count <= 0 {
        Seq::empty()
    } else if count == 1 {
        word + crate::text::decimal(0)
    } else {
        repeated(word, count - 1) + " "@ + (word + crate::text::decimal((count - 1) as nat))
    }
}

/// `count` words, each `word` with its number, with a space between them.
pub fn repeated_words(word: &str, count: u32) -> (r: String)
    ensures
        r@ == repeated(word@, count as int),
{
    let mut out = String::new();
    let mut i: u32 = 0;
    while i < count
        invariant
            i <= count,
            out@ == repeated(word@, i as int),
        decreases count - i,
    {
        if i > 0 {
            out.append(" ");
        }
        let number = number_text(i as u64);
        let piece = crate::text::cat2(word, number.as_str());
        out.append(piece.as_str());
        i = i + 1;
        assert(out@ =~= repeated(word@, i as int));
    }
    out
}

/// The texts of a demo dialogue after `turns` turns.
pub open spec fn growth_history(turns: int, user: int, response: int) -> Seq<Seq<char>>
    decreases turns,
{
    if turns <= 0 {
        seq![repeated("system"@, 32)]
    } else {
        growth_history(turns - 1, user, response).push(repeated("user"@, user)).push(
            repeated("answer"@, response),
        )
    }
}

/// The tokens of the request of turn `turn`.
pub open spec fn growth_request(turn: int, user: int, response: int) -> Seq<Seq<char>> {
    growth_history(turn - 1, user, response).push(repeated("user"@, user))
}

/// The total tokens of turn `turn`.
pub open spec fn growth_total(turn: int, user: int, response: int) -> int {
    capped(
        messages_tokens(growth_request(turn, user, response)) + text_tokens(
            repeated("answer"@, response),
        ),
    )
}

/// The total tokens of the first `turn` turns.
pub open spec fn growth_cumulative(turn: int, user: int, response: int) -> int
    decreases turn,
{
    if turn <= 0 {
        0
    } else {
        capped(growth_cumulative(turn - 1, user, response) + growth_total(turn, user, response))
    }
}

/// One turn of a demo dialogue.
#[derive(Debug, Clone, Copy, PartialEq, Eq, Structural)]
pub struct TokenGrowthRow {
    pub turn: usize,
    pub request_tokens: u32,
    pub history_tokens: u32,
    pub response_tokens: u32,
    pub total_tokens: u32,
    pub cumulative_tokens: u32,
    pub status: ContextStatus,
}

/// Whether `row` is the row of turn `turn`.
pub open spec fn growth_row(
    row: TokenGrowthRow,
    turn: int,
    user: int,
    response: int,
    limit: int,
) -> bool {
    &&& row.turn == turn
    &&& row.request_tokens == messages_tokens(growth_request(turn, user, response))
    &&& row.history_tokens == messages_tokens(growth_history(turn - 1, user, response))
    &&& row.response_tokens == text_tokens(repeated("answer"@, response))
    &&& row.total_tokens == growth_total(turn, user, response)
    &&& row.cumulative_tokens == growth_cumulative(turn, user, response)
    &&& row.status == status_of(growth_total(turn, user, response), limit)
}

/// How a dialogue grows, and what breaks where it outgrows the window.
#[derive(Debug, PartialEq, Eq)]
pub struct TokenGrowthReport {
    pub name: String,
    pub context_limit: u32,
    pub rows: Vec<TokenGrowthRow>,
    pub breakage: Option<String>,
}

/// What is said of the turn that outgrows the window.
pub open spec fn breakage_text(turn: nat, total: nat, limit: nat) -> Seq<char> {
    "turn "@ + crate::text::decimal(turn) + ": request+response needs "@ + crate::text::decimal(
        total,
    ) + (" tokens, context limit is "@ + crate::text::decimal(limit)
        + "; provider would reject it or the agent must summarize/truncate history before retrying"@)
}

/// The turns that a demo of `turns` turns shows: all of them, or those up to
/// the first that outgrows the window.
pub open spec fn shown_turns(from: int, turns: int, user: int, response: int, limit: int) -> int
    decreases turns - from,
{
    if from >= turns {
        turns
    } else if growth_total(from + 1, user, response) > limit {
        from + 1
    } else {
        shown_turns(from + 1, turns, user, response, limit)
    }
}

/// Whether the tokens of every turn shown can be added up.
pub open spec fn growth_fits(turns: int, user: int, response: int, limit: int) -> bool {
    forall|t: int|
        1 <= t <= shown_turns(0, turns, user, response, limit) ==> sum_fits(
            #[trigger] growth_request(t, user, response),
        )
}

/// Whether `report` is the demo of `turns` turns.
pub open spec fn reports_growth(
    report: TokenGrowthReport,
    turns: int,
    user: int,
    response: int,
    limit: int,
) -> bool {
    let shown = shown_turns(0, turns, user, response, limit);
    &&& report.context_limit == limit
    &&& report.rows@.len() == shown
    &&& forall|i: int|
        0 <= i < shown ==> growth_row(#[trigger] report.rows@[i], i + 1, user, response, limit)
    &&& if shown > 0 && growth_total(shown, user, response) > limit {
        crate::text::option_text(report.breakage) == Some(
            breakage_text(
                shown as nat,
                growth_total(shown, user, response) as nat,
                limit as nat,
            ),
        )
    } else {
        report.breakage is None
    }
}

proof fn lemma_shown_turns(from: int, turns: int, user: int, response: int, limit: int)
    requires
        0 <= from <= turns,
    ensures
        ({
            let shown = shown_turns(from, turns, user, response, limit);
            &&& from <= shown <= turns
            &&& from < turns ==> from < shown
            &&& forall|t: int|
                from < t < shown ==> #[trigger] growth_total(t, user, response) <= limit
            &&& shown < turns ==> growth_total(shown, user, response) > limit
        }),
    decreases turns - from,
{
    if from < turns && growth_total(from + 1, user, response) <= limit {
        lemma_shown_turns(from + 1, turns, user, response, limit);
    }
}

fn push_message(list: &mut Vec<ChatMessage>, role: Role, content: String)
    ensures
        contents(final(list)@) == contents(old(list)@).push(content@),
{
    list.push(ChatMessage { role, content });
    assert(contents(list@) =~= contents(old(list)@).push(content@));
}

fn clone_messages(list: &Vec<ChatMessage>) -> (r: Vec<ChatMessage>)
    ensures
        r@ == list@,
{
    let r = list.clone();
    assert(r@ =~= list@);
    r
}

/// How a demo dialogue grows, or nothing where the tokens of a turn cannot be
/// added up.
fn grow(
    name: &str,
    context_limit: u32,
    turn_count: usize,
    user_tokens_per_turn: u32,
    response_tokens_per_turn: u32,
) -> (r: Option<TokenGrowthReport>)
    ensures
        match r {
            Some(report) => growth_fits(
                turn_count as int,
                user_tokens_per_turn as int,
                response_tokens_per_turn as int,
                context_limit as int,
            ) && report.name@ == name@ && reports_growth(
                report,
                turn_count as int,
                user_tokens_per_turn as int,
                response_tokens_per_turn as int,
                context_limit as int,
            ),
            None => !growth_fits(
                turn_count as int,
                user_tokens_per_turn as int,
                response_tokens_per_turn as int,
                context_limit as int,
            ),
        },
{
    let ghost u = user_tokens_per_turn as int;
    let ghost v = response_tokens_per_turn as int;
    let ghost limit = context_limit as int;
    let ghost turns = turn_count as int;
    let mut history: Vec<ChatMessage> = Vec::new();
    push_message(&mut history, Role::System, repeated_words("system", 32));
    assert(contents(history@) =~= growth_history(0, u, v));
    let mut rows: Vec<TokenGrowthRow> = Vec::new();
    let mut cumulative_tokens: u32 = 0;
    let mut turn: usize = 0;
    proof {
        lemma_shown_turns(0, turns, u, v, limit);
    }
    while turn < turn_count
        invariant
            u == user_tokens_per_turn,
            v == response_tokens_per_turn,
            limit == context_limit,
            turns == turn_count,
            turn <= turn_count,
            contents(history@) == growth_history(turn as int, u, v),
            rows@.len() == turn,
            cumulative_tokens == growth_cumulative(turn as int, u, v),
            shown_turns(0, turns, u, v, limit) == shown_turns(turn as int, turns, u, v, limit),
            forall|i: int| 0 <= i < turn ==> growth_row(#[trigger] rows@[i], i + 1, u, v, limit),
            forall|t: int| 1 <= t <= turn ==> sum_fits(#[trigger] growth_request(t, u, v)),
            turn > 0 ==> growth_total(turn as int, u, v) <= limit,
        decreases turn_count - turn,
    {
        let ghost next = turn + 1;
        proof {
            lemma_shown_turns(turn as int, turns, u, v, limit);
        }
        let mut request_messages = clone_messages(&history);
        push_message(
            &mut request_messages,
            Role::User,
            repeated_words("user", user_tokens_per_turn),
        );
        let assistant_text = repeated_words("answer", response_tokens_per_turn);
        assert(contents(request_messages@) == growth_request(next, u, v));
        proof {
            let texts = contents(request_messages@);
            lemma_tokens_sum_grows(texts, texts.len() - 1);
            assert(texts.take(texts.len() - 1) =~= contents(history@));
        }
        let estimate = match checked_exchange(
            request_messages.as_slice(),
            history.as_slice(),
            assistant_text.as_str(),
            context_limit,
        ) {
            Some(estimate) => estimate,
            None => {
                assert(!sum_fits(growth_request(next, u, v)));
                return None;
            },
        };
        turn = turn + 1;
        cumulative_tokens = cumulative_tokens.saturating_add(estimate.total_tokens);
        rows.push(
            TokenGrowthRow {
                turn,
                request_tokens: estimate.current_request_tokens,
                history_tokens: estimate.history_tokens,
                response_tokens: estimate.response_tokens,
                total_tokens: estimate.total_tokens,
                cumulative_tokens,
                status: estimate.status,
            },
        );
        if estimate.status == ContextStatus::Overflow {
            let turn_text = number_text(turn as u64);
            let total_text = number_text(estimate.total_tokens as u64);
            let limit_text = number_text(context_limit as u64);
            let tail = crate::text::cat3(
                " tokens, context limit is ",
                limit_text.as_str(),
                "; provider would reject it or the agent must summarize/truncate history before retrying",
            );
            let text = cat5(
                "turn ",
                turn_text.as_str(),
                ": request+response needs ",
                total_text.as_str(),
                tail.as_str(),
            );
            return Some(
                TokenGrowthReport {
                    name: name.to_string(),
                    context_limit,
                    rows,
                    breakage: Some(text),
                },
            );
        }
        push_message(&mut history, Role::User, repeated_words("user", user_tokens_per_turn));
        push_message(&mut history, Role::Assistant, assistant_text);
        assert(contents(history@) =~= growth_history(turn as int, u, v));
    }
    Some(TokenGrowthReport { name: name.to_string(), context_limit, rows, breakage: None })
}

/// How a demo dialogue grows from turn to turn, up to the turn that outgrows
/// the window.
pub fn simulate_growth(
    name: &str,
    context_limit: u32,
    turn_count: usize,
    user_tokens_per_turn: u32,
    response_tokens_per_turn: u32,
) -> (r: TokenGrowthReport)
    requires
        growth_fits(
            turn_count as int,
            user_tokens_per_turn as int,
            response_tokens_per_turn as int,
            context_limit as int,
        ),
    ensures
        r.name@ == name@,
        reports_growth(
            r,
            turn_count as int,
            user_tokens_per_turn as int,
            response_tokens_per_turn as int,
            context_limit as int,
        ),
{
    match grow(
        name,
        context_limit,
        turn_count,
        user_tokens_per_turn,
        response_tokens_per_turn,
    ) {
        Some(report) => report,
        None => vstd::pervasive::unreached(),
    }
}

/// How a demo dialogue grows, or nothing where the tokens of a turn cannot be
/// added up.
pub fn checked_growth(
    name: &str,
    context_limit: u32,
    turn_count: usize,
    user_tokens_per_turn: u32,
    response_tokens_per_turn: u32,
) -> (r: Option<TokenGrowthReport>)
    ensures
        match r {
            Some(report) => report.name@ == name@ && reports_growth(
                report,
                turn_count as int,
                user_tokens_per_turn as int,
                response_tokens_per_turn as int,
                context_limit as int,
            ),
            None => !growth_fits(
                turn_count as int,
                user_tokens_per_turn as int,
                response_tokens_per_turn as int,
                context_limit as int,
            ),
        },
{
    if grow(
        name,
        context_limit,
        turn_count,
        user_tokens_per_turn,
        response_tokens_per_turn,
    ).is_some() {
        Some(
            simulate_growth(
                name,
                context_limit,
                turn_count,
                user_tokens_per_turn,
                response_tokens_per_turn,
            ),
        )
    } else {
        None
    }
}

/// From turn to turn, the request of a dialogue takes more tokens, until the
/// count reaches the most that fits in 32 bits.
pub proof fn requests_grow(turn: int, user: int, response: int)
    requires
        1 <= turn,
    ensures
        messages_tokens(growth_request(turn, user, response)) < messages_tokens(
            growth_request(turn + 1, user, response),
        ) || messages_tokens(growth_request(turn + 1, user, response)) == u32::MAX,
{
    let a = growth_request(turn, user, response);
    let b = growth_request(turn + 1, user, response);
    assert(b =~= a.push(repeated("answer"@, response)).push(repeated("user"@, user)));
    assert(b.drop_last() =~= a.push(repeated("answer"@, response)));
    let mid = b.drop_last();
    assert(mid.drop_last() =~= a);
    assert(tokens_sum(b) == tokens_sum(mid) + message_tokens(b.last()));
    assert(tokens_sum(mid) == tokens_sum(a) + message_tokens(mid.last()));
    lemma_tokens_sum_grows(a, 0);
}

/// How one more character changes what a text counts: a sign (no ASCII letter or
/// digit, no underscore, no other letter, no white space) is one unit more; a
/// letter or digit outside ASCII is one letter more; white space is nothing; a
/// character of an ASCII word is one unit more where no such character stands
/// before it, and nothing otherwise.
pub proof fn each_character_counts(s: Seq<char>, letters: Seq<bool>, c: char, letter: bool)
    requires
        letters.len() == s.len(),
    ensures
        ({
            let word = |x: char|
                'a' <= x <= 'z' || 'A' <= x <= 'Z' || '0' <= x <= '9' || x == '_';
            let units = unit_tokens(s.push(c), letters.push(letter)) - unit_tokens(s, letters);
            let others = other_letters(s.push(c), letters.push(letter)) - other_letters(s, letters);
            &&& !word(c) && !letter && !crate::text::white_space(c) ==> units == 1 && others == 0
            &&& !word(c) && !letter && crate::text::white_space(c) ==> units == 0 && others == 0
            &&& !word(c) && letter ==> others == 1
            &&& !word(c) && letter && !crate::text::white_space(c) ==> units == 0
            &&& word(c) && s.len() > 0 && word(s.last()) ==> units == 0 && others == 0
            &&& word(c) && (s.len() == 0 || !word(s.last())) ==> units == 1 && others == 0
        }),
{
    assert(s.push(c).drop_last() =~= s);
    assert(letters.push(letter).drop_last() =~= letters);
    if s.len() > 0 {
        assert(s.push(c)[s.push(c).len() - 2] == s.last());
    }
}

proof fn lemma_signs(s: Seq<char>, letters: Seq<bool>)
    requires
        letters.len() == s.len(),
        forall|i: int| 0 <= i < s.len() ==> lone_token(#[trigger] s[i], letters[i]),
    ensures
        unit_tokens(s, letters) == s.len(),
        other_letters(s, letters) == 0,
    decreases s.len(),
{
    if s.len() > 0 {
        lemma_signs(s.drop_last(), letters.drop_last());
    }
}

/// Signs count one by one: a text of signs alone takes as many tokens as it has
/// characters.
pub proof fn signs_count_one_by_one(s: Seq<char>, letters: Seq<bool>)
    requires
        letters.len() == s.len() <= u32::MAX,
        forall|i: int|
            0 <= i < s.len() ==> {
                let c = #[trigger] s[i];
                &&& !('a' <= c <= 'z' || 'A' <= c <= 'Z' || '0' <= c <= '9' || c == '_')
                &&& !letters[i]
                &&& !crate::text::white_space(c)
            },
    ensures
        text_tokens_with(s, letters) == s.len(),
{
    lemma_signs(s, letters);
}

proof fn lemma_word(s: Seq<char>, letters: Seq<bool>)
    requires
        letters.len() == s.len(),
        forall|i: int| 0 <= i < s.len() ==> ascii_word_char(#[trigger] s[i]),
    ensures
        unit_tokens(s, letters) == (if s.len() == 0 {
            0int
        } else {
            1
        }),
        other_letters(s, letters) == 0,
    decreases s.len(),
{
    if s.len() > 0 {
        lemma_word(s.drop_last(), letters.drop_last());
        if s.len() > 1 {
            assert(ascii_word_char(s[s.len() - 2]));
        }
    }
}

/// One ASCII word takes a token for every four characters that it has begun.
pub proof fn a_word_takes_a_token_for_four(s: Seq<char>, letters: Seq<bool>)
    requires
        0 < s.len() < 0xffff_ff00,
        letters.len() == s.len(),
        forall|i: int|
            0 <= i < s.len() ==> {
                let c = #[trigger] s[i];
                'a' <= c <= 'z' || 'A' <= c <= 'Z' || '0' <= c <= '9' || c == '_'
            },
    ensures
        text_tokens_with(s, letters) == (s.len() + 3) / 4,
{
    lemma_word(s, letters);
}

proof fn lemma_letters(s: Seq<char>, letters: Seq<bool>)
    requires
        letters.len() == s.len(),
        forall|i: int| 0 <= i < s.len() ==> !ascii_word_char(#[trigger] s[i]) && letters[i],
    ensures
        unit_tokens(s, letters) == 0,
        other_letters(s, letters) == s.len(),
    decreases s.len(),
{
    if s.len() > 0 {
        lemma_letters(s.drop_last(), letters.drop_last());
    }
}

/// Letters outside ASCII take a token for every two that have begun.
pub proof fn other_letters_take_a_token_for_two(s: Seq<char>, letters: Seq<bool>)
    requires
        letters.len() == s.len() < 0xffff_ff00,
        forall|i: int|
            0 <= i < s.len() ==> {
                let c = #[trigger] s[i];
                &&& !('a' <= c <= 'z' || 'A' <= c <= 'Z' || '0' <= c <= '9' || c == '_')
                &&& letters[i]
            },
    ensures
        text_tokens_with(s, letters) == (s.len() + 1) / 2,
{
    lemma_letters(s, letters);
}

/// No text takes fewer tokens than a quarter of its characters, nor fewer than it
/// has words and signs.
pub proof fn estimate_is_no_less_than_its_parts(s: Seq<char>, letters: Seq<bool>)
    requires
        letters.len() == s.len() < 0xffff_ff00,
    ensures
        4 * text_tokens_with(s, letters) >= s.len(),
        text_tokens_with(s, letters) >= unit_tokens(s, letters),
        2 * text_tokens_with(s, letters) >= other_letters(s, letters),
        text_tokens_with(s, letters) <= s.len(),
{
    lemma_parts_within(s, letters);
}

proof fn lemma_parts_within(s: Seq<char>, letters: Seq<bool>)
    requires
        letters.len() == s.len(),
    ensures
        unit_tokens(s, letters) + other_letters(s, letters) <= s.len(),
    decreases s.len(),
{
    if s.len() > 0 {
        lemma_parts_within(s.drop_last(), letters.drop_last());
    }
}

/// What messages take: three tokens before the reply, and for each message five
/// beside those of its text.
pub proof fn messages_add_up(texts: Seq<Seq<char>>, text: Seq<char>)
    requires
        tokens_sum(texts) + text_tokens(text) + 8 <= u32::MAX,
    ensures
        messages_tokens(Seq::empty()) == 3,
        message_tokens(text) == text_tokens(text) + 5,
        messages_tokens(texts.push(text)) == messages_tokens(texts) + text_tokens(text) + 5,
{
    assert(texts.push(text).drop_last() =~= texts);
    lemma_tokens_sum_grows(texts, 0);
    assert(text_tokens(text) >= 0);
}

/// A context overflows exactly where more tokens are taken than it has, and is
/// near its limit from 85 percent of it on.
pub proof fn status_is_told_by_the_share(total: u32, limit: u32)
    ensures
        status_of(total as int, limit as int) == ContextStatus::Overflow <==> total > limit,
        total <= limit <= 42_949_672 ==> (status_of(total as int, limit as int)
            == ContextStatus::NearLimit <==> 100 * total >= 85 * limit),
{
}

/// The parts of an estimate agree: the request and the response make up the total
/// as far as it can be counted, the total and what is left make up the limit, and
/// a request that overflows is one that leaves less than nothing.
pub proof fn an_estimate_agrees_with_itself(
    e: TokenEstimate,
    request: Seq<Seq<char>>,
    history: Seq<Seq<char>>,
    response: Seq<char>,
    limit: u32,
)
    requires
        estimates(e, request, history, response, limit),
    ensures
        e.current_request_tokens + e.response_tokens <= u32::MAX ==> e.total_tokens
            == e.current_request_tokens + e.response_tokens,
        e.current_request_tokens + e.response_tokens > u32::MAX ==> e.total_tokens == u32::MAX,
        e.total_tokens + e.remaining_tokens == e.context_limit,
        e.context_limit == limit,
        e.status == ContextStatus::Overflow <==> e.remaining_tokens < 0,
        e.response_tokens >= 0,
{
}

/// A report of growth goes turn by turn: each row adds its own total to that of
/// all rows before it, a row's total is its request and its response, every row
/// but the last fits, and the report says what breaks exactly where the last row
/// does not fit. It ends early only there.
pub proof fn growth_is_reported_until_it_breaks(
    report: TokenGrowthReport,
    turns: int,
    user: int,
    response: int,
    limit: int,
    i: int,
)
    requires
        reports_growth(report, turns, user, response, limit),
        turns >= 0,
        limit >= 0,
        0 <= i < report.rows@.len(),
    ensures
        report.rows@.len() <= turns,
        report.rows@[i].turn == i + 1,
        report.rows@[i].request_tokens + report.rows@[i].response_tokens <= u32::MAX
            ==> report.rows@[i].total_tokens == report.rows@[i].request_tokens
            + report.rows@[i].response_tokens,
        i == 0 ==> report.rows@[i].cumulative_tokens == report.rows@[i].total_tokens,
        i > 0 && report.rows@[i - 1].cumulative_tokens + report.rows@[i].total_tokens <= u32::MAX
            ==> report.rows@[i].cumulative_tokens == report.rows@[i - 1].cumulative_tokens
            + report.rows@[i].total_tokens,
        i < report.rows@.len() - 1 ==> report.rows@[i].total_tokens <= limit,
        report.rows@.len() < turns ==> report.rows@[report.rows@.len() - 1].total_tokens > limit,
        report.breakage is Some <==> report.rows@[report.rows@.len() - 1].total_tokens > limit,
        report.rows@[i].status == ContextStatus::Overflow <==> report.rows@[i].total_tokens > limit,
{
    lemma_shown_turns(0, turns, user, response, limit);
    let shown = shown_turns(0, turns, user, response, limit);
    assert(growth_row(report.rows@[i], i + 1, user, response, limit));
    assert(growth_row(report.rows@[shown - 1], shown, user, response, limit));
    if i > 0 {
        assert(growth_row(report.rows@[i - 1], i, user, response, limit));
    } else {
        assert(growth_cumulative(0, user, response) == 0);
    }
}

/// What breaks is told with the turn, what it needs and what there is, in this
/// order.
pub proof fn a_breakage_tells_its_numbers(turn: nat, total: nat, limit: nat)
    ensures
        crate::text::one_after_other(
            breakage_text(turn, total, limit),
            crate::text::decimal(turn),
            crate::text::decimal(total),
        ),
        crate::text::one_after_other(
            breakage_text(turn, total, limit),
            crate::text::decimal(total),
            crate::text::decimal(limit),
        ),
{
    let a = crate::text::decimal(turn);
    let b = crate::text::decimal(total);
    let c = crate::text::decimal(limit);
    let x = ": request+response needs "@;
    let y = " tokens, context limit is "@;
    let z = "; provider would reject it or the agent must summarize/truncate history before retrying"@;
    let text = breakage_text(turn, total, limit);
    crate::text::lemma_one_after_other("turn "@, a, x, b, y + c + z);
    assert("turn "@ + a + x + b + (y + c + z) =~= text);
    crate::text::lemma_one_after_other("turn "@ + a + x, b, y, c, z);
    assert("turn "@ + a + x + b + y + c + z =~= text);
}

/// Each turn adds two messages to the history, the user's and the answer, behind
/// those that are there; a request is the history before it and the user's
/// message.
pub proof fn histories_grow_by_exchanges(turn: int, user: int, response: int)
    requires
        turn >= 1,
    ensures
        growth_history(turn, user, response).len() == 1 + 2 * turn,
        growth_history(turn, user, response).take(1 + 2 * (turn - 1)) == growth_history(
            turn - 1,
            user,
            response,
        ),
        growth_request(turn, user, response).len() == 2 * turn,
        growth_request(turn, user, response) == growth_history(turn, user, response).take(2 * turn),
        growth_request(turn, user, response)[2 * turn - 1] == repeated("user"@, user),
        growth_history(turn, user, response)[2 * turn] == repeated("answer"@, response),
    decreases turn,
{
    let before = growth_history(turn - 1, user, response);
    if turn > 1 {
        histories_grow_by_exchanges(turn - 1, user, response);
    } else {
        assert(before.len() == 1);
    }
    let after = growth_history(turn, user, response);
    assert(after == before.push(repeated("user"@, user)).push(repeated("answer"@, response)));
    assert(after.take(1 + 2 * (turn - 1)) =~= before);
    assert(growth_request(turn, user, response) =~= after.take(2 * turn));
}

} // verus!
