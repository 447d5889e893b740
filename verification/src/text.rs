//! Text as a sequence of characters: trimming, searching, splitting, joining
//! and number formatting, each stated over `Seq<char>`.
use vstd::prelude::*;

verus! {

broadcast use vstd::string::group_string_axioms;

/// The Unicode `White_Space` property.
pub open spec fn white_space(c: char) -> bool {
    let n = c as u32;
    ||| 0x9 <= n <= 0xd
    ||| n == 0x20
    ||| n == 0x85
    ||| n == 0xa0
    ||| n == 0x1680
    ||| 0x2000 <= n <= 0x200a
    ||| n == 0x2028
    ||| n == 0x2029
    ||| n == 0x202f
    ||| n == 0x205f
    ||| n == 0x3000
}

/// Whether `c` has the `White_Space` property.
pub fn is_white_space(c: char) -> (r: bool)
    ensures
        r == white_space(c),
{
    let n: u32 = c as u32;
    (0x9 <= n && n <= 0xd) || n == 0x20 || n == 0x85 || n == 0xa0 || n == 0x1680 || (0x2000 <= n
        && n <= 0x200a) || n == 0x2028 || n == 0x2029 || n == 0x202f || n == 0x205f || n == 0x3000
}

/// `s` without its leading white space.
pub open spec fn trim_start_of(s: Seq<char>) -> Seq<char>
    decreases s.len(),
{
    if s.len() > 0 && white_space(s[0]) {
        trim_start_of(s.skip(1))
    } else {
        s
    }
}

/// `s` without its trailing white space.
pub open spec fn trim_end_of(s: Seq<char>) -> Seq<char>
    decreases s.len(),
{
    if s.len() > 0 && white_space(s.last()) {
        trim_end_of(s.drop_last())
    } else {
        s
    }
}

/// `s` without the white space around it.
pub open spec fn trimmed(s: Seq<char>) -> Seq<char> {
    trim_end_of(trim_start_of(s))
}

/// Whether nothing but white space is in `s`.
pub open spec fn blank(s: Seq<char>) -> bool {
    trimmed(s).len() == 0
}

/// The characters of `s`.
pub fn chars_of(s: &str) -> (r: Vec<char>)
    ensures
        r@ == s@,
{
    let mut out: Vec<char> = Vec::new();
    for c in it: s.chars()
        invariant
            it.seq() == s@,
            out@ == s@.take(it.index() as int),
    {
        out.push(c);
        assert(s@.take(it.index() + 1) =~= s@.take(it.index() as int).push(c));
    }
    assert(s@.take(s@.len() as int) =~= s@);
    out
}

proof fn lemma_trim_start_at(s: Seq<char>, i: int)
    requires
        0 <= i <= s.len(),
        forall|j: int| 0 <= j < i ==> white_space(s[j]),
        i < s.len() ==> !white_space(s[i]),
    ensures
        trim_start_of(s) == s.skip(i),
    decreases s.len(),
{
    if i > 0 {
        let t = s.skip(1);
        assert forall|j: int| 0 <= j < i - 1 implies white_space(t[j]) by {
            assert(t[j] == s[j + 1]);
        }
        lemma_trim_start_at(t, i - 1);
        assert(t.skip(i - 1) =~= s.skip(i));
    } else {
        assert(s.skip(0) =~= s);
    }
}

proof fn lemma_trim_end_at(s: Seq<char>, i: int)
    requires
        0 <= i <= s.len(),
        forall|j: int| i <= j < s.len() ==> white_space(s[j]),
        i > 0 ==> !white_space(s[i - 1]),
    ensures
        trim_end_of(s) == s.take(i),
    decreases s.len(),
{
    if i < s.len() {
        lemma_trim_end_at(s.drop_last(), i);
        assert(s.drop_last().take(i) =~= s.take(i));
    } else {
        assert(s.take(i) =~= s);
    }
}

/// `str::trim_start`.
pub fn trim_start(s: &str) -> (r: &str)
    ensures
        r@ == trim_start_of(s@),
{
    let cs = chars_of(s);
    let n: usize = cs.len();
    let mut i: usize = 0;
    while i < n && is_white_space(cs[i])
        invariant
            cs@ == s@,
            n == cs.len(),
            i <= n,
            forall|j: int| 0 <= j < i ==> white_space(s@[j]),
        decreases n - i,
    {
        i = i + 1;
    }
    proof {
        lemma_trim_start_at(s@, i as int);
        assert(s@.subrange(i as int, n as int) =~= s@.skip(i as int));
    }
    s.substring_char(i, n)
}

/// `str::trim_end`.
pub fn trim_end(s: &str) -> (r: &str)
    ensures
        r@ == trim_end_of(s@),
{
    let cs = chars_of(s);
    let mut i: usize = cs.len();
    while i > 0 && is_white_space(cs[i - 1])
        invariant
            cs@ == s@,
            i <= cs.len(),
            forall|j: int| i <= j < s@.len() ==> white_space(s@[j]),
        decreases i,
    {
        i = i - 1;
    }
    proof {
        lemma_trim_end_at(s@, i as int);
        assert(s@.subrange(0, i as int) =~= s@.take(i as int));
    }
    s.substring_char(0, i)
}

/// `str::trim`.
pub fn trim(s: &str) -> (r: &str)
    ensures
        r@ == trimmed(s@),
{
    trim_end(trim_start(s))
}

/// Whether `s` holds nothing but white space.
pub fn is_blank(s: &str) -> (r: bool)
    ensures
        r == blank(s@),
{
    trim(s).is_empty()
}

/// Whether two texts hold the same characters.
pub fn same(a: &str, b: &str) -> (r: bool)
    ensures
        r == (a@ == b@),
{
    let x = chars_of(a);
    let y = chars_of(b);
    let n: usize = x.len();
    if n != y.len() {
        return false;
    }
    let mut i: usize = 0;
    while i < n
        invariant
            x@ == a@,
            y@ == b@,
            n == x.len(),
            n == y.len(),
            i <= n,
            forall|j: int| 0 <= j < i ==> a@[j] == b@[j],
        decreases n - i,
    {
        if x[i] != y[i] {
            return false;
        }
        i = i + 1;
    }
    assert(a@ =~= b@);
    true
}


/// `String::push`: appends the character at the end of the text.
pub assume_specification[ String::push ](s: &mut String, c: char)
    ensures
        final(s)@ == old(s)@.push(c),
;

/// The text made of the characters `cs`.
pub fn from_chars(cs: &Vec<char>) -> (r: String)
    ensures
        r@ == cs@,
{
    let mut out = String::new();
    let mut i: usize = 0;
    while i < cs.len()
        invariant
            i <= cs.len(),
            out@ == cs@.take(i as int),
        decreases cs.len() - i,
    {
        out.push(cs[i]);
        assert(cs@.take(i + 1) =~= cs@.take(i as int).push(cs[i as int]));
        i = i + 1;
    }
    assert(cs@.take(i as int) =~= cs@);
    out
}

/// What `str::to_lowercase` makes of a text, by the Unicode case tables.
pub uninterp spec fn lowercase(s: Seq<char>) -> Seq<char>;

/// `str::to_lowercase`: the result is a function of the text alone.
#[verifier::external_body]
pub(crate) fn to_lowercase(s: &str) -> (r: String)
    ensures
        r@ == lowercase(s@),
{
    s.to_lowercase()
}

/// Whether `char::is_alphanumeric` holds, by the Unicode property tables.
pub uninterp spec fn alphanumeric(c: char) -> bool;

/// Whether an ASCII character is a letter or a digit.
pub open spec fn ascii_alphanumeric(c: char) -> bool {
    ('a' <= c <= 'z') || ('A' <= c <= 'Z') || ('0' <= c <= '9')
}

/// `char::is_alphanumeric`: a function of the character alone. Of the ASCII
/// characters it holds for the letters and the digits.
#[verifier::external_body]
pub(crate) fn is_alphanumeric(c: char) -> (r: bool)
    ensures
        r == alphanumeric(c),
        (c as u32) < 0x80 ==> r == ascii_alphanumeric(c),
{
    c.is_alphanumeric()
}

/// The ASCII lower case of one character; other characters stay.
pub open spec fn ascii_lower_char(c: char) -> char {
    if 'A' <= c <= 'Z' {
        ((c as u32) + 32) as char
    } else {
        c
    }
}

/// `str::to_ascii_lowercase` over the characters.
pub open spec fn ascii_lower(s: Seq<char>) -> Seq<char> {
    s.map_values(|c: char| ascii_lower_char(c))
}

fn lower_char(c: char) -> (r: char)
    ensures
        r == ascii_lower_char(c),
{
    if 'A' <= c && c <= 'Z' {
        let b: u8 = c as u8;
        (b + 32) as char
    } else {
        c
    }
}

/// `str::to_ascii_lowercase`.
pub fn to_ascii_lowercase(s: &str) -> (r: String)
    ensures
        r@ == ascii_lower(s@),
{
    let mut out = String::new();
    let cs = chars_of(s);
    let mut i: usize = 0;
    while i < cs.len()
        invariant
            i <= cs.len(),
            cs@ == s@,
            out@ == ascii_lower(s@.take(i as int)),
        decreases cs.len() - i,
    {
        out.push(lower_char(cs[i]));
        i = i + 1;
        assert(out@ =~= ascii_lower(s@.take(i as int)));
    }
    assert(s@.take(i as int) =~= s@);
    out
}

/// `str::eq_ignore_ascii_case`.
pub fn same_ignoring_ascii_case(a: &str, b: &str) -> (r: bool)
    ensures
        r == (ascii_lower(a@) == ascii_lower(b@)),
{
    let x = to_ascii_lowercase(a);
    let y = to_ascii_lowercase(b);
    x == y
}

/// Whether `needle` stands in `s` at position `i`.
pub open spec fn occurs_at(s: Seq<char>, needle: Seq<char>, i: int) -> bool {
    0 <= i && i + needle.len() <= s.len() && s.subrange(i, i + needle.len()) == needle
}

/// Whether `needle` stands somewhere in `s`.
pub open spec fn contains_text(s: Seq<char>, needle: Seq<char>) -> bool {
    exists|i: int| occurs_at(s, needle, i)
}

/// The first position from `from` on at which `needle` stands in `s`.
pub open spec fn first_from(s: Seq<char>, needle: Seq<char>, from: int) -> Option<int>
    decreases s.len() - from,
{
    if from < 0 || from + needle.len() > s.len() {
        None
    } else if occurs_at(s, needle, from) {
        Some(from)
    } else if from >= s.len() {
        None
    } else {
        first_from(s, needle, from + 1)
    }
}

/// The first position at which `needle` stands in `s`.
pub open spec fn first_occurrence(s: Seq<char>, needle: Seq<char>) -> Option<int> {
    first_from(s, needle, 0)
}

/// The first position found is the least one.
pub proof fn lemma_first_from(s: Seq<char>, needle: Seq<char>, from: int)
    requires
        0 <= from,
    ensures
        match first_from(s, needle, from) {
            Some(i) => {
                &&& from <= i
                &&& occurs_at(s, needle, i)
                &&& forall|j: int| from <= j < i ==> !occurs_at(s, needle, j)
            },
            None => forall|j: int| from <= j ==> !occurs_at(s, needle, j),
        },
    decreases s.len() - from,
{
    if from + needle.len() <= s.len() && !occurs_at(s, needle, from) && from < s.len() {
        lemma_first_from(s, needle, from + 1);
    }
}

proof fn lemma_first_unique(s: Seq<char>, needle: Seq<char>, i: int)
    requires
        occurs_at(s, needle, i),
        forall|j: int| 0 <= j < i ==> !occurs_at(s, needle, j),
    ensures
        first_occurrence(s, needle) == Some(i),
{
    lemma_first_from(s, needle, 0);
}

fn stands_at(s: &Vec<char>, needle: &Vec<char>, at: usize) -> (r: bool)
    requires
        at + needle.len() <= s.len(),
    ensures
        r == occurs_at(s@, needle@, at as int),
{
    let mut k: usize = 0;
    while k < needle.len()
        invariant
            k <= needle.len(),
            at + needle.len() <= s.len(),
            forall|j: int| 0 <= j < k ==> s@[at + j] == needle@[j],
        decreases needle.len() - k,
    {
        if s[at + k] != needle[k] {
            proof {
                if s@.subrange(at as int, at + needle.len()) == needle@ {
                    assert(s@.subrange(at as int, at + needle.len())[k as int] == needle@[k as int]);
                }
            }
            return false;
        }
        k = k + 1;
    }
    assert(s@.subrange(at as int, at + needle.len()) =~= needle@);
    true
}

/// The position, in characters, of the first `needle` in `s`.
pub fn find(s: &str, needle: &str) -> (r: Option<usize>)
    ensures
        match r {
            Some(i) => first_occurrence(s@, needle@) == Some(i as int),
            None => first_occurrence(s@, needle@) is None,
        },
        r is Some <==> contains_text(s@, needle@),
{
    let cs = chars_of(s);
    let ns = chars_of(needle);
    proof {
        lemma_first_from(s@, needle@, 0);
    }
    if ns.len() > cs.len() {
        return None;
    }
    let last: usize = cs.len() - ns.len();
    let mut i: usize = 0;
    loop
        invariant
            cs@ == s@,
            ns@ == needle@,
            last + ns.len() == cs.len(),
            i <= last,
            forall|j: int| 0 <= j < i ==> !occurs_at(s@, needle@, j),
        decreases last - i,
    {
        if stands_at(&cs, &ns, i) {
            proof {
                lemma_first_unique(s@, needle@, i as int);
            }
            return Some(i);
        }
        if i == last {
            proof {
                lemma_first_from(s@, needle@, 0);
                assert forall|j: int| !occurs_at(s@, needle@, j) by {
                    if 0 <= j && j <= last {
                        assert(!occurs_at(s@, needle@, j));
                    }
                }
            }
            return None;
        }
        i = i + 1;
    }
}

/// Whether `needle` stands somewhere in `s`.
pub fn contains(s: &str, needle: &str) -> (r: bool)
    ensures
        r == contains_text(s@, needle@),
{
    find(s, needle).is_some()
}

/// Whether `s` begins with `prefix`.
pub fn starts_with(s: &str, prefix: &str) -> (r: bool)
    ensures
        r == occurs_at(s@, prefix@, 0),
{
    let cs = chars_of(s);
    let ps = chars_of(prefix);
    if ps.len() > cs.len() {
        return false;
    }
    stands_at(&cs, &ps, 0)
}

/// The texts of a list of strings.
pub open spec fn texts(v: Seq<String>) -> Seq<Seq<char>> {
    Seq::new(v.len(), |i: int| v[i]@)
}

/// The position of the first character of `s` for which `is_sep` holds, or the
/// length of `s`.
pub open spec fn first_where(s: Seq<char>, is_sep: spec_fn(char) -> bool) -> int
    decreases s.len(),
{
    if s.len() == 0 {
        0
    } else if is_sep(s[0]) {
        0
    } else {
        1 + first_where(s.skip(1), is_sep)
    }
}

proof fn lemma_first_where(s: Seq<char>, is_sep: spec_fn(char) -> bool, i: int)
    requires
        0 <= i <= s.len(),
        forall|j: int| 0 <= j < i ==> !is_sep(#[trigger] s[j]),
        i < s.len() ==> is_sep(s[i]),
    ensures
        first_where(s, is_sep) == i,
    decreases s.len(),
{
    if i > 0 {
        let t = s.skip(1);
        assert forall|j: int| 0 <= j < i - 1 implies !is_sep(#[trigger] t[j]) by {
            assert(t[j] == s[j + 1]);
        }
        assert(i < s.len() ==> t[i - 1] == s[i]);
        lemma_first_where(t, is_sep, i - 1);
        assert(!is_sep(s[0]));
    }
}

/// The position found is within the text.
pub proof fn lemma_first_where_bounds(s: Seq<char>, is_sep: spec_fn(char) -> bool)
    ensures
        0 <= first_where(s, is_sep) <= s.len(),
    decreases s.len(),
{
    if s.len() > 0 && !is_sep(s[0]) {
        lemma_first_where_bounds(s.skip(1), is_sep);
    }
}

/// The pieces of `s` between the characters for which `is_sep` holds; there is
/// one more piece than there are separators.
pub open spec fn split_where(s: Seq<char>, is_sep: spec_fn(char) -> bool) -> Seq<Seq<char>>
    decreases s.len(),
    via split_where_decreases
{
    let k = first_where(s, is_sep);
    if k < s.len() {
        seq![s.take(k)] + split_where(s.skip(k + 1), is_sep)
    } else {
        seq![s]
    }
}

#[via_fn]
proof fn split_where_decreases(s: Seq<char>, is_sep: spec_fn(char) -> bool) {
    lemma_first_where_bounds(s, is_sep);
}

fn split_by<F: Fn(char) -> bool>(
    s: &str,
    f: F,
    Ghost(is_sep): Ghost<spec_fn(char) -> bool>,
) -> (r: Vec<String>)
    requires
        forall|c: char| call_requires(f, (c,)),
        forall|c: char, b: bool| call_ensures(f, (c,), b) ==> b == is_sep(c),
    ensures
        texts(r@) == split_where(s@, is_sep),
{
    let cs = chars_of(s);
    let n: usize = cs.len();
    let mut out: Vec<String> = Vec::new();
    let mut start: usize = 0;
    let mut i: usize = 0;
    assert(s@.skip(0) =~= s@);
    assert(texts(out@) =~= Seq::<Seq<char>>::empty());
    assert(texts(out@) + split_where(s@, is_sep) =~= split_where(s@, is_sep));
    while i < n
        invariant
            cs@ == s@,
            n == cs.len(),
            start <= i <= n,
            forall|c: char| call_requires(f, (c,)),
            forall|c: char, b: bool| call_ensures(f, (c,), b) ==> b == is_sep(c),
            forall|j: int| start <= j < i ==> !is_sep(#[trigger] s@[j]),
            texts(out@) + split_where(s@.skip(start as int), is_sep) == split_where(s@, is_sep),
        decreases n - i,
    {
        if f(cs[i]) {
            let ghost rest = s@.skip(start as int);
            proof {
                assert forall|j: int| 0 <= j < i - start implies !is_sep(#[trigger] rest[j]) by {
                    assert(rest[j] == s@[start + j]);
                }
                assert(rest[i - start] == s@[i as int]);
                lemma_first_where(rest, is_sep, i - start);
                assert(rest.take(i - start) =~= s@.subrange(start as int, i as int));
                assert(rest.skip(i - start + 1) =~= s@.skip(i + 1));
            }
            let ghost before = texts(out@);
            let piece = s.substring_char(start, i).to_string();
            out.push(piece);
            assert(texts(out@) =~= before.push(s@.subrange(start as int, i as int)));
            assert(split_where(rest, is_sep) == seq![s@.subrange(start as int, i as int)]
                + split_where(s@.skip(i + 1), is_sep));
            assert(texts(out@) + split_where(s@.skip(i + 1), is_sep) =~= before + split_where(
                rest,
                is_sep,
            ));
            start = i + 1;
        }
        i = i + 1;
    }
    let ghost rest = s@.skip(start as int);
    proof {
        assert forall|j: int| 0 <= j < n - start implies !is_sep(#[trigger] rest[j]) by {
            assert(rest[j] == s@[start + j]);
        }
        lemma_first_where(rest, is_sep, n - start);
        assert(s@.subrange(start as int, n as int) =~= rest);
    }
    let ghost before = texts(out@);
    let piece = s.substring_char(start, n).to_string();
    out.push(piece);
    assert(texts(out@) =~= before + split_where(rest, is_sep));
    out
}

/// The pieces of `s` between the characters of `seps`.
pub open spec fn split_any_of(s: Seq<char>, seps: Seq<char>) -> Seq<Seq<char>> {
    split_where(s, |c: char| seps.contains(c))
}

fn among(c: char, set: &[char]) -> (r: bool)
    ensures
        r == set@.contains(c),
{
    let mut i: usize = 0;
    while i < set.len()
        invariant
            i <= set.len(),
            forall|j: int| 0 <= j < i ==> set@[j] != c,
        decreases set.len() - i,
    {
        if set[i] == c {
            return true;
        }
        i = i + 1;
    }
    false
}

/// `str::split` at every character of `seps`.
pub fn split_any(s: &str, seps: &[char]) -> (r: Vec<String>)
    ensures
        texts(r@) == split_any_of(s@, seps@),
{
    let f = |c: char| -> (b: bool)
        ensures
            b == seps@.contains(c),
        { among(c, seps) };
    split_by(s, f, Ghost(|c: char| seps@.contains(c)))
}

/// The parts that are not empty, in order.
pub open spec fn non_empty(parts: Seq<Seq<char>>) -> Seq<Seq<char>>
    decreases parts.len(),
{
    if parts.len() == 0 {
        Seq::empty()
    } else {
        let rest = non_empty(parts.drop_last());
        if parts.last().len() > 0 {
            rest.push(parts.last())
        } else {
            rest
        }
    }
}

/// The words of `s`: its longest runs without white space.
pub open spec fn words_of(s: Seq<char>) -> Seq<Seq<char>> {
    non_empty(split_where(s, |c: char| white_space(c)))
}

/// `str::split_whitespace`.
pub fn words(s: &str) -> (r: Vec<String>)
    ensures
        texts(r@) == words_of(s@),
{
    let f = |c: char| -> (b: bool)
        ensures
            b == white_space(c),
        { is_white_space(c) };
    let parts = split_by(s, f, Ghost(|c: char| white_space(c)));
    let mut out: Vec<String> = Vec::new();
    let mut i: usize = 0;
    assert(texts(out@) =~= Seq::<Seq<char>>::empty());
    while i < parts.len()
        invariant
            i <= parts.len(),
            texts(out@) == non_empty(texts(parts@).take(i as int)),
        decreases parts.len() - i,
    {
        let ghost before = texts(out@);
        let ghost upto = texts(parts@).take(i + 1);
        proof {
            assert(upto.drop_last() =~= texts(parts@).take(i as int));
            assert(upto.last() == parts@[i as int]@);
        }
        if !parts[i].as_str().is_empty() {
            out.push(parts[i].clone());
            assert(texts(out@) =~= before.push(parts@[i as int]@));
        }
        i = i + 1;
    }
    assert(texts(parts@).take(i as int) =~= texts(parts@));
    out
}

/// The parts one after another with `sep` between them.
pub open spec fn joined(parts: Seq<Seq<char>>, sep: Seq<char>) -> Seq<char>
    decreases parts.len(),
{
    if parts.len() == 0 {
        Seq::empty()
    } else if parts.len() == 1 {
        parts[0]
    } else {
        joined(parts.drop_last(), sep) + sep + parts.last()
    }
}

/// `[String]::join`.
pub fn join(parts: &Vec<String>, sep: &str) -> (r: String)
    ensures
        r@ == joined(texts(parts@), sep@),
{
    let mut out = String::new();
    let mut i: usize = 0;
    while i < parts.len()
        invariant
            i <= parts.len(),
            out@ == joined(texts(parts@).take(i as int), sep@),
        decreases parts.len() - i,
    {
        let ghost upto = texts(parts@).take(i + 1);
        proof {
            assert(upto.drop_last() =~= texts(parts@).take(i as int));
            assert(upto.last() == parts@[i as int]@);
        }
        if i > 0 {
            out.append(sep);
        } else {
            assert(texts(parts@).take(0) =~= Seq::empty());
            assert(Seq::<char>::empty() + parts@[0]@ =~= parts@[0]@);
        }
        out.append(parts[i].as_str());
        i = i + 1;
    }
    assert(texts(parts@).take(i as int) =~= texts(parts@));
    out
}

/// `s` without the leading characters that are in `set`.
pub open spec fn strip_leading(s: Seq<char>, set: Seq<char>) -> Seq<char>
    decreases s.len(),
{
    if s.len() > 0 && set.contains(s[0]) {
        strip_leading(s.skip(1), set)
    } else {
        s
    }
}

proof fn lemma_strip_leading_at(s: Seq<char>, set: Seq<char>, i: int)
    requires
        0 <= i <= s.len(),
        forall|j: int| 0 <= j < i ==> set.contains(#[trigger] s[j]),
        i < s.len() ==> !set.contains(s[i]),
    ensures
        strip_leading(s, set) == s.skip(i),
    decreases s.len(),
{
    if i > 0 {
        let t = s.skip(1);
        assert forall|j: int| 0 <= j < i - 1 implies set.contains(#[trigger] t[j]) by {
            assert(t[j] == s[j + 1]);
        }
        assert(set.contains(s[0]));
        lemma_strip_leading_at(t, set, i - 1);
        assert(t.skip(i - 1) =~= s.skip(i));
    } else {
        assert(s.skip(0) =~= s);
    }
}

/// `str::trim_start_matches` with a set of characters.
pub fn strip_leading_any<'a>(s: &'a str, set: &[char]) -> (r: &'a str)
    ensures
        r@ == strip_leading(s@, set@),
{
    let cs = chars_of(s);
    let n: usize = cs.len();
    let mut i: usize = 0;
    while i < n && among(cs[i], set)
        invariant
            cs@ == s@,
            n == cs.len(),
            i <= n,
            forall|j: int| 0 <= j < i ==> set@.contains(#[trigger] s@[j]),
        decreases n - i,
    {
        i = i + 1;
    }
    proof {
        lemma_strip_leading_at(s@, set@, i as int);
        assert(s@.subrange(i as int, n as int) =~= s@.skip(i as int));
    }
    s.substring_char(i, n)
}

/// `s` without the characters `c` at its end.
pub open spec fn strip_trailing(s: Seq<char>, c: char) -> Seq<char>
    decreases s.len(),
{
    if s.len() > 0 && s.last() == c {
        strip_trailing(s.drop_last(), c)
    } else {
        s
    }
}

/// `str::trim_end_matches` with one character.
pub fn strip_trailing_char(s: &str, c: char) -> (r: &str)
    ensures
        r@ == strip_trailing(s@, c),
{
    let cs = chars_of(s);
    let mut n: usize = cs.len();
    assert(s@.take(n as int) =~= s@);
    while n > 0 && cs[n - 1] == c
        invariant
            cs@ == s@,
            n <= cs.len(),
            strip_trailing(s@.take(n as int), c) == strip_trailing(s@, c),
        decreases n,
    {
        assert(s@.take(n as int).drop_last() =~= s@.take(n - 1));
        n = n - 1;
    }
    assert(s@.subrange(0, n as int) =~= s@.take(n as int));
    s.substring_char(0, n)
}

/// The first `max` characters of `s`, or all of them.
pub open spec fn taken(s: Seq<char>, max: int) -> Seq<char> {
    if s.len() <= max {
        s
    } else {
        s.take(max)
    }
}

/// The text without white space around it, cut to `max` characters.
pub fn truncate(text: &str, max: usize) -> (r: String)
    ensures
        r@ == taken(trimmed(text@), max as int),
{
    let t = trim(text);
    if t.unicode_len() <= max {
        return t.to_string();
    }
    assert(t@.subrange(0, max as int) =~= t@.take(max as int));
    t.substring_char(0, max).to_string()
}

/// The decimal digit of a number below ten.
pub open spec fn digit(d: nat) -> char {
    (48 + d) as char
}

/// A number in decimal.
pub open spec fn decimal(n: nat) -> Seq<char>
    decreases n,
{
    if n < 10 {
        seq![digit(n)]
    } else {
        decimal(n / 10).push(digit(n % 10))
    }
}

/// A number in decimal.
pub fn number_text(n: u64) -> (r: String)
    ensures
        r@ == decimal(n as nat),
    decreases n,
{
    let d: u8 = (n % 10) as u8;
    let c: char = (48 + d) as char;
    if n < 10 {
        let mut out = String::new();
        out.push(c);
        assert(out@ =~= seq![digit(n as nat)]);
        out
    } else {
        let mut out = number_text(n / 10);
        out.push(c);
        out
    }
}

/// Whether `c` is an ASCII digit.
pub open spec fn ascii_digit(c: char) -> bool {
    '0' <= c <= '9'
}

/// The number that a run of digits writes.
pub open spec fn digits_value(s: Seq<char>) -> nat
    decreases s.len(),
{
    if s.len() == 0 {
        0
    } else {
        digits_value(s.drop_last()) * 10 + ((s.last() as u32) - 48) as nat
    }
}

/// A number's text without its optional plus sign.
pub open spec fn unsigned_digits(s: Seq<char>) -> Seq<char> {
    if s.len() > 0 && s[0] == '+' {
        s.skip(1)
    } else {
        s
    }
}

/// Whether `s` writes an unsigned number: digits after an optional plus sign.
pub open spec fn writes_number(s: Seq<char>) -> bool {
    let body = unsigned_digits(s);
    body.len() > 0 && forall|i: int| 0 <= i < body.len() ==> ascii_digit(#[trigger] body[i])
}

/// The number that `s` writes, where it writes one of at most `max`.
pub open spec fn number_in(s: Seq<char>, max: nat) -> Option<nat> {
    let value = digits_value(unsigned_digits(s));
    if writes_number(s) && value <= max {
        Some(value)
    } else {
        None
    }
}

proof fn lemma_digits_value_grows(s: Seq<char>, i: int)
    requires
        0 <= i <= s.len(),
        forall|j: int| 0 <= j < s.len() ==> ascii_digit(#[trigger] s[j]),
    ensures
        digits_value(s.take(i)) <= digits_value(s),
    decreases s.len(),
{
    if i < s.len() {
        lemma_digits_value_grows(s.drop_last(), i);
        assert(s.drop_last().take(i) =~= s.take(i));
    } else {
        assert(s.take(i) =~= s);
    }
}

/// `str::parse::<u64>`, without the reason of a failure.
#[verifier::rlimit(50)]
pub fn parse_u64(s: &str) -> (r: Option<u64>)
    ensures
        match r {
            Some(n) => number_in(s@, u64::MAX as nat) == Some(n as nat),
            None => number_in(s@, u64::MAX as nat) is None,
        },
{
    let cs = chars_of(s);
    let n: usize = cs.len();
    let first: usize = if n > 0 && cs[0] == '+' {
        1
    } else {
        0
    };
    let ghost body = unsigned_digits(s@);
    assert(s@.skip(first as int) =~= body);
    if first == n {
        return None;
    }
    let mut value: u64 = 0;
    let mut i: usize = first;
    assert(body.take(0) =~= Seq::<char>::empty());
    while i < n
        invariant
            cs@ == s@,
            n == cs.len(),
            first <= i <= n,
            body == unsigned_digits(s@),
            s@.skip(first as int) == body,
            forall|j: int| 0 <= j < i - first ==> ascii_digit(#[trigger] body[j]),
            value == digits_value(body.take(i - first)),
        decreases n - i,
    {
        let c: char = cs[i];
        assert(body[i - first] == c);
        if !('0' <= c && c <= '9') {
            return None;
        }
        let d: u64 = (c as u32 - 48) as u64;
        proof {
            let upto = body.take(i - first + 1);
            assert(upto.drop_last() =~= body.take(i - first));
            assert(upto.last() == c);
            if writes_number(s@) {
                lemma_digits_value_grows(body, i - first + 1);
            }
        }
        match value.checked_mul(10) {
            None => {
                return None;
            },
            Some(tens) => {
                match tens.checked_add(d) {
                    None => {
                        return None;
                    },
                    Some(sum) => {
                        value = sum;
                    },
                }
            },
        }
        i = i + 1;
    }
    assert(body.take(n - first) =~= body);
    Some(value)
}

/// `str::parse::<usize>`, without the reason of a failure.
pub fn parse_usize(s: &str) -> (r: Option<usize>)
    ensures
        match r {
            Some(n) => number_in(s@, usize::MAX as nat) == Some(n as nat),
            None => number_in(s@, usize::MAX as nat) is None,
        },
{
    match parse_u64(s) {
        Some(n) => if n <= usize::MAX as u64 {
            Some(n as usize)
        } else {
            None
        },
        None => None,
    }
}

/// Two texts one after the other.
pub fn cat2(a: &str, b: &str) -> (r: String)
    ensures
        r@ == a@ + b@,
{
    let mut out = a.to_string();
    out.append(b);
    out
}

/// Three texts one after the other.
pub fn cat3(a: &str, b: &str, c: &str) -> (r: String)
    ensures
        r@ == a@ + b@ + c@,
{
    let mut out = cat2(a, b);
    out.append(c);
    out
}

/// Four texts one after the other.
pub fn cat4(a: &str, b: &str, c: &str, d: &str) -> (r: String)
    ensures
        r@ == a@ + b@ + c@ + d@,
{
    let mut out = cat3(a, b, c);
    out.append(d);
    out
}

/// Five texts one after the other.
pub fn cat5(a: &str, b: &str, c: &str, d: &str, e: &str) -> (r: String)
    ensures
        r@ == a@ + b@ + c@ + d@ + e@,
{
    let mut out = cat4(a, b, c, d);
    out.append(e);
    out
}

/// Clones an optional text.
pub fn clone_option(s: &Option<String>) -> (r: Option<String>)
    ensures
        r == *s,
{
    match s {
        Some(x) => Some(x.clone()),
        None => None,
    }
}

/// Clones a list of texts.
pub fn clone_list(v: &Vec<String>) -> (r: Vec<String>)
    ensures
        r@ == v@,
{
    let mut out: Vec<String> = Vec::new();
    let mut i: usize = 0;
    while i < v.len()
        invariant
            i <= v.len(),
            out@ == v@.take(i as int),
        decreases v.len() - i,
    {
        out.push(v[i].clone());
        assert(v@.take(i + 1) =~= v@.take(i as int).push(v@[i as int]));
        i = i + 1;
    }
    assert(v@.take(i as int) =~= v@);
    out
}

/// The text of an optional string.
pub open spec fn option_text(s: Option<String>) -> Option<Seq<char>> {
    match s {
        Some(x) => Some(x@),
        None => None,
    }
}

/// The UTF-8 bytes of two texts one after the other are their bytes one after
/// the other.
pub proof fn lemma_bytes_of_concat(a: Seq<char>, b: Seq<char>)
    ensures
        vstd::utf8::encode_utf8(a + b) == vstd::utf8::encode_utf8(a) + vstd::utf8::encode_utf8(b),
    decreases a.len(),
{
    if a.len() == 0 {
        assert(a + b =~= b);
        assert(vstd::utf8::encode_utf8(a) =~= Seq::<u8>::empty());
        assert(Seq::<u8>::empty() + vstd::utf8::encode_utf8(b) =~= vstd::utf8::encode_utf8(b));
    } else {
        lemma_bytes_of_concat(a.drop_first(), b);
        assert((a + b).drop_first() =~= a.drop_first() + b);
        assert(vstd::utf8::encode_utf8(a + b) =~= vstd::utf8::encode_utf8(a)
            + vstd::utf8::encode_utf8(b));
    }
}

/// The number of UTF-8 bytes of a text.
pub fn byte_len(s: &str) -> (r: usize)
    ensures
        r == vstd::utf8::encode_utf8(s@).len(),
{
    s.as_bytes().len()
}

/// What stands between two texts stands in the whole.
pub proof fn lemma_part_occurs(before: Seq<char>, part: Seq<char>, after: Seq<char>)
    ensures
        contains_text(before + part + after, part),
{
    let whole = before + part + after;
    let at = before.len() as int;
    assert(whole.subrange(at, at + part.len()) =~= part);
    assert(occurs_at(whole, part, at));
}

/// What stands in a part stands in the whole.
pub proof fn lemma_occurs_through(inner: Seq<char>, part: Seq<char>, whole: Seq<char>)
    requires
        contains_text(part, inner),
        contains_text(whole, part),
    ensures
        contains_text(whole, inner),
{
    let i = choose|i: int| occurs_at(part, inner, i);
    let j = choose|j: int| occurs_at(whole, part, j);
    assert(whole.subrange(j + i, j + i + inner.len()) =~= whole.subrange(
        j,
        j + part.len(),
    ).subrange(i, i + inner.len()));
    assert(occurs_at(whole, inner, j + i));
}

/// Every part of joined texts stands in the whole.
pub proof fn joined_texts_hold_their_parts(parts: Seq<Seq<char>>, sep: Seq<char>, i: int)
    requires
        0 <= i < parts.len(),
    ensures
        contains_text(joined(parts, sep), parts[i]),
    decreases parts.len(),
{
    let none = Seq::<char>::empty();
    if parts.len() == 1 {
        lemma_part_occurs(none, parts[0], none);
        assert(none + parts[0] + none =~= parts[0]);
    } else {
        let rest = joined(parts.drop_last(), sep);
        if i == parts.len() - 1 {
            lemma_part_occurs(rest + sep, parts[i], none);
            assert(rest + sep + parts[i] + none =~= joined(parts, sep));
        } else {
            joined_texts_hold_their_parts(parts.drop_last(), sep, i);
            assert(parts.drop_last()[i] == parts[i]);
            lemma_part_occurs(none, rest, sep + parts.last());
            assert(none + rest + (sep + parts.last()) =~= joined(parts, sep));
            lemma_occurs_through(parts[i], rest, joined(parts, sep));
        }
    }
}

/// A space, a tab and the ends of lines are white space; no character that can
/// be seen in ASCII is.
pub proof fn white_space_is_unseen(c: char)
    ensures
        c == ' ' || c == '\t' || c == '\n' || c == '\r' ==> white_space(c),
        '!' <= c <= '~' ==> !white_space(c),
{
}

proof fn lemma_trim_start(s: Seq<char>) -> (i: int)
    ensures
        0 <= i <= s.len(),
        trim_start_of(s) == s.skip(i),
        forall|k: int| 0 <= k < i ==> white_space(#[trigger] s[k]),
        i < s.len() ==> !white_space(s[i]),
    decreases s.len(),
{
    if s.len() > 0 && white_space(s[0]) {
        let i = lemma_trim_start(s.skip(1));
        assert(s.skip(1).skip(i) =~= s.skip(i + 1));
        assert forall|k: int| 0 <= k < i + 1 implies white_space(#[trigger] s[k]) by {
            if k > 0 {
                assert(s.skip(1)[k - 1] == s[k]);
            }
        }
        if i + 1 < s.len() {
            assert(s.skip(1)[i] == s[i + 1]);
        }
        i + 1
    } else {
        assert(s.skip(0) =~= s);
        0
    }
}

proof fn lemma_trim_end(s: Seq<char>) -> (j: int)
    ensures
        0 <= j <= s.len(),
        trim_end_of(s) == s.take(j),
        forall|k: int| j <= k < s.len() ==> white_space(#[trigger] s[k]),
        j > 0 ==> !white_space(s[j - 1]),
    decreases s.len(),
{
    if s.len() > 0 && white_space(s.last()) {
        let j = lemma_trim_end(s.drop_last());
        assert(s.drop_last().take(j) =~= s.take(j));
        assert forall|k: int| j <= k < s.len() implies white_space(#[trigger] s[k]) by {
            if k < s.len() - 1 {
                assert(s.drop_last()[k] == s[k]);
            }
        }
        j
    } else {
        assert(s.take(s.len() as int) =~= s);
        s.len() as int
    }
}

/// Trimming takes white space off both ends, all of it and nothing else: the
/// text is white space, then what is left, then white space, and what is left
/// neither begins nor ends with any.
pub proof fn trimming_takes_off_white_space_alone(s: Seq<char>) -> (r: (int, int))
    ensures
        0 <= r.0 <= r.1 <= s.len(),
        trimmed(s) == s.subrange(r.0, r.1),
        forall|k: int| 0 <= k < r.0 || r.1 <= k < s.len() ==> white_space(#[trigger] s[k]),
        r.0 < r.1 ==> !white_space(s[r.0]) && !white_space(s[r.1 - 1]),
        blank(s) <==> (forall|k: int| 0 <= k < s.len() ==> white_space(#[trigger] s[k])),
{
    let i = lemma_trim_start(s);
    let t = s.skip(i);
    let j = lemma_trim_end(t);
    assert(t.take(j) =~= s.subrange(i, i + j));
    assert forall|k: int| 0 <= k < i || i + j <= k < s.len() implies white_space(
        #[trigger] s[k],
    ) by {
        if k >= i + j {
            assert(t[k - i] == s[k]);
        }
    }
    if j > 0 {
        assert(t[j - 1] == s[i + j - 1]);
        assert(!white_space(s[i + j - 1]));
    }
    (i, i + j)
}

proof fn lemma_piece_occurs(s: Seq<char>, is_sep: spec_fn(char) -> bool, i: int)
    requires
        0 <= i < split_where(s, is_sep).len(),
    ensures
        contains_text(s, split_where(s, is_sep)[i]),
    decreases s.len(),
{
    let none = Seq::<char>::empty();
    let k = first_where(s, is_sep);
    assert(0 <= k <= s.len()) by {
        lemma_first_where_bounds(s, is_sep);
    }
    if k < s.len() {
        let rest = s.skip(k + 1);
        let pieces = split_where(rest, is_sep);
        assert(split_where(s, is_sep) == seq![s.take(k)] + pieces);
        if i == 0 {
            assert(split_where(s, is_sep)[0] == s.take(k));
            assert(none + s.take(k) + s.skip(k) =~= s);
            lemma_part_occurs(none, s.take(k), s.skip(k));
        } else {
            assert(split_where(s, is_sep)[i] == pieces[i - 1]);
            lemma_piece_occurs(rest, is_sep, i - 1);
            assert(s.take(k + 1) + rest + none =~= s);
            lemma_part_occurs(s.take(k + 1), rest, none);
            lemma_occurs_through(pieces[i - 1], rest, s);
        }
    } else {
        assert(split_where(s, is_sep)[i] == s);
        assert(none + s + none =~= s);
        lemma_part_occurs(none, s, none);
    }
}

/// The parts that are not empty are those of the parts that hold something.
pub proof fn lemma_non_empty_is_there(parts: Seq<Seq<char>>, part: Seq<char>)
    ensures
        non_empty(parts).contains(part) <==> parts.contains(part) && part.len() > 0,
    decreases parts.len(),
{
    if parts.len() > 0 {
        let rest = parts.drop_last();
        lemma_non_empty_is_there(rest, part);
        if non_empty(parts).contains(part) && !non_empty(rest).contains(part) {
            let i = choose|i: int| 0 <= i < non_empty(parts).len() && non_empty(parts)[i] == part;
            assert(part == parts.last()) by {
                if i < non_empty(rest).len() {
                    assert(non_empty(rest)[i] == part);
                }
            }
            assert(parts[parts.len() - 1] == part);
        }
        if rest.contains(part) {
            let i = choose|i: int| 0 <= i < rest.len() && rest[i] == part;
            assert(parts[i] == part);
        }
        if parts.contains(part) && part.len() > 0 {
            let i = choose|i: int| 0 <= i < parts.len() && parts[i] == part;
            if i < parts.len() - 1 {
                assert(rest[i] == part);
                let j = choose|j: int| 0 <= j < non_empty(rest).len() && non_empty(rest)[j] == part;
                assert(non_empty(parts)[j] == part);
            } else {
                assert(non_empty(parts)[non_empty(parts).len() - 1] == part);
            }
        }
    }
}

/// Every word of a text stands in it.
pub proof fn words_stand_in_their_text(s: Seq<char>, word: Seq<char>)
    requires
        words_of(s).contains(word),
    ensures
        contains_text(s, word),
        word.len() > 0,
{
    let f = |c: char| white_space(c);
    let parts = split_where(s, f);
    lemma_non_empty_is_there(parts, word);
    let i = choose|i: int| 0 <= i < parts.len() && parts[i] == word;
    lemma_piece_occurs(s, f, i);
}

/// A number is read back from its digits.
pub proof fn digits_are_read_back(n: nat)
    ensures
        decimal(n).len() > 0,
        digits_value(decimal(n)) == n,
        forall|i: int| 0 <= i < decimal(n).len() ==> '0' <= #[trigger] decimal(n)[i] <= '9',
    decreases n,
{
    if n >= 10 {
        digits_are_read_back(n / 10);
        assert(decimal(n).drop_last() =~= decimal(n / 10));
        assert(decimal(n).last() as u32 == 48 + n % 10);
    } else {
        assert(decimal(n).drop_last() =~= Seq::<char>::empty());
        assert(decimal(n).last() as u32 == 48 + n);
        assert(digits_value(Seq::<char>::empty()) == 0);
    }
}

/// Lower case changes capital ASCII letters alone, and every one of them.
pub proof fn lower_case_changes_capitals_alone(s: Seq<char>, i: int)
    requires
        0 <= i < s.len(),
    ensures
        ascii_lower(s).len() == s.len(),
        !('A' <= s[i] <= 'Z') ==> ascii_lower(s)[i] == s[i],
        'A' <= s[i] <= 'Z' ==> 'a' <= ascii_lower(s)[i] <= 'z' && ascii_lower(s)[i] as u32
            - s[i] as u32 == 32,
{
}

proof fn lemma_no_separator(s: Seq<char>, is_sep: spec_fn(char) -> bool)
    requires
        forall|k: int| 0 <= k < s.len() ==> !is_sep(#[trigger] s[k]),
    ensures
        first_where(s, is_sep) == s.len(),
    decreases s.len(),
{
    if s.len() > 0 {
        assert forall|k: int| 0 <= k < s.skip(1).len() implies !is_sep(#[trigger] s.skip(1)[k]) by {
            assert(s.skip(1)[k] == s[k + 1]);
        }
        lemma_no_separator(s.skip(1), is_sep);
    }
}

proof fn lemma_first_separator(s: Seq<char>, is_sep: spec_fn(char) -> bool, at: int)
    requires
        0 <= at < s.len(),
        is_sep(s[at]),
        forall|k: int| 0 <= k < at ==> !is_sep(#[trigger] s[k]),
    ensures
        first_where(s, is_sep) == at,
    decreases s.len(),
{
    if at > 0 {
        assert(!is_sep(s[0]));
        assert forall|k: int| 0 <= k < at - 1 implies !is_sep(#[trigger] s.skip(1)[k]) by {
            assert(s.skip(1)[k] == s[k + 1]);
        }
        lemma_first_separator(s.skip(1), is_sep, at - 1);
    }
}

/// A text without white space is one word.
pub proof fn lemma_one_word(s: Seq<char>)
    requires
        s.len() > 0,
        forall|k: int| 0 <= k < s.len() ==> !white_space(#[trigger] s[k]),
    ensures
        words_of(s) == seq![s],
{
    let f = |c: char| white_space(c);
    lemma_no_separator(s, f);
    assert(split_where(s, f) == seq![s]);
    assert(seq![s].drop_last() =~= Seq::<Seq<char>>::empty());
    assert(non_empty(Seq::<Seq<char>>::empty()) =~= Seq::<Seq<char>>::empty());
    assert(words_of(s) =~= seq![s]);
}

/// One piece of white space parts two words.
pub proof fn lemma_two_words(s: Seq<char>, at: int)
    requires
        0 < at < s.len() - 1,
        white_space(s[at]),
        forall|k: int| 0 <= k < s.len() && k != at ==> !white_space(#[trigger] s[k]),
    ensures
        words_of(s) == seq![s.take(at), s.skip(at + 1)],
{
    let f = |c: char| white_space(c);
    lemma_first_separator(s, f, at);
    let rest = s.skip(at + 1);
    assert forall|k: int| 0 <= k < rest.len() implies !f(#[trigger] rest[k]) by {
        assert(rest[k] == s[at + 1 + k]);
    }
    lemma_no_separator(rest, f);
    assert(split_where(rest, f) == seq![rest]);
    let parts = seq![s.take(at), rest];
    assert(split_where(s, f) =~= parts);
    assert(parts.drop_last() =~= seq![s.take(at)]);
    assert(seq![s.take(at)].drop_last() =~= Seq::<Seq<char>>::empty());
    assert(non_empty(Seq::<Seq<char>>::empty()) =~= Seq::<Seq<char>>::empty());
    assert(non_empty(seq![s.take(at)]) =~= seq![s.take(at)]);
    assert(words_of(s) =~= parts);
}

/// Whether `first` stands in `s`, and `second` somewhere behind it.
pub open spec fn one_after_other(s: Seq<char>, first: Seq<char>, second: Seq<char>) -> bool {
    exists|i: int, j: int| #[trigger]
        occurs_at(s, first, i) && #[trigger] occurs_at(s, second, j) && i + first.len() <= j
}

/// Two parts with something between them stand one after the other.
pub proof fn lemma_one_after_other(
    before: Seq<char>,
    first: Seq<char>,
    between: Seq<char>,
    second: Seq<char>,
    after: Seq<char>,
)
    ensures
        one_after_other(before + first + between + second + after, first, second),
{
    let s = before + first + between + second + after;
    let i = before.len() as int;
    let j = i + first.len() + between.len();
    assert(s.subrange(i, i + first.len()) =~= first);
    assert(s.subrange(j, j + second.len()) =~= second);
    assert(occurs_at(s, first, i));
    assert(occurs_at(s, second, j));
}

/// What stands one after the other in a part does in the whole.
pub proof fn lemma_order_through(
    first: Seq<char>,
    second: Seq<char>,
    part: Seq<char>,
    whole: Seq<char>,
)
    requires
        one_after_other(part, first, second),
        contains_text(whole, part),
    ensures
        one_after_other(whole, first, second),
{
    let (i, j) = choose|i: int, j: int| #[trigger]
        occurs_at(part, first, i) && #[trigger] occurs_at(part, second, j) && i + first.len() <= j;
    let k = choose|k: int| occurs_at(whole, part, k);
    let there = whole.subrange(k, k + part.len());
    assert(whole.subrange(k + i, k + i + first.len()) =~= there.subrange(i, i + first.len()));
    assert(whole.subrange(k + j, k + j + second.len()) =~= there.subrange(j, j + second.len()));
    assert(occurs_at(whole, first, k + i));
    assert(occurs_at(whole, second, k + j));
}

/// What is left of a trimmed text is told by its first and last characters that
/// can be seen.
pub proof fn lemma_trimmed_between(s: Seq<char>, i: int, j: int)
    requires
        0 <= i <= j <= s.len(),
        forall|k: int| 0 <= k < i || j <= k < s.len() ==> white_space(#[trigger] s[k]),
        i < j ==> !white_space(s[i]) && !white_space(s[j - 1]),
    ensures
        trimmed(s) == s.subrange(i, j),
{
    let r = trimming_takes_off_white_space_alone(s);
    if i < j {
        assert(r.0 <= i < r.1);
        assert(r.0 == i) by {
            if r.0 < i {
                assert(white_space(s[r.0]));
            }
        }
        assert(r.1 == j) by {
            if r.1 > j {
                assert(white_space(s[r.1 - 1]));
            }
            if r.1 < j {
                assert(white_space(s[j - 1]));
            }
        }
    } else {
        if r.0 < r.1 {
            assert(white_space(s[r.0]));
        }
        assert(trimmed(s) =~= Seq::<char>::empty());
        assert(s.subrange(i, j) =~= Seq::<char>::empty());
    }
}

/// White space at either end of a text is lost when it is trimmed.
pub proof fn lemma_trimmed_around(before: Seq<char>, s: Seq<char>, after: Seq<char>)
    requires
        forall|k: int| 0 <= k < before.len() ==> white_space(#[trigger] before[k]),
        forall|k: int| 0 <= k < after.len() ==> white_space(#[trigger] after[k]),
    ensures
        trimmed(before + s + after) == trimmed(s),
{
    let whole = before + s + after;
    let n = before.len();
    let r = trimming_takes_off_white_space_alone(s);
    assert forall|k: int| 0 <= k < n + r.0 || n + r.1 <= k < whole.len() implies white_space(
        #[trigger] whole[k],
    ) by {
        if k < n {
            assert(whole[k] == before[k]);
        } else if k < n + s.len() {
            assert(whole[k] == s[k - n]);
        } else {
            assert(whole[k] == after[k - n - s.len()]);
        }
    }
    if r.0 < r.1 {
        assert(whole[n + r.0] == s[r.0]);
        assert(whole[n + r.1 - 1] == s[r.1 - 1]);
    }
    lemma_trimmed_between(whole, n + r.0, n + r.1);
    assert(whole.subrange(n + r.0, n + r.1) =~= s.subrange(r.0, r.1));
}

/// A text that neither begins nor ends with white space is trimmed already.
pub proof fn lemma_trimmed_already(s: Seq<char>)
    requires
        s.len() > 0 ==> !white_space(s[0]) && !white_space(s.last()),
    ensures
        trimmed(s) == s,
        trim_end_of(s) == s,
{
    lemma_trimmed_between(s, 0, s.len() as int);
    assert(s.subrange(0, s.len() as int) =~= s);
}

proof fn lemma_pieces_hold_no_separator(s: Seq<char>, is_sep: spec_fn(char) -> bool, i: int)
    requires
        0 <= i < split_where(s, is_sep).len(),
    ensures
        forall|k: int|
            0 <= k < split_where(s, is_sep)[i].len() ==> !is_sep(
                #[trigger] split_where(s, is_sep)[i][k],
            ),
    decreases s.len(),
{
    let k = first_where(s, is_sep);
    assert(0 <= k <= s.len()) by {
        lemma_first_where_bounds(s, is_sep);
    }
    assert(forall|j: int| 0 <= j < k ==> !is_sep(#[trigger] s[j])) by {
        lemma_none_before(s, is_sep);
    }
    if k < s.len() {
        let rest = s.skip(k + 1);
        let pieces = split_where(rest, is_sep);
        assert(split_where(s, is_sep) == seq![s.take(k)] + pieces);
        if i == 0 {
            assert(split_where(s, is_sep)[0] == s.take(k));
        } else {
            lemma_pieces_hold_no_separator(rest, is_sep, i - 1);
            assert(split_where(s, is_sep)[i] == pieces[i - 1]);
        }
    } else {
        assert(split_where(s, is_sep)[i] == s);
    }
}

proof fn lemma_none_before(s: Seq<char>, is_sep: spec_fn(char) -> bool)
    ensures
        forall|j: int| 0 <= j < first_where(s, is_sep) ==> !is_sep(#[trigger] s[j]),
    decreases s.len(),
{
    if s.len() > 0 && !is_sep(s[0]) {
        lemma_first_where_bounds(s.skip(1), is_sep);
        lemma_none_before(s.skip(1), is_sep);
        assert forall|j: int| 0 <= j < first_where(s, is_sep) implies !is_sep(#[trigger] s[j]) by {
            if j > 0 {
                assert(s.skip(1)[j - 1] == s[j]);
            }
        }
    }
}

/// The pieces of a parted text stand in it, and hold nothing that parts them.
pub proof fn pieces_stand_in_their_text(s: Seq<char>, seps: Seq<char>, i: int)
    requires
        0 <= i < split_any_of(s, seps).len(),
    ensures
        contains_text(s, split_any_of(s, seps)[i]),
        forall|k: int|
            0 <= k < split_any_of(s, seps)[i].len() ==> !seps.contains(
                #[trigger] split_any_of(s, seps)[i][k],
            ),
{
    let f = |c: char| seps.contains(c);
    lemma_piece_occurs(s, f, i);
    lemma_pieces_hold_no_separator(s, f, i);
}

/// A word holds no white space.
pub proof fn words_hold_no_white_space(s: Seq<char>, word: Seq<char>)
    requires
        words_of(s).contains(word),
    ensures
        forall|k: int| 0 <= k < word.len() ==> !white_space(#[trigger] word[k]),
{
    let f = |c: char| white_space(c);
    let parts = split_where(s, f);
    lemma_non_empty_is_there(parts, word);
    let i = choose|i: int| 0 <= i < parts.len() && parts[i] == word;
    lemma_pieces_hold_no_separator(s, f, i);
    assert forall|k: int| 0 <= k < word.len() implies !white_space(#[trigger] word[k]) by {
        assert(!f(parts[i][k]));
    }
}

/// What is stripped off the beginning is made of the set alone, and what is left
/// begins with none of it.
pub proof fn stripping_stops_at_the_first_other(s: Seq<char>, set: Seq<char>) -> (i: int)
    ensures
        0 <= i <= s.len(),
        strip_leading(s, set) == s.skip(i),
        forall|k: int| 0 <= k < i ==> set.contains(#[trigger] s[k]),
        i < s.len() ==> !set.contains(s[i]),
    decreases s.len(),
{
    if s.len() > 0 && set.contains(s[0]) {
        let i = stripping_stops_at_the_first_other(s.skip(1), set);
        assert(s.skip(1).skip(i) =~= s.skip(i + 1));
        assert forall|k: int| 0 <= k < i + 1 implies set.contains(#[trigger] s[k]) by {
            if k > 0 {
                assert(s.skip(1)[k - 1] == s[k]);
            }
        }
        if i + 1 < s.len() {
            assert(s.skip(1)[i] == s[i + 1]);
        }
        i + 1
    } else {
        assert(s.skip(0) =~= s);
        0
    }
}

/// What is stripped off the end is that character alone, all of it.
pub proof fn stripping_the_end_takes_one_character(s: Seq<char>, c: char) -> (j: int)
    ensures
        0 <= j <= s.len(),
        strip_trailing(s, c) == s.take(j),
        forall|k: int| j <= k < s.len() ==> #[trigger] s[k] == c,
        j > 0 ==> s[j - 1] != c,
        strip_trailing(s.push(c), c) == strip_trailing(s, c),
    decreases s.len(),
{
    assert(s.push(c).drop_last() =~= s);
    if s.len() > 0 && s.last() == c {
        let j = stripping_the_end_takes_one_character(s.drop_last(), c);
        assert(s.drop_last().take(j) =~= s.take(j));
        assert forall|k: int| j <= k < s.len() implies #[trigger] s[k] == c by {
            if k < s.len() - 1 {
                assert(s.drop_last()[k] == s[k]);
            }
        }
        j
    } else {
        assert(s.take(s.len() as int) =~= s);
        s.len() as int
    }
}

/// A number is read where its digits stand, and only where it fits.
pub proof fn written_numbers_are_read(n: nat, max: nat)
    ensures
        n <= max ==> number_in(decimal(n), max) == Some(n),
        n > max ==> number_in(decimal(n), max) is None,
{
    digits_are_read_back(n);
    let s = decimal(n);
    assert('0' <= s[0] <= '9');
    assert(unsigned_digits(s) == s);
    assert forall|i: int| 0 <= i < s.len() implies ascii_digit(#[trigger] s[i]) by {
        assert('0' <= s[i] <= '9');
    }
}

/// What is no number is read as none: nothing at all, and whatever holds a
/// character that is no digit behind a sign.
pub proof fn other_texts_are_no_numbers(s: Seq<char>, i: int, max: nat)
    requires
        0 < i < s.len(),
        !('0' <= s[i] <= '9'),
    ensures
        number_in(s, max) is None,
        number_in(Seq::<char>::empty(), max) is None,
{
    let body = unsigned_digits(s);
    if body.len() < s.len() {
        assert(body[i - 1] == s[i]);
    } else {
        assert(body[i] == s[i]);
    }
    assert(unsigned_digits(Seq::<char>::empty()).len() == 0);
}

/// A text cut to a length is the beginning of it, whole where it fits.
pub proof fn cut_texts_are_beginnings(s: Seq<char>, max: nat)
    ensures
        taken(s, max as int).len() <= max,
        s.len() <= max ==> taken(s, max as int) == s,
        s.len() > max ==> taken(s, max as int).len() == max && s.take(max as int) == taken(
            s,
            max as int,
        ),
{
}

/// A text that is parted at separators and joined by one of them is the text
/// again, where that one alone stands in it.
pub proof fn parted_texts_are_joined_again(s: Seq<char>, sep: char)
    ensures
        joined(split_any_of(s, seq![sep]), seq![sep]) == s,
{
    let f = |c: char| seq![sep].contains(c);
    assert forall|c: char| #[trigger] f(c) == (c == sep) by {
        assert(seq![sep][0] == sep);
    }
    lemma_joined_again(s, sep, f);
}

proof fn lemma_joined_again(s: Seq<char>, sep: char, f: spec_fn(char) -> bool)
    requires
        forall|c: char| #[trigger] f(c) == (c == sep),
    ensures
        joined(split_where(s, f), seq![sep]) == s,
        split_where(s, f).len() > 0,
    decreases s.len(),
{
    let k = first_where(s, f);
    assert(0 <= k <= s.len()) by {
        lemma_first_where_bounds(s, f);
    }
    if k < s.len() {
        let rest = s.skip(k + 1);
        lemma_joined_again(rest, sep, f);
        let pieces = split_where(rest, f);
        assert(split_where(s, f) == seq![s.take(k)] + pieces);
        lemma_joined_front(s.take(k), pieces, seq![sep]);
        assert(s[k] == sep) by {
            lemma_separator_there(s, f);
        }
        assert(s.take(k) + seq![sep] + rest =~= s);
    } else {
        assert(split_where(s, f) == seq![s]);
        assert(seq![s].drop_last() =~= Seq::<Seq<char>>::empty());
        assert(joined(seq![s], seq![sep]) =~= s);
    }
}

proof fn lemma_separator_there(s: Seq<char>, is_sep: spec_fn(char) -> bool)
    requires
        first_where(s, is_sep) < s.len(),
    ensures
        is_sep(s[first_where(s, is_sep)]),
    decreases s.len(),
{
    if s.len() > 0 && !is_sep(s[0]) {
        lemma_first_where_bounds(s.skip(1), is_sep);
        lemma_separator_there(s.skip(1), is_sep);
    }
}

proof fn lemma_joined_front(first: Seq<char>, rest: Seq<Seq<char>>, sep: Seq<char>)
    requires
        rest.len() > 0,
    ensures
        joined(seq![first] + rest, sep) == first + sep + joined(rest, sep),
    decreases rest.len(),
{
    let all = seq![first] + rest;
    assert(all.drop_last() =~= seq![first] + rest.drop_last());
    assert(all.last() == rest.last());
    if rest.len() == 1 {
        assert(rest.drop_last() =~= Seq::<Seq<char>>::empty());
        assert(all.drop_last() =~= seq![first]);
        assert(seq![first].drop_last() =~= Seq::<Seq<char>>::empty());
        assert(joined(seq![first], sep) =~= first);
        assert(joined(rest, sep) =~= rest.last());
        assert(joined(all, sep) =~= first + sep + joined(rest, sep));
    } else {
        lemma_joined_front(first, rest.drop_last(), sep);
        assert(joined(all, sep) =~= first + sep + joined(rest, sep));
    }
}

/// What is left of a trimmed text stands in it.
pub proof fn lemma_trimmed_stands(s: Seq<char>)
    ensures
        contains_text(s, trimmed(s)),
{
    let r = trimming_takes_off_white_space_alone(s);
    lemma_part_occurs(s.take(r.0), trimmed(s), s.skip(r.1));
    assert(s.take(r.0) + trimmed(s) + s.skip(r.1) =~= s);
}

/// What is left of a stripped text stands in it.
pub proof fn lemma_stripped_stands(s: Seq<char>, set: Seq<char>)
    ensures
        contains_text(s, strip_leading(s, set)),
{
    let none = Seq::<char>::empty();
    let i = stripping_stops_at_the_first_other(s, set);
    lemma_part_occurs(s.take(i), strip_leading(s, set), none);
    assert(s.take(i) + strip_leading(s, set) + none =~= s);
}

} // verus!
