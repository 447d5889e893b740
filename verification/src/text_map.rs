//! A map from texts to values, kept in the order of its keys.
use vstd::prelude::*;

use crate::text::{chars_of, same};

verus! {

broadcast use vstd::string::group_string_axioms;

/// The order of texts: character by character, a prefix before what extends it.
pub open spec fn text_less(a: Seq<char>, b: Seq<char>) -> bool
    decreases a.len(),
{
    if b.len() == 0 {
        false
    } else if a.len() == 0 {
        true
    } else if a[0] != b[0] {
        a[0] < b[0]
    } else {
        text_less(a.skip(1), b.skip(1))
    }
}

/// The order of texts is irreflexive.
pub proof fn lemma_text_less_irreflexive(a: Seq<char>)
    ensures
        !text_less(a, a),
    decreases a.len(),
{
    if a.len() > 0 {
        lemma_text_less_irreflexive(a.skip(1));
    }
}

/// The order of texts is transitive.
pub proof fn lemma_text_less_transitive(a: Seq<char>, b: Seq<char>, c: Seq<char>)
    requires
        text_less(a, b),
        text_less(b, c),
    ensures
        text_less(a, c),
    decreases a.len(),
{
    if a.len() > 0 && b.len() > 0 && c.len() > 0 && a[0] == b[0] && b[0] == c[0] {
        lemma_text_less_transitive(a.skip(1), b.skip(1), c.skip(1));
    }
}

/// Two different texts are ordered one way or the other.
pub proof fn lemma_text_less_total(a: Seq<char>, b: Seq<char>)
    ensures
        a == b || text_less(a, b) || text_less(b, a),
    decreases a.len(),
{
    if a.len() > 0 && b.len() > 0 && a[0] == b[0] {
        lemma_text_less_total(a.skip(1), b.skip(1));
        if a.skip(1) == b.skip(1) {
            assert(a =~= seq![a[0]] + a.skip(1));
            assert(b =~= seq![b[0]] + b.skip(1));
        }
    } else if a.len() == 0 && b.len() == 0 {
        assert(a =~= b);
    }
}

proof fn lemma_text_less_after_prefix(a: Seq<char>, b: Seq<char>, i: int)
    requires
        0 <= i <= a.len(),
        i <= b.len(),
        forall|j: int| 0 <= j < i ==> a[j] == b[j],
    ensures
        text_less(a, b) == text_less(a.skip(i), b.skip(i)),
    decreases i,
{
    if i > 0 {
        let x = a.skip(1);
        let y = b.skip(1);
        assert forall|j: int| 0 <= j < i - 1 implies x[j] == y[j] by {
            assert(x[j] == a[j + 1] && y[j] == b[j + 1]);
        }
        lemma_text_less_after_prefix(x, y, i - 1);
        assert(x.skip(i - 1) =~= a.skip(i));
        assert(y.skip(i - 1) =~= b.skip(i));
    } else {
        assert(a.skip(0) =~= a);
        assert(b.skip(0) =~= b);
    }
}

/// Whether `a` comes before `b`.
pub fn less(a: &str, b: &str) -> (r: bool)
    ensures
        r == text_less(a@, b@),
{
    let x = chars_of(a);
    let y = chars_of(b);
    let mut i: usize = 0;
    while i < x.len() && i < y.len() && x[i] == y[i]
        invariant
            x@ == a@,
            y@ == b@,
            i <= x.len(),
            i <= y.len(),
            forall|j: int| 0 <= j < i ==> a@[j] == b@[j],
        decreases x.len() - i,
    {
        i = i + 1;
    }
    proof {
        lemma_text_less_after_prefix(a@, b@, i as int);
        assert(i < x.len() ==> a@.skip(i as int)[0] == a@[i as int]);
        assert(i < y.len() ==> b@.skip(i as int)[0] == b@[i as int]);
    }
    if i == y.len() {
        false
    } else if i == x.len() {
        true
    } else {
        x[i] < y[i]
    }
}

/// Whether the keys of `s` are in strictly rising order.
pub open spec fn sorted_keys<V>(s: Seq<(Seq<char>, V)>) -> bool {
    forall|i: int, j: int| 0 <= i < j < s.len() ==> text_less(#[trigger] s[i].0, #[trigger] s[j].0)
}

/// Whether `key` is a key of `s`.
pub open spec fn has_key<V>(s: Seq<(Seq<char>, V)>, key: Seq<char>) -> bool {
    exists|i: int| 0 <= i < s.len() && #[trigger] s[i].0 == key
}

/// The position of `key` in `s`.
pub open spec fn key_index<V>(s: Seq<(Seq<char>, V)>, key: Seq<char>) -> int {
    choose|i: int| 0 <= i < s.len() && #[trigger] s[i].0 == key
}

/// The entries of `s` as a map.
pub open spec fn map_of<V>(s: Seq<(Seq<char>, V)>) -> Map<Seq<char>, V> {
    Map::new(|key: Seq<char>| has_key(s, key), |key: Seq<char>| s[key_index(s, key)].1)
}

proof fn lemma_one_index<V>(s: Seq<(Seq<char>, V)>, i: int)
    requires
        sorted_keys(s),
        0 <= i < s.len(),
    ensures
        has_key(s, s[i].0),
        key_index(s, s[i].0) == i,
        map_of(s).dom().contains(s[i].0),
        map_of(s)[s[i].0] == s[i].1,
{
    let k = key_index(s, s[i].0);
    lemma_text_less_irreflexive(s[i].0);
    if k < i {
        assert(text_less(s[k].0, s[i].0));
    } else if k > i {
        assert(text_less(s[i].0, s[k].0));
    }
}

/// A map from texts to values that lists its entries in the order of the keys.
#[derive(Debug, PartialEq, Eq)]
pub struct TextMap<V> {
    entries: Vec<(String, V)>,
}

/// The entries of a list of pairs, with each key taken as its characters.
pub open spec fn pairs<V>(v: Seq<(String, V)>) -> Seq<(Seq<char>, V)> {
    Seq::new(v.len(), |i: int| (v[i].0@, v[i].1))
}

impl<V> View for TextMap<V> {
    type V = Seq<(Seq<char>, V)>;

    closed spec fn view(&self) -> Seq<(Seq<char>, V)> {
        pairs(self.entries@)
    }
}

impl<V> TextMap<V> {
    #[verifier::type_invariant]
    spec fn inv(self) -> bool {
        sorted_keys(pairs(self.entries@))
    }

    /// The map that the entries make.
    pub open spec fn map(&self) -> Map<Seq<char>, V> {
        map_of(self@)
    }

    /// An empty map.
    pub fn new() -> (r: Self)
        ensures
            r@ == Seq::<(Seq<char>, V)>::empty(),
            sorted_keys(r@),
            r.map() == Map::<Seq<char>, V>::empty(),
    {
        let r = TextMap { entries: Vec::new() };
        assert(r@ =~= Seq::<(Seq<char>, V)>::empty());
        assert(r.map() =~= Map::<Seq<char>, V>::empty());
        r
    }

    /// The number of entries.
    pub fn len(&self) -> (r: usize)
        ensures
            r == self@.len(),
            sorted_keys(self@),
    {
        proof {
            use_type_invariant(self);
        }
        self.entries.len()
    }

    /// Whether there is no entry.
    pub fn is_empty(&self) -> (r: bool)
        ensures
            r == (self@.len() == 0),
    {
        self.entries.len() == 0
    }

    /// The key of the entry at position `i`.
    pub fn key_at(&self, i: usize) -> (r: &String)
        requires
            i < self@.len(),
        ensures
            r@ == self@[i as int].0,
    {
        &self.entries[i].0
    }

    /// The value of the entry at position `i`.
    pub fn value_at(&self, i: usize) -> (r: &V)
        requires
            i < self@.len(),
        ensures
            *r == self@[i as int].1,
    {
        &self.entries[i].1
    }

    /// The position of `key`, where it is a key.
    pub fn position(&self, key: &str) -> (r: Option<usize>)
        ensures
            sorted_keys(self@),
            match r {
                Some(i) => {
                    &&& i < self@.len()
                    &&& self@[i as int].0 == key@
                    &&& has_key(self@, key@)
                    &&& self.map().dom().contains(key@)
                    &&& self.map()[key@] == self@[i as int].1
                },
                None => !has_key(self@, key@) && !self.map().dom().contains(key@),
            },
    {
        proof {
            use_type_invariant(self);
        }
        let mut i: usize = 0;
        while i < self.entries.len()
            invariant
                i <= self.entries.len(),
                sorted_keys(self@),
                self@ == pairs(self.entries@),
                forall|j: int| 0 <= j < i ==> #[trigger] self@[j].0 != key@,
            decreases self.entries.len() - i,
        {
            if same(self.entries[i].0.as_str(), key) {
                proof {
                    lemma_one_index(self@, i as int);
                }
                return Some(i);
            }
            i = i + 1;
        }
        None
    }

    /// The value of `key`.
    pub fn get(&self, key: &str) -> (r: Option<&V>)
        ensures
            match r {
                Some(v) => self.map().dom().contains(key@) && *v == self.map()[key@],
                None => !self.map().dom().contains(key@),
            },
    {
        match self.position(key) {
            Some(i) => Some(&self.entries[i].1),
            None => None,
        }
    }

    /// Whether `key` is a key.
    pub fn contains_key(&self, key: &str) -> (r: bool)
        ensures
            r == self.map().dom().contains(key@),
    {
        self.position(key).is_some()
    }

    /// Gives `key` the value `value`.
    pub fn insert(&mut self, key: String, value: V)
        ensures
            sorted_keys(final(self)@),
            final(self).map() == old(self).map().insert(key@, value),
    {
        proof {
            use_type_invariant(&*self);
        }
        let ghost before = self@;
        let mut entries: Vec<(String, V)> = Vec::new();
        assert(pairs(entries@) =~= Seq::<(Seq<char>, V)>::empty());
        std::mem::swap(&mut entries, &mut self.entries);
        assert(pairs(entries@) == before);
        let n: usize = entries.len();
        let mut p: usize = 0;
        while p < n && less(entries[p].0.as_str(), key.as_str())
            invariant
                n == entries.len(),
                p <= n,
                pairs(entries@) == before,
                forall|j: int| 0 <= j < p ==> text_less(#[trigger] before[j].0, key@),
            decreases n - p,
        {
            p = p + 1;
        }
        let ghost k = key@;
        assert(p < n ==> !text_less(before[p as int].0, k));
        if p < n && same(entries[p].0.as_str(), key.as_str()) {
            let ghost at = before[p as int];
            entries[p].1 = value;
            assert(pairs(entries@) =~= before.update(p as int, (k, value)));
            let ghost after = pairs(entries@);
            proof {
                assert forall|i: int, j: int| 0 <= i < j < after.len() implies text_less(
                    #[trigger] after[i].0,
                    #[trigger] after[j].0,
                ) by {
                    assert(after[i].0 == before[i].0 && after[j].0 == before[j].0);
                }
                lemma_updated(before, after, p as int, k, value);
            }
            self.entries = entries;
        } else {
            entries.insert(p, (key, value));
            assert(pairs(entries@) =~= before.insert(p as int, (k, value)));
            let ghost after = pairs(entries@);
            proof {
                lemma_inserted(before, after, p as int, k, value);
            }
            self.entries = entries;
        }
    }

    /// Takes `key` and its value out.
    pub fn remove(&mut self, key: &str) -> (r: Option<V>)
        ensures
            sorted_keys(final(self)@),
            final(self).map() == old(self).map().remove(key@),
            match r {
                Some(v) => old(self).map().dom().contains(key@) && v == old(self).map()[key@],
                None => !old(self).map().dom().contains(key@) && final(self)@ == old(self)@,
            },
    {
        proof {
            use_type_invariant(&*self);
        }
        let ghost before = self@;
        match self.position(key) {
            None => {
                assert(self.map() =~= old(self).map().remove(key@));
                None
            },
            Some(p) => {
                let mut entries: Vec<(String, V)> = Vec::new();
                assert(pairs(entries@) =~= Seq::<(Seq<char>, V)>::empty());
                std::mem::swap(&mut entries, &mut self.entries);
                assert(pairs(entries@) == before);
                let taken = entries.remove(p);
                assert(pairs(entries@) =~= before.remove(p as int));
                proof {
                    lemma_removed(before, p as int);
                }
                self.entries = entries;
                Some(taken.1)
            },
        }
    }
}

proof fn lemma_updated<V>(
    before: Seq<(Seq<char>, V)>,
    after: Seq<(Seq<char>, V)>,
    p: int,
    k: Seq<char>,
    value: V,
)
    requires
        sorted_keys(before),
        sorted_keys(after),
        0 <= p < before.len(),
        before[p].0 == k,
        after == before.update(p, (k, value)),
    ensures
        map_of(after) == map_of(before).insert(k, value),
{
    assert forall|q: Seq<char>|
        map_of(after).dom().contains(q) == map_of(before).insert(k, value).dom().contains(q) by {
        if has_key(after, q) {
            let i = key_index(after, q);
            assert(before[i].0 == q);
        }
        if has_key(before, q) {
            let i = key_index(before, q);
            assert(after[i].0 == q);
        }
        assert(after[p].0 == k);
    }
    assert forall|q: Seq<char>| #[trigger] map_of(after).dom().contains(q) implies map_of(after)[q]
        == map_of(before).insert(k, value)[q] by {
        let i = key_index(after, q);
        lemma_one_index(after, i);
        lemma_one_index(before, i);
        lemma_one_index(after, p);
    }
    assert(map_of(after) =~= map_of(before).insert(k, value));
}

proof fn lemma_inserted<V>(
    before: Seq<(Seq<char>, V)>,
    after: Seq<(Seq<char>, V)>,
    p: int,
    k: Seq<char>,
    value: V,
)
    requires
        sorted_keys(before),
        0 <= p <= before.len(),
        forall|j: int| 0 <= j < p ==> text_less(#[trigger] before[j].0, k),
        p < before.len() ==> !text_less(before[p].0, k) && before[p].0 != k,
        after == before.insert(p, (k, value)),
    ensures
        sorted_keys(after),
        map_of(after) == map_of(before).insert(k, value),
{
    assert forall|j: int| p <= j < before.len() implies text_less(k, #[trigger] before[j].0) by {
        lemma_text_less_total(k, before[p].0);
        if j > p {
            assert(text_less(before[p].0, before[j].0));
            lemma_text_less_transitive(k, before[p].0, before[j].0);
        }
    }
    assert forall|i: int, j: int| 0 <= i < j < after.len() implies text_less(
        #[trigger] after[i].0,
        #[trigger] after[j].0,
    ) by {
        let a = if i < p {
            i
        } else {
            i - 1
        };
        let b = if j < p {
            j
        } else {
            j - 1
        };
        if i == p {
            assert(after[j] == before[b]);
        } else if j == p {
            assert(after[i] == before[a]);
        } else {
            assert(after[i] == before[a] && after[j] == before[b]);
        }
    }
    assert(after[p] == (k, value));
    assert forall|q: Seq<char>|
        map_of(after).dom().contains(q) == map_of(before).insert(k, value).dom().contains(q) by {
        assert(after[p].0 == k);
        if has_key(after, q) {
            let i = key_index(after, q);
            if i < p {
                assert(after[i] == before[i]);
            } else if i > p {
                assert(after[i] == before[i - 1]);
            }
        }
        if has_key(before, q) {
            let i = key_index(before, q);
            if i < p {
                assert(after[i] == before[i]);
            } else {
                assert(after[i + 1] == before[i]);
            }
        }
    }
    assert forall|q: Seq<char>| #[trigger] map_of(after).dom().contains(q) implies map_of(after)[q]
        == map_of(before).insert(k, value)[q] by {
        let i = key_index(after, q);
        lemma_one_index(after, i);
        lemma_one_index(after, p);
        if i < p {
            assert(after[i] == before[i]);
            lemma_one_index(before, i);
        } else if i > p {
            assert(after[i] == before[i - 1]);
            lemma_one_index(before, i - 1);
        }
    }
    assert(map_of(after) =~= map_of(before).insert(k, value));
}

proof fn lemma_removed<V>(before: Seq<(Seq<char>, V)>, p: int)
    requires
        sorted_keys(before),
        0 <= p < before.len(),
    ensures
        sorted_keys(before.remove(p)),
        map_of(before.remove(p)) == map_of(before).remove(before[p].0),
{
    let after = before.remove(p);
    let k = before[p].0;
    assert forall|i: int, j: int| 0 <= i < j < after.len() implies text_less(
        #[trigger] after[i].0,
        #[trigger] after[j].0,
    ) by {
        let a = if i < p {
            i
        } else {
            i + 1
        };
        let b = if j < p {
            j
        } else {
            j + 1
        };
        assert(after[i] == before[a] && after[j] == before[b]);
    }
    assert forall|q: Seq<char>|
        map_of(after).dom().contains(q) == map_of(before).remove(k).dom().contains(q) by {
        if has_key(after, q) {
            let i = key_index(after, q);
            let a = if i < p {
                i
            } else {
                i + 1
            };
            assert(after[i] == before[a]);
            lemma_one_index(before, a);
            lemma_one_index(before, p);
        }
        if has_key(before, q) && q != k {
            let i = key_index(before, q);
            if i < p {
                assert(after[i] == before[i]);
            } else {
                assert(after[i - 1] == before[i]);
            }
        }
    }
    assert forall|q: Seq<char>| #[trigger] map_of(after).dom().contains(q) implies map_of(after)[q]
        == map_of(before).remove(k)[q] by {
        let i = key_index(after, q);
        let a = if i < p {
            i
        } else {
            i + 1
        };
        lemma_one_index(after, i);
        assert(after[i] == before[a]);
        lemma_one_index(before, a);
    }
    assert(map_of(after) =~= map_of(before).remove(k));
}

/// A sorted list of entries is determined by the map that it makes.
pub proof fn sorted_entries_are_determined<V>(a: Seq<(Seq<char>, V)>, b: Seq<(Seq<char>, V)>)
    requires
        sorted_keys(a),
        sorted_keys(b),
        map_of(a) == map_of(b),
    ensures
        a == b,
    decreases a.len(),
{
    if a.len() == 0 {
        if b.len() > 0 {
            lemma_one_index(b, 0);
            assert(map_of(a).dom().contains(b[0].0));
        }
        assert(a =~= b);
    } else {
        lemma_one_index(a, 0);
        assert(has_key(b, a[0].0));
        let i = key_index(b, a[0].0);
        lemma_one_index(b, i);
        lemma_one_index(b, 0);
        assert(has_key(a, b[0].0));
        let j = key_index(a, b[0].0);
        lemma_one_index(a, j);
        lemma_text_less_irreflexive(a[0].0);
        if i > 0 && j > 0 {
            assert(text_less(b[0].0, b[i].0));
            assert(text_less(a[0].0, a[j].0));
            lemma_text_less_transitive(a[0].0, b[0].0, a[0].0);
        }
        if i == 0 || j == 0 {
            assert(a[0].0 == b[0].0);
        }
        lemma_removed(a, 0);
        lemma_removed(b, 0);
        sorted_entries_are_determined(a.remove(0), b.remove(0));
        assert(a =~= seq![a[0]] + a.remove(0));
        assert(b =~= seq![b[0]] + b.remove(0));
    }
}

/// Texts are ordered as in a dictionary: by the first character in which they
/// differ, and a text before every longer one that begins with it.
pub proof fn texts_are_ordered_as_in_a_dictionary(
    before: Seq<char>,
    a: char,
    b: char,
    x: Seq<char>,
    y: Seq<char>,
)
    requires
        a != b,
    ensures
        text_less(before + seq![a] + x, before + seq![b] + y) == (a < b),
        text_less(before, before + seq![a] + x),
        !text_less(before + seq![a] + x, before),
    decreases before.len(),
{
    let s = before + seq![a] + x;
    let t = before + seq![b] + y;
    if before.len() == 0 {
        assert(s[0] == a && t[0] == b);
    } else {
        texts_are_ordered_as_in_a_dictionary(before.skip(1), a, b, x, y);
        assert(s.skip(1) =~= before.skip(1) + seq![a] + x);
        assert(t.skip(1) =~= before.skip(1) + seq![b] + y);
        assert(s[0] == before[0] && t[0] == before[0]);
    }
}

} // verus!
