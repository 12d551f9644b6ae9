//! Maps keyed by strings, held as a vector of distinct-key pairs.
//!
//! Pairs are kept in the order their keys were first inserted, and each
//! map's meaning is the mathematical map its pairs denote.

use vstd::prelude::*;
use crate::text::str_eq;

verus! {

/// The map denoted by a sequence of pairs: each pair is inserted in order,
/// so a later pair for a key replaces an earlier one.
pub open spec fn fold_entries<T>(s: Seq<(Seq<char>, T)>) -> Map<Seq<char>, T>
    decreases s.len(),
{
    if s.len() == 0 {
        Map::empty()
    } else {
        fold_entries(s.drop_last()).insert(s.last().0, s.last().1)
    }
}

/// No key occurs twice.
pub open spec fn keys_distinct<T>(s: Seq<(Seq<char>, T)>) -> bool {
    forall|i: int, j: int| 0 <= i < s.len() && 0 <= j < s.len() && i != j ==> s[i].0 != s[j].0
}

/// Every pair's key is in the folded map, and the map's keys are exactly the pairs' keys.
pub proof fn lemma_fold_keys<T>(s: Seq<(Seq<char>, T)>)
    ensures
        forall|i: int| 0 <= i < s.len() ==> #[trigger] fold_entries(s).contains_key(s[i].0),
        forall|k: Seq<char>| #[trigger] fold_entries(s).contains_key(k) ==> exists|i: int|
            0 <= i < s.len() && s[i].0 == k,
        fold_entries(s).dom().finite(),
    decreases s.len(),
{
    if s.len() > 0 {
        let p = s.drop_last();
        lemma_fold_keys(p);
        assert forall|i: int| 0 <= i < s.len() implies #[trigger] fold_entries(s).contains_key(
            s[i].0,
        ) by {
            if i < s.len() - 1 {
                assert(p[i] == s[i]);
            }
        }
        assert forall|k: Seq<char>| #[trigger] fold_entries(s).contains_key(k) implies exists|i: int|
            0 <= i < s.len() && s[i].0 == k by {
            if k != s.last().0 {
                let i = choose|i: int| 0 <= i < p.len() && p[i].0 == k;
                assert(s[i] == p[i]);
            } else {
                assert(s[s.len() - 1].0 == k);
            }
        }
    }
}

/// With distinct keys, each pair's value is the map's value at its key,
/// and the map has as many keys as there are pairs.
pub proof fn lemma_fold_values<T>(s: Seq<(Seq<char>, T)>)
    requires
        keys_distinct(s),
    ensures
        forall|i: int| 0 <= i < s.len() ==> #[trigger] fold_entries(s)[s[i].0] == s[i].1,
        fold_entries(s).len() == s.len(),
    decreases s.len(),
{
    if s.len() > 0 {
        let p = s.drop_last();
        assert(keys_distinct(p)) by {
            assert forall|i: int, j: int|
                0 <= i < p.len() && 0 <= j < p.len() && i != j implies p[i].0 != p[j].0 by {
                assert(p[i] == s[i] && p[j] == s[j]);
            }
        }
        lemma_fold_values(p);
        lemma_fold_keys(p);
        assert forall|i: int| 0 <= i < s.len() implies #[trigger] fold_entries(s)[s[i].0]
            == s[i].1 by {
            if i < s.len() - 1 {
                assert(p[i] == s[i]);
                assert(s[i].0 != s.last().0);
            }
        }
        assert(!fold_entries(p).contains_key(s.last().0)) by {
            if fold_entries(p).contains_key(s.last().0) {
                let i = choose|i: int| 0 <= i < p.len() && p[i].0 == s.last().0;
                assert(p[i] == s[i]);
            }
        }
    }
}

/// Replacing the value of an existing pair inserts the new value at its key.
pub proof fn lemma_fold_update<T>(s: Seq<(Seq<char>, T)>, i: int, v: T)
    requires
        keys_distinct(s),
        0 <= i < s.len(),
    ensures
        fold_entries(s.update(i, (s[i].0, v))) == fold_entries(s).insert(s[i].0, v),
    decreases s.len(),
{
    let k = s[i].0;
    let t = s.update(i, (k, v));
    if i == s.len() - 1 {
        assert(t.drop_last() =~= s.drop_last());
        assert(fold_entries(s).insert(k, v) =~= fold_entries(s.drop_last()).insert(k, v));
    } else {
        let p = s.drop_last();
        assert(keys_distinct(p)) by {
            assert forall|a: int, b: int|
                0 <= a < p.len() && 0 <= b < p.len() && a != b implies p[a].0 != p[b].0 by {
                assert(p[a] == s[a] && p[b] == s[b]);
            }
        }
        assert(t.drop_last() =~= p.update(i, (k, v)));
        assert(p[i] == s[i]);
        lemma_fold_update(p, i, v);
        assert(s.last().0 != k);
        assert(t.last() == s.last());
        assert(fold_entries(t) =~= fold_entries(s).insert(k, v));
    }
}

/// A map from strings to values, kept as pairs with distinct keys in the
/// order the keys were first inserted.
pub struct StrMap<V: View> {
    pairs: Vec<(String, V)>,
}

/// Bundle identifier (or any string key) to category name.
pub type CategoryMap = StrMap<String>;

/// Bundle identifier or category name to minutes used.
pub type UsageMap = StrMap<u32>;

impl<V: View> StrMap<V> {
    /// The pairs, by view, in insertion order.
    pub closed spec fn entries(&self) -> Seq<(Seq<char>, V::V)> {
        self.pairs@.map_values(|p: (String, V)| (p.0@, p.1@))
    }

    #[verifier::type_invariant]
    closed spec fn distinct_keys(&self) -> bool {
        keys_distinct(self.entries())
    }

    /// An empty map.
    pub fn new() -> (m: Self)
        ensures
            m.entries() == Seq::<(Seq<char>, V::V)>::empty(),
            m@ == Map::<Seq<char>, V::V>::empty(),
    {
        let m = StrMap { pairs: Vec::new() };
        assert(m.entries() =~= Seq::<(Seq<char>, V::V)>::empty());
        m
    }

    /// Number of keys.
    pub fn len(&self) -> (n: usize)
        ensures
            n == self.entries().len(),
            n == self@.len(),
    {
        proof {
            use_type_invariant(self);
            lemma_fold_values(self.entries());
        }
        self.pairs.len()
    }

    /// Whether there are no keys.
    pub fn is_empty(&self) -> (b: bool)
        ensures
            b == (self@.len() == 0),
            b == (self.entries().len() == 0),
    {
        self.len() == 0
    }

    /// The key of the `i`-th pair.
    pub fn key_at(&self, i: usize) -> (k: &String)
        requires
            i < self.entries().len(),
        ensures
            k@ == self.entries()[i as int].0,
    {
        &self.pairs[i].0
    }

    /// The value of the `i`-th pair.
    pub fn value_at(&self, i: usize) -> (v: &V)
        requires
            i < self.entries().len(),
        ensures
            v@ == self.entries()[i as int].1,
    {
        &self.pairs[i].1
    }

    /// Position of `key` among the pairs, if present.
    fn find(&self, key: &str) -> (r: Option<usize>)
        ensures
            r matches Some(i) ==> i < self.entries().len() && self.entries()[i as int].0 == key@,
            r is None ==> forall|i: int|
                0 <= i < self.entries().len() ==> self.entries()[i].0 != key@,
    {
        let n = self.pairs.len();
        let mut i: usize = 0;
        while i < n
            invariant
                n == self.pairs@.len(),
                i <= n,
                forall|j: int| 0 <= j < i ==> self.entries()[j].0 != key@,
            decreases n - i,
        {
            if crate::text::str_eq(self.pairs[i].0.as_str(), key) {
                return Some(i);
            }
            i = i + 1;
        }
        None
    }

    /// Whether `key` is present.
    pub fn contains_key(&self, key: &str) -> (b: bool)
        ensures
            b == self@.contains_key(key@),
    {
        proof {
            lemma_fold_keys(self.entries());
        }
        self.find(key).is_some()
    }

    /// The value stored at `key`, if any.
    pub fn get(&self, key: &str) -> (r: Option<&V>)
        ensures
            r is Some == self@.contains_key(key@),
            r matches Some(v) ==> v@ == self@[key@],
    {
        proof {
            use_type_invariant(self);
            lemma_fold_keys(self.entries());
            lemma_fold_values(self.entries());
        }
        match self.find(key) {
            Some(i) => Some(&self.pairs[i].1),
            None => None,
        }
    }

    /// Stores `value` at `key`, replacing any earlier value; a new key goes last.
    pub fn insert(&mut self, key: String, value: V)
        ensures
            final(self)@ == old(self)@.insert(key@, value@),
            old(self)@.contains_key(key@) ==> final(self).entries().len() == old(self).entries().len(),
            !old(self)@.contains_key(key@) ==> final(self).entries() == old(self).entries().push(
                (key@, value@),
            ),
    {
        proof {
            use_type_invariant(&*self);
            lemma_fold_keys(self.entries());
        }
        let ghost old_entries = self.entries();
        let found = self.find(key.as_str());
        let mut pairs = Vec::new();
        std::mem::swap(&mut pairs, &mut self.pairs);
        match found {
            Some(i) => {
                let ghost kv = key@;
                pairs.set(i, (key, value));
                proof {
                    let e = pairs@.map_values(|p: (String, V)| (p.0@, p.1@));
                    assert(e =~= old_entries.update(i as int, (old_entries[i as int].0, value@)));
                    lemma_fold_update(old_entries, i as int, value@);
                    assert(keys_distinct(e)) by {
                        assert forall|a: int, b: int|
                            0 <= a < e.len() && 0 <= b < e.len() && a != b implies e[a].0
                            != e[b].0 by {
                            assert(e[a].0 == old_entries[a].0);
                            assert(e[b].0 == old_entries[b].0);
                        }
                    }
                }
            },
            None => {
                let ghost kv = key@;
                pairs.push((key, value));
                proof {
                    let e = pairs@.map_values(|p: (String, V)| (p.0@, p.1@));
                    assert(e =~= old_entries.push((kv, value@)));
                    assert(e.drop_last() =~= old_entries);
                    assert(keys_distinct(e)) by {
                        assert forall|a: int, b: int|
                            0 <= a < e.len() && 0 <= b < e.len() && a != b implies e[a].0
                            != e[b].0 by {
                            if a < old_entries.len() && b < old_entries.len() {
                                assert(e[a] == old_entries[a] && e[b] == old_entries[b]);
                            } else if a < old_entries.len() {
                                assert(e[a] == old_entries[a]);
                            } else {
                                assert(e[b] == old_entries[b]);
                            }
                        }
                    }
                }
            },
        }
        self.pairs = pairs;
    }
}

/// Inserting the pairs of `s` in order into `base` gives `base` overridden by
/// the map the pairs denote.
pub proof fn lemma_fold_over_base<T>(base: Map<Seq<char>, T>, s: Seq<(Seq<char>, T)>, i: int)
    requires
        0 <= i < s.len(),
    ensures
        base.union_prefer_right(fold_entries(s.take(i))).insert(s[i].0, s[i].1)
            == base.union_prefer_right(fold_entries(s.take(i + 1))),
{
    assert(s.take(i + 1).drop_last() =~= s.take(i));
    assert(base.union_prefer_right(fold_entries(s.take(i))).insert(s[i].0, s[i].1)
        =~= base.union_prefer_right(fold_entries(s.take(i + 1))));
}

/// The texts of some strings.
pub open spec fn texts(v: Seq<String>) -> Seq<Seq<char>> {
    v.map_values(|s: String| s@)
}

/// The keys of the pairs whose value is `value`, in order.
pub open spec fn keys_with_value(s: Seq<(Seq<char>, Seq<char>)>, value: Seq<char>) -> Seq<Seq<char>>
    decreases s.len(),
{
    if s.len() == 0 {
        Seq::empty()
    } else if s.last().1 == value {
        keys_with_value(s.drop_last(), value).push(s.last().0)
    } else {
        keys_with_value(s.drop_last(), value)
    }
}

/// How many pairs have value `value`.
pub open spec fn value_count(s: Seq<(Seq<char>, Seq<char>)>, value: Seq<char>) -> nat
    decreases s.len(),
{
    if s.len() == 0 {
        0
    } else {
        value_count(s.drop_last(), value) + if s.last().1 == value {
            1nat
        } else {
            0nat
        }
    }
}

/// `a` comes before `b` in the order `str` compares in: by code point,
/// character by character, a proper prefix first.
pub open spec fn text_lt(a: Seq<char>, b: Seq<char>) -> bool
    decreases a.len(),
{
    if a.len() == 0 {
        b.len() > 0
    } else if b.len() == 0 {
        false
    } else if a[0] != b[0] {
        a[0] < b[0]
    } else {
        text_lt(a.drop_first(), b.drop_first())
    }
}

proof fn lemma_text_lt_total(a: Seq<char>, b: Seq<char>)
    requires
        a != b,
        !text_lt(a, b),
    ensures
        text_lt(b, a),
    decreases a.len(),
{
    if a.len() > 0 && b.len() > 0 && a[0] == b[0] {
        assert(a.drop_first() != b.drop_first()) by {
            if a.drop_first() == b.drop_first() {
                assert(a =~= seq![a[0]] + a.drop_first());
                assert(b =~= seq![b[0]] + b.drop_first());
            }
        }
        lemma_text_lt_total(a.drop_first(), b.drop_first());
    }
    if a.len() == 0 && b.len() == 0 {
        assert(a =~= b);
    }
}

/// Whether `a` comes before `b`.
pub fn text_less(a: &str, b: &str) -> (r: bool)
    ensures
        r == text_lt(a@, b@),
{
    let la = a.unicode_len();
    let lb = b.unicode_len();
    let mut i: usize = 0;
    assert(a@.skip(0) =~= a@ && b@.skip(0) =~= b@);
    while i < la && i < lb && a.get_char(i) == b.get_char(i)
        invariant
            la == a@.len(),
            lb == b@.len(),
            i <= la,
            i <= lb,
            text_lt(a@, b@) == text_lt(a@.skip(i as int), b@.skip(i as int)),
        decreases la - i,
    {
        assert(a@.skip(i as int).drop_first() =~= a@.skip(i + 1));
        assert(b@.skip(i as int).drop_first() =~= b@.skip(i + 1));
        assert(a@.skip(i as int)[0] == a@[i as int]);
        assert(b@.skip(i as int)[0] == b@[i as int]);
        i = i + 1;
    }
    if i == la {
        i < lb
    } else if i == lb {
        false
    } else {
        assert(a@.skip(i as int)[0] == a@[i as int]);
        assert(b@.skip(i as int)[0] == b@[i as int]);
        a.get_char(i) < b.get_char(i)
    }
}

proof fn lemma_keys_with_value<T>(s: Seq<(Seq<char>, Seq<char>)>, value: Seq<char>)
    requires
        keys_distinct(s),
    ensures
        forall|k: Seq<char>|
            #[trigger] keys_with_value(s, value).contains(k) <==> (fold_entries(s).contains_key(k)
                && fold_entries(s)[k] == value),
    decreases s.len(),
{
    if s.len() > 0 {
        let p = s.drop_last();
        assert(keys_distinct(p)) by {
            assert forall|i: int, j: int|
                0 <= i < p.len() && 0 <= j < p.len() && i != j implies p[i].0 != p[j].0 by {
                assert(p[i] == s[i] && p[j] == s[j]);
            }
        }
        lemma_keys_with_value::<T>(p, value);
        lemma_fold_keys(p);
        let k0 = s.last().0;
        let w = keys_with_value(p, value);
        assert(!fold_entries(p).contains_key(k0)) by {
            if fold_entries(p).contains_key(k0) {
                let i = choose|i: int| 0 <= i < p.len() && p[i].0 == k0;
                assert(p[i] == s[i]);
            }
        }
        assert forall|k: Seq<char>|
            #[trigger] keys_with_value(s, value).contains(k) <==> (fold_entries(s).contains_key(k)
                && fold_entries(s)[k] == value) by {
            if s.last().1 == value {
                if k == k0 {
                    assert(w.push(k0)[w.len() as int] == k0);
                } else {
                    if w.push(k0).contains(k) {
                        let j = choose|j: int| 0 <= j < w.len() + 1 && w.push(k0)[j] == k;
                        assert(w[j] == k);
                    }
                    if w.contains(k) {
                        let j = choose|j: int| 0 <= j < w.len() && w[j] == k;
                        assert(w.push(k0)[j] == k);
                    }
                }
            }
        }
    }
}

impl StrMap<String> {
    /// Inserts every pair of `other`, in its order, so `other` wins on shared keys.
    pub fn extend_from(&mut self, other: &StrMap<String>)
        ensures
            final(self)@ == old(self)@.union_prefer_right(other@),
    {
        let ghost base = self@;
        let n = other.len();
        let mut i: usize = 0;
        assert(other.entries().take(0) =~= Seq::<(Seq<char>, Seq<char>)>::empty());
        assert(base.union_prefer_right(Map::empty()) =~= base);
        while i < n
            invariant
                n == other.entries().len(),
                i <= n,
                self@ == base.union_prefer_right(fold_entries(other.entries().take(i as int))),
            decreases n - i,
        {
            let k = other.key_at(i).clone();
            let v = other.value_at(i).clone();
            self.insert(k, v);
            proof {
                lemma_fold_over_base(base, other.entries(), i as int);
            }
            i = i + 1;
        }
        assert(other.entries().take(n as int) =~= other.entries());
    }

    /// The keys mapped to `value`, in insertion order.
    pub fn keys_for_value(&self, value: &str) -> (keys: Vec<String>)
        ensures
            texts(keys@) == keys_with_value(self.entries(), value@),
            forall|k: Seq<char>|
                #[trigger] texts(keys@).contains(k) <==> (self@.contains_key(k)
                    && self@[k] == value@),
    {
        proof {
            use_type_invariant(self);
            lemma_keys_with_value::<Seq<char>>(self.entries(), value@);
        }
        let ghost e = self.entries();
        let mut keys: Vec<String> = Vec::new();
        let n = self.len();
        let mut i: usize = 0;
        assert(e.take(0) =~= Seq::<(Seq<char>, Seq<char>)>::empty());
        while i < n
            invariant
                n == e.len(),
                e == self.entries(),
                i <= n,
                keys@.map_values(|k: String| k@) == keys_with_value(e.take(i as int), value@),
            decreases n - i,
        {
            assert(e.take(i + 1).drop_last() =~= e.take(i as int));
            assert(e.take(i + 1).last() == e[i as int]);
            if str_eq(self.value_at(i).as_str(), value) {
                let ghost before = keys@;
                keys.push(self.key_at(i).clone());
                assert(keys@.map_values(|k: String| k@) =~= before.map_values(|k: String| k@).push(
                    e[i as int].0,
                ));
            }
            i = i + 1;
        }
        assert(e.take(n as int) =~= e);
        keys
    }

    /// Each distinct value with the number of keys mapped to it, ordered by
    /// value as `str` compares.
    #[verifier::rlimit(80)]
    #[verifier::spinoff_prover]
    pub fn value_counts(&self) -> (counts: Vec<(String, usize)>)
        ensures
            forall|j: int|
                0 <= j < counts@.len() ==> (#[trigger] counts@[j]).1 == value_count(
                    self.entries(),
                    counts@[j].0@,
                ) && counts@[j].1 > 0,
            forall|j: int| 0 <= j < counts@.len() - 1 ==> text_lt(#[trigger] counts@[j].0@, counts@[j + 1].0@),
            forall|a: int, b: int|
                0 <= a < counts@.len() && 0 <= b < counts@.len() && a != b ==> #[trigger] counts@[a].0@
                    != #[trigger] counts@[b].0@,
            forall|c: Seq<char>|
                #[trigger] value_count(self.entries(), c) > 0 ==> exists|j: int|
                    0 <= j < counts@.len() && counts@[j].0@ == c,
    {
        let ghost e = self.entries();
        let mut counts: Vec<(String, usize)> = Vec::new();
        let n = self.len();
        let mut i: usize = 0;
        while i < n
            invariant
                n == e.len(),
                e == self.entries(),
                i <= n,
                counts@.len() <= i,
                forall|j: int|
                    0 <= j < counts@.len() ==> (#[trigger] counts@[j]).1 == value_count(
                        e.take(i as int),
                        counts@[j].0@,
                    ) && counts@[j].1 > 0,
                forall|j: int| 0 <= j < counts@.len() - 1 ==> text_lt(#[trigger] counts@[j].0@, counts@[j + 1].0@),
                forall|a: int, b: int|
                    0 <= a < counts@.len() && 0 <= b < counts@.len() && a != b ==> #[trigger] counts@[a].0@
                        != #[trigger] counts@[b].0@,
                forall|c: Seq<char>|
                    #[trigger] value_count(e.take(i as int), c) > 0 ==> exists|j: int|
                        0 <= j < counts@.len() && counts@[j].0@ == c,
                forall|c: Seq<char>| #[trigger] value_count(e.take(i as int), c) <= i,
            decreases n - i,
        {
            let v = self.value_at(i);
            let ghost prev = e.take(i as int);
            let ghost next = e.take(i + 1);
            assert(next.drop_last() =~= prev);
            assert(next.last() == e[i as int]);
            assert forall|c: Seq<char>| #[trigger] value_count(next, c) == value_count(prev, c) + if c
                == v@ {
                1nat
            } else {
                0nat
            } by {}
            let m = counts.len();
            let mut j: usize = 0;
            while j < m && !str_eq(counts[j].0.as_str(), v.as_str())
                invariant
                    m == counts@.len(),
                    j <= m,
                    forall|t: int| 0 <= t < j ==> counts@[t].0@ != v@,
                decreases m - j,
            {
                j = j + 1;
            }
            let ghost old_counts = counts@;
            if j < m {
                let name = counts[j].0.clone();
                let c = counts[j].1;
                assert(c == value_count(prev, v@));
                counts.set(j, (name, c + 1));
                assert forall|a: int, b: int|
                    0 <= a < counts@.len() && 0 <= b < counts@.len() && a != b implies #[trigger] counts@[a].0@
                        != #[trigger] counts@[b].0@ by {
                    assert(counts@[a].0@ == old_counts[a].0@);
                    assert(counts@[b].0@ == old_counts[b].0@);
                }
                assert forall|t: int| 0 <= t < counts@.len() - 1 implies text_lt(
                    #[trigger] counts@[t].0@,
                    counts@[t + 1].0@,
                ) by {
                    assert(counts@[t].0@ == old_counts[t].0@);
                    assert(counts@[t + 1].0@ == old_counts[t + 1].0@);
                }
                assert forall|c: Seq<char>| #[trigger] value_count(next, c) > 0 implies exists|t: int|
                    0 <= t < counts@.len() && counts@[t].0@ == c by {
                    if c != v@ {
                        assert(value_count(prev, c) > 0);
                        let t = choose|t: int| 0 <= t < old_counts.len() && old_counts[t].0@ == c;
                        assert(counts@[t].0@ == c);
                    } else {
                        assert(counts@[j as int].0@ == c);
                    }
                }
            } else {
                let mut p: usize = 0;
                while p < m && text_less(counts[p].0.as_str(), v.as_str())
                    invariant
                        m == counts@.len(),
                        p <= m,
                        forall|t: int| 0 <= t < p ==> text_lt(#[trigger] counts@[t].0@, v@),
                    decreases m - p,
                {
                    p = p + 1;
                }
                proof {
                    if p < m {
                        assert(counts@[p as int].0@ != v@);
                        lemma_text_lt_total(counts@[p as int].0@, v@);
                    }
                }
                counts.insert(p, (v.clone(), 1));
                assert forall|a: int, b: int|
                    0 <= a < counts@.len() && 0 <= b < counts@.len() && a != b implies #[trigger] counts@[a].0@
                        != #[trigger] counts@[b].0@ by {
                    if a != p && b != p {
                        let oa = if a < p { a } else { a - 1 };
                        let ob = if b < p { b } else { b - 1 };
                        assert(counts@[a] == old_counts[oa]);
                        assert(counts@[b] == old_counts[ob]);
                    } else if a == p {
                        let ob = if b < p { b } else { b - 1 };
                        assert(counts@[b] == old_counts[ob]);
                    } else {
                        let oa = if a < p { a } else { a - 1 };
                        assert(counts@[a] == old_counts[oa]);
                    }
                }
                assert forall|t: int| 0 <= t < counts@.len() - 1 implies text_lt(
                    #[trigger] counts@[t].0@,
                    counts@[t + 1].0@,
                ) by {
                    if t + 1 < p {
                        assert(counts@[t] == old_counts[t] && counts@[t + 1] == old_counts[t + 1]);
                    } else if t + 1 == p {
                        assert(counts@[t] == old_counts[t]);
                    } else if t == p {
                        assert(counts@[t + 1] == old_counts[t]);
                    } else {
                        assert(counts@[t] == old_counts[t - 1] && counts@[t + 1] == old_counts[t]);
                    }
                }
                assert forall|c: Seq<char>| #[trigger] value_count(next, c) > 0 implies exists|t: int|
                    0 <= t < counts@.len() && counts@[t].0@ == c by {
                    if c != v@ {
                        assert(value_count(prev, c) > 0);
                        let t = choose|t: int| 0 <= t < old_counts.len() && old_counts[t].0@ == c;
                        if t < p {
                            assert(counts@[t] == old_counts[t]);
                        } else {
                            assert(counts@[t + 1] == old_counts[t]);
                        }
                    } else {
                        assert(counts@[p as int].0@ == c);
                    }
                }
                assert(value_count(prev, v@) == 0) by {
                    if value_count(prev, v@) > 0 {
                        let t = choose|t: int| 0 <= t < old_counts.len() && old_counts[t].0@ == v@;
                    }
                }
                assert forall|t: int| 0 <= t < counts@.len() implies (#[trigger] counts@[t]).1 == value_count(
                    next,
                    counts@[t].0@,
                ) && counts@[t].1 > 0 by {
                    if t < p {
                        assert(counts@[t] == old_counts[t]);
                    } else if t > p {
                        assert(counts@[t] == old_counts[t - 1]);
                    }
                }
            }
            i = i + 1;
        }
        assert(e.take(n as int) =~= e);
        counts
    }

    /// A copy of this map.
    pub fn duplicate(&self) -> (m: StrMap<String>)
        ensures
            m@ == self@,
    {
        let mut m = StrMap::new();
        m.extend_from(self);
        assert(Map::<Seq<char>, Seq<char>>::empty().union_prefer_right(self@) =~= self@);
        m
    }
}

impl<V: View> View for StrMap<V> {
    type V = Map<Seq<char>, V::V>;

    open spec fn view(&self) -> Map<Seq<char>, V::V> {
        fold_entries(self.entries())
    }
}

} // verus!
