//! A small map keyed by strings: the attribute maps, templates and tables
//! of the services are all keyed by text.
//!
//! Entries are kept in a vector whose keys are pairwise distinct; the map is
//! viewed as a `Map` from the keys' characters to the values.
use vstd::prelude::*;

use crate::text::str_eq;

verus! {

/// Keys of `s` are pairwise distinct.
pub open spec fn keys_distinct<V>(s: Seq<(String, V)>) -> bool {
    forall|i: int, j: int| 0 <= i < s.len() && 0 <= j < s.len() && i != j ==> s[i].0@ != s[j].0@
}

/// The map a sequence of entries denotes; a later entry wins over an
/// earlier one with the same key.
pub open spec fn entries_map<V>(s: Seq<(String, V)>) -> Map<Seq<char>, V>
    decreases s.len(),
{
    if s.len() == 0 {
        Map::empty()
    } else {
        entries_map(s.drop_last()).insert(s.last().0@, s.last().1)
    }
}

/// Every key of the denoted map is the key of some entry.
proof fn lemma_dom_has_entry<V>(s: Seq<(String, V)>, k: Seq<char>)
    requires
        entries_map(s).contains_key(k),
    ensures
        exists|i: int| 0 <= i < s.len() && (#[trigger] s[i]).0@ == k,
    decreases s.len(),
{
    if s.len() > 0 && s.last().0@ != k {
        lemma_dom_has_entry(s.drop_last(), k);
        let i = choose|i: int| 0 <= i < s.drop_last().len() && (#[trigger] s.drop_last()[i]).0@ == k;
        assert(s[i] == s.drop_last()[i]);
    } else if s.len() > 0 {
        assert(s[s.len() - 1].0@ == k);
    }
}

/// Every entry is found in the denoted map, with its own value.
proof fn lemma_entry_in_map<V>(s: Seq<(String, V)>, i: int)
    requires
        keys_distinct(s),
        0 <= i < s.len(),
    ensures
        entries_map(s).contains_key(s[i].0@),
        entries_map(s)[s[i].0@] == s[i].1,
    decreases s.len(),
{
    if i < s.len() - 1 {
        let t = s.drop_last();
        assert(keys_distinct(t)) by {
            assert forall|a: int, b: int| 0 <= a < t.len() && 0 <= b < t.len() && a != b implies t[a].0@ != t[b].0@ by {
                assert(t[a] == s[a] && t[b] == s[b]);
            }
        }
        lemma_entry_in_map(t, i);
        assert(t[i] == s[i]);
        assert(s[s.len() - 1].0@ != s[i].0@);
    }
}

/// A key no entry carries is absent from the denoted map.
proof fn lemma_absent<V>(s: Seq<(String, V)>, k: Seq<char>)
    requires
        forall|i: int| 0 <= i < s.len() ==> (#[trigger] s[i]).0@ != k,
    ensures
        !entries_map(s).contains_key(k),
{
    if entries_map(s).contains_key(k) {
        lemma_dom_has_entry(s, k);
    }
}

/// Filtering a sequence extended by one element.
pub proof fn lemma_filter_push<A>(s: Seq<A>, pred: spec_fn(A) -> bool, x: A)
    ensures
        pred(x) ==> s.push(x).filter(pred) == s.filter(pred).push(x),
        !pred(x) ==> s.push(x).filter(pred) == s.filter(pred),
{
    reveal(Seq::filter);
    assert(s.push(x).drop_last() =~= s);
}

/// Position of the first element of `s` satisfying `p`, if any.
pub open spec fn first_index<A>(s: Seq<A>, p: spec_fn(A) -> bool) -> Option<int> {
    if exists|i: int| 0 <= i < s.len() && p(#[trigger] s[i]) {
        Some(choose|i: int| 0 <= i < s.len() && p(#[trigger] s[i]) && forall|j: int| 0 <= j < i ==> !p(#[trigger] s[j]))
    } else {
        None
    }
}

/// `i` is the first position satisfying `p`.
pub proof fn lemma_first_index<A>(s: Seq<A>, p: spec_fn(A) -> bool, i: int)
    requires
        0 <= i < s.len(),
        p(s[i]),
        forall|j: int| 0 <= j < i ==> !p(#[trigger] s[j]),
    ensures
        first_index(s, p) == Some(i),
{
    let c = choose|c: int| 0 <= c < s.len() && p(#[trigger] s[c]) && forall|j: int| 0 <= j < c ==> !p(#[trigger] s[j]);
    if c < i {
        assert(!p(s[c]));
    } else if c > i {
        assert(!p(s[i]));
    }
}

/// No position satisfies `p`.
pub proof fn lemma_first_index_none<A>(s: Seq<A>, p: spec_fn(A) -> bool)
    requires
        forall|j: int| 0 <= j < s.len() ==> !p(#[trigger] s[j]),
    ensures
        first_index(s, p) is None,
{
}

/// When some element satisfies `p`, a first one does, no later than any.
pub proof fn lemma_first_index_some<A>(s: Seq<A>, p: spec_fn(A) -> bool, k: int)
    requires
        0 <= k < s.len(),
        p(s[k]),
    ensures
        first_index(s, p) matches Some(i) && 0 <= i <= k && p(s[i]),
    decreases k,
{
    if exists|j: int| 0 <= j < k && p(#[trigger] s[j]) {
        let j = choose|j: int| 0 <= j < k && p(#[trigger] s[j]);
        lemma_first_index_some(s, p, j);
    } else {
        lemma_first_index(s, p, k);
    }
}

/// A finite map from strings to values.
#[derive(Debug)]
pub struct StrMap<V> {
    entries: Vec<(String, V)>,
}

impl<V> View for StrMap<V> {
    type V = Map<Seq<char>, V>;

    closed spec fn view(&self) -> Map<Seq<char>, V> {
        entries_map(self.entries@)
    }
}

impl<V> StrMap<V> {
    #[verifier::type_invariant]
    closed spec fn wf(&self) -> bool {
        keys_distinct(self.entries@)
    }

    /// Number of entries.
    pub closed spec fn size(&self) -> nat {
        self.entries@.len()
    }

    /// Key of the `i`-th entry, in storage order.
    pub closed spec fn key_at(&self, i: int) -> Seq<char> {
        self.entries@[i].0@
    }

    /// An empty map.
    pub fn new() -> (m: Self)
        ensures
            m@ == Map::<Seq<char>, V>::empty(),
            m.size() == 0,
    {
        StrMap { entries: Vec::new() }
    }

    /// Number of entries. Every key of the map is the key of some entry
    /// below `n`, every entry's key is a key of the map, and entries' keys
    /// are pairwise distinct.
    pub fn len(&self) -> (n: usize)
        ensures
            n == self.size(),
            forall|k: Seq<char>| #[trigger] self@.contains_key(k) ==> exists|i: int|
                0 <= i < self.size() && #[trigger] self.key_at(i) == k,
            forall|i: int| 0 <= i < self.size() ==> #[trigger] self@.contains_key(self.key_at(i)),
            forall|i: int, j: int|
                0 <= i < self.size() && 0 <= j < self.size() && i != j ==> self.key_at(i) != self.key_at(j),
    {
        proof {
            use_type_invariant(self);
            assert forall|k: Seq<char>| #[trigger] self@.contains_key(k) implies exists|i: int|
                0 <= i < self.size() && #[trigger] self.key_at(i) == k by {
                lemma_dom_has_entry(self.entries@, k);
                let i = choose|i: int| 0 <= i < self.entries@.len() && (#[trigger] self.entries@[i]).0@ == k;
                assert(self.key_at(i) == k);
            }
            assert forall|i: int| 0 <= i < self.size() implies #[trigger] self@.contains_key(self.key_at(i)) by {
                lemma_entry_in_map(self.entries@, i);
            }
        }
        self.entries.len()
    }

    /// The `i`-th entry, in storage order.
    pub fn entry(&self, i: usize) -> (e: (&String, &V))
        requires
            i < self.size(),
        ensures
            e.0@ == self.key_at(i as int),
            self@.contains_key(e.0@),
            self@[e.0@] == *e.1,
    {
        proof {
            use_type_invariant(self);
            lemma_entry_in_map(self.entries@, i as int);
        }
        let pair = &self.entries[i];
        (&pair.0, &pair.1)
    }

    /// Storage position of `key`, if present.
    fn position(&self, key: &str) -> (pos: Option<usize>)
        ensures
            match pos {
                Some(i) => i < self.entries@.len() && self.entries@[i as int].0@ == key@,
                None => forall|i: int| 0 <= i < self.entries@.len() ==> (#[trigger] self.entries@[i]).0@ != key@,
            },
    {
        let mut i: usize = 0;
        while i < self.entries.len()
            invariant
                i <= self.entries@.len(),
                forall|j: int| 0 <= j < i ==> (#[trigger] self.entries@[j]).0@ != key@,
            decreases self.entries@.len() - i,
        {
            if str_eq(self.entries[i].0.as_str(), key) {
                return Some(i);
            }
            i = i + 1;
        }
        None
    }

    /// Whether `key` is present.
    pub fn contains_key(&self, key: &str) -> (present: bool)
        ensures
            present == self@.contains_key(key@),
    {
        proof {
            use_type_invariant(self);
        }
        match self.position(key) {
            Some(i) => {
                proof {
                    lemma_entry_in_map(self.entries@, i as int);
                }
                true
            },
            None => {
                proof {
                    lemma_absent(self.entries@, key@);
                }
                false
            },
        }
    }

    /// The value stored under `key`, if any.
    pub fn get(&self, key: &str) -> (value: Option<&V>)
        ensures
            value is Some == self@.contains_key(key@),
            value matches Some(v) ==> *v == self@[key@],
    {
        proof {
            use_type_invariant(self);
        }
        match self.position(key) {
            Some(i) => {
                proof {
                    lemma_entry_in_map(self.entries@, i as int);
                }
                Some(&self.entries[i].1)
            },
            None => {
                proof {
                    lemma_absent(self.entries@, key@);
                }
                None
            },
        }
    }

    /// Removes `key`, returning the value it had.
    pub fn remove(&mut self, key: &str) -> (old_value: Option<V>)
        ensures
            final(self)@ == old(self)@.remove(key@),
            old_value is Some == old(self)@.contains_key(key@),
            old_value matches Some(v) ==> v == old(self)@[key@],
    {
        proof {
            use_type_invariant(&*self);
        }
        let ghost s = self.entries@;
        match self.position(key) {
            Some(i) => {
                proof {
                    lemma_entry_in_map(s, i as int);
                }
                let mut entries = Vec::new();
                std::mem::swap(&mut entries, &mut self.entries);
                let pair = entries.remove(i);
                proof {
                    let t = entries@;
                    assert(t == s.remove(i as int));
                    assert(keys_distinct(t)) by {
                        assert forall|a: int, b: int| 0 <= a < t.len() && 0 <= b < t.len() && a != b implies t[a].0@ != t[b].0@ by {
                            let a2 = if a < i { a } else { a + 1 };
                            let b2 = if b < i { b } else { b + 1 };
                            assert(t[a] == s[a2] && t[b] == s[b2]);
                        }
                    }
                    assert(entries_map(t) =~= entries_map(s).remove(key@)) by {
                        assert forall|k: Seq<char>| #[trigger] entries_map(t).contains_key(k) <==> entries_map(s).remove(key@).contains_key(k) by {
                            if entries_map(t).contains_key(k) {
                                lemma_dom_has_entry(t, k);
                                let a = choose|a: int| 0 <= a < t.len() && (#[trigger] t[a]).0@ == k;
                                let a2 = if a < i { a } else { a + 1 };
                                assert(t[a] == s[a2]);
                                lemma_entry_in_map(s, a2);
                            }
                            if entries_map(s).remove(key@).contains_key(k) {
                                lemma_dom_has_entry(s, k);
                                let b = choose|b: int| 0 <= b < s.len() && (#[trigger] s[b]).0@ == k;
                                let b2 = if b < i { b } else { b - 1 };
                                assert(t[b2] == s[b]);
                                lemma_entry_in_map(t, b2);
                            }
                        }
                        assert forall|k: Seq<char>| #[trigger] entries_map(t).contains_key(k) implies entries_map(t)[k] == entries_map(s).remove(key@)[k] by {
                            lemma_dom_has_entry(t, k);
                            let a = choose|a: int| 0 <= a < t.len() && (#[trigger] t[a]).0@ == k;
                            let a2 = if a < i { a } else { a + 1 };
                            assert(t[a] == s[a2]);
                            lemma_entry_in_map(s, a2);
                            lemma_entry_in_map(t, a);
                        }
                    }
                }
                self.entries = entries;
                Some(pair.1)
            },
            None => {
                proof {
                    lemma_absent(s, key@);
                    assert(entries_map(s).remove(key@) =~= entries_map(s));
                }
                None
            },
        }
    }

    /// Stores `value` under `key`, replacing any value it had.
    pub fn insert(&mut self, key: String, value: V)
        ensures
            final(self)@ == old(self)@.insert(key@, value),
    {
        let _ = self.remove(key.as_str());
        proof {
            use_type_invariant(&*self);
        }
        let ghost s = self.entries@;
        proof {
            assert(!entries_map(s).contains_key(key@));
            assert forall|i: int| 0 <= i < s.len() implies (#[trigger] s[i]).0@ != key@ by {
                lemma_entry_in_map(s, i);
            }
        }
        let mut entries = Vec::new();
        std::mem::swap(&mut entries, &mut self.entries);
        entries.push((key, value));
        proof {
            let t = entries@;
            assert(t.drop_last() =~= s);
            assert(keys_distinct(t)) by {
                assert forall|a: int, b: int| 0 <= a < t.len() && 0 <= b < t.len() && a != b implies t[a].0@ != t[b].0@ by {
                    if a < s.len() {
                        assert(t[a] == s[a]);
                    }
                    if b < s.len() {
                        assert(t[b] == s[b]);
                    }
                }
            }
        }
        self.entries = entries;
    }
}


impl Clone for StrMap<String> {
    /// A copy with the same entries, in the same order.
    fn clone(&self) -> (c: Self)
        ensures
            c@ == self@,
            c.size() == self.size(),
            forall|i: int| 0 <= i < self.size() ==> #[trigger] c.key_at(i) == self.key_at(i),
    {
        proof {
            use_type_invariant(self);
        }
        let mut entries: Vec<(String, String)> = Vec::new();
        let mut i: usize = 0;
        while i < self.entries.len()
            invariant
                i <= self.entries@.len(),
                entries@.len() == i,
                forall|j: int| 0 <= j < i ==> #[trigger] entries@[j] == self.entries@[j],
            decreases self.entries@.len() - i,
        {
            let pair = &self.entries[i];
            entries.push((pair.0.clone(), pair.1.clone()));
            i = i + 1;
        }
        proof {
            assert(entries@ =~= self.entries@);
        }
        StrMap { entries }
    }
}

} // verus!
