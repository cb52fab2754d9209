//! A map from string identifiers to values, kept in insertion order.

use vstd::prelude::*;
use crate::text::str_eq;

verus! {

/// The map that a list of `(key, value)` entries denotes; a later entry
/// for a key overrides an earlier one.
pub open spec fn entries_map<V>(s: Seq<(String, V)>) -> Map<Seq<char>, V>
    decreases s.len(),
{
    if s.len() == 0 {
        Map::empty()
    } else {
        entries_map(s.drop_last()).insert(s.last().0@, s.last().1)
    }
}

/// No two entries share a key.
pub open spec fn distinct_keys<V>(s: Seq<(String, V)>) -> bool {
    forall|i: int, j: int| 0 <= i < s.len() && 0 <= j < s.len() && i != j ==> s[i].0@ != s[j].0@
}

/// The position of the entry for `k`, if any.
pub open spec fn key_index<V>(s: Seq<(String, V)>, k: Seq<char>) -> int {
    choose|i: int| 0 <= i < s.len() && s[i].0@ == k
}

pub proof fn lemma_entries_map_dom<V>(s: Seq<(String, V)>, k: Seq<char>)
    ensures
        entries_map(s).dom().contains(k) <==> exists|i: int| 0 <= i < s.len() && s[i].0@ == k,
    decreases s.len(),
{
    if s.len() > 0 {
        lemma_entries_map_dom(s.drop_last(), k);
        if exists|i: int| 0 <= i < s.len() && s[i].0@ == k {
            let i = choose|i: int| 0 <= i < s.len() && s[i].0@ == k;
            if i < s.len() - 1 {
                assert(s.drop_last()[i] == s[i]);
            }
        }
        if exists|i: int| 0 <= i < s.drop_last().len() && s.drop_last()[i].0@ == k {
            let i = choose|i: int| 0 <= i < s.drop_last().len() && s.drop_last()[i].0@ == k;
            assert(s[i] == s.drop_last()[i]);
        }
    }
}

pub proof fn lemma_entries_map_value<V>(s: Seq<(String, V)>, i: int)
    requires
        distinct_keys(s),
        0 <= i < s.len(),
    ensures
        entries_map(s).dom().contains(s[i].0@),
        entries_map(s)[s[i].0@] == s[i].1,
    decreases s.len(),
{
    lemma_entries_map_dom(s, s[i].0@);
    if i < s.len() - 1 {
        let t = s.drop_last();
        assert(distinct_keys(t)) by {
            assert forall|a: int, b: int|
                0 <= a < t.len() && 0 <= b < t.len() && a != b implies t[a].0@ != t[b].0@ by {
                assert(t[a] == s[a]);
                assert(t[b] == s[b]);
            }
        }
        assert(t[i] == s[i]);
        lemma_entries_map_value(t, i);
        assert(s[i].0@ != s[s.len() - 1].0@);
    }
}

pub proof fn lemma_entries_map_finite<V>(s: Seq<(String, V)>)
    ensures
        entries_map(s).dom().finite(),
    decreases s.len(),
{
    if s.len() > 0 {
        lemma_entries_map_finite(s.drop_last());
    }
}

pub proof fn lemma_entries_map_len<V>(s: Seq<(String, V)>)
    requires
        distinct_keys(s),
    ensures
        entries_map(s).dom().len() == s.len(),
    decreases s.len(),
{
    if s.len() > 0 {
        let t = s.drop_last();
        assert(distinct_keys(t)) by {
            assert forall|a: int, b: int|
                0 <= a < t.len() && 0 <= b < t.len() && a != b implies t[a].0@ != t[b].0@ by {
                assert(t[a] == s[a]);
                assert(t[b] == s[b]);
            }
        }
        lemma_entries_map_len(t);
        lemma_entries_map_finite(t);
        lemma_entries_map_dom(t, s.last().0@);
        if entries_map(t).dom().contains(s.last().0@) {
            let j = choose|j: int| 0 <= j < t.len() && t[j].0@ == s.last().0@;
            assert(s[j] == t[j]);
        }
    }
}

pub proof fn lemma_update_entry<V>(s0: Seq<(String, V)>, s1: Seq<(String, V)>, i: int)
    requires
        distinct_keys(s0),
        0 <= i < s0.len(),
        s1.len() == s0.len(),
        forall|j: int| 0 <= j < s0.len() && j != i ==> s1[j] == s0[j],
        s1[i].0@ == s0[i].0@,
    ensures
        distinct_keys(s1),
        entries_map(s1) == entries_map(s0).insert(s1[i].0@, s1[i].1),
{
    let kv = s1[i].0@;
    let v = s1[i].1;
    assert(distinct_keys(s1)) by {
        assert forall|a: int, b: int|
            0 <= a < s1.len() && 0 <= b < s1.len() && a != b implies s1[a].0@ != s1[b].0@ by {
            if a != i && b != i {
                assert(s1[a] == s0[a] && s1[b] == s0[b]);
            } else if a == i {
                assert(s1[b] == s0[b]);
            } else {
                assert(s1[a] == s0[a]);
            }
        }
    }
    assert(entries_map(s1) =~= entries_map(s0).insert(kv, v)) by {
        assert forall|key: Seq<char>|
            #![auto]
            entries_map(s1).dom().contains(key) <==> entries_map(s0).insert(kv, v).dom().contains(
                key,
            ) by {
            lemma_entries_map_dom(s1, key);
            lemma_entries_map_dom(s0, key);
            if key == kv {
                assert(s1[i].0@ == kv);
                assert(s0[i].0@ == kv);
            }
            if exists|j: int| 0 <= j < s0.len() && s0[j].0@ == key {
                let j = choose|j: int| 0 <= j < s0.len() && s0[j].0@ == key;
                if j != i {
                    assert(s1[j] == s0[j]);
                }
            }
            if exists|j: int| 0 <= j < s1.len() && s1[j].0@ == key {
                let j = choose|j: int| 0 <= j < s1.len() && s1[j].0@ == key;
                if j != i {
                    assert(s1[j] == s0[j]);
                }
            }
        }
        assert forall|key: Seq<char>|
            #![auto]
            entries_map(s1).dom().contains(key) implies entries_map(s1)[key] == entries_map(
                s0,
            ).insert(kv, v)[key] by {
            lemma_entries_map_dom(s1, key);
            let j = choose|j: int| 0 <= j < s1.len() && s1[j].0@ == key;
            lemma_entries_map_value(s1, j);
            if j != i {
                assert(s1[j] == s0[j]);
                lemma_entries_map_value(s0, j);
            }
        }
    }
}

/// Entries keyed by distinct strings, in the order they were first added.
pub struct IdMap<V> {
    entries: Vec<(String, V)>,
}

impl<V> IdMap<V> {
    /// The entries, in order.
    pub closed spec fn entries(&self) -> Seq<(String, V)> {
        self.entries@
    }

    /// The keys, in order.
    pub open spec fn key_seq(&self) -> Seq<Seq<char>> {
        self.entries().map_values(|e: (String, V)| e.0@)
    }

    /// The map the entries denote.
    pub open spec fn view(&self) -> Map<Seq<char>, V> {
        entries_map(self.entries())
    }

    /// Keys are distinct.
    pub open spec fn wf(&self) -> bool {
        distinct_keys(self.entries())
    }

    /// An empty map.
    pub fn new() -> (m: Self)
        ensures
            m.wf(),
            m.entries() == Seq::<(String, V)>::empty(),
            m@ == Map::<Seq<char>, V>::empty(),
    {
        IdMap { entries: Vec::new() }
    }

    /// The number of entries.
    pub fn len(&self) -> (n: usize)
        requires
            self.wf(),
        ensures
            n == self@.dom().len(),
            n == self.entries().len(),
    {
        proof {
            lemma_entries_map_len(self.entries@);
        }
        self.entries.len()
    }

    /// Whether the map holds no entry.
    pub fn is_empty(&self) -> (b: bool)
        ensures
            b == (self.entries().len() == 0),
            b == self@.dom().is_empty(),
    {
        proof {
            if self.entries@.len() > 0 {
                lemma_entries_map_dom(self.entries@, self.entries@[0].0@);
                assert(self@.dom().contains(self.entries@[0].0@));
            } else {
                assert(self@ =~= Map::<Seq<char>, V>::empty());
            }
        }
        self.entries.len() == 0
    }

    /// The position of the entry for `k`, if there is one.
    pub fn find(&self, k: &str) -> (r: Option<usize>)
        requires
            self.wf(),
        ensures
            match r {
                Some(i) => i < self.entries().len() && self.entries()[i as int].0@ == k@,
                None => !self@.dom().contains(k@),
            },
            r is Some <==> self@.dom().contains(k@),
    {
        let mut i: usize = 0;
        while i < self.entries.len()
            invariant
                i <= self.entries@.len(),
                forall|j: int| 0 <= j < i ==> self.entries@[j].0@ != k@,
            decreases self.entries@.len() - i,
        {
            if str_eq(self.entries[i].0.as_str(), k) {
                proof {
                    lemma_entries_map_dom(self.entries@, k@);
                }
                return Some(i);
            }
            i = i + 1;
        }
        proof {
            lemma_entries_map_dom(self.entries@, k@);
        }
        None
    }

    /// Whether there is an entry for `k`.
    pub fn contains_key(&self, k: &str) -> (b: bool)
        requires
            self.wf(),
        ensures
            b == self@.dom().contains(k@),
    {
        self.find(k).is_some()
    }

    /// The value for `k`, if there is one.
    pub fn get(&self, k: &str) -> (r: Option<&V>)
        requires
            self.wf(),
        ensures
            match r {
                Some(v) => self@.dom().contains(k@) && *v == self@[k@],
                None => !self@.dom().contains(k@),
            },
    {
        match self.find(k) {
            Some(i) => {
                proof {
                    lemma_entries_map_value(self.entries@, i as int);
                }
                Some(&self.entries[i].1)
            },
            None => None,
        }
    }

    /// The value for `k`, to be changed in place.
    pub fn get_mut(&mut self, k: &str) -> (r: Option<&mut V>)
        requires
            old(self).wf(),
        ensures
            match r {
                Some(v) => {
                    &&& old(self)@.dom().contains(k@)
                    &&& *v == old(self)@[k@]
                    &&& final(self).wf()
                    &&& final(self)@ == old(self)@.insert(k@, *final(v))
                    &&& final(self)@.dom() == old(self)@.dom()
                    &&& final(self).key_seq() == old(self).key_seq()
                },
                None => !old(self)@.dom().contains(k@) && *final(self) == *old(self),
            },
    {
        match self.find(k) {
            Some(i) => {
                let ghost s0 = self.entries@;
                proof {
                    lemma_entries_map_value(s0, i as int);
                }
                let e = &mut self.entries[i];
                let r = &mut e.1;
                proof {
                    let ghost s1 = s0.update(i as int, (s0[i as int].0, *final(r)));
                    lemma_update_entry(s0, s1, i as int);
                    assert(entries_map(s1).dom() =~= entries_map(s0).dom());
                    assert(s1.map_values(|e: (String, V)| e.0@) =~= s0.map_values(
                        |e: (String, V)| e.0@,
                    ));
                }
                Some(r)
            },
            None => None,
        }
    }

    /// The key and value at position `i`.
    pub fn entry_at(&self, i: usize) -> (r: (&String, &V))
        requires
            i < self.entries().len(),
        ensures
            *r.0 == self.entries()[i as int].0,
            *r.1 == self.entries()[i as int].1,
    {
        (&self.entries[i].0, &self.entries[i].1)
    }

    /// Binds `k` to `v`: the entry for `k` is replaced in place when there is
    /// one, else a new entry is added last.
    pub fn insert(&mut self, k: String, v: V)
        requires
            old(self).wf(),
        ensures
            final(self).wf(),
            final(self)@ == old(self)@.insert(k@, v),
            old(self)@.dom().contains(k@) ==> final(self).key_seq() == old(self).key_seq(),
            !old(self)@.dom().contains(k@) ==> final(self).key_seq() == old(self).key_seq().push(
                k@,
            ),
    {
        let ghost kv = k@;
        match self.find(k.as_str()) {
            Some(i) => {
                let ghost s0 = self.entries@;
                self.entries.set(i, (k, v));
                proof {
                    lemma_update_entry(s0, self.entries@, i as int);
                }
                assert(self.key_seq() =~= s0.map_values(|e: (String, V)| e.0@));
            },
            None => {
                let ghost s0 = self.entries@;
                self.entries.push((k, v));
                let ghost s1 = self.entries@;
                assert(s1.drop_last() =~= s0);
                assert(distinct_keys(s1)) by {
                    assert forall|a: int, b: int|
                        0 <= a < s1.len() && 0 <= b < s1.len() && a != b implies s1[a].0@
                        != s1[b].0@ by {
                        if a < s0.len() && b < s0.len() {
                            assert(s1[a] == s0[a] && s1[b] == s0[b]);
                        } else if a < s0.len() {
                            assert(s1[a] == s0[a]);
                            lemma_entries_map_dom(s0, kv);
                        } else {
                            assert(s1[b] == s0[b]);
                            lemma_entries_map_dom(s0, kv);
                        }
                    }
                }
                assert(self.key_seq() =~= s0.map_values(|e: (String, V)| e.0@).push(kv));
            },
        }
    }

    /// Removes the entry for `k`, giving back its value; the other entries
    /// keep their order.
    pub fn remove(&mut self, k: &str) -> (r: Option<V>)
        requires
            old(self).wf(),
        ensures
            final(self).wf(),
            final(self)@ == old(self)@.remove(k@),
            match r {
                Some(v) => old(self)@.dom().contains(k@) && v == old(self)@[k@],
                None => !old(self)@.dom().contains(k@),
            },
            old(self)@.dom().contains(k@) ==> exists|i: int|
                0 <= i < old(self).key_seq().len() && old(self).key_seq()[i] == k@
                    && final(self).key_seq() == old(self).key_seq().remove(i),
            !old(self)@.dom().contains(k@) ==> final(self).key_seq() == old(self).key_seq(),
    {
        match self.find(k) {
            Some(i) => {
                let ghost s0 = self.entries@;
                proof {
                    lemma_entries_map_value(s0, i as int);
                }
                let (_, v) = self.entries.remove(i);
                let ghost s1 = self.entries@;
                assert(s1 =~= s0.remove(i as int));
                assert(distinct_keys(s1)) by {
                    assert forall|a: int, b: int|
                        0 <= a < s1.len() && 0 <= b < s1.len() && a != b implies s1[a].0@
                        != s1[b].0@ by {
                        let a0 = if a < i { a } else { a + 1 };
                        let b0 = if b < i { b } else { b + 1 };
                        assert(s1[a] == s0[a0] && s1[b] == s0[b0]);
                    }
                }
                assert(entries_map(s1) =~= entries_map(s0).remove(k@)) by {
                    assert forall|key: Seq<char>|
                        #![auto]
                        entries_map(s1).dom().contains(key) <==> entries_map(s0).remove(
                            k@,
                        ).dom().contains(key) by {
                        lemma_entries_map_dom(s1, key);
                        lemma_entries_map_dom(s0, key);
                        if exists|j: int| 0 <= j < s0.len() && s0[j].0@ == key {
                            let j = choose|j: int| 0 <= j < s0.len() && s0[j].0@ == key;
                            if j < i {
                                assert(s1[j] == s0[j]);
                            } else if j > i {
                                assert(s1[j - 1] == s0[j]);
                            }
                        }
                        if exists|j: int| 0 <= j < s1.len() && s1[j].0@ == key {
                            let j = choose|j: int| 0 <= j < s1.len() && s1[j].0@ == key;
                            let j0 = if j < i { j } else { j + 1 };
                            assert(s1[j] == s0[j0]);
                        }
                    }
                    assert forall|key: Seq<char>|
                        #![auto]
                        entries_map(s1).dom().contains(key) implies entries_map(s1)[key]
                        == entries_map(s0).remove(k@)[key] by {
                        lemma_entries_map_dom(s1, key);
                        let j = choose|j: int| 0 <= j < s1.len() && s1[j].0@ == key;
                        lemma_entries_map_value(s1, j);
                        let j0 = if j < i { j } else { j + 1 };
                        assert(s1[j] == s0[j0]);
                        lemma_entries_map_value(s0, j0);
                    }
                }
                assert(self.key_seq() =~= s0.map_values(|e: (String, V)| e.0@).remove(
                    i as int,
                ));
                assert(s0.map_values(|e: (String, V)| e.0@)[i as int] == k@);
                assert(old(self).key_seq() == s0.map_values(|e: (String, V)| e.0@));
                assert(0 <= i < old(self).key_seq().len() && old(self).key_seq()[i as int] == k@
                    && self.key_seq() == old(self).key_seq().remove(i as int));
                Some(v)
            },
            None => None,
        }
    }

    /// Removes every entry.
    pub fn clear(&mut self)
        ensures
            final(self).wf(),
            final(self)@ == Map::<Seq<char>, V>::empty(),
            final(self).entries().len() == 0,
    {
        self.entries.clear();
    }

    /// A copy of the first key, if any.
    pub fn first_key(&self) -> (r: Option<String>)
        ensures
            self.entries().len() == 0 ==> r is None,
            self.entries().len() > 0 ==> (r matches Some(k) && k@ == self.key_seq()[0]),
    {
        if self.entries.len() == 0 {
            None
        } else {
            Some(self.entries[0].0.clone())
        }
    }
}

} // verus!
