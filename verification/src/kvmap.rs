//! An insertion-ordered map with `String` keys, standing in for a hash map
//! wherever the model carries a `mapping(string -> ...)`. Keys are pairwise
//! distinct; an insert with an existing key replaces that key's value in
//! place (last write wins), so the order in which keys first arrived also
//! fixes the order of the matching object entries on encode.

use vstd::prelude::*;

verus! {

#[derive(Debug)]
pub struct KvMap<V> {
    entries: Vec<(String, V)>,
}

/// The mapping denoted by an association sequence, later entries winning.
pub open spec fn seq_as_map<T>(s: Seq<(Seq<char>, T)>) -> Map<Seq<char>, T>
    decreases s.len(),
{
    if s.len() == 0 {
        Map::empty()
    } else {
        seq_as_map(s.drop_last()).insert(s.last().0, s.last().1)
    }
}

/// Distinctness of the keys of an association sequence.
pub open spec fn distinct_keys<T>(s: Seq<(Seq<char>, T)>) -> bool {
    forall|i: int, j: int| 0 <= i < j < s.len() ==> s[i].0 != s[j].0
}

/// Replaces the value under `key` in place when the key occurs, and appends
/// the pair otherwise.
pub open spec fn upsert_entries<T>(s: Seq<(Seq<char>, T)>, key: Seq<char>, v: T) -> Seq<(
    Seq<char>,
    T,
)> {
    if exists|i: int| 0 <= i < s.len() && s[i].0 == key {
        let i = choose|i: int| 0 <= i < s.len() && s[i].0 == key;
        s.update(i, (key, v))
    } else {
        s.push((key, v))
    }
}

pub proof fn lemma_seq_as_map_contains<T>(s: Seq<(Seq<char>, T)>, key: Seq<char>)
    ensures
        seq_as_map(s).contains_key(key) <==> exists|i: int| 0 <= i < s.len() && s[i].0 == key,
    decreases s.len(),
{
    if s.len() > 0 {
        lemma_seq_as_map_contains(s.drop_last(), key);
        if s.last().0 != key {
            if exists|i: int| 0 <= i < s.len() && s[i].0 == key {
                let i = choose|i: int| 0 <= i < s.len() && s[i].0 == key;
                assert(s.drop_last()[i] == s[i]);
            }
            if exists|i: int| 0 <= i < s.drop_last().len() && s.drop_last()[i].0 == key {
                let i = choose|i: int| 0 <= i < s.drop_last().len() && s.drop_last()[i].0 == key;
                assert(s[i].0 == key);
            }
        }
    }
}

pub proof fn lemma_seq_as_map_index<T>(s: Seq<(Seq<char>, T)>, i: int)
    requires
        distinct_keys(s),
        0 <= i < s.len(),
    ensures
        seq_as_map(s).contains_key(s[i].0),
        seq_as_map(s)[s[i].0] == s[i].1,
    decreases s.len(),
{
    lemma_seq_as_map_contains(s, s[i].0);
    if i < s.len() - 1 {
        assert(s.drop_last()[i] == s[i]);
        lemma_seq_as_map_index(s.drop_last(), i);
    }
}

proof fn lemma_seq_as_map_update<T>(s: Seq<(Seq<char>, T)>, i: int, v: T)
    requires
        distinct_keys(s),
        0 <= i < s.len(),
    ensures
        seq_as_map(s.update(i, (s[i].0, v))) =~= seq_as_map(s).insert(s[i].0, v),
    decreases s.len(),
{
    let s2 = s.update(i, (s[i].0, v));
    if i == s.len() - 1 {
        assert(s2.drop_last() =~= s.drop_last());
    } else {
        assert(s2.drop_last() =~= s.drop_last().update(i, (s[i].0, v)));
        assert(s.drop_last()[i] == s[i]);
        lemma_seq_as_map_update(s.drop_last(), i, v);
        assert(s2.last() == s.last());
        lemma_seq_as_map_contains(s.drop_last(), s[i].0);
    }
}

impl<V: View> KvMap<V> {
    /// The ordered entries, each key beside the view of its value.
    pub closed spec fn entries_view(self) -> Seq<(Seq<char>, V::V)> {
        self.entries@.map_values(|p: (String, V)| (p.0@, p.1@))
    }

    /// The keys in insertion order.
    pub open spec fn spec_keys(self) -> Seq<Seq<char>> {
        self.entries_view().map_values(|e: (Seq<char>, V::V)| e.0)
    }

    pub open spec fn wf(self) -> bool {
        distinct_keys(self.entries_view())
    }

    pub proof fn lemma_view_contains_key(self, key: Seq<char>)
        ensures
            self@.contains_key(key) <==> self.spec_keys().contains(key),
    {
        lemma_seq_as_map_contains(self.entries_view(), key);
        if self.spec_keys().contains(key) {
            let i = choose|i: int| 0 <= i < self.spec_keys().len() && self.spec_keys()[i] == key;
            assert(self.entries_view()[i].0 == key);
        }
        if exists|i: int| 0 <= i < self.entries_view().len() && self.entries_view()[i].0 == key {
            let i = choose|i: int|
                0 <= i < self.entries_view().len() && self.entries_view()[i].0 == key;
            assert(self.spec_keys()[i] == key);
        }
    }

    pub fn new() -> (r: KvMap<V>)
        ensures
            r.wf(),
            r@ =~= Map::<Seq<char>, V::V>::empty(),
            r.entries_view() =~= Seq::<(Seq<char>, V::V)>::empty(),
    {
        let r = KvMap { entries: Vec::new() };
        proof {
            assert(r.entries_view() =~= Seq::<(Seq<char>, V::V)>::empty());
        }
        r
    }

    pub fn len(&self) -> (n: usize)
        ensures
            n == self.spec_keys().len(),
    {
        self.entries.len()
    }

    pub fn is_empty(&self) -> (r: bool)
        ensures
            r == (self.spec_keys().len() == 0),
    {
        self.entries.len() == 0
    }

    pub fn key_at<'a>(&'a self, i: usize) -> (k: &'a String)
        requires
            i < self.entries_view().len(),
        ensures
            k@ == self.entries_view()[i as int].0,
    {
        &self.entries[i].0
    }

    pub fn value_at<'a>(&'a self, i: usize) -> (v: &'a V)
        requires
            i < self.entries_view().len(),
        ensures
            v@ == self.entries_view()[i as int].1,
    {
        &self.entries[i].1
    }

    /// Upsert: the mapping afterwards holds `value` under `key`; every other
    /// key keeps its value; a fresh key goes to the end of the order.
    pub fn insert(&mut self, key: String, value: V)
        requires
            old(self).wf(),
        ensures
            final(self).wf(),
            final(self)@ =~= old(self)@.insert(key@, value@),
            final(self).entries_view() == upsert_entries(old(self).entries_view(), key@, value@),
            final(self).spec_keys() == if old(self)@.contains_key(key@) {
                old(self).spec_keys()
            } else {
                old(self).spec_keys().push(key@)
            },
    {
        let ghost old_ev = self.entries_view();
        let n = self.entries.len();
        for i in 0..n
            invariant
                n == self.entries@.len(),
                *self == *old(self),
                old_ev == self.entries_view(),
                distinct_keys(old_ev),
                forall|k: int| 0 <= k < i ==> old_ev[k].0 != key@,
        {
            if self.entries[i].0 == key {
                self.entries.remove(i);
                self.entries.insert(i, (key, value));
                proof {
                    let ev = self.entries_view();
                    assert(ev =~= old_ev.update(i as int, (old_ev[i as int].0, value@)));
                    assert(old_ev[i as int].0 == key@);
                    lemma_seq_as_map_update(old_ev, i as int, value@);
                    lemma_seq_as_map_contains(old_ev, key@);
                    let w = choose|w: int| 0 <= w < old_ev.len() && old_ev[w].0 == key@;
                    assert(w == i as int);
                    assert(ev == upsert_entries(old_ev, key@, value@));
                    assert(self.spec_keys() =~= old(self).spec_keys());
                }
                return ;
            }
        }
        self.entries.push((key, value));
        proof {
            let ev = self.entries_view();
            assert(ev =~= old_ev.push((key@, value@)));
            assert(ev.drop_last() =~= old_ev);
            lemma_seq_as_map_contains(old_ev, key@);
            assert(!old(self)@.contains_key(key@));
            assert(ev == upsert_entries(old_ev, key@, value@));
            assert(self.spec_keys() =~= old(self).spec_keys().push(key@));
        }
    }

    pub fn get<'a>(&'a self, key: &str) -> (r: Option<&'a V>)
        requires
            self.wf(),
        ensures
            match r {
                Some(v) => self@.contains_key(key@) && v@ == self@[key@],
                None => !self@.contains_key(key@),
            },
    {
        let ghost ev = self.entries_view();
        let n = self.entries.len();
        for i in 0..n
            invariant
                n == self.entries@.len(),
                ev == self.entries_view(),
                self.wf(),
                forall|k: int| 0 <= k < i ==> ev[k].0 != key@,
        {
            if crate::str_eq(self.entries[i].0.as_str(), key) {
                proof {
                    lemma_seq_as_map_index(ev, i as int);
                }
                return Some(&self.entries[i].1);
            }
        }
        proof {
            lemma_seq_as_map_contains(ev, key@);
        }
        None
    }
}

impl<V: Clone> Clone for KvMap<V> {
    fn clone(&self) -> Self {
        KvMap { entries: self.entries.clone() }
    }
}

impl<V: View> View for KvMap<V> {
    type V = Map<Seq<char>, V::V>;

    open spec fn view(&self) -> Map<Seq<char>, V::V> {
        seq_as_map(self.entries_view())
    }
}

} // verus!
