//! A string-keyed map that keeps its entries in insertion order.
use vstd::prelude::*;

verus! {

/// A map from strings to values. Its keys are distinct; entries keep the
/// order in which their keys were first inserted.
#[derive(Debug)]
pub struct StringMap<V> {
    entries: Vec<(String, V)>,
}

/// Whether the entries hold distinct keys.
pub open spec fn keys_distinct<V>(s: Seq<(String, V)>) -> bool {
    forall|i: int, j: int| 0 <= i < s.len() && 0 <= j < s.len() && i != j ==> s[i].0@ != s[j].0@
}

/// Whether some entry has key `k`.
pub open spec fn has_key<V>(s: Seq<(String, V)>, k: Seq<char>) -> bool {
    exists|i: int| 0 <= i < s.len() && s[i].0@ == k
}

/// The map that distinct-keyed entries stand for.
pub open spec fn entries_map<V>(s: Seq<(String, V)>) -> Map<Seq<char>, V> {
    Map::new(
        |k: Seq<char>| has_key(s, k),
        |k: Seq<char>| s[choose|i: int| 0 <= i < s.len() && s[i].0@ == k].1,
    )
}

/// In distinct-keyed entries, each entry's key maps to its value.
pub proof fn lemma_entries_map_at<V>(s: Seq<(String, V)>, i: int)
    requires
        keys_distinct(s),
        0 <= i < s.len(),
    ensures
        entries_map(s).contains_key(s[i].0@),
        entries_map(s)[s[i].0@] == s[i].1,
{
    let k = s[i].0@;
    assert(has_key(s, k));
    let j = choose|j: int| 0 <= j < s.len() && s[j].0@ == k;
    assert(j == i);
}

impl<V> View for StringMap<V> {
    type V = Map<Seq<char>, V>;

    open spec fn view(&self) -> Map<Seq<char>, V> {
        entries_map(self.entries())
    }
}

impl<V> StringMap<V> {
    /// The entries in insertion order.
    pub closed spec fn entries(self) -> Seq<(String, V)> {
        self.entries@
    }

    #[verifier::type_invariant]
    closed spec fn inv(self) -> bool {
        keys_distinct(self.entries@)
    }

    /// Each value of the map lies strictly inside it.
    pub proof fn lemma_entries_decrease(self)
        ensures
            forall|i: int|
                0 <= i < self.entries().len() ==> decreases_to!(self => #[trigger] self.entries()[i].1),
    {
        assert forall|i: int| 0 <= i < self.entries().len() implies decreases_to!(self => #[trigger] self.entries()[i].1) by {
            assert(decreases_to!(self => self.entries));
            assert(decreases_to!(self.entries => self.entries@));
            assert(decreases_to!(self.entries@ => self.entries@[i]));
            assert(decreases_to!(self.entries@[i] => self.entries@[i].1));
        }
    }

    /// The empty map.
    pub fn new() -> (r: StringMap<V>)
        ensures
            r.entries() == Seq::<(String, V)>::empty(),
            r@ == Map::<Seq<char>, V>::empty(),
    {
        let r = StringMap { entries: Vec::new() };
        assert(r@ =~= Map::<Seq<char>, V>::empty());
        r
    }

    /// The number of entries (whose keys are distinct).
    pub fn len(&self) -> (r: usize)
        ensures
            r == self.entries().len(),
            keys_distinct(self.entries()),
    {
        proof {
            use_type_invariant(self);
        }
        self.entries.len()
    }

    /// The key of the entry at `i`.
    pub fn key_at(&self, i: usize) -> (r: &String)
        requires
            i < self.entries().len(),
        ensures
            *r == self.entries()[i as int].0,
    {
        &self.entries[i].0
    }

    /// The value of the entry at `i`.
    pub fn value_at(&self, i: usize) -> (r: &V)
        requires
            i < self.entries().len(),
        ensures
            *r == self.entries()[i as int].1,
    {
        &self.entries[i].1
    }

    /// The position of the entry with key `k`, if there is one.
    pub fn index_of(&self, k: &String) -> (r: Option<usize>)
        ensures
            match r {
                Some(i) => i < self.entries().len() && self.entries()[i as int].0@ == k@,
                None => !has_key(self.entries(), k@),
            },
    {
        let mut i: usize = 0;
        while i < self.entries.len()
            invariant
                i <= self.entries@.len(),
                forall|j: int| 0 <= j < i ==> self.entries@[j].0@ != k@,
            decreases self.entries@.len() - i,
        {
            if self.entries[i].0 == *k {
                return Some(i);
            }
            i = i + 1;
        }
        None
    }

    /// The value under `k`, if there is one.
    pub fn get(&self, k: &String) -> (r: Option<&V>)
        ensures
            match r {
                Some(v) => self@.contains_key(k@) && *v == self@[k@],
                None => !self@.contains_key(k@),
            },
    {
        proof {
            use_type_invariant(self);
        }
        match self.index_of(k) {
            Some(i) => {
                proof {
                    lemma_entries_map_at(self.entries(), i as int);
                }
                Some(&self.entries[i].1)
            },
            None => None,
        }
    }

    /// Puts `v` under `k`. A new key is added after the others; an existing
    /// one keeps its place and gets the new value.
    pub fn insert(&mut self, k: String, v: V)
        ensures
            final(self)@ == old(self)@.insert(k@, v),
            has_key(old(self).entries(), k@) ==> final(self).entries().len() == old(self).entries().len(),
            !has_key(old(self).entries(), k@) ==> final(self).entries() == old(self).entries().push((k, v)),
    {
        proof {
            use_type_invariant(&*self);
        }
        let ghost k_view = k@;
        let ghost old_entries = self.entries@;
        let found = self.index_of(&k);
        let mut taken = StringMap { entries: Vec::new() };
        core::mem::swap(self, &mut taken);
        let StringMap { entries: mut entries } = taken;
        match found {
            Some(i) => {
                entries.set(i, (k, v));
                proof {
                    let s = entries@;
                    assert(s == old_entries.update(i as int, (k, v)));
                    assert(keys_distinct(s));
                    assert forall|key: Seq<char>| #[trigger] has_key(s, key) == (has_key(old_entries, key) || key == k_view) by {
                        if has_key(old_entries, key) {
                            let j = choose|j: int| 0 <= j < old_entries.len() && old_entries[j].0@ == key;
                            assert(s[j].0@ == key);
                        }
                        if has_key(s, key) {
                            let j = choose|j: int| 0 <= j < s.len() && s[j].0@ == key;
                            if j != i {
                                assert(old_entries[j].0@ == key);
                            }
                        }
                    }
                    assert forall|key: Seq<char>| has_key(s, key) implies entries_map(s)[key] == entries_map(old_entries).insert(k_view, v)[key] by {
                        let j = choose|j: int| 0 <= j < s.len() && s[j].0@ == key;
                        lemma_entries_map_at(s, j);
                        if j != i {
                            lemma_entries_map_at(old_entries, j);
                        }
                    }
                    assert(entries_map(s) =~= entries_map(old_entries).insert(k_view, v));
                }
            },
            None => {
                entries.push((k, v));
                proof {
                    let s = entries@;
                    assert(s == old_entries.push((k, v)));
                    assert(keys_distinct(s));
                    assert forall|key: Seq<char>| #[trigger] has_key(s, key) == (has_key(old_entries, key) || key == k_view) by {
                        if has_key(old_entries, key) {
                            let j = choose|j: int| 0 <= j < old_entries.len() && old_entries[j].0@ == key;
                            assert(s[j].0@ == key);
                        }
                        if key == k_view {
                            assert(s[old_entries.len() as int].0@ == key);
                        }
                    }
                    assert forall|key: Seq<char>| has_key(s, key) implies entries_map(s)[key] == entries_map(old_entries).insert(k_view, v)[key] by {
                        let j = choose|j: int| 0 <= j < s.len() && s[j].0@ == key;
                        lemma_entries_map_at(s, j);
                        if j < old_entries.len() {
                            lemma_entries_map_at(old_entries, j);
                        }
                    }
                    assert(entries_map(s) =~= entries_map(old_entries).insert(k_view, v));
                }
            },
        }
        *self = StringMap { entries };
    }
}

impl<V: Clone> Clone for StringMap<V> {
    /// A copy with the same keys in the same order, each value cloned.
    fn clone(&self) -> (r: StringMap<V>)
        ensures
            r.entries().len() == self.entries().len(),
            forall|i: int| 0 <= i < self.entries().len() ==> (#[trigger] r.entries()[i]).0 == self.entries()[i].0,
    {
        proof {
            use_type_invariant(self);
        }
        let mut entries: Vec<(String, V)> = Vec::new();
        let mut i: usize = 0;
        while i < self.entries.len()
            invariant
                i <= self.entries@.len(),
                entries@.len() == i,
                forall|j: int| 0 <= j < i ==> (#[trigger] entries@[j]).0 == self.entries@[j].0,
                keys_distinct(self.entries@),
            decreases self.entries@.len() - i,
        {
            let key = self.entries[i].0.clone();
            let value = self.entries[i].1.clone();
            entries.push((key, value));
            i = i + 1;
        }
        StringMap { entries }
    }
}

} // verus!
