//! Maps and sets keyed by names.
//!
//! Policy facts are small maps and sets keyed by strings: attributes, tags,
//! columns. [`NameMap`] and [`NameSet`] hold them as lists without duplicates,
//! in the order of first insertion.

use vstd::prelude::*;

use crate::text::same_text;

verus! {

/// A map from names to values.
#[derive(Debug, PartialEq, Eq)]
pub struct NameMap<V> {
    entries: Vec<(String, V)>,
}

/// The keys of a list of entries.
pub closed spec fn entry_keys<V>(entries: Seq<(String, V)>) -> Seq<Seq<char>> {
    Seq::new(entries.len(), |i: int| entries[i].0@)
}

impl<V> View for NameMap<V> {
    type V = Map<Seq<char>, V>;

    closed spec fn view(&self) -> Map<Seq<char>, V> {
        Map::new(
            |key: Seq<char>| self.keys().contains(key),
            |key: Seq<char>| self.entries@[self.keys().index_of(key)].1,
        )
    }
}

impl<V> NameMap<V> {
    /// The keys, in the order of first insertion.
    pub closed spec fn keys(&self) -> Seq<Seq<char>> {
        entry_keys(self.entries@)
    }

    #[verifier::type_invariant]
    spec fn distinct(self) -> bool {
        entry_keys(self.entries@).no_duplicates()
    }

    /// An empty map.
    pub fn new() -> (r: Self)
        ensures
            r@ == Map::<Seq<char>, V>::empty(),
            r.keys() == Seq::<Seq<char>>::empty(),
    {
        let r = NameMap { entries: Vec::new() };
        proof {
            assert(r.keys() =~= Seq::<Seq<char>>::empty());
            assert(r@ =~= Map::<Seq<char>, V>::empty());
        }
        r
    }

    /// The number of entries.
    pub fn len(&self) -> (r: usize)
        ensures
            r == self@.len(),
            r == self.keys().len(),
            self@.dom() == self.keys().to_set(),
            self.keys().no_duplicates(),
    {
        proof {
            use_type_invariant(self);
            self.keys().unique_seq_to_set();
            assert(self@.dom() =~= self.keys().to_set());
        }
        self.entries.len()
    }

    /// Whether there is no entry.
    pub fn is_empty(&self) -> (r: bool)
        ensures
            r == (self@ == Map::<Seq<char>, V>::empty()),
            r == (self.keys().len() == 0),
    {
        proof {
            if self.entries@.len() == 0 {
                assert(self@ =~= Map::<Seq<char>, V>::empty());
            } else {
                assert(self.keys().contains(self.keys()[0]));
                assert(self@.dom().contains(self.keys()[0]));
            }
        }
        self.entries.len() == 0
    }

    /// The position of `key`, if it is there.
    fn position(&self, key: &str) -> (r: Option<usize>)
        ensures
            match r {
                Some(i) => i < self.entries@.len() && self.keys()[i as int] == key@
                    && self@.contains_key(key@) && self@[key@] == self.entries@[i as int].1,
                None => !self.keys().contains(key@) && !self@.contains_key(key@),
            },
    {
        proof {
            use_type_invariant(self);
        }
        let mut i: usize = 0;
        while i < self.entries.len()
            invariant
                i <= self.entries@.len(),
                self.keys().no_duplicates(),
                forall|j: int| 0 <= j < i ==> #[trigger] self.keys()[j] != key@,
            decreases self.entries@.len() - i,
        {
            if same_text(self.entries[i].0.as_str(), key) {
                assert(self.keys()[i as int] == key@);
                assert(self.keys().contains(key@));
                return Some(i);
            }
            assert(self.keys()[i as int] != key@);
            i += 1;
        }
        None
    }

    /// The value of `key`, if it has one.
    pub fn get(&self, key: &str) -> (r: Option<&V>)
        ensures
            match r {
                Some(value) => self@.contains_key(key@) && *value == self@[key@],
                None => !self@.contains_key(key@),
            },
    {
        match self.position(key) {
            Some(i) => Some(&self.entries[i].1),
            None => None,
        }
    }

    /// Whether `key` has a value.
    pub fn contains_key(&self, key: &str) -> (r: bool)
        ensures
            r == self@.contains_key(key@),
    {
        self.position(key).is_some()
    }

    /// Set the value of `key`, in place of any value it had.
    pub fn insert(&mut self, key: String, value: V)
        ensures
            final(self)@ == old(self)@.insert(key@, value),
            final(self).keys() == if old(self)@.contains_key(key@) {
                old(self).keys()
            } else {
                old(self).keys().push(key@)
            },
    {
        proof {
            use_type_invariant(&*self);
        }
        let ghost before = *self;
        let found: Option<usize> = self.position(key.as_str());
        let mut entries: Vec<(String, V)> = Vec::new();
        std::mem::swap(&mut entries, &mut self.entries);
        match found {
            Some(i) => {
                entries.set(i, (key, value));
                proof {
                    assert(entry_keys(entries@) =~= before.keys());
                }
                self.entries = entries;
                proof {
                    assert(self@ =~= before@.insert(key@, value)) by {
                        assert forall|k: Seq<char>| self.keys().contains(k) implies self@[k]
                            == before@.insert(key@, value)[k] by {
                            let at = self.keys().index_of(k);
                            assert(self.keys()[at] == k);
                            assert(before.keys()[at] == k);
                        }
                    }
                }
            },
            None => {
                entries.push((key, value));
                proof {
                    assert(entry_keys(entries@) =~= before.keys().push(key@));
                }
                self.entries = entries;
                proof {
                    assert(self.entries@.drop_last() =~= before.entries@);
                    lemma_pushed(before, *self, key@, value);
                }
            },
        }
    }

    /// The key at position `i`.
    pub fn key_at(&self, i: usize) -> (r: &str)
        requires
            i < self.keys().len(),
        ensures
            r@ == self.keys()[i as int],
            self@.contains_key(r@),
    {
        assert(self.keys().contains(self.keys()[i as int]));
        self.entries[i].0.as_str()
    }

    /// The value at position `i`.
    pub fn value_at(&self, i: usize) -> (r: &V)
        requires
            i < self.keys().len(),
        ensures
            self@.contains_key(self.keys()[i as int]),
            *r == self@[self.keys()[i as int]],
    {
        proof {
            use_type_invariant(self);
            let key = self.keys()[i as int];
            assert(self.keys().contains(key));
            assert(self.keys()[self.keys().index_of(key)] == key);
        }
        &self.entries[i].1
    }

    /// Take over every entry of `other`, in place of the values its keys had.
    pub fn extend(&mut self, other: NameMap<V>)
        ensures
            final(self)@ == old(self)@.union_prefer_right(other@),
    {
        proof {
            use_type_invariant(&other);
        }
        let ghost start = self@;
        let ghost all = other.entries@;
        let mut rest: Vec<(String, V)> = other.entries;
        proof {
            assert(start.union_prefer_right(tail_map(all, rest@.len() as int)) =~= start);
        }
        while rest.len() > 0
            invariant
                rest@ == all.take(rest@.len() as int),
                rest@.len() <= all.len(),
                entry_keys(all).no_duplicates(),
                self@ == start.union_prefer_right(tail_map(all, rest@.len() as int)),
            decreases rest@.len(),
        {
            let ghost n = rest@.len() as int;
            if let Some((key, value)) = rest.pop() {
                proof {
                    assert(all[n - 1] == (key, value));
                }
                self.insert(key, value);
                proof {
                    lemma_tail_map(all, n - 1);
                    assert(rest@ =~= all.take(n - 1));
                    assert(self@ =~= start.union_prefer_right(tail_map(all, n - 1)));
                }
            }
        }
        proof {
            assert(tail_map(all, 0) =~= other@) by {
                assert(entry_keys(all) == other.keys());
                assert forall|k: Seq<char>| other.keys().contains(k) implies tail_map(
                    all,
                    0,
                ).contains_key(k) && tail_map(all, 0)[k] == other@[k] by {
                    let at = other.keys().index_of(k);
                    assert(all[at].0@ == k);
                    lemma_tail_at(all, 0, at);
                }
                assert forall|k: Seq<char>| tail_map(all, 0).contains_key(k) implies #[trigger] other@.contains_key(
                    k,
                ) by {
                    lemma_tail_has(all, 0, k);
                }
            }
        }
    }
}

/// The entries from position `i` on, as a map.
spec fn tail_map<V>(entries: Seq<(String, V)>, i: int) -> Map<Seq<char>, V>
    decreases entries.len() - i,
{
    if i >= entries.len() || i < 0 {
        Map::empty()
    } else {
        tail_map(entries, i + 1).insert(entries[i].0@, entries[i].1)
    }
}

proof fn lemma_tail_map<V>(entries: Seq<(String, V)>, i: int)
    requires
        0 <= i < entries.len(),
    ensures
        tail_map(entries, i) == tail_map(entries, i + 1).insert(entries[i].0@, entries[i].1),
{
}

proof fn lemma_tail_at<V>(entries: Seq<(String, V)>, i: int, at: int)
    requires
        0 <= i <= at < entries.len(),
        entry_keys(entries).no_duplicates(),
    ensures
        tail_map(entries, i).contains_key(entries[at].0@),
        tail_map(entries, i)[entries[at].0@] == entries[at].1,
    decreases entries.len() - i,
{
    if i < at {
        lemma_tail_at(entries, i + 1, at);
        assert(entry_keys(entries)[i] != entry_keys(entries)[at]);
    }
}

proof fn lemma_tail_has<V>(entries: Seq<(String, V)>, i: int, key: Seq<char>)
    requires
        0 <= i <= entries.len(),
        tail_map(entries, i).contains_key(key),
    ensures
        entry_keys(entries).contains(key),
    decreases entries.len() - i,
{
    if i < entries.len() {
        if entries[i].0@ == key {
            assert(entry_keys(entries)[i] == key);
        } else {
            lemma_tail_has(entries, i + 1, key);
        }
    }
}

proof fn lemma_pushed<V>(before: NameMap<V>, after: NameMap<V>, key: Seq<char>, value: V)
    requires
        before.keys().no_duplicates(),
        !before.keys().contains(key),
        after.entries@.len() == before.entries@.len() + 1,
        after.entries@.drop_last() == before.entries@,
        after.entries@.last().0@ == key,
        after.entries@.last().1 == value,
        after.keys() == before.keys().push(key),
    ensures
        after@ == before@.insert(key, value),
{
    let n = before.keys().len() as int;
    assert(after.keys()[n] == key);
    assert forall|k: Seq<char>| after.keys().contains(k) <==> (k == key || before.keys().contains(k)) by {
        if before.keys().contains(k) {
            let at = before.keys().index_of(k);
            assert(after.keys()[at] == k);
        }
        if after.keys().contains(k) && k != key {
            let at = after.keys().index_of(k);
            assert(before.keys()[at] == k);
        }
    }
    assert forall|k: Seq<char>| after.keys().contains(k) implies after@[k] == before@.insert(
        key,
        value,
    )[k] by {
        let at = after.keys().index_of(k);
        assert(after.keys()[at] == k);
        if k == key {
            if at < n {
                assert(before.keys()[at] == key);
            }
        } else {
            assert(at < n);
            assert(before.keys()[at] == k);
            assert(before.keys().index_of(k) == at);
            assert(after.entries@[at] == after.entries@.drop_last()[at]);
        }
    }
    assert(after@ =~= before@.insert(key, value));
}

impl<V> Default for NameMap<V> {
    fn default() -> (r: Self)
        ensures
            r@ == Map::<Seq<char>, V>::empty(),
            r.keys() == Seq::<Seq<char>>::empty(),
    {
        NameMap::new()
    }
}

impl<V: Clone> Clone for NameMap<V> {
    fn clone(&self) -> (r: Self)
        ensures
            r.keys() == self.keys(),
            r@.dom() == self@.dom(),
            forall|key: Seq<char>| #[trigger]
                r@.contains_key(key) ==> cloned::<V>(self@[key], r@[key]),
    {
        proof {
            use_type_invariant(self);
        }
        let mut entries: Vec<(String, V)> = Vec::new();
        let mut i: usize = 0;
        while i < self.entries.len()
            invariant
                i <= self.entries@.len(),
                entries@.len() == i,
                forall|j: int|
                    0 <= j < i ==> (#[trigger] entries@[j]).0@ == self.entries@[j].0@ && cloned::<
                        V,
                    >(self.entries@[j].1, entries@[j].1),
            decreases self.entries@.len() - i,
        {
            let entry = &self.entries[i];
            entries.push((entry.0.clone(), entry.1.clone()));
            i += 1;
        }
        assert(entry_keys(entries@) =~= self.keys());
        let r = NameMap { entries };
        assert(r@.dom() =~= self@.dom());
        proof {
            assert forall|key: Seq<char>| #[trigger] r@.contains_key(key) implies cloned::<V>(
                self@[key],
                r@[key],
            ) by {
                let at = r.keys().index_of(key);
                assert(r.keys()[at] == key);
                assert(cloned::<V>(self.entries@[at].1, r.entries@[at].1));
            }
        }
        r
    }
}

/// A set of names.
#[derive(Debug, PartialEq, Eq)]
pub struct NameSet {
    items: Vec<String>,
}

/// The texts of a list of strings.
pub open spec fn texts(items: Seq<String>) -> Seq<Seq<char>> {
    Seq::new(items.len(), |i: int| items[i]@)
}

impl View for NameSet {
    type V = Set<Seq<char>>;

    closed spec fn view(&self) -> Set<Seq<char>> {
        texts(self.items@).to_set()
    }
}

impl NameSet {
    /// The names, in the order of first insertion.
    pub closed spec fn listed(&self) -> Seq<Seq<char>> {
        texts(self.items@)
    }

    #[verifier::type_invariant]
    spec fn distinct(self) -> bool {
        texts(self.items@).no_duplicates()
    }

    /// An empty set.
    pub fn new() -> (r: Self)
        ensures
            r@ == Set::<Seq<char>>::empty(),
            r.listed() == Seq::<Seq<char>>::empty(),
    {
        let r = NameSet { items: Vec::new() };
        proof {
            assert(r.listed() =~= Seq::<Seq<char>>::empty());
            assert(r@ =~= Set::<Seq<char>>::empty());
        }
        r
    }

    /// The number of names.
    pub fn len(&self) -> (r: usize)
        ensures
            r == self@.len(),
            r == self.listed().len(),
            self@ == self.listed().to_set(),
            self.listed().no_duplicates(),
    {
        proof {
            use_type_invariant(self);
            self.listed().unique_seq_to_set();
        }
        self.items.len()
    }

    /// Whether there is no name.
    pub fn is_empty(&self) -> (r: bool)
        ensures
            r == (self@ == Set::<Seq<char>>::empty()),
            r == (self.listed().len() == 0),
    {
        proof {
            if self.items@.len() == 0 {
                assert(self@ =~= Set::<Seq<char>>::empty());
            } else {
                assert(self.listed().contains(self.listed()[0]));
                assert(self@.contains(self.listed()[0]));
            }
        }
        self.items.len() == 0
    }

    /// Whether `name` is in the set.
    pub fn contains(&self, name: &str) -> (r: bool)
        ensures
            r == self@.contains(name@),
            r == self.listed().contains(name@),
    {
        let mut i: usize = 0;
        while i < self.items.len()
            invariant
                i <= self.items@.len(),
                forall|j: int| 0 <= j < i ==> #[trigger] self.listed()[j] != name@,
            decreases self.items@.len() - i,
        {
            if same_text(self.items[i].as_str(), name) {
                assert(self.listed()[i as int] == name@);
                return true;
            }
            assert(self.listed()[i as int] != name@);
            i += 1;
        }
        assert(!self.listed().contains(name@));
        false
    }

    /// Add `name`.
    pub fn insert(&mut self, name: String)
        ensures
            final(self)@ == old(self)@.insert(name@),
            final(self).listed() == if old(self)@.contains(name@) {
                old(self).listed()
            } else {
                old(self).listed().push(name@)
            },
    {
        proof {
            use_type_invariant(&*self);
        }
        let ghost before = *self;
        let known = self.contains(name.as_str());
        if !known {
            let mut items: Vec<String> = Vec::new();
            std::mem::swap(&mut items, &mut self.items);
            items.push(name);
            proof {
                assert(texts(items@) =~= before.listed().push(name@));
            }
            self.items = items;
            proof {
                assert forall|n: Seq<char>| self.listed().contains(n) <==> (n == name@
                    || before.listed().contains(n)) by {
                    if before.listed().contains(n) {
                        let at = before.listed().index_of(n);
                        assert(self.listed()[at] == n);
                    }
                    assert(self.listed()[before.listed().len() as int] == name@);
                    if self.listed().contains(n) && n != name@ {
                        let at = self.listed().index_of(n);
                        assert(before.listed()[at] == n);
                    }
                }
            }
        }
        assert(self@ =~= before@.insert(name@));
    }

    /// The name at position `i`.
    pub fn name_at(&self, i: usize) -> (r: &str)
        requires
            i < self.listed().len(),
        ensures
            r@ == self.listed()[i as int],
            self@.contains(r@),
    {
        assert(self.listed().contains(self.listed()[i as int]));
        self.items[i].as_str()
    }

    /// Add every name of `other`.
    pub fn extend(&mut self, other: &NameSet)
        ensures
            final(self)@ == old(self)@.union(other@),
    {
        let ghost start = self@;
        let mut i: usize = 0;
        proof {
            assert(start.union(other.listed().take(0).to_set()) =~= start);
        }
        while i < other.items.len()
            invariant
                i <= other.items@.len(),
                self@ == start.union(other.listed().take(i as int).to_set()),
            decreases other.items@.len() - i,
        {
            let name = other.items[i].clone();
            proof {
                let done = other.listed().take(i as int);
                let next = other.listed().take(i + 1);
                assert(next =~= done.push(name@));
                assert forall|n: Seq<char>| next.contains(n) <==> (n == name@ || done.contains(n)) by {
                    assert(next[i as int] == name@);
                    if done.contains(n) {
                        assert(next[done.index_of(n)] == n);
                    }
                    if next.contains(n) && n != name@ {
                        assert(done[next.index_of(n)] == n);
                    }
                }
                assert(next.to_set() =~= done.to_set().insert(name@));
            }
            self.insert(name);
            assert(self@ =~= start.union(other.listed().take(i + 1).to_set()));
            i += 1;
        }
        assert(other.listed().take(i as int) =~= other.listed());
    }
}

impl Clone for NameSet {
    fn clone(&self) -> (r: Self)
        ensures
            r@ == self@,
            r.listed() == self.listed(),
    {
        proof {
            use_type_invariant(self);
        }
        let mut items: Vec<String> = Vec::new();
        let mut i: usize = 0;
        while i < self.items.len()
            invariant
                i <= self.items@.len(),
                items@.len() == i,
                forall|j: int| 0 <= j < i ==> (#[trigger] items@[j])@ == self.items@[j]@,
            decreases self.items@.len() - i,
        {
            items.push(self.items[i].clone());
            i += 1;
        }
        assert(texts(items@) =~= self.listed());
        NameSet { items }
    }
}

impl Default for NameSet {
    fn default() -> (r: Self)
        ensures
            r@ == Set::<Seq<char>>::empty(),
            r.listed() == Seq::<Seq<char>>::empty(),
    {
        NameSet::new()
    }
}

/// **A map's keys are the names that have a value.**
pub proof fn law_keys_are_the_names_with_a_value<V>(map: NameMap<V>, key: Seq<char>)
    ensures
        map.keys().contains(key) <==> map@.contains_key(key),
{
}

/// **The names listed are the names in the set.**
pub proof fn law_listed_names_are_the_set(names: NameSet, name: Seq<char>)
    ensures
        names.listed().contains(name) <==> names@.contains(name),
{
}

} // verus!
