//! A map from clip keys to values.
use vstd::prelude::*;

verus! {

/// A map from clip keys to values, which keeps its entries in the order in which their keys
/// came.
pub struct ClipMap<V> {
    entries: Vec<(String, V)>,
}

/// Whether no two entries have the same key.
spec fn distinct_keys<V>(entries: Seq<(String, V)>) -> bool {
    forall|i: int, j: int|
        0 <= i < j < entries.len() ==> (#[trigger] entries[i]).0@ != (#[trigger] entries[j]).0@
}

/// What the entries map their keys to.
spec fn entries_map<V>(entries: Seq<(String, V)>) -> Map<Seq<char>, V>
    decreases entries.len(),
{
    if entries.len() == 0 {
        Map::empty()
    } else {
        entries_map(entries.drop_last()).insert(entries.last().0@, entries.last().1)
    }
}

impl<V> View for ClipMap<V> {
    type V = Map<Seq<char>, V>;

    closed spec fn view(&self) -> Map<Seq<char>, V> {
        entries_map(self.entries@)
    }
}

/// Whether `keys` holds the key `key`.
pub open spec fn holds_key(keys: Seq<String>, key: Seq<char>) -> bool {
    exists|i: int| 0 <= i < keys.len() && (#[trigger] keys[i])@ == key
}

/// `map` with the keys of `keys` only.
pub open spec fn kept_entries<V>(map: Map<Seq<char>, V>, keys: Seq<String>) -> Map<Seq<char>, V> {
    map.restrict(Set::new(|key: Seq<char>| holds_key(keys, key)))
}

/// Whether `keys` holds `key`.
pub fn contains_key(keys: &Vec<String>, key: &String) -> (contains: bool)
    ensures
        contains == holds_key(keys@, key@),
{
    let mut i: usize = 0;
    while i < keys.len()
        invariant
            i <= keys.len(),
            forall|j: int| 0 <= j < i ==> (#[trigger] keys@[j])@ != key@,
        decreases keys.len() - i,
    {
        if keys[i] == *key {
            assert(keys@[i as int]@ == key@);
            return true;
        }
        i = i + 1;
    }
    false
}

/// With distinct keys, every entry is what its key maps to, and no other key maps to anything.
proof fn lemma_entries_map<V>(entries: Seq<(String, V)>)
    requires
        distinct_keys(entries),
    ensures
        forall|i: int| #![trigger entries[i]]
            0 <= i < entries.len() ==> entries_map(entries).contains_pair(
                entries[i].0@,
                entries[i].1,
            ),
        forall|key: Seq<char>| #[trigger]
            entries_map(entries).contains_key(key) ==> exists|i: int|
                0 <= i < entries.len() && (#[trigger] entries[i]).0@ == key,
    decreases entries.len(),
{
    if entries.len() > 0 {
        let shorter = entries.drop_last();
        assert forall|i: int, j: int| 0 <= i < j < shorter.len() implies (#[trigger] shorter[i]).0@
            != (#[trigger] shorter[j]).0@ by {
            assert(entries[i] == shorter[i] && entries[j] == shorter[j]);
        }
        lemma_entries_map(shorter);
        let last = entries.len() - 1;
        assert forall|i: int| #![trigger entries[i]] 0 <= i < entries.len() implies entries_map(
            entries,
        ).contains_pair(entries[i].0@, entries[i].1) by {
            if i < last {
                assert(shorter[i] == entries[i]);
                assert(entries[i].0@ != entries[last].0@);
            }
        }
        assert forall|key: Seq<char>| #[trigger]
            entries_map(entries).contains_key(key) implies exists|i: int|
            0 <= i < entries.len() && (#[trigger] entries[i]).0@ == key by {
            if key == entries[last].0@ {
                assert(entries[last].0@ == key);
            } else {
                assert(entries_map(shorter).contains_key(key));
                let i = choose|i: int| 0 <= i < shorter.len() && (#[trigger] shorter[i]).0@ == key;
                assert(entries[i].0@ == key);
            }
        }
    }
}

/// A map that holds just what the entries hold is the map of the entries.
proof fn lemma_entries_map_is<V>(entries: Seq<(String, V)>, map: Map<Seq<char>, V>)
    requires
        distinct_keys(entries),
        forall|i: int| #![trigger entries[i]]
            0 <= i < entries.len() ==> map.contains_pair(entries[i].0@, entries[i].1),
        forall|key: Seq<char>| #[trigger]
            map.contains_key(key) ==> exists|i: int|
                0 <= i < entries.len() && (#[trigger] entries[i]).0@ == key,
    ensures
        entries_map(entries) == map,
{
    lemma_entries_map(entries);
    let made = entries_map(entries);
    assert forall|key: Seq<char>| made.contains_key(key) <==> map.contains_key(key) by {
        if made.contains_key(key) {
            let i = choose|i: int| 0 <= i < entries.len() && (#[trigger] entries[i]).0@ == key;
            assert(map.contains_pair(entries[i].0@, entries[i].1));
        }
        if map.contains_key(key) {
            let i = choose|i: int| 0 <= i < entries.len() && (#[trigger] entries[i]).0@ == key;
            assert(made.contains_pair(entries[i].0@, entries[i].1));
        }
    }
    assert forall|key: Seq<char>| made.contains_key(key) implies made[key] == map[key] by {
        let i = choose|i: int| 0 <= i < entries.len() && (#[trigger] entries[i]).0@ == key;
        assert(made.contains_pair(entries[i].0@, entries[i].1));
        assert(map.contains_pair(entries[i].0@, entries[i].1));
    }
    assert(made =~= map);
}

/// Changing the value of one entry changes what its key maps to and nothing else.
proof fn lemma_entries_map_update<V>(entries: Seq<(String, V)>, at: int, value: V)
    requires
        distinct_keys(entries),
        0 <= at < entries.len(),
    ensures
        distinct_keys(entries.update(at, (entries[at].0, value))),
        entries_map(entries.update(at, (entries[at].0, value))) == entries_map(entries).insert(
            entries[at].0@,
            value,
        ),
{
    let after = entries.update(at, (entries[at].0, value));
    let map = entries_map(entries).insert(entries[at].0@, value);
    lemma_entries_map(entries);
    assert forall|i: int| #![trigger after[i]] 0 <= i < after.len() implies map.contains_pair(
        after[i].0@,
        after[i].1,
    ) by {
        assert(entries_map(entries).contains_pair(entries[i].0@, entries[i].1));
    }
    assert forall|key: Seq<char>| #[trigger] map.contains_key(key) implies exists|i: int|
        0 <= i < after.len() && (#[trigger] after[i]).0@ == key by {
        if key == entries[at].0@ {
            assert(after[at].0@ == key);
        } else {
            let i = choose|i: int| 0 <= i < entries.len() && (#[trigger] entries[i]).0@ == key;
            assert(after[i].0@ == key);
        }
    }
    lemma_entries_map_is(after, map);
}

impl<V> ClipMap<V> {
    /// Whether every key occurs once.
    pub closed spec fn wf(&self) -> bool {
        distinct_keys(self.entries@)
    }

    /// The key of the entry at `index`, in the order in which the keys came.
    pub closed spec fn key_at(&self, index: int) -> Seq<char> {
        self.entries@[index].0@
    }

    /// How many entries there are.
    pub closed spec fn count(&self) -> nat {
        self.entries@.len()
    }

    /// The entries are what the map holds.
    pub proof fn entries_cover_map(&self)
        requires
            self.wf(),
        ensures
            forall|i: int| 0 <= i < self.count() ==> self@.contains_key(#[trigger] self.key_at(i)),
            forall|key: Seq<char>| #[trigger]
                self@.contains_key(key) ==> exists|i: int|
                    0 <= i < self.count() && #[trigger] self.key_at(i) == key,
    {
        lemma_entries_map(self.entries@);
        assert forall|i: int| 0 <= i < self.count() implies self@.contains_key(
            #[trigger] self.key_at(i),
        ) by {
            assert(self@.contains_pair(self.entries@[i].0@, self.entries@[i].1));
        }
        assert forall|key: Seq<char>| #[trigger] self@.contains_key(key) implies exists|i: int|
            0 <= i < self.count() && #[trigger] self.key_at(i) == key by {
            let i = choose|i: int|
                0 <= i < self.entries@.len() && (#[trigger] self.entries@[i]).0@ == key;
            assert(self.key_at(i) == key);
        }
    }

    /// A map with nothing in it.
    pub fn new() -> (map: Self)
        ensures
            map.wf(),
            map@ == Map::<Seq<char>, V>::empty(),
    {
        ClipMap { entries: Vec::new() }
    }

    /// How many entries there are.
    pub fn len(&self) -> (len: usize)
        ensures
            len == self.count(),
    {
        self.entries.len()
    }

    /// The key and the value of the entry at `index`.
    pub fn entry_at(&self, index: usize) -> (entry: (&String, &V))
        requires
            self.wf(),
            index < self.count(),
        ensures
            entry.0@ == self.key_at(index as int),
            self@.contains_pair(entry.0@, *entry.1),
    {
        proof {
            lemma_entries_map(self.entries@);
        }
        (&self.entries[index].0, &self.entries[index].1)
    }

    fn position(&self, key: &String) -> (position: Option<usize>)
        requires
            self.wf(),
        ensures
            match position {
                Some(at) => at < self.entries@.len() && self.entries@[at as int].0@ == key@
                    && self@.contains_pair(key@, self.entries@[at as int].1),
                None => !self@.contains_key(key@) && forall|i: int|
                    0 <= i < self.entries@.len() ==> (#[trigger] self.entries@[i]).0@ != key@,
            },
    {
        proof {
            lemma_entries_map(self.entries@);
        }
        let mut i: usize = 0;
        while i < self.entries.len()
            invariant
                i <= self.entries.len(),
                self.wf(),
                forall|j: int| 0 <= j < i ==> (#[trigger] self.entries@[j]).0@ != key@,
            decreases self.entries.len() - i,
        {
            if self.entries[i].0 == *key {
                proof {
                    lemma_entries_map(self.entries@);
                    assert(self@.contains_pair(self.entries@[i as int].0@, self.entries@[i as int].1));
                }
                return Some(i);
            }
            i = i + 1;
        }
        None
    }

    /// Whether `key` is mapped to anything.
    pub fn contains(&self, key: &String) -> (contains: bool)
        requires
            self.wf(),
        ensures
            contains == self@.contains_key(key@),
    {
        self.position(key).is_some()
    }

    /// What `key` is mapped to.
    pub fn get(&self, key: &String) -> (value: Option<&V>)
        requires
            self.wf(),
        ensures
            match value {
                Some(value) => self@.contains_pair(key@, *value),
                None => !self@.contains_key(key@),
            },
    {
        match self.position(key) {
            Some(at) => Some(&self.entries[at].1),
            None => None,
        }
    }

    /// What `key` is mapped to, to be changed in place.
    pub fn get_mut(&mut self, key: &String) -> (value: Option<&mut V>)
        requires
            old(self).wf(),
        ensures
            final(self).wf(),
            match value {
                Some(value) => {
                    &&& old(self)@.contains_pair(key@, *value)
                    &&& final(self)@ == old(self)@.insert(key@, *final(value))
                },
                None => !old(self)@.contains_key(key@) && final(self)@ == old(self)@,
            },
    {
        let ghost before = self.entries@;
        match self.position(key) {
            Some(at) => {
                proof {
                    assert forall|value: V|
                        #![trigger before.update(at as int, (before[at as int].0, value))]
                        distinct_keys(before.update(at as int, (before[at as int].0, value)))
                            && entries_map(
                            before.update(at as int, (before[at as int].0, value)),
                        ) == entries_map(before).insert(before[at as int].0@, value) by {
                        lemma_entries_map_update(before, at as int, value);
                    }
                }
                Some(&mut self.entries[at].1)
            },
            None => None,
        }
    }

    /// Maps `key` to `value`, in place of what it was mapped to before.
    pub fn insert(&mut self, key: String, value: V)
        requires
            old(self).wf(),
        ensures
            final(self).wf(),
            final(self)@ == old(self)@.insert(key@, value),
    {
        let ghost before = self.entries@;
        let ghost map = self@.insert(key@, value);
        proof {
            lemma_entries_map(before);
        }
        match self.position(&key) {
            Some(at) => {
                self.entries[at].1 = value;
                proof {
                    assert(self.entries@ =~= before.update(at as int, (before[at as int].0, value)));
                    lemma_entries_map_update(before, at as int, value);
                }
            },
            None => {
                self.entries.push((key, value));
                proof {
                    assert(self.entries@.drop_last() =~= before);
                }
            },
        }
    }

    /// Keeps the entries of the keys of `keys` and gives back the others, in their order.
    pub fn retain_keys(&mut self, keys: &Vec<String>) -> (removed: Vec<(String, V)>)
        requires
            old(self).wf(),
        ensures
            final(self).wf(),
            final(self)@ == kept_entries(old(self)@, keys@),
            forall|i: int| #![trigger removed@[i]]
                0 <= i < removed@.len() ==> old(self)@.contains_pair(removed@[i].0@, removed@[i].1)
                    && !holds_key(keys@, removed@[i].0@),
            forall|key: Seq<char>| #[trigger]
                old(self)@.contains_key(key) && !holds_key(keys@, key) ==> exists|i: int|
                    0 <= i < removed@.len() && (#[trigger] removed@[i]).0@ == key,
    {
        let ghost before = self.entries@;
        let ghost map = kept_entries(self@, keys@);
        let mut rest: Vec<(String, V)> = Vec::new();
        std::mem::swap(&mut rest, &mut self.entries);
        let mut removed: Vec<(String, V)> = Vec::new();
        let ghost mut kept_at: Seq<int> = seq![];
        let ghost mut removed_at: Seq<int> = seq![];
        let ghost mut done: int = 0;
        for entry in it: rest.into_iter()
            invariant
                it.seq() == before,
                done == it.index(),
                kept_at.len() == self.entries@.len(),
                removed_at.len() == removed@.len(),
                forall|i: int| 0 <= i < kept_at.len() ==> 0 <= #[trigger] kept_at[i] < done,
                forall|i: int, j: int| 0 <= i < j < kept_at.len() ==> kept_at[i] < kept_at[j],
                forall|i: int| 0 <= i < removed_at.len() ==> 0 <= #[trigger] removed_at[i] < done,
                forall|i: int| #![trigger self.entries@[i]] #![trigger kept_at[i]]
                    0 <= i < kept_at.len() ==> self.entries@[i] == before[kept_at[i]] && holds_key(
                        keys@,
                        before[kept_at[i]].0@,
                    ),
                forall|i: int| #![trigger removed@[i]] #![trigger removed_at[i]]
                    0 <= i < removed_at.len() ==> removed@[i] == before[removed_at[i]] && !holds_key(
                        keys@,
                        before[removed_at[i]].0@,
                    ),
                forall|j: int| #![trigger before[j]]
                    0 <= j < done ==> if holds_key(keys@, before[j].0@) {
                        kept_at.contains(j)
                    } else {
                        removed_at.contains(j)
                    },
        {
            let ghost kept_before = kept_at;
            let ghost removed_before = removed_at;
            assert(entry == before[done]);
            if contains_key(keys, &entry.0) {
                self.entries.push(entry);
                proof {
                    kept_at = kept_at.push(done);
                    assert(kept_at[kept_before.len() as int] == done);
                }
            } else {
                removed.push(entry);
                proof {
                    removed_at = removed_at.push(done);
                    assert(removed_at[removed_before.len() as int] == done);
                }
            }
            proof {
                assert forall|j: int| #![trigger before[j]]
                    0 <= j < done + 1 implies (if holds_key(keys@, before[j].0@) {
                    kept_at.contains(j)
                } else {
                    removed_at.contains(j)
                }) by {
                    if j < done {
                        if holds_key(keys@, before[j].0@) {
                            let i = kept_before.index_of(j);
                            assert(kept_at[i] == j);
                        } else {
                            let i = removed_before.index_of(j);
                            assert(removed_at[i] == j);
                        }
                    }
                }
                done = done + 1;
            }
        }
        proof {
            let after = self.entries@;
            lemma_entries_map(before);
            assert forall|i: int, j: int| 0 <= i < j < after.len() implies (#[trigger] after[i]).0@ != (
            #[trigger] after[j]).0@ by {
                assert(kept_at[i] < kept_at[j]);
            }
            assert forall|i: int| #![trigger after[i]] 0 <= i < after.len() implies map.contains_pair(
                after[i].0@,
                after[i].1,
            ) by {
                let j = kept_at[i];
                assert(entries_map(before).contains_pair(before[j].0@, before[j].1));
            }
            assert forall|k: Seq<char>| #[trigger] map.contains_key(k) implies exists|i: int|
                0 <= i < after.len() && (#[trigger] after[i]).0@ == k by {
                let j = choose|j: int| 0 <= j < before.len() && (#[trigger] before[j]).0@ == k;
                let i = kept_at.index_of(j);
                assert(after[i] == before[j]);
            }
            lemma_entries_map_is(after, map);
            assert forall|i: int| #![trigger removed@[i]] 0 <= i < removed@.len() implies old(
                self,
            )@.contains_pair(removed@[i].0@, removed@[i].1) by {
                let j = removed_at[i];
                assert(entries_map(before).contains_pair(before[j].0@, before[j].1));
            }
            assert forall|k: Seq<char>| #[trigger]
                old(self)@.contains_key(k) && !holds_key(keys@, k) implies exists|i: int|
                0 <= i < removed@.len() && (#[trigger] removed@[i]).0@ == k by {
                let j = choose|j: int| 0 <= j < before.len() && (#[trigger] before[j]).0@ == k;
                let i = removed_at.index_of(j);
                assert(removed@[i] == before[j]);
            }
        }
        removed
    }
}

/// To keep the entries of some keys leaves each of them as it is, and drops all others.
pub proof fn kept_entries_are_those_of_keys<V>(
    map: Map<Seq<char>, V>,
    keys: Seq<String>,
    key: Seq<char>,
)
    ensures
        kept_entries(map, keys).dom().contains(key) <==> map.dom().contains(key) && exists|i: int|
            0 <= i < keys.len() && (#[trigger] keys[i])@ == key,
        kept_entries(map, keys).dom().contains(key) ==> kept_entries(map, keys)[key] == map[key],
{
}

} // verus!
