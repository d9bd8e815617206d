//! A hash map in which a key may stand for another key: looking a key up follows its
//! aliases to a value, and finds nothing where they run in a circle.

use vstd::prelude::*;
use std::collections::{HashMap, HashSet};
use vstd::std_specs::hash::spec_hash_map_iter;
use vstd::std_specs::iter::IteratorSpec;

verus! {

broadcast use vstd::std_specs::hash::group_hash_axioms;

/// What a key of an `AliasHashMap` holds: another key that it stands for, or a value.
pub enum AliasEntry<V> {
    Alias(u64),
    Value(V),
}

/// `path` starts at `key`, holds no key twice, each of its keys but the last is an alias of
/// the next, and the last holds `value`.
pub open spec fn resolves_along<V>(m: Map<u64, AliasEntry<V>>, key: u64, path: Seq<u64>, value: V) -> bool {
    &&& path.len() > 0
    &&& path[0] == key
    &&& path.no_duplicates()
    &&& forall|t: int| 0 <= t < path.len() ==> m.contains_key(#[trigger] path[t])
    &&& forall|t: int| 0 <= t < path.len() - 1 ==> m[#[trigger] path[t]] == AliasEntry::<V>::Alias(path[t + 1])
    &&& m[path.last()] == AliasEntry::Value(value)
}

/// Following the aliases from `key`, without coming back to a key, leads to `value`.
pub open spec fn resolves_to<V>(m: Map<u64, AliasEntry<V>>, key: u64, value: V) -> bool {
    exists|path: Seq<u64>| #[trigger] resolves_along(m, key, path, value)
}

/// Two paths from the same key that follow the aliases agree as far as both go.
proof fn lemma_paths_agree<V>(m: Map<u64, AliasEntry<V>>, key: u64, path: Seq<u64>, value: V, walk: Seq<u64>, next: u64)
    requires
        resolves_along(m, key, path, value),
        walk.len() > 0,
        walk[0] == key,
        forall|t: int| 0 <= t < walk.len() ==> m.contains_key(#[trigger] walk[t]),
        forall|t: int| 0 <= t < walk.len() - 1 ==> m[#[trigger] walk[t]] == AliasEntry::<V>::Alias(walk[t + 1]),
        m[walk.last()] == AliasEntry::<V>::Alias(next),
    ensures
        path.len() > walk.len(),
        forall|t: int| 0 <= t < walk.len() ==> #[trigger] path[t] == walk[t],
        path[walk.len() as int] == next,
    decreases walk.len(),
{
    if walk.len() > 1 {
        let shorter = walk.drop_last();
        assert forall|t: int| 0 <= t < shorter.len() - 1 implies m[#[trigger] shorter[t]] == AliasEntry::<V>::Alias(
            shorter[t + 1],
        ) by {
            assert(shorter[t] == walk[t] && shorter[t + 1] == walk[t + 1]);
        }
        assert(m[shorter.last()] == AliasEntry::<V>::Alias(walk.last())) by {
            assert(shorter.last() == walk[walk.len() - 2]);
        }
        lemma_paths_agree(m, key, path, value, shorter, walk.last());
        assert forall|t: int| 0 <= t < walk.len() implies #[trigger] path[t] == walk[t] by {
            if t < shorter.len() {
                assert(shorter[t] == walk[t]);
            }
        }
    }
    let n = walk.len() - 1;
    assert(path[n] == walk[n]);
    if n == path.len() - 1 {
        assert(m[path.last()] == AliasEntry::<V>::Value(value));
    }
    assert(m[path[n]] == AliasEntry::<V>::Alias(path[n + 1]));
}

/// A key leads to at most one value.
pub proof fn lemma_resolves_to_unique<V>(m: Map<u64, AliasEntry<V>>, key: u64, v1: V, v2: V)
    requires
        resolves_to(m, key, v1),
        resolves_to(m, key, v2),
    ensures
        v1 == v2,
{
    let p1 = choose|path: Seq<u64>| #[trigger] resolves_along(m, key, path, v1);
    let p2 = choose|path: Seq<u64>| #[trigger] resolves_along(m, key, path, v2);
    lemma_resolving_paths_equal(m, key, p1, v1, p2, v2);
}

proof fn lemma_resolving_paths_equal<V>(m: Map<u64, AliasEntry<V>>, key: u64, p1: Seq<u64>, v1: V, p2: Seq<u64>, v2: V)
    requires
        resolves_along(m, key, p1, v1),
        resolves_along(m, key, p2, v2),
    ensures
        p1.len() == p2.len(),
        p1.last() == p2.last(),
        v1 == v2,
{
    if p1.len() < p2.len() {
        let walk = p2.take(p1.len() as int);
        assert(m[walk.last()] == AliasEntry::<V>::Alias(p2[p1.len() as int]));
        lemma_paths_agree(m, key, p1, v1, walk, p2[p1.len() as int]);
    } else if p2.len() < p1.len() {
        let walk = p1.take(p2.len() as int);
        assert(m[walk.last()] == AliasEntry::<V>::Alias(p1[p2.len() as int]));
        lemma_paths_agree(m, key, p2, v2, walk, p1[p2.len() as int]);
    } else if p1.len() > 1 {
        let walk = p2.take(p2.len() - 1);
        assert(m[walk.last()] == AliasEntry::<V>::Alias(p2[p2.len() - 1]));
        lemma_paths_agree(m, key, p1, v1, walk, p2[p2.len() - 1]);
    }
}

/// After a value is put at a key, the key leads to that value.
pub proof fn lemma_insert_then_get<V>(m: Map<u64, AliasEntry<V>>, key: u64, value: V)
    ensures
        resolves_to(m.insert(key, AliasEntry::Value(value)), key, value),
{
    let path = seq![key];
    assert(resolves_along(m.insert(key, AliasEntry::Value(value)), key, path, value));
}

/// After `from` is made an alias of another key `to`, both lead to the same values.
pub proof fn lemma_alias_leads_where_target_leads<V>(m: Map<u64, AliasEntry<V>>, from: u64, to: u64, value: V)
    requires
        from != to,
    ensures
        resolves_to(m.insert(from, AliasEntry::Alias(to)), from, value) <==> resolves_to(
            m.insert(from, AliasEntry::Alias(to)),
            to,
            value,
        ),
{
    let n = m.insert(from, AliasEntry::<V>::Alias(to));
    if resolves_to(n, from, value) {
        let path = choose|path: Seq<u64>| #[trigger] resolves_along(n, from, path, value);
        assert(path.len() > 1);
        assert(n[path[0]] == AliasEntry::<V>::Alias(path[1]));
        let rest = path.drop_first();
        assert forall|t: int| 0 <= t < rest.len() - 1 implies n[#[trigger] rest[t]] == AliasEntry::<V>::Alias(
            rest[t + 1],
        ) by {
            assert(rest[t] == path[t + 1] && rest[t + 1] == path[t + 2]);
        }
        assert forall|t: int| 0 <= t < rest.len() implies n.contains_key(#[trigger] rest[t]) by {
            assert(rest[t] == path[t + 1]);
        }
        assert(rest.last() == path.last());
        assert(resolves_along(n, to, rest, value));
    }
    if resolves_to(n, to, value) {
        let path = choose|path: Seq<u64>| #[trigger] resolves_along(n, to, path, value);
        assert(!path.contains(from)) by {
            if path.contains(from) {
                let j = choose|j: int| 0 <= j < path.len() && path[j] == from;
                if j == path.len() - 1 {
                    assert(n[path.last()] == AliasEntry::<V>::Value(value));
                } else {
                    assert(n[path[j]] == AliasEntry::<V>::Alias(path[j + 1]));
                    assert(path[j + 1] == path[0]);
                }
            }
        }
        let longer = seq![from] + path;
        assert forall|a: int, b: int| 0 <= a < b < longer.len() implies longer[a] != longer[b] by {
            if a == 0 {
                assert(longer[b] == path[b - 1]);
            } else {
                assert(longer[a] == path[a - 1] && longer[b] == path[b - 1]);
            }
        }
        assert forall|t: int| 0 <= t < longer.len() - 1 implies n[#[trigger] longer[t]] == AliasEntry::<V>::Alias(
            longer[t + 1],
        ) by {
            if t > 0 {
                assert(longer[t] == path[t - 1] && longer[t + 1] == path[t]);
            }
        }
        assert forall|t: int| 0 <= t < longer.len() implies n.contains_key(#[trigger] longer[t]) by {
            if t > 0 {
                assert(longer[t] == path[t - 1]);
            }
        }
        assert(longer.last() == path.last());
        assert(resolves_along(n, from, longer, value));
    }
}

/// Some key holds `value`.
pub open spec fn holds_value<V>(m: Map<u64, AliasEntry<V>>, value: V) -> bool {
    exists|k: u64| m.contains_key(k) && m[k] == AliasEntry::Value(value)
}

/// `value` is among `values`.
pub open spec fn lists_value<V>(values: Seq<&V>, value: V) -> bool {
    exists|i: int| 0 <= i < values.len() && *values[i] == value
}

/// A map from `u64` keys to values, in which a key may instead be an alias of another key.
pub struct AliasHashMap<V> {
    hash_map: HashMap<u64, AliasEntry<V>>,
}

impl<V> Default for AliasHashMap<V> {
    fn default() -> (res: Self)
        ensures
            res@ == Map::<u64, AliasEntry<V>>::empty(),
    {
        AliasHashMap::new()
    }
}

impl<V> AliasHashMap<V> {
    /// What each key holds.
    pub closed spec fn view(&self) -> Map<u64, AliasEntry<V>> {
        self.hash_map@
    }

    pub fn new() -> (res: Self)
        ensures
            res@ == Map::<u64, AliasEntry<V>>::empty(),
    {
        AliasHashMap { hash_map: HashMap::new() }
    }

    /// Puts `value` at `key`, in place of what `key` held.
    pub fn insert(&mut self, key: u64, value: V)
        ensures
            final(self)@ == old(self)@.insert(key, AliasEntry::Value(value)),
    {
        self.hash_map.insert(key, AliasEntry::Value(value));
    }

    /// Makes `from_key` an alias of `to_key`, in place of what `from_key` held.
    pub fn insert_alias(&mut self, from_key: u64, to_key: u64)
        ensures
            final(self)@ == old(self)@.insert(from_key, AliasEntry::Alias(to_key)),
    {
        self.hash_map.insert(from_key, AliasEntry::Alias(to_key));
    }

    /// The values held: each is held by some key, and each value that a key holds is among
    /// them.
    pub fn values(&self) -> (res: Vec<&V>)
        ensures
            forall|i: int| 0 <= i < res.len() ==> holds_value(self@, *#[trigger] res[i]),
            forall|k: u64|
                #![trigger self@[k]]
                self@.contains_key(k) && self@[k] is Value ==> lists_value(res@, self@[k]->Value_0),
    {
        let mut res: Vec<&V> = Vec::new();
        let iter = self.hash_map.iter();
        proof {
            assert(iter.remaining() == spec_hash_map_iter(&self.hash_map).remaining());
        }
        for pair in it: iter
            invariant
                it.seq() == spec_hash_map_iter(&self.hash_map).remaining(),
                forall|i: int| 0 <= i < res.len() ==> holds_value(self@, *#[trigger] res[i]),
                forall|j: int|
                    0 <= j < it.index() && (#[trigger] it.seq()[j]).1 is Value ==> lists_value(res@, it.seq()[j].1->Value_0),
        {
            let (_, entry) = pair;
            let ghost before = res@;
            let ghost index = it.index();
            proof {
                let v = spec_hash_map_iter(&self.hash_map).remaining();
                assert(pair == it.seq()[index as int]);
                assert(self@.contains_key(*v[index as int].0) && self@[*v[index as int].0] == *v[index as int].1);
            }
            match entry {
                AliasEntry::Value(value) => {
                    res.push(value);
                },
                AliasEntry::Alias(_) => {},
            }
            proof {
                assert forall|i: int| 0 <= i < res.len() implies holds_value(self@, *#[trigger] res[i]) by {
                    if i < before.len() {
                        assert(res@[i] == before[i]);
                    } else {
                        assert(self@.contains_key(*pair.0) && self@[*pair.0] == AliasEntry::Value(*res[i]));
                    }
                }
                assert forall|j: int|
                    0 <= j <= index && (#[trigger] it.seq()[j]).1 is Value implies lists_value(
                    res@,
                    it.seq()[j].1->Value_0,
                ) by {
                    if j < index {
                        let i = choose|i: int| 0 <= i < before.len() && *before[i] == it.seq()[j].1->Value_0;
                        assert(res@[i] == before[i]);
                    } else {
                        assert(*res@[before.len() as int] == it.seq()[j].1->Value_0);
                    }
                }
            }
        }
        res
    }

    /// The value that `key` leads to through its aliases; none when a key on the way is
    /// missing or the aliases come back to a key already passed.
    pub fn get(&self, key: &u64) -> (res: Option<&V>)
        ensures
            match res {
                Some(value) => resolves_to(self@, *key, *value),
                None => forall|value: V| !resolves_to(self@, *key, value),
            },
    {
        let m = Ghost(self@);
        let mut seen: HashSet<u64> = HashSet::new();
        let mut current = *key;
        let ghost mut walk: Seq<u64> = Seq::empty();
        loop
            invariant
                m@ == self@,
                seen@ == walk.to_set(),
                walk.no_duplicates(),
                walk.len() == 0 ==> current == *key,
                walk.len() > 0 ==> {
                    &&& walk[0] == *key
                    &&& forall|t: int| 0 <= t < walk.len() ==> m@.contains_key(#[trigger] walk[t])
                    &&& forall|t: int|
                        0 <= t < walk.len() - 1 ==> m@[#[trigger] walk[t]] == AliasEntry::<V>::Alias(walk[t + 1])
                    &&& m@[walk.last()] == AliasEntry::<V>::Alias(current)
                },
            decreases m@.dom().len() - walk.len(),
        {
            let entry = match self.hash_map.get(&current) {
                Some(entry) => entry,
                None => {
                    proof {
                        assert forall|value: V| !resolves_to(m@, *key, value) by {
                            if resolves_to(m@, *key, value) {
                                let path = choose|path: Seq<u64>| #[trigger] resolves_along(m@, *key, path, value);
                                if walk.len() > 0 {
                                    lemma_paths_agree(m@, *key, path, value, walk, current);
                                    assert(m@.contains_key(path[walk.len() as int]));
                                } else {
                                    assert(m@.contains_key(path[0]));
                                }
                            }
                        }
                    }
                    return None;
                },
            };
            if !seen.insert(current) {
                proof {
                    assert forall|value: V| !resolves_to(m@, *key, value) by {
                        if resolves_to(m@, *key, value) {
                            let path = choose|path: Seq<u64>| #[trigger] resolves_along(m@, *key, path, value);
                            lemma_paths_agree(m@, *key, path, value, walk, current);
                            let j = choose|j: int| 0 <= j < walk.len() && walk[j] == current;
                            assert(path[j] == path[walk.len() as int]);
                        }
                    }
                }
                return None;
            }
            proof {
                let longer = walk.push(current);
                assert(!walk.contains(current));
                assert(longer.no_duplicates()) by {
                    assert forall|a: int, b: int| 0 <= a < b < longer.len() implies longer[a] != longer[b] by {
                        if b == walk.len() {
                            assert(longer[a] == walk[a]);
                        } else {
                            assert(longer[a] == walk[a] && longer[b] == walk[b]);
                        }
                    }
                }
                assert(longer.to_set().subset_of(m@.dom())) by {
                    assert forall|k: u64| longer.to_set().contains(k) implies m@.dom().contains(k) by {
                        let t = choose|t: int| 0 <= t < longer.len() && longer[t] == k;
                        if t < walk.len() {
                            assert(longer[t] == walk[t]);
                        }
                    }
                }
                longer.unique_seq_to_set();
                vstd::set_lib::lemma_len_subset(longer.to_set(), m@.dom());
            }
            match entry {
                AliasEntry::Alias(next) => {
                    proof {
                        let shorter = walk;
                        walk = walk.push(current);
                        assert forall|t: int| 0 <= t < walk.len() implies m@.contains_key(#[trigger] walk[t]) by {
                            if t < shorter.len() {
                                assert(walk[t] == shorter[t]);
                            }
                        }
                        assert forall|t: int| 0 <= t < walk.len() - 1 implies m@[#[trigger] walk[t]]
                            == AliasEntry::<V>::Alias(walk[t + 1]) by {
                            assert(walk[t] == shorter[t]);
                            if t + 1 < shorter.len() {
                                assert(walk[t + 1] == shorter[t + 1]);
                            }
                        }
                        assert forall|k: u64| #[trigger] walk.to_set().contains(k) == shorter.to_set().insert(
                            current,
                        ).contains(k) by {
                            if walk.to_set().contains(k) {
                                let t = choose|t: int| 0 <= t < walk.len() && walk[t] == k;
                                if t < shorter.len() {
                                    assert(walk[t] == shorter[t]);
                                }
                            }
                            if shorter.to_set().contains(k) {
                                let t = choose|t: int| 0 <= t < shorter.len() && shorter[t] == k;
                                assert(walk[t] == shorter[t]);
                            }
                            if k == current {
                                assert(walk[shorter.len() as int] == current);
                            }
                        }
                        assert(walk.to_set() =~= shorter.to_set().insert(current));
                    }
                    current = *next;
                },
                AliasEntry::Value(value) => {
                    proof {
                        let path = walk.push(current);
                        assert(resolves_along(m@, *key, path, *value));
                    }
                    return Some(value);
                },
            }
        }
    }
}

} // verus!
