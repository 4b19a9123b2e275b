//! Association lists with pairwise-distinct keys, viewed as finite maps.
//!
//! `IdMap` keys by entity id; `StrMap` keys by name (viewed as a character
//! sequence). Both keep their entries in insertion order, which the spawner
//! relies on when it walks a spawn table.

use vstd::prelude::*;

verus! {

/// The finite map an entry sequence denotes; a later entry for the same key
/// wins.
pub open spec fn map_of<K, V>(s: Seq<(K, V)>) -> Map<K, V>
    decreases s.len(),
{
    if s.len() == 0 {
        Map::empty()
    } else {
        map_of(s.drop_last()).insert(s.last().0, s.last().1)
    }
}

pub open spec fn unique_keys<K, V>(s: Seq<(K, V)>) -> bool {
    forall|i: int, j: int|
        0 <= i < s.len() && 0 <= j < s.len() && i != j ==> s[i].0 != s[j].0
}

pub proof fn lemma_map_of_contains<K, V>(s: Seq<(K, V)>, k: K)
    ensures
        map_of(s).contains_key(k) <==> exists|i: int| 0 <= i < s.len() && s[i].0 == k,
    decreases s.len(),
{
    if s.len() > 0 {
        lemma_map_of_contains(s.drop_last(), k);
        if map_of(s).contains_key(k) {
            if s.last().0 == k {
                assert(s[s.len() - 1].0 == k);
            } else {
                let i = choose|i: int| 0 <= i < s.drop_last().len() && s.drop_last()[i].0 == k;
                assert(s[i].0 == k);
            }
        }
        if exists|i: int| 0 <= i < s.len() && s[i].0 == k {
            let i = choose|i: int| 0 <= i < s.len() && s[i].0 == k;
            if i < s.len() - 1 {
                assert(s.drop_last()[i].0 == k);
            }
        }
    }
}

pub proof fn lemma_map_of_index<K, V>(s: Seq<(K, V)>, i: int)
    requires
        unique_keys(s),
        0 <= i < s.len(),
    ensures
        map_of(s).contains_key(s[i].0),
        map_of(s)[s[i].0] == s[i].1,
    decreases s.len(),
{
    if i == s.len() - 1 {
        lemma_map_of_contains(s, s[i].0);
    } else {
        assert(unique_keys(s.drop_last()));
        assert(s.drop_last()[i] == s[i]);
        lemma_map_of_index(s.drop_last(), i);
        assert(s.last().0 != s[i].0);
    }
}

pub proof fn lemma_map_of_push<K, V>(s: Seq<(K, V)>, k: K, v: V)
    requires
        forall|i: int| 0 <= i < s.len() ==> s[i].0 != k,
    ensures
        map_of(s.push((k, v))) == map_of(s).insert(k, v),
{
    assert(s.push((k, v)).drop_last() =~= s);
}

pub proof fn lemma_map_of_update<K, V>(s: Seq<(K, V)>, i: int, v: V)
    requires
        unique_keys(s),
        0 <= i < s.len(),
    ensures
        map_of(s.update(i, (s[i].0, v))) == map_of(s).insert(s[i].0, v),
{
    let k = s[i].0;
    let t = s.update(i, (k, v));
    assert(unique_keys(t));
    assert forall|k2: K| #[trigger] map_of(t).contains_key(k2)
        <==> map_of(s).insert(k, v).contains_key(k2) by {
        lemma_map_of_contains(t, k2);
        lemma_map_of_contains(s, k2);
        if exists|j: int| 0 <= j < t.len() && t[j].0 == k2 {
            let j = choose|j: int| 0 <= j < t.len() && t[j].0 == k2;
            assert(s[j].0 == k2);
        }
        if exists|j: int| 0 <= j < s.len() && s[j].0 == k2 {
            let j = choose|j: int| 0 <= j < s.len() && s[j].0 == k2;
            assert(t[j].0 == k2);
        }
    }
    assert forall|k2: K| #[trigger] map_of(t).contains_key(k2) implies map_of(t)[k2] == map_of(
        s,
    ).insert(k, v)[k2] by {
        lemma_map_of_contains(t, k2);
        let j = choose|j: int| 0 <= j < t.len() && t[j].0 == k2;
        lemma_map_of_index(t, j);
        if k2 == k {
            assert(t[i].0 == k);
            assert(j == i);
        } else {
            assert(j != i);
            lemma_map_of_index(s, j);
        }
    }
    assert(map_of(t) =~= map_of(s).insert(k, v));
}

/// A map from entity id to `V`, as an entry list with distinct ids.
pub struct IdMap<V> {
    pub entries: Vec<(u128, V)>,
}

impl<V> View for IdMap<V> {
    type V = Map<u128, V>;

    open spec fn view(&self) -> Map<u128, V> {
        map_of(self.entries@)
    }
}

impl<V> IdMap<V> {
    pub open spec fn wf(&self) -> bool {
        unique_keys(self.entries@)
    }

    pub fn new() -> (r: Self)
        ensures
            r@ == Map::<u128, V>::empty(),
            r.wf(),
    {
        IdMap { entries: Vec::new() }
    }

    pub fn clear(&mut self)
        ensures
            final(self)@ == Map::<u128, V>::empty(),
            final(self).wf(),
    {
        self.entries.clear();
    }

    pub fn is_empty(&self) -> (r: bool)
        ensures
            r <==> self@ == Map::<u128, V>::empty(),
    {
        proof {
            if self.entries@.len() > 0 {
                lemma_map_of_contains(self.entries@, self.entries@.last().0);
                assert(self@.contains_key(self.entries@.last().0));
                assert(!Map::<u128, V>::empty().contains_key(self.entries@.last().0));
            }
        }
        self.entries.is_empty()
    }

    #[verifier::loop_isolation(false)]
    pub fn contains_key(&self, key: u128) -> (r: bool)
        ensures
            r == self@.contains_key(key),
    {
        proof {
            lemma_map_of_contains(self.entries@, key);
        }
        let mut i: usize = 0;
        while i < self.entries.len()
            invariant
                i <= self.entries@.len(),
                forall|j: int| 0 <= j < i ==> self.entries@[j].0 != key,
            decreases self.entries@.len() - i,
        {
            if self.entries[i].0 == key {
                return true;
            }
            i += 1;
        }
        false
    }

    #[verifier::loop_isolation(false)]
    pub fn get(&self, key: u128) -> (r: Option<&V>)
        requires
            self.wf(),
        ensures
            match r {
                Some(v) => self@.contains_key(key) && *v == self@[key],
                None => !self@.contains_key(key),
            },
    {
        proof {
            lemma_map_of_contains(self.entries@, key);
        }
        let mut i: usize = 0;
        while i < self.entries.len()
            invariant
                i <= self.entries@.len(),
                forall|j: int| 0 <= j < i ==> self.entries@[j].0 != key,
            decreases self.entries@.len() - i,
        {
            if self.entries[i].0 == key {
                proof {
                    lemma_map_of_index(self.entries@, i as int);
                }
                return Some(&self.entries[i].1);
            }
            i += 1;
        }
        None
    }

    #[verifier::loop_isolation(false)]
    pub fn insert(&mut self, key: u128, value: V)
        requires
            old(self).wf(),
        ensures
            final(self)@ == old(self)@.insert(key, value),
            final(self).wf(),
    {
        let ghost s0 = self.entries@;
        let mut i: usize = 0;
        while i < self.entries.len()
            invariant
                i <= s0.len(),
                self.entries@ == s0,
                forall|j: int| 0 <= j < i ==> s0[j].0 != key,
            decreases s0.len() - i,
        {
            if self.entries[i].0 == key {
                self.entries[i] = (key, value);
                proof {
                    assert(self.entries@ =~= s0.update(i as int, (s0[i as int].0, value)));
                    lemma_map_of_update(s0, i as int, value);
                }
                return ;
            }
            i += 1;
        }
        self.entries.push((key, value));
        proof {
            lemma_map_of_push(s0, key, value);
        }
    }

    /// How many pairings are recorded.
    pub fn len(&self) -> (r: usize)
        ensures
            r == self.entries@.len(),
    {
        self.entries.len()
    }

    /// Read one recorded entry, for callers that walk the map.
    pub fn entry_at(&self, i: usize) -> (r: &(u128, V))
        requires
            i < self.entries@.len(),
        ensures
            *r == self.entries@[i as int],
            self.wf() ==> self@.contains_key(r.0) && self@[r.0] == r.1,
    {
        proof {
            if self.wf() {
                lemma_map_of_index(self.entries@, i as int);
            }
        }
        &self.entries[i]
    }
}

/// A map from name to `V`, keyed by the name's characters.
pub struct StrMap<V> {
    pub entries: Vec<(String, V)>,
}

/// The keys of `s`, as character sequences, paired with the values.
pub open spec fn str_entries<V>(s: Seq<(String, V)>) -> Seq<(Seq<char>, V)> {
    s.map_values(|p: (String, V)| (p.0@, p.1))
}

impl<V> View for StrMap<V> {
    type V = Map<Seq<char>, V>;

    open spec fn view(&self) -> Map<Seq<char>, V> {
        map_of(str_entries(self.entries@))
    }
}

impl<V> StrMap<V> {
    pub open spec fn wf(&self) -> bool {
        unique_keys(str_entries(self.entries@))
    }

    pub fn new() -> (r: Self)
        ensures
            r@ == Map::<Seq<char>, V>::empty(),
            r.wf(),
            r.entries@.len() == 0,
    {
        let r = StrMap { entries: Vec::new() };
        proof {
            assert(str_entries(r.entries@) =~= Seq::<(Seq<char>, V)>::empty());
        }
        r
    }

    #[verifier::loop_isolation(false)]
    pub fn contains_key(&self, key: &String) -> (r: bool)
        ensures
            r == self@.contains_key(key@),
    {
        proof {
            lemma_map_of_contains(str_entries(self.entries@), key@);
        }
        let mut i: usize = 0;
        while i < self.entries.len()
            invariant
                i <= self.entries@.len(),
                forall|j: int| 0 <= j < i ==> str_entries(self.entries@)[j].0 != key@,
            decreases self.entries@.len() - i,
        {
            if (&self.entries[i].0).eq(key) {
                assert(str_entries(self.entries@)[i as int].0 == key@);
                return true;
            }
            i += 1;
        }
        false
    }

    #[verifier::loop_isolation(false)]
    pub fn get(&self, key: &String) -> (r: Option<&V>)
        requires
            self.wf(),
        ensures
            match r {
                Some(v) => self@.contains_key(key@) && *v == self@[key@],
                None => !self@.contains_key(key@),
            },
    {
        proof {
            lemma_map_of_contains(str_entries(self.entries@), key@);
        }
        let mut i: usize = 0;
        while i < self.entries.len()
            invariant
                i <= self.entries@.len(),
                forall|j: int| 0 <= j < i ==> str_entries(self.entries@)[j].0 != key@,
            decreases self.entries@.len() - i,
        {
            if (&self.entries[i].0).eq(key) {
                proof {
                    assert(str_entries(self.entries@)[i as int].0 == key@);
                    lemma_map_of_index(str_entries(self.entries@), i as int);
                }
                return Some(&self.entries[i].1);
            }
            i += 1;
        }
        None
    }

    #[verifier::loop_isolation(false)]
    pub fn insert(&mut self, key: String, value: V)
        requires
            old(self).wf(),
        ensures
            final(self)@ == old(self)@.insert(key@, value),
            final(self).wf(),
            final(self).entries@.len() <= old(self).entries@.len() + 1,
    {
        let ghost s0 = str_entries(self.entries@);
        let ghost e0 = self.entries@;
        let mut i: usize = 0;
        while i < self.entries.len()
            invariant
                i <= e0.len(),
                self.entries@ == e0,
                forall|j: int| 0 <= j < i ==> str_entries(e0)[j].0 != key@,
            decreases e0.len() - i,
        {
            if (&self.entries[i].0).eq(&key) {
                proof {
                    assert(str_entries(e0)[i as int].0 == key@);
                }
                self.entries[i] = (key, value);
                proof {
                    assert(str_entries(self.entries@) =~= s0.update(
                        i as int,
                        (s0[i as int].0, value),
                    ));
                    lemma_map_of_update(s0, i as int, value);
                }
                return ;
            }
            i += 1;
        }
        self.entries.push((key, value));
        proof {
            assert(str_entries(self.entries@) =~= s0.push((key@, value)));
            lemma_map_of_push(s0, key@, value);
        }
    }

    pub fn len(&self) -> (r: usize)
        ensures
            r == self.entries@.len(),
    {
        self.entries.len()
    }

    /// Read one entry, in insertion order.
    pub fn entry_at(&self, i: usize) -> (r: &(String, V))
        requires
            i < self.entries@.len(),
        ensures
            *r == self.entries@[i as int],
            self.wf() ==> self@.contains_key(r.0@) && self@[r.0@] == r.1,
    {
        proof {
            if self.wf() {
                assert(str_entries(self.entries@)[i as int].0 == self.entries@[i as int].0@);
                lemma_map_of_index(str_entries(self.entries@), i as int);
            }
        }
        &self.entries[i]
    }
}

} // verus!
