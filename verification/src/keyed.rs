//! A finite map kept as a vector of entries with distinct keys.

use vstd::prelude::*;

verus! {

/// Keys whose equality can be decided in executable code.
pub trait MapKey: Copy + Sized {
    fn same_key(&self, other: &Self) -> (r: bool)
        ensures
            r == (*self == *other),
    ;
}

impl MapKey for u128 {
    fn same_key(&self, other: &Self) -> (r: bool) {
        *self == *other
    }
}

/// The key under which the caches and the registry file a user: the
/// organization and the user within it.
#[derive(Clone, Copy, Debug, PartialEq, Eq, Structural)]
pub struct UserKey {
    pub organization_id: u128,
    pub user_id: u128,
}

impl MapKey for UserKey {
    fn same_key(&self, other: &Self) -> (r: bool) {
        self.organization_id == other.organization_id && self.user_id == other.user_id
    }
}

pub open spec fn keys_distinct<K, V>(s: Seq<(K, V)>) -> bool {
    forall|i: int, j: int|
        0 <= i < s.len() && 0 <= j < s.len() && i != j ==> #[trigger] s[i].0 != #[trigger] s[j].0
}

pub open spec fn entries_view<K, V: View>(s: Seq<(K, V)>) -> Map<K, V::V>
    decreases s.len(),
{
    if s.len() == 0 {
        Map::empty()
    } else {
        entries_view(s.drop_last()).insert(s.last().0, s.last().1@)
    }
}

pub proof fn lemma_entries_view<K, V: View>(s: Seq<(K, V)>)
    requires
        keys_distinct(s),
    ensures
        forall|k: K| #[trigger] entries_view(s).contains_key(k) <==> exists|i: int| 0 <= i < s.len() && s[i].0 == k,
        forall|i: int| 0 <= i < s.len() ==> #[trigger] entries_view(s)[s[i].0] == s[i].1@,
        entries_view(s).dom().finite(),
        entries_view(s).len() == s.len(),
    decreases s.len(),
{
    if s.len() > 0 {
        let p = s.drop_last();
        assert(keys_distinct(p));
        lemma_entries_view(p);
        let m = entries_view(s);
        assert forall|k: K| #[trigger] m.contains_key(k) <==> exists|i: int| 0 <= i < s.len() && s[i].0 == k by {
            if m.contains_key(k) && k != s.last().0 {
                let i = choose|i: int| 0 <= i < p.len() && p[i].0 == k;
                assert(s[i].0 == k);
            }
            if exists|i: int| 0 <= i < s.len() && s[i].0 == k {
                let i = choose|i: int| 0 <= i < s.len() && s[i].0 == k;
                if i < p.len() {
                    assert(p[i].0 == k);
                }
            }
        }
        assert forall|i: int| 0 <= i < s.len() implies #[trigger] m[s[i].0] == s[i].1@ by {
            if i < p.len() {
                assert(p[i].0 == s[i].0);
                assert(s[i].0 != s.last().0);
            }
        }
        assert(!entries_view(p).contains_key(s.last().0)) by {
            if entries_view(p).contains_key(s.last().0) {
                let i = choose|i: int| 0 <= i < p.len() && p[i].0 == s.last().0;
                assert(s[i].0 == s[s.len() - 1].0);
            }
        }
    }
}

proof fn lemma_distinct_update<K, V>(s: Seq<(K, V)>, i: int, e: (K, V))
    requires
        keys_distinct(s),
        0 <= i < s.len(),
        e.0 == s[i].0,
    ensures
        keys_distinct(s.update(i, e)),
{
    let t = s.update(i, e);
    assert forall|a: int, b: int| 0 <= a < t.len() && 0 <= b < t.len() && a != b
        implies #[trigger] t[a].0 != #[trigger] t[b].0 by {
        assert(s[a].0 != s[b].0);
    }
}

proof fn lemma_distinct_remove<K, V>(s: Seq<(K, V)>, i: int)
    requires
        keys_distinct(s),
        0 <= i < s.len(),
    ensures
        keys_distinct(s.remove(i)),
{
    let t = s.remove(i);
    assert forall|a: int, b: int| 0 <= a < t.len() && 0 <= b < t.len() && a != b
        implies #[trigger] t[a].0 != #[trigger] t[b].0 by {
        let a2 = if a < i { a } else { a + 1 };
        let b2 = if b < i { b } else { b + 1 };
        assert(t[a] == s[a2]);
        assert(t[b] == s[b2]);
        assert(s[a2].0 != s[b2].0);
    }
}

/// A map from keys to values whose entries are held in a vector; no key
/// occurs in two entries.
pub struct KeyedMap<K: MapKey, V: View> {
    entries: Vec<(K, V)>,
}

impl<K: MapKey, V: View> View for KeyedMap<K, V> {
    type V = Map<K, V::V>;

    closed spec fn view(&self) -> Map<K, V::V> {
        entries_view(self.entries@)
    }
}

impl<K: MapKey, V: View> KeyedMap<K, V> {
    #[verifier::type_invariant]
    closed spec fn inv(self) -> bool {
        keys_distinct(self.entries@)
    }

    /// The keys in the order in which the map holds its entries.
    pub closed spec fn key_seq(self) -> Seq<K> {
        self.entries@.map_values(|e: (K, V)| e.0)
    }

    pub fn new() -> (m: Self)
        ensures
            m@ == Map::<K, V::V>::empty(),
    {
        KeyedMap { entries: Vec::new() }
    }

    /// The number of keys. Every key occurs once in `key_seq`, and
    /// `key_seq` holds exactly the map's keys.
    pub fn len(&self) -> (n: usize)
        ensures
            n == self@.len(),
            n == self.key_seq().len(),
            self@.dom().finite(),
            self.key_seq().no_duplicates(),
            forall|i: int| 0 <= i < self.key_seq().len() ==> #[trigger] self@.contains_key(self.key_seq()[i]),
            forall|k: K| #[trigger] self@.contains_key(k) ==> self.key_seq().contains(k),
    {
        proof {
            use_type_invariant(self);
            lemma_entries_view(self.entries@);
            let ks = self.key_seq();
            assert forall|i: int| 0 <= i < ks.len() implies #[trigger] self@.contains_key(ks[i]) by {
                assert(self.entries@[i].0 == ks[i]);
            }
            assert forall|k: K| #[trigger] self@.contains_key(k) implies ks.contains(k) by {
                let i = choose|i: int| 0 <= i < self.entries@.len() && self.entries@[i].0 == k;
                assert(ks[i] == k);
            }
            assert forall|i: int, j: int| 0 <= i < ks.len() && 0 <= j < ks.len() && i != j
                implies ks[i] != ks[j] by {
                assert(self.entries@[i].0 != self.entries@[j].0);
            }
        }
        self.entries.len()
    }

    /// Where `key` stands in `key_seq`, if it is a key of the map.
    pub fn position(&self, key: &K) -> (r: Option<usize>)
        ensures
            match r {
                Some(i) => i < self.key_seq().len() && self.key_seq()[i as int] == *key
                    && self@.contains_key(*key),
                None => !self@.contains_key(*key),
            },
    {
        proof {
            use_type_invariant(self);
            lemma_entries_view(self.entries@);
        }
        let n = self.entries.len();
        let mut i: usize = 0;
        while i < n
            invariant
                n == self.entries@.len(),
                i <= n,
                forall|j: int| 0 <= j < i ==> self.entries@[j].0 != *key,
                keys_distinct(self.entries@),
            decreases n - i,
        {
            if self.entries[i].0.same_key(key) {
                assert(self.entries@[i as int].0 == *key);
                assert(self.key_seq()[i as int] == self.entries@[i as int].0);
                proof {
                    lemma_entries_view(self.entries@);
                }
                return Some(i);
            }
            i = i + 1;
        }
        None
    }

    /// The value at place `i` of `key_seq`.
    pub fn value_at(&self, i: usize) -> (v: &V)
        requires
            i < self.key_seq().len(),
        ensures
            v@ == self@[self.key_seq()[i as int]],
    {
        proof {
            use_type_invariant(self);
            lemma_entries_view(self.entries@);
        }
        &self.entries[i].1
    }

    /// The value filed under `key`.
    pub fn get(&self, key: &K) -> (r: Option<&V>)
        ensures
            r is Some <==> self@.contains_key(*key),
            r matches Some(v) ==> v@ == self@[*key],
    {
        match self.position(key) {
            Some(i) => Some(self.value_at(i)),
            None => None,
        }
    }

    /// Replaces the value at place `i` of `key_seq`.
    pub fn set_value_at(&mut self, i: usize, v: V)
        requires
            i < old(self).key_seq().len(),
        ensures
            final(self)@ == old(self)@.insert(old(self).key_seq()[i as int], v@),
            final(self).key_seq() == old(self).key_seq(),
    {
        proof {
            use_type_invariant(&*self);
            lemma_entries_view(self.entries@);
        }
        let ghost before = self.entries@;
        let mut entries: Vec<(K, V)> = Vec::new();
        std::mem::swap(&mut entries, &mut self.entries);
        let k = entries[i].0;
        entries.set(i, (k, v));
        proof {
            lemma_distinct_update(before, i as int, (k, v));
            lemma_entries_view(entries@);
            let a = entries_view(entries@);
            let b = entries_view(before).insert(k, v@);
            assert(entries@[i as int].0 == k);
            assert forall|x: K| #[trigger] a.contains_key(x) <==> b.contains_key(x) by {
                if x == k {
                    assert(entries@[i as int].0 == x);
                }
                if b.contains_key(x) && x != k {
                    let j = choose|j: int| 0 <= j < before.len() && before[j].0 == x;
                    assert(entries@[j].0 == x);
                }
                if a.contains_key(x) {
                    let j = choose|j: int| 0 <= j < entries@.len() && entries@[j].0 == x;
                    assert(before[j].0 == x);
                }
            }
            assert forall|x: K| #[trigger] a.contains_key(x) implies a[x] == b[x] by {
                let j = choose|j: int| 0 <= j < entries@.len() && entries@[j].0 == x;
                if j != i {
                    assert(before[j].0 == x);
                }
            }
            assert(a =~= b);
            assert(entries@.map_values(|e: (K, V)| e.0) =~= before.map_values(|e: (K, V)| e.0));
        }
        self.entries = entries;
    }

    /// Files `v` under `key`, replacing any value filed there.
    pub fn insert(&mut self, key: K, v: V)
        ensures
            final(self)@ == old(self)@.insert(key, v@),
    {
        match self.position(&key) {
            Some(i) => {
                self.set_value_at(i, v);
            },
            None => {
                proof {
                    use_type_invariant(&*self);
                    lemma_entries_view(self.entries@);
                }
                let ghost before = self.entries@;
                let mut entries: Vec<(K, V)> = Vec::new();
                std::mem::swap(&mut entries, &mut self.entries);
                entries.push((key, v));
                proof {
                    assert(entries@.drop_last() == before);
                    assert forall|i: int, j: int|
                        0 <= i < entries@.len() && 0 <= j < entries@.len() && i != j
                        implies #[trigger] entries@[i].0 != #[trigger] entries@[j].0 by {
                        if i < before.len() && j < before.len() {
                            assert(before[i].0 != before[j].0);
                        } else if i == before.len() {
                            assert(entries_view(before).contains_key(before[j].0));
                        } else {
                            assert(entries_view(before).contains_key(before[i].0));
                        }
                    }
                }
                self.entries = entries;
            },
        }
    }

    /// Takes out the value filed under `key`, if any.
    pub fn remove(&mut self, key: &K) -> (r: Option<V>)
        ensures
            final(self)@ == old(self)@.remove(*key),
            r is Some <==> old(self)@.contains_key(*key),
            r matches Some(v) ==> v@ == old(self)@[*key],
    {
        match self.position(key) {
            Some(i) => {
                proof {
                    use_type_invariant(&*self);
                    lemma_entries_view(self.entries@);
                }
                let ghost before = self.entries@;
                let mut entries: Vec<(K, V)> = Vec::new();
                std::mem::swap(&mut entries, &mut self.entries);
                let (_k, v) = entries.remove(i);
                proof {
                    lemma_distinct_remove(before, i as int);
                    lemma_entries_view(entries@);
                    let a = entries_view(entries@);
                    let b = entries_view(before).remove(*key);
                    assert(before[i as int].0 == *key);
                    assert forall|x: K| #[trigger] a.contains_key(x) <==> b.contains_key(x) by {
                        if b.contains_key(x) {
                            let j = choose|j: int| 0 <= j < before.len() && before[j].0 == x;
                            assert(j != i);
                            if j < i {
                                assert(entries@[j].0 == x);
                            } else {
                                assert(entries@[j - 1].0 == x);
                            }
                        }
                        if a.contains_key(x) {
                            let j = choose|j: int| 0 <= j < entries@.len() && entries@[j].0 == x;
                            if j < i {
                                assert(before[j].0 == x);
                                assert(before[j].0 != before[i as int].0);
                            } else {
                                assert(before[j + 1].0 == x);
                                assert(before[j + 1].0 != before[i as int].0);
                            }
                        }
                    }
                    assert forall|x: K| #[trigger] a.contains_key(x) implies a[x] == b[x] by {
                        let j = choose|j: int| 0 <= j < entries@.len() && entries@[j].0 == x;
                        if j < i {
                            assert(before[j].0 == x);
                        } else {
                            assert(before[j + 1].0 == x);
                        }
                    }
                    assert(a =~= b);
                }
                self.entries = entries;
                Some(v)
            },
            None => {
                proof {
                    assert(self@.remove(*key) =~= self@);
                }
                None
            },
        }
    }
}

} // verus!
