//! Small in-memory tables keyed by identities: a map with one value per key,
//! and a list of key/value pairs that keeps the order in which pairs came.
use vstd::prelude::*;
use crate::ids::Key;

verus! {

/// The map that a list of entries stands for: a later entry for a key
/// overrides an earlier one.
pub open spec fn map_of<K, V>(s: Seq<(K, V)>) -> Map<K, V>
    decreases s.len(),
{
    if s.len() == 0 {
        Map::empty()
    } else {
        map_of(s.drop_last()).insert(s.last().0, s.last().1)
    }
}

/// The entries of `s` whose key is not `k`, in their order.
pub open spec fn without_key<K, V>(s: Seq<(K, V)>, k: K) -> Seq<(K, V)>
    decreases s.len(),
{
    if s.len() == 0 {
        s
    } else if s.last().0 == k {
        without_key(s.drop_last(), k)
    } else {
        without_key(s.drop_last(), k).push(s.last())
    }
}

proof fn lemma_without_key<K, V>(s: Seq<(K, V)>, k: K)
    ensures
        map_of(without_key(s, k)) == map_of(s).remove(k),
    decreases s.len(),
{
    if s.len() > 0 {
        lemma_without_key(s.drop_last(), k);
        let w = without_key(s.drop_last(), k);
        if s.last().0 != k {
            assert(w.push(s.last()).drop_last() =~= w);
        }
        assert(map_of(without_key(s, k)) =~= map_of(s).remove(k));
    }
}

/// Scanning from the end finds the value that the map holds.
proof fn lemma_last_entry<K, V>(s: Seq<(K, V)>, k: K, i: int)
    requires
        -1 <= i < s.len(),
        forall|j: int| i < j < s.len() ==> s[j].0 != k,
        i >= 0 ==> s[i].0 == k,
    ensures
        i >= 0 ==> map_of(s).contains_key(k) && map_of(s)[k] == s[i].1,
        i < 0 ==> !map_of(s).contains_key(k),
    decreases s.len(),
{
    if s.len() > 0 && i != s.len() - 1 {
        lemma_last_entry(s.drop_last(), k, i);
    }
}

/// A map from keys to values, one value per key.
#[derive(Clone, Debug)]
pub struct KeyedList<K, V> {
    entries: Vec<(K, V)>,
}

impl<K: Key, V: Copy> View for KeyedList<K, V> {
    type V = Map<K, V>;

    closed spec fn view(&self) -> Map<K, V> {
        map_of(self.entries@)
    }
}

impl<K: Key, V: Copy> KeyedList<K, V> {
    pub fn new() -> (r: Self)
        ensures
            r@ == Map::<K, V>::empty(),
    {
        let r = KeyedList { entries: Vec::new() };
        assert(r@ =~= Map::<K, V>::empty());
        r
    }

    /// The value held for `k`, if any.
    pub fn get(&self, k: &K) -> (r: Option<V>)
        ensures
            r == (if self@.contains_key(*k) { Some(self@[*k]) } else { None::<V> }),
    {
        let mut i = self.entries.len();
        while i > 0
            invariant
                i <= self.entries.len(),
                forall|j: int| i <= j < self.entries@.len() ==> self.entries@[j].0 != *k,
            decreases i,
        {
            i = i - 1;
            if self.entries[i].0.same(k) {
                proof {
                    lemma_last_entry(self.entries@, *k, i as int);
                }
                return Some(self.entries[i].1);
            }
        }
        proof {
            lemma_last_entry(self.entries@, *k, -1);
        }
        None
    }

    pub fn contains(&self, k: &K) -> (r: bool)
        ensures
            r == self@.contains_key(*k),
    {
        match self.get(k) {
            Some(_) => true,
            None => false,
        }
    }

    /// Drops the value held for `k`.
    pub fn remove(&mut self, k: &K)
        ensures
            final(self)@ == old(self)@.remove(*k),
    {
        let mut kept: Vec<(K, V)> = Vec::new();
        let n = self.entries.len();
        for i in 0..n
            invariant
                n == self.entries.len(),
                kept@ == without_key(self.entries@.subrange(0, i as int), *k),
        {
            let e = self.entries[i];
            proof {
                assert(self.entries@.subrange(0, i + 1).drop_last()
                    =~= self.entries@.subrange(0, i as int));
            }
            if !e.0.same(k) {
                kept.push(e);
            }
        }
        proof {
            assert(self.entries@.subrange(0, n as int) =~= self.entries@);
            lemma_without_key(self.entries@, *k);
        }
        self.entries = kept;
    }

    /// Holds `v` for `k`, replacing what was held before.
    pub fn insert(&mut self, k: K, v: V)
        ensures
            final(self)@ == old(self)@.insert(k, v),
    {
        self.remove(&k);
        let ghost before = self.entries@;
        self.entries.push((k, v));
        proof {
            assert(self.entries@.drop_last() =~= before);
            assert(self@ =~= old(self)@.insert(k, v));
        }
    }
}

/// The values paired with `k` in `s`, in the order the pairs came.
pub open spec fn values_for<K, V>(s: Seq<(K, V)>, k: K) -> Seq<V>
    decreases s.len(),
{
    if s.len() == 0 {
        Seq::empty()
    } else if s.last().0 == k {
        values_for(s.drop_last(), k).push(s.last().1)
    } else {
        values_for(s.drop_last(), k)
    }
}

/// `vs` with every occurrence of `v` taken out.
pub open spec fn seq_without<V>(vs: Seq<V>, v: V) -> Seq<V>
    decreases vs.len(),
{
    if vs.len() == 0 {
        vs
    } else if vs.last() == v {
        seq_without(vs.drop_last(), v)
    } else {
        seq_without(vs.drop_last(), v).push(vs.last())
    }
}

/// `s` with every pair equal to `(k, v)` taken out.
pub open spec fn without_pair<K, V>(s: Seq<(K, V)>, k: K, v: V) -> Seq<(K, V)>
    decreases s.len(),
{
    if s.len() == 0 {
        s
    } else if s.last() == (k, v) {
        without_pair(s.drop_last(), k, v)
    } else {
        without_pair(s.drop_last(), k, v).push(s.last())
    }
}

proof fn lemma_values_without_pair<K, V>(s: Seq<(K, V)>, k: K, v: V, k2: K)
    ensures
        values_for(without_pair(s, k, v), k2) == (if k2 == k {
            seq_without(values_for(s, k), v)
        } else {
            values_for(s, k2)
        }),
    decreases s.len(),
{
    if s.len() > 0 {
        let t = s.drop_last();
        lemma_values_without_pair(t, k, v, k2);
        let w = without_pair(t, k, v);
        if s.last() != (k, v) {
            assert(w.push(s.last()).drop_last() =~= w);
        }
        if s.last().0 == k {
            assert(values_for(t, k).push(s.last().1).drop_last() =~= values_for(t, k));
        }
    }
}

proof fn lemma_values_push<K, V>(s: Seq<(K, V)>, k: K, v: V, k2: K)
    ensures
        values_for(s.push((k, v)), k2) == (if k2 == k {
            values_for(s, k).push(v)
        } else {
            values_for(s, k2)
        }),
{
    assert(s.push((k, v)).drop_last() =~= s);
}

/// Key/value pairs in the order they were added; a key may carry several
/// values, and a value may repeat.
#[derive(Clone, Debug)]
pub struct PairList<K, V> {
    pairs: Vec<(K, V)>,
}

impl<K: Key, V: Key> View for PairList<K, V> {
    type V = Seq<(K, V)>;

    closed spec fn view(&self) -> Seq<(K, V)> {
        self.pairs@
    }
}

impl<K: Key, V: Key> PairList<K, V> {
    pub fn new() -> (r: Self)
        ensures
            r@ == Seq::<(K, V)>::empty(),
    {
        PairList { pairs: Vec::new() }
    }

    /// Adds the pair `(k, v)` after all others.
    pub fn push(&mut self, k: K, v: V)
        ensures
            final(self)@ == old(self)@.push((k, v)),
            forall|k2: K|
                #![trigger values_for(final(self)@, k2)]
                values_for(final(self)@, k2) == (if k2 == k {
                    values_for(old(self)@, k).push(v)
                } else {
                    values_for(old(self)@, k2)
                }),
    {
        self.pairs.push((k, v));
        proof {
            assert forall|k2: K| #![trigger values_for(self@, k2)]
                values_for(self@, k2) == (if k2 == k {
                    values_for(old(self)@, k).push(v)
                } else {
                    values_for(old(self)@, k2)
                }) by {
                lemma_values_push(old(self)@, k, v, k2);
            }
        }
    }

    /// The values paired with `k`, in order.
    pub fn values(&self, k: &K) -> (r: Vec<V>)
        ensures
            r@ == values_for(self@, *k),
    {
        let mut out: Vec<V> = Vec::new();
        let n = self.pairs.len();
        for i in 0..n
            invariant
                n == self.pairs.len(),
                out@ == values_for(self.pairs@.subrange(0, i as int), *k),
        {
            let p = self.pairs[i];
            proof {
                assert(self.pairs@.subrange(0, i + 1).drop_last()
                    =~= self.pairs@.subrange(0, i as int));
            }
            if p.0.same(k) {
                out.push(p.1);
            }
        }
        proof {
            assert(self.pairs@.subrange(0, n as int) =~= self.pairs@);
        }
        out
    }

    /// Whether `v` is among the values paired with `k`.
    pub fn contains_pair(&self, k: &K, v: &V) -> (r: bool)
        ensures
            r == values_for(self@, *k).contains(*v),
    {
        let vs = self.values(k);
        let mut i: usize = 0;
        while i < vs.len()
            invariant
                i <= vs.len(),
                vs@ == values_for(self@, *k),
                forall|j: int| 0 <= j < i ==> vs@[j] != *v,
            decreases vs.len() - i,
        {
            if vs[i].same(v) {
                return true;
            }
            i = i + 1;
        }
        false
    }

    /// Takes out every pair equal to `(k, v)`.
    pub fn remove_pair(&mut self, k: &K, v: &V)
        ensures
            final(self)@ == without_pair(old(self)@, *k, *v),
            forall|k2: K|
                #![trigger values_for(final(self)@, k2)]
                values_for(final(self)@, k2) == (if k2 == *k {
                    seq_without(values_for(old(self)@, *k), *v)
                } else {
                    values_for(old(self)@, k2)
                }),
    {
        let mut kept: Vec<(K, V)> = Vec::new();
        let n = self.pairs.len();
        for i in 0..n
            invariant
                n == self.pairs.len(),
                kept@ == without_pair(self.pairs@.subrange(0, i as int), *k, *v),
        {
            let p = self.pairs[i];
            proof {
                assert(self.pairs@.subrange(0, i + 1).drop_last()
                    =~= self.pairs@.subrange(0, i as int));
            }
            if !(p.0.same(k) && p.1.same(v)) {
                kept.push(p);
            }
        }
        proof {
            assert(self.pairs@.subrange(0, n as int) =~= self.pairs@);
            assert forall|k2: K| #![trigger values_for(without_pair(old(self)@, *k, *v), k2)]
                values_for(without_pair(old(self)@, *k, *v), k2) == (if k2 == *k {
                    seq_without(values_for(old(self)@, *k), *v)
                } else {
                    values_for(old(self)@, k2)
                }) by {
                lemma_values_without_pair(old(self)@, *k, *v, k2);
            }
        }
        self.pairs = kept;
    }
}

} // verus!
