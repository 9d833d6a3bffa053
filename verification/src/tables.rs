//! Small association tables used throughout the index.
//!
//! Every table is a vector of key/value pairs with first-match lookup and
//! replace-in-place insertion, so keys stay unique and iteration order is
//! deterministic.

use vstd::prelude::*;

verus! {

/// Key types usable in a [`Table`]: an executable equality test together
/// with the specification-level equivalence it decides.
pub trait KeyEq: Sized {
    spec fn key_eqv(self, other: Self) -> bool;

    proof fn key_eqv_laws(a: Self, b: Self, c: Self)
        ensures
            a.key_eqv(a),
            a.key_eqv(b) == b.key_eqv(a),
            a.key_eqv(b) && b.key_eqv(c) ==> a.key_eqv(c),
    ;

    fn key_eq(&self, other: &Self) -> (r: bool)
        ensures
            r == self.key_eqv(*other),
    ;
}

/// First value bound to a key equivalent to `k`, if any.
pub open spec fn alist_get<K: KeyEq, V>(s: Seq<(K, V)>, k: K) -> Option<V>
    decreases s.len(),
{
    if s.len() == 0 {
        None
    } else if s[0].0.key_eqv(k) {
        Some(s[0].1)
    } else {
        alist_get(s.drop_first(), k)
    }
}

/// Index of the first entry whose key is equivalent to `k`, if any.
pub open spec fn alist_index_of<K: KeyEq, V>(s: Seq<(K, V)>, k: K) -> Option<int>
    decreases s.len(),
{
    if s.len() == 0 {
        None
    } else if s[0].0.key_eqv(k) {
        Some(0)
    } else {
        match alist_index_of(s.drop_first(), k) {
            Some(i) => Some(i + 1),
            None => None,
        }
    }
}

/// Binds `k` to `v`: replaces the first entry for an equivalent key, or
/// appends a new entry when none exists.
pub open spec fn alist_insert<K: KeyEq, V>(s: Seq<(K, V)>, k: K, v: V) -> Seq<(K, V)>
    decreases s.len(),
{
    if s.len() == 0 {
        seq![(k, v)]
    } else if s[0].0.key_eqv(k) {
        s.update(0, (k, v))
    } else {
        seq![s[0]] + alist_insert(s.drop_first(), k, v)
    }
}

pub proof fn lemma_alist_get_from_index<K: KeyEq, V>(s: Seq<(K, V)>, k: K)
    ensures
        match alist_index_of(s, k) {
            Some(i) => {
                &&& 0 <= i < s.len()
                &&& s[i].0.key_eqv(k)
                &&& forall|j: int| 0 <= j < i ==> !s[j].0.key_eqv(k)
                &&& alist_get(s, k) == Some(s[i].1)
            },
            None => {
                &&& (forall|j: int| 0 <= j < s.len() ==> !s[j].0.key_eqv(k))
                &&& alist_get(s, k) is None
            },
        },
    decreases s.len(),
{
    if s.len() > 0 && !s[0].0.key_eqv(k) {
        let t = s.drop_first();
        lemma_alist_get_from_index(t, k);
        match alist_index_of(t, k) {
            Some(i) => {
                assert(alist_index_of(s, k) == Some(i + 1));
                assert(s[i + 1] == t[i]);
                assert forall|j: int| 0 <= j < i + 1 implies !s[j].0.key_eqv(k) by {
                    if j > 0 {
                        assert(t[j - 1] == s[j]);
                        assert(!t[j - 1].0.key_eqv(k));
                    }
                }
            },
            None => {
                assert forall|j: int| 0 <= j < s.len() implies !s[j].0.key_eqv(k) by {
                    if j > 0 {
                        assert(t[j - 1] == s[j]);
                        assert(!t[j - 1].0.key_eqv(k));
                    }
                }
            },
        }
    }
}

/// Inserting at the first matching index is the same as updating in place.
pub proof fn lemma_alist_insert_at<K: KeyEq, V>(s: Seq<(K, V)>, k: K, v: V, i: int)
    requires
        0 <= i < s.len(),
        s[i].0.key_eqv(k),
        forall|j: int| 0 <= j < i ==> !s[j].0.key_eqv(k),
    ensures
        alist_insert(s, k, v) =~= s.update(i, (k, v)),
    decreases i,
{
    if i > 0 {
        lemma_alist_insert_at(s.drop_first(), k, v, i - 1);
        assert(alist_insert(s, k, v) =~= seq![s[0]] + alist_insert(s.drop_first(), k, v));
        assert(seq![s[0]] + s.drop_first().update(i - 1, (k, v)) =~= s.update(i, (k, v)));
    }
}

/// When no entry matches, insertion is an append.
pub proof fn lemma_alist_insert_append<K: KeyEq, V>(s: Seq<(K, V)>, k: K, v: V)
    requires
        forall|j: int| 0 <= j < s.len() ==> !s[j].0.key_eqv(k),
    ensures
        alist_insert(s, k, v) =~= s.push((k, v)),
    decreases s.len(),
{
    if s.len() > 0 {
        lemma_alist_insert_append(s.drop_first(), k, v);
        assert(seq![s[0]] + s.drop_first().push((k, v)) =~= s.push((k, v)));
    }
}

/// Lookup after insertion: the inserted key reads back the new value, and
/// any inequivalent key is unaffected.
pub proof fn lemma_alist_get_insert<K: KeyEq, V>(s: Seq<(K, V)>, k: K, v: V, k2: K)
    ensures
        k.key_eqv(k2) ==> alist_get(alist_insert(s, k, v), k2) == Some(v),
        !k.key_eqv(k2) ==> alist_get(alist_insert(s, k, v), k2) == alist_get(s, k2),
    decreases s.len(),
{
    K::key_eqv_laws(k, k2, k2);
    if s.len() == 0 {
        let s1 = alist_insert(s, k, v);
        assert(s1 == seq![(k, v)]);
        assert(s1.len() == 1);
        assert(s1[0] == (k, v));
        assert(s1[0].0 == k);
        if !k.key_eqv(k2) {
            assert(alist_get(s1, k2) == alist_get(s1.drop_first(), k2));
            assert(s1.drop_first().len() == 0);
            assert(alist_get(s1.drop_first(), k2) == None::<V>);
            assert(alist_get(s, k2) == None::<V>);
        }
    } else if s[0].0.key_eqv(k) {
        let s2 = s.update(0, (k, v));
        assert(alist_insert(s, k, v) == s2);
        assert(s2[0] == (k, v));
        assert(s2.drop_first() =~= s.drop_first());
        if !k.key_eqv(k2) {
            // The head key of the result is k, which does not match k2, so
            // the left side reads the (unchanged) tail. The right side reads
            // the tail as well: s[0].0 cannot match k2, else k ~ s[0].0 ~ k2.
            K::key_eqv_laws(s[0].0, k, k2);
            K::key_eqv_laws(k, s[0].0, k2);
            assert(!s[0].0.key_eqv(k2));
            assert(alist_get(s2, k2) == alist_get(s2.drop_first(), k2));
            assert(alist_get(s, k2) == alist_get(s.drop_first(), k2));
            assert(alist_get(s2.drop_first(), k2) == alist_get(s.drop_first(), k2));
            assert(alist_get(alist_insert(s, k, v), k2) == alist_get(s, k2));
        }
    } else {
        lemma_alist_get_insert(s.drop_first(), k, v, k2);
        let s2 = seq![s[0]] + alist_insert(s.drop_first(), k, v);
        assert(alist_insert(s, k, v) == s2);
        assert(s2[0] == s[0]);
        assert(s2.len() > 0);
        assert(s2.drop_first() =~= alist_insert(s.drop_first(), k, v));
        if k.key_eqv(k2) {
            // s[0].0 cannot match k2, else it would match k by transitivity.
            K::key_eqv_laws(s[0].0, k2, k);
            K::key_eqv_laws(k, k2, s[0].0);
            K::key_eqv_laws(k2, k, s[0].0);
            assert(!s2[0].0.key_eqv(k2));
        } else {
            K::key_eqv_laws(s[0].0, k2, k2);
            if s2[0].0.key_eqv(k2) {
                assert(alist_get(s2, k2) == Some(s[0].1));
                assert(alist_get(s, k2) == Some(s[0].1));
            } else {
                assert(alist_get(s2, k2) == alist_get(s2.drop_first(), k2));
                assert(alist_get(s, k2) == alist_get(s.drop_first(), k2));
                assert(alist_get(s2.drop_first(), k2) == alist_get(alist_insert(s.drop_first(), k, v), k2));
            }
            assert(alist_get(alist_insert(s, k, v), k2) == alist_get(s, k2));
        }
    }
}

pub struct Table<K, V> {
    pub entries: Vec<(K, V)>,
}

impl<K: KeyEq, V> Table<K, V> {
    pub open spec fn spec_get(self, k: K) -> Option<V> {
        alist_get(self.entries@, k)
    }

    pub fn new() -> (r: Table<K, V>)
        ensures
            r.entries@.len() == 0,
    {
        Table { entries: Vec::new() }
    }

    pub fn index_of(&self, k: &K) -> (r: Option<usize>)
        ensures
            match r {
                Some(i) => alist_index_of(self.entries@, *k) == Some(i as int),
                None => alist_index_of(self.entries@, *k) is None,
            },
    {
        let mut i: usize = 0;
        let n = self.entries.len();
        proof {
            assert(self.entries@.skip(0) =~= self.entries@);
        }
        while i < n
            invariant
                i <= n,
                n == self.entries@.len(),
                match alist_index_of(self.entries@.skip(i as int), *k) {
                    Some(x) => alist_index_of(self.entries@, *k) == Some(x + i as int),
                    None => alist_index_of(self.entries@, *k) is None,
                },
            decreases n - i,
        {
            proof {
                assert(self.entries@.skip(i as int)[0] == self.entries@[i as int]);
            }
            if self.entries[i].0.key_eq(k) {
                return Some(i);
            }
            proof {
                assert(self.entries@.skip(i as int).drop_first() =~= self.entries@.skip(
                    i as int + 1,
                ));
            }
            i = i + 1;
        }
        proof {
            assert(self.entries@.skip(n as int).len() == 0);
        }
        None
    }

    pub fn get(&self, k: &K) -> (r: Option<&V>)
        ensures
            match r {
                Some(v) => self.spec_get(*k) == Some(*v),
                None => self.spec_get(*k) is None,
            },
    {
        proof {
            lemma_alist_get_from_index(self.entries@, *k);
        }
        match self.index_of(k) {
            Some(i) => Some(&self.entries[i].1),
            None => None,
        }
    }

    pub fn contains_key(&self, k: &K) -> (r: bool)
        ensures
            r == (self.spec_get(*k) is Some),
    {
        proof {
            lemma_alist_get_from_index(self.entries@, *k);
        }
        self.index_of(k).is_some()
    }

    /// Replaces the value of the first entry for `k`, or appends `(k, v)`.
    pub fn insert(&mut self, k: K, v: V)
        ensures
            final(self).entries@ == alist_insert(old(self).entries@, k, v),
    {
        proof {
            lemma_alist_get_from_index(self.entries@, k);
        }
        match self.index_of(&k) {
            Some(i) => {
                proof {
                    lemma_alist_insert_at(self.entries@, k, v, i as int);
                }
                self.entries[i] = (k, v);
            },
            None => {
                proof {
                    lemma_alist_insert_append(self.entries@, k, v);
                }
                self.entries.push((k, v));
            },
        }
    }

    pub fn value_at(&self, i: usize) -> (r: &V)
        requires
            i < self.entries@.len(),
        ensures
            *r == self.entries@[i as int].1,
    {
        &self.entries[i].1
    }

    /// Replaces the value at a known position, keeping its key.
    pub fn set_value_at(&mut self, i: usize, v: V)
        requires
            i < old(self).entries@.len(),
        ensures
            final(self).entries@ == old(self).entries@.update(
                i as int,
                (old(self).entries@[i as int].0, v),
            ),
    {
        let kv = self.entries.remove(i);
        self.entries.insert(i, (kv.0, v));
        proof {
            assert(self.entries@ =~= old(self).entries@.update(
                i as int,
                (old(self).entries@[i as int].0, v),
            ));
        }
    }

    /// Appends an entry for a key the caller knows to be absent.
    pub fn push_new(&mut self, k: K, v: V)
        ensures
            final(self).entries@ == old(self).entries@.push((k, v)),
    {
        self.entries.push((k, v));
    }
}

} // verus!
