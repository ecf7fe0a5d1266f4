//! String-keyed mappings with defined merge semantics.
//!
//! The engagement row stores several JSON objects (`accepted`, `submissions`,
//! `messages`). They are modeled here as ordered key/value sequences: a lookup
//! takes the first entry whose key matches, an insert overwrites that entry or
//! appends, and merging two maps inserts every entry of the second into the
//! first (supplied keys overwrite, existing keys are preserved).

use vstd::prelude::*;

verus! {

/// First entry of `s` whose key reads `k`, if any.
pub open spec fn spec_lookup<V>(s: Seq<(String, V)>, k: Seq<char>) -> Option<V>
    decreases s.len(),
{
    if s.len() == 0 {
        None
    } else if s[0].0@ == k {
        Some(s[0].1)
    } else {
        spec_lookup(s.drop_first(), k)
    }
}

/// `s` with the first entry whose key reads `k@` overwritten by `v`, or with
/// `(k, v)` appended when no entry has that key.
pub open spec fn spec_insert<V>(s: Seq<(String, V)>, k: String, v: V) -> Seq<(String, V)>
    decreases s.len(),
{
    if s.len() == 0 {
        seq![(k, v)]
    } else if s[0].0@ == k@ {
        seq![(s[0].0, v)] + s.drop_first()
    } else {
        seq![s[0]] + spec_insert(s.drop_first(), k, v)
    }
}

/// Every entry of `b` inserted into `a`, first to last.
pub open spec fn spec_merge<V>(a: Seq<(String, V)>, b: Seq<(String, V)>) -> Seq<(String, V)>
    decreases b.len(),
{
    if b.len() == 0 {
        a
    } else {
        spec_merge(spec_insert(a, b[0].0, b[0].1), b.drop_first())
    }
}

/// A JSON-object value: string keys in their stored order.
#[derive(Debug)]
pub struct StrMap<V> {
    pairs: Vec<(String, V)>,
}

impl<V> StrMap<V> {
    /// The entries in order, the ground truth every contract speaks over.
    pub closed spec fn kv_seq(&self) -> Seq<(String, V)> {
        self.pairs@
    }

    /// What key `k` maps to.
    pub open spec fn spec_get(&self, k: Seq<char>) -> Option<V> {
        spec_lookup(self.kv_seq(), k)
    }

    pub open spec fn contains(&self, k: Seq<char>) -> bool {
        self.spec_get(k) is Some
    }

    pub fn new() -> (r: StrMap<V>)
        ensures
            r.kv_seq() == Seq::<(String, V)>::empty(),
    {
        StrMap { pairs: Vec::new() }
    }

    pub fn len(&self) -> (n: usize)
        ensures
            n == self.kv_seq().len(),
    {
        self.pairs.len()
    }

    pub fn is_empty(&self) -> (b: bool)
        ensures
            b == (self.kv_seq().len() == 0),
    {
        self.pairs.len() == 0
    }

    /// The entry at position `i`.
    pub fn entry_at(&self, i: usize) -> (e: &(String, V))
        requires
            i < self.kv_seq().len(),
        ensures
            *e == self.kv_seq()[i as int],
    {
        &self.pairs[i]
    }

    /// First entry whose key equals `k`, as the stored JSON object reads it.
    pub fn get(&self, k: &str) -> (r: Option<&V>)
        ensures
            match r {
                Some(v) => self.spec_get(k@) == Some(*v),
                None => self.spec_get(k@) is None,
            },
    {
        let key = k.to_owned();
        let n = self.pairs.len();
        let mut i: usize = 0;
        while i < n
            invariant
                n == self.kv_seq().len(),
                i <= n,
                key@ == k@,
                forall|j: int| 0 <= j < i ==> self.kv_seq()[j].0@ != k@,
            decreases n - i,
        {
            if self.pairs[i].0 == key {
                proof {
                    lemma_lookup_found(self.kv_seq(), k@, i as int);
                }
                return Some(&self.pairs[i].1);
            }
            i += 1;
        }
        proof {
            lemma_lookup_none(self.kv_seq(), k@);
        }
        None
    }

    pub fn contains_key(&self, k: &str) -> (b: bool)
        ensures
            b == self.contains(k@),
    {
        self.get(k).is_some()
    }

    /// Overwrite the first entry keyed `k`, or append `(k, v)`.
    pub fn insert(&mut self, k: String, v: V)
        ensures
            final(self).kv_seq() == spec_insert(old(self).kv_seq(), k, v),
    {
        let ghost orig = self.pairs@;
        let n = self.pairs.len();
        let mut i: usize = 0;
        while i < n
            invariant
                n == self.pairs@.len(),
                i <= n,
                self.pairs@ == orig,
                orig == old(self).kv_seq(),
                forall|j: int| 0 <= j < i ==> self.pairs@[j].0@ != k@,
            decreases n - i,
        {
            if self.pairs[i].0 == k {
                let kept = self.pairs[i].0.clone();
                self.pairs[i] = (kept, v);
                proof {
                    lemma_insert_found(orig, k, v, i as int);
                }
                return;
            }
            i += 1;
        }
        self.pairs.push((k, v));
        proof {
            lemma_insert_missing(orig, k, v);
        }
    }

    /// Merge `other` in: its keys overwrite, all other entries stay.
    pub fn merge(&mut self, other: StrMap<V>)
        ensures
            final(self).kv_seq() == spec_merge(old(self).kv_seq(), other.kv_seq()),
    {
        let ghost a0 = self.kv_seq();
        let ghost b0 = other.kv_seq();
        let mut rest = other.pairs;
        while rest.len() > 0
            invariant
                a0 == old(self).kv_seq(),
                spec_merge(a0, b0) == spec_merge(self.kv_seq(), rest@),
            decreases rest@.len(),
        {
            let ghost before = rest@;
            let (k, v) = rest.remove(0);
            proof {
                assert(rest@ =~= before.drop_first());
            }
            self.insert(k, v);
        }
    }
}

impl<V: Copy> Clone for StrMap<V> {
    /// A copy with the same entries in the same order.
    fn clone(&self) -> (r: Self)
        ensures
            r.kv_seq() == self.kv_seq(),
    {
        let mut pairs: Vec<(String, V)> = Vec::new();
        let n = self.pairs.len();
        let mut i: usize = 0;
        while i < n
            invariant
                n == self.pairs@.len(),
                i <= n,
                pairs@ == self.pairs@.subrange(0, i as int),
            decreases n - i,
        {
            pairs.push((self.pairs[i].0.clone(), self.pairs[i].1));
            assert(pairs@ =~= self.pairs@.subrange(0, i + 1 as int));
            i += 1;
        }
        assert(pairs@ =~= self.pairs@);
        StrMap { pairs }
    }
}

/// No two entries share a key: what holds of every decoded JSON object.
pub open spec fn keys_unique<V>(s: Seq<(String, V)>) -> bool {
    forall|i: int, j: int| 0 <= i < j < s.len() ==> s[i].0@ != s[j].0@
}

/// Under unique keys, every entry is what a lookup of its key finds.
pub proof fn lemma_lookup_entry<V>(s: Seq<(String, V)>, i: int)
    requires
        keys_unique(s),
        0 <= i < s.len(),
    ensures
        spec_lookup(s, s[i].0@) == Some(s[i].1),
{
    lemma_lookup_found(s, s[i].0@, i);
}

/// What an insert does to every later lookup: the inserted key now maps to
/// the inserted value, all other keys read as before.
pub proof fn lemma_insert_lookup<V>(s: Seq<(String, V)>, k: String, v: V, k2: Seq<char>)
    ensures
        spec_lookup(spec_insert(s, k, v), k2) == if k2 == k@ {
            Some(v)
        } else {
            spec_lookup(s, k2)
        },
    decreases s.len(),
{
    if s.len() == 0 {
        let single = spec_insert(s, k, v);
        assert(single == seq![(k, v)]);
        assert(single[0] == (k, v));
        assert(single.drop_first() =~= Seq::<(String, V)>::empty());
        if k2 == k@ {
            assert(spec_lookup(single, k2) == Some(v));
        } else {
            assert(spec_lookup(single, k2) == spec_lookup(single.drop_first(), k2));
        }
    } else if s[0].0@ == k@ {
        let t = spec_insert(s, k, v);
        assert(t == seq![(s[0].0, v)] + s.drop_first());
        assert(t[0] == (s[0].0, v));
        assert(t.len() == s.len());
        assert(t.drop_first() =~= s.drop_first());
    } else {
        lemma_insert_lookup(s.drop_first(), k, v, k2);
        let t = spec_insert(s, k, v);
        assert(t == seq![s[0]] + spec_insert(s.drop_first(), k, v));
        assert(t.len() > 0);
        assert(t[0] == s[0]);
        assert(t.drop_first() =~= spec_insert(s.drop_first(), k, v));
    }
}

/// What a merge does to every later lookup: keys of `b` read their `b`
/// value, all other keys read their `a` value.
pub proof fn lemma_merge_lookup<V>(a: Seq<(String, V)>, b: Seq<(String, V)>, k: Seq<char>)
    requires
        keys_unique(b),
    ensures
        spec_lookup(spec_merge(a, b), k) == match spec_lookup(b, k) {
            Some(v) => Some(v),
            None => spec_lookup(a, k),
        },
    decreases b.len(),
{
    if b.len() > 0 {
        let a1 = spec_insert(a, b[0].0, b[0].1);
        let b1 = b.drop_first();
        assert(keys_unique(b1)) by {
            assert(forall|i: int, j: int|
                0 <= i < j < b1.len() ==> b1[i].0@ == b[i + 1].0@ && b1[j].0@ == b[j + 1].0@);
        }
        lemma_merge_lookup(a1, b1, k);
        lemma_insert_lookup(a, b[0].0, b[0].1, k);
        if b[0].0@ == k {
            assert(spec_lookup(b1, k) is None) by {
                assert(forall|j: int| 0 <= j < b1.len() ==> b1[j].0@ == b[j + 1].0@);
                lemma_lookup_none(b1, k);
            }
        }
    }
}

/// Inserting a value a key already reads leaves the map word for word.
pub proof fn lemma_insert_same<V>(s: Seq<(String, V)>, k: String, v: V)
    requires
        spec_lookup(s, k@) == Some(v),
    ensures
        spec_insert(s, k, v) == s,
    decreases s.len(),
{
    if s.len() > 0 {
        if s[0].0@ == k@ {
            assert(s[0].1 == v);
            assert(seq![(s[0].0, v)] + s.drop_first() =~= s);
        } else {
            lemma_insert_same(s.drop_first(), k, v);
            assert(seq![s[0]] + s.drop_first() =~= s);
        }
    }
}

/// Merging in entries the map already reads leaves it word for word.
pub proof fn lemma_merge_absorb<V>(a: Seq<(String, V)>, b: Seq<(String, V)>)
    requires
        forall|i: int| 0 <= i < b.len() ==> spec_lookup(a, (#[trigger] b[i]).0@) == Some(b[i].1),
    ensures
        spec_merge(a, b) == a,
    decreases b.len(),
{
    if b.len() > 0 {
        lemma_insert_same(a, b[0].0, b[0].1);
        let b1 = b.drop_first();
        assert(forall|i: int|
            0 <= i < b1.len() ==> spec_lookup(a, (#[trigger] b1[i]).0@) == Some(b1[i].1)) by {
            assert(forall|i: int| 0 <= i < b1.len() ==> b1[i] == b[i + 1]);
        }
        lemma_merge_absorb(a, b1);
    }
}

proof fn lemma_lookup_found<V>(s: Seq<(String, V)>, k: Seq<char>, i: int)
    requires
        0 <= i < s.len(),
        s[i].0@ == k,
        forall|j: int| 0 <= j < i ==> s[j].0@ != k,
    ensures
        spec_lookup(s, k) == Some(s[i].1),
    decreases i,
{
    if i > 0 {
        lemma_lookup_found(s.drop_first(), k, i - 1);
    }
}

proof fn lemma_lookup_none<V>(s: Seq<(String, V)>, k: Seq<char>)
    requires
        forall|j: int| 0 <= j < s.len() ==> s[j].0@ != k,
    ensures
        spec_lookup(s, k) is None,
    decreases s.len(),
{
    if s.len() > 0 {
        lemma_lookup_none(s.drop_first(), k);
    }
}

proof fn lemma_insert_found<V>(s: Seq<(String, V)>, k: String, v: V, i: int)
    requires
        0 <= i < s.len(),
        s[i].0@ == k@,
        forall|j: int| 0 <= j < i ==> s[j].0@ != k@,
    ensures
        spec_insert(s, k, v) == s.update(i, (s[i].0, v)),
    decreases i,
{
    if i == 0 {
        assert(spec_insert(s, k, v) == seq![(s[0].0, v)] + s.drop_first());
        assert(seq![(s[0].0, v)] + s.drop_first() =~= s.update(0, (s[0].0, v)));
    } else {
        lemma_insert_found(s.drop_first(), k, v, i - 1);
        assert(spec_insert(s, k, v) == seq![s[0]] + spec_insert(s.drop_first(), k, v));
        assert(seq![s[0]] + s.drop_first().update(i - 1, (s[i].0, v)) =~= s.update(
            i,
            (s[i].0, v),
        ));
    }
}

proof fn lemma_insert_missing<V>(s: Seq<(String, V)>, k: String, v: V)
    requires
        forall|j: int| 0 <= j < s.len() ==> s[j].0@ != k@,
    ensures
        spec_insert(s, k, v) == s.push((k, v)),
    decreases s.len(),
{
    if s.len() == 0 {
        assert(spec_insert(s, k, v) =~= s.push((k, v)));
    } else {
        lemma_insert_missing(s.drop_first(), k, v);
        assert(seq![s[0]] + s.drop_first().push((k, v)) =~= s.push((k, v)));
    }
}

} // verus!
