//! A small keyed table, the storage under the ledger.

use vstd::prelude::*;

verus! {

/// Keys of a table: values that can be told apart at run time.
pub trait Key: Copy {
    /// Whether the two are one key.
    fn same(&self, other: &Self) -> (r: bool)
        ensures
            r == (*self == *other),
    ;
}

/// A finite map from keys to values, kept as a list of entries in
/// which no key occurs twice.
///
/// Seen from outside, a table is its `view()`, a `Map`, together with
/// `total(w)`: the sum over all entries of a weight `w`.
pub struct Table<K, V> {
    entries: Vec<(K, V)>,
}

spec fn holds<K, V>(s: Seq<(K, V)>, k: K) -> bool {
    exists|i: int| 0 <= i < s.len() && (#[trigger] s[i]).0 == k
}

spec fn position<K, V>(s: Seq<(K, V)>, k: K) -> int {
    choose|i: int| 0 <= i < s.len() && (#[trigger] s[i]).0 == k
}

spec fn distinct<K, V>(s: Seq<(K, V)>) -> bool {
    forall|i: int, j: int| 0 <= i < j < s.len() ==> (#[trigger] s[i]).0 != (#[trigger] s[j]).0
}

spec fn as_map<K, V>(s: Seq<(K, V)>) -> Map<K, V> {
    Map::new(|k: K| holds(s, k), |k: K| s[position(s, k)].1)
}

spec fn sum<K, V>(s: Seq<(K, V)>, w: spec_fn(K, V) -> nat) -> nat
    decreases s.len(),
{
    if s.len() == 0 {
        0
    } else {
        sum(s.drop_last(), w) + w(s.last().0, s.last().1)
    }
}

proof fn lemma_position<K, V>(s: Seq<(K, V)>, i: int)
    requires
        distinct(s),
        0 <= i < s.len(),
    ensures
        holds(s, s[i].0),
        position(s, s[i].0) == i,
        as_map(s).contains_key(s[i].0),
        as_map(s)[s[i].0] == s[i].1,
{
}

proof fn lemma_absent<K, V>(s: Seq<(K, V)>, k: K)
    requires
        !holds(s, k),
    ensures
        forall|i: int| 0 <= i < s.len() ==> (#[trigger] s[i]).0 != k,
        !as_map(s).contains_key(k),
{
}

proof fn lemma_push<K, V>(s: Seq<(K, V)>, k: K, v: V)
    requires
        distinct(s),
        !holds(s, k),
    ensures
        distinct(s.push((k, v))),
        as_map(s.push((k, v))) == as_map(s).insert(k, v),
{
    let t = s.push((k, v));
    assert forall|q: K| #[trigger] as_map(t).contains_key(q) <==> as_map(s).insert(
        k,
        v,
    ).contains_key(q) by {
        if holds(s, q) {
            assert(t[position(s, q)].0 == q);
        }
        if q == k {
            assert(t[s.len() as int].0 == q);
        }
    }
}

proof fn lemma_update<K, V>(s: Seq<(K, V)>, i: int, v: V)
    requires
        distinct(s),
        0 <= i < s.len(),
    ensures
        distinct(s.update(i, (s[i].0, v))),
        as_map(s.update(i, (s[i].0, v))) == as_map(s).insert(s[i].0, v),
{
    let k = s[i].0;
    let t = s.update(i, (k, v));
    assert forall|q: K| #[trigger] as_map(t).contains_key(q) <==> as_map(s).insert(
        k,
        v,
    ).contains_key(q) by {
        if holds(s, q) {
            assert(t[position(s, q)].0 == q);
        }
    }
}

proof fn lemma_remove<K, V>(s: Seq<(K, V)>, i: int)
    requires
        distinct(s),
        0 <= i < s.len(),
    ensures
        distinct(s.remove(i)),
        as_map(s.remove(i)) == as_map(s).remove(s[i].0),
{
    let k = s[i].0;
    let t = s.remove(i);
    assert forall|a: int| 0 <= a < t.len() implies #[trigger] t[a] == s[if a < i {
        a
    } else {
        a + 1
    }] by {}
    assert forall|q: K| #[trigger] as_map(t).contains_key(q) <==> as_map(s).remove(
        k,
    ).contains_key(q) by {
        if holds(s, q) && q != k {
            let p = position(s, q);
            assert(t[if p < i {
                p
            } else {
                p - 1
            }].0 == q);
        }
    }
}

proof fn lemma_sum_push<K, V>(s: Seq<(K, V)>, e: (K, V), w: spec_fn(K, V) -> nat)
    ensures
        sum(s.push(e), w) == sum(s, w) + w(e.0, e.1),
{
    assert(s.push(e).drop_last() =~= s);
}

proof fn lemma_sum_update<K, V>(s: Seq<(K, V)>, i: int, e: (K, V), w: spec_fn(K, V) -> nat)
    requires
        0 <= i < s.len(),
    ensures
        sum(s.update(i, e), w) == sum(s, w) - w(s[i].0, s[i].1) + w(e.0, e.1),
    decreases s.len(),
{
    let t = s.update(i, e);
    if i == s.len() - 1 {
        assert(t.drop_last() =~= s.drop_last());
    } else {
        assert(t.drop_last() =~= s.drop_last().update(i, e));
        lemma_sum_update(s.drop_last(), i, e, w);
    }
}

proof fn lemma_sum_remove<K, V>(s: Seq<(K, V)>, i: int, w: spec_fn(K, V) -> nat)
    requires
        0 <= i < s.len(),
    ensures
        sum(s.remove(i), w) == sum(s, w) - w(s[i].0, s[i].1),
    decreases s.len(),
{
    let t = s.remove(i);
    if i == s.len() - 1 {
    } else {
        assert(t.drop_last() =~= s.drop_last().remove(i));
        lemma_sum_remove(s.drop_last(), i, w);
    }
}

proof fn lemma_sum_ge<K, V>(s: Seq<(K, V)>, i: int, w: spec_fn(K, V) -> nat)
    requires
        0 <= i < s.len(),
    ensures
        w(s[i].0, s[i].1) <= sum(s, w),
    decreases s.len(),
{
    if i < s.len() - 1 {
        lemma_sum_ge(s.drop_last(), i, w);
    }
}

impl<K, V> View for Table<K, V> {
    type V = Map<K, V>;

    closed spec fn view(&self) -> Map<K, V> {
        as_map(self.entries@)
    }
}

impl<K: Key, V: Copy> Table<K, V> {
    /// No key occurs twice.
    pub closed spec fn wf(&self) -> bool {
        distinct(self.entries@)
    }

    /// The sum of `w(k, v)` over all entries `(k, v)` of the table.
    pub closed spec fn total(&self, w: spec_fn(K, V) -> nat) -> nat {
        sum(self.entries@, w)
    }

    pub fn new() -> (t: Self)
        ensures
            t.wf(),
            t@ == Map::<K, V>::empty(),
            forall|w: spec_fn(K, V) -> nat| #[trigger] t.total(w) == 0,
    {
        let t = Table { entries: Vec::new() };
        t
    }

    fn locate(&self, k: &K) -> (r: Option<usize>)
        requires
            self.wf(),
        ensures
            match r {
                Some(i) => i < self.entries@.len() && self.entries@[i as int].0 == *k,
                None => !holds(self.entries@, *k),
            },
    {
        let n = self.entries.len();
        let mut i: usize = 0;
        while i < n
            invariant
                i <= n,
                n == self.entries@.len(),
                forall|j: int| 0 <= j < i ==> (#[trigger] self.entries@[j]).0 != *k,
            decreases n - i,
        {
            if self.entries[i].0.same(k) {
                return Some(i);
            }
            i += 1;
        }
        None
    }

    /// The value stored under `k`, if any.
    pub fn get(&self, k: &K) -> (r: Option<V>)
        requires
            self.wf(),
        ensures
            r == (if self@.contains_key(*k) {
                Some(self@[*k])
            } else {
                None::<V>
            }),
    {
        match self.locate(k) {
            Some(i) => {
                proof {
                    lemma_position(self.entries@, i as int);
                }
                Some(self.entries[i].1)
            },
            None => {
                proof {
                    lemma_absent(self.entries@, *k);
                }
                None
            },
        }
    }

    /// Stores `v` under `k`, in place of what was stored there.
    pub fn put(&mut self, k: K, v: V)
        requires
            old(self).wf(),
        ensures
            final(self).wf(),
            final(self)@ == old(self)@.insert(k, v),
            forall|w: spec_fn(K, V) -> nat| #[trigger]
                final(self).total(w) == old(self).total(w) - (if old(self)@.contains_key(k) {
                    w(k, old(self)@[k])
                } else {
                    0
                }) + w(k, v),
    {
        match self.locate(&k) {
            Some(i) => {
                proof {
                    lemma_position(self.entries@, i as int);
                    lemma_update(self.entries@, i as int, v);
                    assert forall|w: spec_fn(K, V) -> nat|
                        sum(self.entries@.update(i as int, (k, v)), w) == #[trigger] sum(
                            self.entries@,
                            w,
                        ) - w(k, old(self)@[k]) + w(k, v) by {
                        lemma_sum_update(self.entries@, i as int, (k, v), w);
                    }
                }
                self.entries.set(i, (k, v));
            },
            None => {
                proof {
                    lemma_absent(self.entries@, k);
                    lemma_push(self.entries@, k, v);
                    assert forall|w: spec_fn(K, V) -> nat|
                        sum(self.entries@.push((k, v)), w) == #[trigger] sum(self.entries@, w) + w(
                            k,
                            v,
                        ) by {
                        lemma_sum_push(self.entries@, (k, v), w);
                    }
                }
                self.entries.push((k, v));
            },
        }
    }

    /// Removes what is stored under `k` and returns it.
    pub fn remove(&mut self, k: &K) -> (r: Option<V>)
        requires
            old(self).wf(),
        ensures
            final(self).wf(),
            final(self)@ == old(self)@.remove(*k),
            r == (if old(self)@.contains_key(*k) {
                Some(old(self)@[*k])
            } else {
                None::<V>
            }),
            forall|w: spec_fn(K, V) -> nat| #[trigger]
                final(self).total(w) == old(self).total(w) - (if old(self)@.contains_key(*k) {
                    w(*k, old(self)@[*k])
                } else {
                    0
                }),
    {
        match self.locate(k) {
            Some(i) => {
                proof {
                    lemma_position(self.entries@, i as int);
                    lemma_remove(self.entries@, i as int);
                    assert forall|w: spec_fn(K, V) -> nat|
                        sum(self.entries@.remove(i as int), w) == #[trigger] sum(self.entries@, w)
                            - w(*k, old(self)@[*k]) by {
                        lemma_sum_remove(self.entries@, i as int, w);
                    }
                }
                let e = self.entries.remove(i);
                Some(e.1)
            },
            None => {
                proof {
                    lemma_absent(self.entries@, *k);
                }
                None
            },
        }
    }

    /// A copy of the table.
    pub fn snapshot(&self) -> (t: Self)
        ensures
            t@ == self@,
            t.wf() == self.wf(),
            forall|w: spec_fn(K, V) -> nat| #[trigger] t.total(w) == self.total(w),
    {
        let n = self.entries.len();
        let mut entries: Vec<(K, V)> = Vec::new();
        let mut i: usize = 0;
        while i < n
            invariant
                i <= n,
                n == self.entries@.len(),
                entries@ == self.entries@.subrange(0, i as int),
            decreases n - i,
        {
            let e = self.entries[i];
            entries.push((e.0, e.1));
            i += 1;
        }
        assert(entries@ =~= self.entries@);
        Table { entries }
    }

    /// No entry weighs more than the whole table.
    pub proof fn lemma_total_ge(&self, w: spec_fn(K, V) -> nat, k: K)
        requires
            self.wf(),
            self@.contains_key(k),
        ensures
            w(k, self@[k]) <= self.total(w),
    {
        let i = position(self.entries@, k);
        lemma_position(self.entries@, i);
        lemma_sum_ge(self.entries@, i, w);
    }
}

} // verus!
