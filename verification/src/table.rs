//! A keyed table, and sums over its values.

use vstd::prelude::*;

use crate::ident::{Address, Symbol};

verus! {

/// Keys that can be compared.
pub trait Key: Copy {
    fn same(&self, other: &Self) -> (r: bool)
        ensures
            r == (*self == *other),
    ;
}

impl Key for Symbol {
    fn same(&self, other: &Self) -> (r: bool) {
        *self == *other
    }
}

impl Key for Address {
    fn same(&self, other: &Self) -> (r: bool) {
        *self == *other
    }
}

impl Key for u32 {
    fn same(&self, other: &Self) -> (r: bool) {
        *self == *other
    }
}

/// A finite map from keys to values, seen as a `Map`.
pub struct Table<K, V> {
    entries: Vec<(K, V)>,
}

impl<K: Key, V> View for Table<K, V> {
    type V = Map<K, V>;

    closed spec fn view(&self) -> Map<K, V> {
        Map::new(
            |k: K| exists|i: int| 0 <= i < self.entries@.len() && (#[trigger] self.entries@[i]).0 == k,
            |k: K|
                self.entries@[choose|i: int|
                    0 <= i < self.entries@.len() && (#[trigger] self.entries@[i]).0 == k].1,
        )
    }
}

impl<K: Key, V> Table<K, V> {
    /// No key is entered twice.
    pub closed spec fn wf(&self) -> bool {
        forall|i: int, j: int|
            0 <= i < j < self.entries@.len() ==> (#[trigger] self.entries@[i]).0 != (
            #[trigger] self.entries@[j]).0
    }

    /// The entry at `i` is what the table holds under its key.
    proof fn lemma_entry(&self, i: int)
        requires
            self.wf(),
            0 <= i < self.entries@.len(),
        ensures
            self@.contains_key(self.entries@[i].0),
            self@[self.entries@[i].0] == self.entries@[i].1,
    {
        let k = self.entries@[i].0;
        let j = choose|j: int| 0 <= j < self.entries@.len() && (#[trigger] self.entries@[j]).0 == k;
        assert(0 <= j < self.entries@.len() && self.entries@[j].0 == k);
        if i < j {
        } else if j < i {
        }
    }

    /// The empty table.
    pub fn new() -> (t: Self)
        ensures
            t.wf(),
            t@ == Map::<K, V>::empty(),
    {
        let t = Table { entries: Vec::new() };
        assert(t@ =~= Map::<K, V>::empty());
        t
    }

    fn position(&self, key: &K) -> (r: Option<usize>)
        requires
            self.wf(),
        ensures
            r matches Some(i) ==> i < self.entries@.len() && self.entries@[i as int].0 == *key,
            r is None ==> forall|j: int|
                0 <= j < self.entries@.len() ==> (#[trigger] self.entries@[j]).0 != *key,
    {
        let mut i: usize = 0;
        while i < self.entries.len()
            invariant
                i <= self.entries@.len(),
                forall|j: int| 0 <= j < i ==> (#[trigger] self.entries@[j]).0 != *key,
            decreases self.entries@.len() - i,
        {
            if self.entries[i].0.same(key) {
                return Some(i);
            }
            i += 1;
        }
        None
    }

    /// The value under `key`, if there is one.
    pub fn get(&self, key: &K) -> (r: Option<&V>)
        requires
            self.wf(),
        ensures
            match r {
                Some(v) => self@.contains_key(*key) && self@[*key] == *v,
                None => !self@.contains_key(*key),
            },
    {
        match self.position(key) {
            Some(i) => {
                proof {
                    self.lemma_entry(i as int);
                }
                Some(&self.entries[i].1)
            },
            None => None,
        }
    }

    /// Takes the value under `key` out of the table, if there is one.
    pub fn take(&mut self, key: &K) -> (r: Option<V>)
        requires
            old(self).wf(),
        ensures
            final(self).wf(),
            final(self)@ == old(self)@.remove(*key),
            match r {
                Some(v) => old(self)@.contains_key(*key) && old(self)@[*key] == v,
                None => !old(self)@.contains_key(*key),
            },
    {
        let ghost before = *self;
        match self.position(key) {
            Some(i) => {
                proof {
                    before.lemma_entry(i as int);
                }
                let (_, value) = self.entries.swap_remove(i);
                proof {
                    lemma_taken(before, *self, *key, i as int);
                }
                Some(value)
            },
            None => {
                assert(self@ =~= before@.remove(*key));
                None
            },
        }
    }

    /// Enters `value` under `key`, in place of what was there.
    pub fn set(&mut self, key: K, value: V)
        requires
            old(self).wf(),
        ensures
            final(self).wf(),
            final(self)@ == old(self)@.insert(key, value),
    {
        let ghost before = *self;
        match self.position(&key) {
            Some(i) => {
                self.entries.set(i, (key, value));
                proof {
                    assert(self.wf()) by {
                        assert forall|a: int, b: int| 0 <= a < b < self.entries@.len() implies (
                        #[trigger] self.entries@[a]).0 != (#[trigger] self.entries@[b]).0 by {
                            assert(before.entries@[a].0 != before.entries@[b].0);
                        }
                    }
                    lemma_same_entries(before, *self, key, value, i as int);
                }
            },
            None => {
                self.entries.push((key, value));
                proof {
                    assert(self.wf()) by {
                        assert forall|a: int, b: int| 0 <= a < b < self.entries@.len() implies (
                        #[trigger] self.entries@[a]).0 != (#[trigger] self.entries@[b]).0 by {
                            if b < before.entries@.len() {
                                assert(before.entries@[a].0 != before.entries@[b].0);
                            } else {
                                assert(before.entries@[a].0 != key);
                            }
                        }
                    }
                    lemma_same_entries(before, *self, key, value, before.entries@.len() as int);
                }
            },
        }
    }
}

/// Two tables whose entries agree but for the one at `at` hold the same but
/// for the key there.
proof fn lemma_same_entries<K: Key, V>(t: Table<K, V>, u: Table<K, V>, key: K, value: V, at: int)
    requires
        t.wf(),
        u.wf(),
        0 <= at <= t.entries@.len(),
        at < u.entries@.len(),
        u.entries@.len() == t.entries@.len() || (u.entries@.len() == t.entries@.len() + 1 && at
            == t.entries@.len()),
        at < t.entries@.len() ==> t.entries@[at].0 == key,
        u.entries@[at] == (key, value),
        forall|j: int| 0 <= j < t.entries@.len() && j != at ==> t.entries@[j] == u.entries@[j],
        forall|j: int|
            0 <= j < t.entries@.len() && j != at ==> (#[trigger] t.entries@[j]).0 != key,
    ensures
        u@ == t@.insert(key, value),
{
    let next = t@.insert(key, value);
    assert forall|k: K| #[trigger] u@.contains_key(k) <==> next.contains_key(k) by {
        if u@.contains_key(k) {
            let i = choose|i: int| 0 <= i < u.entries@.len() && (#[trigger] u.entries@[i]).0 == k;
            if i != at {
                assert(t.entries@[i].0 == k);
            }
        }
        if next.contains_key(k) {
            if k == key {
                assert(u.entries@[at].0 == k);
            } else {
                let i = choose|i: int|
                    0 <= i < t.entries@.len() && (#[trigger] t.entries@[i]).0 == k;
                assert(u.entries@[i].0 == k);
            }
        }
    }
    assert forall|k: K| #[trigger] u@.contains_key(k) implies u@[k] == next[k] by {
        let i = choose|i: int| 0 <= i < u.entries@.len() && (#[trigger] u.entries@[i]).0 == k;
        u.lemma_entry(i);
        if i != at {
            t.lemma_entry(i);
        }
    }
    assert(u@ =~= next);
}

/// Moving the last entry into the place of the one at `at` takes out the key
/// there.
proof fn lemma_taken<K: Key, V>(t: Table<K, V>, u: Table<K, V>, key: K, at: int)
    requires
        t.wf(),
        0 <= at < t.entries@.len(),
        t.entries@[at].0 == key,
        u.entries@ == t.entries@.update(at, t.entries@.last()).drop_last(),
    ensures
        u.wf(),
        u@ == t@.remove(key),
{
    let last = t.entries@.len() - 1;
    assert forall|i: int, j: int| 0 <= i < j < u.entries@.len() implies (
    #[trigger] u.entries@[i]).0 != (#[trigger] u.entries@[j]).0 by {
        let a = if i == at { last } else { i };
        let b = if j == at { last } else { j };
        assert(u.entries@[i] == t.entries@[a] && u.entries@[j] == t.entries@[b]);
        if a < b {
        } else {
            assert(t.entries@[b].0 != t.entries@[a].0);
        }
    }
    let next = t@.remove(key);
    assert forall|k: K| #[trigger] u@.contains_key(k) <==> next.contains_key(k) by {
        if u@.contains_key(k) {
            let i = choose|i: int| 0 <= i < u.entries@.len() && (#[trigger] u.entries@[i]).0 == k;
            let a = if i == at { last } else { i };
            assert(t.entries@[a].0 == k);
            if a < at {
            } else {
                assert(at < a);
            }
            assert(t.entries@[at].0 != t.entries@[a].0);
        }
        if next.contains_key(k) {
            let i = choose|i: int| 0 <= i < t.entries@.len() && (#[trigger] t.entries@[i]).0 == k;
            if i == last {
                assert(u.entries@[at].0 == k);
            } else {
                assert(u.entries@[i].0 == k);
            }
        }
    }
    assert forall|k: K| #[trigger] u@.contains_key(k) implies u@[k] == next[k] by {
        let i = choose|i: int| 0 <= i < u.entries@.len() && (#[trigger] u.entries@[i]).0 == k;
        u.lemma_entry(i);
        let a = if i == at { last } else { i };
        t.lemma_entry(a);
    }
    assert(u@ =~= next);
}

/// A map with every value seen by its view.
pub open spec fn viewed<K, V: View>(m: Map<K, V>) -> Map<K, V::V> {
    Map::new(|k: K| m.contains_key(k), |k: K| m[k]@)
}

/// Entering a value in place of the one taken out enters its view.
pub proof fn lemma_viewed_replaced<K, V: View>(m: Map<K, V>, k: K, v: V)
    ensures
        viewed(m.insert(k, v)) == viewed(m).insert(k, v@),
        viewed(m.remove(k).insert(k, v)) == viewed(m).insert(k, v@),
{
    assert(viewed(m.insert(k, v)) =~= viewed(m).insert(k, v@));
    assert(viewed(m.remove(k).insert(k, v)) =~= viewed(m).insert(k, v@));
}

/// The sum of `f` over the values of a finite map.
pub open spec fn sum_of<K, V>(m: Map<K, V>, f: spec_fn(V) -> int) -> int
    decreases m.dom().len(),
    when m.dom().finite()
{
    if m.dom().len() == 0 {
        0
    } else {
        let k = m.dom().choose();
        f(m[k]) + sum_of(m.remove(k), f)
    }
}

/// A key can be counted first, whichever it is.
pub proof fn lemma_sum_remove<K, V>(m: Map<K, V>, f: spec_fn(V) -> int, k: K)
    requires
        m.dom().finite(),
        m.contains_key(k),
    ensures
        sum_of(m, f) == f(m[k]) + sum_of(m.remove(k), f),
    decreases m.dom().len(),
{
    let c = m.dom().choose();
    if c != k {
        lemma_sum_remove(m.remove(c), f, k);
        lemma_sum_remove(m.remove(k), f, c);
        assert(m.remove(c).remove(k) =~= m.remove(k).remove(c));
    }
}

/// Entering a value replaces the old one in the sum.
pub proof fn lemma_sum_insert<K, V>(m: Map<K, V>, f: spec_fn(V) -> int, k: K, v: V)
    requires
        m.dom().finite(),
    ensures
        m.insert(k, v).dom().finite(),
        sum_of(m.insert(k, v), f) == sum_of(m, f) - (if m.contains_key(k) {
            f(m[k])
        } else {
            0
        }) + f(v),
{
    let n = m.insert(k, v);
    lemma_sum_remove(n, f, k);
    if m.contains_key(k) {
        lemma_sum_remove(m, f, k);
        assert(n.remove(k) =~= m.remove(k));
    } else {
        assert(n.remove(k) =~= m);
    }
}

/// A sum of amounts that are not negative is at least each of them.
pub proof fn lemma_sum_bounds<K, V>(m: Map<K, V>, f: spec_fn(V) -> int, k: K)
    requires
        m.dom().finite(),
        forall|j: K| #[trigger] m.contains_key(j) ==> f(m[j]) >= 0,
    ensures
        sum_of(m, f) >= 0,
        m.contains_key(k) ==> sum_of(m, f) >= f(m[k]),
    decreases m.dom().len(),
{
    if m.dom().len() != 0 {
        let c = m.dom().choose();
        assert(m.contains_key(c));
        let rest = m.remove(c);
        assert forall|j: K| #[trigger] rest.contains_key(j) implies f(rest[j]) >= 0 by {
            assert(m.contains_key(j));
        }
        lemma_sum_bounds(rest, f, k);
    }
}

/// A map that is viewed holds the view of each value under its own key, and
/// nothing else.
pub proof fn law_viewed<K, V: View>(m: Map<K, V>, k: K)
    ensures
        viewed(m).contains_key(k) <==> m.contains_key(k),
        m.contains_key(k) ==> viewed(m)[k] == m[k]@,
{
}

/// The sum over nothing is zero, and a value that is entered under a new key
/// is added to it.
pub proof fn law_sum_adds_up<K, V>(m: Map<K, V>, f: spec_fn(V) -> int, k: K, v: V)
    requires
        m.dom().finite(),
        !m.contains_key(k),
    ensures
        sum_of(Map::<K, V>::empty(), f) == 0,
        sum_of(m.insert(k, v), f) == sum_of(m, f) + f(v),
{
    lemma_sum_insert(m, f, k, v);
}

} // verus!
