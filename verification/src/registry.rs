//! A map keyed by identity that keeps its entries sorted by key, so that no
//! key occurs twice and the entries are always walked in the same order.

use crate::identity::{lemma_precedes_total, lemma_precedes_transitive, Identity};
use vstd::prelude::*;

verus! {

/// The keys of `s` grow strictly from each entry to the next.
pub open spec fn increasing<V>(s: Seq<(Identity, V)>) -> bool {
    forall|i: int, j: int| 0 <= i < j < s.len() ==> (#[trigger] s[i]).0.precedes((#[trigger] s[j]).0)
}

/// Some entry of `s` has the key `k`.
pub open spec fn has_key<V>(s: Seq<(Identity, V)>, k: Identity) -> bool {
    exists|i: int| 0 <= i < s.len() && (#[trigger] s[i]).0 == k
}

/// The position of an entry of `s` with the key `k`.
pub open spec fn index_of<V>(s: Seq<(Identity, V)>, k: Identity) -> int {
    choose|i: int| 0 <= i < s.len() && (#[trigger] s[i]).0 == k
}

/// The map that a sequence of entries stands for.
pub open spec fn as_map<V>(s: Seq<(Identity, V)>) -> Map<Identity, V> {
    Map::new(|k: Identity| has_key(s, k), |k: Identity| s[index_of(s, k)].1)
}

/// In an increasing sequence the entry at `i` is the one that its key maps to.
pub proof fn lemma_entry_is_mapped<V>(s: Seq<(Identity, V)>, i: int)
    requires
        increasing(s),
        0 <= i < s.len(),
    ensures
        as_map(s).contains_key(s[i].0),
        as_map(s)[s[i].0] == s[i].1,
        index_of(s, s[i].0) == i,
{
    let k = s[i].0;
    assert(has_key(s, k));
    let j = index_of(s, k);
    lemma_precedes_total(s[i].0, s[j].0);
    if j < i {
        assert(s[j].0.precedes(s[i].0));
    } else if i < j {
        assert(s[i].0.precedes(s[j].0));
    }
}

/// An increasing sequence stands for a finite map with one key for each entry.
pub proof fn lemma_as_map_len<V>(s: Seq<(Identity, V)>)
    requires
        increasing(s),
    ensures
        as_map(s).dom().finite(),
        as_map(s).dom().len() == s.len(),
    decreases s.len(),
{
    if s.len() == 0 {
        assert(as_map(s).dom() =~= Set::<Identity>::empty());
    } else {
        let front = s.drop_last();
        let last = s.last();
        assert forall|i: int, j: int| 0 <= i < j < front.len() implies (#[trigger] front[i]).0.precedes(
            (#[trigger] front[j]).0,
        ) by {
            assert(s[i].0.precedes(s[j].0));
        }
        lemma_as_map_len(front);
        if has_key(front, last.0) {
            let i = index_of(front, last.0);
            assert(s[i].0.precedes(s[s.len() - 1].0));
            lemma_precedes_total(s[i].0, last.0);
        }
        assert forall|k: Identity| as_map(s).dom().contains(k) <==> as_map(front).dom().insert(
            last.0,
        ).contains(k) by {
            if has_key(s, k) {
                let i = index_of(s, k);
                if i < front.len() {
                    assert(front[i].0 == k);
                }
            }
            if has_key(front, k) {
                let i = index_of(front, k);
                assert(s[i].0 == k);
            }
            if k == last.0 {
                assert(s[s.len() - 1].0 == k);
            }
        }
        assert(as_map(s).dom() =~= as_map(front).dom().insert(last.0));
    }
}

/// Putting a new entry at `at`, between the keys that precede it and those
/// that it precedes, keeps the sequence increasing and adds the entry to the
/// map.
pub proof fn lemma_insert_new<V>(s: Seq<(Identity, V)>, at: int, k: Identity, v: V)
    requires
        increasing(s),
        0 <= at <= s.len(),
        forall|j: int| 0 <= j < at ==> (#[trigger] s[j]).0.precedes(k),
        forall|j: int| at <= j < s.len() ==> k.precedes((#[trigger] s[j]).0),
    ensures
        increasing(s.insert(at, (k, v))),
        as_map(s.insert(at, (k, v))) == as_map(s).insert(k, v),
{
    let t = s.insert(at, (k, v));
    assert forall|i: int, j: int| 0 <= i < j < t.len() implies (#[trigger] t[i]).0.precedes(
        (#[trigger] t[j]).0,
    ) by {
        let a = if i < at { i } else { i - 1 };
        let b = if j < at { j } else { j - 1 };
        if i != at && j != at {
            assert(s[a].0.precedes(s[b].0));
        } else if i == at {
            assert(k.precedes(s[b].0));
        } else {
            assert(s[a].0.precedes(k));
        }
    }
    assert forall|q: Identity| #[trigger] as_map(t).contains_key(q) <==> as_map(s).insert(k, v).contains_key(q) by {
        if has_key(t, q) {
            let i = index_of(t, q);
            if i < at {
                assert(s[i].0 == q);
            } else if i > at {
                assert(s[i - 1].0 == q);
            }
        }
        if has_key(s, q) {
            let i = index_of(s, q);
            if i < at {
                assert(t[i].0 == q);
            } else {
                assert(t[i + 1].0 == q);
            }
        }
        if q == k {
            assert(t[at].0 == q);
        }
    }
    assert forall|q: Identity| #[trigger] as_map(t).contains_key(q) implies as_map(t)[q] == as_map(s).insert(k, v)[q] by {
        let i = index_of(t, q);
        lemma_entry_is_mapped(t, i);
        if i < at {
            lemma_entry_is_mapped(s, i);
            lemma_precedes_total(q, k);
        } else if i > at {
            lemma_entry_is_mapped(s, i - 1);
            lemma_precedes_total(q, k);
        }
    }
    assert(as_map(t) =~= as_map(s).insert(k, v));
}

/// Putting a new value on the entry at `at` keeps the sequence increasing and
/// remaps its key.
pub proof fn lemma_replace<V>(s: Seq<(Identity, V)>, at: int, v: V)
    requires
        increasing(s),
        0 <= at < s.len(),
    ensures
        increasing(s.update(at, (s[at].0, v))),
        as_map(s.update(at, (s[at].0, v))) == as_map(s).insert(s[at].0, v),
{
    let k = s[at].0;
    let t = s.update(at, (k, v));
    assert forall|i: int, j: int| 0 <= i < j < t.len() implies (#[trigger] t[i]).0.precedes(
        (#[trigger] t[j]).0,
    ) by {
        assert(s[i].0.precedes(s[j].0));
    }
    assert forall|q: Identity| #[trigger] as_map(t).contains_key(q) <==> as_map(s).insert(k, v).contains_key(q) by {
        if has_key(t, q) {
            let i = index_of(t, q);
            assert(s[i].0 == q);
        }
        if has_key(s, q) {
            let i = index_of(s, q);
            assert(t[i].0 == q);
        }
        if q == k {
            assert(t[at].0 == q);
        }
    }
    assert forall|q: Identity| #[trigger] as_map(t).contains_key(q) implies as_map(t)[q] == as_map(s).insert(k, v)[q] by {
        let i = index_of(t, q);
        lemma_entry_is_mapped(t, i);
        if i != at {
            lemma_entry_is_mapped(s, i);
        }
    }
    assert(as_map(t) =~= as_map(s).insert(k, v));
}

/// Without its last entry an increasing sequence is increasing and stands for
/// the map without the last key.
pub proof fn lemma_front<V>(s: Seq<(Identity, V)>)
    requires
        increasing(s),
        s.len() > 0,
    ensures
        increasing(s.drop_last()),
        as_map(s.drop_last()) == as_map(s).remove(s.last().0),
{
    let front = s.drop_last();
    let n = s.len() - 1;
    assert forall|i: int, j: int| 0 <= i < j < front.len() implies (#[trigger] front[i]).0.precedes(
        (#[trigger] front[j]).0,
    ) by {
        assert(s[i].0.precedes(s[j].0));
    }
    assert forall|q: Identity| #[trigger] as_map(front).contains_key(q) <==> as_map(s).remove(s[n].0).contains_key(q) by {
        if has_key(front, q) {
            let i = index_of(front, q);
            assert(s[i].0 == q);
            assert(s[i].0.precedes(s[n].0));
            lemma_precedes_total(q, s[n].0);
        }
        if has_key(s, q) && q != s[n].0 {
            let i = index_of(s, q);
            assert(front[i].0 == q);
        }
    }
    assert forall|q: Identity| #[trigger] as_map(front).contains_key(q) implies as_map(front)[q] == as_map(s).remove(s[n].0)[q] by {
        let i = index_of(front, q);
        lemma_entry_is_mapped(front, i);
        lemma_entry_is_mapped(s, i);
    }
    assert(as_map(front) =~= as_map(s).remove(s[n].0));
}

/// The entries of a map have one order only: two increasing sequences that
/// stand for the same map are the same sequence.
pub proof fn lemma_order_is_determined<V>(s: Seq<(Identity, V)>, t: Seq<(Identity, V)>)
    requires
        increasing(s),
        increasing(t),
        as_map(s) == as_map(t),
    ensures
        s == t,
    decreases s.len(),
{
    lemma_as_map_len(s);
    lemma_as_map_len(t);
    if s.len() == 0 {
        assert(s =~= t);
    } else {
        let n = s.len() - 1;
        lemma_entry_is_mapped(s, n);
        lemma_entry_is_mapped(t, n);
        assert(has_key(t, s[n].0));
        assert(has_key(s, t[n].0));
        let j = index_of(t, s[n].0);
        let k = index_of(s, t[n].0);
        if j < n {
            assert(t[j].0.precedes(t[n].0));
            if k < n {
                assert(s[k].0.precedes(s[n].0));
            }
            lemma_precedes_total(s[n].0, t[n].0);
        }
        lemma_entry_is_mapped(t, j);
        assert(s[n] == t[n]);
        lemma_front(s);
        lemma_front(t);
        lemma_order_is_determined(s.drop_last(), t.drop_last());
        assert(s =~= s.drop_last().push(s[n]));
        assert(t =~= t.drop_last().push(t[n]));
    }
}

/// A map from identities to values of `V`, held as entries sorted by key.
#[derive(Debug, PartialEq, Eq)]
pub struct IdentityMap<V> {
    entries: Vec<(Identity, V)>,
}

impl<V> View for IdentityMap<V> {
    type V = Map<Identity, V>;

    closed spec fn view(&self) -> Map<Identity, V> {
        as_map(self.entries@)
    }
}

impl<V: Clone> Clone for IdentityMap<V> {
    /// A map with the same keys in the same order, each with a clone of its
    /// value.
    fn clone(&self) -> (copy: Self)
        ensures
            copy@.dom() == self@.dom(),
            copy.in_order().len() == self.in_order().len(),
            forall|i: int|
                0 <= i < self.in_order().len() ==> (#[trigger] copy.in_order()[i]).0
                    == self.in_order()[i].0 && cloned(self.in_order()[i].1, copy.in_order()[i].1),
    {
        proof {
            use_type_invariant(self);
        }
        let mut entries: Vec<(Identity, V)> = Vec::new();
        let mut i: usize = 0;
        while i < self.entries.len()
            invariant
                i <= self.entries@.len(),
                entries@.len() == i,
                forall|j: int|
                    0 <= j < i ==> (#[trigger] entries@[j]).0 == self.entries@[j].0 && cloned(
                        self.entries@[j].1,
                        entries@[j].1,
                    ),
            decreases self.entries@.len() - i,
        {
            let held = &self.entries[i];
            entries.push((held.0, held.1.clone()));
            i += 1;
        }
        proof {
            assert forall|a: int, b: int| 0 <= a < b < entries@.len() implies (#[trigger] entries@[a]).0.precedes(
                (#[trigger] entries@[b]).0,
            ) by {
                assert(self.entries@[a].0.precedes(self.entries@[b].0));
            }
            assert forall|k: Identity| has_key(entries@, k) <==> has_key(self.entries@, k) by {
                if has_key(entries@, k) {
                    let i = index_of(entries@, k);
                    assert(self.entries@[i].0 == k);
                }
                if has_key(self.entries@, k) {
                    let i = index_of(self.entries@, k);
                    assert(entries@[i].0 == k);
                }
            }
            assert(as_map(entries@).dom() =~= as_map(self.entries@).dom());
        }
        IdentityMap { entries }
    }
}

impl<V> IdentityMap<V> {
    #[verifier::type_invariant]
    spec fn ordered(&self) -> bool {
        increasing(self.entries@)
    }

    /// The entries in the order in which they are held and walked.
    pub closed spec fn in_order(&self) -> Seq<(Identity, V)> {
        self.entries@
    }

    /// The empty map.
    pub fn new() -> (m: IdentityMap<V>)
        ensures
            m@ == Map::<Identity, V>::empty(),
            m.in_order() == Seq::<(Identity, V)>::empty(),
    {
        let m = IdentityMap { entries: Vec::new() };
        assert(m@ =~= Map::<Identity, V>::empty());
        m
    }

    /// The number of keys. The entries are as many, grow strictly in key, and
    /// stand for the map.
    pub fn len(&self) -> (n: usize)
        ensures
            n == self@.len(),
            n == self.in_order().len(),
            self@.dom().finite(),
            increasing(self.in_order()),
            self@ == as_map(self.in_order()),
    {
        proof {
            use_type_invariant(self);
            lemma_as_map_len(self.entries@);
        }
        self.entries.len()
    }

    /// The entry at position `at` of the walk in key order.
    pub fn entry_at(&self, at: usize) -> (entry: (&Identity, &V))
        requires
            at < self.in_order().len(),
        ensures
            *entry.0 == self.in_order()[at as int].0,
            *entry.1 == self.in_order()[at as int].1,
            self@.contains_key(*entry.0),
            self@[*entry.0] == *entry.1,
    {
        proof {
            use_type_invariant(self);
            lemma_entry_is_mapped(self.entries@, at as int);
        }
        let entry = &self.entries[at];
        (&entry.0, &entry.1)
    }

    /// Where `key` stands among the entries: the position of its entry and
    /// `true`, or the position at which an entry for it belongs and `false`.
    fn locate(&self, key: &Identity) -> (r: (usize, bool))
        ensures
            r.0 <= self.entries@.len(),
            r.1 ==> r.0 < self.entries@.len() && self.entries@[r.0 as int].0 == *key,
            !r.1 ==> !has_key(self.entries@, *key),
            !r.1 ==> forall|j: int| 0 <= j < r.0 ==> (#[trigger] self.entries@[j]).0.precedes(*key),
            !r.1 ==> forall|j: int|
                r.0 <= j < self.entries@.len() ==> key.precedes((#[trigger] self.entries@[j]).0),
    {
        proof {
            use_type_invariant(self);
        }
        let mut lo: usize = 0;
        let mut hi: usize = self.entries.len();
        while lo < hi
            invariant
                lo <= hi <= self.entries@.len(),
                increasing(self.entries@),
                forall|j: int| 0 <= j < lo ==> (#[trigger] self.entries@[j]).0.precedes(*key),
                forall|j: int|
                    hi <= j < self.entries@.len() ==> key.precedes((#[trigger] self.entries@[j]).0),
            decreases hi - lo,
        {
            let mid: usize = lo + (hi - lo) / 2;
            let held = &self.entries[mid].0;
            let at = held.first_difference(key);
            if at == 32 {
                return (mid, true);
            }
            if held.bytes[at] < key.bytes[at] {
                assert(held.precedes(*key));
                assert forall|j: int| 0 <= j < mid + 1 implies (#[trigger] self.entries@[j]).0.precedes(
                    *key,
                ) by {
                    if j < mid {
                        assert(self.entries@[j].0.precedes(self.entries@[mid as int].0));
                        lemma_precedes_transitive(self.entries@[j].0, *held, *key);
                    }
                }
                lo = mid + 1;
            } else {
                assert(key.agrees_below(*held, at as int));
                assert(key.precedes(*held));
                assert forall|j: int| mid <= j < self.entries@.len() implies key.precedes(
                    (#[trigger] self.entries@[j]).0,
                ) by {
                    if mid < j {
                        assert(self.entries@[mid as int].0.precedes(self.entries@[j].0));
                        lemma_precedes_transitive(*key, *held, self.entries@[j].0);
                    }
                }
                hi = mid;
            }
        }
        proof {
            if has_key(self.entries@, *key) {
                let i = index_of(self.entries@, *key);
                lemma_precedes_total(self.entries@[i].0, *key);
            }
        }
        (lo, false)
    }

    /// Whether the map holds `key`.
    pub fn contains_key(&self, key: &Identity) -> (held: bool)
        ensures
            held == self@.contains_key(*key),
    {
        let (_, found) = self.locate(key);
        found
    }

    /// The value that `key` maps to, if the map holds the key.
    pub fn get(&self, key: &Identity) -> (value: Option<&V>)
        ensures
            value.is_some() == self@.contains_key(*key),
            value.is_some() ==> *value.unwrap() == self@[*key],
    {
        let (at, found) = self.locate(key);
        if found {
            proof {
                use_type_invariant(self);
                lemma_entry_is_mapped(self.entries@, at as int);
            }
            Some(&self.entries[at].1)
        } else {
            None
        }
    }

    /// Maps `key` to `value`, in place of what it mapped to before if the map
    /// held it.
    pub fn insert(&mut self, key: Identity, value: V)
        ensures
            final(self)@ == old(self)@.insert(key, value),
    {
        proof {
            use_type_invariant(&*self);
        }
        let (at, found) = self.locate(&key);
        let mut taken = IdentityMap { entries: Vec::new() };
        core::mem::swap(self, &mut taken);
        let mut entries = taken.entries;
        if found {
            proof {
                lemma_replace(entries@, at as int, value);
            }
            entries[at] = (key, value);
        } else {
            proof {
                lemma_insert_new(entries@, at as int, key, value);
            }
            entries.insert(at, (key, value));
        }
        *self = IdentityMap { entries };
    }
}

} // verus!
