//! A map held as entries in the order of its keys.

use crate::seqs::{filter_contains, filter_keeps_relation, filter_prefix, filter_suffix, filter_twice};
use crate::text::{is_text_before, text_before, text_order};
use crate::value::Value;
use vstd::prelude::*;

verus! {

/// A value that can be looked things up by: its models are totally ordered.
pub trait Key: Value {
    /// Whether one model is strictly below another.
    spec fn below(a: Self::V, b: Self::V) -> bool;

    /// No model is below itself, "below" carries across, and of two different
    /// models one is below the other.
    proof fn ordered(a: Self::V, b: Self::V, c: Self::V)
        ensures
            !Self::below(a, a),
            Self::below(a, b) && Self::below(b, c) ==> Self::below(a, c),
            a == b || Self::below(a, b) || Self::below(b, a),
    ;

    /// Whether this key is strictly below another.
    fn is_below(&self, other: &Self) -> (below: bool)
        ensures
            below == Self::below(self.deep_view(), other.deep_view()),
    ;
}

impl Key for String {
    open spec fn below(a: Seq<char>, b: Seq<char>) -> bool {
        text_before(a, b)
    }

    proof fn ordered(a: Seq<char>, b: Seq<char>, c: Seq<char>) {
        text_order(a, b, c);
    }

    fn is_below(&self, other: &Self) -> (below: bool) {
        is_text_before(self.as_str(), other.as_str())
    }
}

impl Key for u64 {
    open spec fn below(a: u64, b: u64) -> bool {
        a < b
    }

    proof fn ordered(a: u64, b: u64, c: u64) {
    }

    fn is_below(&self, other: &Self) -> (below: bool) {
        *self < *other
    }
}

impl<A: Key, B: Key> Key for (A, B) {
    open spec fn below(a: (A::V, B::V), b: (A::V, B::V)) -> bool {
        A::below(a.0, b.0) || (a.0 == b.0 && B::below(a.1, b.1))
    }

    proof fn ordered(a: (A::V, B::V), b: (A::V, B::V), c: (A::V, B::V)) {
        A::ordered(a.0, b.0, c.0);
        A::ordered(b.0, a.0, c.0);
        A::ordered(a.0, c.0, b.0);
        B::ordered(a.1, b.1, c.1);
        A::ordered(a.0, b.0, a.0);
    }

    fn is_below(&self, other: &Self) -> (below: bool) {
        self.0.is_below(&other.0) || (self.0.same(&other.0) && self.1.is_below(&other.1))
    }
}

/// Whether entries stand in strictly ascending order of their keys.
pub open spec fn ascending<K: Key, W>(entries: Seq<(K::V, W)>) -> bool {
    forall|i: int, j: int| 0 <= i < j < entries.len() ==> K::below((#[trigger] entries[i]).0, (#[trigger] entries[j]).0)
}

/// Picks the entries below a key.
pub open spec fn under<K: Key, W>(key: K::V) -> spec_fn((K::V, W)) -> bool {
    |entry: (K::V, W)| K::below(entry.0, key)
}

/// Picks the entries above a key.
pub open spec fn over<K: Key, W>(key: K::V) -> spec_fn((K::V, W)) -> bool {
    |entry: (K::V, W)| K::below(key, entry.0)
}

/// Picks the entries of every other key.
pub open spec fn other_than<A, W>(key: A) -> spec_fn((A, W)) -> bool {
    |entry: (A, W)| entry.0 != key
}

/// The entries with a key's value put in its place.
pub open spec fn put<K: Key, W>(entries: Seq<(K::V, W)>, key: K::V, value: W) -> Seq<(K::V, W)> {
    entries.filter(under::<K, W>(key)) + seq![(key, value)] + entries.filter(over::<K, W>(key))
}

/// The entries without a key.
pub open spec fn cut<A, W>(entries: Seq<(A, W)>, key: A) -> Seq<(A, W)> {
    entries.filter(other_than::<A, W>(key))
}

/// Whether there is an entry for a key.
pub open spec fn is_key<A, W>(entries: Seq<(A, W)>, key: A) -> bool {
    exists|i: int| 0 <= i < entries.len() && (#[trigger] entries[i]).0 == key
}

/// The value of a key, if there is an entry for it.
pub open spec fn lookup<A, W>(entries: Seq<(A, W)>, key: A) -> Option<W> {
    if is_key(entries, key) {
        Some(entries[choose|i: int| 0 <= i < entries.len() && (#[trigger] entries[i]).0 == key].1)
    } else {
        None
    }
}

/// The values of entries, in their order.
pub open spec fn values<A, W>(entries: Seq<(A, W)>) -> Seq<W> {
    entries.map_values(|entry: (A, W)| entry.1)
}

/// In ascending entries a key is found where it stands.
pub proof fn lookup_at<K: Key, W>(entries: Seq<(K::V, W)>, at: int)
    requires
        ascending::<K, W>(entries),
        0 <= at < entries.len(),
    ensures
        lookup(entries, entries[at].0) == Some(entries[at].1),
{
    let key = entries[at].0;
    assert(is_key(entries, key));
    let found = choose|i: int| 0 <= i < entries.len() && (#[trigger] entries[i]).0 == key;
    K::ordered(key, key, key);
    if found < at {
        assert(K::below(entries[found].0, entries[at].0));
    } else if at < found {
        assert(K::below(entries[at].0, entries[found].0));
    }
}

/// Putting a value where a key belongs keeps the entries ascending.
pub proof fn put_keeps_order<K: Key, W>(entries: Seq<(K::V, W)>, key: K::V, value: W)
    requires
        ascending::<K, W>(entries),
    ensures
        ascending::<K, W>(put::<K, W>(entries, key, value)),
{
    let rel = |a: (K::V, W), b: (K::V, W)| K::below(a.0, b.0);
    filter_keeps_relation(entries, under::<K, W>(key), rel);
    filter_keeps_relation(entries, over::<K, W>(key), rel);
    let low = entries.filter(under::<K, W>(key));
    let high = entries.filter(over::<K, W>(key));
    let all = put::<K, W>(entries, key, value);
    broadcast use vstd::seq_lib::group_filter_ensures;
    assert forall|i: int, j: int| 0 <= i < j < all.len() implies K::below(
        (#[trigger] all[i]).0,
        (#[trigger] all[j]).0,
    ) by {
        if i < low.len() {
            assert(all[i] == low[i]);
            assert(under::<K, W>(key)(low[i]));
        } else if i > low.len() {
            assert(all[i] == high[i - low.len() - 1]);
        }
        if j < low.len() {
            assert(all[j] == low[j]);
            assert(rel(low[i], low[j]));
        } else if j > low.len() {
            assert(all[j] == high[j - low.len() - 1]);
            assert(over::<K, W>(key)(high[j - low.len() - 1]));
            if i > low.len() {
                assert(rel(high[i - low.len() - 1], high[j - low.len() - 1]));
            } else if i < low.len() {
                K::ordered(all[i].0, key, all[j].0);
            }
        }
    }
}

/// A key that was put is found with its value; every other key is found as before.
pub proof fn lookup_after_put<K: Key, W>(entries: Seq<(K::V, W)>, key: K::V, value: W, wanted: K::V)
    requires
        ascending::<K, W>(entries),
    ensures
        lookup(put::<K, W>(entries, key, value), wanted) == (if wanted == key {
            Some(value)
        } else {
            lookup(entries, wanted)
        }),
{
    let all = put::<K, W>(entries, key, value);
    let low = entries.filter(under::<K, W>(key));
    let high = entries.filter(over::<K, W>(key));
    put_keeps_order::<K, W>(entries, key, value);
    if wanted == key {
        assert(all[low.len() as int] == (key, value));
        lookup_at::<K, W>(all, low.len() as int);
    } else {
        broadcast use vstd::seq_lib::group_filter_ensures;
        if is_key(all, wanted) {
            let i = choose|i: int| 0 <= i < all.len() && (#[trigger] all[i]).0 == wanted;
            lookup_at::<K, W>(all, i);
            if i < low.len() {
                assert(all[i] == low[i]);
                filter_contains(entries, under::<K, W>(key), low[i]);
            } else {
                assert(all[i] == high[i - low.len() - 1]);
                filter_contains(entries, over::<K, W>(key), high[i - low.len() - 1]);
            }
            let k = choose|k: int| 0 <= k < entries.len() && entries[k] == all[i];
            lookup_at::<K, W>(entries, k);
        }
        if is_key(entries, wanted) {
            let k = choose|k: int| 0 <= k < entries.len() && (#[trigger] entries[k]).0 == wanted;
            K::ordered(wanted, key, key);
            if K::below(wanted, key) {
                filter_contains(entries, under::<K, W>(key), entries[k]);
                let i = choose|i: int| 0 <= i < low.len() && low[i] == entries[k];
                assert(all[i] == entries[k]);
            } else {
                filter_contains(entries, over::<K, W>(key), entries[k]);
                let i = choose|i: int| 0 <= i < high.len() && high[i] == entries[k];
                assert(all[i + low.len() + 1] == entries[k]);
            }
        }
    }
}

/// Of two ascending entries the first has the lower key.
pub proof fn ascending_at<K: Key, W>(entries: Seq<(K::V, W)>, i: int, j: int)
    requires
        ascending::<K, W>(entries),
        0 <= i < j < entries.len(),
    ensures
        K::below(entries[i].0, entries[j].0),
{
}

/// Leaving entries out keeps the rest ascending.
pub proof fn filter_keeps_order<K: Key, W>(entries: Seq<(K::V, W)>, keep: spec_fn((K::V, W)) -> bool)
    requires
        ascending::<K, W>(entries),
    ensures
        ascending::<K, W>(entries.filter(keep)),
{
    let rel = |a: (K::V, W), b: (K::V, W)| K::below(a.0, b.0);
    filter_keeps_relation(entries, keep, rel);
    let all = entries.filter(keep);
    assert forall|i: int, j: int| 0 <= i < j < all.len() implies K::below(
        (#[trigger] all[i]).0,
        (#[trigger] all[j]).0,
    ) by {
        assert(rel(all[i], all[j]));
    }
}

/// Cutting a key keeps the entries ascending.
pub proof fn cut_keeps_order<K: Key, W>(entries: Seq<(K::V, W)>, key: K::V)
    requires
        ascending::<K, W>(entries),
    ensures
        ascending::<K, W>(cut(entries, key)),
{
    filter_keeps_order::<K, W>(entries, other_than::<K::V, W>(key));
}

/// A key that was cut is not found; every other key is found as before.
pub proof fn lookup_after_cut<K: Key, W>(entries: Seq<(K::V, W)>, key: K::V, wanted: K::V)
    requires
        ascending::<K, W>(entries),
    ensures
        lookup(cut(entries, key), wanted) == (if wanted == key {
            None
        } else {
            lookup(entries, wanted)
        }),
{
    let all = cut(entries, key);
    cut_keeps_order::<K, W>(entries, key);
    if is_key(all, wanted) {
        let i = choose|i: int| 0 <= i < all.len() && (#[trigger] all[i]).0 == wanted;
        lookup_at::<K, W>(all, i);
        filter_contains(entries, other_than::<K::V, W>(key), all[i]);
        assert(all.contains(all[i]));
        let k = choose|k: int| 0 <= k < entries.len() && entries[k] == all[i];
        lookup_at::<K, W>(entries, k);
    }
    if is_key(entries, wanted) && wanted != key {
        let k = choose|k: int| 0 <= k < entries.len() && (#[trigger] entries[k]).0 == wanted;
        filter_contains(entries, other_than::<K::V, W>(key), entries[k]);
        assert(entries.contains(entries[k]));
        let i = choose|i: int| 0 <= i < all.len() && all[i] == entries[k];
        assert(all[i].0 == wanted);
    }
}

/// Cutting a key that is not there changes nothing.
pub proof fn cut_of_missing<K: Key, W>(entries: Seq<(K::V, W)>, key: K::V)
    requires
        !is_key(entries, key),
    ensures
        cut(entries, key) == entries,
{
    crate::seqs::filter_all(entries, other_than::<K::V, W>(key));
}

/// Putting a value in place of one that was cut is putting it.
pub proof fn put_after_cut<K: Key, W>(entries: Seq<(K::V, W)>, key: K::V, value: W)
    ensures
        put::<K, W>(cut(entries, key), key, value) == put::<K, W>(entries, key, value),
{
    K::ordered(key, key, key);
    filter_twice(entries, other_than::<K::V, W>(key), under::<K, W>(key), under::<K, W>(key));
    filter_twice(entries, other_than::<K::V, W>(key), over::<K, W>(key), over::<K, W>(key));
}

/// A map from keys to values, held in the order of its keys.
#[derive(Clone, Debug, PartialEq, Eq)]
pub struct OrdMap<K, W> {
    entries: Vec<(K, W)>,
}

impl<K: Key, W: DeepView> View for OrdMap<K, W> {
    type V = Seq<(K::V, W::V)>;

    closed spec fn view(&self) -> Seq<(K::V, W::V)> {
        self.entries.deep_view()
    }
}

impl<K: Key, W: DeepView> DeepView for OrdMap<K, W> {
    type V = Seq<(K::V, W::V)>;

    open spec fn deep_view(&self) -> Seq<(K::V, W::V)> {
        self@
    }
}

impl<K: Key, W: DeepView> OrdMap<K, W> {
    /// Whether the entries are in the order of their keys, each key once.
    pub open spec fn wf(&self) -> bool {
        ascending::<K, W::V>(self@)
    }

    /// Whether something holds of every value.
    pub closed spec fn all(&self, fine: spec_fn(W) -> bool) -> bool {
        forall|i: int| 0 <= i < self.entries.len() ==> fine((#[trigger] self.entries[i]).1)
    }

    /// What holds of every value holds of every model, where the one implies
    /// the other.
    pub proof fn all_models(&self, fine: spec_fn(W) -> bool, fine_model: spec_fn(W::V) -> bool)
        requires
            self.all(fine),
            forall|value: W| #[trigger] fine(value) ==> fine_model(value.deep_view()),
        ensures
            forall|i: int| 0 <= i < self@.len() ==> fine_model((#[trigger] self@[i]).1),
    {
        assert forall|i: int| 0 <= i < self@.len() implies fine_model((#[trigger] self@[i]).1) by {
            assert(fine(self.entries[i].1));
        }
    }

    /// An empty map.
    pub fn new() -> (map: Self)
        ensures
            map.wf(),
            map@ == Seq::<(K::V, W::V)>::empty(),
            forall|fine: spec_fn(W) -> bool| #[trigger] map.all(fine),
    {
        let map: Self = OrdMap { entries: Vec::new() };
        assert(map@ =~= Seq::empty());
        map
    }

    /// How many entries there are.
    pub fn len(&self) -> (len: usize)
        ensures
            len == self@.len(),
    {
        self.entries.len()
    }

    /// The key of an entry.
    pub fn key_at(&self, at: usize) -> (key: &K)
        requires
            at < self@.len(),
        ensures
            key.deep_view() == self@[at as int].0,
    {
        &self.entries[at].0
    }

    /// The value of an entry.
    pub fn value_at(&self, at: usize) -> (value: &W)
        requires
            at < self@.len(),
        ensures
            value.deep_view() == self@[at as int].1,
            forall|fine: spec_fn(W) -> bool| #[trigger] self.all(fine) ==> fine(*value),
    {
        &self.entries[at].1
    }

    /// Where a key belongs, and whether it is there.
    fn position(&self, key: &K) -> (found: (usize, bool))
        requires
            self.wf(),
        ensures
            found.0 <= self@.len(),
            forall|i: int| 0 <= i < found.0 ==> K::below((#[trigger] self@[i]).0, key.deep_view()),
            found.1 ==> found.0 < self@.len() && self@[found.0 as int].0 == key.deep_view(),
            forall|i: int|
                found.0 + (if found.1 { 1int } else { 0 }) <= i < self@.len() ==> K::below(
                    key.deep_view(),
                    (#[trigger] self@[i]).0,
                ),
    {
        let ghost wanted = key.deep_view();
        let mut low: usize = 0;
        let mut high: usize = self.entries.len();
        while low < high
            invariant
                self.wf(),
                wanted == key.deep_view(),
                low <= high <= self@.len(),
                forall|i: int| 0 <= i < low ==> K::below((#[trigger] self@[i]).0, wanted),
                forall|i: int| high <= i < self@.len() ==> !K::below((#[trigger] self@[i]).0, wanted),
            decreases high - low,
        {
            let middle: usize = low + (high - low) / 2;
            assert(self@[middle as int].0 == self.entries[middle as int].0.deep_view());
            if self.entries[middle].0.is_below(key) {
                proof {
                    assert forall|i: int| 0 <= i < middle + 1 implies K::below((#[trigger] self@[i]).0, wanted) by {
                        if i < middle {
                            K::ordered(self@[i].0, self@[middle as int].0, wanted);
                        }
                    }
                }
                low = middle + 1;
            } else {
                proof {
                    assert forall|i: int| middle <= i < self@.len() implies !K::below(
                        (#[trigger] self@[i]).0,
                        wanted,
                    ) by {
                        if i > middle && K::below(self@[i].0, wanted) {
                            K::ordered(self@[middle as int].0, self@[i].0, wanted);
                        }
                    }
                }
                high = middle;
            }
        }
        let here: bool = low < self.entries.len() && self.entries[low].0.same(key);
        proof {
            assert(low < self@.len() ==> self@[low as int].0 == self.entries[low as int].0.deep_view());
            let from = low + (if here { 1int } else { 0 });
            assert forall|i: int| from <= i < self@.len() implies K::below(wanted, (#[trigger] self@[i]).0) by {
                K::ordered(self@[i].0, wanted, wanted);
                if self@[i].0 == wanted {
                    assert(i > low);
                    assert(K::below(self@[low as int].0, self@[i].0));
                }
            }
        }
        (low, here)
    }

    /// The value of a key, if it has one.
    pub fn get(&self, key: &K) -> (value: Option<&W>)
        requires
            self.wf(),
        ensures
            value.deep_view() == lookup(self@, key.deep_view()),
            value is Some ==> forall|fine: spec_fn(W) -> bool| #[trigger] self.all(fine) ==> fine(*value->0),
    {
        let (at, here) = self.position(key);
        if here {
            proof {
                lookup_at::<K, W::V>(self@, at as int);
            }
            Some(&self.entries[at].1)
        } else {
            proof {
                if is_key(self@, key.deep_view()) {
                    let i = choose|i: int| 0 <= i < self@.len() && (#[trigger] self@[i]).0 == key.deep_view();
                    K::ordered(key.deep_view(), key.deep_view(), key.deep_view());
                    assert(K::below(self@[i].0, key.deep_view()) || K::below(key.deep_view(), self@[i].0));
                }
            }
            None
        }
    }

    /// Whether there are no entries.
    pub fn is_empty(&self) -> (empty: bool)
        ensures
            empty == (self@.len() == 0),
    {
        self.entries.len() == 0
    }

    /// Whether there is an entry for a key.
    pub fn contains_key(&self, key: &K) -> (held: bool)
        requires
            self.wf(),
        ensures
            held == is_key(self@, key.deep_view()),
    {
        self.get(key).is_some()
    }

    /// Gives a key a value, in place of the one it had.
    pub fn put(&mut self, key: K, value: W)
        requires
            old(self).wf(),
        ensures
            final(self).wf(),
            final(self)@ == put::<K, W::V>(old(self)@, key.deep_view(), value.deep_view()),
            forall|fine: spec_fn(W) -> bool|
                old(self).all(fine) && fine(value) ==> #[trigger] final(self).all(fine),
    {
        let (at, here) = self.position(&key);
        let ghost before = self@;
        let ghost (k, w) = (key.deep_view(), value.deep_view());
        proof {
            K::ordered(k, k, k);
            assert forall|i: int| at <= i < before.len() implies !under::<K, W::V>(k)(#[trigger] before[i]) by {
                if here && i == at {
                } else {
                    K::ordered(before[i].0, k, before[i].0);
                }
            }
            filter_prefix(before, under::<K, W::V>(k), at as int);
            let from = at + (if here { 1int } else { 0 });
            assert forall|i: int| 0 <= i < from implies !over::<K, W::V>(k)(#[trigger] before[i]) by {
                if i < at {
                    K::ordered(k, before[i].0, k);
                }
            }
            filter_suffix(before, over::<K, W::V>(k), from);
            put_keeps_order::<K, W::V>(before, k, w);
        }
        if here {
            let _ = self.entries.remove(at);
        }
        self.entries.insert(at, (key, value));
        assert(self@ =~= put::<K, W::V>(before, k, w));
    }

    /// Changes the value of an entry.
    pub fn replace_at(&mut self, at: usize, value: W)
        requires
            old(self).wf(),
            at < old(self)@.len(),
        ensures
            final(self).wf(),
            final(self)@ == old(self)@.update(at as int, (old(self)@[at as int].0, value.deep_view())),
            forall|fine: spec_fn(W) -> bool|
                old(self).all(fine) && fine(value) ==> #[trigger] final(self).all(fine),
    {
        let ghost before = self@;
        self.entries[at].1 = value;
        assert(self@ =~= before.update(at as int, (before[at as int].0, value.deep_view())));
        assert forall|i: int, j: int| 0 <= i < j < self@.len() implies K::below(
            (#[trigger] self@[i]).0,
            (#[trigger] self@[j]).0,
        ) by {
            assert(K::below(before[i].0, before[j].0));
        }
    }

    /// Takes the entry at a position out.
    pub fn remove_at(&mut self, at: usize)
        requires
            old(self).wf(),
            at < old(self)@.len(),
        ensures
            final(self).wf(),
            final(self)@ == old(self)@.remove(at as int),
            forall|fine: spec_fn(W) -> bool| old(self).all(fine) ==> #[trigger] final(self).all(fine),
    {
        let ghost before = self@;
        let _ = self.entries.remove(at);
        assert(self@ =~= before.remove(at as int));
        assert forall|i: int, j: int| 0 <= i < j < self@.len() implies K::below(
            (#[trigger] self@[i]).0,
            (#[trigger] self@[j]).0,
        ) by {
            let x = if i < at { i } else { i + 1 };
            let y = if j < at { j } else { j + 1 };
            assert(K::below(before[x].0, before[y].0));
        }
    }

    /// Takes every entry out.
    pub fn clear(&mut self)
        ensures
            final(self).wf(),
            final(self)@ == Seq::<(K::V, W::V)>::empty(),
            forall|fine: spec_fn(W) -> bool| #[trigger] final(self).all(fine),
    {
        self.entries.clear();
        assert(self@ =~= Seq::empty());
    }

    /// Takes a key's entry out, giving back its value.
    pub fn take(&mut self, key: &K) -> (value: Option<W>)
        requires
            old(self).wf(),
        ensures
            final(self).wf(),
            final(self)@ == cut(old(self)@, key.deep_view()),
            value.deep_view() == lookup(old(self)@, key.deep_view()),
            forall|fine: spec_fn(W) -> bool| old(self).all(fine) ==> #[trigger] final(self).all(fine),
            value is Some ==> forall|fine: spec_fn(W) -> bool| #[trigger] old(self).all(fine) ==> fine(value->0),
    {
        let (at, here) = self.position(key);
        let ghost before = self@;
        let ghost k = key.deep_view();
        proof {
            K::ordered(k, k, k);
            cut_keeps_order::<K, W::V>(before, k);
            if !here {
                assert forall|i: int| 0 <= i < before.len() implies other_than::<K::V, W::V>(k)(
                    #[trigger] before[i],
                ) by {}
                filter_prefix(before, other_than::<K::V, W::V>(k), before.len() as int);
                assert(before.take(before.len() as int) =~= before);
            } else {
                let keep = other_than::<K::V, W::V>(k);
                lookup_at::<K, W::V>(before, at as int);
                let (low, high) = (before.take(at as int), before.skip(at as int));
                assert(low + high =~= before);
                Seq::filter_distributes_over_add(low, high, keep);
                filter_prefix(low, keep, at as int);
                assert(low.take(at as int) =~= low);
                assert forall|i: int| 1 <= i < high.len() implies keep(#[trigger] high[i]) by {
                    assert(high[i] == before[at + i]);
                }
                filter_suffix(high, keep, 1);
            }
        }
        if here {
            let (_, value) = self.entries.remove(at);
            assert(self@ =~= cut(before, k));
            Some(value)
        } else {
            None
        }
    }
}

impl<K: Key, W: Value> Value for OrdMap<K, W> {
    fn dup(&self) -> (copy: Self) {
        let copy: Self = OrdMap { entries: self.entries.dup() };
        assert(copy@ == self@);
        copy
    }

    fn same(&self, other: &Self) -> (equal: bool) {
        self.entries.same(&other.entries)
    }
}

/// The entries that putting pairs one after the other leads to: of two values
/// for one key, the later one.
pub open spec fn collected<K: Key, W>(pairs: Seq<(K::V, W)>) -> Seq<(K::V, W)>
    decreases pairs.len(),
{
    if pairs.len() == 0 {
        seq![]
    } else {
        put::<K, W>(collected::<K, W>(pairs.drop_last()), pairs.last().0, pairs.last().1)
    }
}

/// Collected pairs are in the order of their keys.
pub proof fn collected_is_ascending<K: Key, W>(pairs: Seq<(K::V, W)>)
    ensures
        ascending::<K, W>(collected::<K, W>(pairs)),
    decreases pairs.len(),
{
    if pairs.len() > 0 {
        collected_is_ascending::<K, W>(pairs.drop_last());
        put_keeps_order::<K, W>(collected::<K, W>(pairs.drop_last()), pairs.last().0, pairs.last().1);
    }
}

/// The value of the last pair with a key.
pub open spec fn last_value<A, W>(pairs: Seq<(A, W)>, key: A) -> Option<W>
    decreases pairs.len(),
{
    if pairs.len() == 0 {
        None
    } else if pairs.last().0 == key {
        Some(pairs.last().1)
    } else {
        last_value(pairs.drop_last(), key)
    }
}

/// Collected pairs hold, for every key, the last value given for it.
pub proof fn collected_holds_the_last<K: Key, W>(pairs: Seq<(K::V, W)>, key: K::V)
    ensures
        lookup(collected::<K, W>(pairs), key) == last_value(pairs, key),
    decreases pairs.len(),
{
    if pairs.len() > 0 {
        let rest = collected::<K, W>(pairs.drop_last());
        collected_holds_the_last::<K, W>(pairs.drop_last(), key);
        collected_is_ascending::<K, W>(pairs.drop_last());
        lookup_after_put::<K, W>(rest, pairs.last().0, pairs.last().1, key);
    }
}

/// A set, held in the order of its members.
#[derive(Clone, Debug, PartialEq, Eq)]
pub struct OrdSet<K> {
    members: OrdMap<K, bool>,
}

impl<K: Key> View for OrdSet<K> {
    type V = Set<K::V>;

    closed spec fn view(&self) -> Set<K::V> {
        Set::new(|key: K::V| is_key(self.members@, key))
    }
}

impl<K: Key> DeepView for OrdSet<K> {
    type V = Set<K::V>;

    open spec fn deep_view(&self) -> Set<K::V> {
        self@
    }
}

impl<K: Key> OrdSet<K> {
    /// Whether the members are in order, each once.
    pub closed spec fn wf(&self) -> bool {
        self.members.wf()
    }

    /// An empty set.
    pub fn new() -> (set: Self)
        ensures
            set.wf(),
            set@ == Set::<K::V>::empty(),
    {
        let set: Self = OrdSet { members: OrdMap::new() };
        assert(set@ =~= Set::empty());
        set
    }

    /// Whether something is a member.
    pub fn contains(&self, key: &K) -> (member: bool)
        requires
            self.wf(),
        ensures
            member == self@.contains(key.deep_view()),
    {
        self.members.contains_key(key)
    }

    /// Makes something a member, reporting whether it was none.
    pub fn insert(&mut self, key: K) -> (added: bool)
        requires
            old(self).wf(),
        ensures
            final(self).wf(),
            final(self)@ == old(self)@.insert(key.deep_view()),
            added == !old(self)@.contains(key.deep_view()),
    {
        let ghost before = self.members@;
        let ghost k = key.deep_view();
        let added: bool = !self.members.contains_key(&key);
        self.members.put(key, true);
        proof {
            assert forall|wanted: K::V| #[trigger] self@.contains(wanted) == old(self)@.insert(k).contains(wanted) by {
                lookup_after_put::<K, bool>(before, k, true, wanted);
            }
            assert(self@ =~= old(self)@.insert(k));
        }
        added
    }

    /// Makes something no member.
    pub fn remove(&mut self, key: &K)
        requires
            old(self).wf(),
        ensures
            final(self).wf(),
            final(self)@ == old(self)@.remove(key.deep_view()),
    {
        let ghost before = self.members@;
        let ghost k = key.deep_view();
        let _ = self.members.take(key);
        proof {
            assert forall|wanted: K::V| #[trigger] self@.contains(wanted) == old(self)@.remove(k).contains(wanted) by {
                lookup_after_cut::<K, bool>(before, k, wanted);
            }
            assert(self@ =~= old(self)@.remove(k));
        }
    }

    /// The set of some items.
    pub fn of(items: &Vec<K>) -> (set: Self)
        ensures
            set.wf(),
            set@ == items.deep_view().to_set(),
    {
        let mut set: Self = OrdSet::new();
        let mut at: usize = 0;
        while at < items.len()
            invariant
                at <= items.len(),
                set.wf(),
                set@ == items.deep_view().take(at as int).to_set(),
            decreases items.len() - at,
        {
            let ghost before = items.deep_view().take(at as int);
            let ghost item = items.deep_view()[at as int];
            let _ = set.insert(items[at].dup());
            at += 1;
            proof {
                let after = items.deep_view().take(at as int);
                assert(after =~= before.push(item));
                assert(before.push(item).to_set() =~= before.to_set().insert(item)) by {
                    assert(before.push(item)[before.len() as int] == item);
                    assert forall|k: K::V| before.contains(k) implies before.push(item).contains(k) by {
                        let i = choose|i: int| 0 <= i < before.len() && before[i] == k;
                        assert(before.push(item)[i] == k);
                    }
                }
            }
        }
        assert(items.deep_view().take(at as int) =~= items.deep_view());
        set
    }

    /// The members, in order.
    pub fn members(&self) -> (members: Vec<K>)
        requires
            self.wf(),
        ensures
            members.deep_view().to_set() == self@,
            forall|i: int, j: int|
                0 <= i < j < members.len() ==> K::below(
                    (#[trigger] members.deep_view()[i]),
                    (#[trigger] members.deep_view()[j]),
                ),
    {
        let mut members: Vec<K> = Vec::new();
        let mut at: usize = 0;
        while at < self.members.len()
            invariant
                at <= self.members@.len(),
                members.len() == at,
                forall|i: int| 0 <= i < at ==> (#[trigger] members.deep_view()[i]) == self.members@[i].0,
            decreases self.members@.len() - at,
        {
            let ghost before = members.deep_view();
            members.push(self.members.key_at(at).dup());
            at += 1;
            assert(members.deep_view() =~= before.push(self.members@[at - 1].0));
        }
        proof {
            assert forall|k: K::V| members.deep_view().to_set().contains(k) == #[trigger] self@.contains(k) by {
                if self@.contains(k) {
                    let i = choose|i: int| 0 <= i < self.members@.len() && (#[trigger] self.members@[i]).0 == k;
                    assert(members.deep_view()[i] == k);
                }
                if members.deep_view().contains(k) {
                    let i = choose|i: int| 0 <= i < members.deep_view().len() && members.deep_view()[i] == k;
                    assert(self.members@[i].0 == k);
                }
            }
            assert(members.deep_view().to_set() =~= self@);
        }
        members
    }
}

} // verus!
