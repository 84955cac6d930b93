//! A stable sort, and what it promises.

use crate::value::Value;
use vstd::prelude::*;

verus! {

/// An order to sort by: which of two values goes first.
pub trait Precedence<T: DeepView> {
    /// Whether the first of two models goes strictly before the second.
    spec fn rel(&self) -> spec_fn(T::V, T::V) -> bool;

    /// Whether `left` goes strictly before `right`.
    fn before(&self, left: &T, right: &T) -> (first: bool)
        ensures
            first == (self.rel())(left.deep_view(), right.deep_view()),
    ;
}

/// Two sequences interleaved by an order; on a tie the left one goes first.
pub open spec fn merge<A>(left: Seq<A>, right: Seq<A>, before: spec_fn(A, A) -> bool) -> Seq<A>
    decreases left.len() + right.len(),
{
    if left.len() == 0 {
        right
    } else if right.len() == 0 {
        left
    } else if before(right[0], left[0]) {
        seq![right[0]] + merge(left, right.drop_first(), before)
    } else {
        seq![left[0]] + merge(left.drop_first(), right, before)
    }
}

/// A sequence put in order, equal items staying in the order they came.
pub open spec fn sorted<A>(items: Seq<A>, before: spec_fn(A, A) -> bool) -> Seq<A>
    decreases items.len(),
{
    if items.len() <= 1 {
        items
    } else {
        let half = items.len() / 2;
        merge(
            sorted(items.take(half as int), before),
            sorted(items.skip(half as int), before),
            before,
        )
    }
}

/// Whether an order is consistent over the items of a sequence: no two items
/// each before the other, and both "before" and "not before" carry across.
pub open spec fn consistent<A>(items: Seq<A>, before: spec_fn(A, A) -> bool) -> bool {
    &&& forall|a: A, b: A| #![trigger before(a, b)]
        items.contains(a) && items.contains(b) && before(a, b) ==> !before(b, a)
    &&& forall|a: A, b: A, c: A| #![trigger before(a, b), before(b, c)]
        items.contains(a) && items.contains(b) && items.contains(c) && before(a, b) && before(b, c)
            ==> before(a, c)
    &&& forall|a: A, b: A, c: A| #![trigger before(a, b), before(b, c)]
        items.contains(a) && items.contains(b) && items.contains(c) && !before(a, b) && !before(
            b,
            c,
        ) ==> !before(a, c)
}

/// Whether no item goes before one that stands ahead of it.
pub open spec fn in_order<A>(items: Seq<A>, before: spec_fn(A, A) -> bool) -> bool {
    forall|i: int, j: int| 0 <= i < j < items.len() ==> !before(#[trigger] items[j], #[trigger] items[i])
}

/// The items of a sequence that tie with `item`, in the order they stand.
pub open spec fn ties<A>(items: Seq<A>, item: A, before: spec_fn(A, A) -> bool) -> Seq<A> {
    items.filter(|other: A| !before(item, other) && !before(other, item))
}

proof fn merge_keeps_items<A>(left: Seq<A>, right: Seq<A>, before: spec_fn(A, A) -> bool)
    ensures
        merge(left, right, before).to_multiset() =~= left.to_multiset().add(right.to_multiset()),
        merge(left, right, before).len() == left.len() + right.len(),
    decreases left.len() + right.len(),
{
    broadcast use vstd::seq_lib::group_to_multiset_ensures;
    if left.len() == 0 {
        assert(left =~= Seq::empty());
    } else if right.len() == 0 {
        assert(right =~= Seq::empty());
    } else if before(right[0], left[0]) {
        let rest = merge(left, right.drop_first(), before);
        merge_keeps_items(left, right.drop_first(), before);
        vstd::seq_lib::lemma_multiset_commutative(seq![right[0]], rest);
        vstd::seq_lib::lemma_multiset_commutative(seq![right[0]], right.drop_first());
        assert(seq![right[0]] + right.drop_first() =~= right);
    } else {
        let rest = merge(left.drop_first(), right, before);
        merge_keeps_items(left.drop_first(), right, before);
        vstd::seq_lib::lemma_multiset_commutative(seq![left[0]], rest);
        vstd::seq_lib::lemma_multiset_commutative(seq![left[0]], left.drop_first());
        assert(seq![left[0]] + left.drop_first() =~= left);
    }
}

/// Sorting loses nothing and adds nothing, whatever the order is.
pub proof fn sorting_keeps_items<A>(items: Seq<A>, before: spec_fn(A, A) -> bool)
    ensures
        sorted(items, before).to_multiset() == items.to_multiset(),
        sorted(items, before).len() == items.len(),
    decreases items.len(),
{
    if items.len() > 1 {
        let half = (items.len() / 2) as int;
        let (left, right) = (items.take(half), items.skip(half));
        sorting_keeps_items(left, before);
        sorting_keeps_items(right, before);
        merge_keeps_items(sorted(left, before), sorted(right, before), before);
        vstd::seq_lib::lemma_multiset_commutative(left, right);
        assert(left + right =~= items);
    }
}

/// An item is in the sorted sequence exactly when it was in the sequence.
pub proof fn sorting_keeps_membership<A>(items: Seq<A>, before: spec_fn(A, A) -> bool, item: A)
    ensures
        sorted(items, before).contains(item) <==> items.contains(item),
{
    sorting_keeps_items(items, before);
    broadcast use vstd::seq_lib::group_to_multiset_ensures;
    items.to_multiset_ensures();
    sorted(items, before).to_multiset_ensures();
    assert(items.contains(item) <==> items.to_multiset().count(item) > 0);
    assert(sorted(items, before).contains(item) <==> sorted(items, before).to_multiset().count(item) > 0);
}

proof fn merge_membership<A>(left: Seq<A>, right: Seq<A>, before: spec_fn(A, A) -> bool, item: A)
    ensures
        merge(left, right, before).contains(item) <==> left.contains(item) || right.contains(item),
{
    merge_keeps_items(left, right, before);
    let merged = merge(left, right, before);
    merged.to_multiset_ensures();
    left.to_multiset_ensures();
    right.to_multiset_ensures();
    assert(merged.contains(item) <==> merged.to_multiset().count(item) > 0);
    assert(left.contains(item) <==> left.to_multiset().count(item) > 0);
    assert(right.contains(item) <==> right.to_multiset().count(item) > 0);
}

proof fn merge_in_order<A>(all: Seq<A>, left: Seq<A>, right: Seq<A>, before: spec_fn(A, A) -> bool)
    requires
        consistent(all, before),
        forall|a: A| left.contains(a) ==> all.contains(a),
        forall|a: A| right.contains(a) ==> all.contains(a),
        in_order(left, before),
        in_order(right, before),
    ensures
        in_order(merge(left, right, before), before),
    decreases left.len() + right.len(),
{
    let merged = merge(left, right, before);
    if left.len() > 0 && right.len() > 0 {
        let (head, rest) = if before(right[0], left[0]) {
            (right[0], merge(left, right.drop_first(), before))
        } else {
            (left[0], merge(left.drop_first(), right, before))
        };
        let (l, r) = if before(right[0], left[0]) {
            (left, right.drop_first())
        } else {
            (left.drop_first(), right)
        };
        assert(merged =~= seq![head] + rest);
        assert forall|a: A| l.contains(a) implies left.contains(a) && all.contains(a) by {
            let i = choose|i: int| 0 <= i < l.len() && l[i] == a;
            assert(left[i + (left.len() - l.len())] == a);
        }
        assert forall|a: A| r.contains(a) implies right.contains(a) && all.contains(a) by {
            let i = choose|i: int| 0 <= i < r.len() && r[i] == a;
            assert(right[i + (right.len() - r.len())] == a);
        }
        assert forall|i: int, j: int| 0 <= i < j < l.len() implies !before(#[trigger] l[j], #[trigger] l[i]) by {
            let d = left.len() - l.len();
            assert(!before(left[j + d], left[i + d]));
        }
        assert forall|i: int, j: int| 0 <= i < j < r.len() implies !before(#[trigger] r[j], #[trigger] r[i]) by {
            let d = right.len() - r.len();
            assert(!before(right[j + d], right[i + d]));
        }
        merge_in_order(all, l, r, before);
        assert(left.contains(left[0]) && right.contains(right[0]));
        assert forall|j: int| 0 <= j < rest.len() implies !before(#[trigger] rest[j], head) by {
            merge_membership(l, r, before, rest[j]);
            assert(rest.contains(rest[j]));
            let item = rest[j];
            if left.contains(item) {
                let k = choose|k: int| 0 <= k < left.len() && left[k] == item;
                if k > 0 {
                    assert(!before(left[k], left[0]));
                }
                assert(!before(item, left[0])) by {
                    if k == 0 && before(item, left[0]) {
                        assert(before(left[0], left[0]));
                    }
                }
                if before(right[0], left[0]) {
                    assert(!before(left[0], right[0]));
                    assert(!before(item, left[0]) && !before(left[0], right[0]));
                }
            } else {
                let k = choose|k: int| 0 <= k < right.len() && right[k] == item;
                assert(!before(item, right[0])) by {
                    if k > 0 {
                        assert(!before(right[k], right[0]));
                    } else if before(item, right[0]) {
                        assert(before(right[0], right[0]));
                    }
                }
                if !before(right[0], left[0]) {
                    assert(!before(item, right[0]) && !before(right[0], left[0]));
                }
            }
        }
        assert forall|i: int, j: int| 0 <= i < j < merged.len() implies !before(
            #[trigger] merged[j],
            #[trigger] merged[i],
        ) by {
            assert(merged[j] == rest[j - 1]);
            if i > 0 {
                assert(merged[i] == rest[i - 1]);
                assert(!before(rest[j - 1], rest[i - 1]));
            }
        }
    }
}

/// Sorting puts every item after whatever goes before it.
pub proof fn sorting_orders<A>(items: Seq<A>, before: spec_fn(A, A) -> bool)
    requires
        consistent(items, before),
    ensures
        in_order(sorted(items, before), before),
    decreases items.len(),
{
    if items.len() > 1 {
        let half = (items.len() / 2) as int;
        let (left, right) = (items.take(half), items.skip(half));
        assert forall|a: A| left.contains(a) implies items.contains(a) by {
            let i = choose|i: int| 0 <= i < left.len() && left[i] == a;
            assert(items[i] == a);
        }
        assert forall|a: A| right.contains(a) implies items.contains(a) by {
            let i = choose|i: int| 0 <= i < right.len() && right[i] == a;
            assert(items[i + half] == a);
        }
        assert(consistent(left, before));
        assert(consistent(right, before));
        sorting_orders(left, before);
        sorting_orders(right, before);
        assert forall|a: A| sorted(left, before).contains(a) implies items.contains(a) by {
            sorting_keeps_membership(left, before, a);
        }
        assert forall|a: A| sorted(right, before).contains(a) implies items.contains(a) by {
            sorting_keeps_membership(right, before, a);
        }
        merge_in_order(items, sorted(left, before), sorted(right, before), before);
    }
}

proof fn parts_stay_in_order<A>(items: Seq<A>, before: spec_fn(A, A) -> bool, half: int)
    requires
        0 <= half <= items.len(),
        in_order(items, before),
    ensures
        in_order(items.take(half), before),
        in_order(items.skip(half), before),
{
    let right = items.skip(half);
    assert forall|i: int, j: int| 0 <= i < j < right.len() implies !before(
        #[trigger] right[j],
        #[trigger] right[i],
    ) by {
        assert(!before(items[j + half], items[i + half]));
    }
    let left = items.take(half);
    assert forall|i: int, j: int| 0 <= i < j < left.len() implies !before(
        #[trigger] left[j],
        #[trigger] left[i],
    ) by {
        assert(!before(items[j], items[i]));
    }
}

proof fn merge_of_ordered<A>(left: Seq<A>, right: Seq<A>, before: spec_fn(A, A) -> bool)
    requires
        forall|i: int, j: int|
            0 <= i < left.len() && 0 <= j < right.len() ==> !before(#[trigger] right[j], #[trigger] left[i]),
    ensures
        merge(left, right, before) == left + right,
    decreases left.len(),
{
    if left.len() == 0 {
        assert(left + right =~= right);
    } else if right.len() == 0 {
        assert(left + right =~= left);
    } else {
        let rest = left.drop_first();
        assert forall|i: int, j: int| 0 <= i < rest.len() && 0 <= j < right.len() implies !before(
            #[trigger] right[j],
            #[trigger] rest[i],
        ) by {
            assert(!before(right[j], left[i + 1]));
        }
        merge_of_ordered(rest, right, before);
        assert(!before(right[0], left[0]));
        assert(seq![left[0]] + (rest + right) =~= left + right);
    }
}

/// Sorting what is in order already changes nothing.
pub proof fn sorting_ordered_changes_nothing<A>(items: Seq<A>, before: spec_fn(A, A) -> bool)
    requires
        in_order(items, before),
    ensures
        sorted(items, before) == items,
    decreases items.len(),
{
    if items.len() > 1 {
        let half = (items.len() / 2) as int;
        let (left, right) = (items.take(half), items.skip(half));
        parts_stay_in_order(items, before, half);
        sorting_ordered_changes_nothing(left, before);
        sorting_ordered_changes_nothing(right, before);
        assert forall|i: int, j: int| 0 <= i < left.len() && 0 <= j < right.len() implies !before(
            #[trigger] right[j],
            #[trigger] left[i],
        ) by {
            assert(!before(items[j + half], items[i]));
        }
        merge_of_ordered(left, right, before);
        assert(left + right =~= items);
    }
}

proof fn merge_keeps_ties<A>(
    all: Seq<A>,
    left: Seq<A>,
    right: Seq<A>,
    item: A,
    before: spec_fn(A, A) -> bool,
)
    requires
        consistent(all, before),
        all.contains(item),
        forall|a: A| left.contains(a) ==> all.contains(a),
        forall|a: A| right.contains(a) ==> all.contains(a),
        in_order(left, before),
    ensures
        ties(merge(left, right, before), item, before) == ties(left, item, before) + ties(
            right,
            item,
            before,
        ),
    decreases left.len() + right.len(),
{
    let tie = |other: A| !before(item, other) && !before(other, item);
    assert(Seq::<A>::empty().filter(tie) =~= Seq::empty()) by {
        reveal(Seq::filter);
    }
    if left.len() == 0 {
        assert(left =~= Seq::empty());
        assert(ties(left, item, before) + ties(right, item, before) =~= ties(right, item, before));
    } else if right.len() == 0 {
        assert(right =~= Seq::empty());
        assert(ties(left, item, before) + ties(right, item, before) =~= ties(left, item, before));
    } else if before(right[0], left[0]) {
        let rest = right.drop_first();
        assert forall|a: A| rest.contains(a) implies all.contains(a) by {
            let i = choose|i: int| 0 <= i < rest.len() && rest[i] == a;
            assert(right[i + 1] == a);
        }
        merge_keeps_ties(all, left, rest, item, before);
        let head = seq![right[0]];
        assert(head + rest =~= right);
        Seq::filter_distributes_over_add(head, rest, tie);
        Seq::filter_distributes_over_add(head, merge(left, rest, before), tie);
        assert(right.contains(right[0]) && left.contains(left[0]));
        if tie(right[0]) {
            assert forall|k: int| 0 <= k < left.len() implies !tie(#[trigger] left[k]) by {
                assert(left.contains(left[k]));
                if k > 0 {
                    assert(!before(left[k], left[0]));
                } else if before(left[k], left[0]) {
                    assert(!before(left[0], left[k]));
                }
                if !before(right[0], left[k]) {
                    assert(!before(right[0], left[k]) && !before(left[k], left[0]));
                }
                if tie(left[k]) {
                    assert(!before(right[0], item) && !before(item, left[k]));
                }
            }
            crate::seqs::filter_prefix(left, tie, 0);
            assert(left.take(0) =~= Seq::empty());
            assert(ties(left, item, before) =~= Seq::empty());
        } else {
            crate::seqs::filter_prefix(head, tie, 0);
            assert(head.take(0) =~= Seq::empty());
        }
        assert(ties(merge(left, right, before), item, before) =~= ties(left, item, before) + ties(
            right,
            item,
            before,
        ));
    } else {
        let rest = left.drop_first();
        assert forall|a: A| rest.contains(a) implies all.contains(a) by {
            let i = choose|i: int| 0 <= i < rest.len() && rest[i] == a;
            assert(left[i + 1] == a);
        }
        assert(rest =~= left.skip(1));
        parts_stay_in_order(left, before, 1);
        merge_keeps_ties(all, rest, right, item, before);
        let head = seq![left[0]];
        assert(head + rest =~= left);
        Seq::filter_distributes_over_add(head, rest, tie);
        Seq::filter_distributes_over_add(head, merge(rest, right, before), tie);
        assert(ties(merge(left, right, before), item, before) =~= ties(left, item, before) + ties(
            right,
            item,
            before,
        ));
    }
}

/// Items that tie stay in the order they came.
pub proof fn sorting_is_stable<A>(items: Seq<A>, item: A, before: spec_fn(A, A) -> bool)
    requires
        consistent(items, before),
        items.contains(item),
    ensures
        ties(sorted(items, before), item, before) == ties(items, item, before),
{
    sorting_keeps_ties(items, items, item, before);
}

proof fn sorting_keeps_ties<A>(all: Seq<A>, items: Seq<A>, item: A, before: spec_fn(A, A) -> bool)
    requires
        consistent(all, before),
        all.contains(item),
        forall|a: A| items.contains(a) ==> all.contains(a),
    ensures
        ties(sorted(items, before), item, before) == ties(items, item, before),
    decreases items.len(),
{
    if items.len() > 1 {
        let half = (items.len() / 2) as int;
        let (left, right) = (items.take(half), items.skip(half));
        assert forall|a: A| left.contains(a) implies all.contains(a) by {
            let i = choose|i: int| 0 <= i < left.len() && left[i] == a;
            assert(items[i] == a);
        }
        assert forall|a: A| right.contains(a) implies all.contains(a) by {
            let i = choose|i: int| 0 <= i < right.len() && right[i] == a;
            assert(items[i + half] == a);
        }
        sorting_keeps_ties(all, left, item, before);
        sorting_keeps_ties(all, right, item, before);
        assert(consistent(left, before));
        sorting_orders(left, before);
        assert forall|a: A| sorted(left, before).contains(a) implies all.contains(a) by {
            sorting_keeps_membership(left, before, a);
        }
        assert forall|a: A| sorted(right, before).contains(a) implies all.contains(a) by {
            sorting_keeps_membership(right, before, a);
        }
        merge_keeps_ties(all, sorted(left, before), sorted(right, before), item, before);
        let tie = |other: A| !before(item, other) && !before(other, item);
        Seq::filter_distributes_over_add(left, right, tie);
        assert(left + right =~= items);
    }
}

fn merge_runs<T: Value, P: Precedence<T>>(left: &Vec<T>, right: &Vec<T>, order: &P) -> (merged: Vec<T>)
    ensures
        merged.deep_view() == merge(left.deep_view(), right.deep_view(), order.rel()),
{
    let ghost (l, r) = (left.deep_view(), right.deep_view());
    let mut merged: Vec<T> = Vec::new();
    let mut i: usize = 0;
    let mut j: usize = 0;
    assert(merged.deep_view() + merge(l.skip(0), r.skip(0), order.rel()) =~= merge(l, r, order.rel())) by {
        assert(l.skip(0) =~= l);
        assert(r.skip(0) =~= r);
    }
    while i < left.len() || j < right.len()
        invariant
            l == left.deep_view(),
            r == right.deep_view(),
            i <= left.len(),
            j <= right.len(),
            merged.deep_view() + merge(l.skip(i as int), r.skip(j as int), order.rel()) == merge(
                l,
                r,
                order.rel(),
            ),
        decreases left.len() - i + right.len() - j,
    {
        let ghost done = merged.deep_view();
        let ghost (ls, rs) = (l.skip(i as int), r.skip(j as int));
        let from_right: bool = if i >= left.len() {
            true
        } else if j >= right.len() {
            false
        } else {
            order.before(&right[j], &left[i])
        };
        if from_right {
            merged.push(right[j].dup());
            j += 1;
            proof {
                assert(rs.drop_first() =~= r.skip(j as int));
                assert(merged.deep_view() =~= done.push(rs[0]));
                if i >= left.len() {
                    assert(merge(ls, rs, order.rel()) =~= seq![rs[0]] + merge(ls, r.skip(j as int), order.rel()));
                }
                assert(merged.deep_view() + merge(ls, r.skip(j as int), order.rel()) =~= done + (seq![rs[0]]
                    + merge(ls, r.skip(j as int), order.rel())));
            }
        } else {
            merged.push(left[i].dup());
            i += 1;
            proof {
                assert(ls.drop_first() =~= l.skip(i as int));
                assert(merged.deep_view() =~= done.push(ls[0]));
                if j >= right.len() {
                    assert(merge(ls, rs, order.rel()) =~= seq![ls[0]] + merge(l.skip(i as int), rs, order.rel()));
                }
                assert(merged.deep_view() + merge(l.skip(i as int), rs, order.rel()) =~= done + (seq![ls[0]]
                    + merge(l.skip(i as int), rs, order.rel())));
            }
        }
    }
    assert(merged.deep_view() + merge(l.skip(i as int), r.skip(j as int), order.rel()) =~= merged.deep_view());
    merged
}

fn sort_run<T: Value, P: Precedence<T>>(items: &Vec<T>, from: usize, to: usize, order: &P) -> (run: Vec<T>)
    requires
        from <= to <= items.len(),
    ensures
        run.deep_view() == sorted(items.deep_view().subrange(from as int, to as int), order.rel()),
    decreases to - from,
{
    let ghost part = items.deep_view().subrange(from as int, to as int);
    if to - from <= 1 {
        let mut run: Vec<T> = Vec::new();
        if from < to {
            run.push(items[from].dup());
        }
        assert(run.deep_view() =~= part);
        return run;
    }
    let middle: usize = from + (to - from) / 2;
    let left: Vec<T> = sort_run(items, from, middle, order);
    let right: Vec<T> = sort_run(items, middle, to, order);
    proof {
        let half = (part.len() / 2) as int;
        assert(part.take(half) =~= items.deep_view().subrange(from as int, middle as int));
        assert(part.skip(half) =~= items.deep_view().subrange(middle as int, to as int));
    }
    merge_runs(&left, &right, order)
}

/// The items in order, those that tie in the order they came.
pub fn sort<T: Value, P: Precedence<T>>(items: &Vec<T>, order: &P) -> (arranged: Vec<T>)
    ensures
        arranged.deep_view() == sorted(items.deep_view(), order.rel()),
{
    assert(items.deep_view().subrange(0, items.len() as int) =~= items.deep_view());
    sort_run(items, 0, items.len(), order)
}

/// Sorting keeps as many items of any sort as there were.
pub proof fn sorting_keeps_counts<A>(items: Seq<A>, before: spec_fn(A, A) -> bool, wanted: spec_fn(A) -> bool)
    ensures
        sorted(items, before).filter(wanted).len() == items.filter(wanted).len(),
    decreases items.len(),
{
    if items.len() > 1 {
        let half = (items.len() / 2) as int;
        let (left, right) = (items.take(half), items.skip(half));
        sorting_keeps_counts(left, before, wanted);
        sorting_keeps_counts(right, before, wanted);
        merge_keeps_counts(sorted(left, before), sorted(right, before), before, wanted);
        assert(left + right =~= items);
        Seq::filter_distributes_over_add(left, right, wanted);
    }
}

proof fn merge_keeps_counts<A>(
    left: Seq<A>,
    right: Seq<A>,
    before: spec_fn(A, A) -> bool,
    wanted: spec_fn(A) -> bool,
)
    ensures
        merge(left, right, before).filter(wanted).len() == left.filter(wanted).len() + right.filter(wanted).len(),
    decreases left.len() + right.len(),
{
    reveal(Seq::filter);
    if left.len() == 0 {
        assert(left =~= Seq::empty());
    } else if right.len() == 0 {
        assert(right =~= Seq::empty());
    } else if before(right[0], left[0]) {
        let rest = right.drop_first();
        merge_keeps_counts(left, rest, before, wanted);
        assert(seq![right[0]] + rest =~= right);
        Seq::filter_distributes_over_add(seq![right[0]], rest, wanted);
        Seq::filter_distributes_over_add(seq![right[0]], merge(left, rest, before), wanted);
    } else {
        let rest = left.drop_first();
        merge_keeps_counts(rest, right, before, wanted);
        assert(seq![left[0]] + rest =~= left);
        Seq::filter_distributes_over_add(seq![left[0]], rest, wanted);
        Seq::filter_distributes_over_add(seq![left[0]], merge(rest, right, before), wanted);
    }
}

} // verus!
