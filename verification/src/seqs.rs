//! Facts about sequences that the rest of the crate leans on.

use vstd::prelude::*;

verus! {

/// Filtering a sequence grown by one item filters the rest and tests the item.
pub proof fn filter_push<A>(items: Seq<A>, item: A, keep: spec_fn(A) -> bool)
    ensures
        items.push(item).filter(keep) == (if keep(item) {
            items.filter(keep).push(item)
        } else {
            items.filter(keep)
        }),
{
    reveal_with_fuel(Seq::filter, 2);
    assert(items.push(item).drop_last() =~= items);
}

/// A filter that keeps exactly the first `at` items takes them.
pub proof fn filter_prefix<A>(items: Seq<A>, keep: spec_fn(A) -> bool, at: int)
    requires
        0 <= at <= items.len(),
        forall|i: int| 0 <= i < at ==> keep(#[trigger] items[i]),
        forall|i: int| at <= i < items.len() ==> !keep(#[trigger] items[i]),
    ensures
        items.filter(keep) == items.take(at),
    decreases items.len(),
{
    reveal(Seq::filter);
    if items.len() > 0 {
        let rest = items.drop_last();
        if at == items.len() {
            filter_prefix(rest, keep, at - 1);
            assert(items.take(at) =~= rest.take(at - 1).push(items.last()));
        } else {
            filter_prefix(rest, keep, at);
            assert(items.take(at) =~= rest.take(at));
        }
    } else {
        assert(items.take(at) =~= Seq::empty());
    }
}

/// A filter that drops exactly the first `at` items skips them.
pub proof fn filter_suffix<A>(items: Seq<A>, keep: spec_fn(A) -> bool, at: int)
    requires
        0 <= at <= items.len(),
        forall|i: int| 0 <= i < at ==> !keep(#[trigger] items[i]),
        forall|i: int| at <= i < items.len() ==> keep(#[trigger] items[i]),
    ensures
        items.filter(keep) == items.skip(at),
    decreases items.len(),
{
    reveal(Seq::filter);
    if items.len() > at {
        let rest = items.drop_last();
        filter_suffix(rest, keep, at);
        assert(items.skip(at) =~= rest.skip(at).push(items.last()));
    } else {
        if items.len() > 0 {
            let rest = items.drop_last();
            filter_suffix(rest, keep, at - 1);
            assert(rest.skip(at - 1) =~= Seq::empty());
        }
        assert(items.skip(at) =~= Seq::empty());
    }
}

/// A filter over everything that keeps everything changes nothing.
pub proof fn filter_all<A>(items: Seq<A>, keep: spec_fn(A) -> bool)
    requires
        forall|i: int| 0 <= i < items.len() ==> keep(#[trigger] items[i]),
    ensures
        items.filter(keep) == items,
{
    filter_prefix(items, keep, items.len() as int);
    assert(items.take(items.len() as int) =~= items);
}

/// The first item that a filter keeps is the first it leaves.
pub proof fn filter_first<A>(items: Seq<A>, keep: spec_fn(A) -> bool, at: int)
    requires
        0 <= at < items.len(),
        forall|i: int| 0 <= i < at ==> !keep(#[trigger] items[i]),
        keep(items[at]),
    ensures
        items.filter(keep).len() > 0,
        items.filter(keep)[0] == items[at],
{
    let (low, high) = (items.take(at), items.skip(at));
    assert(low + high =~= items);
    Seq::filter_distributes_over_add(low, high, keep);
    filter_prefix(low, keep, 0);
    assert(low.take(0) =~= Seq::empty());
    let (head, tail) = (seq![items[at]], items.skip(at + 1));
    assert(high =~= head + tail);
    Seq::filter_distributes_over_add(head, tail, keep);
    filter_all(head, keep);
}

/// Two filters that agree on every item give the same result.
pub proof fn filter_agree<A>(items: Seq<A>, left: spec_fn(A) -> bool, right: spec_fn(A) -> bool)
    requires
        forall|i: int| 0 <= i < items.len() ==> left(#[trigger] items[i]) == right(items[i]),
    ensures
        items.filter(left) == items.filter(right),
    decreases items.len(),
{
    reveal(Seq::filter);
    if items.len() > 0 {
        assert forall|i: int| 0 <= i < items.drop_last().len() implies left(
            #[trigger] items.drop_last()[i],
        ) == right(items.drop_last()[i]) by {
            assert(items.drop_last()[i] == items[i]);
        }
        filter_agree(items.drop_last(), left, right);
        assert(left(items[items.len() - 1]) == right(items[items.len() - 1]));
    }
}

/// Filtering twice keeps what both filters keep.
pub proof fn filter_twice<A>(
    items: Seq<A>,
    first: spec_fn(A) -> bool,
    second: spec_fn(A) -> bool,
    both: spec_fn(A) -> bool,
)
    requires
        forall|a: A| #[trigger] both(a) == (first(a) && second(a)),
    ensures
        items.filter(first).filter(second) == items.filter(both),
    decreases items.len(),
{
    reveal(Seq::filter);
    if items.len() > 0 {
        filter_twice(items.drop_last(), first, second, both);
        if first(items.last()) {
            filter_push(items.drop_last().filter(first), items.last(), second);
        }
    }
}

/// Filtering what a sequence maps to is mapping what is kept of it.
pub proof fn filter_mapped<A, B>(
    items: Seq<A>,
    f: spec_fn(A) -> B,
    keep: spec_fn(B) -> bool,
    keep_before: spec_fn(A) -> bool,
)
    requires
        forall|a: A| #[trigger] keep_before(a) == keep(f(a)),
    ensures
        items.map_values(f).filter(keep) == items.filter(keep_before).map_values(f),
    decreases items.len(),
{
    reveal(Seq::filter);
    if items.len() > 0 {
        filter_mapped(items.drop_last(), f, keep, keep_before);
        assert(items.map_values(f).drop_last() =~= items.drop_last().map_values(f));
        assert(keep_before(items.last()) == keep(f(items.last())));
        assert(items.drop_last().filter(keep_before).push(items.last()).map_values(f)
            =~= items.drop_last().filter(keep_before).map_values(f).push(f(items.last())));
    } else {
        assert(items.map_values(f) =~= Seq::empty());
        assert(items.filter(keep_before).map_values(f) =~= Seq::empty());
    }
}

/// What a filter leaves was there, and was kept.
pub proof fn filter_source<A>(items: Seq<A>, keep: spec_fn(A) -> bool, at: int)
    requires
        0 <= at < items.filter(keep).len(),
    ensures
        items.contains(items.filter(keep)[at]),
        keep(items.filter(keep)[at]),
    decreases items.len(),
{
    reveal(Seq::filter);
    if items.len() > 0 {
        let rest = items.drop_last();
        if at < rest.filter(keep).len() {
            filter_source(rest, keep, at);
            let k = choose|k: int| 0 <= k < rest.len() && rest[k] == rest.filter(keep)[at];
            assert(items[k] == items.filter(keep)[at]);
        } else {
            assert(items[items.len() - 1] == items.filter(keep)[at]);
        }
    }
}

/// A filter loses no item that it keeps.
pub proof fn filter_target<A>(items: Seq<A>, keep: spec_fn(A) -> bool, at: int)
    requires
        0 <= at < items.len(),
        keep(items[at]),
    ensures
        items.filter(keep).contains(items[at]),
    decreases items.len(),
{
    reveal(Seq::filter);
    let rest = items.drop_last();
    if at < rest.len() {
        filter_target(rest, keep, at);
        let k = choose|k: int| 0 <= k < rest.filter(keep).len() && rest.filter(keep)[k] == items[at];
        assert(items.filter(keep)[k] == items[at]);
    } else {
        assert(items.filter(keep).last() == items[at]);
        assert(items.filter(keep)[items.filter(keep).len() - 1] == items[at]);
    }
}

/// A filter keeps a relation that holds between every item and every later one.
pub proof fn filter_keeps_relation<A>(items: Seq<A>, keep: spec_fn(A) -> bool, rel: spec_fn(A, A) -> bool)
    requires
        forall|i: int, j: int| 0 <= i < j < items.len() ==> rel(#[trigger] items[i], #[trigger] items[j]),
    ensures
        forall|i: int, j: int|
            0 <= i < j < items.filter(keep).len() ==> rel(
                #[trigger] items.filter(keep)[i],
                #[trigger] items.filter(keep)[j],
            ),
    decreases items.len(),
{
    reveal(Seq::filter);
    if items.len() > 0 {
        let rest = items.drop_last();
        assert forall|i: int, j: int| 0 <= i < j < rest.len() implies rel(
            #[trigger] rest[i],
            #[trigger] rest[j],
        ) by {
            assert(rel(items[i], items[j]));
        }
        filter_keeps_relation(rest, keep, rel);
        if keep(items.last()) {
            assert forall|i: int| 0 <= i < rest.filter(keep).len() implies rel(
                #[trigger] rest.filter(keep)[i],
                items.last(),
            ) by {
                filter_source(rest, keep, i);
                let k = choose|k: int| 0 <= k < rest.len() && rest[k] == rest.filter(keep)[i];
                assert(rel(items[k], items[items.len() - 1]));
            }
        }
    }
}

/// What a filter leaves is what was there and was kept.
pub proof fn filter_contains<A>(items: Seq<A>, keep: spec_fn(A) -> bool, item: A)
    ensures
        items.filter(keep).contains(item) <==> items.contains(item) && keep(item),
{
    if items.filter(keep).contains(item) {
        let i = choose|i: int| 0 <= i < items.filter(keep).len() && items.filter(keep)[i] == item;
        filter_source(items, keep, i);
    }
    if items.contains(item) && keep(item) {
        let i = choose|i: int| 0 <= i < items.len() && items[i] == item;
        filter_target(items, keep, i);
    }
}

/// Taking out an item that a filter drops leaves what it leaves; taking out one
/// that it keeps, once everything before was kept, is taking it out of the rest.
pub proof fn filter_remove<A>(items: Seq<A>, keep: spec_fn(A) -> bool, at: int)
    requires
        0 <= at < items.len(),
        !keep(items[at]),
    ensures
        items.remove(at).filter(keep) == items.filter(keep),
{
    let (low, item, high) = (items.take(at), seq![items[at]], items.skip(at + 1));
    assert(items =~= low + item + high);
    assert(items.remove(at) =~= low + high);
    Seq::filter_distributes_over_add(low + item, high, keep);
    Seq::filter_distributes_over_add(low, item, keep);
    Seq::filter_distributes_over_add(low, high, keep);
    filter_prefix(item, keep, 0);
    assert(item.take(0) =~= Seq::empty());
    assert(low.filter(keep) + Seq::empty() =~= low.filter(keep));
}

/// How many items a predicate holds of.
pub open spec fn count<A>(items: Seq<A>, wanted: spec_fn(A) -> bool) -> nat {
    items.filter(wanted).len()
}

/// A filter leaves at most what there was.
pub proof fn filter_no_longer<A>(items: Seq<A>, keep: spec_fn(A) -> bool)
    ensures
        items.filter(keep).len() <= items.len(),
    decreases items.len(),
{
    reveal(Seq::filter);
    if items.len() > 0 {
        filter_no_longer(items.drop_last(), keep);
    }
}

/// Turning a sequence around loses nothing and adds nothing.
pub proof fn reversing_keeps_items<A>(items: Seq<A>)
    ensures
        items.reverse().to_multiset() == items.to_multiset(),
    decreases items.len(),
{
    if items.len() > 0 {
        let (rest, last) = (items.drop_last(), items.last());
        reversing_keeps_items(rest);
        assert(items.reverse() =~= seq![last] + rest.reverse());
        assert(items =~= rest + seq![last]);
        vstd::seq_lib::lemma_multiset_commutative(seq![last], rest.reverse());
        vstd::seq_lib::lemma_multiset_commutative(rest, seq![last]);
        assert(items.reverse().to_multiset() =~= items.to_multiset());
    } else {
        assert(items.reverse() =~= items);
    }
}

/// Two items that a filter keeps are in what it leaves, in the same order.
pub proof fn filter_places<A>(items: Seq<A>, keep: spec_fn(A) -> bool, i: int, j: int)
    requires
        0 <= i < j < items.len(),
        keep(items[i]),
        keep(items[j]),
    ensures
        exists|p: int, q: int|
            0 <= p < q < items.filter(keep).len() && #[trigger] items.filter(keep)[p] == items[i]
                && #[trigger] items.filter(keep)[q] == items[j],
{
    let (low, high) = (items.take(j), items.skip(j));
    assert(low + high =~= items);
    Seq::filter_distributes_over_add(low, high, keep);
    assert(low[i] == items[i]);
    filter_target(low, keep, i);
    let p = choose|p: int| 0 <= p < low.filter(keep).len() && low.filter(keep)[p] == items[i];
    assert(high[0] == items[j]);
    filter_first(high, keep, 0);
    let q = low.filter(keep).len() as int;
    let all = items.filter(keep);
    assert(all =~= low.filter(keep) + high.filter(keep));
    assert(all[p] == items[i]);
    assert(all[q] == items[j]);
}

} // verus!
