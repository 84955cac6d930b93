//! What holds of the state whatever happens to it.

use crate::clock::{since, Duration, Instant};
use crate::events::{event_cluster, EventModel};
use crate::keyed::{
    ascending, ascending_at, cut, cut_keeps_order, filter_keeps_order, is_key, lookup, lookup_after_cut,
    lookup_after_put, lookup_at, put, put_keeps_order, values,
};
use crate::model::{
    budgeted, clusters_of, counted, detail_cluster, detail_key, detail_kind, held_rows, in_view, kind_size, larger,
    let_go, logged, neglected, of_other_clusters, releasable, unseen, ActivityModel, AppModel, PaneModel, Tables,
    ACTIVITY_LIMIT,
};
use crate::objects::{ClusterId, KeyModel, KindId, KindInfoModel, KindModel, RowModel};
use crate::rows::{arranged, arranging_keeps_rows, let_through, FiltersModel, Sort};
use crate::seqs::{filter_contains, filter_source, filter_target};
use crate::sessions::{ForwardId, ForwardInfoModel};
use crate::sorting::sorting_keeps_membership;
use crate::table::TableModel;
use crate::text::{a_text_holds_its_parts, holds, lowercase};
use vstd::prelude::*;

verus! {

// --- answers land where they were asked for -----------------------------------

/// An event changes the detail pane only if it answers what the pane asks: the
/// same cluster, kind and object, which it still is about afterwards.
pub proof fn details_answer_what_was_asked(state: AppModel, event: EventModel, now: Instant)
    requires
        state.applied(event, now).detail != state.detail,
    ensures
        state.detail is Some,
        state.applied(event, now).detail is Some,
        event_cluster(event) == Some(detail_cluster(state.detail->0)),
        detail_cluster(state.applied(event, now).detail->0) == detail_cluster(state.detail->0),
        detail_kind(state.applied(event, now).detail->0) == detail_kind(state.detail->0),
        detail_key(state.applied(event, now).detail->0) == detail_key(state.detail->0),
{
}

/// Lines of one cluster never end up in the tail or the command of another.
pub proof fn lines_stay_with_their_cluster(state: AppModel, event: EventModel, now: Instant)
    ensures
        state.logs is Some && event_cluster(event) != Some((state.logs->0).cluster) ==> state.applied(
            event,
            now,
        ).logs == state.logs,
        state.exec_session is Some && event_cluster(event) != Some((state.exec_session->0).cluster)
            ==> state.applied(event, now).exec_session == state.exec_session,
        state.logs is None ==> state.applied(event, now).logs is None,
        state.exec_session is None ==> state.applied(event, now).exec_session is None,
{
}

/// An event about one cluster leaves every other cluster's tables and kinds alone.
pub proof fn other_clusters_are_untouched(
    state: AppModel,
    event: EventModel,
    now: Instant,
    other: Seq<char>,
    kind: KindModel,
)
    requires
        state.wf(),
        event_cluster(event) != Some(other),
    ensures
        lookup(state.applied(event, now).tables, (other, kind)) == lookup(state.tables, (other, kind)),
        lookup(state.applied(event, now).kinds, other) == lookup(state.kinds, other),
{
    if let EventModel::Kinds { cluster, kinds } = event {
        lookup_after_put::<ClusterId, Seq<KindInfoModel>>(state.kinds, cluster, kinds, other);
    }
    events_keep_other_tables(state, event, now, other, kind);
}

/// The kind of a cluster that an event is about, if it is about the rows of one.
pub open spec fn event_table(event: EventModel) -> Option<(Seq<char>, KindModel)> {
    match event {
        EventModel::ResourceReset { cluster, kind, .. } => Some((cluster, kind)),
        EventModel::ResourceApplied { cluster, kind, .. } => Some((cluster, kind)),
        EventModel::ResourceDeleted { cluster, kind, .. } => Some((cluster, kind)),
        EventModel::KindFailed { cluster, kind, .. } => Some((cluster, kind)),
        _ => None,
    }
}

proof fn events_keep_other_tables(
    state: AppModel,
    event: EventModel,
    now: Instant,
    cluster: Seq<char>,
    kind: KindModel,
)
    requires
        ascending::<(ClusterId, KindId), TableModel>(state.tables),
        event_table(event) != Some((cluster, kind)),
        in_view(state.panes, cluster, kind) || event_cluster(event) != Some(cluster),
    ensures
        lookup(state.applied(event, now).tables, (cluster, kind)) == lookup(state.tables, (cluster, kind)),
{
    if event_table(event) is Some {
        let (c, k) = event_table(event)->0;
        let table = match event {
            EventModel::ResourceReset { columns, rows, .. } => state.table(c, k).reset(columns, rows),
            EventModel::ResourceApplied { row, .. } => state.table(c, k).with_row(row, now),
            EventModel::ResourceDeleted { key, .. } => state.table(c, k).without(key),
            EventModel::KindFailed { reason, .. } => state.table(c, k).refused(reason),
            _ => arbitrary(),
        };
        let placed = put::<(ClusterId, KindId), TableModel>(state.tables, (c, k), table);
        lookup_after_put::<(ClusterId, KindId), TableModel>(state.tables, (c, k), table, (cluster, kind));
        put_keeps_order::<(ClusterId, KindId), TableModel>(state.tables, (c, k), table);
        if event is ResourceReset {
            budget_spares(placed, state.panes, c, state.budget, (cluster, kind));
        }
    }
}

/// Events keep the tables in order.
proof fn events_keep_tables_in_order(state: AppModel, event: EventModel, now: Instant)
    requires
        ascending::<(ClusterId, KindId), TableModel>(state.tables),
    ensures
        ascending::<(ClusterId, KindId), TableModel>(state.applied(event, now).tables),
{
    if event_table(event) is Some {
        let (c, k) = event_table(event)->0;
        let table = match event {
            EventModel::ResourceReset { columns, rows, .. } => state.table(c, k).reset(columns, rows),
            EventModel::ResourceApplied { row, .. } => state.table(c, k).with_row(row, now),
            EventModel::ResourceDeleted { key, .. } => state.table(c, k).without(key),
            EventModel::KindFailed { reason, .. } => state.table(c, k).refused(reason),
            _ => arbitrary(),
        };
        let placed = put::<(ClusterId, KindId), TableModel>(state.tables, (c, k), table);
        put_keeps_order::<(ClusterId, KindId), TableModel>(state.tables, (c, k), table);
        if event is ResourceReset {
            letting_go(placed, c, releasable(placed, state.panes, c), state.budget);
        }
    }
}

// --- the row budget -------------------------------------------------------------

proof fn letting_go(tables: Tables, cluster: Seq<char>, kinds: Seq<(KindModel, usize)>, budget: usize)
    requires
        ascending::<(ClusterId, KindId), TableModel>(tables),
    ensures
        ascending::<(ClusterId, KindId), TableModel>(let_go(tables, cluster, kinds, budget)),
        forall|key: (Seq<char>, KindModel)|
            (forall|i: int| 0 <= i < kinds.len() ==> (cluster, (#[trigger] kinds[i]).0) != key) ==> #[trigger] lookup(
                let_go(tables, cluster, kinds, budget),
                key,
            ) == lookup(tables, key),
        forall|key: (Seq<char>, KindModel)| #[trigger]
            is_key(let_go(tables, cluster, kinds, budget), key) ==> is_key(tables, key),
        counted(held_rows(let_go(tables, cluster, kinds, budget), cluster)) > budget ==> forall|i: int|
            0 <= i < kinds.len() ==> !is_key(
                let_go(tables, cluster, kinds, budget),
                (cluster, (#[trigger] kinds[i]).0),
            ),
    decreases kinds.len(),
{
    if kinds.len() > 0 && counted(held_rows(tables, cluster)) > budget {
        let gone = (cluster, kinds[0].0);
        let rest = kinds.drop_first();
        let left = cut(tables, gone);
        cut_keeps_order::<(ClusterId, KindId), TableModel>(tables, gone);
        letting_go(left, cluster, rest, budget);
        let result = let_go(tables, cluster, kinds, budget);
        assert forall|key: (Seq<char>, KindModel)|
            (forall|i: int| 0 <= i < kinds.len() ==> (cluster, (#[trigger] kinds[i]).0) != key) implies
            #[trigger] lookup(result, key) == lookup(tables, key) by {
            assert((cluster, kinds[0].0) != key);
            assert forall|i: int| 0 <= i < rest.len() implies (cluster, (#[trigger] rest[i]).0) != key by {
                assert(rest[i] == kinds[i + 1]);
            }
            lookup_after_cut::<(ClusterId, KindId), TableModel>(tables, gone, key);
        }
        assert forall|key: (Seq<char>, KindModel)| #[trigger] is_key(result, key) implies is_key(tables, key) by {
            lookup_after_cut::<(ClusterId, KindId), TableModel>(tables, gone, key);
        }
        if counted(held_rows(result, cluster)) > budget {
            assert forall|i: int| 0 <= i < kinds.len() implies !is_key(result, (cluster, (#[trigger] kinds[i]).0)) by {
                if i == 0 {
                    lookup_after_cut::<(ClusterId, KindId), TableModel>(tables, gone, gone);
                } else {
                    assert(rest[i - 1] == kinds[i]);
                }
            }
        }
    }
}

/// The kinds that can be let go are those of the cluster that are held and in
/// no pane.
proof fn releasable_kinds(tables: Tables, panes: Seq<PaneModel>, cluster: Seq<char>, kind: KindModel)
    ensures
        (exists|i: int|
            0 <= i < releasable(tables, panes, cluster).len() && (#[trigger] releasable(tables, panes, cluster)[i]).0
                == kind) <==> is_key(tables, (cluster, kind)) && !in_view(panes, cluster, kind),
{
    let keep = unseen(panes, cluster);
    let found = tables.filter(keep);
    let sizes = found.map_values(kind_size());
    let kinds = releasable(tables, panes, cluster);
    if exists|i: int| 0 <= i < kinds.len() && (#[trigger] kinds[i]).0 == kind {
        let i = choose|i: int| 0 <= i < kinds.len() && (#[trigger] kinds[i]).0 == kind;
        assert(kinds.contains(kinds[i]));
        sorting_keeps_membership(sizes, larger(), kinds[i]);
        let j = choose|j: int| 0 <= j < sizes.len() && sizes[j] == kinds[i];
        filter_source(tables, keep, j);
        let entry = found[j];
        assert(sizes[j] == kind_size()(entry));
        let k = choose|k: int| 0 <= k < tables.len() && tables[k] == entry;
        assert(tables[k].0 == (cluster, kind));
    }
    if is_key(tables, (cluster, kind)) && !in_view(panes, cluster, kind) {
        let k = choose|k: int| 0 <= k < tables.len() && (#[trigger] tables[k]).0 == (cluster, kind);
        filter_target(tables, keep, k);
        let j = choose|j: int| 0 <= j < found.len() && found[j] == tables[k];
        assert(sizes[j] == kind_size()(tables[k]));
        assert(sizes.contains(sizes[j]));
        sorting_keeps_membership(sizes, larger(), sizes[j]);
        let i = choose|i: int| 0 <= i < kinds.len() && kinds[i] == sizes[j];
        assert(kinds[i].0 == kind);
    }
}

/// Bringing a cluster back within its budget lets go of nothing that a pane
/// shows, and of nothing of another cluster.
pub proof fn budget_spares(
    tables: Tables,
    panes: Seq<PaneModel>,
    cluster: Seq<char>,
    budget: usize,
    key: (Seq<char>, KindModel),
)
    requires
        ascending::<(ClusterId, KindId), TableModel>(tables),
        key.0 != cluster || in_view(panes, cluster, key.1),
    ensures
        lookup(budgeted(tables, panes, cluster, budget), key) == lookup(tables, key),
{
    let kinds = releasable(tables, panes, cluster);
    letting_go(tables, cluster, kinds, budget);
    assert forall|i: int| 0 <= i < kinds.len() implies (cluster, (#[trigger] kinds[i]).0) != key by {
        releasable_kinds(tables, panes, cluster, kinds[i].0);
    }
}

/// Afterwards the cluster is within its budget, or holds nothing but what
/// panes show.
pub proof fn budget_is_kept(
    tables: Tables,
    panes: Seq<PaneModel>,
    cluster: Seq<char>,
    budget: usize,
    kind: KindModel,
)
    requires
        ascending::<(ClusterId, KindId), TableModel>(tables),
        counted(held_rows(budgeted(tables, panes, cluster, budget), cluster)) > budget,
        is_key(budgeted(tables, panes, cluster, budget), (cluster, kind)),
    ensures
        in_view(panes, cluster, kind),
{
    let kinds = releasable(tables, panes, cluster);
    letting_go(tables, cluster, kinds, budget);
    if !in_view(panes, cluster, kind) {
        releasable_kinds(tables, panes, cluster, kind);
        let i = choose|i: int| 0 <= i < kinds.len() && (#[trigger] kinds[i]).0 == kind;
        assert(!is_key(let_go(tables, cluster, kinds, budget), (cluster, kinds[i].0)));
    }
}

/// A cluster within its budget keeps everything.
pub proof fn within_budget_nothing_goes(tables: Tables, panes: Seq<PaneModel>, cluster: Seq<char>, budget: usize)
    requires
        counted(held_rows(tables, cluster)) <= budget,
    ensures
        budgeted(tables, panes, cluster, budget) == tables,
{
}

// --- what is on screen is what is held ------------------------------------------

/// Whether every pane shows what its table holds now.
pub open spec fn is_fresh(state: AppModel) -> bool {
    forall|i: int|
        0 <= i < state.panes.len() ==> (#[trigger] state.panes[i]) == state.panes[i].refreshed(state.tables)
}

/// Whether a pane shows no kind of no cluster.
pub open spec fn placed(pane: PaneModel) -> bool {
    pane.kind is Some ==> pane.cluster is Some
}

/// Whether no pane shows a kind of no cluster.
pub open spec fn is_placed(state: AppModel) -> bool {
    forall|i: int| 0 <= i < state.panes.len() ==> placed(#[trigger] state.panes[i])
}

/// The rows a pane is to show, in whatever order: those of its table that its
/// filters let through.
pub open spec fn rows_to_show(pane: PaneModel, tables: Tables) -> Seq<RowModel> {
    match pane.table(tables) {
        Some(table) => values(table.rows).filter(let_through(pane.filters)),
        None => seq![],
    }
}

/// Whether a pane shows what is held, in whatever order: nothing it is to show
/// is missing, nothing else is there, and the cursor is on a row.
pub open spec fn shows_what_is_held(pane: PaneModel, tables: Tables) -> bool {
    pane.rows.to_multiset() == rows_to_show(pane, tables).to_multiset() && pane.cursor_fits()
}

/// Whether every pane shows what is held, in whatever order.
pub open spec fn shows_all_that_is_held(state: AppModel) -> bool {
    forall|i: int| 0 <= i < state.panes.len() ==> shows_what_is_held(#[trigger] state.panes[i], state.tables)
}

/// A pane that was just brought up to date shows what is held.
pub proof fn refreshing_shows_what_is_held(pane: PaneModel, tables: Tables)
    ensures
        shows_what_is_held(pane.refreshed(tables), tables),
{
    if pane.table(tables) is Some {
        arranging_keeps_rows(rows_to_show(pane, tables), pane.sort, arbitrary());
    }
}

/// Bringing a pane up to date twice is bringing it up to date once.
pub proof fn refreshing_again_changes_nothing(pane: PaneModel, tables: Tables)
    ensures
        pane.refreshed(tables).refreshed(tables) == pane.refreshed(tables),
        pane.refreshed(tables).cursor_fits(),
{
}

/// A pane shows exactly the rows of its table that its filters let through.
pub proof fn panes_show_what_filters_let_through(pane: PaneModel, tables: Tables, row: RowModel)
    requires
        pane.table(tables) is Some,
    ensures
        pane.refreshed(tables).rows.contains(row) <==> values((pane.table(tables)->0).rows).contains(row)
            && let_through(pane.filters)(row),
        pane.refreshed(tables).rows.len() <= (pane.table(tables)->0).rows.len(),
{
    let held = values((pane.table(tables)->0).rows);
    let kept = held.filter(let_through(pane.filters));
    arranging_keeps_rows(kept, pane.sort, row);
    filter_contains(held, let_through(pane.filters), row);
    crate::seqs::filter_no_longer(held, let_through(pane.filters));
}

proof fn batches_keep_order(state: AppModel, events: Seq<EventModel>, now: Instant)
    requires
        state.panes.len() > 0,
        ascending::<(ClusterId, KindId), TableModel>(state.tables),
        is_fresh(state),
        is_placed(state),
    ensures
        ({
            let after = state.applied_all(events, now);
            &&& after.panes.len() == state.panes.len()
            &&& ascending::<(ClusterId, KindId), TableModel>(after.tables)
            &&& is_placed(after)
            &&& forall|i: int|
                0 <= i < after.panes.len() ==> state.affects_any(events, now, i) || (#[trigger] after.panes[i])
                    == after.panes[i].refreshed(after.tables)
        }),
    decreases events.len(),
{
    if events.len() > 0 {
        let (rest, event) = (events.drop_last(), events.last());
        let before = state.applied_all(rest, now);
        batches_keep_order(state, rest, now);
        before.applying_keeps_panes(event, now);
        let after = before.applied(event, now);
        events_keep_tables_in_order(before, event, now);
        assert forall|i: int| 0 <= i < after.panes.len() implies state.affects_any(events, now, i) || (
        #[trigger] after.panes[i]) == after.panes[i].refreshed(after.tables) by {
            if !state.affects_any(events, now, i) {
                let pane = before.panes[i];
                assert(pane == pane.refreshed(before.tables));
                assert(placed(pane));
                if pane.cluster is Some && pane.kind is Some {
                    let (c, k) = (pane.cluster->0, pane.kind->0);
                    assert(after.panes[i] == pane);
                    assert(pane.shows(c, k));
                    assert(in_view(before.panes, c, k));
                    assert(!after.affects(event, i));
                    assert(event_table(event) != Some((c, k)));
                    events_keep_other_tables(before, event, now, c, k);
                }
            }
        }
        assert forall|i: int| 0 <= i < after.panes.len() implies placed(#[trigger] after.panes[i]) by {
            assert(placed(before.panes[i]));
        }
    }
}

/// After a batch every pane shows what its table holds, if it did before.
pub proof fn batches_keep_panes_fresh(state: AppModel, events: Seq<EventModel>, now: Instant)
    requires
        state.wf(),
        is_fresh(state),
        is_placed(state),
    ensures
        is_fresh(state.batched(events, now)),
        is_placed(state.batched(events, now)),
{
    batches_keep_order(state, events, now);
    let after = state.applied_all(events, now);
    let shown = state.batched(events, now);
    assert forall|i: int| 0 <= i < shown.panes.len() implies (#[trigger] shown.panes[i])
        == shown.panes[i].refreshed(shown.tables) by {
        refreshing_again_changes_nothing(after.panes[i], after.tables);
        assert(state.affects_any(events, now, i) || after.panes[i] == after.panes[i].refreshed(after.tables));
    }
    assert forall|i: int| 0 <= i < shown.panes.len() implies placed(#[trigger] shown.panes[i]) by {
        assert(placed(after.panes[i]));
    }
}

/// Once a cluster is on screen, whatever a batch holds leaves every pane showing
/// what is held, if it did before: nothing it is to show is missing, nothing
/// that is gone remains, and the cursor is on a row. In which order the rows
/// were makes no difference.
pub proof fn batches_keep_showing_what_is_held(state: AppModel, events: Seq<EventModel>, now: Instant)
    requires
        state.wf(),
        state.panes[0].cluster is Some,
        shows_all_that_is_held(state),
    ensures
        shows_all_that_is_held(state.batched(events, now)),
{
    batches_leave_panes_alone(state, events, now);
    let after = state.applied_all(events, now);
    let shown = state.batched(events, now);
    assert forall|i: int| 0 <= i < shown.panes.len() implies shows_what_is_held(
        #[trigger] shown.panes[i],
        shown.tables,
    ) by {
        refreshing_shows_what_is_held(after.panes[i], after.tables);
        assert(shows_what_is_held(state.panes[i], state.tables));
        if !state.affects_any(events, now, i) {
            assert(state.panes[i].table(after.tables) == state.panes[i].table(state.tables));
        }
    }
}

proof fn batches_leave_panes_alone(state: AppModel, events: Seq<EventModel>, now: Instant)
    requires
        state.panes.len() > 0,
        state.panes[0].cluster is Some,
        ascending::<(ClusterId, KindId), TableModel>(state.tables),
    ensures
        ({
            let after = state.applied_all(events, now);
            &&& after.panes == state.panes
            &&& ascending::<(ClusterId, KindId), TableModel>(after.tables)
            &&& forall|i: int|
                0 <= i < state.panes.len() && !state.affects_any(events, now, i) ==> (
                #[trigger] state.panes[i]).table(after.tables) == state.panes[i].table(state.tables)
        }),
    decreases events.len(),
{
    if events.len() > 0 {
        let (rest, event) = (events.drop_last(), events.last());
        let before = state.applied_all(rest, now);
        batches_leave_panes_alone(state, rest, now);
        let after = before.applied(event, now);
        events_keep_tables_in_order(before, event, now);
        assert(after.panes == before.panes);
        assert forall|i: int| 0 <= i < state.panes.len() && !state.affects_any(events, now, i) implies (
        #[trigger] state.panes[i]).table(after.tables) == state.panes[i].table(state.tables) by {
            let pane = state.panes[i];
            assert(pane.table(before.tables) == pane.table(state.tables));
            if pane.cluster is Some && pane.kind is Some {
                let (c, k) = (pane.cluster->0, pane.kind->0);
                assert(before.panes[i].shows(c, k));
                assert(in_view(before.panes, c, k));
                assert(!after.affects(event, i));
                assert(event_table(event) != Some((c, k)));
                events_keep_other_tables(before, event, now, c, k);
            }
        }
    }
}

/// Every decision about the panes leaves them showing what their tables hold:
/// the cluster, the kind, the filters, the order, the cursor, the layout, and
/// letting a cluster go.
pub proof fn decisions_keep_panes_fresh(
    state: AppModel,
    cluster: Seq<char>,
    kind: KindModel,
    filters: FiltersModel,
    sort: Sort,
    cursor: int,
    index: usize,
    now: Instant,
)
    requires
        state.wf(),
        state.focused().rows.len() <= usize::MAX,
        is_fresh(state),
    ensures
        is_fresh(AppModel::fresh()),
        is_fresh(state.refocused(PaneModel { sort, cursor: 0, ..state.focused() })),
        is_fresh(state.with_cursor(cursor)),
        is_fresh(state.released(cluster)),
        is_fresh(state.with_cluster(cluster, now)),
        is_fresh(state.with_kind(kind)),
        is_fresh(state.with_filters(filters)),
        is_fresh(state.with_focus(index, now)),
        is_fresh(state.split(now)),
        is_fresh(state.unsplit(now)),
{
    let pane = state.focused();
    let moved = PaneModel { cluster: Some(cluster), cursor: 0, ..pane };
    let turned = PaneModel { kind: Some(kind), cursor: 0, ..pane };
    let filtered = PaneModel { filters, ..pane };
    refreshing_again_changes_nothing(moved, state.tables);
    refreshing_again_changes_nothing(turned, state.tables);
    refreshing_again_changes_nothing(filtered, state.tables);
    refreshing_again_changes_nothing(state.second_pane(), state.tables);
    others_stay_fresh(state, state.with_cluster(cluster, now));
    others_stay_fresh(state, state.with_kind(kind));
    others_stay_fresh(state, state.with_filters(filters));
    let two = state.split(now);
    assert forall|i: int| 0 <= i < two.panes.len() implies (#[trigger] two.panes[i])
        == two.panes[i].refreshed(two.tables) by {
        if i < state.panes.len() {
            assert(state.panes[i] == state.panes[i].refreshed(state.tables));
        }
    }
    let one = state.unsplit(now);
    assert forall|i: int| 0 <= i < one.panes.len() implies (#[trigger] one.panes[i])
        == one.panes[i].refreshed(one.tables) by {
        assert(state.panes[i] == state.panes[i].refreshed(state.tables));
    }
    let other = state.with_focus(index, now);
    assert forall|i: int| 0 <= i < other.panes.len() implies (#[trigger] other.panes[i])
        == other.panes[i].refreshed(other.tables) by {
        assert(state.panes[i] == state.panes[i].refreshed(state.tables));
    }
    let start = AppModel::fresh();
    assert(start.panes[0] == start.panes[0].refreshed(start.tables));
    let resorted = PaneModel { sort, cursor: 0, ..pane };
    refreshing_again_changes_nothing(resorted, state.tables);
    others_stay_fresh(state, state.refocused(resorted));
    assert(pane == pane.refreshed(state.tables));
    others_stay_fresh(state, state.with_cursor(cursor));
    let left = state.released(cluster);
    assert forall|i: int| 0 <= i < left.panes.len() implies (#[trigger] left.panes[i])
        == left.panes[i].refreshed(left.tables) by {
        refreshing_again_changes_nothing(state.panes[i], left.tables);
        assert(state.panes[i] == state.panes[i].refreshed(state.tables));
        if state.panes[i].cluster != Some(cluster) && state.panes[i].cluster is Some && state.panes[i].kind is Some {
            releasing_drops_one_cluster(state, cluster, (state.panes[i].cluster->0, state.panes[i].kind->0));
        }
    }
}

/// Every decision about the panes leaves none of them on a kind of no cluster,
/// if a kind is only picked once there is a cluster to pick it from.
pub proof fn decisions_keep_panes_placed(
    state: AppModel,
    cluster: Seq<char>,
    kind: KindModel,
    filters: FiltersModel,
    sort: Sort,
    cursor: int,
    index: usize,
    now: Instant,
)
    requires
        state.wf(),
        is_placed(state),
    ensures
        is_placed(AppModel::fresh()),
        is_placed(state.with_cluster(cluster, now)),
        state.focused().cluster is Some ==> is_placed(state.with_kind(kind)),
        is_placed(state.with_filters(filters)),
        is_placed(state.refocused(PaneModel { sort, cursor: 0, ..state.focused() })),
        is_placed(state.with_cursor(cursor)),
        is_placed(state.with_focus(index, now)),
        is_placed(state.split(now)),
        is_placed(state.unsplit(now)),
        is_placed(state.released(cluster)),
{
    assert(placed(state.focused()));
    assert(placed(state.panes[0]));
    assert forall|i: int| 0 <= i < state.panes.len() implies placed(#[trigger] state.released(cluster).panes[i]) by {
        assert(placed(state.panes[i]));
    }
    assert forall|i: int| 0 <= i < state.split(now).panes.len() implies placed(
        #[trigger] state.split(now).panes[i],
    ) by {
        if i < state.panes.len() {
            assert(placed(state.panes[i]));
        }
    }
    assert forall|i: int| 0 <= i < state.unsplit(now).panes.len() implies placed(
        #[trigger] state.unsplit(now).panes[i],
    ) by {
        assert(placed(state.panes[i]));
    }
    focus_keeps_placed(state, state.with_cluster(cluster, now));
    if state.focused().cluster is Some {
        focus_keeps_placed(state, state.with_kind(kind));
    }
    focus_keeps_placed(state, state.with_filters(filters));
    focus_keeps_placed(state, state.refocused(PaneModel { sort, cursor: 0, ..state.focused() }));
    focus_keeps_placed(state, state.with_cursor(cursor));
}

proof fn focus_keeps_placed(state: AppModel, after: AppModel)
    requires
        state.view_wf(),
        is_placed(state),
        after.panes.len() == state.panes.len(),
        forall|i: int| 0 <= i < state.panes.len() && i != state.focus ==> (#[trigger] after.panes[i]) == state.panes[i],
        placed(after.panes[state.focus as int]),
    ensures
        is_placed(after),
{
    assert forall|i: int| 0 <= i < after.panes.len() implies placed(#[trigger] after.panes[i]) by {
        if i != state.focus {
            assert(placed(state.panes[i]));
        }
    }
}

proof fn others_stay_fresh(state: AppModel, after: AppModel)
    requires
        state.view_wf(),
        is_fresh(state),
        after.tables == state.tables,
        after.panes.len() == state.panes.len(),
        forall|i: int| 0 <= i < state.panes.len() && i != state.focus ==> (#[trigger] after.panes[i]) == state.panes[i],
        after.panes[state.focus as int] == after.panes[state.focus as int].refreshed(state.tables),
    ensures
        is_fresh(after),
{
    assert forall|i: int| 0 <= i < after.panes.len() implies (#[trigger] after.panes[i])
        == after.panes[i].refreshed(after.tables) by {
        if i != state.focus {
            assert(state.panes[i] == state.panes[i].refreshed(state.tables));
        }
    }
}

// --- repainting -----------------------------------------------------------------

/// What did not ask for a repaint did not change what is shown beside the
/// tables: not the detail, the tail or the command, not the lists of contexts,
/// kinds, actions and forwards. A connection can only have changed in that a
/// listing from scratch made up for what it lost.
pub proof fn silence_means_nothing_changed(state: AppModel, event: EventModel, now: Instant)
    requires
        !state.repaints(event),
    ensures
        ({
            let after = state.applied(event, now);
            &&& after.detail == state.detail
            &&& after.logs == state.logs
            &&& after.exec_session == state.exec_session
            &&& after.contexts == state.contexts
            &&& after.current == state.current
            &&& after.config_error == state.config_error
            &&& after.kinds == state.kinds
            &&& after.activity == state.activity
            &&& after.forwards == state.forwards
            &&& after.panes == state.panes
            &&& after.focus == state.focus
            &&& !(event is ResourceReset) ==> after.connections == state.connections
        }),
{
}

/// What is rendered for a pane does not change without a repaint being asked
/// for: a listing that finds everything as it was is no reason to draw again.
pub proof fn silent_tables_look_the_same(state: AppModel, event: EventModel, now: Instant, index: int)
    requires
        state.wf(),
        is_fresh(state),
        is_placed(state),
        !state.repaints(event),
        0 <= index < state.panes.len(),
    ensures
        state.panes[index].refreshed(state.applied(event, now).tables) == state.panes[index],
{
    let pane = state.panes[index];
    assert(pane == pane.refreshed(state.tables));
    assert(placed(pane));
    if pane.cluster is Some && pane.kind is Some {
        let (c, k) = (pane.cluster->0, pane.kind->0);
        assert(pane.shows(c, k));
        assert(in_view(state.panes, c, k));
        if event_table(event) == Some((c, k)) {
            let old_table = state.table(c, k);
            let table = match event {
                EventModel::ResourceReset { columns, rows, .. } => old_table.reset(columns, rows),
                EventModel::ResourceApplied { row, .. } => old_table.with_row(row, now),
                EventModel::ResourceDeleted { key, .. } => old_table.without(key),
                EventModel::KindFailed { reason, .. } => old_table.refused(reason),
                _ => arbitrary(),
            };
            if let EventModel::ResourceDeleted { key, .. } = event {
                crate::seqs::filter_all(old_table.rows, crate::keyed::other_than::<KeyModel, RowModel>(key));
            }
            assert(table.rows == old_table.rows && table.columns == old_table.columns && table.unavailable
                == old_table.unavailable);
            let placed = put::<(ClusterId, KindId), TableModel>(state.tables, (c, k), table);
            lookup_after_put::<(ClusterId, KindId), TableModel>(state.tables, (c, k), table, (c, k));
            put_keeps_order::<(ClusterId, KindId), TableModel>(state.tables, (c, k), table);
            if event is ResourceReset {
                budget_spares(placed, state.panes, c, state.budget, (c, k));
            }
            assert(lookup(state.applied(event, now).tables, (c, k)) == Some(table));
            if lookup(state.tables, (c, k)) is None {
                assert(table.rows =~= seq![]);
                assert(values(table.rows) =~= Seq::<RowModel>::empty());
                assert(values(table.rows).filter(let_through(pane.filters)) =~= Seq::<RowModel>::empty()) by {
                    reveal(Seq::filter);
                }
                arranging_nothing(pane.sort);
            }
        } else {
            events_keep_other_tables(state, event, now, c, k);
        }
    }
}

proof fn arranging_nothing(by: crate::rows::Sort)
    ensures
        arranged(seq![], by) == Seq::<RowModel>::empty(),
{
    let none = Seq::<RowModel>::empty();
    crate::sorting::sorting_keeps_items(none, crate::rows::row_order(by.key));
    assert(arranged(none, by) =~= none);
}

// --- layout ---------------------------------------------------------------------

/// Splitting and going back leaves the pane that was there.
pub proof fn unsplitting_undoes_a_split(state: AppModel, now: Instant)
    requires
        state.wf(),
        state.panes.len() == 1,
    ensures
        state.split(now).panes.len() == 2,
        state.split(now).panes[0] == state.panes[0],
        state.split(now).unsplit(now).panes == state.panes,
        state.split(now).unsplit(now).focus == state.focus,
        state.split(now).unsplit(now).tables == state.tables,
{
    assert(state.split(now).unsplit(now).panes =~= state.panes);
}

/// A split shows two clusters wherever there are two to show.
pub proof fn a_split_shows_another_cluster(state: AppModel, now: Instant, i: int)
    requires
        state.wf(),
        state.panes.len() == 1,
        0 <= i < state.contexts.len(),
        state.panes[0].cluster != Some(state.contexts[i].name),
    ensures
        state.split(now).panes[1].cluster is Some,
        state.split(now).panes[1].cluster != state.panes[0].cluster,
{
    another_is_found(state.contexts, state.panes[0].cluster, i);
}

proof fn another_is_found(contexts: Seq<crate::objects::ContextModel>, cluster: Option<Seq<char>>, i: int)
    requires
        0 <= i < contexts.len(),
        cluster != Some(contexts[i].name),
    ensures
        crate::model::other_context(contexts, cluster) is Some,
        crate::model::other_context(contexts, cluster) != cluster,
    decreases contexts.len(),
{
    if i < contexts.len() - 1 {
        another_is_found(contexts.drop_last(), cluster, i);
    } else if crate::model::other_context(contexts.drop_last(), cluster) is Some {
        found_is_another(contexts.drop_last(), cluster);
    }
}

proof fn found_is_another(contexts: Seq<crate::objects::ContextModel>, cluster: Option<Seq<char>>)
    ensures
        crate::model::other_context(contexts, cluster) is Some ==> crate::model::other_context(contexts, cluster)
            != cluster,
    decreases contexts.len(),
{
    if contexts.len() > 0 {
        found_is_another(contexts.drop_last(), cluster);
    }
}

/// Moving to another cluster leaves nothing of the one before on screen: no
/// detail, no tail, no command.
pub proof fn another_cluster_starts_clean(state: AppModel, cluster: Seq<char>, now: Instant)
    requires
        state.wf(),
        state.focused().cluster != Some(cluster),
    ensures
        ({
            let after = state.with_cluster(cluster, now);
            after.focused().cluster == Some(cluster) && after.focused().cursor == 0 && after.detail is None
                && after.logs is None && after.exec_session is None
        }),
{
}

/// The cursor never leaves the rows, however far it is sent.
pub proof fn the_cursor_stays_on_a_row(state: AppModel, cursor: int)
    requires
        state.wf(),
        state.focused().rows.len() <= usize::MAX,
    ensures
        state.with_cursor(cursor).wf(),
        state.focused().rows.len() > 0 ==> state.with_cursor(cursor).focused().cursor < state.focused().rows.len(),
        0 <= cursor < state.focused().rows.len() ==> state.with_cursor(cursor).focused().cursor == cursor,
{
    let after = state.with_cursor(cursor);
    assert forall|i: int| 0 <= i < after.panes.len() implies (#[trigger] after.panes[i]).cursor_fits() by {
        if i != state.focus {
            assert(state.panes[i].cursor_fits());
        }
    }
}

/// Reading the contexts again moves nobody: it picks a cluster only for a
/// window that shows none, and that is the current context.
pub proof fn reading_contexts_moves_nobody(
    state: AppModel,
    contexts: Seq<crate::objects::ContextModel>,
    current: Option<Seq<char>>,
    now: Instant,
)
    requires
        state.wf(),
    ensures
        ({
            let after = state.applied(EventModel::Contexts { contexts, current }, now);
            &&& state.panes[0].cluster is Some ==> after.panes == state.panes
            &&& state.panes[0].cluster is None ==> after.panes[0].cluster == current
            &&& after.focus == state.focus
        }),
{
}

/// Forwards outlive what started them: only what the cluster says of them, and
/// stopping one, changes the list.
pub proof fn forwards_outlive_their_pane(
    state: AppModel,
    event: EventModel,
    cluster: Seq<char>,
    kind: KindModel,
    now: Instant,
)
    ensures
        !(event is ForwardChanged) ==> state.applied(event, now).forwards == state.forwards,
        state.with_cluster(cluster, now).forwards == state.forwards,
        state.with_kind(kind).forwards == state.forwards,
        state.split(now).forwards == state.forwards,
        state.unsplit(now).forwards == state.forwards,
        state.released(cluster).forwards == state.forwards,
{
}

// --- permissions ----------------------------------------------------------------

/// A change goes through exactly where the cluster may be changed and can be
/// reached, and what may not be changed is refused as read-only whatever the
/// connection is.
pub proof fn changes_need_permission_and_a_connection(state: AppModel, cluster: Seq<char>)
    ensures
        state.refusal(cluster) is None <==> state.permissions.may_mutate(cluster) && state.usable(cluster),
        !state.permissions.may_mutate(cluster) ==> state.refusal(cluster) == Some(
            crate::permissions::RefusalModel::ReadOnly { cluster },
        ),
        (AppModel { permissions: state.permissions.denied(cluster), ..state }).refusal(cluster) is Some,
{
}

/// No event changes who may change what.
pub proof fn events_grant_nothing(state: AppModel, event: EventModel, now: Instant)
    ensures
        state.applied(event, now).permissions == state.permissions,
        state.applied(event, now).budget == state.budget,
        state.applied(event, now).next_forward == state.next_forward,
{
}

/// The recent actions are bounded, the latest is first, and the ones before
/// follow in the order they had.
pub proof fn actions_are_newest_first(activity: Seq<ActivityModel>, latest: ActivityModel, i: int)
    requires
        activity.len() <= ACTIVITY_LIMIT,
    ensures
        logged(activity, latest).len() <= ACTIVITY_LIMIT,
        logged(activity, latest)[0] == latest,
        0 <= i < logged(activity, latest).len() - 1 ==> logged(activity, latest)[i + 1] == activity[i],
        activity.len() < ACTIVITY_LIMIT ==> logged(activity, latest).len() == activity.len() + 1,
{
}

// --- warm clusters --------------------------------------------------------------

/// A cluster that is let go holds no rows, and every other cluster holds what
/// it held.
pub proof fn releasing_drops_one_cluster(state: AppModel, cluster: Seq<char>, key: (Seq<char>, KindModel))
    requires
        state.wf(),
    ensures
        held_rows(state.released(cluster).tables, cluster) == 0,
        key.0 == cluster ==> !is_key(state.released(cluster).tables, key),
        key.0 != cluster ==> lookup(state.released(cluster).tables, key) == lookup(state.tables, key),
        state.released(cluster).connections == state.connections,
        !is_key(state.released(cluster).last_viewed, cluster),
{
    let keep = of_other_clusters(cluster);
    let left = state.tables.filter(keep);
    filter_keeps_order::<(ClusterId, KindId), TableModel>(state.tables, keep);
    assert forall|i: int| 0 <= i < left.len() implies ((#[trigger] left[i]).0).0 != cluster by {
        filter_source(state.tables, keep, i);
    }
    no_rows_of(left, cluster);
    if key.0 != cluster {
        if is_key(state.tables, key) {
            let k = choose|k: int| 0 <= k < state.tables.len() && (#[trigger] state.tables[k]).0 == key;
            filter_target(state.tables, keep, k);
            let i = choose|i: int| 0 <= i < left.len() && left[i] == state.tables[k];
            lookup_at::<(ClusterId, KindId), TableModel>(state.tables, k);
            lookup_at::<(ClusterId, KindId), TableModel>(left, i);
        } else if is_key(left, key) {
            let i = choose|i: int| 0 <= i < left.len() && (#[trigger] left[i]).0 == key;
            filter_source(state.tables, keep, i);
            let k = choose|k: int| 0 <= k < state.tables.len() && state.tables[k] == left[i];
            assert(state.tables[k].0 == key);
        }
    }
    lookup_after_cut::<ClusterId, Instant>(state.last_viewed, cluster, cluster);
}

proof fn no_rows_of(tables: Tables, cluster: Seq<char>)
    requires
        forall|i: int| 0 <= i < tables.len() ==> ((#[trigger] tables[i]).0).0 != cluster,
    ensures
        held_rows(tables, cluster) == 0,
    decreases tables.len(),
{
    if tables.len() > 0 {
        assert((tables[tables.len() - 1].0).0 != cluster);
        assert forall|i: int| 0 <= i < tables.drop_last().len() implies ((
        #[trigger] tables.drop_last()[i]).0).0 != cluster by {
            assert(tables.drop_last()[i] == tables[i]);
        }
        no_rows_of(tables.drop_last(), cluster);
    }
}

/// A cluster that somebody is looking at is never let go for being idle.
pub proof fn what_is_in_view_is_not_idle(
    panes: Seq<PaneModel>,
    now: Instant,
    timeout: Duration,
    visit: (Seq<char>, Instant),
    i: int,
)
    requires
        0 <= i < panes.len(),
        panes[i].cluster == Some(visit.0),
    ensures
        !neglected(panes, now, timeout)(visit),
{
    in_a_pane_is_in_view(panes, i);
}

/// A cluster that leaves the screen stays warm for the time it is given, counted
/// from the moment it left: whether another one takes its place, or the pane it
/// was in is closed.
pub proof fn leaving_starts_the_clock(
    state: AppModel,
    cluster: Seq<char>,
    now: Instant,
    later: Instant,
    timeout: Duration,
)
    requires
        state.wf(),
        since(later, now).nanos <= timeout.nanos,
    ensures
        state.focused().cluster matches Some(leaving) ==> leaving != cluster ==> !state.with_cluster(
            cluster,
            now,
        ).idle_at(later, timeout).contains(leaving),
        state.panes.len() == 2 ==> (state.panes[1].cluster matches Some(leaving) ==> !state.unsplit(now).idle_at(
            later,
            timeout,
        ).contains(leaving)),
{
    if state.focused().cluster is Some && state.focused().cluster->0 != cluster {
        let leaving = state.focused().cluster->0;
        let stamped = put::<ClusterId, Instant>(state.last_viewed, leaving, now);
        let after = state.with_cluster(cluster, now);
        put_keeps_order::<ClusterId, Instant>(state.last_viewed, leaving, now);
        put_keeps_order::<ClusterId, Instant>(stamped, cluster, now);
        lookup_after_put::<ClusterId, Instant>(state.last_viewed, leaving, now, leaving);
        lookup_after_put::<ClusterId, Instant>(stamped, cluster, now, leaving);
        just_seen_is_not_idle(after, leaving, now, later, timeout);
    }
    if state.panes.len() == 2 && state.panes[1].cluster is Some {
        let leaving = state.panes[1].cluster->0;
        put_keeps_order::<ClusterId, Instant>(state.last_viewed, leaving, now);
        lookup_after_put::<ClusterId, Instant>(state.last_viewed, leaving, now, leaving);
        just_seen_is_not_idle(state.unsplit(now), leaving, now, later, timeout);
    }
}

proof fn just_seen_is_not_idle(state: AppModel, cluster: Seq<char>, now: Instant, later: Instant, timeout: Duration)
    requires
        ascending::<ClusterId, Instant>(state.last_viewed),
        lookup(state.last_viewed, cluster) == Some(now),
        since(later, now).nanos <= timeout.nanos,
    ensures
        !state.idle_at(later, timeout).contains(cluster),
{
    let keep = neglected(state.panes, later, timeout);
    let idle = state.last_viewed.filter(keep);
    if state.idle_at(later, timeout).contains(cluster) {
        let i = choose|i: int| 0 <= i < idle.len() && state.idle_at(later, timeout)[i] == cluster;
        filter_source(state.last_viewed, keep, i);
        let k = choose|k: int| 0 <= k < state.last_viewed.len() && state.last_viewed[k] == idle[i];
        lookup_at::<ClusterId, Instant>(state.last_viewed, k);
    }
}

pub(crate) proof fn in_a_pane_is_in_view(panes: Seq<PaneModel>, i: int)
    requires
        0 <= i < panes.len(),
        panes[i].cluster is Some,
    ensures
        clusters_of(panes).contains(panes[i].cluster->0),
    decreases panes.len(),
{
    let before = clusters_of(panes.drop_last());
    let all = clusters_of(panes);
    if i < panes.len() - 1 {
        in_a_pane_is_in_view(panes.drop_last(), i);
        let k = choose|k: int| 0 <= k < before.len() && before[k] == panes[i].cluster->0;
        assert(all[k] == before[k]);
    } else if before.len() > 0 && before.last() == panes[i].cluster->0 {
        assert(all[before.len() - 1] == panes[i].cluster->0);
    } else {
        assert(all[before.len() as int] == panes[i].cluster->0);
    }
}

/// The forwards are listed in the order they were started.
pub proof fn forwards_are_in_the_order_they_were_started(state: AppModel, i: int, j: int)
    requires
        state.wf(),
        0 <= i < j < state.forwards.len(),
    ensures
        ((state.forwards[i].0).0).0 <= ((state.forwards[j].0).0).0,
{
    ascending_at::<(ForwardId, ClusterId), ForwardInfoModel>(state.forwards, i, j);
}

// --- narrowing a table ----------------------------------------------------------

/// A row that is held is shown, whatever the order, if its namespace is the one
/// asked for or none was, and its name, its namespace or a cell holds what was
/// typed, whatever the case, or nothing was. A row with none of that is not.
pub proof fn a_table_shows_what_was_asked_for(pane: PaneModel, tables: Tables, row: RowModel, cell: int)
    requires
        pane.cluster is Some,
        pane.kind is Some,
        lookup(tables, (pane.cluster->0, pane.kind->0)) is Some,
        values((lookup(tables, (pane.cluster->0, pane.kind->0))->0).rows).contains(row),
    ensures
        ({
            let shown = pane.refreshed(tables).rows.contains(row);
            let (namespace, search) = (pane.filters.namespace, pane.filters.search);
            let meant = namespace is None || namespace == Some(row.key.namespace);
            &&& shown ==> meant
            &&& meant && search is None ==> shown
            &&& meant && search is Some && (search->0).len() == 0 ==> shown
            &&& meant && search is Some && holds(lowercase(row.key.name), lowercase(search->0)) ==> shown
            &&& meant && search is Some && holds(lowercase(row.key.namespace), lowercase(search->0)) ==> shown
            &&& meant && search is Some && 0 <= cell < row.cells.len() && holds(
                lowercase(row.cells[cell].text),
                lowercase(search->0),
            ) ==> shown
            &&& shown && search is Some && (search->0).len() > 0 ==> holds(
                lowercase(row.key.name),
                lowercase(search->0),
            ) || holds(lowercase(row.key.namespace), lowercase(search->0)) || exists|i: int|
                0 <= i < row.cells.len() && holds(lowercase((#[trigger] row.cells[i]).text), lowercase(search->0))
        }),
{
    panes_show_what_filters_let_through(pane, tables, row);
}

/// A row is always found by its own namespace and by its own name.
pub proof fn a_row_is_found_by_its_own_words(pane: PaneModel, tables: Tables, row: RowModel)
    requires
        pane.cluster is Some,
        pane.kind is Some,
        lookup(tables, (pane.cluster->0, pane.kind->0)) is Some,
        values((lookup(tables, (pane.cluster->0, pane.kind->0))->0).rows).contains(row),
        pane.filters.namespace is None,
        pane.filters.search == Some(row.key.namespace) || pane.filters.search == Some(row.key.name),
    ensures
        pane.refreshed(tables).rows.contains(row),
{
    let (space, name) = (lowercase(row.key.namespace), lowercase(row.key.name));
    a_text_holds_its_parts(seq![], space, seq![]);
    a_text_holds_its_parts(seq![], name, seq![]);
    a_table_shows_what_was_asked_for(pane, tables, row, 0);
}

/// Every row a pane shows is held for its cluster and its kind, as it is held.
pub proof fn a_table_shows_only_what_is_held(pane: PaneModel, tables: Tables, row: RowModel)
    requires
        pane.refreshed(tables).rows.contains(row),
    ensures
        pane.cluster is Some,
        pane.kind is Some,
        lookup(tables, (pane.cluster->0, pane.kind->0)) is Some,
        values((lookup(tables, (pane.cluster->0, pane.kind->0))->0).rows).contains(row),
{
    if pane.table(tables) is Some {
        panes_show_what_filters_let_through(pane, tables, row);
    }
}

// --- moving about -----------------------------------------------------------------

/// The cursor goes to the row it is sent to, to the last one if it is sent past
/// the end, and to the first if it is sent before it; nothing else moves.
pub proof fn the_cursor_goes_where_it_is_sent(state: AppModel, cursor: int, other: int)
    requires
        state.wf(),
        state.focused().rows.len() <= usize::MAX,
    ensures
        ({
            let (rows, after) = (state.focused().rows, state.with_cursor(cursor));
            &&& 0 <= cursor < rows.len() ==> after.focused().cursor == cursor
            &&& cursor >= rows.len() > 0 ==> after.focused().cursor == rows.len() - 1
            &&& cursor < 0 || rows.len() == 0 ==> after.focused().cursor == 0
            &&& after.focused().rows == rows
            &&& after.detail == state.detail
            &&& 0 <= other < state.panes.len() && other != state.focus ==> after.panes[other] == state.panes[other]
        }),
{
}

/// Half a page is half of what fits on screen, and at least one row.
pub proof fn half_a_page_is_half_of_what_fits(visible: usize)
    ensures
        visible <= 3 ==> crate::app::half_page(visible) == 1,
        visible >= 2 ==> 2 * crate::app::half_page(visible) <= visible < 2 * crate::app::half_page(visible) + 2,
{
}

/// Focusing a pane moves the focus there and closes the object; a pane that is
/// not there, or has the focus, changes nothing.
pub proof fn focusing_moves_the_focus(state: AppModel, index: usize, now: Instant)
    ensures
        ({
            let after = state.with_focus(index, now);
            &&& index < state.panes.len() && index != state.focus ==> after.focus == index && after.detail is None
            &&& index >= state.panes.len() || index == state.focus ==> after == state
            &&& after.panes == state.panes
            &&& after.tables == state.tables
        }),
{
}

/// Filters are set as they are given, on the focused pane, which stays on its
/// kind and its cluster.
pub proof fn filters_are_those_that_were_set(state: AppModel, filters: FiltersModel)
    requires
        state.wf(),
    ensures
        state.with_filters(filters).focused().filters == filters,
        state.with_filters(filters).focused().cluster == state.focused().cluster,
        state.with_filters(filters).focused().kind == state.focused().kind,
        state.with_filters(filters).focused().sort == state.focused().sort,
        state.with_filters(filters).tables == state.tables,
{
}

// --- what a pane carries ----------------------------------------------------------

/// A pane carries the columns of its table, and why it cannot be listed where it
/// cannot; without a table it carries nothing. It stays on its cluster, its
/// kind, its filters and its order, and the cursor stays where it was if there
/// is a row, and otherwise goes to the last.
pub proof fn a_pane_carries_its_table(pane: PaneModel, tables: Tables)
    requires
        pane.cluster is Some,
        pane.kind is Some,
    ensures
        ({
            let after = pane.refreshed(tables);
            let held = lookup(tables, (pane.cluster->0, pane.kind->0));
            &&& held matches Some(table) ==> after.columns == table.columns && after.unavailable == table.unavailable
            &&& held is None ==> after.rows.len() == 0 && after.columns.len() == 0 && after.unavailable is None
            &&& pane.cursor < after.rows.len() ==> after.cursor == pane.cursor
            &&& 0 < after.rows.len() <= pane.cursor && after.rows.len() <= usize::MAX ==> after.cursor == after.rows.len()
                - 1
            &&& after.cluster == pane.cluster
            &&& after.kind == pane.kind
            &&& after.filters == pane.filters
            &&& after.sort == pane.sort
        }),
{
}

/// A second pane starts on the kind of the first, with no filter and its cursor
/// on top; on the first pane's cluster where there is no other.
pub proof fn a_second_pane_starts_afresh(state: AppModel, now: Instant)
    requires
        state.panes.len() == 1,
    ensures
        ({
            let pane = state.split(now).panes[1];
            &&& pane.kind == state.panes[0].kind
            &&& pane.filters == FiltersModel::none()
            &&& pane.cursor == 0
            &&& pane.sort.key == crate::rows::SortKey::Namespace
            &&& (forall|i: int|
                0 <= i < state.contexts.len() ==> Some((#[trigger] state.contexts[i]).name) == state.panes[0].cluster)
                ==> pane.cluster == state.panes[0].cluster
        }),
{
    if forall|i: int|
        0 <= i < state.contexts.len() ==> Some((#[trigger] state.contexts[i]).name) == state.panes[0].cluster {
        no_other_context(state.contexts, state.panes[0].cluster);
    }
}

proof fn no_other_context(contexts: Seq<crate::objects::ContextModel>, cluster: Option<Seq<char>>)
    requires
        forall|i: int| 0 <= i < contexts.len() ==> Some((#[trigger] contexts[i]).name) == cluster,
    ensures
        crate::model::other_context(contexts, cluster) is None,
    decreases contexts.len(),
{
    if contexts.len() > 0 {
        let rest = contexts.drop_last();
        assert forall|i: int| 0 <= i < rest.len() implies Some((#[trigger] rest[i]).name) == cluster by {
            assert(rest[i] == contexts[i]);
        }
        no_other_context(rest, cluster);
        assert(Some(contexts[contexts.len() - 1].name) == cluster);
    }
}

/// Where a cluster holds too much, its largest tables go first.
pub proof fn the_largest_tables_go_first(tables: Tables, panes: Seq<PaneModel>, cluster: Seq<char>, i: int, j: int)
    requires
        0 <= i < j < releasable(tables, panes, cluster).len(),
    ensures
        releasable(tables, panes, cluster)[i].1 >= releasable(tables, panes, cluster)[j].1,
{
    let sizes = tables.filter(unseen(panes, cluster)).map_values(kind_size());
    crate::sorting::sorting_orders(sizes, larger());
    assert(!larger()(releasable(tables, panes, cluster)[j], releasable(tables, panes, cluster)[i]));
}

/// The rows behind a pane that changed lately are known, and those that changed
/// longer ago are not.
pub proof fn recent_changes_are_known(
    state: AppModel,
    index: int,
    now: Instant,
    window: Duration,
    change: (KeyModel, Instant),
)
    requires
        0 <= index < state.panes.len(),
        state.panes[index].cluster is Some,
        state.panes[index].kind is Some,
        lookup(state.tables, (state.panes[index].cluster->0, state.panes[index].kind->0)) is Some,
    ensures
        ({
            let pane = state.panes[index];
            let table = lookup(state.tables, (pane.cluster->0, pane.kind->0))->0;
            state.recent_changes(index, now, window).contains(change) <==> table.changed.contains(change) && since(
                now,
                change.1,
            ).nanos < window.nanos
        }),
{
    let pane = state.panes[index];
    let table = lookup(state.tables, (pane.cluster->0, pane.kind->0))->0;
    filter_contains(table.changed, crate::table::recent_changes(now, window), change);
}

} // verus!
