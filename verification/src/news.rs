//! What a console knows once it was told something.

use crate::clock::{Duration, Instant};
use crate::connections::{ConnectionModel, Connections};
use crate::events::EventModel;
use crate::keyed::{ascending, lookup, lookup_after_cut, lookup_after_put, put_keeps_order};
use crate::model::{all_mentioned, AppModel, DetailModel};
use crate::mutation::{MutationModel, MutationOutcomeModel};
use crate::objects::{
    ClusterId, ColumnModel, ContextModel, KeyModel, KindId, KindInfoModel, KindModel, ObjectModel, ResourceKey, RowModel,
};
use crate::sessions::{ConnectionStateModel, ExecStatusModel, ForwardId, ForwardInfoModel, LineModel};
use crate::table::TableModel;
use vstd::prelude::*;

verus! {

// --- connections ------------------------------------------------------------------

/// A state that is reported is the state a connection is in; if it is another
/// one than before, it is in it since now, and otherwise since when it was.
/// What else is known of the connection stays.
pub proof fn a_reported_state_is_known(app: AppModel, cluster: Seq<char>, state: ConnectionStateModel, now: Instant)
    requires
        ascending::<ClusterId, ConnectionModel>(app.connections),
    ensures
        ({
            let before = lookup(app.connections, cluster);
            let after = lookup(app.applied(EventModel::Status { cluster, state }, now).connections, cluster);
            &&& after is Some
            &&& after->0.state == state
            &&& before is None || before->0.state != state ==> after->0.since == now
            &&& before is Some && before->0.state == state ==> after->0.since == before->0.since
            &&& before is Some ==> after->0.dropped_events == before->0.dropped_events && after->0.last_round_trip
                == before->0.last_round_trip
            &&& before is None ==> after->0.dropped_events == 0 && after->0.last_round_trip is None
        }),
{
    let known = crate::connections::known_connection(app.connections, cluster, now);
    lookup_after_put::<ClusterId, ConnectionModel>(
        app.connections,
        cluster,
        ConnectionModel { state, since: now, ..known },
        cluster,
    );
}

/// How long a ping took is known once it is answered, and the state stays.
pub proof fn a_ping_is_timed(app: AppModel, cluster: Seq<char>, nonce: u64, elapsed: Duration, now: Instant)
    requires
        ascending::<ClusterId, ConnectionModel>(app.connections),
    ensures
        ({
            let before = lookup(app.connections, cluster);
            let after = lookup(app.applied(EventModel::Pong { cluster, nonce, elapsed }, now).connections, cluster);
            &&& after is Some
            &&& after->0.last_round_trip == Some(elapsed)
            &&& before is Some ==> after->0.state == before->0.state && after->0.since == before->0.since
                && after->0.dropped_events == before->0.dropped_events
            &&& before is None ==> after->0.state is Idle
        }),
{
    let known = crate::connections::known_connection(app.connections, cluster, now);
    lookup_after_put::<ClusterId, ConnectionModel>(
        app.connections,
        cluster,
        ConnectionModel { last_round_trip: Some(elapsed), ..known },
        cluster,
    );
}

/// Lost events add up: those of one cluster on that cluster, and those of nobody
/// knows which on every one.
pub proof fn lost_events_add_up(app: AppModel, cluster: Seq<char>, dropped: usize, now: Instant, at: int)
    requires
        ascending::<ClusterId, ConnectionModel>(app.connections),
        0 <= at < app.connections.len(),
        app.connections[at].0 == cluster,
        app.connections[at].1.dropped_events + dropped <= usize::MAX,
    ensures
        ({
            let before = app.connections[at].1;
            let one = lookup(app.applied(EventModel::Stale { cluster: Some(cluster), dropped }, now).connections, cluster);
            let all = app.applied(EventModel::Stale { cluster: None, dropped }, now).connections;
            &&& one is Some
            &&& one->0.dropped_events == before.dropped_events + dropped
            &&& one->0.state == before.state
            &&& all.len() == app.connections.len()
            &&& all[at].0 == cluster
            &&& all[at].1.dropped_events == before.dropped_events + dropped
            &&& all[at].1.state == before.state
        }),
{
    crate::keyed::lookup_at::<ClusterId, ConnectionModel>(app.connections, at);
    let known = crate::connections::known_connection(app.connections, cluster, now);
    lookup_after_put::<ClusterId, ConnectionModel>(
        app.connections,
        cluster,
        crate::connections::losing(known, dropped),
        cluster,
    );
}

/// A listing from scratch makes up for what its cluster lost, and for nothing
/// another one did.
pub proof fn a_listing_makes_up_for_losses(
    app: AppModel,
    cluster: Seq<char>,
    kind: KindModel,
    columns: Seq<ColumnModel>,
    rows: Seq<RowModel>,
    now: Instant,
    other: Seq<char>,
)
    requires
        ascending::<ClusterId, ConnectionModel>(app.connections),
    ensures
        ({
            let after = app.applied(EventModel::ResourceReset { cluster, kind, columns, rows }, now).connections;
            &&& lookup(after, cluster) matches Some(connection) ==> connection.dropped_events == 0
            &&& lookup(app.connections, cluster) matches Some(connection) ==> lookup(after, cluster) is Some && lookup(
                after,
                cluster,
            )->0.state == connection.state
            &&& other != cluster ==> lookup(after, other) == lookup(app.connections, other)
        }),
{
    match lookup(app.connections, cluster) {
        Some(connection) => {
            let fresh = ConnectionModel { dropped_events: 0, ..connection };
            lookup_after_put::<ClusterId, ConnectionModel>(app.connections, cluster, fresh, cluster);
            lookup_after_put::<ClusterId, ConnectionModel>(app.connections, cluster, fresh, other);
        },
        None => {},
    }
}

// --- the kubeconfig ---------------------------------------------------------------

/// Reading the kubeconfig makes its contexts known, each with a connection, and
/// forgets what was wrong with it before; the current context is opened where
/// nothing was open.
pub proof fn contexts_are_known_once_read(
    app: AppModel,
    contexts: Seq<ContextModel>,
    current: Option<Seq<char>>,
    now: Instant,
    at: int,
)
    requires
        app.panes.len() > 0,
        ascending::<ClusterId, ConnectionModel>(app.connections),
    ensures
        ({
            let after = app.applied(EventModel::Contexts { contexts, current }, now);
            &&& after.contexts == contexts
            &&& after.current == current
            &&& after.config_error is None
            &&& 0 <= at < contexts.len() ==> lookup(after.connections, contexts[at].name) is Some
            &&& app.panes[0].cluster is None ==> after.panes[0].cluster == current
            &&& app.panes[0].cluster is Some ==> after.panes == app.panes
            &&& after.tables == app.tables
        }),
{
    if 0 <= at < contexts.len() {
        contexts_get_connections(app.connections, contexts, now, contexts[at].name);
        assert(contexts[at].name == contexts[at].name);
    }
    if current is None && app.panes[0].cluster is None {
        assert(app.applied(EventModel::Contexts { contexts, current }, now).panes == app.panes);
    }
}

proof fn contexts_get_connections(
    connections: Connections,
    contexts: Seq<ContextModel>,
    now: Instant,
    name: Seq<char>,
)
    requires
        ascending::<ClusterId, ConnectionModel>(connections),
    ensures
        ascending::<ClusterId, ConnectionModel>(all_mentioned(connections, contexts, now)),
        lookup(connections, name) is Some ==> lookup(all_mentioned(connections, contexts, now), name) == lookup(
            connections,
            name,
        ),
        (exists|i: int| 0 <= i < contexts.len() && (#[trigger] contexts[i]).name == name) ==> lookup(
            all_mentioned(connections, contexts, now),
            name,
        ) is Some,
    decreases contexts.len(),
{
    if contexts.len() > 0 {
        let (rest, last) = (contexts.drop_last(), contexts.last());
        contexts_get_connections(connections, rest, now, name);
        let before = all_mentioned(connections, rest, now);
        let idle = crate::connections::fresh_connection(ConnectionStateModel::Idle, now);
        put_keeps_order::<ClusterId, ConnectionModel>(before, last.name, idle);
        lookup_after_put::<ClusterId, ConnectionModel>(before, last.name, idle, name);
        if exists|i: int| 0 <= i < contexts.len() && (#[trigger] contexts[i]).name == name {
            let i = choose|i: int| 0 <= i < contexts.len() && (#[trigger] contexts[i]).name == name;
            if i < rest.len() {
                assert(rest[i].name == name);
            } else {
                assert(last.name == name);
            }
        }
    }
}

/// What is wrong with the kubeconfig is kept word for word, beside what was read
/// of it before.
pub proof fn a_broken_kubeconfig_keeps_the_last_one(app: AppModel, reason: Seq<char>, now: Instant)
    ensures
        ({
            let after = app.applied(EventModel::ConfigFailed { reason }, now);
            &&& after.config_error == Some(reason)
            &&& after.contexts == app.contexts
            &&& after.panes == app.panes
            &&& after.tables == app.tables
            &&& after.connections == app.connections
        }),
{
}

/// The kinds a cluster says it serves are the kinds it is known to serve, and
/// another cluster's stay.
pub proof fn kinds_are_known_once_told(
    app: AppModel,
    cluster: Seq<char>,
    kinds: Seq<KindInfoModel>,
    now: Instant,
    other: Seq<char>,
)
    requires
        ascending::<ClusterId, Seq<KindInfoModel>>(app.kinds),
    ensures
        ({
            let after = app.applied(EventModel::Kinds { cluster, kinds }, now);
            &&& after.kinds_of(Some(cluster)) == kinds
            &&& other != cluster ==> after.kinds_of(Some(other)) == app.kinds_of(Some(other))
        }),
{
    lookup_after_put::<ClusterId, Seq<KindInfoModel>>(app.kinds, cluster, kinds, cluster);
    lookup_after_put::<ClusterId, Seq<KindInfoModel>>(app.kinds, cluster, kinds, other);
}

// --- tables -----------------------------------------------------------------------

/// The row that is held of an object, if one is.
pub open spec fn row_held(app: AppModel, cluster: Seq<char>, kind: KindModel, key: KeyModel) -> Option<RowModel> {
    match lookup(app.tables, (cluster, kind)) {
        Some(table) => lookup(table.rows, key),
        None => None,
    }
}

/// An object that was added or changed is held as it was told, and no other row
/// of any table is touched.
pub proof fn a_changed_object_is_held_as_told(
    app: AppModel,
    cluster: Seq<char>,
    kind: KindModel,
    row: RowModel,
    now: Instant,
    other: (Seq<char>, KindModel, KeyModel),
)
    requires
        app.wf(),
    ensures
        ({
            let after = app.applied(EventModel::ResourceApplied { cluster, kind, row }, now);
            &&& row_held(after, cluster, kind, row.key) == Some(row)
            &&& other != (cluster, kind, row.key) ==> row_held(after, other.0, other.1, other.2) == row_held(
                app,
                other.0,
                other.1,
                other.2,
            )
        }),
{
    let table = app.table(cluster, kind);
    held_tables_are_sound(app, cluster, kind);
    crate::table::rows_are_held_as_given(table, row, now, other.2);
    replaced_tables_are_found(app, cluster, kind, table.with_row(row, now), (other.0, other.1));
}

/// An object that was deleted is not held any more, and every other row is.
pub proof fn a_deleted_object_is_gone(
    app: AppModel,
    cluster: Seq<char>,
    kind: KindModel,
    key: KeyModel,
    now: Instant,
    other: (Seq<char>, KindModel, KeyModel),
)
    requires
        app.wf(),
    ensures
        ({
            let after = app.applied(EventModel::ResourceDeleted { cluster, kind, key }, now);
            &&& row_held(after, cluster, kind, key) is None
            &&& other != (cluster, kind, key) ==> row_held(after, other.0, other.1, other.2) == row_held(
                app,
                other.0,
                other.1,
                other.2,
            )
        }),
{
    let table = app.table(cluster, kind);
    held_tables_are_sound(app, cluster, kind);
    lookup_after_cut::<ResourceKey, RowModel>(table.rows, key, key);
    lookup_after_cut::<ResourceKey, RowModel>(table.rows, key, other.2);
    replaced_tables_are_found(app, cluster, kind, table.without(key), (other.0, other.1));
}

/// A listing from scratch is all there is: an object it names last as one row is
/// held as that row, an object it does not name is not held, and the columns are
/// the listing's. This holds of every kind that is on screen.
pub proof fn a_listing_is_all_there_is(
    app: AppModel,
    cluster: Seq<char>,
    kind: KindModel,
    columns: Seq<ColumnModel>,
    rows: Seq<RowModel>,
    now: Instant,
    key: KeyModel,
    at: int,
)
    requires
        app.wf(),
        crate::model::in_view(app.panes, cluster, kind),
    ensures
        ({
            let after = app.applied(EventModel::ResourceReset { cluster, kind, columns, rows }, now);
            &&& lookup(after.tables, (cluster, kind)) matches Some(table) && table.columns == columns
                && table.unavailable is None
            &&& (forall|i: int| 0 <= i < rows.len() ==> (#[trigger] rows[i]).key != key) ==> row_held(
                after,
                cluster,
                kind,
                key,
            ) is None
            &&& 0 <= at < rows.len() && rows[at].key == key && (forall|i: int|
                at < i < rows.len() ==> (#[trigger] rows[i]).key != key) ==> row_held(after, cluster, kind, key) == Some(
                rows[at],
            )
        }),
{
    let base = AppModel {
        connections: crate::connections::connections_after(
            app.connections,
            EventModel::ResourceReset { cluster, kind, columns, rows },
            now,
        ),
        ..app
    };
    let table = base.table(cluster, kind).reset(columns, rows);
    let listed = base.with_table(cluster, kind, table);
    crate::table::a_listing_is_what_is_held(base.table(cluster, kind), columns, rows, key);
    the_last_row_of_a_key(rows, key, at);
    put_keeps_order::<(ClusterId, KindId), TableModel>(base.tables, (cluster, kind), table);
    lookup_after_put::<(ClusterId, KindId), TableModel>(base.tables, (cluster, kind), table, (cluster, kind));
    crate::laws::budget_spares(listed.tables, app.panes, cluster, app.budget, (cluster, kind));
}

proof fn the_last_row_of_a_key(rows: Seq<RowModel>, key: KeyModel, at: int)
    ensures
        (forall|i: int| 0 <= i < rows.len() ==> (#[trigger] rows[i]).key != key) ==> crate::keyed::last_value(
            crate::table::keyed_rows(rows),
            key,
        ) is None,
        0 <= at < rows.len() && rows[at].key == key && (forall|i: int|
            at < i < rows.len() ==> (#[trigger] rows[i]).key != key) ==> crate::keyed::last_value(
            crate::table::keyed_rows(rows),
            key,
        ) == Some(rows[at]),
    decreases rows.len(),
{
    let keyed = crate::table::keyed_rows(rows);
    if rows.len() > 0 {
        let rest = rows.drop_last();
        the_last_row_of_a_key(rest, key, at);
        assert(keyed.drop_last() =~= crate::table::keyed_rows(rest));
        assert(keyed.last() == (rows.last().key, rows.last()));
        if forall|i: int| 0 <= i < rows.len() ==> (#[trigger] rows[i]).key != key {
            assert(rows[rows.len() - 1].key != key);
            assert forall|i: int| 0 <= i < rest.len() implies (#[trigger] rest[i]).key != key by {
                assert(rest[i] == rows[i]);
            }
        }
        if 0 <= at < rest.len() && forall|i: int| at < i < rows.len() ==> (#[trigger] rows[i]).key != key {
            assert(rows[rows.len() - 1].key != key);
            assert forall|i: int| at < i < rest.len() implies (#[trigger] rest[i]).key != key by {
                assert(rest[i] == rows[i]);
            }
        }
    }
}

/// A kind that may not be listed holds no rows, and says why in the words it was
/// given.
pub proof fn a_refused_kind_says_why(
    app: AppModel,
    cluster: Seq<char>,
    kind: KindModel,
    reason: Seq<char>,
    now: Instant,
)
    requires
        app.wf(),
    ensures
        lookup(app.applied(EventModel::KindFailed { cluster, kind, reason }, now).tables, (cluster, kind)) matches Some(
            table,
        ) && table.rows.len() == 0 && table.unavailable == Some(reason),
{
    replaced_tables_are_found(
        app,
        cluster,
        kind,
        app.table(cluster, kind).refused(reason),
        (cluster, kind),
    );
}

proof fn held_tables_are_sound(app: AppModel, cluster: Seq<char>, kind: KindModel)
    requires
        app.wf(),
    ensures
        app.table(cluster, kind).wf(),
{
    crate::table::tables_stay_well_formed(
        TableModel::empty(),
        seq![],
        seq![],
        arbitrary(),
        arbitrary(),
        seq![],
        arbitrary(),
        arbitrary(),
    );
    if lookup(app.tables, (cluster, kind)) is Some {
        let key = (cluster, kind);
        let i = choose|i: int| 0 <= i < app.tables.len() && (#[trigger] app.tables[i]).0 == key;
        assert(app.tables[i].1.wf());
    }
}

proof fn replaced_tables_are_found(
    app: AppModel,
    cluster: Seq<char>,
    kind: KindModel,
    table: TableModel,
    other: (Seq<char>, KindModel),
)
    requires
        ascending::<(ClusterId, KindId), TableModel>(app.tables),
    ensures
        lookup(app.with_table(cluster, kind, table).tables, (cluster, kind)) == Some(table),
        other != (cluster, kind) ==> lookup(app.with_table(cluster, kind, table).tables, other) == lookup(
            app.tables,
            other,
        ),
{
    lookup_after_put::<(ClusterId, KindId), TableModel>(app.tables, (cluster, kind), table, (cluster, kind));
    lookup_after_put::<(ClusterId, KindId), TableModel>(app.tables, (cluster, kind), table, other);
}

// --- objects ----------------------------------------------------------------------

/// The object that was asked for is shown once it comes, and why it did not come
/// is shown where it does not; what was not asked for changes nothing.
pub proof fn an_answer_is_shown_where_it_was_asked_for(
    app: AppModel,
    cluster: Seq<char>,
    kind: KindModel,
    object: ObjectModel,
    reason: Seq<char>,
    now: Instant,
)
    ensures
        ({
            let key = object.key;
            let came = app.applied(EventModel::Object { cluster, kind, detail: object }, now).detail;
            let failed = app.applied(EventModel::ObjectFailed { cluster, kind, key, reason }, now).detail;
            &&& crate::deeds::is_about(app.detail, cluster, kind, key) ==> came == Some(
                DetailModel::Ready { cluster, kind, object },
            ) && failed == Some(DetailModel::Failed { cluster, kind, key, reason })
            &&& !crate::deeds::is_about(app.detail, cluster, kind, key) ==> came == app.detail && failed == app.detail
        }),
{
}

// --- lines ------------------------------------------------------------------------

/// Lines of the cluster that is tailed are added behind those that are held, and
/// lines of another are not; the same goes for the output of a command.
pub proof fn lines_are_added_where_they_belong(
    app: AppModel,
    cluster: Seq<char>,
    lines: Seq<LineModel>,
    now: Instant,
    i: int,
)
    requires
        app.wf(),
        0 <= i < lines.len(),
    ensures
        ({
            let tail = app.applied(EventModel::LogBatch { cluster, lines }, now).logs;
            let output = app.applied(EventModel::ExecOutput { cluster, lines }, now).exec_session;
            &&& app.logs matches Some(session) ==> session.cluster == cluster && session.buffer.lines.len()
                + lines.len() <= session.buffer.capacity ==> tail is Some && tail->0.buffer.lines
                == session.buffer.lines + lines && tail->0.buffer.dropped == session.buffer.dropped
            &&& app.logs matches Some(session) ==> session.cluster == cluster && lines.len()
                <= session.buffer.capacity ==> tail is Some && tail->0.buffer.lines.len() >= lines.len()
                && tail->0.buffer.lines[tail->0.buffer.lines.len() - lines.len() + i] == lines[i]
            &&& app.logs matches Some(session) ==> session.cluster != cluster ==> tail == app.logs
            &&& app.exec_session matches Some(session) ==> session.cluster == cluster && session.buffer.lines.len()
                + lines.len() <= session.buffer.capacity ==> output is Some && output->0.buffer.lines
                == session.buffer.lines + lines
            &&& app.exec_session matches Some(session) ==> session.cluster != cluster ==> output == app.exec_session
        }),
{
    if app.logs is Some {
        let all = (app.logs->0).buffer.lines + lines;
        assert(all.skip(0) =~= all);
    }
    if app.exec_session is Some {
        let all = (app.exec_session->0).buffer.lines + lines;
        assert(all.skip(0) =~= all);
    }
}

/// How a command ended, and why a tail failed, is known once it is told, of the
/// cluster it is on.
pub proof fn an_end_is_known_once_told(
    app: AppModel,
    cluster: Seq<char>,
    status: ExecStatusModel,
    reason: Seq<char>,
    now: Instant,
)
    ensures
        ({
            let ended = app.applied(EventModel::ExecFinished { cluster, status }, now).exec_session;
            let failed = app.applied(EventModel::LogsFailed { cluster, reason }, now).logs;
            &&& app.exec_session matches Some(session) ==> session.cluster == cluster ==> ended is Some
                && ended->0.status == Some(status) && ended->0.buffer == session.buffer
            &&& app.exec_session matches Some(session) ==> session.cluster != cluster ==> ended == app.exec_session
            &&& app.logs matches Some(session) ==> session.cluster == cluster ==> failed is Some
                && failed->0.buffer.error == Some(reason) && failed->0.buffer.lines == session.buffer.lines
            &&& app.logs matches Some(session) ==> session.cluster != cluster ==> failed == app.logs
        }),
{
}

// --- changes and forwards ---------------------------------------------------------

/// What came of a change is the first thing on the list of what was done.
pub proof fn an_outcome_is_listed_first(
    app: AppModel,
    cluster: Seq<char>,
    mutation: MutationModel,
    outcome: MutationOutcomeModel,
    now: Instant,
)
    ensures
        ({
            let after = app.applied(EventModel::MutationDone { cluster, mutation, outcome }, now).activity;
            &&& after.len() > 0
            &&& after[0].cluster == cluster
            &&& after[0].mutation == mutation
            &&& after[0].outcome == outcome
            &&& after[0].at == now
        }),
{
}

/// A forward is listed in the state it reported last, and no longer once it has
/// stopped; no other forward is touched.
pub proof fn a_forward_is_listed_until_it_stops(
    app: AppModel,
    cluster: Seq<char>,
    forward: ForwardInfoModel,
    now: Instant,
    other: (ForwardId, Seq<char>),
)
    requires
        ascending::<(ForwardId, ClusterId), ForwardInfoModel>(app.forwards),
    ensures
        ({
            let after = app.applied(EventModel::ForwardChanged { cluster, forward }, now).forwards;
            &&& forward.state is Stopped ==> lookup(after, (forward.id, cluster)) is None
            &&& !(forward.state is Stopped) ==> lookup(after, (forward.id, cluster)) == Some(forward)
            &&& other != (forward.id, cluster) ==> lookup(after, other) == lookup(app.forwards, other)
        }),
{
    let key = (forward.id, cluster);
    lookup_after_put::<(ForwardId, ClusterId), ForwardInfoModel>(app.forwards, key, forward, key);
    lookup_after_put::<(ForwardId, ClusterId), ForwardInfoModel>(app.forwards, key, forward, other);
    lookup_after_cut::<(ForwardId, ClusterId), ForwardInfoModel>(app.forwards, key, key);
    lookup_after_cut::<(ForwardId, ClusterId), ForwardInfoModel>(app.forwards, key, other);
}

} // verus!
