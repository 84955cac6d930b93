//! What somebody in front of a console can count on: what each thing they do
//! leads to, whatever was on screen before.

use crate::clock::{Instant, SystemTime};
use crate::console::{WatchFilters, WorkspaceModel};
use crate::events::CommandModel;
use crate::keyed::{ascending, lookup, lookup_after_put, put_keeps_order};
use crate::model::{targets_of, AppModel, DetailModel, PaneModel};
use crate::mutation::MutationModel;
use crate::objects::{ClusterId, KeyModel, KindId, KindModel, RowModel};
use crate::palette::TargetModel;
use crate::panes::acting;
use crate::permissions::RefusalModel;
use crate::proposal::ProposalModel;
use crate::rows::FiltersModel;
use crate::sessions::{ExecTargetModel, ForwardId, ForwardTargetModel, LogSelectorModel, LogTargetModel};
use crate::text::{decimal, decimal_reads_back, holds, trimmed, words};
use crate::views::{kind_actions, Action};
use crate::wording::{port_typed, replicas_typed};
use vstd::prelude::*;

verus! {

// --- changes --------------------------------------------------------------------

/// Whether the settings let a cluster be changed: it is not listed as read-only,
/// and where clusters are read-only unless named, it is named.
pub open spec fn allowed(app: AppModel, cluster: Seq<char>) -> bool {
    !app.permissions.read_only.contains(cluster) && (app.permissions.read_only_by_default
        ==> app.permissions.writable.contains(cluster))
}

/// Whether a cluster can be reached: it is connected, if only just.
pub open spec fn reached(app: AppModel, cluster: Seq<char>) -> bool {
    lookup(app.connections, cluster) matches Some(connection) && (connection.state is Connected || connection.state
        is Degraded)
}

/// Whether the detail pane is about an object, fetched or not.
pub open spec fn is_about(detail: Option<DetailModel>, cluster: Seq<char>, kind: KindModel, key: KeyModel) -> bool {
    match detail {
        Some(DetailModel::Loading { cluster: c, kind: k, key: y }) => c == cluster && k == kind && y == key,
        Some(DetailModel::Ready { cluster: c, kind: k, object }) => c == cluster && k == kind && object.key == key,
        Some(DetailModel::Failed { cluster: c, kind: k, key: y, .. }) => c == cluster && k == kind && y == key,
        None => false,
    }
}

/// Whether the detail pane shows an object with its values hidden.
pub open spec fn hides_values(detail: Option<DetailModel>) -> bool {
    detail matches Some(DetailModel::Ready { object, .. }) && object.maskable && !object.revealed
}

/// Whether an object is in the detail pane on a cluster that may be changed.
pub open spec fn can_be_changed(
    workspace: WorkspaceModel,
    cluster: Seq<char>,
    kind: KindModel,
    key: KeyModel,
) -> bool {
    &&& workspace.app.focused().cluster == Some(cluster)
    &&& is_about(workspace.app.detail, cluster, kind, key)
    &&& allowed(workspace.app, cluster)
}

/// A cluster is changed only if the settings allow it and it can be reached;
/// otherwise the reason is the first of these that does not hold.
pub proof fn the_gate_asks_for_permission_then_for_a_connection(app: AppModel, cluster: Seq<char>)
    ensures
        app.refusal(cluster) is None <==> allowed(app, cluster) && reached(app, cluster),
        !allowed(app, cluster) ==> app.refusal(cluster) == Some(RefusalModel::ReadOnly { cluster }),
        allowed(app, cluster) && !reached(app, cluster) ==> app.refusal(cluster) == Some(
            RefusalModel::NotConnected { cluster },
        ),
{
}

/// Apply asks whether to apply the edit, for real, to the object on screen.
pub proof fn apply_asks_to_apply(
    workspace: WorkspaceModel,
    cluster: Seq<char>,
    kind: KindModel,
    key: KeyModel,
    replicas: Seq<char>,
    yaml: Seq<char>,
)
    requires
        can_be_changed(workspace, cluster, kind, key),
        !hides_values(workspace.app.detail),
    ensures
        acting(workspace, Action::Apply, replicas, yaml).pending == Some(
            ProposalModel::Mutation { cluster, mutation: MutationModel::Apply { kind, key, yaml, dry_run: false } },
        ),
{
}

/// Dry run asks whether to try the edit on the object on screen, and change nothing.
pub proof fn dry_run_asks_to_try(
    workspace: WorkspaceModel,
    cluster: Seq<char>,
    kind: KindModel,
    key: KeyModel,
    replicas: Seq<char>,
    yaml: Seq<char>,
)
    requires
        can_be_changed(workspace, cluster, kind, key),
        !hides_values(workspace.app.detail),
    ensures
        acting(workspace, Action::DryRun, replicas, yaml).pending == Some(
            ProposalModel::Mutation { cluster, mutation: MutationModel::Apply { kind, key, yaml, dry_run: true } },
        ),
{
}

/// Delete asks whether to delete the object on screen, in its own time.
pub proof fn delete_asks_to_delete(
    workspace: WorkspaceModel,
    cluster: Seq<char>,
    kind: KindModel,
    key: KeyModel,
    replicas: Seq<char>,
    yaml: Seq<char>,
)
    requires
        can_be_changed(workspace, cluster, kind, key),
    ensures
        acting(workspace, Action::Delete, replicas, yaml).pending == Some(
            ProposalModel::Mutation { cluster, mutation: MutationModel::Delete { kind, key, grace_period: None } },
        ),
{
}

/// Restart asks whether to restart the object on screen.
pub proof fn restart_asks_to_restart(
    workspace: WorkspaceModel,
    cluster: Seq<char>,
    kind: KindModel,
    key: KeyModel,
    replicas: Seq<char>,
    yaml: Seq<char>,
)
    requires
        can_be_changed(workspace, cluster, kind, key),
    ensures
        acting(workspace, Action::Restart, replicas, yaml).pending == Some(
            ProposalModel::Mutation { cluster, mutation: MutationModel::Restart { kind, key } },
        ),
{
}

/// Cordon asks whether to keep new pods off the node on screen, and Uncordon
/// whether to let them on it again.
pub proof fn cordon_and_uncordon_ask_for_opposites(
    workspace: WorkspaceModel,
    cluster: Seq<char>,
    kind: KindModel,
    key: KeyModel,
    replicas: Seq<char>,
    yaml: Seq<char>,
)
    requires
        can_be_changed(workspace, cluster, kind, key),
    ensures
        acting(workspace, Action::Cordon, replicas, yaml).pending == Some(
            ProposalModel::Mutation { cluster, mutation: MutationModel::Cordon { node: key.name, cordon: true } },
        ),
        acting(workspace, Action::Uncordon, replicas, yaml).pending == Some(
            ProposalModel::Mutation { cluster, mutation: MutationModel::Cordon { node: key.name, cordon: false } },
        ),
{
}

/// Drain asks whether to move everything off the node on screen.
pub proof fn drain_asks_to_drain(
    workspace: WorkspaceModel,
    cluster: Seq<char>,
    kind: KindModel,
    key: KeyModel,
    replicas: Seq<char>,
    yaml: Seq<char>,
)
    requires
        can_be_changed(workspace, cluster, kind, key),
    ensures
        acting(workspace, Action::Drain, replicas, yaml).pending == Some(
            ProposalModel::Mutation { cluster, mutation: MutationModel::Drain { node: key.name, grace_period: None } },
        ),
{
}

/// Scale asks whether to run as many replicas of the object on screen as were
/// typed, and names how many there are if the table says. What is no number is
/// not asked about, and somebody is told.
pub proof fn scale_asks_for_what_was_typed(
    workspace: WorkspaceModel,
    cluster: Seq<char>,
    kind: KindModel,
    key: KeyModel,
    wanted: u32,
    yaml: Seq<char>,
    typed: Seq<char>,
)
    requires
        can_be_changed(workspace, cluster, kind, key),
    ensures
        ({
            let after = acting(workspace, Action::Scale, decimal(wanted as nat), yaml);
            let current = after.pending->0->mutation->current;
            &&& after.pending == Some(
                ProposalModel::Mutation {
                    cluster,
                    mutation: MutationModel::Scale { kind, key, replicas: wanted, current },
                },
            )
            &&& (forall|i: int| 0 <= i < workspace.app.focused().rows.len() ==> (
            #[trigger] workspace.app.focused().rows[i]).key != key) ==> current is None
        }),
        replicas_typed(typed) is None ==> acting(workspace, Action::Scale, typed, yaml).pending == workspace.pending
            && acting(workspace, Action::Scale, typed, yaml).last_error is Some,
{
    numbers_are_typed_in_decimal(wanted as nat);
    let rows = workspace.app.focused().rows;
    let found = rows.filter(crate::workspace::of_key(key));
    if found.len() > 0 {
        crate::seqs::filter_source(rows, crate::workspace::of_key(key), 0);
        let i = choose|i: int| 0 <= i < rows.len() && rows[i] == found[0];
        assert(rows[i].key == key);
    }
}

/// How many replicas there are is read off the row of the object: what stands
/// behind the slash of its first cell.
pub proof fn the_row_says_how_many_there_are(rows: Seq<RowModel>, at: int, ready: Seq<char>, wanted: u32)
    requires
        0 <= at < rows.len(),
        forall|i: int| 0 <= i < rows.len() && i != at ==> (#[trigger] rows[i]).key != rows[at].key,
        rows[at].cells.len() > 0,
        rows[at].cells[0].text == ready.push('/') + decimal(wanted as nat),
        forall|i: int| 0 <= i < ready.len() ==> ready[i] != '/',
    ensures
        crate::workspace::replicas_shown(rows, rows[at].key) == Some(wanted as nat),
{
    let key = rows[at].key;
    let cell = rows[at].cells[0].text;
    crate::seqs::filter_first(rows, crate::workspace::of_key(key), at);
    crate::text::first_of_is_first(cell, '/');
    assert(cell[ready.len() as int] == '/');
    let slash = crate::text::first_of(cell, '/');
    if slash < ready.len() {
        assert(cell[slash] == ready[slash]);
    }
    assert(cell.skip(slash + 1) =~= decimal(wanted as nat));
    numbers_are_typed_in_decimal(wanted as nat);
}

/// A number in decimal is read as that number: as a number of replicas, and as
/// a port unless it is zero or too large for one.
pub proof fn numbers_are_typed_in_decimal(n: nat)
    ensures
        trimmed(decimal(n)) == decimal(n),
        n <= u32::MAX ==> replicas_typed(decimal(n)) == Some(n),
        n > u32::MAX ==> replicas_typed(decimal(n)) is None,
        0 < n <= u16::MAX ==> port_typed(decimal(n)) == Some(n),
        n == 0 || n > u16::MAX ==> port_typed(decimal(n)) is None,
{
    decimal_reads_back(n);
    crate::stamps::decimals_are_digits(n);
    let text = decimal(n);
    assert(crate::stamps::is_digit(text[0]) && crate::stamps::is_digit(text.last()));
    assert(crate::text::start_trimmed(text) == text);
}

/// What is agreed to after a click on Apply is sent to the cluster on screen as
/// an edit that is made, after one on Dry run as one that is tried, and after
/// one on Delete as a deletion.
pub proof fn agreeing_sends_what_was_clicked(
    workspace: WorkspaceModel,
    cluster: Seq<char>,
    kind: KindModel,
    key: KeyModel,
    replicas: Seq<char>,
    yaml: Seq<char>,
    now: Instant,
)
    requires
        can_be_changed(workspace, cluster, kind, key),
        reached(workspace.app, cluster),
        !hides_values(workspace.app.detail),
    ensures
        ({
            let sent = |action: Action| acting(workspace, action, replicas, yaml).confirmed(now).outbox;
            let change = |mutation: MutationModel| workspace.outbox.push(CommandModel::Mutate { cluster, mutation });
            &&& sent(Action::Apply) == change(MutationModel::Apply { kind, key, yaml, dry_run: false })
            &&& sent(Action::DryRun) == change(MutationModel::Apply { kind, key, yaml, dry_run: true })
            &&& sent(Action::Delete) == change(MutationModel::Delete { kind, key, grace_period: None })
            &&& sent(Action::Restart) == change(MutationModel::Restart { kind, key })
        }),
{
}

/// Nothing is put in front of anybody that the settings do not allow, and what
/// was there stays.
pub proof fn a_disabled_button_does_nothing(
    workspace: WorkspaceModel,
    action: Action,
    replicas: Seq<char>,
    yaml: Seq<char>,
)
    requires
        workspace.app.detail is None || workspace.app.focused().cluster is None || !allowed(
            workspace.app,
            workspace.app.focused().cluster->0,
        ),
    ensures
        acting(workspace, action, replicas, yaml) == workspace,
{
}

/// What can be done to an object goes by its kind: Scale where there are
/// replicas to set, Restart where pods are replaced in turn, Drain and one of
/// Cordon and Uncordon on nodes, and the rest everywhere.
pub proof fn actions_go_by_the_kind(app: AppModel, detail: DetailModel, cluster: Seq<char>, kind: KindModel, key: KeyModel)
    requires
        is_about(Some(detail), cluster, kind, key),
    ensures
        ({
            let offered = kind_actions(app, detail);
            let apps = kind.group == "apps"@;
            let core = kind.group == ""@;
            &&& offered.contains(Action::Scale) <==> (apps && (kind.plural == "deployments"@ || kind.plural
                == "statefulsets"@ || kind.plural == "replicasets"@)) || (core && kind.plural
                == "replicationcontrollers"@)
            &&& offered.contains(Action::Restart) <==> apps && (kind.plural == "deployments"@ || kind.plural
                == "statefulsets"@ || kind.plural == "daemonsets"@)
            &&& offered.contains(Action::Drain) <==> core && kind.kind == "Node"@
            &&& offered.contains(Action::Cordon) || offered.contains(Action::Uncordon) <==> core && kind.kind == "Node"@
            &&& !(offered.contains(Action::Cordon) && offered.contains(Action::Uncordon))
            &&& offered.contains(Action::DryRun)
            &&& offered.contains(Action::Apply)
            &&& offered.contains(Action::Delete)
        }),
{
    reveal_strlit("");
    let offered = kind_actions(app, detail);
    let (scale, restart, node) = (
        crate::views::scalable(kind),
        crate::views::restartable(kind),
        crate::views::node_kind(kind),
    );
    assert(kind.group.len() == 0 <==> kind.group == ""@) by {
        if kind.group.len() == 0 {
            assert(kind.group =~= ""@);
        }
    }
    let a: int = if scale {
        1
    } else {
        0
    };
    let b: int = if restart {
        1
    } else {
        0
    };
    let c: int = if node {
        2
    } else {
        0
    };
    assert(offered.len() == a + b + c + 3);
    assert(offered[a + b + c] == Action::DryRun);
    assert(offered[a + b + c + 1] == Action::Apply);
    assert(offered[a + b + c + 2] == Action::Delete);
    if scale {
        assert(offered[0] == Action::Scale);
    }
    if restart {
        assert(offered[a] == Action::Restart);
    }
    if node {
        assert(offered[a + b] == Action::Drain);
        assert(offered[a + b + 1] == Action::Cordon || offered[a + b + 1] == Action::Uncordon);
    }
}

/// A node whose row says that scheduling is disabled is offered to be let in
/// again, and any other to be shut off.
pub proof fn a_node_is_offered_what_it_is_not(app: AppModel, detail: DetailModel, cluster: Seq<char>, kind: KindModel, at: int)
    requires
        0 <= at < app.focused().rows.len(),
        is_about(Some(detail), cluster, kind, app.focused().rows[at].key),
        forall|i: int| 0 <= i < at ==> (#[trigger] app.focused().rows[i]).key != app.focused().rows[at].key,
        kind.group == ""@,
        kind.kind == "Node"@,
        app.focused().rows[at].cells.len() > 0,
    ensures
        kind_actions(app, detail).contains(Action::Uncordon) <==> holds(
            app.focused().rows[at].cells[0].text,
            "SchedulingDisabled"@,
        ),
        kind_actions(app, detail).contains(Action::Cordon) <==> !holds(
            app.focused().rows[at].cells[0].text,
            "SchedulingDisabled"@,
        ),
{
    reveal_strlit("");
    let rows = app.focused().rows;
    let key = rows[at].key;
    crate::seqs::filter_first(rows, crate::workspace::of_key(key), at);
    actions_go_by_the_kind(app, detail, cluster, kind, key);
    assert(crate::views::cordoned(rows, key) == holds(rows[at].cells[0].text, "SchedulingDisabled"@));
    let offered = kind_actions(app, detail);
    if crate::views::cordoned(rows, key) {
        assert(!offered.contains(Action::Cordon));
    } else {
        assert(!offered.contains(Action::Uncordon));
    }
}

// --- watching what is on screen ---------------------------------------------------

/// Whether only watches were started from one state of the console to another.
pub open spec fn only_watches(before: WorkspaceModel, after: WorkspaceModel) -> bool {
    &&& after == (WorkspaceModel { watching: after.watching, outbox: after.outbox, ..before })
    &&& after.outbox.len() >= before.outbox.len()
    &&& forall|i: int| 0 <= i < before.outbox.len() ==> after.outbox[i] == #[trigger] before.outbox[i]
    &&& forall|i: int| before.outbox.len() <= i < after.outbox.len() ==> #[trigger] after.outbox[i] is Watch
}

/// Seeing to it that what is on screen is watched starts watches and does
/// nothing else.
pub proof fn watching_only_starts_watches(
    workspace: WorkspaceModel,
    targets: Seq<(Seq<char>, KindModel, FiltersModel)>,
)
    ensures
        only_watches(workspace, workspace.watching_all(targets)),
    decreases targets.len(),
{
    if targets.len() > 0 {
        watching_only_starts_watches(workspace, targets.drop_last());
    }
}

/// What a pane shows is watched through that pane's namespace and selector,
/// unless a pane right of it shows the same kind of the same cluster; and if it
/// was not watched that way before, the cluster is asked for it.
pub proof fn what_panes_show_is_watched(workspace: WorkspaceModel, panes: Seq<PaneModel>, i: int)
    requires
        ascending::<(ClusterId, KindId), WatchFilters>(workspace.watching),
        0 <= i < panes.len(),
        panes[i].cluster is Some,
        panes[i].kind is Some,
        forall|j: int|
            i < j < panes.len() ==> (#[trigger] panes[j]).cluster != panes[i].cluster || panes[j].kind != panes[i].kind,
    ensures
        ({
            let after = workspace.watching_all(targets_of(panes));
            let (cluster, kind) = (panes[i].cluster->0, panes[i].kind->0);
            let (namespace, selector) = (panes[i].filters.namespace, panes[i].filters.selector);
            &&& ascending::<(ClusterId, KindId), WatchFilters>(after.watching)
            &&& lookup(after.watching, (cluster, kind)) == Some((namespace, selector))
            &&& lookup(workspace.watching, (cluster, kind)) != Some((namespace, selector)) ==> after.outbox.contains(
                CommandModel::Watch { cluster, kind, namespace, selector },
            )
        }),
    decreases panes.len(),
{
    let rest = panes.drop_last();
    let before = workspace.watching_all(targets_of(rest));
    let pane = panes.last();
    watching_keeps_order(workspace, targets_of(rest));
    watching_only_starts_watches(workspace, targets_of(rest));
    let after = workspace.watching_all(targets_of(panes));
    let wanted = (panes[i].cluster->0, panes[i].kind->0);
    let (namespace, selector) = (panes[i].filters.namespace, panes[i].filters.selector);
    let command = CommandModel::Watch { cluster: wanted.0, kind: wanted.1, namespace, selector };
    if pane.cluster is Some && pane.kind is Some {
        let target = (pane.cluster->0, pane.kind->0, pane.filters);
        assert(targets_of(panes).drop_last() =~= targets_of(rest));
        assert(targets_of(panes).last() == target);
        assert(after == before.watching_one(target));
        put_keeps_order::<(ClusterId, KindId), WatchFilters>(
            before.watching,
            (target.0, target.1),
            (pane.filters.namespace, pane.filters.selector),
        );
        lookup_after_put::<(ClusterId, KindId), WatchFilters>(
            before.watching,
            (target.0, target.1),
            (pane.filters.namespace, pane.filters.selector),
            wanted,
        );
    } else {
        assert(targets_of(panes) == targets_of(rest));
    }
    if i < rest.len() {
        assert forall|j: int| i < j < rest.len() implies (#[trigger] rest[j]).cluster != rest[i].cluster || rest[j].kind
            != rest[i].kind by {
            assert(rest[j] == panes[j]);
        }
        what_panes_show_is_watched(workspace, rest, i);
        if before.outbox.contains(command) {
            let at = choose|at: int| 0 <= at < before.outbox.len() && before.outbox[at] == command;
            assert(after.outbox[at] == command);
        }
    } else {
        if lookup(before.watching, wanted) != Some((namespace, selector)) {
            assert(after.outbox.last() == command);
        } else if lookup(workspace.watching, wanted) != Some((namespace, selector)) {
            started_watches_are_asked_for(workspace, targets_of(rest), wanted, (namespace, selector));
            let at = choose|at: int| 0 <= at < before.outbox.len() && before.outbox[at] == command;
            assert(after.outbox[at] == command);
        }
    }
}

proof fn watching_keeps_order(workspace: WorkspaceModel, targets: Seq<(Seq<char>, KindModel, FiltersModel)>)
    requires
        ascending::<(ClusterId, KindId), WatchFilters>(workspace.watching),
    ensures
        ascending::<(ClusterId, KindId), WatchFilters>(workspace.watching_all(targets).watching),
    decreases targets.len(),
{
    if targets.len() > 0 {
        let before = workspace.watching_all(targets.drop_last());
        watching_keeps_order(workspace, targets.drop_last());
        let (cluster, kind, filters) = targets.last();
        put_keeps_order::<(ClusterId, KindId), WatchFilters>(
            before.watching,
            (cluster, kind),
            (filters.namespace, filters.selector),
        );
    }
}

/// A watch that runs and did not before was asked for.
proof fn started_watches_are_asked_for(
    workspace: WorkspaceModel,
    targets: Seq<(Seq<char>, KindModel, FiltersModel)>,
    key: (Seq<char>, KindModel),
    filters: WatchFilters,
)
    requires
        ascending::<(ClusterId, KindId), WatchFilters>(workspace.watching),
        lookup(workspace.watching, key) != Some(filters),
        lookup(workspace.watching_all(targets).watching, key) == Some(filters),
    ensures
        workspace.watching_all(targets).outbox.contains(
            CommandModel::Watch { cluster: key.0, kind: key.1, namespace: filters.0, selector: filters.1 },
        ),
    decreases targets.len(),
{
    let command = CommandModel::Watch { cluster: key.0, kind: key.1, namespace: filters.0, selector: filters.1 };
    if targets.len() > 0 {
        let before = workspace.watching_all(targets.drop_last());
        let after = workspace.watching_all(targets);
        let (cluster, kind, wanted) = targets.last();
        watching_keeps_order(workspace, targets.drop_last());
        lookup_after_put::<(ClusterId, KindId), WatchFilters>(
            before.watching,
            (cluster, kind),
            (wanted.namespace, wanted.selector),
            key,
        );
        if lookup(before.watching, key) == Some(filters) {
            started_watches_are_asked_for(workspace, targets.drop_last(), key, filters);
            let at = choose|at: int| 0 <= at < before.outbox.len() && before.outbox[at] == command;
            assert(after.outbox[at] == command);
        } else {
            assert(after.outbox.last() == command);
        }
    }
}

// --- going somewhere --------------------------------------------------------------

/// Whether the focused pane is one of the panes.
pub open spec fn has_focus(workspace: WorkspaceModel) -> bool {
    workspace.app.focus < workspace.app.panes.len()
}

/// Going to a kind puts the focused pane on it, on the cluster it was on, and
/// the other pane stays where it was.
pub proof fn going_to_a_kind_shows_it(workspace: WorkspaceModel, kind: KindModel, other: int)
    requires
        has_focus(workspace),
    ensures
        ({
            let after = workspace.on_kind(kind);
            &&& after.app.focus == workspace.app.focus
            &&& after.app.focused().kind == Some(kind)
            &&& after.app.focused().cluster == workspace.app.focused().cluster
            &&& after.app.focused().filters == workspace.app.focused().filters
            &&& 0 <= other < workspace.app.panes.len() && other != workspace.app.focus ==> after.app.panes[other]
                == workspace.app.panes[other]
            &&& after.app.panes.len() == workspace.app.panes.len()
            &&& workspace.app.focused().kind != Some(kind) ==> after.app.detail is None && after.app.focused().cursor == 0
            &&& after.app.logs == workspace.app.logs
        }),
{
    let visited = workspace.visiting(kind);
    let moved = visited.with_app(visited.app.with_kind(kind));
    watching_only_starts_watches(moved, targets_of(moved.app.panes));
}

/// Going to a cluster puts the focused pane on it, asks it to connect unless
/// that was asked before, and leaves what belonged to the cluster before: its
/// object, its tail and its command.
pub proof fn going_to_a_cluster_shows_it(workspace: WorkspaceModel, cluster: Seq<char>, now: Instant, other: int)
    requires
        has_focus(workspace),
    ensures
        ({
            let after = workspace.on_cluster(cluster, now);
            &&& after.app.focus == workspace.app.focus
            &&& after.app.focused().cluster == Some(cluster)
            &&& after.attempted.contains(cluster)
            &&& !workspace.attempted.contains(cluster) ==> after.outbox.len() > workspace.outbox.len()
                && after.outbox[workspace.outbox.len() as int] == (CommandModel::Connect { cluster })
            &&& workspace.attempted.contains(cluster) ==> forall|i: int|
                workspace.outbox.len() <= i < after.outbox.len() ==> #[trigger] after.outbox[i] is Watch
            &&& workspace.app.focused().cluster != Some(cluster) ==> after.app.detail is None && after.app.logs is None
                && after.app.exec_session is None
            &&& after.app.panes.len() == workspace.app.panes.len()
            &&& 0 <= other < workspace.app.panes.len() && other != workspace.app.focus ==> after.app.panes[other]
                == workspace.app.panes[other]
        }),
{
    let moved = workspace.app.with_cluster(cluster, now);
    let connected = workspace.with_app(
        AppModel {
            last_viewed: crate::keyed::put::<ClusterId, Instant>(moved.last_viewed, cluster, now),
            ..moved
        },
    ).connecting(cluster);
    let there = connected.on_opening_kind();
    watching_only_starts_watches(there, targets_of(there.app.panes));
    assert(there.outbox == connected.outbox);
    if !workspace.attempted.contains(cluster) {
        assert(there.outbox[workspace.outbox.len() as int] == (CommandModel::Connect { cluster }));
    }
    assert(moved.panes.len() == workspace.app.panes.len());
    assert(there.app.focus == workspace.app.focus);
}

/// A cluster opens on the kind it was left on, if it still serves it; otherwise
/// on pods; and where it serves no pods, on the first kind that can be listed.
pub proof fn a_cluster_opens_where_it_was_left(workspace: WorkspaceModel, cluster: Seq<char>, at: int)
    requires
        0 <= at < workspace.app.kinds_of(Some(cluster)).len(),
    ensures
        ({
            let kinds = workspace.app.kinds_of(Some(cluster));
            let opened = workspace.opening_kind(Some(cluster));
            let left_on = workspace.remembered.last_kind(cluster);
            &&& kinds[at].watchable ==> opened is Some
            &&& left_on == Some(crate::objects::kind_label(kinds[at].id)) && kinds[at].watchable && (forall|i: int|
                0 <= i < at ==> crate::objects::kind_label((#[trigger] kinds[i]).id) != left_on->0 || !kinds[i].watchable)
                ==> opened == Some(kinds[at].id)
            &&& left_on is None && kinds[at].id.group == ""@ && kinds[at].id.kind == "Pod"@ && (forall|i: int|
                0 <= i < at ==> (#[trigger] kinds[i]).id.group != ""@ || kinds[i].id.kind != "Pod"@) ==> opened
                == Some(kinds[at].id)
            &&& left_on is None && kinds[at].watchable && (forall|i: int|
                0 <= i < kinds.len() ==> (#[trigger] kinds[i]).id.group != ""@ || kinds[i].id.kind != "Pod"@) && (
            forall|i: int| 0 <= i < at ==> !(#[trigger] kinds[i]).watchable) ==> opened == Some(kinds[at].id)
        }),
{
    reveal_strlit("");
    let kinds = workspace.app.kinds_of(Some(cluster));
    let (pods, listed) = (crate::console::is_pods(), crate::console::is_watchable());
    assert forall|i: int| 0 <= i < kinds.len() implies pods(#[trigger] kinds[i]) == (kinds[i].id.group == ""@
        && kinds[i].id.kind == "Pod"@) by {
        if kinds[i].id.group.len() == 0 {
            assert(kinds[i].id.group =~= ""@);
        }
    }
    if kinds[at].watchable {
        crate::seqs::filter_target(kinds, listed, at);
    }
    if pods(kinds[at]) && forall|i: int| 0 <= i < at ==> !pods(#[trigger] kinds[i]) {
        crate::seqs::filter_first(kinds, pods, at);
    }
    if forall|i: int| 0 <= i < kinds.len() ==> !pods(#[trigger] kinds[i]) {
        if kinds.filter(pods).len() > 0 {
            crate::seqs::filter_source(kinds, pods, 0);
        }
    }
    if kinds[at].watchable && forall|i: int| 0 <= i < at ==> !(#[trigger] kinds[i]).watchable {
        crate::seqs::filter_first(kinds, listed, at);
    }
    if workspace.remembered.last_kind(cluster) is Some {
        let label = workspace.remembered.last_kind(cluster)->0;
        let named = crate::catalog::labelled(label);
        if named(kinds[at]) && forall|i: int| 0 <= i < at ==> !named(#[trigger] kinds[i]) {
            crate::seqs::filter_first(kinds, named, at);
        }
    }
}

/// Jumping to an object ends on it, whatever was on screen: the focused pane is
/// on its cluster and on its kind, the detail pane is about it and nothing else,
/// and the last thing asked for is that very object, its hidden values hidden.
pub proof fn jumping_to_an_object_opens_it(
    workspace: WorkspaceModel,
    cluster: Seq<char>,
    kind: KindModel,
    key: KeyModel,
    now: Instant,
)
    requires
        has_focus(workspace),
    ensures
        ({
            let after = workspace.jumping_to(TargetModel::Object { cluster, kind, key }, now);
            &&& after.app.focus == workspace.app.focus
            &&& after.app.focused().cluster == Some(cluster)
            &&& after.app.focused().kind == Some(kind)
            &&& after.app.detail == Some(DetailModel::Loading { cluster, kind, key })
            &&& after.outbox.len() > workspace.outbox.len()
            &&& after.outbox.last() == (CommandModel::FetchObject { cluster, kind, key, reveal: false })
            &&& after.exec_container is None
            &&& after.exec_containers.len() == 0
        }),
{
    going_to_a_cluster_shows_it(workspace, cluster, now, 0);
    let there = if workspace.active() != Some(cluster) {
        workspace.on_cluster(cluster, now)
    } else {
        workspace
    };
    let moved = workspace.app.with_cluster(cluster, now);
    let opened = workspace.with_app(
        AppModel {
            last_viewed: crate::keyed::put::<ClusterId, Instant>(moved.last_viewed, cluster, now),
            ..moved
        },
    ).connecting(cluster).on_opening_kind();
    watching_only_starts_watches(opened, targets_of(opened.app.panes));
    going_to_a_kind_shows_it(there, kind, 0);
    let visited = there.visiting(kind);
    let shown = visited.with_app(visited.app.with_kind(kind));
    watching_only_starts_watches(shown, targets_of(shown.app.panes));
}

/// Enter in the palette goes to what is picked, and puts the palette away.
pub proof fn enter_goes_to_what_is_picked(
    workspace: WorkspaceModel,
    cluster: Seq<char>,
    kind: KindModel,
    key: KeyModel,
    now: Instant,
)
    requires
        has_focus(workspace),
        workspace.palette_open,
        workspace.palette_index < workspace.palette_matches.len(),
    ensures
        ({
            let picked = workspace.palette_matches[workspace.palette_index as int].candidate.target;
            let after = workspace.palette_confirmed(now);
            &&& !after.palette_open
            &&& picked == (TargetModel::Object { cluster, kind, key }) ==> after.app.detail == Some(
                DetailModel::Loading { cluster, kind, key },
            ) && after.app.focused().cluster == Some(cluster) && after.app.focused().kind == Some(kind)
                && after.outbox.last() == (CommandModel::FetchObject { cluster, kind, key, reveal: false })
            &&& picked == TargetModel::Kind(kind) ==> after.app.focused().kind == Some(kind)
                && after.app.focused().cluster == workspace.app.focused().cluster
            &&& picked == TargetModel::Cluster(cluster) ==> after.app.focused().cluster == Some(cluster)
                && after.attempted.contains(cluster)
        }),
{
    let closed = workspace.palette_closed();
    let picked = workspace.palette_matches[workspace.palette_index as int].candidate.target;
    match picked {
        TargetModel::Object { cluster: c, kind: k, key: y } => {
            jumping_to_an_object_opens_it(closed, c, k, y, now);
            let there = if closed.active() != Some(c) {
                closed.on_cluster(c, now)
            } else {
                closed
            };
            cluster_keeps_the_palette(closed, c, now);
            kind_keeps_the_palette(there, k);
        },
        TargetModel::Kind(k) => {
            going_to_a_kind_shows_it(closed, k, 0);
            kind_keeps_the_palette(closed, k);
        },
        TargetModel::Cluster(c) => {
            going_to_a_cluster_shows_it(closed, c, now, 0);
            cluster_keeps_the_palette(closed, c, now);
        },
    }
}

proof fn kind_keeps_the_palette(workspace: WorkspaceModel, kind: KindModel)
    ensures
        workspace.on_kind(kind).palette_open == workspace.palette_open,
{
    let visited = workspace.visiting(kind);
    let moved = visited.with_app(visited.app.with_kind(kind));
    watching_only_starts_watches(moved, targets_of(moved.app.panes));
}

proof fn cluster_keeps_the_palette(workspace: WorkspaceModel, cluster: Seq<char>, now: Instant)
    ensures
        workspace.on_cluster(cluster, now).palette_open == workspace.palette_open,
{
    let moved = workspace.app.with_cluster(cluster, now);
    let there = workspace.with_app(
        AppModel {
            last_viewed: crate::keyed::put::<ClusterId, Instant>(moved.last_viewed, cluster, now),
            ..moved
        },
    ).connecting(cluster).on_opening_kind();
    watching_only_starts_watches(there, targets_of(there.app.panes));
}

/// Following a reference to another object opens that object on the same
/// cluster, and the pane is on its kind.
pub proof fn following_a_reference_opens_it(workspace: WorkspaceModel, kind: KindModel, key: KeyModel)
    requires
        has_focus(workspace),
        workspace.app.focused().cluster is Some,
    ensures
        ({
            let cluster = workspace.app.focused().cluster->0;
            let after = workspace.elsewhere(kind, key);
            &&& after.app.focused().kind == Some(kind)
            &&& after.app.focused().cluster == Some(cluster)
            &&& after.app.detail == Some(DetailModel::Loading { cluster, kind, key })
            &&& after.outbox.last() == (CommandModel::FetchObject { cluster, kind, key, reveal: false })
        }),
{
    going_to_a_kind_shows_it(workspace, kind, 0);
}

/// Opening a row opens the object of that key, of the kind and the cluster on
/// screen.
pub proof fn opening_a_row_opens_it(workspace: WorkspaceModel, key: KeyModel)
    requires
        workspace.app.focused().cluster is Some,
        workspace.app.focused().kind is Some,
    ensures
        ({
            let (cluster, kind) = (workspace.app.focused().cluster->0, workspace.app.focused().kind->0);
            let after = workspace.with_object(key);
            &&& after.app.detail == Some(DetailModel::Loading { cluster, kind, key })
            &&& after.outbox == workspace.outbox.push(CommandModel::FetchObject { cluster, kind, key, reveal: false })
            &&& after.app.panes == workspace.app.panes
        }),
{
}

/// Revealing asks for the object on screen again, this time with its values.
pub proof fn revealing_asks_for_the_values(
    workspace: WorkspaceModel,
    cluster: Seq<char>,
    kind: KindModel,
    key: KeyModel,
)
    requires
        workspace.app.focused().cluster == Some(cluster),
        is_about(workspace.app.detail, cluster, kind, key),
    ensures
        ({
            let after = workspace.revealing();
            &&& after.outbox == workspace.outbox.push(CommandModel::FetchObject { cluster, kind, key, reveal: true })
            &&& after.app.detail == Some(DetailModel::Loading { cluster, kind, key })
            &&& after.yaml_showing is None
        }),
{
}

/// Entering filters lists anew with exactly what was typed: an empty box is no
/// filter.
pub proof fn entered_filters_are_applied(workspace: WorkspaceModel, namespace: Seq<char>, selector: Seq<char>)
    requires
        has_focus(workspace),
        workspace.app.panes.len() == 1,
        ascending::<(ClusterId, KindId), WatchFilters>(workspace.watching),
    ensures
        ({
            let after = workspace.with_server_filters(namespace, selector);
            let filters = after.app.focused().filters;
            &&& namespace.len() > 0 ==> filters.namespace == Some(namespace)
            &&& namespace.len() == 0 ==> filters.namespace is None
            &&& selector.len() > 0 ==> filters.selector == Some(selector)
            &&& selector.len() == 0 ==> filters.selector is None
            &&& filters.search == workspace.app.focused().filters.search
            &&& after.app.focused().cluster == workspace.app.focused().cluster
            &&& after.app.focused().kind == workspace.app.focused().kind
            &&& workspace.app.focused().cluster is Some && workspace.app.focused().kind is Some ==> {
                let (cluster, kind) = (workspace.app.focused().cluster->0, workspace.app.focused().kind->0);
                let wanted = (filters.namespace, filters.selector);
                &&& lookup(after.watching, (cluster, kind)) == Some(wanted)
                &&& lookup(workspace.watching, (cluster, kind)) != Some(wanted) ==> after.outbox.contains(
                    CommandModel::Watch {
                        cluster,
                        kind,
                        namespace: filters.namespace,
                        selector: filters.selector,
                    },
                )
            }
        }),
{
    let before = workspace.app.focused().filters;
    let narrowed = workspace.app.with_filters(
        FiltersModel { namespace: crate::app::typed(Some(namespace)), ..before },
    );
    let set = workspace.with_app(
        narrowed.with_filters(
            FiltersModel { selector: crate::app::typed(Some(selector)), ..narrowed.focused().filters },
        ),
    );
    watching_only_starts_watches(set, targets_of(set.app.panes));
    if workspace.app.focused().cluster is Some && workspace.app.focused().kind is Some {
        what_panes_show_is_watched(set, set.app.panes, 0);
    }
}

// --- forwards and commands --------------------------------------------------------

/// A forward leads to the pod on screen and to the port that was typed, under a
/// number no forward had before.
pub proof fn a_forward_leads_where_it_says(
    workspace: WorkspaceModel,
    cluster: Seq<char>,
    kind: KindModel,
    key: KeyModel,
    port: u16,
)
    requires
        can_be_changed(workspace, cluster, kind, key),
        reached(workspace.app, cluster),
        port > 0,
        workspace.app.next_forward < u64::MAX,
    ensures
        ({
            let after = workspace.forwarding(decimal(port as nat));
            &&& after.outbox == workspace.outbox.push(
                CommandModel::StartForward {
                    cluster,
                    id: ForwardId(workspace.app.next_forward),
                    target: ForwardTargetModel { namespace: key.namespace, pod: key.name, port },
                },
            )
            &&& after.app.next_forward == workspace.app.next_forward + 1
            &&& after.forwards_open
        }),
{
    numbers_are_typed_in_decimal(port as nat);
}

/// What is no port is not forwarded to, and somebody is told.
pub proof fn a_forward_needs_a_port(workspace: WorkspaceModel, typed: Seq<char>)
    requires
        workspace.app.focused().cluster is Some,
        workspace.app.detail is Some,
        port_typed(typed) is None,
    ensures
        workspace.forwarding(typed).outbox == workspace.outbox,
        workspace.forwarding(typed).app == workspace.app,
        workspace.forwarding(typed).last_error is Some,
{
}

/// Running a command asks about the words that were typed, in the pod on
/// screen and in the container that was picked; agreeing sends exactly that and
/// opens an empty output for it.
pub proof fn a_command_runs_as_it_was_typed(
    workspace: WorkspaceModel,
    cluster: Seq<char>,
    kind: KindModel,
    key: KeyModel,
    command: Seq<char>,
    now: Instant,
)
    requires
        can_be_changed(workspace, cluster, kind, key),
        reached(workspace.app, cluster),
        words(command).len() > 0,
    ensures
        ({
            let target = ExecTargetModel {
                namespace: key.namespace,
                pod: key.name,
                container: workspace.exec_container,
                command: words(command),
            };
            let asked = workspace.proposing_command(command);
            let agreed = asked.confirmed(now);
            &&& asked.pending == Some(ProposalModel::Command { cluster, target })
            &&& asked.outbox == workspace.outbox
            &&& agreed.outbox == workspace.outbox.push(CommandModel::Exec { cluster, target })
            &&& agreed.app.exec_session matches Some(session) && session.cluster == cluster && session.target == target
                && session.status is None && session.buffer.lines.len() == 0
        }),
{
}

/// Without words there is no command, and somebody is told.
pub proof fn a_command_needs_words(workspace: WorkspaceModel, command: Seq<char>)
    requires
        workspace.app.detail is Some,
        words(command).len() == 0,
    ensures
        workspace.proposing_command(command).pending == workspace.pending,
        workspace.proposing_command(command).last_error is Some,
{
}

/// Stopping a command cancels it where it runs; closing its output does too if
/// it still runs, and sends nothing if it does not.
pub proof fn stopping_cancels_what_runs(workspace: WorkspaceModel)
    requires
        workspace.app.exec_session is Some,
    ensures
        ({
            let session = workspace.app.exec_session->0;
            let cancel = workspace.outbox.push(CommandModel::CancelExec { cluster: session.cluster });
            let (stopped, closed) = (workspace.command_stopped(), workspace.command_closed());
            &&& stopped.outbox == cancel
            &&& stopped.app.exec_session matches Some(after) && after.status is Some && after.buffer == session.buffer
            &&& session.status is Some ==> stopped.app.exec_session == workspace.app.exec_session
            &&& closed.app.exec_session is None
            &&& session.status is None ==> closed.outbox == cancel
            &&& session.status is Some ==> closed.outbox == workspace.outbox
        }),
{
}

// --- tails ------------------------------------------------------------------------

/// A tail of the pod on screen is of that pod, in its namespace; it starts
/// empty, follows the newest line, and its lines are asked for.
pub proof fn a_tail_is_of_the_pod_on_screen(
    workspace: WorkspaceModel,
    cluster: Seq<char>,
    kind: KindModel,
    key: KeyModel,
)
    requires
        workspace.app.focused().cluster == Some(cluster),
        is_about(workspace.app.detail, cluster, kind, key),
        kind.group == ""@,
        kind.kind == "Pod"@,
        workspace.app.logs is None,
    ensures
        ({
            let target = LogTargetModel {
                namespace: key.namespace,
                selector: LogSelectorModel::Pod(key.name),
                container: None,
                previous: false,
            };
            let after = workspace.logs_opened();
            &&& after.outbox == workspace.outbox.push(CommandModel::StartLogs { cluster, target })
            &&& after.app.logs matches Some(session) && session.cluster == cluster && session.target == target
                && session.following && session.buffer.lines.len() == 0 && (workspace.log_capacity > 0
                ==> session.buffer.capacity == workspace.log_capacity)
            &&& after.log_anchor is None
        }),
{
    reveal_strlit("");
}

/// With no pod on screen a tail is of the pods the table's selector picks in the
/// table's namespace; without either there is none, and somebody is told.
pub proof fn a_tail_is_of_what_the_filters_pick(
    workspace: WorkspaceModel,
    cluster: Seq<char>,
    namespace: Seq<char>,
    selector: Seq<char>,
)
    requires
        workspace.app.focused().cluster == Some(cluster),
        workspace.app.detail is None,
        workspace.app.logs is None,
    ensures
        ({
            let filters = workspace.app.focused().filters;
            let after = workspace.logs_opened();
            &&& filters.namespace == Some(namespace) && filters.selector == Some(selector) ==> after.outbox
                == workspace.outbox.push(
                CommandModel::StartLogs {
                    cluster,
                    target: LogTargetModel {
                        namespace,
                        selector: LogSelectorModel::Labels(selector),
                        container: None,
                        previous: false,
                    },
                },
            )
            &&& filters.namespace is None || filters.selector is None ==> after.outbox == workspace.outbox
                && after.app.logs is None && after.log_notice is Some
        }),
{
}

/// Closing a tail tells the cluster and forgets the lines.
pub proof fn closing_a_tail_stops_it(workspace: WorkspaceModel)
    requires
        workspace.app.focused().cluster is Some,
    ensures
        workspace.logs_closed().outbox == workspace.outbox.push(
            CommandModel::StopLogs { cluster: workspace.app.focused().cluster->0 },
        ),
        workspace.logs_closed().app.logs is None,
        workspace.logs_closed().log_notice is None,
        workspace.logs_closed().log_anchor is None,
{
}

/// Another selector or container starts the tail anew with exactly those, in the
/// same namespace; an empty box of the container is every container, and an
/// empty selector goes on with the pod that is tailed.
pub proof fn retargeting_tails_what_was_typed(workspace: WorkspaceModel, selector: Seq<char>, container: Seq<char>)
    requires
        workspace.app.focused().cluster is Some,
        workspace.app.logs is Some,
    ensures
        ({
            let before = (workspace.app.logs->0).target;
            let after = workspace.retargeted(selector, container);
            let target = (after.app.logs->0).target;
            let tailed = selector.len() > 0 || before.selector is Pod;
            &&& tailed ==> after.outbox == workspace.outbox.push(
                CommandModel::StartLogs { cluster: workspace.app.focused().cluster->0, target },
            ) && (after.app.logs->0).buffer.lines.len() == 0
            &&& tailed ==> target.namespace == before.namespace && target.previous == before.previous
            &&& selector.len() > 0 ==> target.selector == LogSelectorModel::Labels(selector)
            &&& selector.len() == 0 && before.selector is Pod ==> target.selector == before.selector
            &&& tailed && container.len() > 0 ==> target.container == Some(container)
            &&& tailed && container.len() == 0 ==> target.container is None
            &&& !tailed ==> after.outbox == workspace.outbox && after.app == workspace.app && after.log_notice is Some
        }),
{
}

/// The logs of the container before are asked for in place of those of the one
/// that runs, and the other way round, of the same pods.
pub proof fn previous_logs_are_the_other_ones(workspace: WorkspaceModel)
    requires
        workspace.app.focused().cluster is Some,
        workspace.app.logs is Some,
    ensures
        ({
            let before = (workspace.app.logs->0).target;
            let after = workspace.previous_toggled();
            let target = (after.app.logs->0).target;
            &&& target.previous != before.previous
            &&& target.namespace == before.namespace && target.selector == before.selector && target.container
                == before.container
            &&& after.outbox == workspace.outbox.push(
                CommandModel::StartLogs { cluster: workspace.app.focused().cluster->0, target },
            )
        }),
{
}

/// Following is turned on and off in turn, and turning it on leaves the line a
/// jump landed on.
pub proof fn following_is_turned_on_and_off(workspace: WorkspaceModel)
    requires
        workspace.app.logs is Some,
    ensures
        ({
            let before = workspace.app.logs->0;
            let after = workspace.follow_toggled();
            &&& after.app.logs matches Some(session) && session.following == !before.following && session.buffer
                == before.buffer && session.target == before.target
            &&& !before.following ==> after.log_anchor is None
            &&& before.following ==> after.log_anchor == workspace.log_anchor
            &&& after.outbox == workspace.outbox
        }),
{
}

/// Jumping to a time lands on the first line shown that is stamped at or after
/// it, stops following, and sends nothing.
pub proof fn a_jump_lands_on_the_first_line_since(
    workspace: WorkspaceModel,
    typed: Seq<char>,
    now: SystemTime,
    at: SystemTime,
    other: int,
)
    requires
        workspace.app.logs is Some,
        (workspace.app.logs->0).buffer.wf(),
        crate::times::typed_time(typed, now) == Ok::<SystemTime, crate::times::TimeError>(at),
        0 <= other < (workspace.app.logs->0).buffer.shown_lines().len(),
    ensures
        ({
            let lines = (workspace.app.logs->0).buffer.shown_lines();
            let since = |i: int|
                lines[i].timestamp matches Some(stamp) && (stamp.secs > at.secs || (stamp.secs == at.secs && stamp.nanos
                    >= at.nanos));
            let after = workspace.jumped(typed, now);
            &&& after.outbox == workspace.outbox
            &&& after.log_anchor != workspace.log_anchor || since(other) ==> {
                &&& after.log_anchor is Some
                &&& after.log_anchor->0 < lines.len()
                &&& since(after.log_anchor->0 as int)
                &&& !(after.app.logs->0).following
                &&& other < after.log_anchor->0 ==> !since(other)
            }
        }),
{
    let buffer = (workspace.app.logs->0).buffer;
    crate::logs::shown_numbers(buffer);
    crate::logs::jumps_land_on_the_first_line(buffer, at, other);
}

/// The other order shows the same lines, by time where they were by arrival and
/// the other way round, and keeps the filter.
pub proof fn the_order_is_the_other_one(workspace: WorkspaceModel)
    requires
        workspace.app.logs is Some,
    ensures
        ({
            let before = (workspace.app.logs->0).buffer;
            let after = workspace.order_toggled();
            &&& (after.app.logs->0).buffer.order != before.order
            &&& (after.app.logs->0).buffer.lines == before.lines
            &&& (after.app.logs->0).buffer.filter == before.filter
            &&& after.log_anchor is None
            &&& after.outbox == workspace.outbox
        }),
{
}

// --- the window -------------------------------------------------------------------

/// Splitting shows two panes and focuses the second; doing it again goes back to
/// the first alone.
pub proof fn splitting_shows_two_panes(workspace: WorkspaceModel, now: Instant)
    requires
        has_focus(workspace),
        1 <= workspace.app.panes.len() <= 2,
    ensures
        ({
            let after = workspace.split_toggled(now);
            &&& workspace.app.panes.len() == 1 ==> after.app.panes.len() == 2 && after.app.focus == 1
                && after.app.panes[0] == workspace.app.panes[0]
            &&& workspace.app.panes.len() == 2 ==> after.app.panes.len() == 1 && after.app.focus == 0
                && after.app.panes[0].cluster == workspace.app.panes[0].cluster
            &&& after.app.panes[after.app.focus as int].cluster matches Some(cluster) ==> after.attempted.contains(
                cluster,
            )
        }),
{
    let laid_out = workspace.with_app(
        if workspace.app.panes.len() > 1 {
            workspace.app.unsplit(now)
        } else {
            workspace.app.split(now)
        },
    );
    let connected = match laid_out.active() {
        Some(cluster) => laid_out.connecting(cluster),
        None => laid_out,
    };
    let opened = connected.on_opening_kind();
    watching_only_starts_watches(opened, targets_of(opened.app.panes));
}

/// Reconnecting asks the cluster on screen to connect, whether it was asked
/// before or not, and forgets what was watched on it so that it is watched anew.
pub proof fn reconnecting_asks_again(workspace: WorkspaceModel, watch: ((Seq<char>, KindModel), WatchFilters))
    requires
        workspace.app.focused().cluster is Some,
    ensures
        ({
            let cluster = workspace.app.focused().cluster->0;
            let after = workspace.reconnecting();
            &&& after.outbox == workspace.outbox.push(CommandModel::Connect { cluster })
            &&& after.watching.contains(watch) <==> workspace.watching.contains(watch) && (watch.0).0 != cluster
            &&& after.app == workspace.app
        }),
{
    crate::seqs::filter_contains(
        workspace.watching,
        crate::console::watches_of_others(workspace.app.focused().cluster->0),
        watch,
    );
}

/// A tail that was asked for before its cluster was there is opened once that is
/// connected, and only once.
pub proof fn a_waiting_tail_is_opened_once(workspace: WorkspaceModel, cluster: Seq<char>, target: LogTargetModel)
    requires
        workspace.pending_tail == Some(target),
        workspace.app.focused().cluster == Some(cluster),
    ensures
        ({
            let after = workspace.tail_opened();
            let connected = lookup(workspace.app.connections, cluster) matches Some(connection) && connection.state
                is Connected;
            &&& connected ==> after.pending_tail is None && after.outbox == workspace.outbox.push(
                CommandModel::StartLogs { cluster, target },
            ) && (after.app.logs matches Some(session) && session.cluster == cluster && session.target == target)
            &&& !connected ==> after == workspace
        }),
{
}

/// Escape puts away what is on top: a question first, then a menu, the palette,
/// the output of a command, a tail, and the object last.
pub proof fn escape_puts_away_what_is_on_top(workspace: WorkspaceModel)
    ensures
        ({
            let after = workspace.dismissed();
            let asks = workspace.pending is Some;
            let menus = workspace.namespace_menu_open || workspace.container_menu_open;
            let over = asks || menus || workspace.palette_open;
            &&& asks ==> after.pending is None && after.palette_open == workspace.palette_open && after.app
                == workspace.app
            &&& !asks && workspace.namespace_menu_open ==> !after.namespace_menu_open && after.app == workspace.app
            &&& !asks && !workspace.namespace_menu_open && workspace.container_menu_open ==> !after.container_menu_open
                && after.app == workspace.app
            &&& !asks && !menus && workspace.palette_open ==> !after.palette_open && after.app == workspace.app
            &&& !over && workspace.app.exec_session is Some ==> after.app.exec_session is None && after.app.logs
                == workspace.app.logs && after.app.detail == workspace.app.detail
            &&& !over && workspace.app.exec_session is None && workspace.app.logs is Some ==> after.app.logs is None
                && after.app.detail == workspace.app.detail
            &&& !over && workspace.app.exec_session is None && workspace.app.logs is None ==> after.app.detail is None
        }),
{
}

// --- from the first moment on -----------------------------------------------------

/// A console starts with one pane that shows nothing, asks what contexts there
/// are and nothing else, changes nothing unasked, and keeps a tail that was asked
/// for in mind.
pub proof fn a_console_starts_by_asking(started: Instant, tail: Option<LogTargetModel>, cluster: Seq<char>)
    ensures
        ({
            let fresh = WorkspaceModel::opened(started, tail);
            &&& fresh.outbox == seq![CommandModel::ListContexts]
            &&& fresh.app.panes.len() == 1
            &&& fresh.app.focus == 0
            &&& fresh.app.panes[0].cluster is None
            &&& fresh.app.panes[0].kind is None
            &&& fresh.pending is None
            &&& fresh.pending_tail == tail
            &&& allowed(fresh.app, cluster)
            &&& !reached(fresh.app, cluster)
            &&& fresh.idle_timeout.nanos == 300_000_000_000
            &&& fresh.log_capacity == 100_000
        }),
{
}

/// What has happened to the watches once clusters were let go.
proof fn letting_go_of_each(
    workspace: WorkspaceModel,
    clusters: Seq<Seq<char>>,
    watch: ((Seq<char>, KindModel), WatchFilters),
    command: CommandModel,
    pane: int,
)
    ensures
        ({
            let after = workspace.letting_go_all(clusters);
            &&& after.attempted == workspace.attempted
            &&& after.app.connections == workspace.app.connections
            &&& after.app.focus == workspace.app.focus
            &&& after.app.panes.len() == workspace.app.panes.len()
            &&& 0 <= pane < workspace.app.panes.len() ==> after.app.panes[pane].cluster
                == workspace.app.panes[pane].cluster && after.app.panes[pane].kind == workspace.app.panes[pane].kind
                && after.app.panes[pane].filters == workspace.app.panes[pane].filters
            &&& after.watching.contains(watch) <==> workspace.watching.contains(watch) && !clusters.contains(
                (watch.0).0,
            )
            &&& workspace.outbox.contains(command) ==> after.outbox.contains(command)
            &&& workspace.watching.contains(watch) && clusters.contains((watch.0).0) ==> after.outbox.contains(
                CommandModel::StopWatch { cluster: (watch.0).0, kind: (watch.0).1 },
            )
        }),
    decreases clusters.len(),
{
    if clusters.len() > 0 {
        let (rest, last) = (clusters.drop_last(), clusters.last());
        let stop = CommandModel::StopWatch { cluster: (watch.0).0, kind: (watch.0).1 };
        letting_go_of_each(workspace, rest, watch, command, pane);
        letting_go_of_each(workspace, rest, watch, stop, pane);
        let before = workspace.letting_go_all(rest);
        let after = workspace.letting_go_all(clusters);
        crate::console::letting_go_stops_its_watches(before, last, watch);
        let gone = before.watching.filter(crate::console::watches_of(last));
        let stops = gone.map_values(crate::console::stopped_watch());
        assert(after.outbox == before.outbox + stops);
        assert(clusters =~= rest.push(last));
        if before.outbox.contains(command) {
            let i = choose|i: int| 0 <= i < before.outbox.len() && before.outbox[i] == command;
            assert(after.outbox[i] == command);
        }
        if before.outbox.contains(stop) {
            let i = choose|i: int| 0 <= i < before.outbox.len() && before.outbox[i] == stop;
            assert(after.outbox[i] == stop);
        }
        if clusters.contains((watch.0).0) {
            let i = choose|i: int| 0 <= i < clusters.len() && clusters[i] == (watch.0).0;
            if i < rest.len() {
                assert(rest[i] == (watch.0).0);
            }
        }
        if rest.contains((watch.0).0) {
            let i = choose|i: int| 0 <= i < rest.len() && rest[i] == (watch.0).0;
            assert(clusters[i] == (watch.0).0);
        }
        if last == (watch.0).0 {
            assert(clusters[clusters.len() - 1] == last);
            if before.watching.contains(watch) {
                crate::seqs::filter_contains(before.watching, crate::console::watches_of(last), watch);
                let k = choose|k: int| 0 <= k < gone.len() && gone[k] == watch;
                assert(stops[k] == stop);
                assert(after.outbox[before.outbox.len() + k] == stop);
            }
        }
    }
}

/// A cluster is idle exactly if it was looked at once, is in no pane, and was
/// last in one longer ago than the time it is given.
pub proof fn idle_is_out_of_sight_for_long(app: AppModel, now: Instant, timeout: crate::clock::Duration, at: int)
    requires
        0 <= at < app.last_viewed.len(),
        ascending::<ClusterId, Instant>(app.last_viewed),
    ensures
        ({
            let (cluster, seen) = app.last_viewed[at];
            let shown = exists|i: int| 0 <= i < app.panes.len() && (#[trigger] app.panes[i]).cluster == Some(cluster);
            app.idle_at(now, timeout).contains(cluster) <==> !shown && now.nanos > seen.nanos && now.nanos - seen.nanos
                > timeout.nanos
        }),
{
    let (cluster, seen) = app.last_viewed[at];
    let keep = crate::model::neglected(app.panes, now, timeout);
    let idle = app.last_viewed.filter(keep);
    let named = app.idle_at(now, timeout);
    if exists|i: int| 0 <= i < app.panes.len() && (#[trigger] app.panes[i]).cluster == Some(cluster) {
        let i = choose|i: int| 0 <= i < app.panes.len() && (#[trigger] app.panes[i]).cluster == Some(cluster);
        crate::laws::in_a_pane_is_in_view(app.panes, i);
    }
    if crate::model::clusters_of(app.panes).contains(cluster) {
        in_view_is_in_a_pane(app.panes, cluster);
    }
    if keep(app.last_viewed[at]) {
        crate::seqs::filter_target(app.last_viewed, keep, at);
        let k = choose|k: int| 0 <= k < idle.len() && idle[k] == app.last_viewed[at];
        assert(named[k] == cluster);
    }
    if named.contains(cluster) {
        let k = choose|k: int| 0 <= k < named.len() && named[k] == cluster;
        crate::seqs::filter_source(app.last_viewed, keep, k);
        let j = choose|j: int| 0 <= j < app.last_viewed.len() && app.last_viewed[j] == idle[k];
        crate::keyed::lookup_at::<ClusterId, Instant>(app.last_viewed, j);
        crate::keyed::lookup_at::<ClusterId, Instant>(app.last_viewed, at);
    }
}

proof fn in_view_is_in_a_pane(panes: Seq<PaneModel>, cluster: Seq<char>)
    requires
        crate::model::clusters_of(panes).contains(cluster),
    ensures
        exists|i: int| 0 <= i < panes.len() && (#[trigger] panes[i]).cluster == Some(cluster),
    decreases panes.len(),
{
    if panes.len() > 0 {
        let before = crate::model::clusters_of(panes.drop_last());
        let all = crate::model::clusters_of(panes);
        let k = choose|k: int| 0 <= k < all.len() && all[k] == cluster;
        if k < before.len() {
            assert(before[k] == cluster);
            in_view_is_in_a_pane(panes.drop_last(), cluster);
            let i = choose|i: int|
                0 <= i < panes.drop_last().len() && (#[trigger] panes.drop_last()[i]).cluster == Some(cluster);
            assert(panes[i].cluster == Some(cluster));
        } else {
            assert(panes[panes.len() - 1].cluster == Some(cluster));
        }
    }
}

/// A sweep lets go of what is idle and of nothing else: the watches of an idle
/// cluster are stopped, every other one runs on, and there is no sweep sooner
/// than half a minute after the last.
pub proof fn a_sweep_stops_what_is_idle(
    workspace: WorkspaceModel,
    now: Instant,
    watch: ((Seq<char>, KindModel), WatchFilters),
)
    requires
        now.nanos >= workspace.last_sweep.nanos,
    ensures
        ({
            let after = workspace.swept(now);
            let idle = workspace.app.idle_at(now, workspace.idle_timeout).contains((watch.0).0);
            let due = now.nanos - workspace.last_sweep.nanos >= 30_000_000_000;
            &&& !due ==> after == workspace
            &&& due ==> (after.watching.contains(watch) <==> workspace.watching.contains(watch) && !idle)
            &&& due && idle && workspace.watching.contains(watch) ==> after.outbox.contains(
                CommandModel::StopWatch { cluster: (watch.0).0, kind: (watch.0).1 },
            )
            &&& after.app.connections == workspace.app.connections
        }),
{
    let begun = WorkspaceModel { last_sweep: now, ..workspace };
    letting_go_of_each(begun, workspace.idle(now), watch, CommandModel::ListContexts, 0);
}

/// What is asked of clusters that are to connect: each that was not asked yet.
proof fn connecting_each(workspace: WorkspaceModel, clusters: Seq<Seq<char>>, cluster: Seq<char>, command: CommandModel)
    ensures
        ({
            let after = workspace.connecting_all(clusters);
            &&& after == (WorkspaceModel { attempted: after.attempted, outbox: after.outbox, ..workspace })
            &&& workspace.attempted.contains(cluster) ==> after.attempted.contains(cluster)
            &&& workspace.outbox.contains(command) ==> after.outbox.contains(command)
            &&& clusters.contains(cluster) ==> after.attempted.contains(cluster)
            &&& clusters.contains(cluster) && !workspace.attempted.contains(cluster) ==> after.outbox.contains(
                CommandModel::Connect { cluster },
            )
            &&& after.attempted.contains(cluster) && !workspace.attempted.contains(cluster) ==> after.outbox.contains(
                CommandModel::Connect { cluster },
            )
        }),
    decreases clusters.len(),
{
    if clusters.len() > 0 {
        let (rest, last) = (clusters.drop_last(), clusters.last());
        let connect = CommandModel::Connect { cluster };
        connecting_each(workspace, rest, cluster, command);
        connecting_each(workspace, rest, cluster, connect);
        let before = workspace.connecting_all(rest);
        let after = workspace.connecting_all(clusters);
        if before.outbox.contains(command) {
            let i = choose|i: int| 0 <= i < before.outbox.len() && before.outbox[i] == command;
            assert(after.outbox[i] == command);
        }
        if before.outbox.contains(connect) {
            let i = choose|i: int| 0 <= i < before.outbox.len() && before.outbox[i] == connect;
            assert(after.outbox[i] == connect);
        }
        if clusters.contains(cluster) {
            let i = choose|i: int| 0 <= i < clusters.len() && clusters[i] == cluster;
            if i < rest.len() {
                assert(rest[i] == cluster);
            }
        }
        if last == cluster && !before.attempted.contains(cluster) {
            assert(after.outbox.last() == connect);
        }
    }
}

proof fn opening_panes_keeps(workspace: WorkspaceModel, upto: int, now: Instant, pane: int)
    requires
        0 <= upto <= workspace.app.panes.len() <= 2,
        has_focus(workspace),
    ensures
        ({
            let after = workspace.panes_opened(upto, now);
            &&& after == workspace.with_app(after.app)
            &&& has_focus(after)
            &&& after.app.focus == workspace.app.focus
            &&& after.app.panes.len() == workspace.app.panes.len()
            &&& after.app.kinds == workspace.app.kinds
            &&& 0 <= pane < workspace.app.panes.len() ==> after.app.panes[pane].cluster
                == workspace.app.panes[pane].cluster && after.app.panes[pane].filters
                == workspace.app.panes[pane].filters && (workspace.app.panes[pane].kind is Some
                ==> after.app.panes[pane].kind == workspace.app.panes[pane].kind)
        }),
    decreases upto,
{
    if upto > 0 {
        let at = upto - 1;
        opening_panes_keeps(workspace, at, now, pane);
        opening_panes_keeps(workspace, at, now, at);
        let before = workspace.panes_opened(at, now);
        let moved = before.app.with_focus(at as usize, now);
        assert(moved.panes == before.app.panes);
        assert(moved.focus == at);
        let opened = before.opening_kind(before.app.panes[at].cluster);
        if before.app.panes[at].kind is None && opened is Some {
            let shown = moved.with_kind(opened->0);
            assert(shown.panes.len() == before.app.panes.len());
            assert(shown.panes[at].cluster == before.app.panes[at].cluster);
            assert(shown.panes[at].filters == before.app.panes[at].filters);
            if 0 <= pane < before.app.panes.len() && pane != at {
                assert(shown.panes[pane] == before.app.panes[pane]);
            }
            assert(shown.with_focus(before.app.focus, now).focus == before.app.focus);
        }
    }
}

/// Whatever comes in, every cluster in a pane is asked to connect, once, and
/// every kind in a pane is watched through that pane's filters.
pub proof fn a_batch_connects_and_watches(
    workspace: WorkspaceModel,
    events: Seq<crate::events::EventModel>,
    flush: crate::events::FlushStats,
    now: Instant,
    i: int,
)
    requires
        workspace.app.wf(),
        ascending::<(ClusterId, KindId), WatchFilters>(workspace.watching),
        0 <= i < workspace.fed(events, flush, now).app.panes.len(),
        workspace.fed(events, flush, now).app.panes[i].cluster is Some,
    ensures
        ({
            let after = workspace.fed(events, flush, now);
            let pane = after.app.panes[i];
            let cluster = pane.cluster->0;
            &&& after.attempted.contains(cluster)
            &&& !workspace.attempted.contains(cluster) ==> after.outbox.contains(CommandModel::Connect { cluster })
            &&& pane.kind is Some && (forall|j: int|
                i < j < after.app.panes.len() ==> (#[trigger] after.app.panes[j]).cluster != pane.cluster
                    || after.app.panes[j].kind != pane.kind) ==> after.watching.contains(
                ((cluster, pane.kind->0), (pane.filters.namespace, pane.filters.selector)),
            )
        }),
{
    let told = WorkspaceModel {
        stats: crate::console::flushed(workspace.stats, flush),
        app: workspace.app.batched(events, now),
        ..workspace
    };
    batches_keep_the_focus(workspace.app, events, now);
    let asked = told.connecting_all(crate::model::clusters_of(told.app.panes));
    let connected = asked.tail_opened();
    let opened = connected.panes_opened(connected.app.panes.len() as int, now);
    let watched = opened.ensured();
    let after = watched.swept(now);
    let begun = WorkspaceModel { last_sweep: now, ..watched };
    let clusters = watched.idle(now);
    connecting_each(told, crate::model::clusters_of(told.app.panes), seq![], CommandModel::ListContexts);
    assert(connected.app.panes == told.app.panes && connected.app.focus == told.app.focus);
    opening_panes_keeps(connected, connected.app.panes.len() as int, now, i);
    watching_only_starts_watches(opened, targets_of(opened.app.panes));
    let pane = after.app.panes[i];
    let cluster = pane.cluster->0;
    let connect = CommandModel::Connect { cluster };
    let watch = ((cluster, pane.kind->0), (pane.filters.namespace, pane.filters.selector));
    letting_go_of_each(begun, clusters, watch, connect, i);
    connecting_each(told, crate::model::clusters_of(told.app.panes), cluster, connect);
    assert(connected.app.panes == told.app.panes);
    assert(told.app.panes[i].cluster == Some(cluster));
    crate::laws::in_a_pane_is_in_view(told.app.panes, i);
    if asked.outbox.contains(connect) {
        let k = choose|k: int| 0 <= k < asked.outbox.len() && asked.outbox[k] == connect;
        assert(connected.outbox[k] == connect);
        assert(opened.outbox[k] == connect);
        assert(watched.outbox[k] == connect);
        assert(begun.outbox.contains(connect));
    }
    if pane.kind is Some && forall|j: int|
        i < j < after.app.panes.len() ==> (#[trigger] after.app.panes[j]).cluster != pane.cluster
            || after.app.panes[j].kind != pane.kind {
        assert forall|j: int| i < j < opened.app.panes.len() implies (#[trigger] opened.app.panes[j]).cluster
            != opened.app.panes[i].cluster || opened.app.panes[j].kind != opened.app.panes[i].kind by {
            letting_go_of_each(begun, clusters, watch, connect, j);
            assert(after.app.panes[j].cluster != pane.cluster || after.app.panes[j].kind != pane.kind);
        }
        what_panes_show_is_watched(opened, opened.app.panes, i);
        let key = (cluster, pane.kind->0);
        assert(lookup(watched.watching, key) == Some(watch.1));
        let at = choose|at: int| 0 <= at < watched.watching.len() && (#[trigger] watched.watching[at]).0 == key;
        crate::keyed::lookup_at::<(ClusterId, KindId), WatchFilters>(watched.watching, at);
        assert(watched.watching[at] == watch);
        if clusters.contains(cluster) {
            let keep = crate::model::neglected(watched.app.panes, now, watched.idle_timeout);
            let idle = watched.app.last_viewed.filter(keep);
            let k = choose|k: int| 0 <= k < clusters.len() && clusters[k] == cluster;
            crate::seqs::filter_source(watched.app.last_viewed, keep, k);
            crate::laws::in_a_pane_is_in_view(watched.app.panes, i);
            assert(keep(idle[k]));
        }
    }
}

proof fn batches_keep_the_focus(app: AppModel, events: Seq<crate::events::EventModel>, now: Instant)
    requires
        app.wf(),
    ensures
        app.batched(events, now).focus == app.focus,
        app.batched(events, now).panes.len() == app.panes.len(),
{
    events_keep_the_focus(app, events, now);
}

proof fn events_keep_the_focus(app: AppModel, events: Seq<crate::events::EventModel>, now: Instant)
    requires
        app.panes.len() > 0,
    ensures
        app.applied_all(events, now).focus == app.focus,
        app.applied_all(events, now).panes.len() == app.panes.len(),
    decreases events.len(),
{
    if events.len() > 0 {
        events_keep_the_focus(app, events.drop_last(), now);
        app.applied_all(events.drop_last(), now).applying_keeps_panes(events.last(), now);
    }
}

/// A change that is refused is sent nowhere; it is on record with the cluster,
/// the object, what was asked for and why not, and heads the list of what was
/// done as refused.
pub proof fn a_refused_change_is_on_record(
    workspace: WorkspaceModel,
    cluster: Seq<char>,
    mutation: MutationModel,
    kind: KindModel,
    key: KeyModel,
    now: Instant,
)
    requires
        crate::sayings::is_change_to(mutation, kind, key),
        !allowed(workspace.app, cluster) || !reached(workspace.app, cluster),
        workspace.pending == Some(ProposalModel::Mutation { cluster, mutation }),
    ensures
        ({
            let after = workspace.confirmed(now);
            let entry = after.refused.last();
            &&& after.outbox == workspace.outbox
            &&& after.refused.len() == workspace.refused.len() + 1
            &&& entry.cluster == cluster
            &&& entry.key == key
            &&& entry.kind == crate::objects::kind_label(kind)
            &&& mutation is Delete ==> entry.verb == "delete"@
            &&& mutation is Scale ==> entry.verb == "scale"@
            &&& mutation is Restart ==> entry.verb == "restart"@
            &&& mutation matches MutationModel::Apply { dry_run, .. } ==> entry.verb == (if dry_run {
                "dry-run"@
            } else {
                "apply"@
            })
            &&& holds(entry.reason, cluster)
            &&& after.app.activity.len() > 0
            &&& after.app.activity[0].cluster == cluster
            &&& after.app.activity[0].mutation == mutation
            &&& after.app.activity[0].outcome is Refused
        }),
{
    let none = Seq::<char>::empty();
    let end = " is read-only. Remove it from `read-only` in settings.toml to allow changes."@;
    assert(cluster + end =~= none + cluster + end);
    crate::text::a_text_holds_its_parts(none, cluster, end);
    crate::text::a_text_holds_its_parts("Not connected to "@, cluster, "."@);
}

/// Narrowing the rows goes by what is typed as it is typed, and nothing is asked
/// of the cluster for it.
pub proof fn a_search_narrows_as_it_is_typed(
    before: WorkspaceModel,
    after: WorkspaceModel,
    typed: crate::fields::Typed,
    now: SystemTime,
)
    requires
        has_focus(before),
        crate::fields::is_after_typing(before, after, crate::fields::Field::Search, false, typed, now),
    ensures
        typed.search@.len() > 0 ==> after.app.focused().filters.search == Some(typed.search@),
        typed.search@.len() == 0 ==> after.app.focused().filters.search is None,
        after.app.focused().filters.namespace == before.app.focused().filters.namespace,
        after.app.focused().filters.selector == before.app.focused().filters.selector,
        after.app.focused().cluster == before.app.focused().cluster,
        after.app.focused().kind == before.app.focused().kind,
        after.outbox == before.outbox,
{
}

/// The boxes that ask something of a cluster, and the one for a time, wait for
/// Enter; the others go by every letter.
pub proof fn boxes_that_ask_wait_for_enter(field: crate::fields::Field)
    ensures
        crate::fields::waits_for_enter(field) <==> field == crate::fields::Field::Namespace || field
            == crate::fields::Field::Selector || field == crate::fields::Field::LogSelector || field
            == crate::fields::Field::LogContainer || field == crate::fields::Field::LogTime,
{
}

// --- everything that is held can be jumped to --------------------------------------

/// Every row that is held, of whatever cluster and kind, on screen or not, is
/// among what can be jumped to where there is room for it.
pub proof fn whatever_is_held_can_be_jumped_to(app: AppModel, at: int, row: int)
    requires
        0 <= at < app.tables.len(),
        0 <= row < app.tables[at].1.rows.len(),
        crate::model::rows_of(app.tables).len() <= 50_000,
    ensures
        ({
            let ((cluster, kind), table) = app.tables[at];
            let key = table.rows[row].1.key;
            exists|i: int|
                0 <= i < crate::workspace::jump_candidates(app).len() && (#[trigger] crate::workspace::jump_candidates(
                    app,
                )[i]).target == (TargetModel::Object { cluster, kind, key })
        }),
{
    let objects = crate::model::rows_of(app.tables);
    let ((cluster, kind), table) = app.tables[at];
    let held = table.rows[row].1;
    let k = rows_are_all_there(app.tables, at, row);
    let (names, kinds) = (crate::workspace::names_of(app.contexts), app.kinds_of(app.focused().cluster));
    crate::palette::everything_is_offered(names, kinds, objects, app.focused().cluster, k);
    let i = names.len() + kinds.len() + k;
    assert(crate::workspace::jump_candidates(app)[i].target == (TargetModel::Object { cluster, kind, key: held.key }));
}

proof fn rows_are_all_there(tables: crate::model::Tables, at: int, row: int) -> (k: int)
    requires
        0 <= at < tables.len(),
        0 <= row < tables[at].1.rows.len(),
    ensures
        0 <= k < crate::model::rows_of(tables).len(),
        crate::model::rows_of(tables)[k] == ((tables[at].0).0, (tables[at].0).1, tables[at].1.rows[row].1),
    decreases tables.len(),
{
    let rest = tables.drop_last();
    let before = crate::model::rows_of(rest);
    let (key, table) = tables.last();
    let last = crate::keyed::values(table.rows).map_values(|row: RowModel| (key.0, key.1, row));
    assert(crate::model::rows_of(tables) == before + last);
    if at < rest.len() {
        let k = rows_are_all_there(rest, at, row);
        assert(rest[at] == tables[at]);
        k
    } else {
        assert(last[row] == (key.0, key.1, table.rows[row].1));
        before.len() + row
    }
}

/// Opening a kind is remembered as a visit to it on the cluster on screen, which
/// from then on opens on it; the kind that is on screen already is no visit.
pub proof fn an_opened_kind_is_remembered(workspace: WorkspaceModel, cluster: Seq<char>, kind: KindModel)
    requires
        workspace.app.focused().cluster == Some(cluster),
    ensures
        workspace.app.focused().kind != Some(kind) ==> workspace.visiting(kind).remembered.last_kind(cluster) == Some(
            crate::objects::kind_label(kind),
        ),
        workspace.app.focused().kind == Some(kind) ==> workspace.visiting(kind) == workspace,
        workspace.visiting(kind).remembered.sections == workspace.remembered.sections,
        workspace.visiting(kind).app == workspace.app,
{
    let label = crate::objects::kind_label(kind);
    let after = workspace.remembered.visited(cluster, label);
    assert(after.visits[0] == (cluster, label));
    crate::seqs::filter_first(after.visits, crate::remembered::visit_to(cluster), 0);
}

/// A filter is set on the pane it was typed over and on no other, and the line a
/// jump landed on is forgotten exactly if the tail shows other lines by it.
pub proof fn a_filter_is_set_on_its_own_pane(
    workspace: WorkspaceModel,
    filter: crate::filter::FilterModel,
    matcher: crate::filter::MatcherModel,
)
    ensures
        workspace.app.logs matches Some(session) ==> {
            let after = workspace.filtered(crate::console::Lines::Logs, filter, matcher);
            &&& after.app.logs matches Some(now) && now.buffer.filter == filter && now.buffer.matcher == matcher
                && now.buffer.lines == session.buffer.lines && now.target == session.target
            &&& after.app.exec_session == workspace.app.exec_session
            &&& after.outbox == workspace.outbox
            &&& (after.app.logs->0).buffer.shown() == session.buffer.shown() ==> after.log_anchor
                == workspace.log_anchor
            &&& (after.app.logs->0).buffer.shown() != session.buffer.shown() ==> after.log_anchor is None
        },
        workspace.app.exec_session matches Some(session) ==> {
            let after = workspace.filtered(crate::console::Lines::Command, filter, matcher);
            &&& after.app.exec_session matches Some(now) && now.buffer.filter == filter && now.buffer.matcher == matcher
                && now.buffer.lines == session.buffer.lines && now.target == session.target
            &&& after.app.logs == workspace.app.logs
            &&& after.log_anchor == workspace.log_anchor
        },
{
}

/// A second command is read through the filter the first one was read through,
/// and starts with no lines.
pub proof fn the_next_command_keeps_the_filter(workspace: WorkspaceModel)
    ensures
        workspace.blank_output().lines.len() == 0,
        workspace.app.exec_session matches Some(session) ==> workspace.blank_output().filter == session.buffer.filter
            && workspace.blank_output().matcher == session.buffer.matcher,
        workspace.app.exec_session is None ==> workspace.blank_output().filter.pattern.len() == 0,
{
}

/// What is said over a pane of lines is said over that one, and a pane is called
/// after what it is of.
pub proof fn panes_of_lines_are_told_apart(workspace: WorkspaceModel, said: Seq<char>)
    ensures
        workspace.saying(crate::console::Lines::Logs, said).log_notice == Some(said),
        workspace.saying(crate::console::Lines::Logs, said).exec_notice == workspace.exec_notice,
        workspace.saying(crate::console::Lines::Command, said).exec_notice == Some(said),
        workspace.saying(crate::console::Lines::Command, said).log_notice == workspace.log_notice,
        workspace.app.logs matches Some(session) ==> workspace.buffer(crate::console::Lines::Logs) == Some(
            session.buffer,
        ),
        workspace.app.exec_session matches Some(session) ==> workspace.buffer(crate::console::Lines::Command) == Some(
            session.buffer,
        ),
        workspace.app.logs matches Some(session) ==> workspace.label_of(crate::console::Lines::Logs) == Some(
            crate::sessions::log_target_label(session.target),
        ),
        workspace.app.exec_session matches Some(session) ==> workspace.label_of(crate::console::Lines::Command) == Some(
            crate::sessions::exec_label(session.target),
        ),
{
}

/// The YAML of an object is shown once it is there, its containers are those it
/// has, and none of them is picked; nothing is read again while it stays.
pub proof fn an_object_is_read_once(
    workspace: WorkspaceModel,
    cluster: Seq<char>,
    kind: KindModel,
    object: crate::objects::ObjectModel,
    containers: Seq<crate::objects::ContainerModel>,
)
    requires
        workspace.app.detail == Some(DetailModel::Ready { cluster, kind, object }),
    ensures
        workspace.yaml_synced(containers).yaml_showing == Some(object.key),
        workspace.yaml_showing != Some(object.key) ==> workspace.unshown() == Some(object) && workspace.yaml_synced(
            containers,
        ).exec_containers == containers && workspace.yaml_synced(containers).exec_container is None,
        workspace.yaml_showing == Some(object.key) ==> workspace.unshown() is None && workspace.yaml_synced(containers)
            == workspace,
{
}

/// An object that is opened is shown from its first tab, and the containers of
/// the one before it are forgotten, with the choice among them and its menu.
pub proof fn an_opened_object_starts_afresh(workspace: WorkspaceModel, key: KeyModel, kind: KindModel)
    requires
        workspace.active() is Some,
        workspace.app.focused().kind is Some,
        workspace.on_kind(kind).active() is Some,
    ensures
        ({
            let here = workspace.with_object(key);
            let there = workspace.elsewhere(kind, key);
            &&& here.detail_tab == crate::wording::DetailTab::Yaml
            &&& here.exec_containers.len() == 0 && here.exec_container is None && !here.container_menu_open
            &&& there.exec_containers.len() == 0 && there.exec_container is None && !there.container_menu_open
        }),
{
}

} // verus!
