//! The rows of one kind on one cluster.
//!
//! Rows are held by namespace and name, so they are in the order a table shows
//! them in and no sort is needed after an update.

use crate::clock::{since, Duration, Instant};
use crate::keyed::{
    ascending, collected, collected_holds_the_last, collected_is_ascending, cut, cut_keeps_order, filter_keeps_order,
    is_key, lookup, put, put_keeps_order, values, Key, OrdMap,
};
use crate::objects::{ColumnModel, ColumnSpec, KeyModel, ResourceKey, ResourceRow, RowModel};
use crate::seqs::{filter_remove, filter_source};
use crate::text::{text_before, text_order};
use crate::value::Value;
use std::sync::Arc;
use vstd::prelude::*;

verus! {

/// What a [`ResourceTable`] holds.
pub struct TableModel {
    /// The rows by key, in table order.
    pub rows: Seq<(KeyModel, RowModel)>,
    /// The columns the rows carry cells for.
    pub columns: Seq<ColumnModel>,
    /// When each row last changed, for as long as that is of interest.
    pub changed: Seq<(KeyModel, Instant)>,
    /// Why the kind cannot be listed, if it cannot.
    pub unavailable: Option<Seq<char>>,
}

/// Rows under their own keys.
pub open spec fn keyed_rows(rows: Seq<RowModel>) -> Seq<(KeyModel, RowModel)> {
    rows.map_values(|row: RowModel| (row.key, row))
}

/// A listing as a table holds it: by key, in order, the last row of a key.
pub open spec fn listed(rows: Seq<RowModel>) -> Seq<(KeyModel, RowModel)> {
    collected::<ResourceKey, RowModel>(keyed_rows(rows))
}

/// Picks the changes that are less than `window` old.
pub open spec fn recent_changes(now: Instant, window: Duration) -> spec_fn((KeyModel, Instant)) -> bool {
    |entry: (KeyModel, Instant)| since(now, entry.1).nanos < window.nanos
}

impl TableModel {
    /// A table nothing was ever put into.
    pub open spec fn empty() -> TableModel {
        TableModel { rows: seq![], columns: seq![], changed: seq![], unavailable: None }
    }

    /// Whether the rows and the changes are in the order of their keys, and
    /// every row is under its own key.
    pub open spec fn wf(self) -> bool {
        &&& ascending::<ResourceKey, RowModel>(self.rows)
        &&& ascending::<ResourceKey, Instant>(self.changed)
        &&& forall|i: int| 0 <= i < self.rows.len() ==> (#[trigger] self.rows[i]).0 == self.rows[i].1.key
    }

    /// Whether a refusal is what the table shows already.
    pub open spec fn refused_already(self, reason: Seq<char>) -> bool {
        self.unavailable == Some(reason) && self.rows.len() == 0
    }

    /// The table of a kind that cannot be listed: no rows, and the reason.
    pub open spec fn refused(self, reason: Seq<char>) -> TableModel {
        if self.refused_already(reason) {
            self
        } else {
            TableModel {
                rows: seq![],
                columns: self.columns,
                changed: seq![],
                unavailable: Some(reason),
            }
        }
    }

    /// Whether a listing is what the table holds already.
    pub open spec fn holds_already(self, columns: Seq<ColumnModel>, rows: Seq<RowModel>) -> bool {
        self.columns == columns && self.rows == listed(rows)
    }

    /// The table after a listing from scratch. A listing that finds nothing
    /// changed leaves the marks of recent changes; any other drops them.
    pub open spec fn reset(self, columns: Seq<ColumnModel>, rows: Seq<RowModel>) -> TableModel {
        if self.holds_already(columns, rows) {
            TableModel { unavailable: None, ..self }
        } else {
            TableModel { rows: listed(rows), columns, changed: seq![], unavailable: None }
        }
    }

    /// Whether a row is held already, just as it is.
    pub open spec fn has_row(self, row: RowModel) -> bool {
        lookup(self.rows, row.key) == Some(row)
    }

    /// The table with a row that changed at a moment.
    pub open spec fn with_row(self, row: RowModel, now: Instant) -> TableModel {
        if self.has_row(row) {
            self
        } else {
            TableModel {
                rows: put::<ResourceKey, RowModel>(self.rows, row.key, row),
                changed: put::<ResourceKey, Instant>(self.changed, row.key, now),
                ..self
            }
        }
    }

    /// The table without a row.
    pub open spec fn without(self, key: KeyModel) -> TableModel {
        TableModel { rows: cut(self.rows, key), ..self }
    }

    /// The table with only the changes that are less than `window` old.
    pub open spec fn pruned(self, now: Instant, window: Duration) -> TableModel {
        TableModel { changed: self.changed.filter(recent_changes(now, window)), ..self }
    }

    /// Whether a list is the namespaces the rows live in: each once, in order.
    pub open spec fn is_namespaces(self, found: Seq<Seq<char>>) -> bool {
        &&& forall|i: int, j: int|
            0 <= i < j < found.len() ==> text_before(#[trigger] found[i], #[trigger] found[j])
        &&& forall|namespace: Seq<char>| #[trigger]
            found.contains(namespace) <==> namespace.len() > 0 && self.uses(namespace)
    }

    /// Whether a row lives in a namespace.
    pub open spec fn uses(self, namespace: Seq<char>) -> bool {
        exists|i: int| 0 <= i < self.rows.len() && (#[trigger] self.rows[i]).0.namespace == namespace
    }
}

proof fn listing_is_keyed(rows: Seq<RowModel>)
    ensures
        ascending::<ResourceKey, RowModel>(listed(rows)),
        forall|i: int| 0 <= i < listed(rows).len() ==> (#[trigger] listed(rows)[i]).0 == listed(rows)[i].1.key,
    decreases rows.len(),
{
    collected_is_ascending::<ResourceKey, RowModel>(keyed_rows(rows));
    if rows.len() > 0 {
        listing_is_keyed(rows.drop_last());
        assert(keyed_rows(rows).drop_last() =~= keyed_rows(rows.drop_last()));
        putting_keeps_rows_keyed(listed(rows.drop_last()), rows.last());
    }
}

proof fn putting_keeps_rows_keyed(rows: Seq<(KeyModel, RowModel)>, row: RowModel)
    requires
        forall|i: int| 0 <= i < rows.len() ==> (#[trigger] rows[i]).0 == rows[i].1.key,
    ensures
        ({
            let after = put::<ResourceKey, RowModel>(rows, row.key, row);
            forall|i: int| 0 <= i < after.len() ==> (#[trigger] after[i]).0 == after[i].1.key
        }),
{
    let low = rows.filter(crate::keyed::under::<ResourceKey, RowModel>(row.key));
    let high = rows.filter(crate::keyed::over::<ResourceKey, RowModel>(row.key));
    let after = put::<ResourceKey, RowModel>(rows, row.key, row);
    assert forall|i: int| 0 <= i < after.len() implies (#[trigger] after[i]).0 == after[i].1.key by {
        if i < low.len() {
            filter_source(rows, crate::keyed::under::<ResourceKey, RowModel>(row.key), i);
            assert(after[i] == low[i]);
        } else if i > low.len() {
            filter_source(rows, crate::keyed::over::<ResourceKey, RowModel>(row.key), i - low.len() - 1);
            assert(after[i] == high[i - low.len() - 1]);
        }
    }
}

/// Everything that is done to a table keeps its rows in order and under their
/// own keys.
pub proof fn tables_stay_well_formed(
    table: TableModel,
    columns: Seq<ColumnModel>,
    rows: Seq<RowModel>,
    row: RowModel,
    key: KeyModel,
    reason: Seq<char>,
    now: Instant,
    window: Duration,
)
    requires
        table.wf(),
    ensures
        TableModel::empty().wf(),
        table.refused(reason).wf(),
        table.reset(columns, rows).wf(),
        table.with_row(row, now).wf(),
        table.without(key).wf(),
        table.pruned(now, window).wf(),
{
    listing_is_keyed(rows);
    put_keeps_order::<ResourceKey, RowModel>(table.rows, row.key, row);
    put_keeps_order::<ResourceKey, Instant>(table.changed, row.key, now);
    putting_keeps_rows_keyed(table.rows, row);
    cut_keeps_order::<ResourceKey, RowModel>(table.rows, key);
    let left = cut(table.rows, key);
    assert forall|i: int| 0 <= i < left.len() implies (#[trigger] left[i]).0 == left[i].1.key by {
        filter_source(table.rows, crate::keyed::other_than::<KeyModel, RowModel>(key), i);
        let k = choose|k: int| 0 <= k < table.rows.len() && table.rows[k] == left[i];
        assert(table.rows[k].0 == table.rows[k].1.key);
    }
    filter_keeps_order::<ResourceKey, Instant>(table.changed, recent_changes(now, window));
}

/// A listing that was just held is held already: listing again changes nothing.
pub proof fn listing_again_changes_nothing(table: TableModel, columns: Seq<ColumnModel>, rows: Seq<RowModel>)
    ensures
        table.reset(columns, rows).holds_already(columns, rows),
        table.reset(columns, rows).reset(columns, rows) == table.reset(columns, rows),
{
}

/// After a listing, the row of a key is the last one the listing gave for it.
pub proof fn a_listing_is_what_is_held(
    table: TableModel,
    columns: Seq<ColumnModel>,
    rows: Seq<RowModel>,
    key: KeyModel,
)
    ensures
        lookup(table.reset(columns, rows).rows, key) == crate::keyed::last_value(keyed_rows(rows), key),
{
    collected_holds_the_last::<ResourceKey, RowModel>(keyed_rows(rows), key);
}

/// A row that was put is held just as it was given, and every other row as
/// before; a row that was removed is not held.
pub proof fn rows_are_held_as_given(table: TableModel, row: RowModel, now: Instant, other: KeyModel)
    requires
        table.wf(),
    ensures
        table.with_row(row, now).has_row(row),
        other != row.key ==> lookup(table.with_row(row, now).rows, other) == lookup(table.rows, other),
        !is_key(table.with_row(row, now).without(row.key).rows, row.key),
{
    crate::keyed::lookup_after_put::<ResourceKey, RowModel>(table.rows, row.key, row, row.key);
    crate::keyed::lookup_after_put::<ResourceKey, RowModel>(table.rows, row.key, row, other);
    put_keeps_order::<ResourceKey, RowModel>(table.rows, row.key, row);
    crate::keyed::lookup_after_cut::<ResourceKey, RowModel>(table.with_row(row, now).rows, row.key, row.key);
}

/// Every object known for one kind.
#[derive(Clone, Debug)]
pub struct ResourceTable {
    rows: OrdMap<ResourceKey, Arc<ResourceRow>>,
    columns: Arc<Vec<ColumnSpec>>,
    changed: OrdMap<ResourceKey, Instant>,
    /// The changes as they were last handed out.
    snapshot: Arc<OrdMap<ResourceKey, Instant>>,
    /// Whether `snapshot` is behind `changed`.
    restale: bool,
    unavailable: Option<String>,
}

impl DeepView for ResourceTable {
    type V = TableModel;

    closed spec fn deep_view(&self) -> TableModel {
        TableModel {
            rows: self.rows@,
            columns: self.columns.deep_view(),
            changed: self.changed@,
            unavailable: self.unavailable.deep_view(),
        }
    }
}

impl View for ResourceTable {
    type V = TableModel;

    open spec fn view(&self) -> TableModel {
        self.deep_view()
    }
}

impl Default for ResourceTable {
    fn default() -> (table: Self)
        ensures
            table.wf(),
            table@ == TableModel::empty(),
    {
        ResourceTable::new()
    }
}

impl ResourceTable {
    /// Whether the rows are in order under their own keys, and what was last
    /// handed out is what is held unless it is marked as behind.
    pub closed spec fn wf(&self) -> bool {
        &&& self@.wf()
        &&& !self.restale ==> self.snapshot@ == self.changed@
    }

    /// What is well-formed is well-formed in what it holds.
    pub proof fn wf_model(&self)
        requires
            self.wf(),
        ensures
            self@.wf(),
    {
    }

    /// An empty table.
    pub fn new() -> (table: Self)
        ensures
            table.wf(),
            table@ == TableModel::empty(),
    {
        let table: ResourceTable = ResourceTable {
            rows: OrdMap::new(),
            columns: Arc::new(Vec::new()),
            changed: OrdMap::new(),
            snapshot: Arc::new(OrdMap::new()),
            restale: false,
            unavailable: None,
        };
        assert(table@.columns =~= seq![]);
        table
    }

    /// The columns these rows carry cells for.
    pub fn columns(&self) -> (columns: &Arc<Vec<ColumnSpec>>)
        ensures
            columns.deep_view() == self@.columns,
    {
        &self.columns
    }

    /// Why this kind cannot be listed, if it cannot.
    pub fn unavailable(&self) -> (reason: Option<&String>)
        ensures
            reason.deep_view() == self@.unavailable,
    {
        self.unavailable.as_ref()
    }

    /// Records that the apiserver will not serve this kind, reporting whether
    /// that is new. The rows are dropped: nobody can refresh them.
    pub fn refuse(&mut self, reason: &str) -> (changed: bool)
        requires
            old(self).wf(),
        ensures
            final(self).wf(),
            final(self)@ == old(self)@.refused(reason@),
            changed == !old(self)@.refused_already(reason@),
    {
        if let Some(held) = &self.unavailable {
            if crate::text::is_text(held.as_str(), reason) && self.rows.is_empty() {
                return false;
            }
        }
        self.rows.clear();
        self.changed.clear();
        self.restale = true;
        self.unavailable = Some(reason.to_owned());
        true
    }

    /// Replaces the whole table with a fresh listing, reporting whether
    /// anything that is shown changed.
    pub fn reset(&mut self, columns: Arc<Vec<ColumnSpec>>, rows: &Vec<ResourceRow>) -> (changed: bool)
        requires
            old(self).wf(),
        ensures
            final(self).wf(),
            final(self)@ == old(self)@.reset(columns.deep_view(), rows.deep_view()),
            changed == (!old(self)@.holds_already(columns.deep_view(), rows.deep_view()) || old(
                self,
            )@.unavailable is Some),
    {
        let ghost all = keyed_rows(rows.deep_view());
        let was_refused: bool = self.unavailable.is_some();
        self.unavailable = None;

        let mut replacement: OrdMap<ResourceKey, Arc<ResourceRow>> = OrdMap::new();
        let mut at: usize = 0;
        while at < rows.len()
            invariant
                at <= rows.len(),
                all == keyed_rows(rows.deep_view()),
                replacement.wf(),
                replacement@ == collected::<ResourceKey, RowModel>(all.take(at as int)),
            decreases rows.len() - at,
        {
            let row: &ResourceRow = &rows[at];
            replacement.put(row.key.dup(), Arc::new(row.dup()));
            at += 1;
            assert(all.take(at as int).drop_last() =~= all.take(at - 1));
            assert(all.take(at as int).last() == all[at - 1]);
        }
        assert(all.take(at as int) =~= all);
        proof {
            listing_is_keyed(rows.deep_view());
        }

        if self.columns.same(&columns) && replacement.same(&self.rows) {
            return was_refused;
        }
        self.columns = columns;
        self.rows = replacement;
        self.changed.clear();
        self.restale = true;
        true
    }

    /// Adds or updates one row, reporting whether it differed from what was held.
    pub fn apply(&mut self, row: Arc<ResourceRow>, now: Instant) -> (changed: bool)
        requires
            old(self).wf(),
        ensures
            final(self).wf(),
            final(self)@ == old(self)@.with_row(row.deep_view(), now),
            changed == !old(self)@.has_row(row.deep_view()),
    {
        self.apply_at(row, now)
    }

    /// Adds or updates one row, recording when it changed.
    pub fn apply_at(&mut self, row: Arc<ResourceRow>, now: Instant) -> (changed: bool)
        requires
            old(self).wf(),
        ensures
            final(self).wf(),
            final(self)@ == old(self)@.with_row(row.deep_view(), now),
            changed == !old(self)@.has_row(row.deep_view()),
    {
        if let Some(held) = self.rows.get(&row.key) {
            if held.same(&row) {
                return false;
            }
        }
        proof {
            putting_keeps_rows_keyed(self.rows@, row.deep_view());
        }
        self.changed.put(row.key.dup(), now);
        self.restale = true;
        self.rows.put(row.key.dup(), row);
        true
    }

    /// When each row last changed, for as long as that is less than `window` ago.
    ///
    /// Older changes are dropped as this is asked for. What is handed out is
    /// shared, and is made anew only when the changes are no longer the same.
    pub fn changed_since(&mut self, now: Instant, window: Duration) -> (changes: Arc<OrdMap<ResourceKey, Instant>>)
        requires
            old(self).wf(),
        ensures
            final(self).wf(),
            final(self)@ == old(self)@.pruned(now, window),
            changes@ == final(self)@.changed,
            changes.wf(),
    {
        let ghost before = self.changed@;
        let ghost keep = recent_changes(now, window);
        let held: usize = self.changed.len();
        let mut at: usize = 0;
        proof {
            filter_keeps_order::<ResourceKey, Instant>(before, recent_changes(now, window));
        }
        while at < self.changed.len()
            invariant
                at <= self.changed@.len(),
                self.changed@.len() <= held,
                self.changed.wf(),
                self.rows == old(self).rows,
                self.columns == old(self).columns,
                self.snapshot == old(self).snapshot,
                self.restale == old(self).restale,
                self.unavailable == old(self).unavailable,
                keep == recent_changes(now, window),
                before == old(self).changed@,
                held == before.len(),
                self.changed@.len() == held ==> self.changed@ == before,
                self.changed@.filter(keep) == before.filter(keep),
                forall|i: int| 0 <= i < at ==> keep(#[trigger] self.changed@[i]),
            decreases self.changed@.len() - at,
        {
            let seen: Instant = *self.changed.value_at(at);
            if now.saturating_duration_since(seen).nanos < window.nanos {
                at += 1;
            } else {
                proof {
                    filter_remove(self.changed@, keep, at as int);
                }
                self.changed.remove_at(at);
            }
        }
        proof {
            crate::seqs::filter_all(self.changed@, keep);
        }
        if self.restale || self.changed.len() != held {
            self.snapshot = Arc::new(self.changed.dup());
            self.restale = false;
        }
        Arc::clone(&self.snapshot)
    }

    /// Removes a row, reporting whether it was there.
    pub fn remove(&mut self, key: &ResourceKey) -> (held: bool)
        requires
            old(self).wf(),
        ensures
            final(self).wf(),
            final(self)@ == old(self)@.without(key.deep_view()),
            held == is_key(old(self)@.rows, key.deep_view()),
    {
        proof {
            tables_stay_well_formed(
                self@,
                seq![],
                seq![],
                arbitrary(),
                key.deep_view(),
                seq![],
                arbitrary(),
                arbitrary(),
            );
        }
        self.rows.take(key).is_some()
    }

    /// How many rows are held.
    pub fn len(&self) -> (len: usize)
        ensures
            len == self@.rows.len(),
    {
        self.rows.len()
    }

    /// Whether no row is held.
    pub fn is_empty(&self) -> (empty: bool)
        ensures
            empty == (self@.rows.len() == 0),
    {
        self.rows.is_empty()
    }

    /// One row, by its place in the table.
    pub fn row_at(&self, at: usize) -> (row: &Arc<ResourceRow>)
        requires
            at < self@.rows.len(),
        ensures
            row.deep_view() == self@.rows[at as int].1,
    {
        self.rows.value_at(at)
    }

    /// The rows in table order: namespace, then name.
    pub fn rows(&self) -> (rows: Vec<Arc<ResourceRow>>)
        ensures
            rows.deep_view() == values(self@.rows),
    {
        let ghost all = values(self@.rows);
        let mut rows: Vec<Arc<ResourceRow>> = Vec::new();
        let mut at: usize = 0;
        while at < self.rows.len()
            invariant
                at <= self.rows@.len(),
                all == values(self.rows@),
                rows.deep_view() == all.take(at as int),
            decreases self.rows@.len() - at,
        {
            let ghost before = rows.deep_view();
            rows.push(Arc::clone(self.rows.value_at(at)));
            at += 1;
            assert(rows.deep_view() =~= before.push(all[at - 1]));
            assert(all.take(at as int) =~= before.push(all[at - 1]));
        }
        assert(all.take(at as int) =~= all);
        rows
    }

    /// The rows in table order, where they are held.
    pub fn iter(&self) -> (rows: Vec<&Arc<ResourceRow>>)
        ensures
            rows.deep_view() == values(self@.rows),
    {
        let ghost all = values(self@.rows);
        let mut rows: Vec<&Arc<ResourceRow>> = Vec::new();
        let mut at: usize = 0;
        while at < self.rows.len()
            invariant
                at <= self.rows@.len(),
                all == values(self.rows@),
                rows.deep_view() == all.take(at as int),
            decreases self.rows@.len() - at,
        {
            let ghost before = rows.deep_view();
            rows.push(self.rows.value_at(at));
            at += 1;
            assert(rows.deep_view() =~= before.push(all[at - 1]));
            assert(all.take(at as int) =~= before.push(all[at - 1]));
        }
        assert(all.take(at as int) =~= all);
        rows
    }

    /// The namespaces these rows live in, in order and each once.
    pub fn namespaces(&self) -> (found: Vec<String>)
        requires
            self.wf(),
        ensures
            self@.is_namespaces(found.deep_view()),
    {
        let ghost all = self.rows@;
        let mut found: Vec<String> = Vec::new();
        let mut at: usize = 0;
        while at < self.rows.len()
            invariant
                at <= all.len(),
                all == self.rows@,
                ascending::<ResourceKey, RowModel>(all),
                forall|i: int, j: int|
                    0 <= i < j < found.deep_view().len() ==> text_before(
                        #[trigger] found.deep_view()[i],
                        #[trigger] found.deep_view()[j],
                    ),
                forall|i: int|
                    0 <= i < at && (#[trigger] all[i]).0.namespace.len() > 0 ==> found.deep_view().contains(
                        all[i].0.namespace,
                    ),
                forall|k: int|
                    0 <= k < found.deep_view().len() ==> (#[trigger] found.deep_view()[k]).len() > 0
                        && exists|i: int| 0 <= i < at && (#[trigger] all[i]).0.namespace == found.deep_view()[k],
                found.deep_view().len() > 0 ==> found.deep_view().last() == all[at - 1].0.namespace,
            decreases all.len() - at,
        {
            let key: &ResourceKey = self.rows.key_at(at);
            let ghost before = found.deep_view();
            let ghost namespace = all[at as int].0.namespace;
            let fresh: bool = key.is_namespaced() && (found.len() == 0 || !found[found.len() - 1].same(
                &key.namespace,
            ));
            proof {
                if at > 0 {
                    assert(ResourceKey::below(all[at - 1].0, all[at as int].0));
                    text_order(all[at - 1].0.namespace, namespace, namespace);
                }
                if before.len() > 0 {
                    assert(before.last().len() > 0);
                    assert(before[before.len() - 1].len() > 0);
                    if namespace.len() == 0 {
                        assert(!text_before(before.last(), namespace));
                    }
                }
            }
            if fresh {
                found.push(key.namespace.clone());
                proof {
                    assert(found.deep_view() =~= before.push(namespace));
                    assert forall|i: int, j: int| 0 <= i < j < found.deep_view().len() implies text_before(
                        #[trigger] found.deep_view()[i],
                        #[trigger] found.deep_view()[j],
                    ) by {
                        if j == before.len() {
                            text_order(before[i], before.last(), namespace);
                            if i < before.len() - 1 {
                                assert(text_before(before[i], before[before.len() - 1]));
                            }
                        }
                    }
                    assert forall|i: int| 0 <= i < at + 1 && (#[trigger] all[i]).0.namespace.len() > 0 implies
                        found.deep_view().contains(all[i].0.namespace) by {
                        if i < at {
                            let k = choose|k: int| 0 <= k < before.len() && before[k] == all[i].0.namespace;
                            assert(found.deep_view()[k] == all[i].0.namespace);
                        } else {
                            assert(found.deep_view()[before.len() as int] == namespace);
                        }
                    }
                    assert forall|k: int| 0 <= k < found.deep_view().len() implies (
                    #[trigger] found.deep_view()[k]).len() > 0 && exists|i: int|
                        0 <= i < at + 1 && (#[trigger] all[i]).0.namespace == found.deep_view()[k] by {
                        if k < before.len() {
                            assert(found.deep_view()[k] == before[k]);
                            let i = choose|i: int| 0 <= i < at && (#[trigger] all[i]).0.namespace == before[k];
                            assert(all[i].0.namespace == found.deep_view()[k]);
                        } else {
                            assert(all[at as int].0.namespace == found.deep_view()[k]);
                        }
                    }
                }
            } else {
                proof {
                    if namespace.len() > 0 {
                        assert(before.last() == namespace);
                        assert(before[before.len() - 1] == namespace);
                    } else if before.len() > 0 {
                        assert(false);
                    }
                }
            }
            at += 1;
        }
        proof {
            assert forall|namespace: Seq<char>| #[trigger] found.deep_view().contains(namespace) <==> namespace.len()
                > 0 && self@.uses(namespace) by {
                if found.deep_view().contains(namespace) {
                    let k = choose|k: int|
                        0 <= k < found.deep_view().len() && found.deep_view()[k] == namespace;
                    assert(found.deep_view()[k].len() > 0);
                    let i = choose|i: int|
                        0 <= i < at && (#[trigger] all[i]).0.namespace == found.deep_view()[k];
                    assert(self@.rows[i].0.namespace == namespace);
                }
                if namespace.len() > 0 && self@.uses(namespace) {
                    let i = choose|i: int|
                        0 <= i < self@.rows.len() && (#[trigger] self@.rows[i]).0.namespace == namespace;
                    assert(all[i].0.namespace.len() > 0);
                }
            }
        }
        found
    }
}

/// A row that was changed is marked with the moment it was, for as long as that
/// is of interest and no longer; one that stayed as it was is not marked again.
pub proof fn changes_are_marked_for_a_while(table: TableModel, row: RowModel, at: Instant, now: Instant, window: Duration)
    requires
        table.wf(),
        lookup(table.rows, row.key) != Some(row),
        now.nanos >= at.nanos,
    ensures
        ({
            let after = table.with_row(row, at);
            let marks = after.pruned(now, window).changed;
            &&& lookup(after.changed, row.key) == Some(at)
            &&& now.nanos - at.nanos < window.nanos ==> is_key(marks, row.key)
            &&& now.nanos - at.nanos >= window.nanos ==> !is_key(marks, row.key)
            &&& after.with_row(row, now) == after
            &&& after.pruned(now, window).rows == after.rows
        }),
{
    let after = table.with_row(row, at);
    put_keeps_order::<ResourceKey, Instant>(table.changed, row.key, at);
    crate::keyed::lookup_after_put::<ResourceKey, Instant>(table.changed, row.key, at, row.key);
    crate::keyed::lookup_after_put::<ResourceKey, RowModel>(table.rows, row.key, row, row.key);
    let keep = recent_changes(now, window);
    let marks = after.changed.filter(keep);
    let k = choose|k: int| 0 <= k < after.changed.len() && (#[trigger] after.changed[k]).0 == row.key;
    crate::keyed::lookup_at::<ResourceKey, Instant>(after.changed, k);
    assert(after.changed[k] == (row.key, at));
    if keep(after.changed[k]) {
        crate::seqs::filter_target(after.changed, keep, k);
        let i = choose|i: int| 0 <= i < marks.len() && marks[i] == after.changed[k];
        assert(marks[i].0 == row.key);
    } else if is_key(marks, row.key) {
        let i = choose|i: int| 0 <= i < marks.len() && (#[trigger] marks[i]).0 == row.key;
        filter_source(after.changed, keep, i);
        let j = choose|j: int| 0 <= j < after.changed.len() && after.changed[j] == marks[i];
        crate::keyed::lookup_at::<ResourceKey, Instant>(after.changed, j);
    }
}

/// The namespaces that a table lists are those of its rows, each once and in
/// order; rows that live in none add nothing.
pub proof fn namespaces_are_those_of_the_rows(table: TableModel, found: Seq<Seq<char>>, i: int, j: int)
    requires
        table.is_namespaces(found),
        0 <= i < table.rows.len(),
        0 <= j < found.len(),
    ensures
        table.rows[i].0.namespace.len() > 0 ==> found.contains(table.rows[i].0.namespace),
        found[j].len() > 0,
        exists|row: int| 0 <= row < table.rows.len() && (#[trigger] table.rows[row]).0.namespace == found[j],
        forall|k: int| j < k < found.len() ==> text_before(found[j], #[trigger] found[k]),
{
    assert(table.rows[i].0.namespace == table.rows[i].0.namespace);
    assert(found.contains(found[j]));
}

} // verus!
