//! Which rows of a table are shown, and in which order.

use crate::keyed::Key;
use crate::clock::earlier;
use crate::objects::{cell_at, Cell, CellModel, ResourceKey, ResourceRow, RowModel};
use crate::sorting::{consistent, sort, sorted, Precedence};
use crate::text::{contains, holds, is_text_before, lowercase, text_before, text_order, to_lowercase};
use crate::value::Value;
use std::cmp::Ordering;
use std::sync::Arc;
use vstd::prelude::*;

verus! {

// --- filters --------------------------------------------------------------------

/// Which objects a pane covers.
#[derive(Clone, Debug, PartialEq, Eq)]
pub struct Filters {
    /// One namespace, or every namespace.
    pub namespace: Option<String>,
    /// A label selector that the apiserver applies.
    pub selector: Option<String>,
    /// A text that rows are searched for, here.
    pub search: Option<String>,
}

/// What a [`Filters`] holds.
pub struct FiltersModel {
    /// One namespace, or every namespace.
    pub namespace: Option<Seq<char>>,
    /// A label selector that the apiserver applies.
    pub selector: Option<Seq<char>>,
    /// A text that rows are searched for, here.
    pub search: Option<Seq<char>>,
}

impl DeepView for Filters {
    type V = FiltersModel;

    open spec fn deep_view(&self) -> FiltersModel {
        FiltersModel {
            namespace: self.namespace.deep_view(),
            selector: self.selector.deep_view(),
            search: self.search.deep_view(),
        }
    }
}

impl Value for Filters {
    fn dup(&self) -> (copy: Self) {
        Filters {
            namespace: self.namespace.dup(),
            selector: self.selector.dup(),
            search: self.search.dup(),
        }
    }

    fn same(&self, other: &Self) -> (equal: bool) {
        self.namespace.same(&other.namespace)
            && self.selector.same(&other.selector)
            && self.search.same(&other.search)
    }
}

impl FiltersModel {
    /// No filter at all.
    pub open spec fn none() -> FiltersModel {
        FiltersModel { namespace: None, selector: None, search: None }
    }
}

/// Whether a row is in the namespace asked for, if one was.
pub open spec fn in_namespace(filters: FiltersModel, row: RowModel) -> bool {
    match filters.namespace {
        Some(namespace) => row.key.namespace == namespace,
        None => true,
    }
}

/// Whether a row holds the text searched for, in its name, its namespace or a
/// cell, whatever the case.
pub open spec fn matches_search(filters: FiltersModel, row: RowModel) -> bool {
    match filters.search {
        Some(search) => {
            let wanted = lowercase(search);
            ||| search.len() == 0
            ||| holds(lowercase(row.key.name), wanted)
            ||| holds(lowercase(row.key.namespace), wanted)
            ||| exists|i: int| 0 <= i < row.cells.len() && holds(lowercase((#[trigger] row.cells[i]).text), wanted)
        },
        None => true,
    }
}

/// Picks the rows that filters let through.
pub open spec fn let_through(filters: FiltersModel) -> spec_fn(RowModel) -> bool {
    |row: RowModel| in_namespace(filters, row) && matches_search(filters, row)
}

impl Default for Filters {
    fn default() -> (filters: Self)
        ensures
            filters.deep_view() == FiltersModel::none(),
    {
        Filters::none()
    }
}

impl Filters {
    /// No filter at all.
    pub fn none() -> (filters: Self)
        ensures
            filters.deep_view() == FiltersModel::none(),
    {
        Filters { namespace: None, selector: None, search: None }
    }

    /// Whether a row is in the namespace asked for.
    fn covers(&self, row: &ResourceRow) -> (inside: bool)
        ensures
            inside == in_namespace(self.deep_view(), row.deep_view()),
    {
        match &self.namespace {
            Some(namespace) => row.key.namespace.same(namespace),
            None => true,
        }
    }

    /// Whether a row holds the text searched for.
    pub fn matches(&self, row: &ResourceRow) -> (found: bool)
        ensures
            found == matches_search(self.deep_view(), row.deep_view()),
    {
        let search: &String = match &self.search {
            Some(search) => search,
            None => return true,
        };
        if search.as_str().is_empty() {
            return true;
        }
        let wanted: String = to_lowercase(search.as_str());
        if contains(to_lowercase(row.key.name.as_str()).as_str(), wanted.as_str()) {
            return true;
        }
        if contains(to_lowercase(row.key.namespace.as_str()).as_str(), wanted.as_str()) {
            return true;
        }
        let ghost cells = row.deep_view().cells;
        let mut at: usize = 0;
        while at < row.cells.len()
            invariant
                at <= row.cells.len(),
                cells == row.deep_view().cells,
                self.deep_view().search == Some(search@),
                wanted@ == lowercase(search@),
                forall|i: int| 0 <= i < at ==> !holds(lowercase((#[trigger] cells[i]).text), wanted@),
            decreases row.cells.len() - at,
        {
            assert(cells[at as int].text == row.cells[at as int].text@);
            if contains(to_lowercase(row.cells[at].text.as_str()).as_str(), wanted.as_str()) {
                assert(holds(lowercase(cells[at as int].text), wanted@));
                return true;
            }
            at += 1;
        }
        false
    }

    /// Whether a row gets through.
    pub fn passes(&self, row: &ResourceRow) -> (shown: bool)
        ensures
            shown == let_through(self.deep_view())(row.deep_view()),
    {
        self.covers(row) && self.matches(row)
    }
}

// --- orders ---------------------------------------------------------------------

/// What a table is sorted by.
#[derive(Clone, Copy, Debug, PartialEq, Eq, Structural)]
pub enum SortKey {
    /// Namespace, then name: the order the table holds its rows in, and the
    /// one to return to.
    Namespace,
    /// Name, and the namespace only where names are equal.
    Name,
    /// Age, oldest first.
    Age,
    /// One of the kind's own columns.
    Cell(usize),
}

impl DeepView for SortKey {
    type V = SortKey;

    open spec fn deep_view(&self) -> SortKey {
        *self
    }
}

/// How a table is sorted.
#[derive(Clone, Copy, Debug, PartialEq, Eq, Structural)]
pub struct Sort {
    /// What it is sorted by.
    pub key: SortKey,
    /// Whether the order is reversed.
    pub descending: bool,
}

/// The order the table holds its rows in.
pub open spec fn natural_sort() -> Sort {
    Sort { key: SortKey::Namespace, descending: false }
}

/// The order a click on a column leads to.
pub open spec fn clicked_sort(sort: Sort, key: SortKey) -> Sort {
    if sort.key != key {
        Sort { key, descending: false }
    } else if !sort.descending {
        Sort { key, descending: true }
    } else {
        natural_sort()
    }
}

impl Default for SortKey {
    fn default() -> (key: Self)
        ensures
            key == natural_sort().key,
    {
        SortKey::Namespace
    }
}

impl Default for Sort {
    fn default() -> (sort: Self)
        ensures
            sort == natural_sort(),
    {
        Sort { key: SortKey::Namespace, descending: false }
    }
}

impl Sort {
    /// The order a click on a column leads to: a new column ascends, the same
    /// one again descends, and a third click goes back to the natural order.
    pub fn clicked(self, key: SortKey) -> (sort: Self)
        ensures
            sort == clicked_sort(self, key),
    {
        if self.key != key {
            Sort { key, descending: false }
        } else if !self.descending {
            Sort { key, descending: true }
        } else {
            Sort::default()
        }
    }

    /// The arrow a column's heading shows, if it is what is sorted by.
    pub fn marker(self, key: SortKey) -> (arrow: Option<&'static str>)
        ensures
            arrow.deep_view() == (if self.key != key {
                None
            } else if self.descending {
                Some("▾"@)
            } else {
                Some("▴"@)
            }),
    {
        if self.key != key {
            None
        } else if self.descending {
            Some("▾")
        } else {
            Some("▴")
        }
    }
}

/// Three clicks on a column that is not sorted by ascend, descend and go back
/// to the natural order.
pub proof fn three_clicks_lead_back(sort: Sort, key: SortKey)
    requires
        sort.key != key,
    ensures
        clicked_sort(sort, key) == (Sort { key, descending: false }),
        clicked_sort(clicked_sort(sort, key), key) == (Sort { key, descending: true }),
        clicked_sort(clicked_sort(clicked_sort(sort, key), key), key) == natural_sort(),
{
}

/// Whether one cell sorts strictly before another: as numbers if both are, and
/// as text otherwise, whatever the case.
pub open spec fn cell_before(left: CellModel, right: CellModel) -> bool {
    match (left.number, right.number) {
        (Some(a), Some(b)) => a < b,
        _ => text_before(lowercase(left.text), lowercase(right.text)),
    }
}

/// Whether one row is strictly older than another; rows of unknown age are
/// after those of a known one, and rows of the same age go by their names.
pub open spec fn older(left: RowModel, right: RowModel) -> bool {
    match (left.created, right.created) {
        (Some(a), Some(b)) => earlier(a, b) || (a == b && text_before(left.key.name, right.key.name)),
        (Some(_), None) => true,
        (None, Some(_)) => false,
        (None, None) => text_before(left.key.name, right.key.name),
    }
}

/// Rows in the ascending order of what they are sorted by.
pub open spec fn row_order(key: SortKey) -> spec_fn(RowModel, RowModel) -> bool {
    match key {
        SortKey::Namespace => |a: RowModel, b: RowModel| ResourceKey::below(a.key, b.key),
        SortKey::Name => |a: RowModel, b: RowModel| text_before(a.key.name, b.key.name) || (a.key.name
            == b.key.name && text_before(a.key.namespace, b.key.namespace)),
        SortKey::Age => |a: RowModel, b: RowModel| older(a, b),
        SortKey::Cell(column) => |a: RowModel, b: RowModel|
            {
                let (left, right) = (cell_at(a, column as int), cell_at(b, column as int));
                cell_before(left, right) || (!cell_before(right, left) && text_before(a.key.name, b.key.name))
            },
    }
}

/// The rows of a table, as it holds them, in the order asked for. The natural
/// order takes them as they are.
pub open spec fn arranged(rows: Seq<RowModel>, by: Sort) -> Seq<RowModel> {
    let ascending = if by.key == SortKey::Namespace {
        rows
    } else {
        sorted(rows, row_order(by.key))
    };
    if by.descending {
        ascending.reverse()
    } else {
        ascending
    }
}

/// Compares two cells, as numbers when both are.
pub fn compare_cells(left: &Cell, right: &Cell) -> (order: Ordering)
    ensures
        order == Ordering::Less <==> cell_before(left.deep_view(), right.deep_view()),
        order == Ordering::Greater <==> cell_before(right.deep_view(), left.deep_view()),
{
    if is_cell_before(left, right) {
        proof {
            text_order(lowercase(left.text@), lowercase(right.text@), lowercase(left.text@));
        }
        Ordering::Less
    } else if is_cell_before(right, left) {
        Ordering::Greater
    } else {
        Ordering::Equal
    }
}

fn is_cell_before(left: &Cell, right: &Cell) -> (first: bool)
    ensures
        first == cell_before(left.deep_view(), right.deep_view()),
{
    match (&left.number, &right.number) {
        (Some(a), Some(b)) => *a < *b,
        _ => is_text_before(
            to_lowercase(left.text.as_str()).as_str(),
            to_lowercase(right.text.as_str()).as_str(),
        ),
    }
}

struct RowOrder {
    key: SortKey,
}

impl RowOrder {
    fn cell(row: &ResourceRow, column: usize) -> (cell: Cell)
        ensures
            cell.deep_view() == cell_at(row.deep_view(), column as int),
    {
        if column < row.cells.len() {
            row.cells[column].dup()
        } else {
            let cell: Cell = Cell { text: String::new(), number: None };
            assert(cell.text@ =~= seq![]);
            cell
        }
    }

    fn is_older(left: &ResourceRow, right: &ResourceRow) -> (first: bool)
        ensures
            first == older(left.deep_view(), right.deep_view()),
    {
        match (left.created, right.created) {
            (Some(a), Some(b)) => a.is_earlier(b) || (a == b && left.key.name.is_below(&right.key.name)),
            (Some(_), None) => true,
            (None, Some(_)) => false,
            (None, None) => left.key.name.is_below(&right.key.name),
        }
    }
}

impl Precedence<Arc<ResourceRow>> for RowOrder {
    closed spec fn rel(&self) -> spec_fn(RowModel, RowModel) -> bool {
        row_order(self.key)
    }

    fn before(&self, left: &Arc<ResourceRow>, right: &Arc<ResourceRow>) -> (first: bool) {
        match self.key {
            SortKey::Namespace => left.key.is_below(&right.key),
            SortKey::Name => left.key.name.is_below(&right.key.name) || (left.key.name.same(&right.key.name)
                && left.key.namespace.is_below(&right.key.namespace)),
            SortKey::Age => RowOrder::is_older(left, right),
            SortKey::Cell(column) => {
                let (a, b) = (RowOrder::cell(left, column), RowOrder::cell(right, column));
                is_cell_before(&a, &b) || (!is_cell_before(&b, &a) && left.key.name.is_below(&right.key.name))
            },
        }
    }
}

fn reverse(rows: &Vec<Arc<ResourceRow>>) -> (reversed: Vec<Arc<ResourceRow>>)
    ensures
        reversed.deep_view() == rows.deep_view().reverse(),
{
    let mut reversed: Vec<Arc<ResourceRow>> = Vec::new();
    let mut left: usize = rows.len();
    while left > 0
        invariant
            left <= rows.len(),
            reversed.len() == rows.len() - left,
            forall|i: int|
                0 <= i < reversed.len() ==> (#[trigger] reversed[i]).deep_view() == rows[rows.len() - 1 - i].deep_view(),
        decreases left,
    {
        left -= 1;
        reversed.push(Arc::clone(&rows[left]));
    }
    assert(reversed.deep_view() =~= rows.deep_view().reverse());
    reversed
}

/// Puts the rows of a table, as it holds them, in the order asked for.
pub fn sort_rows(rows: &mut Vec<Arc<ResourceRow>>, by: Sort)
    ensures
        final(rows).deep_view() == arranged(old(rows).deep_view(), by),
{
    if by.key != SortKey::Namespace {
        let sorted_rows: Vec<Arc<ResourceRow>> = sort(&*rows, &RowOrder { key: by.key });
        *rows = sorted_rows;
    }
    if by.descending {
        let reversed: Vec<Arc<ResourceRow>> = reverse(&*rows);
        *rows = reversed;
    }
}

// --- laws -----------------------------------------------------------------------

/// Whether a column holds numbers only, or none at all.
pub open spec fn uniform_column(rows: Seq<RowModel>, column: int) -> bool {
    (forall|i: int| 0 <= i < rows.len() ==> cell_at(#[trigger] rows[i], column).number is Some) || (forall|i: int|
        0 <= i < rows.len() ==> cell_at(#[trigger] rows[i], column).number is None)
}

/// Every order but that of a column that mixes numbers and text is consistent:
/// sorting by it puts no row before one that belongs ahead of it.
pub proof fn orders_are_consistent(rows: Seq<RowModel>, key: SortKey)
    requires
        key matches SortKey::Cell(column) ==> uniform_column(rows, column as int),
    ensures
        consistent(rows, row_order(key)),
{
    let before = row_order(key);
    assert forall|a: RowModel, b: RowModel| #![trigger before(a, b)]
        rows.contains(a) && rows.contains(b) && before(a, b) implies !before(b, a) by {
        row_order_facts(rows, key, a, b, a);
    }
    assert forall|a: RowModel, b: RowModel, c: RowModel| #![trigger before(a, b), before(b, c)]
        rows.contains(a) && rows.contains(b) && rows.contains(c) && before(a, b) && before(b, c) implies before(
        a,
        c,
    ) by {
        row_order_facts(rows, key, a, b, c);
    }
    assert forall|a: RowModel, b: RowModel, c: RowModel| #![trigger before(a, b), before(b, c)]
        rows.contains(a) && rows.contains(b) && rows.contains(c) && !before(a, b) && !before(b, c) implies !before(
        a,
        c,
    ) by {
        row_order_facts(rows, key, a, b, c);
    }
}

proof fn row_order_facts(rows: Seq<RowModel>, key: SortKey, a: RowModel, b: RowModel, c: RowModel)
    requires
        key matches SortKey::Cell(column) ==> uniform_column(rows, column as int),
        rows.contains(a),
        rows.contains(b),
        rows.contains(c),
    ensures
        ({
            let before = row_order(key);
            &&& before(a, b) ==> !before(b, a)
            &&& before(a, b) && before(b, c) ==> before(a, c)
            &&& !before(a, b) && !before(b, c) ==> !before(a, c)
        }),
{
    let (i, j, k) = (
        choose|i: int| 0 <= i < rows.len() && rows[i] == a,
        choose|j: int| 0 <= j < rows.len() && rows[j] == b,
        choose|k: int| 0 <= k < rows.len() && rows[k] == c,
    );
    text_order(a.key.name, b.key.name, c.key.name);
    text_order(b.key.name, a.key.name, c.key.name);
    text_order(b.key.name, c.key.name, a.key.name);
    text_order(c.key.name, b.key.name, a.key.name);
    text_order(a.key.name, c.key.name, b.key.name);
    text_order(a.key.namespace, b.key.namespace, c.key.namespace);
    text_order(b.key.namespace, a.key.namespace, c.key.namespace);
    text_order(b.key.namespace, c.key.namespace, a.key.namespace);
    text_order(c.key.namespace, b.key.namespace, a.key.namespace);
    text_order(a.key.namespace, c.key.namespace, b.key.namespace);
    if let SortKey::Cell(column) = key {
        let (x, y, z) = (
            cell_at(rows[i], column as int),
            cell_at(rows[j], column as int),
            cell_at(rows[k], column as int),
        );
        text_order(lowercase(x.text), lowercase(y.text), lowercase(z.text));
        text_order(lowercase(y.text), lowercase(x.text), lowercase(z.text));
        text_order(lowercase(y.text), lowercase(z.text), lowercase(x.text));
        text_order(lowercase(z.text), lowercase(y.text), lowercase(x.text));
        text_order(lowercase(x.text), lowercase(z.text), lowercase(y.text));
    }
}

/// Putting rows in an order loses none and adds none.
pub proof fn arranging_keeps_rows(rows: Seq<RowModel>, by: Sort, row: RowModel)
    ensures
        arranged(rows, by).len() == rows.len(),
        arranged(rows, by).to_multiset() == rows.to_multiset(),
        arranged(rows, by).contains(row) <==> rows.contains(row),
{
    crate::seqs::reversing_keeps_items(rows);
    crate::seqs::reversing_keeps_items(sorted(rows, row_order(by.key)));
    crate::sorting::sorting_keeps_items(rows, row_order(by.key));
    crate::sorting::sorting_keeps_membership(rows, row_order(by.key), row);
    let up = if by.key == SortKey::Namespace {
        rows
    } else {
        sorted(rows, row_order(by.key))
    };
    if by.descending {
        let down = up.reverse();
        if up.contains(row) {
            let i = choose|i: int| 0 <= i < up.len() && up[i] == row;
            assert(down[up.len() - 1 - i] == row);
        }
        if down.contains(row) {
            let i = choose|i: int| 0 <= i < down.len() && down[i] == row;
            assert(up[up.len() - 1 - i] == row);
        }
    }
}

/// In a descending order no row is before one that an ascending order would
/// put ahead of it; in an ascending one, none is behind.
pub proof fn arranging_orders_rows(rows: Seq<RowModel>, by: Sort)
    requires
        by.key != SortKey::Namespace,
        by.key matches SortKey::Cell(column) ==> uniform_column(rows, column as int),
    ensures
        forall|i: int, j: int|
            0 <= i < j < arranged(rows, by).len() ==> {
                let before = row_order(by.key);
                if by.descending {
                    !before(#[trigger] arranged(rows, by)[i], #[trigger] arranged(rows, by)[j])
                } else {
                    !before(arranged(rows, by)[j], arranged(rows, by)[i])
                }
            },
{
    orders_are_consistent(rows, by.key);
    crate::sorting::sorting_orders(rows, row_order(by.key));
    let before = row_order(by.key);
    let up = sorted(rows, before);
    let all = arranged(rows, by);
    assert forall|i: int, j: int| 0 <= i < j < all.len() implies {
        if by.descending {
            !before(#[trigger] all[i], #[trigger] all[j])
        } else {
            !before(all[j], all[i])
        }
    } by {
        if by.descending {
            assert(all[i] == up[up.len() - 1 - i]);
            assert(all[j] == up[up.len() - 1 - j]);
            assert(!before(up[up.len() - 1 - i], up[up.len() - 1 - j]));
        } else {
            assert(!before(up[j], up[i]));
        }
    }
}

/// Whether one text is not after another in the order of texts.
pub open spec fn not_after(a: Seq<char>, b: Seq<char>) -> bool {
    a == b || text_before(a, b)
}

/// Down a column of texts, the texts ascend whatever their case, and descend
/// where the order is reversed. Rows whose cells read the same go by their names.
pub proof fn texts_ascend_down_a_column(rows: Seq<RowModel>, column: usize, descending: bool, i: int, j: int)
    requires
        forall|k: int|
            0 <= k < rows.len() ==> column < (#[trigger] rows[k]).cells.len() && rows[k].cells[column as int].number
                is None,
        0 <= i < j < rows.len(),
    ensures
        ({
            let all = arranged(rows, Sort { key: SortKey::Cell(column), descending });
            let (upper, lower) = (all[i], all[j]);
            let (a, b) = (lowercase(upper.cells[column as int].text), lowercase(lower.cells[column as int].text));
            &&& !descending ==> not_after(a, b)
            &&& descending ==> not_after(b, a)
            &&& a == b && !descending ==> not_after(upper.key.name, lower.key.name)
            &&& a == b && descending ==> not_after(lower.key.name, upper.key.name)
        }),
{
    let by = Sort { key: SortKey::Cell(column), descending };
    let all = arranged(rows, by);
    assert forall|k: int| 0 <= k < rows.len() implies cell_at(#[trigger] rows[k], column as int).number is None by {
        assert(column < rows[k].cells.len());
    }
    arranging_orders_rows(rows, by);
    arranged_from(rows, by, i);
    arranged_from(rows, by, j);
    let (a, b) = (lowercase(all[i].cells[column as int].text), lowercase(all[j].cells[column as int].text));
    text_order(a, b, a);
    text_order(all[i].key.name, all[j].key.name, all[i].key.name);
}

/// Down a column of numbers, the numbers ascend, and descend where the order is
/// reversed. Rows with the same number go by their names.
pub proof fn numbers_ascend_down_a_column(rows: Seq<RowModel>, column: usize, descending: bool, i: int, j: int)
    requires
        forall|k: int|
            0 <= k < rows.len() ==> column < (#[trigger] rows[k]).cells.len() && rows[k].cells[column as int].number
                is Some,
        0 <= i < j < rows.len(),
    ensures
        ({
            let all = arranged(rows, Sort { key: SortKey::Cell(column), descending });
            let (upper, lower) = (all[i], all[j]);
            let (a, b) = (upper.cells[column as int].number->0, lower.cells[column as int].number->0);
            &&& !descending ==> a <= b
            &&& descending ==> b <= a
            &&& a == b && !descending ==> not_after(upper.key.name, lower.key.name)
            &&& a == b && descending ==> not_after(lower.key.name, upper.key.name)
        }),
{
    let by = Sort { key: SortKey::Cell(column), descending };
    let all = arranged(rows, by);
    assert forall|k: int| 0 <= k < rows.len() implies cell_at(#[trigger] rows[k], column as int).number is Some by {
        assert(column < rows[k].cells.len());
    }
    arranging_orders_rows(rows, by);
    arranged_from(rows, by, i);
    arranged_from(rows, by, j);
    text_order(all[i].key.name, all[j].key.name, all[i].key.name);
}

/// Two cells compare as numbers where both are numbers, and as texts, whatever
/// their case, where one of them is not.
pub proof fn cells_compare_as_what_they_are(left: CellModel, right: CellModel)
    ensures
        left.number is Some && right.number is Some ==> cell_before(left, right) == (left.number->0
            < right.number->0),
        left.number is None || right.number is None ==> cell_before(left, right) == text_before(
            lowercase(left.text),
            lowercase(right.text),
        ),
{
}

/// By name, rows go by their names, and rows of the same name by their
/// namespaces.
pub proof fn names_ascend_by_name(rows: Seq<RowModel>, descending: bool, i: int, j: int)
    requires
        0 <= i < j < rows.len(),
    ensures
        ({
            let all = arranged(rows, Sort { key: SortKey::Name, descending });
            let (first, second) = if descending {
                (all[j].key, all[i].key)
            } else {
                (all[i].key, all[j].key)
            };
            &&& not_after(first.name, second.name)
            &&& first.name == second.name ==> not_after(first.namespace, second.namespace)
        }),
{
    let by = Sort { key: SortKey::Name, descending };
    let all = arranged(rows, by);
    arranging_orders_rows(rows, by);
    arranged_from(rows, by, i);
    text_order(all[i].key.name, all[j].key.name, all[i].key.name);
    text_order(all[i].key.namespace, all[j].key.namespace, all[i].key.namespace);
}

/// By age, the row created first is on top, and one whose creation is unknown
/// below all others; reversed, it is the other way round. Rows of one age go by
/// their names.
pub proof fn ages_descend_by_age(rows: Seq<RowModel>, descending: bool, i: int, j: int)
    requires
        0 <= i < j < rows.len(),
    ensures
        ({
            let all = arranged(rows, Sort { key: SortKey::Age, descending });
            let (first, second) = if descending {
                (all[j], all[i])
            } else {
                (all[i], all[j])
            };
            &&& first.created is None ==> second.created is None
            &&& first.created is Some && second.created is Some ==> {
                let (a, b) = (first.created->0, second.created->0);
                a.secs < b.secs || (a.secs == b.secs && a.nanos <= b.nanos)
            }
            &&& first.created == second.created ==> not_after(first.key.name, second.key.name)
        }),
{
    let by = Sort { key: SortKey::Age, descending };
    let all = arranged(rows, by);
    arranging_orders_rows(rows, by);
    arranged_from(rows, by, i);
    text_order(all[i].key.name, all[j].key.name, all[i].key.name);
}

/// The natural order is the one the rows came in, and its reverse the other way
/// round: whatever rows are sorted by, a reversed order has the row on top that
/// was at the bottom, and so on down.
pub proof fn a_reversed_order_is_upside_down(rows: Seq<RowModel>, key: SortKey, i: int)
    requires
        0 <= i < rows.len(),
    ensures
        arranged(rows, Sort { key: SortKey::Namespace, descending: false }) == rows,
        arranged(rows, Sort { key, descending: true })[i] == arranged(rows, Sort { key, descending: false })[rows.len()
            - 1 - i],
{
    crate::sorting::sorting_keeps_items(rows, row_order(key));
}

/// A row of an ordered list is one of those that were put in order.
proof fn arranged_from(rows: Seq<RowModel>, by: Sort, i: int)
    requires
        0 <= i < rows.len(),
    ensures
        arranged(rows, by).len() == rows.len(),
        exists|k: int| 0 <= k < rows.len() && rows[k] == arranged(rows, by)[i],
{
    arranging_keeps_rows(rows, by, arranged(rows, by)[i]);
    arranging_keeps_rows(rows, by, rows[0]);
    assert(arranged(rows, by).contains(arranged(rows, by)[i]));
}

/// Clicking a heading sorts by its column, ascending; clicking it again turns
/// the order round; a third click goes back to namespaces and then names, and
/// clicking another heading always starts with that column ascending.
pub proof fn clicks_choose_the_order(sort: Sort, key: SortKey)
    ensures
        sort.key != key ==> clicked_sort(sort, key).key == key && !clicked_sort(sort, key).descending,
        sort.key == key && !sort.descending ==> clicked_sort(sort, key).key == key && clicked_sort(
            sort,
            key,
        ).descending,
        sort.key == key && sort.descending ==> clicked_sort(sort, key).key == SortKey::Namespace && !clicked_sort(
            sort,
            key,
        ).descending,
{
}

} // verus!
