//! Which columns a kind's table shows.

use crate::keyed::{lookup, OrdMap};
use crate::objects::{kind_label, ColumnModel, ColumnSpec, KindId};
use crate::text::{ascii_folded, chars_of, equal_ignoring_ascii_case, trim, trimmed};
use crate::value::Value;
use vstd::prelude::*;

verus! {

/// The columns the settings choose, by the label of the kind.
#[derive(Clone, Debug, PartialEq, Eq)]
pub struct Columns {
    chosen: OrdMap<String, Vec<String>>,
}

impl View for Columns {
    type V = Seq<(Seq<char>, Seq<Seq<char>>)>;

    closed spec fn view(&self) -> Seq<(Seq<char>, Seq<Seq<char>>)> {
        self.chosen@
    }
}

impl Default for Columns {
    fn default() -> (columns: Self)
        ensures
            columns.wf(),
            columns@ == Seq::<(Seq<char>, Seq<Seq<char>>)>::empty(),
    {
        Columns::new()
    }
}

impl Columns {
    /// Whether the choices are in order, one for each kind.
    pub closed spec fn wf(&self) -> bool {
        self.chosen.wf()
    }

    /// No choices.
    pub fn new() -> (columns: Self)
        ensures
            columns.wf(),
            columns@ == Seq::<(Seq<char>, Seq<Seq<char>>)>::empty(),
    {
        Columns { chosen: OrdMap::new() }
    }

    /// Chooses the columns of a kind.
    pub fn pick(&mut self, kind: &str, names: Vec<String>)
        requires
            old(self).wf(),
        ensures
            final(self).wf(),
            final(self)@ == crate::keyed::put::<String, Seq<Seq<char>>>(old(self)@, kind@, names.deep_view()),
    {
        self.chosen.put(kind.to_owned(), names);
    }

    /// The columns chosen for a kind, if any were.
    pub fn wanted(&self, kind: &String) -> (names: Option<&Vec<String>>)
        requires
            self.wf(),
        ensures
            names.deep_view() == lookup(self@, kind@),
    {
        self.chosen.get(kind)
    }
}

/// Whether a column is the one a name asks for: case and the white space
/// around the name do not matter.
pub open spec fn is_named(column: ColumnModel, name: Seq<char>) -> bool {
    ascii_folded(column.name) == ascii_folded(trimmed(name))
}

/// Where the first column that a name asks for stands.
pub open spec fn column_named(specs: Seq<ColumnModel>, name: Seq<char>) -> Option<usize>
    decreases specs.len(),
{
    if specs.len() == 0 {
        None
    } else {
        match column_named(specs.drop_last(), name) {
            Some(at) => Some(at),
            None => if is_named(specs.last(), name) {
                Some((specs.len() - 1) as usize)
            } else {
                None
            },
        }
    }
}

/// Where the columns that names ask for stand, in the order of the names;
/// names of no column are left out.
pub open spec fn columns_named(specs: Seq<ColumnModel>, names: Seq<Seq<char>>) -> Seq<usize>
    decreases names.len(),
{
    if names.len() == 0 {
        seq![]
    } else {
        let before = columns_named(specs, names.drop_last());
        match column_named(specs, names.last()) {
            Some(at) => before.push(at),
            None => before,
        }
    }
}

/// The columns to show, where a choice was made and picks any.
pub open spec fn chosen_columns(
    columns: Seq<(Seq<char>, Seq<Seq<char>>)>,
    label: Seq<char>,
    specs: Seq<ColumnModel>,
) -> Option<Seq<usize>> {
    match lookup(columns, label) {
        Some(names) => {
            let chosen = columns_named(specs, names);
            if chosen.len() > 0 {
                Some(chosen)
            } else {
                None
            }
        },
        None => None,
    }
}

proof fn named_column_exists(specs: Seq<ColumnModel>, name: Seq<char>)
    ensures
        column_named(specs, name) matches Some(at) ==> at < specs.len() && is_named(specs[at as int], name)
            || specs.len() > usize::MAX,
    decreases specs.len(),
{
    if specs.len() > 0 {
        named_column_exists(specs.drop_last(), name);
    }
}

/// Every column chosen is one of the columns there are.
pub proof fn chosen_columns_exist(specs: Seq<ColumnModel>, names: Seq<Seq<char>>, i: int)
    requires
        specs.len() <= usize::MAX,
        0 <= i < columns_named(specs, names).len(),
    ensures
        columns_named(specs, names)[i] < specs.len(),
    decreases names.len(),
{
    if names.len() > 0 {
        named_column_exists(specs, names.last());
        if i < columns_named(specs, names.drop_last()).len() {
            chosen_columns_exist(specs, names.drop_last(), i);
        }
    }
}

fn find_column(specs: &Vec<ColumnSpec>, name: &str) -> (found: Option<usize>)
    ensures
        found == column_named(specs.deep_view(), name@),
{
    let ghost all = specs.deep_view();
    let wanted: Vec<char> = trim(name);
    let mut at: usize = 0;
    while at < specs.len()
        invariant
            at <= specs.len(),
            all == specs.deep_view(),
            wanted@ == trimmed(name@),
            column_named(all.take(at as int), name@) is None,
        decreases specs.len() - at,
    {
        let heading: Vec<char> = chars_of(specs[at].name.as_str());
        assert(all.take(at + 1).drop_last() =~= all.take(at as int));
        assert(all.take(at + 1).last() == all[at as int]);
        if equal_ignoring_ascii_case(heading.as_slice(), wanted.as_slice()) {
            proof {
                first_column_stays(all, name@, at + 1);
            }
            return Some(at);
        }
        at += 1;
    }
    assert(all.take(at as int) =~= all);
    None
}

proof fn first_column_stays(specs: Seq<ColumnModel>, name: Seq<char>, at: int)
    requires
        0 <= at <= specs.len(),
        column_named(specs.take(at), name) is Some,
    ensures
        column_named(specs, name) == column_named(specs.take(at), name),
    decreases specs.len() - at,
{
    if at < specs.len() {
        assert(specs.drop_last().take(at) =~= specs.take(at));
        first_column_stays(specs.drop_last(), name, at);
    } else {
        assert(specs.take(at) =~= specs);
    }
}

/// The choice of columns, applied to what kinds offer.
#[derive(Clone, Debug, PartialEq, Eq)]
pub struct Layout(Columns);

impl View for Layout {
    type V = Seq<(Seq<char>, Seq<Seq<char>>)>;

    closed spec fn view(&self) -> Seq<(Seq<char>, Seq<Seq<char>>)> {
        self.0@
    }
}

impl Default for Layout {
    fn default() -> (layout: Self)
        ensures
            layout.wf(),
            layout@ == Seq::<(Seq<char>, Seq<Seq<char>>)>::empty(),
    {
        Layout(Columns::new())
    }
}

impl Layout {
    /// Whether the choices are in order.
    pub closed spec fn wf(&self) -> bool {
        self.0.wf()
    }

    /// A layout of the settings' choices.
    pub fn new(columns: Columns) -> (layout: Self)
        requires
            columns.wf(),
        ensures
            layout.wf(),
            layout@ == columns@,
    {
        Layout(columns)
    }

    /// Which of a kind's columns to show, by their places among all of them;
    /// nothing, if no choice was made or it picks none.
    pub fn indices(&self, kind: &KindId, specs: &Vec<ColumnSpec>) -> (chosen: Option<Vec<usize>>)
        requires
            self.wf(),
        ensures
            chosen.deep_view() == chosen_columns(self@, kind_label(kind.deep_view()), specs.deep_view()),
            chosen matches Some(indices) ==> forall|i: int| 0 <= i < indices.len() ==> indices[i] < specs.len(),
    {
        let label: String = kind.label();
        match self.0.wanted(&label) {
            Some(names) => {
                let ghost all = names.deep_view();
                let mut chosen: Vec<usize> = Vec::new();
                let mut at: usize = 0;
                assert(chosen.deep_view() =~= columns_named(specs.deep_view(), all.take(0)));
                while at < names.len()
                    invariant
                        at <= names.len(),
                        all == names.deep_view(),
                        chosen.deep_view() == columns_named(specs.deep_view(), all.take(at as int)),
                    decreases names.len() - at,
                {
                    let ghost before = chosen.deep_view();
                    assert(all.take(at + 1).drop_last() =~= all.take(at as int));
                    assert(all.take(at + 1).last() == all[at as int]);
                    if let Some(found) = find_column(specs, names[at].as_str()) {
                        chosen.push(found);
                        assert(chosen.deep_view() =~= before.push(found));
                    }
                    at += 1;
                }
                assert(all.take(at as int) =~= all);
                if chosen.len() == 0 {
                    None
                } else {
                    proof {
                        assert(specs.deep_view().len() == specs.len());
                        assert forall|i: int| 0 <= i < chosen.len() implies chosen[i] < specs.len() by {
                            chosen_columns_exist(specs.deep_view(), all, i);
                            assert(chosen.deep_view()[i] == chosen[i]);
                        }
                    }
                    Some(chosen)
                }
            },
            None => None,
        }
    }
}

/// A name in the settings picks the first column of that name, whatever the case
/// and the white space around it; a name of no column picks none. Several names
/// pick their columns in the order they are written.
pub proof fn names_pick_their_columns(
    specs: Seq<ColumnModel>,
    name: Seq<char>,
    at: int,
    first: Seq<Seq<char>>,
    rest: Seq<Seq<char>>,
)
    requires
        specs.len() <= usize::MAX,
    ensures
        0 <= at < specs.len() && ascii_folded(specs[at].name) == ascii_folded(trimmed(name)) && (forall|i: int|
            0 <= i < at ==> ascii_folded((#[trigger] specs[i]).name) != ascii_folded(trimmed(name))) ==> columns_named(
            specs,
            seq![name],
        ) == seq![at as usize],
        (forall|i: int|
            0 <= i < specs.len() ==> ascii_folded((#[trigger] specs[i]).name) != ascii_folded(trimmed(name)))
            ==> columns_named(specs, seq![name]) == Seq::<usize>::empty(),
        columns_named(specs, first + rest) == columns_named(specs, first) + columns_named(specs, rest),
{
    first_column_named(specs, name, at);
    assert(seq![name].drop_last() =~= seq![]);
    assert(columns_named(specs, seq![]) =~= seq![]);
    names_add_up(specs, first, rest);
}

proof fn first_column_named(specs: Seq<ColumnModel>, name: Seq<char>, at: int)
    requires
        specs.len() <= usize::MAX,
    ensures
        0 <= at < specs.len() && is_named(specs[at], name) && (forall|i: int|
            0 <= i < at ==> !is_named(#[trigger] specs[i], name)) ==> column_named(specs, name) == Some(at as usize),
        (forall|i: int| 0 <= i < specs.len() ==> !is_named(#[trigger] specs[i], name)) ==> column_named(specs, name)
            is None,
    decreases specs.len(),
{
    if specs.len() > 0 {
        let rest = specs.drop_last();
        first_column_named(rest, name, at);
        if forall|i: int| 0 <= i < specs.len() ==> !is_named(#[trigger] specs[i], name) {
            assert forall|i: int| 0 <= i < rest.len() implies !is_named(#[trigger] rest[i], name) by {
                assert(rest[i] == specs[i]);
            }
            assert(!is_named(specs[specs.len() - 1], name));
        }
        if 0 <= at < specs.len() && is_named(specs[at], name) && forall|i: int|
            0 <= i < at ==> !is_named(#[trigger] specs[i], name) {
            assert forall|i: int| 0 <= i < at && i < rest.len() implies !is_named(#[trigger] rest[i], name) by {
                assert(rest[i] == specs[i]);
            }
            if at < rest.len() {
                assert(rest[at] == specs[at]);
            }
        }
    }
}

proof fn names_add_up(specs: Seq<ColumnModel>, first: Seq<Seq<char>>, rest: Seq<Seq<char>>)
    ensures
        columns_named(specs, first + rest) == columns_named(specs, first) + columns_named(specs, rest),
    decreases rest.len(),
{
    let all = first + rest;
    if rest.len() > 0 {
        names_add_up(specs, first, rest.drop_last());
        assert(all.drop_last() =~= first + rest.drop_last());
        assert(all.last() == rest.last());
    } else {
        assert(all =~= first);
    }
    assert(columns_named(specs, all) =~= columns_named(specs, first) + columns_named(specs, rest));
}

/// A choice of columns holds for the kind it was made for; without one, or with
/// one that picks nothing, every column is shown.
pub proof fn a_choice_is_for_its_kind(
    columns: Seq<(Seq<char>, Seq<Seq<char>>)>,
    label: Seq<char>,
    specs: Seq<ColumnModel>,
)
    ensures
        lookup(columns, label) is None ==> chosen_columns(columns, label, specs) is None,
        lookup(columns, label) matches Some(names) ==> {
            &&& columns_named(specs, names).len() == 0 ==> chosen_columns(columns, label, specs) is None
            &&& columns_named(specs, names).len() > 0 ==> chosen_columns(columns, label, specs) == Some(
                columns_named(specs, names),
            )
        },
{
}

} // verus!
