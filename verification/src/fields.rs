//! The boxes somebody types into, and when what was typed applies.

use crate::clock::SystemTime;
use crate::console::{Lines, WorkspaceModel};
use crate::filter::{compiles, FilterModel};
use crate::palette::can_search;
use crate::rows::FiltersModel;
use crate::workspace::Workspace;
use vstd::prelude::*;

verus! {

/// A box somebody types into.
#[derive(Clone, Copy, Debug, PartialEq, Eq, Structural)]
pub enum Field {
    /// The one that narrows the rows.
    Search,
    /// The namespace.
    Namespace,
    /// The label selector.
    Selector,
    /// The one that narrows the sidebar.
    Kinds,
    /// The one that narrows the tail.
    LogFilter,
    /// The one that narrows a command's output.
    CommandFilter,
    /// The pods to tail.
    LogSelector,
    /// The container to tail.
    LogContainer,
    /// The time to jump to.
    LogTime,
    /// The palette's.
    Palette,
}

/// What the boxes hold.
#[derive(Clone, Debug, PartialEq, Eq)]
pub struct Typed {
    /// What narrows the rows.
    pub search: String,
    /// The namespace.
    pub namespace: String,
    /// The label selector.
    pub selector: String,
    /// What narrows the tail.
    pub log_filter: String,
    /// What narrows a command's output.
    pub exec_filter: String,
    /// The pods to tail.
    pub log_selector: String,
    /// The container to tail.
    pub log_container: String,
    /// The time to jump to.
    pub log_time: String,
    /// What the palette is searched for.
    pub query: String,
}

/// Whether what a box holds applies only once Enter is pressed: where it is
/// asked of the cluster, and where half of it means something else.
pub open spec fn waits_for_enter(field: Field) -> bool {
    match field {
        Field::Namespace | Field::Selector | Field::LogSelector | Field::LogContainer | Field::LogTime => true,
        _ => false,
    }
}

/// Whether what a box holds applies only once Enter is pressed.
pub fn needs_enter(field: Field) -> (waits: bool)
    ensures
        waits == waits_for_enter(field),
{
    match field {
        Field::Namespace | Field::Selector | Field::LogSelector | Field::LogContainer | Field::LogTime => true,
        _ => false,
    }
}

/// Whether a console is another one with a pane of lines narrowed by a pattern.
pub open spec fn is_narrowed(before: WorkspaceModel, after: WorkspaceModel, lines: Lines, pattern: Seq<char>) -> bool {
    match before.buffer(lines) {
        Some(buffer) => {
            let filter = FilterModel { pattern, ..buffer.filter };
            if buffer.filter == filter {
                after == before
            } else {
                &&& after.buffer(lines) is Some
                &&& compiles(filter, (after.buffer(lines)->0).matcher)
                &&& after == before.filtered(lines, filter, (after.buffer(lines)->0).matcher)
            }
        },
        None => after == before,
    }
}

/// Whether a console is what another one is after something was typed into a
/// box, or Enter pressed in it.
pub open spec fn is_after_typing(
    before: WorkspaceModel,
    after: WorkspaceModel,
    field: Field,
    entered: bool,
    typed: Typed,
    now: SystemTime,
) -> bool {
    if entered != waits_for_enter(field) {
        after == before
    } else {
        match field {
            Field::Search => after == before.with_app(
                before.app.with_filters(
                    FiltersModel { search: crate::app::typed(Some(typed.search@)), ..before.app.focused().filters },
                ),
            ),
            Field::Namespace | Field::Selector => after == before.with_server_filters(
                typed.namespace@,
                typed.selector@,
            ),
            Field::Kinds => after == before,
            Field::LogFilter => is_narrowed(before, after, Lines::Logs, typed.log_filter@),
            Field::CommandFilter => is_narrowed(before, after, Lines::Command, typed.exec_filter@),
            Field::LogSelector | Field::LogContainer => after == before.retargeted(
                typed.log_selector@,
                typed.log_container@,
            ),
            Field::LogTime => after == before.jumped(typed.log_time@, now),
            Field::Palette => after == (if can_search(before.palette, typed.query@) {
                before.with_query(typed.query@)
            } else {
                before
            }),
        }
    }
}

impl Workspace {
    /// Hears that something was typed into a box, or that Enter was pressed in
    /// it, and what all of the boxes hold.
    pub fn typed(&mut self, field: Field, entered: bool, typed: &Typed, now: SystemTime)
        requires
            old(self).wf(),
        ensures
            final(self).wf(),
            is_after_typing(old(self)@, final(self)@, field, entered, *typed, now),
    {
        if entered != needs_enter(field) {
            return;
        }
        match field {
            Field::Search => self.set_search(typed.search.clone()),
            Field::Namespace | Field::Selector => {
                self.apply_server_filters(typed.namespace.clone(), typed.selector.clone())
            },
            Field::Kinds => {},
            Field::LogFilter => self.apply_filter(Lines::Logs, typed.log_filter.clone()),
            Field::CommandFilter => self.apply_filter(Lines::Command, typed.exec_filter.clone()),
            Field::LogSelector | Field::LogContainer => {
                self.retarget_logs(typed.log_selector.as_str(), typed.log_container.as_str())
            },
            Field::LogTime => self.jump_to_time(typed.log_time.as_str(), now),
            Field::Palette => {
                let _ = self.search_palette(typed.query.as_str());
            },
        }
    }
}

/// Nothing is asked of a cluster before Enter is pressed.
pub proof fn typing_asks_nothing(
    before: WorkspaceModel,
    after: WorkspaceModel,
    field: Field,
    typed: Typed,
    now: SystemTime,
)
    requires
        is_after_typing(before, after, field, false, typed, now),
    ensures
        after.outbox == before.outbox,
{
}

} // verus!
