//! The log buffer: bounded, filtered, and fast enough to type at.
//!
//! The buffer is a ring: old lines make room and are counted. Filtering never
//! asks for the lines again, and a new line is tested as it arrives; only a new
//! filter looks at every line that is held.

use crate::clock::{earlier, SystemTime};
use crate::filter::{admits, compiles, regex_matches, regex_of, FilterModel, FilterSpec, LineFilter, MatcherModel};
use crate::keyed::{put, OrdMap};
use crate::seqs::count;
use crate::sessions::{source_label, LineModel, LogLine, LogSource, LogSourceState, LogSourceStateModel, SourceModel};
use crate::sorting::{
    consistent, in_order, sort, sorted, sorting_is_stable, sorting_keeps_items, sorting_orders, ties, Precedence,
};
use crate::text::{ascii_folded, folding_forgets_case_alone, holds, joined, lowercase, same_letter};
use crate::value::Value;
use std::collections::VecDeque;
use std::sync::Arc;
use vstd::prelude::*;
use vstd::utf8::is_ascii_chars;

verus! {

/// Lines kept per session before the oldest are dropped.
pub const DEFAULT_CAPACITY: usize = 100_000;

/// The order the visible lines are shown in.
#[derive(Clone, Copy, Debug, PartialEq, Eq, Structural)]
pub enum LogOrder {
    /// The order the lines were read in.
    Arrival,
    /// By the timestamp the line was written at; lines without one are last,
    /// in the order they were read in.
    Timestamp,
}

impl Default for LogOrder {
    fn default() -> (order: Self)
        ensures
            order == LogOrder::Arrival,
    {
        LogOrder::Arrival
    }
}

/// The numbers of the lines a filter admits, in the order they arrived: the
/// first line held has the number `first`, and each one after it the next.
pub open spec fn admitted(lines: Seq<LineModel>, first: int, matcher: MatcherModel) -> Seq<u64>
    decreases lines.len(),
{
    if lines.len() == 0 {
        seq![]
    } else {
        let before = admitted(lines.drop_last(), first, matcher);
        if admits(matcher, lines.last().text) {
            before.push((first + lines.len() - 1) as u64)
        } else {
            before
        }
    }
}

/// The timestamp of the line with a number, if it is held and has one.
pub open spec fn stamp_of(lines: Seq<LineModel>, first: int, number: u64) -> Option<SystemTime> {
    if first <= number < first + lines.len() {
        lines[number - first].timestamp
    } else {
        None
    }
}

/// Whether one timestamp comes strictly before another; none comes after any.
pub open spec fn stamp_before(a: Option<SystemTime>, b: Option<SystemTime>) -> bool {
    match (a, b) {
        (Some(a), Some(b)) => earlier(a, b),
        (Some(_), None) => true,
        _ => false,
    }
}

/// Lines by their timestamps.
pub open spec fn by_time(lines: Seq<LineModel>, first: int) -> spec_fn(u64, u64) -> bool {
    |a: u64, b: u64| stamp_before(stamp_of(lines, first, a), stamp_of(lines, first, b))
}

/// Picks the lines without a timestamp.
pub open spec fn stampless(lines: Seq<LineModel>, first: int) -> spec_fn(u64) -> bool {
    |number: u64| stamp_of(lines, first, number) is None
}

/// The text of lines: each with its source, one to a line.
pub open spec fn lines_text(lines: Seq<LineModel>) -> Seq<char>
    decreases lines.len(),
{
    if lines.len() == 0 {
        seq![]
    } else {
        lines_text(lines.drop_last()) + source_label(lines.last().source) + " "@ + lines.last().text + "\n"@
    }
}

/// Picks the sources that are streaming.
pub open spec fn streaming_sources() -> spec_fn((SourceModel, LogSourceStateModel)) -> bool {
    |entry: (SourceModel, LogSourceStateModel)| entry.1 == LogSourceStateModel::Streaming
}

/// What a [`LogBuffer`] holds.
pub struct LogModel {
    /// The lines that are held, oldest first.
    pub lines: Seq<LineModel>,
    /// How many lines were dropped to make room; the number of the first held.
    pub dropped: u64,
    /// How many lines are held at most.
    pub capacity: usize,
    /// The order the visible lines are shown in.
    pub order: LogOrder,
    /// What was typed into the filter box.
    pub filter: FilterModel,
    /// What that compiled to.
    pub matcher: MatcherModel,
    /// What every source is doing, in the order of the sources.
    pub sources: Seq<(SourceModel, LogSourceStateModel)>,
    /// Why the session failed, if it did.
    pub error: Option<Seq<char>>,
}

impl LogModel {
    /// A buffer nothing was put into.
    pub open spec fn fresh(capacity: usize) -> LogModel {
        LogModel {
            lines: seq![],
            dropped: 0,
            capacity: if capacity == 0 {
                1
            } else {
                capacity
            },
            order: LogOrder::Arrival,
            filter: FilterModel::everything(),
            matcher: MatcherModel::All,
            sources: seq![],
            error: None,
        }
    }

    /// Whether the buffer is within its bounds and its filter is the one typed.
    pub open spec fn wf(self) -> bool {
        &&& 1 <= self.capacity
        &&& self.lines.len() <= self.capacity
        &&& self.dropped + self.lines.len() <= u64::MAX
        &&& compiles(self.filter, self.matcher)
        &&& crate::keyed::ascending::<LogSource, LogSourceStateModel>(self.sources)
    }

    /// The line with a number.
    pub open spec fn line(self, number: u64) -> LineModel {
        self.lines[number - self.dropped]
    }

    /// The numbers of the visible lines, in the order they arrived.
    pub open spec fn arrived(self) -> Seq<u64> {
        admitted(self.lines, self.dropped as int, self.matcher)
    }

    /// The numbers of the visible lines, in the order they are shown.
    pub open spec fn shown(self) -> Seq<u64> {
        match self.order {
            LogOrder::Arrival => self.arrived(),
            LogOrder::Timestamp => sorted(self.arrived(), by_time(self.lines, self.dropped as int)),
        }
    }

    /// The visible lines, in the order they are shown.
    pub open spec fn shown_lines(self) -> Seq<LineModel> {
        self.shown().map_values(|number: u64| self.line(number))
    }

    /// Where the line with a number is shown, if it is.
    pub open spec fn place_of(self, number: u64) -> Option<usize> {
        if self.shown().contains(number) {
            Some((choose|i: int| 0 <= i < self.shown().len() && self.shown()[i] == number) as usize)
        } else {
            None
        }
    }

    /// With another filter, which compiled to `matcher`.
    pub open spec fn narrowed(self, filter: FilterModel, matcher: MatcherModel) -> LogModel {
        LogModel { filter, matcher, ..self }
    }

    /// How many visible lines have no timestamp to be ordered by.
    pub open spec fn untimestamped(self) -> nat {
        match self.order {
            LogOrder::Arrival => 0,
            LogOrder::Timestamp => count(self.arrived(), stampless(self.lines, self.dropped as int)),
        }
    }

    /// How many lines a batch pushes out.
    pub open spec fn pushed_out(self, batch: Seq<LineModel>) -> int {
        if self.lines.len() + batch.len() > self.capacity {
            self.lines.len() + batch.len() - self.capacity
        } else {
            0
        }
    }

    /// Whether a batch can still be numbered.
    pub open spec fn numberable(self, batch: Seq<LineModel>) -> bool {
        self.dropped + self.lines.len() + batch.len() <= u64::MAX
    }

    /// The buffer after a batch: the newest lines, as many as fit.
    pub open spec fn extended(self, batch: Seq<LineModel>) -> LogModel {
        LogModel {
            lines: (self.lines + batch).skip(self.pushed_out(batch)),
            dropped: (self.dropped + self.pushed_out(batch)) as u64,
            ..self
        }
    }

    /// The buffer with a source in a state.
    pub open spec fn with_source(self, source: SourceModel, state: LogSourceStateModel) -> LogModel {
        LogModel { sources: put::<LogSource, LogSourceStateModel>(self.sources, source, state), ..self }
    }

    /// Whether a shown line is at or after a point in time.
    pub open spec fn is_at_or_after(self, index: int, at: SystemTime) -> bool {
        match self.shown_lines()[index].timestamp {
            Some(stamp) => !earlier(stamp, at),
            None => false,
        }
    }

    /// The first shown line at or after a point in time, from a position on.
    pub open spec fn sought_from(self, at: SystemTime, index: int) -> Option<usize>
        decreases self.shown().len() - index,
    {
        if index >= self.shown().len() {
            None
        } else if self.is_at_or_after(index, at) {
            Some(index as usize)
        } else {
            self.sought_from(at, index + 1)
        }
    }

    /// The first shown line at or after a point in time.
    pub open spec fn sought(self, at: SystemTime) -> Option<usize> {
        self.sought_from(at, 0)
    }
}

// --- facts about the numbers ----------------------------------------------------

/// The numbers of admitted lines are those of lines that are held and admitted,
/// each once and in ascending order.
pub proof fn admitted_numbers(lines: Seq<LineModel>, first: int, matcher: MatcherModel)
    requires
        0 <= first,
        first + lines.len() <= u64::MAX,
    ensures
        admitted(lines, first, matcher).len() <= lines.len(),
        forall|k: int|
            0 <= k < admitted(lines, first, matcher).len() ==> {
                let number = #[trigger] admitted(lines, first, matcher)[k];
                first <= number < first + lines.len() && admits(matcher, lines[number - first].text)
            },
        forall|i: int, j: int|
            0 <= i < j < admitted(lines, first, matcher).len() ==> (#[trigger] admitted(lines, first, matcher)[i])
                < (#[trigger] admitted(lines, first, matcher)[j]),
        forall|number: u64|
            first <= number < first + lines.len() && admits(matcher, lines[number - first].text)
                ==> #[trigger] admitted(lines, first, matcher).contains(number),
    decreases lines.len(),
{
    if lines.len() > 0 {
        let rest = lines.drop_last();
        admitted_numbers(rest, first, matcher);
        let before = admitted(rest, first, matcher);
        let all = admitted(lines, first, matcher);
        let last = (first + lines.len() - 1) as u64;
        assert forall|number: u64|
            first <= number < first + lines.len() && admits(matcher, lines[number - first].text) implies
            #[trigger] all.contains(number) by {
            if number == last {
                assert(all[before.len() as int] == number);
            } else {
                assert(rest[number - first] == lines[number - first]);
                assert(before.contains(number));
                let k = choose|k: int| 0 <= k < before.len() && before[k] == number;
                assert(all[k] == number);
            }
        }
        assert forall|k: int| 0 <= k < all.len() implies {
            let number = #[trigger] all[k];
            first <= number < first + lines.len() && admits(matcher, lines[number - first].text)
        } by {
            if k < before.len() {
                assert(all[k] == before[k]);
                assert(rest[before[k] - first] == lines[before[k] - first]);
            }
        }
        assert forall|i: int, j: int| 0 <= i < j < all.len() implies (#[trigger] all[i]) < (#[trigger] all[j]) by {
            assert(all[i] == before[i]);
            if j < before.len() {
                assert(all[j] == before[j]);
            }
        }
    }
}

/// Dropping the oldest line drops its number, if it has one, and leaves the rest.
proof fn admitted_without_first(lines: Seq<LineModel>, first: int, matcher: MatcherModel)
    requires
        lines.len() > 0,
        0 <= first,
        first + lines.len() <= u64::MAX,
    ensures
        admitted(lines.drop_first(), first + 1, matcher) == (if admits(matcher, lines[0].text) {
            admitted(lines, first, matcher).drop_first()
        } else {
            admitted(lines, first, matcher)
        }),
        admits(matcher, lines[0].text) ==> admitted(lines, first, matcher).len() > 0 && admitted(
            lines,
            first,
            matcher,
        )[0] == first,
    decreases lines.len(),
{
    let rest = lines.drop_last();
    if lines.len() == 1 {
        assert(lines.drop_first() =~= Seq::empty());
        assert(rest =~= Seq::empty());
        let all = admitted(lines, first, matcher);
        assert(admitted(rest, first, matcher) =~= seq![]);
        if admits(matcher, lines[0].text) {
            assert(all =~= seq![first as u64]);
            assert(all.drop_first() =~= seq![]);
        }
    } else {
        admitted_without_first(rest, first, matcher);
        assert(lines.drop_first().drop_last() =~= rest.drop_first());
        assert(lines.drop_first().last() == lines.last());
        assert(rest[0] == lines[0]);
        let before = admitted(rest, first, matcher);
        if admits(matcher, lines.last().text) && admits(matcher, lines[0].text) {
            let last = (first + lines.len() - 1) as u64;
            assert(before.push(last).drop_first() =~= before.drop_first().push(last));
        }
    }
}

/// A timestamp order is consistent: it can be sorted by.
proof fn time_is_consistent(lines: Seq<LineModel>, first: int, numbers: Seq<u64>)
    ensures
        consistent(numbers, by_time(lines, first)),
{
}

// --- laws -----------------------------------------------------------------------

/// Picks the lines a filter admits.
pub open spec fn matching(matcher: MatcherModel) -> spec_fn(LineModel) -> bool {
    |line: LineModel| admits(matcher, line.text)
}

/// The buffer never holds more than its capacity and no less than it was given
/// if that fits, counts every line it drops, and what it holds is the newest of
/// what it was given.
pub proof fn the_ring_is_bounded(buffer: LogModel, batch: Seq<LineModel>)
    requires
        buffer.wf(),
        buffer.numberable(batch),
    ensures
        buffer.extended(batch).wf(),
        buffer.extended(batch).lines.len() == (if buffer.lines.len() + batch.len() > buffer.capacity {
            buffer.capacity as nat
        } else {
            buffer.lines.len() + batch.len()
        }),
        buffer.extended(batch).dropped + buffer.extended(batch).lines.len() == buffer.dropped + buffer.lines.len()
            + batch.len(),
        buffer.extended(batch).lines == (buffer.lines + batch).skip(
            (buffer.lines.len() + batch.len()) - buffer.extended(batch).lines.len(),
        ),
{
}

/// A line keeps its number for as long as it is held, however many lines come
/// and go.
pub proof fn numbers_never_move(buffer: LogModel, batch: Seq<LineModel>, number: u64)
    requires
        buffer.wf(),
        buffer.numberable(batch),
        buffer.dropped <= number < buffer.dropped + buffer.lines.len(),
        buffer.extended(batch).dropped <= number,
    ensures
        buffer.extended(batch).line(number) == buffer.line(number),
{
}

/// Two batches one after the other leave what one batch of both leaves.
pub proof fn batches_add_up(buffer: LogModel, first: Seq<LineModel>, second: Seq<LineModel>)
    requires
        buffer.wf(),
        buffer.numberable(first + second),
    ensures
        buffer.extended(first).extended(second) == buffer.extended(first + second),
{
    let once = buffer.extended(first + second);
    let twice = buffer.extended(first).extended(second);
    assert(twice.lines =~= once.lines);
}

/// In arrival order the lines that are shown are the lines that are held and
/// match, oldest first.
pub proof fn what_matches_is_shown(buffer: LogModel)
    requires
        buffer.wf(),
        buffer.order == LogOrder::Arrival,
    ensures
        buffer.shown_lines() == buffer.lines.filter(matching(buffer.matcher)),
{
    admitted_lines(buffer.lines, buffer.dropped as int, buffer.matcher);
    let first = buffer.dropped as int;
    admitted_numbers(buffer.lines, first, buffer.matcher);
    assert(buffer.shown_lines() =~= admitted(buffer.lines, first, buffer.matcher).map_values(
        |number: u64| buffer.lines[number - first],
    ));
}

proof fn admitted_lines(lines: Seq<LineModel>, first: int, matcher: MatcherModel)
    requires
        0 <= first,
        first + lines.len() <= u64::MAX,
    ensures
        admitted(lines, first, matcher).map_values(|number: u64| lines[number - first]) == lines.filter(
            matching(matcher),
        ),
    decreases lines.len(),
{
    let numbers = admitted(lines, first, matcher);
    let named = |number: u64| lines[number - first];
    if lines.len() > 0 {
        let (rest, last) = (lines.drop_last(), lines.last());
        let before = admitted(rest, first, matcher);
        admitted_lines(rest, first, matcher);
        admitted_numbers(rest, first, matcher);
        crate::seqs::filter_push(rest, last, matching(matcher));
        assert(rest.push(last) =~= lines);
        assert(before.map_values(named) =~= before.map_values(|number: u64| rest[number - first])) by {
            assert forall|k: int| 0 <= k < before.len() implies named(#[trigger] before[k]) == rest[before[k]
                - first] by {
                assert(rest[before[k] - first] == lines[before[k] - first]);
            }
        }
        if admits(matcher, last.text) {
            assert(numbers.map_values(named) =~= before.map_values(named).push(last));
        }
    } else {
        assert(lines =~= Seq::empty());
        assert(lines.filter(matching(matcher)) =~= Seq::empty()) by {
            reveal(Seq::filter);
        }
        assert(numbers.map_values(named) =~= Seq::empty());
    }
}

/// What was typed decides the filter, unless it is a regular expression, of
/// which only whether it compiles is left open.
pub proof fn what_was_typed_decides(filter: FilterModel, one: MatcherModel, other: MatcherModel)
    requires
        compiles(filter, one),
        compiles(filter, other),
    ensures
        !filter.regex ==> one == other,
        !(one is Invalid) && !(other is Invalid) ==> one == other,
        one is Invalid && other is Invalid ==> one == other,
{
}

/// Narrowing and adding lines can be done in either order: a line is shown by
/// the filter that is set, whenever it arrived. Nothing is dropped by it, and
/// without a filter every line that is held is back.
pub proof fn narrowing_and_adding_commute(
    buffer: LogModel,
    filter: FilterModel,
    matcher: MatcherModel,
    batch: Seq<LineModel>,
)
    requires
        buffer.wf(),
        buffer.numberable(batch),
        compiles(filter, matcher),
    ensures
        ({
            let narrowed = buffer.narrowed(filter, matcher).extended(batch);
            let added = buffer.extended(batch).narrowed(filter, matcher);
            &&& narrowed == added
            &&& narrowed.shown_lines() == added.shown_lines()
            &&& buffer.narrowed(filter, matcher).lines == buffer.lines
            &&& buffer.narrowed(filter, matcher).dropped == buffer.dropped
            &&& buffer.order == LogOrder::Arrival ==> narrowed.shown_lines() == buffer.extended(batch).lines.filter(
                matching(matcher),
            )
            &&& buffer.order == LogOrder::Arrival ==> buffer.narrowed(
                FilterModel::everything(),
                MatcherModel::All,
            ).shown_lines() == buffer.lines
        }),
{
    the_ring_is_bounded(buffer, batch);
    if buffer.order == LogOrder::Arrival {
        what_matches_is_shown(buffer.narrowed(filter, matcher).extended(batch));
        an_empty_filter_shows_everything(buffer.narrowed(FilterModel::everything(), MatcherModel::All));
    }
}

/// Filtering loses no line: whatever filter is set in between, setting the old
/// one again shows what was shown.
pub proof fn filtering_loses_nothing(buffer: LogModel, filter: FilterModel, matcher: MatcherModel)
    ensures
        ({
            let narrowed = buffer.narrowed(filter, matcher);
            narrowed.lines == buffer.lines && narrowed.narrowed(buffer.filter, buffer.matcher).shown_lines()
                == buffer.shown_lines()
        }),
{
}

/// With nothing typed into the filter box every line that is held is shown, in
/// the order it arrived.
pub proof fn an_empty_filter_shows_everything(buffer: LogModel)
    requires
        buffer.wf(),
        buffer.filter.pattern.len() == 0,
        buffer.order == LogOrder::Arrival,
    ensures
        buffer.shown_lines() == buffer.lines,
{
    everything_is_admitted(buffer.lines, buffer.dropped as int);
    assert(buffer.shown_lines() =~= buffer.lines);
}

proof fn everything_is_admitted(lines: Seq<LineModel>, first: int)
    requires
        0 <= first,
        first + lines.len() <= u64::MAX,
    ensures
        admitted(lines, first, MatcherModel::All).len() == lines.len(),
        forall|k: int|
            0 <= k < lines.len() ==> #[trigger] admitted(lines, first, MatcherModel::All)[k] == first + k,
    decreases lines.len(),
{
    if lines.len() > 0 {
        everything_is_admitted(lines.drop_last(), first);
    }
}

/// In timestamp order the lines that are shown are those that would be shown
/// in arrival order, none of them before an earlier one, and lines that do not
/// differ in time - those without a timestamp among them - in the order they
/// arrived. A line with a timestamp is before every line without one.
pub proof fn timestamp_order_is_sound(buffer: LogModel, number: u64)
    requires
        buffer.wf(),
        buffer.order == LogOrder::Timestamp,
    ensures
        ({
            let before = by_time(buffer.lines, buffer.dropped as int);
            &&& buffer.shown().to_multiset() == buffer.arrived().to_multiset()
            &&& in_order(buffer.shown(), before)
            &&& buffer.arrived().contains(number) ==> ties(buffer.shown(), number, before) == ties(
                buffer.arrived(),
                number,
                before,
            )
        }),
        forall|i: int, j: int|
            0 <= i < j < buffer.shown().len() && stamp_of(
                buffer.lines,
                buffer.dropped as int,
                #[trigger] buffer.shown()[i],
            ) is None ==> stamp_of(buffer.lines, buffer.dropped as int, #[trigger] buffer.shown()[j]) is None,
{
    let before = by_time(buffer.lines, buffer.dropped as int);
    time_is_consistent(buffer.lines, buffer.dropped as int, buffer.arrived());
    sorting_keeps_items(buffer.arrived(), before);
    sorting_orders(buffer.arrived(), before);
    if buffer.arrived().contains(number) {
        sorting_is_stable(buffer.arrived(), number, before);
    }
    assert forall|i: int, j: int|
        0 <= i < j < buffer.shown().len() && stamp_of(
            buffer.lines,
            buffer.dropped as int,
            #[trigger] buffer.shown()[i],
        ) is None implies stamp_of(buffer.lines, buffer.dropped as int, #[trigger] buffer.shown()[j]) is None by {
        assert(!before(buffer.shown()[j], buffer.shown()[i]));
    }
}

/// Every shown number is the number of a line that is held, and no two
/// positions show the same one.
pub proof fn shown_numbers(buffer: LogModel)
    requires
        buffer.wf(),
    ensures
        buffer.shown().len() == buffer.arrived().len(),
        buffer.shown().len() <= buffer.lines.len(),
        forall|k: int|
            0 <= k < buffer.shown().len() ==> buffer.dropped <= (#[trigger] buffer.shown()[k]) < buffer.dropped
                + buffer.lines.len(),
        forall|i: int, j: int|
            0 <= i < j < buffer.shown().len() ==> (#[trigger] buffer.shown()[i]) != (#[trigger] buffer.shown()[j]),
        forall|number: u64| #[trigger] buffer.shown().contains(number) <==> buffer.arrived().contains(number),
{
    let first = buffer.dropped as int;
    let arrived = buffer.arrived();
    let shown = buffer.shown();
    admitted_numbers(buffer.lines, first, buffer.matcher);
    let before = by_time(buffer.lines, first);
    sorting_keeps_items(arrived, before);
    assert forall|number: u64| #[trigger] shown.contains(number) <==> arrived.contains(number) by {
        crate::sorting::sorting_keeps_membership(arrived, before, number);
    }
    assert forall|k: int| 0 <= k < shown.len() implies buffer.dropped <= (#[trigger] shown[k]) < buffer.dropped
        + buffer.lines.len() by {
        assert(shown.contains(shown[k]));
        let i = choose|i: int| 0 <= i < arrived.len() && arrived[i] == shown[k];
        assert(first <= arrived[i] < first + buffer.lines.len());
    }
    assert(arrived.no_duplicates());
    arrived.lemma_multiset_has_no_duplicates();
    if buffer.order == LogOrder::Timestamp {
        assert(shown.to_multiset() == arrived.to_multiset());
        shown.lemma_multiset_has_no_duplicates_conv();
    }
    assert(shown.no_duplicates());
}

/// A jump lands on a line at or after the time asked for, and every line shown
/// before it is not; where it lands nowhere, none is.
pub proof fn jumps_land_on_the_first_line(buffer: LogModel, at: SystemTime, index: int)
    requires
        0 <= index < buffer.shown().len(),
        buffer.shown().len() <= usize::MAX,
    ensures
        buffer.sought(at) is None ==> !buffer.is_at_or_after(index, at),
        buffer.sought(at) matches Some(found) ==> found < buffer.shown().len() && buffer.is_at_or_after(
            found as int,
            at,
        ) && (index < found ==> !buffer.is_at_or_after(index, at)),
{
    jumps_land_from(buffer, at, 0, index);
}

proof fn jumps_land_from(buffer: LogModel, at: SystemTime, from: int, index: int)
    requires
        0 <= from,
        buffer.shown().len() <= usize::MAX,
    ensures
        buffer.sought_from(at, from) is None && from <= index < buffer.shown().len() ==> !buffer.is_at_or_after(
            index,
            at,
        ),
        buffer.sought_from(at, from) matches Some(found) ==> from <= found < buffer.shown().len()
            && buffer.is_at_or_after(found as int, at) && (from <= index < found ==> !buffer.is_at_or_after(
            index,
            at,
        )),
    decreases buffer.shown().len() - from,
{
    if from < buffer.shown().len() && !buffer.is_at_or_after(from, at) {
        jumps_land_from(buffer, at, from + 1, index);
    }
}

/// The line shown at a position is found again by its number.
pub proof fn numbers_lead_back(buffer: LogModel, index: int, other: int)
    requires
        buffer.wf(),
        0 <= index < buffer.shown().len(),
        0 <= other < buffer.shown().len(),
        buffer.shown()[other] == buffer.shown()[index],
    ensures
        other == index,
{
    shown_numbers(buffer);
}

/// The number of a shown line leads to the place it is shown at, and after more
/// lines came, in either order, to the same line wherever that is shown by
/// then; to nothing, once the line is dropped.
pub proof fn numbers_keep_naming_their_lines(buffer: LogModel, batch: Seq<LineModel>, index: int)
    requires
        buffer.wf(),
        buffer.numberable(batch),
        0 <= index < buffer.shown().len(),
    ensures
        ({
            let number = buffer.shown()[index];
            let after = buffer.extended(batch);
            &&& buffer.place_of(number) == Some(index as usize)
            &&& number < after.dropped ==> after.place_of(number) is None
            &&& number >= after.dropped ==> {
                &&& after.place_of(number) matches Some(place) && place < after.shown().len()
                &&& after.shown_lines()[after.place_of(number)->0 as int] == buffer.shown_lines()[index]
            }
        }),
{
    let number = buffer.shown()[index];
    let after = buffer.extended(batch);
    the_ring_is_bounded(buffer, batch);
    shown_numbers(buffer);
    shown_numbers(after);
    shown_places(buffer, number);
    assert(buffer.shown().contains(number));
    admitted_numbers(buffer.lines, buffer.dropped as int, buffer.matcher);
    admitted_numbers(after.lines, after.dropped as int, after.matcher);
    if number >= after.dropped {
        numbers_never_move(buffer, batch, number);
        assert(buffer.arrived().contains(number));
        let k = choose|k: int| 0 <= k < buffer.arrived().len() && buffer.arrived()[k] == number;
        assert(admits(buffer.matcher, buffer.line(number).text));
        assert(after.arrived().contains(number));
        assert(after.shown().contains(number));
        shown_places(after, number);
    } else if after.shown().contains(number) {
        let k = choose|k: int| 0 <= k < after.shown().len() && after.shown()[k] == number;
        assert(after.dropped <= after.shown()[k]);
    }
}

/// The place of a number is the one position that shows it.
proof fn shown_places(buffer: LogModel, number: u64)
    requires
        buffer.wf(),
        buffer.shown().contains(number),
    ensures
        buffer.place_of(number) matches Some(place) && place < buffer.shown().len() && buffer.shown()[place as int]
            == number,
        forall|i: int|
            0 <= i < buffer.shown().len() && (#[trigger] buffer.shown()[i]) == number ==> buffer.place_of(number)
                == Some(i as usize),
{
    shown_numbers(buffer);
    let place = choose|i: int| 0 <= i < buffer.shown().len() && buffer.shown()[i] == number;
    assert(place <= buffer.capacity);
}

/// Two ascending runs of numbers with the same members are the same.
proof fn members_decide(a: Seq<u64>, b: Seq<u64>)
    requires
        forall|i: int, j: int| 0 <= i < j < a.len() ==> (#[trigger] a[i]) < (#[trigger] a[j]),
        forall|i: int, j: int| 0 <= i < j < b.len() ==> (#[trigger] b[i]) < (#[trigger] b[j]),
        forall|number: u64| #[trigger] a.contains(number) <==> b.contains(number),
    ensures
        a == b,
    decreases a.len(),
{
    if a.len() == 0 {
        if b.len() > 0 {
            assert(b.contains(b[0]));
            assert(a.contains(b[0]));
        }
        assert(a =~= b);
    } else {
        assert(a.contains(a.last()));
        assert(b.contains(a.last()));
        let k = choose|k: int| 0 <= k < b.len() && b[k] == a.last();
        assert(b.contains(b.last()));
        assert(a.contains(b.last()));
        let m = choose|m: int| 0 <= m < a.len() && a[m] == b.last();
        assert(a.last() == b.last()) by {
            if k < b.len() - 1 {
                assert(b[k] < b[b.len() - 1]);
            }
            if m < a.len() - 1 {
                assert(a[m] < a[a.len() - 1]);
            }
        }
        let (c, d) = (a.drop_last(), b.drop_last());
        assert forall|number: u64| #[trigger] c.contains(number) <==> d.contains(number) by {
            if c.contains(number) {
                let i = choose|i: int| 0 <= i < c.len() && c[i] == number;
                assert(a[i] == number);
                assert(a.contains(number));
                assert(b.contains(number));
                let j = choose|j: int| 0 <= j < b.len() && b[j] == number;
                assert(a[i] < a[a.len() - 1]);
                assert(d[j] == number);
            }
            if d.contains(number) {
                let i = choose|i: int| 0 <= i < d.len() && d[i] == number;
                assert(b[i] == number);
                assert(b.contains(number));
                assert(a.contains(number));
                let j = choose|j: int| 0 <= j < a.len() && a[j] == number;
                assert(b[i] < b[b.len() - 1]);
                assert(c[j] == number);
            }
        }
        members_decide(c, d);
        assert(a =~= c.push(a.last()));
        assert(b =~= d.push(b.last()));
    }
}

/// Two filters show the same exactly if they admit the same lines.
proof fn shown_decides(buffer: LogModel, other: LogModel)
    requires
        buffer.wf(),
        other.wf(),
        other == buffer.narrowed(other.filter, other.matcher),
    ensures
        buffer.shown() == other.shown() <==> buffer.arrived() == other.arrived(),
{
    if buffer.shown() == other.shown() {
        shown_numbers(buffer);
        shown_numbers(other);
        admitted_numbers(buffer.lines, buffer.dropped as int, buffer.matcher);
        admitted_numbers(other.lines, other.dropped as int, other.matcher);
        assert forall|number: u64| #[trigger] buffer.arrived().contains(number) <==> other.arrived().contains(
            number,
        ) by {
            assert(buffer.shown().contains(number) <==> other.shown().contains(number));
        }
        members_decide(buffer.arrived(), other.arrived());
    }
}

fn same_numbers(a: &VecDeque<u64>, b: &VecDeque<u64>) -> (equal: bool)
    ensures
        equal == (a@ == b@),
{
    if a.len() != b.len() {
        return false;
    }
    let mut at: usize = 0;
    while at < a.len()
        invariant
            at <= a.len(),
            a@.len() == b@.len(),
            forall|i: int| 0 <= i < at ==> a@[i] == b@[i],
        decreases a.len() - at,
    {
        if a[at] != b[at] {
            return false;
        }
        at += 1;
    }
    assert(a@ =~= b@);
    true
}

// --- the buffer -----------------------------------------------------------------

struct ByTime<'a> {
    lines: &'a VecDeque<Arc<LogLine>>,
    first: u64,
}

impl<'a> ByTime<'a> {
    fn stamp(&self, number: u64) -> (stamp: Option<SystemTime>)
        ensures
            stamp == stamp_of(self.lines.deep_view(), self.first as int, number),
    {
        if number < self.first {
            return None;
        }
        let offset: u64 = number - self.first;
        if offset < self.lines.len() as u64 {
            let at: usize = offset as usize;
            assert(self.lines.deep_view()[at as int] == self.lines@[at as int].deep_view());
            self.lines[at].timestamp
        } else {
            None
        }
    }
}

impl<'a> Precedence<u64> for ByTime<'a> {
    closed spec fn rel(&self) -> spec_fn(u64, u64) -> bool {
        by_time(self.lines.deep_view(), self.first as int)
    }

    fn before(&self, left: &u64, right: &u64) -> (first: bool) {
        match (self.stamp(*left), self.stamp(*right)) {
            (Some(a), Some(b)) => a.is_earlier(b),
            (Some(_), None) => true,
            _ => false,
        }
    }
}

/// Everything one log session holds.
#[derive(Debug)]
pub struct LogBuffer {
    lines: VecDeque<Arc<LogLine>>,
    /// The number of the first line held.
    first: u64,
    /// The numbers of the lines the filter admits, in the order they arrived.
    visible: VecDeque<u64>,
    /// The same numbers in timestamp order; empty in arrival order.
    sorted: Vec<u64>,
    order: LogOrder,
    untimestamped: usize,
    capacity: usize,
    dropped: u64,
    spec: FilterSpec,
    matcher: LineFilter,
    sources: OrdMap<LogSource, LogSourceState>,
    error: Option<String>,
    /// The visible lines as they were last handed out.
    snapshot: Arc<Vec<Arc<LogLine>>>,
    /// Whether `snapshot` is behind the buffer.
    restale: bool,
}

impl View for LogBuffer {
    type V = LogModel;

    closed spec fn view(&self) -> LogModel {
        LogModel {
            lines: self.lines.deep_view(),
            dropped: self.dropped,
            capacity: self.capacity,
            order: self.order,
            filter: self.spec.deep_view(),
            matcher: self.matcher@,
            sources: self.sources@,
            error: self.error.deep_view(),
        }
    }
}

impl Default for LogBuffer {
    fn default() -> (buffer: Self)
        ensures
            buffer.wf(),
            buffer@ == LogModel::fresh(DEFAULT_CAPACITY),
    {
        LogBuffer::new(DEFAULT_CAPACITY)
    }
}

impl LogBuffer {
    /// What holds whenever nobody is in the middle of changing the lines.
    spec fn numbered(&self) -> bool {
        &&& self@.wf()
        &&& self.first == self.dropped
        &&& self.visible@ == self@.arrived()
    }

    /// Whether everything that is kept beside the lines agrees with them.
    pub closed spec fn wf(&self) -> bool {
        &&& self.numbered()
        &&& self.order == LogOrder::Timestamp ==> self.sorted@ == self@.shown()
        &&& self.untimestamped == self@.untimestamped()
        &&& !self.restale ==> self.snapshot.deep_view() == self@.shown_lines()
    }

    /// What is well-formed is well-formed in what it holds.
    pub proof fn wf_model(&self)
        requires
            self.wf(),
        ensures
            self@.wf(),
    {
    }

    /// A buffer holding at most `capacity` lines, and at least one.
    pub fn new(capacity: usize) -> (buffer: Self)
        ensures
            buffer.wf(),
            buffer@ == LogModel::fresh(capacity),
    {
        let buffer: LogBuffer = LogBuffer {
            lines: VecDeque::new(),
            first: 0,
            visible: VecDeque::new(),
            sorted: Vec::new(),
            order: LogOrder::Arrival,
            untimestamped: 0,
            capacity: if capacity == 0 {
                1
            } else {
                capacity
            },
            dropped: 0,
            spec: FilterSpec::default(),
            matcher: LineFilter::All,
            sources: OrdMap::new(),
            error: None,
            snapshot: Arc::new(Vec::new()),
            restale: false,
        };
        assert(buffer@.lines =~= seq![]);
        assert(buffer.visible@ =~= seq![]);
        assert(buffer.snapshot.deep_view() =~= buffer@.shown_lines());
        buffer
    }

    /// An empty buffer, read through the filter this one was read through.
    pub fn emptied(self, capacity: usize) -> (buffer: Self)
        requires
            self.wf(),
        ensures
            buffer.wf(),
            buffer@ == (LogModel {
                filter: self@.filter,
                matcher: self@.matcher,
                ..LogModel::fresh(capacity)
            }),
    {
        let mut buffer: LogBuffer = LogBuffer::new(capacity);
        assert(buffer@.shown_lines() =~= seq![]);
        buffer.spec = self.spec;
        buffer.matcher = self.matcher;
        assert(buffer@.shown_lines() =~= seq![]);
        buffer
    }

    /// Appends a batch, dropping the oldest lines once there is no more room.
    pub fn extend(&mut self, batch: &Vec<LogLine>)
        requires
            old(self).wf(),
            old(self)@.numberable(batch.deep_view()),
        ensures
            final(self).wf(),
            final(self)@ == old(self)@.extended(batch.deep_view()),
    {
        let ghost all = batch.deep_view();
        let ghost before = self@;
        let mut at: usize = 0;
        assert(all.take(0) =~= seq![]);
        assert(before.lines + all.take(0) =~= before.lines);
        assert(before.extended(all.take(0)).lines =~= before.lines);
        while at < batch.len()
            invariant
                at <= batch.len(),
                all == batch.deep_view(),
                before == old(self)@,
                before.wf(),
                before.numberable(all),
                self.numbered(),
                self@ == before.extended(all.take(at as int)),
            decreases batch.len() - at,
        {
            let ghost held = self@;
            let ghost line = all[at as int];
            let number: u64 = self.first + self.lines.len() as u64;
            if self.matcher.matches(&batch[at]) {
                self.visible.push_back(number);
            }
            self.lines.push_back(Arc::new(batch[at].dup()));
            assert(self.lines.deep_view() =~= held.lines.push(line));
            assert(held.lines.push(line).drop_last() =~= held.lines);
            assert(self.visible@ =~= admitted(held.lines.push(line), held.dropped as int, held.matcher));
            self.evict();
            proof {
                let grown = all.take(at + 1);
                assert(grown =~= all.take(at as int).push(line));
                assert(before.lines + grown =~= (before.lines + all.take(at as int)).push(line));
                assert(self@.lines =~= before.extended(grown).lines);
            }
            at += 1;
        }
        assert(all.take(at as int) =~= all);
        self.reorder();
    }

    /// Drops the oldest line if there is one too many.
    fn evict(&mut self)
        requires
            old(self).capacity >= 1,
            old(self)@.lines.len() <= old(self).capacity + 1,
            old(self)@.dropped + old(self)@.lines.len() <= u64::MAX,
            old(self).first == old(self).dropped,
            old(self).visible@ == old(self)@.arrived(),
            compiles(old(self)@.filter, old(self)@.matcher),
            crate::keyed::ascending::<LogSource, LogSourceStateModel>(old(self)@.sources),
        ensures
            final(self).numbered(),
            final(self)@ == (if old(self)@.lines.len() > old(self).capacity {
                LogModel {
                    lines: old(self)@.lines.drop_first(),
                    dropped: (old(self)@.dropped + 1) as u64,
                    ..old(self)@
                }
            } else {
                old(self)@
            }),
    {
        if self.lines.len() > self.capacity {
            let ghost lines = self@.lines;
            let ghost first = self.first as int;
            let ghost visible = self.visible@;
            proof {
                admitted_without_first(lines, first, self.matcher@);
                admitted_numbers(lines, first, self.matcher@);
            }
            let _ = self.lines.pop_front();
            assert(self.lines.deep_view() =~= lines.drop_first());
            self.first = self.first + 1;
            self.dropped = self.dropped + 1;
            if self.visible.len() > 0 && self.visible[0] < self.first {
                assert(visible[0] == first);
                let _ = self.visible.pop_front();
                proof {
                    assert(self.visible@ =~= visible.drop_first());
                    assert(admits(self.matcher@, lines[visible[0] - first].text));
                }
            } else {
                proof {
                    if admits(self.matcher@, lines[0].text) {
                        assert(visible[0] == first);
                    }
                }
            }
        }
    }

    /// Replaces the filter, testing everything that is held against it, and
    /// reports whether other lines are visible now.
    pub fn set_filter(&mut self, spec: FilterSpec) -> (changed: bool)
        requires
            old(self).wf(),
        ensures
            final(self).wf(),
            spec.deep_view() == old(self)@.filter ==> final(self)@ == old(self)@,
            spec.deep_view() != old(self)@.filter ==> compiles(spec.deep_view(), final(self)@.matcher) && final(self)@
                == old(self)@.narrowed(spec.deep_view(), final(self)@.matcher),
            changed == (final(self)@.shown() != old(self)@.shown()),
    {
        if spec.same(&self.spec) {
            return false;
        }
        self.matcher = LineFilter::compile(&spec);
        self.spec = spec;
        let mut visible: VecDeque<u64> = VecDeque::new();
        std::mem::swap(&mut visible, &mut self.visible);
        self.rescan();
        proof {
            shown_decides(old(self)@, self@);
        }
        !same_numbers(&visible, &self.visible)
    }

    /// Tests every line that is held against the filter.
    fn rescan(&mut self)
        requires
            old(self)@.wf(),
            old(self).first == old(self).dropped,
        ensures
            final(self).wf(),
            final(self)@ == old(self)@,
    {
        self.visible.clear();
        let ghost lines = self@.lines;
        let ghost first = self.first as int;
        let mut at: usize = 0;
        assert(lines.take(0) =~= seq![]);
        assert(self.visible@ =~= seq![]);
        while at < self.lines.len()
            invariant
                at <= self.lines.len(),
                self@ == old(self)@,
                self@.wf(),
                self.first == self.dropped,
                lines == self@.lines,
                first == self.first,
                self.visible@ == admitted(lines.take(at as int), first, self.matcher@),
            decreases self.lines.len() - at,
        {
            assert(lines.take(at + 1).drop_last() =~= lines.take(at as int));
            assert(lines.take(at + 1).last() == lines[at as int]);
            assert(lines[at as int] == self.lines@[at as int].deep_view());
            if self.matcher.matches(&self.lines[at]) {
                self.visible.push_back(self.first + at as u64);
            }
            at += 1;
        }
        assert(lines.take(at as int) =~= lines);
        self.reorder();
    }

    /// Shows the lines in a different order, reporting whether it is one.
    pub fn set_order(&mut self, order: LogOrder) -> (changed: bool)
        requires
            old(self).wf(),
        ensures
            final(self).wf(),
            changed == (order != old(self)@.order),
            final(self)@ == (LogModel { order, ..old(self)@ }),
    {
        if order == self.order {
            return false;
        }
        self.order = order;
        self.reorder();
        true
    }

    /// The order the visible lines are shown in.
    pub fn order(&self) -> (order: LogOrder)
        ensures
            order == self@.order,
    {
        self.order
    }

    /// How many visible lines have no timestamp to be ordered by. None, in
    /// arrival order, where the question does not arise.
    pub fn untimestamped(&self) -> (lines: usize)
        requires
            self.wf(),
        ensures
            lines == self@.untimestamped(),
    {
        self.untimestamped
    }

    /// Brings the timestamp order up to date with the visible lines.
    fn reorder(&mut self)
        requires
            old(self).numbered(),
        ensures
            final(self).wf(),
            final(self)@ == old(self)@,
    {
        self.restale = true;
        self.untimestamped = 0;
        self.sorted = Vec::new();
        if self.order == LogOrder::Timestamp {
            let ghost lines = self@.lines;
            let ghost first = self.first as int;
            let ghost none = stampless(lines, first);
            let ghost arrived = self.visible@;
            let mut numbers: Vec<u64> = Vec::new();
            let mut stamps_missing: usize = 0;
            let order: ByTime = ByTime { lines: &self.lines, first: self.first };
            let mut at: usize = 0;
            assert(arrived.take(0) =~= seq![]);
            assert(arrived.take(0).filter(none).len() == 0) by {
                reveal(Seq::filter);
            }
            while at < self.visible.len()
                invariant
                    at <= self.visible.len(),
                    arrived == self.visible@,
                    order.lines.deep_view() == lines,
                    order.first == first,
                    none == stampless(lines, first),
                    numbers@ == arrived.take(at as int),
                    stamps_missing <= at,
                    stamps_missing == count(arrived.take(at as int), none),
                decreases self.visible.len() - at,
            {
                let number: u64 = self.visible[at];
                proof {
                    crate::seqs::filter_push(arrived.take(at as int), number, none);
                    assert(arrived.take(at + 1) =~= arrived.take(at as int).push(number));
                }
                if order.stamp(number).is_none() {
                    stamps_missing += 1;
                }
                numbers.push(number);
                at += 1;
            }
            assert(arrived.take(at as int) =~= arrived);
            let arranged: Vec<u64> = sort(&numbers, &order);
            assert(numbers.deep_view() =~= arrived);
            assert(arranged.deep_view() =~= arranged@);
            self.sorted = arranged;
            self.untimestamped = stamps_missing;
        }
    }

    /// The filter that is applied.
    pub fn filter(&self) -> (spec: &FilterSpec)
        ensures
            spec.deep_view() == self@.filter,
    {
        &self.spec
    }

    /// Why the filter cannot be used, if it cannot.
    pub fn filter_error(&self) -> (reason: Option<&str>)
        ensures
            reason.deep_view() == (match self@.matcher {
                MatcherModel::Invalid(message) => Some(message),
                _ => None,
            }),
    {
        self.matcher.error()
    }

    /// The number of the line shown at a position.
    pub fn sequence_at(&self, index: usize) -> (number: Option<u64>)
        requires
            self.wf(),
        ensures
            number == (if index < self@.shown().len() {
                Some(self@.shown()[index as int])
            } else {
                None
            }),
    {
        match self.order {
            LogOrder::Arrival => if index < self.visible.len() {
                Some(self.visible[index])
            } else {
                None
            },
            LogOrder::Timestamp => if index < self.sorted.len() {
                Some(self.sorted[index])
            } else {
                None
            },
        }
    }

    /// Where the line with a number is shown now, if it still is.
    pub fn index_of(&self, sequence: u64) -> (index: Option<usize>)
        requires
            self.wf(),
        ensures
            index == self@.place_of(sequence),
            index is Some <==> self@.shown().contains(sequence),
            index matches Some(at) ==> at < self@.shown().len() && self@.shown()[at as int] == sequence,
    {
        proof {
            if self@.shown().contains(sequence) {
                shown_places(self@, sequence);
            }
        }
        match self.order {
            LogOrder::Arrival => {
                proof {
                    admitted_numbers(self@.lines, self.first as int, self.matcher@);
                }
                let mut low: usize = 0;
                let mut high: usize = self.visible.len();
                while low < high
                    invariant
                        low <= high <= self.visible.len(),
                        forall|i: int, j: int|
                            0 <= i < j < self.visible@.len() ==> (#[trigger] self.visible@[i])
                                < (#[trigger] self.visible@[j]),
                        forall|i: int| 0 <= i < low ==> (#[trigger] self.visible@[i]) < sequence,
                        forall|i: int| high <= i < self.visible@.len() ==> (#[trigger] self.visible@[i]) >= sequence,
                    decreases high - low,
                {
                    let middle: usize = low + (high - low) / 2;
                    if self.visible[middle] < sequence {
                        low = middle + 1;
                    } else {
                        high = middle;
                    }
                }
                if low < self.visible.len() && self.visible[low] == sequence {
                    assert(self@.shown()[low as int] == sequence);
                    Some(low)
                } else {
                    proof {
                        if self@.shown().contains(sequence) {
                            let k = choose|k: int| 0 <= k < self.visible@.len() && self.visible@[k] == sequence;
                            if k > low {
                                assert(self.visible@[low as int] < self.visible@[k]);
                            }
                        }
                    }
                    None
                }
            },
            LogOrder::Timestamp => {
                let mut at: usize = 0;
                while at < self.sorted.len()
                    invariant
                        at <= self.sorted.len(),
                        self@.wf(),
                        self.sorted@ == self@.shown(),
                        forall|i: int| 0 <= i < at ==> (#[trigger] self.sorted@[i]) != sequence,
                    decreases self.sorted.len() - at,
                {
                    if self.sorted[at] == sequence {
                        proof {
                            assert(self@.shown()[at as int] == sequence);
                            shown_places(self@, sequence);
                        }
                        return Some(at);
                    }
                    at += 1;
                }
                None
            },
        }
    }

    /// The line shown at a position.
    pub fn visible_line(&self, index: usize) -> (line: Option<&Arc<LogLine>>)
        requires
            self.wf(),
        ensures
            line.deep_view() == (if index < self@.shown().len() {
                Some(self@.shown_lines()[index as int])
            } else {
                None
            }),
    {
        match self.sequence_at(index) {
            Some(number) => {
                proof {
                    shown_numbers(self@);
                    assert(self@.shown()[index as int] == number);
                }
                let at: usize = (number - self.first) as usize;
                assert(self.lines.deep_view()[at as int] == self.lines@[at as int].deep_view());
                Some(&self.lines[at])
            },
            None => None,
        }
    }

    /// Every visible line, in the order they are shown.
    pub fn visible(&self) -> (lines: Vec<Arc<LogLine>>)
        requires
            self.wf(),
        ensures
            lines.deep_view() == self@.shown_lines(),
    {
        let ghost all = self@.shown_lines();
        let mut lines: Vec<Arc<LogLine>> = Vec::new();
        let mut at: usize = 0;
        let len: usize = self.visible_len();
        while at < len
            invariant
                at <= len,
                self.wf(),
                all == self@.shown_lines(),
                len == self@.shown().len(),
                lines.deep_view() == all.take(at as int),
            decreases len - at,
        {
            let ghost before = lines.deep_view();
            if let Some(line) = self.visible_line(at) {
                lines.push(Arc::clone(line));
                assert(lines.deep_view() =~= before.push(all[at as int]));
            }
            assert(all.take(at + 1) =~= before.push(all[at as int]));
            at += 1;
        }
        assert(all.take(at as int) =~= all);
        lines
    }

    /// The visible lines, in the order they are shown, shared: what is handed
    /// out is made anew only when the lines or their order changed.
    pub fn visible_lines(&mut self) -> (lines: Arc<Vec<Arc<LogLine>>>)
        requires
            old(self).wf(),
        ensures
            final(self).wf(),
            final(self)@ == old(self)@,
            lines.deep_view() == old(self)@.shown_lines(),
    {
        if self.restale {
            self.snapshot = Arc::new(self.visible());
            self.restale = false;
        }
        Arc::clone(&self.snapshot)
    }

    /// How many lines are visible.
    pub fn visible_len(&self) -> (len: usize)
        requires
            self.wf(),
        ensures
            len == self@.shown().len(),
            len == self@.arrived().len(),
    {
        proof {
            shown_numbers(self@);
        }
        self.visible.len()
    }

    /// How many lines are held.
    pub fn len(&self) -> (len: usize)
        ensures
            len == self@.lines.len(),
    {
        self.lines.len()
    }

    /// Whether no line is held.
    pub fn is_empty(&self) -> (empty: bool)
        ensures
            empty == (self@.lines.len() == 0),
    {
        self.lines.len() == 0
    }

    /// How many lines were dropped to make room.
    pub fn dropped(&self) -> (dropped: u64)
        ensures
            dropped == self@.dropped,
    {
        self.dropped
    }

    /// The position of the first shown line at or after a point in time.
    pub fn seek(&self, at: SystemTime) -> (index: Option<usize>)
        requires
            self.wf(),
        ensures
            index == self@.sought(at),
            index matches Some(index) ==> index < self@.shown().len(),
    {
        let mut index: usize = 0;
        let len: usize = self.visible_len();
        while index < len
            invariant
                index <= len,
                self.wf(),
                len == self@.shown().len(),
                self@.sought(at) == self@.sought_from(at, index as int),
            decreases len - index,
        {
            if let Some(line) = self.visible_line(index) {
                assert(line.deep_view() == self@.shown_lines()[index as int]);
                if let Some(stamp) = line.timestamp {
                    if !stamp.is_earlier(at) {
                        return Some(index);
                    }
                }
            }
            index += 1;
        }
        None
    }

    /// Records what a source is doing.
    pub fn source_changed(&mut self, source: LogSource, state: LogSourceState)
        requires
            old(self).wf(),
        ensures
            final(self).wf(),
            final(self)@ == old(self)@.with_source(source.deep_view(), state.deep_view()),
    {
        self.sources.put(source, state);
        proof {
            assert(self@.arrived() == old(self)@.arrived());
            assert(self@.shown() == old(self)@.shown());
            assert(self@.shown_lines() =~= old(self)@.shown_lines());
        }
    }

    /// What every source is doing, in the order of the sources.
    pub fn sources(&self) -> (sources: Vec<(&LogSource, &LogSourceState)>)
        ensures
            sources.deep_view() == self@.sources,
    {
        let mut sources: Vec<(&LogSource, &LogSourceState)> = Vec::new();
        let mut at: usize = 0;
        while at < self.sources.len()
            invariant
                at <= self.sources@.len(),
                sources.deep_view() == self.sources@.take(at as int),
            decreases self.sources@.len() - at,
        {
            let ghost before = sources.deep_view();
            sources.push((self.sources.key_at(at), self.sources.value_at(at)));
            at += 1;
            assert(sources.deep_view() =~= before.push(self.sources@[at - 1]));
            assert(self.sources@.take(at as int) =~= before.push(self.sources@[at - 1]));
        }
        assert(self.sources@.take(at as int) =~= self.sources@);
        sources
    }

    /// How many sources there are.
    pub fn source_count(&self) -> (sources: usize)
        ensures
            sources == self@.sources.len(),
    {
        self.sources.len()
    }

    /// How many sources are streaming.
    pub fn streaming(&self) -> (streaming: usize)
        ensures
            streaming == count(self@.sources, streaming_sources()),
    {
        let ghost all = self.sources@;
        let mut streaming: usize = 0;
        let mut at: usize = 0;
        assert(all.take(0) =~= seq![]);
        assert(all.take(0).filter(streaming_sources()).len() == 0) by {
            reveal(Seq::filter);
        }
        while at < self.sources.len()
            invariant
                at <= self.sources@.len(),
                all == self.sources@,
                streaming <= at,
                streaming == count(all.take(at as int), streaming_sources()),
            decreases self.sources@.len() - at,
        {
            proof {
                crate::seqs::filter_push(all.take(at as int), all[at as int], streaming_sources());
                assert(all.take(at + 1) =~= all.take(at as int).push(all[at as int]));
            }
            let live: bool = match self.sources.value_at(at) {
                LogSourceState::Streaming => true,
                _ => false,
            };
            if live {
                streaming += 1;
            }
            at += 1;
        }
        assert(all.take(at as int) =~= all);
        streaming
    }

    /// Records that the session failed.
    pub fn fail(&mut self, reason: String)
        requires
            old(self).wf(),
        ensures
            final(self).wf(),
            final(self)@ == (LogModel { error: Some(reason@), ..old(self)@ }),
    {
        self.error = Some(reason);
        proof {
            assert(self@.arrived() == old(self)@.arrived());
            assert(self@.shown() == old(self)@.shown());
            assert(self@.shown_lines() =~= old(self)@.shown_lines());
        }
    }

    /// Why the session failed, if it did.
    pub fn error(&self) -> (reason: Option<&str>)
        ensures
            reason.deep_view() == self@.error,
    {
        match &self.error {
            Some(reason) => Some(reason.as_str()),
            None => None,
        }
    }

    /// The visible lines as text, for a file or the clipboard.
    pub fn to_text(&self) -> (text: String)
        requires
            self.wf(),
        ensures
            text@ == lines_text(self@.shown_lines()),
    {
        let ghost all = self@.shown_lines();
        let mut text: String = String::new();
        let mut at: usize = 0;
        let len: usize = self.visible_len();
        assert(text@ =~= lines_text(all.take(0)));
        while at < len
            invariant
                at <= len,
                self.wf(),
                all == self@.shown_lines(),
                len == self@.shown().len(),
                text@ == lines_text(all.take(at as int)),
            decreases len - at,
        {
            assert(all.take(at + 1).drop_last() =~= all.take(at as int));
            assert(all.take(at + 1).last() == all[at as int]);
            if let Some(line) = self.visible_line(at) {
                let labelled: String = joined(text, line.source.label().as_str());
                text = joined(joined(joined(labelled, " "), line.text.as_str()), "\n");
            }
            at += 1;
        }
        assert(all.take(at as int) =~= all);
        text
    }
}

/// Whether a line that is held is shown goes by what was typed and what it says:
/// all are with nothing typed; with a text, those that hold it, letter for
/// letter where case matters and whatever the case where it does not; with a
/// regular expression, those it matches, and none where it cannot be used.
pub proof fn a_line_is_shown_for_what_it_says(buffer: LogModel, at: int)
    requires
        buffer.wf(),
        0 <= at < buffer.lines.len(),
    ensures
        ({
            let shown = buffer.shown().contains((buffer.dropped + at) as u64);
            let text = buffer.lines[at].text;
            let filter = buffer.filter;
            let (typed, lower) = (filter.pattern, lowercase(filter.pattern));
            &&& typed.len() == 0 ==> shown
            &&& typed.len() > 0 && !filter.regex && filter.case_sensitive ==> shown == holds(text, typed)
            &&& typed.len() > 0 && !filter.regex && !filter.case_sensitive && lower.len() > 0 && !(is_ascii_chars(text)
                && is_ascii_chars(lower)) ==> shown == holds(lowercase(text), lower)
            &&& typed.len() > 0 && !filter.regex && !filter.case_sensitive && lower.len() > 0 && is_ascii_chars(text)
                && is_ascii_chars(lower) ==> (shown <==> exists|i: int|
                0 <= i <= text.len() - lower.len() && #[trigger] same_letters(text.subrange(i, i + lower.len()), lower))
            &&& typed.len() > 0 && filter.regex && buffer.matcher is Pattern ==> shown == regex_matches(
                regex_of(typed, !filter.case_sensitive),
                text,
            )
            &&& buffer.matcher is Invalid ==> !shown
        }),
{
    let number = (buffer.dropped + at) as u64;
    shown_numbers(buffer);
    admitted_numbers(buffer.lines, buffer.dropped as int, buffer.matcher);
    let text = buffer.lines[at].text;
    if buffer.arrived().contains(number) {
        let k = choose|k: int| 0 <= k < buffer.arrived().len() && buffer.arrived()[k] == number;
        assert(admits(buffer.matcher, text));
    }
    assert(buffer.shown().contains(number) == admits(buffer.matcher, text));
    let lower = lowercase(buffer.filter.pattern);
    let (a, b) = (ascii_folded(text), ascii_folded(lower));
    assert forall|i: int| 0 <= i <= text.len() - lower.len() implies #[trigger] same_letters(
        text.subrange(i, i + lower.len()),
        lower,
    ) == (a.subrange(i, i + b.len()) == b) by {
        let (window, folded) = (text.subrange(i, i + lower.len()), a.subrange(i, i + b.len()));
        assert forall|k: int| 0 <= k < lower.len() implies (folded[k] == b[k]) == same_letter(
            #[trigger] window[k],
            lower[k],
        ) by {
            folding_forgets_case_alone(window[k], lower[k]);
        }
        if same_letters(window, lower) {
            assert forall|k: int| 0 <= k < b.len() implies folded[k] == b[k] by {
                assert(same_letter(window[k], lower[k]));
            }
            assert(folded =~= b);
        }
        if folded == b {
            assert forall|k: int| 0 <= k < lower.len() implies same_letter(#[trigger] window[k], lower[k]) by {
                assert(folded[k] == b[k]);
            }
        }
    }
    if holds(a, b) {
        let i = choose|i: int| 0 <= i <= a.len() - b.len() && #[trigger] a.subrange(i, i + b.len()) == b;
        assert(same_letters(text.subrange(i, i + lower.len()), lower));
    }
}

/// Whether two texts are the same but for their ASCII case.
pub open spec fn same_letters(a: Seq<char>, b: Seq<char>) -> bool {
    a.len() == b.len() && forall|k: int| 0 <= k < a.len() ==> same_letter(#[trigger] a[k], b[k])
}

/// In the order of their arrival, lines are shown as they came. By time, a line
/// is never below one with a later stamp, lines without a stamp are below all
/// others, and lines of the same moment are as they came.
pub proof fn lines_are_shown_in_order(buffer: LogModel, i: int, j: int)
    requires
        buffer.wf(),
        0 <= i < j < buffer.shown().len(),
    ensures
        ({
            let (upper, lower) = (buffer.shown_lines()[i].timestamp, buffer.shown_lines()[j].timestamp);
            let came_first = buffer.shown()[i] < buffer.shown()[j];
            &&& buffer.order == LogOrder::Arrival ==> came_first
            &&& buffer.order == LogOrder::Timestamp ==> {
                &&& upper is None ==> lower is None
                &&& upper is Some && lower is Some ==> upper->0.secs < lower->0.secs || (upper->0.secs == lower->0.secs
                    && upper->0.nanos <= lower->0.nanos)
                &&& upper == lower ==> came_first
            }
        }),
{
    shown_numbers(buffer);
    admitted_numbers(buffer.lines, buffer.dropped as int, buffer.matcher);
    if buffer.order == LogOrder::Timestamp {
        let before = by_time(buffer.lines, buffer.dropped as int);
        let (shown, arrived) = (buffer.shown(), buffer.arrived());
        let (a, b) = (shown[i], shown[j]);
        assert(shown.contains(a));
        timestamp_order_is_sound(buffer, a);
        assert(!before(b, a));
        assert(stamp_of(buffer.lines, buffer.dropped as int, a) == buffer.shown_lines()[i].timestamp);
        assert(stamp_of(buffer.lines, buffer.dropped as int, b) == buffer.shown_lines()[j].timestamp);
        if buffer.shown_lines()[i].timestamp == buffer.shown_lines()[j].timestamp {
            let keep = |other: u64| !before(a, other) && !before(other, a);
            assert(ties(shown, a, before) == shown.filter(keep));
            assert(ties(arrived, a, before) == arrived.filter(keep));
            crate::seqs::filter_places(shown, keep, i, j);
            let less = |x: u64, y: u64| x < y;
            crate::seqs::filter_keeps_relation(arrived, keep, less);
            let (p, q) = choose|p: int, q: int|
                0 <= p < q < shown.filter(keep).len() && #[trigger] shown.filter(keep)[p] == a && #[trigger] shown.filter(
                    keep,
                )[q] == b;
            assert(less(arrived.filter(keep)[p], arrived.filter(keep)[q]));
        }
    }
}

/// What is copied or exported is every line that is shown, in the order it is
/// shown, each on a line of its own: its pod, its container, and what it says.
pub proof fn copies_have_every_line(first: Seq<LineModel>, line: LineModel, rest: Seq<LineModel>)
    ensures
        lines_text(first + seq![line] + rest) == lines_text(first) + (line.source.pod + "/"@ + line.source.container
            + " "@ + line.text + "\n"@) + lines_text(rest),
        lines_text(seq![]) == Seq::<char>::empty(),
    decreases rest.len(),
{
    if rest.len() > 0 {
        let (less, last) = (rest.drop_last(), rest.last());
        copies_have_every_line(first, line, less);
        let whole = first + seq![line] + rest;
        assert(whole.drop_last() =~= first + seq![line] + less);
        assert(whole.last() == last);
        let end = source_label(last.source) + " "@ + last.text + "\n"@;
        assert(lines_text(rest) =~= lines_text(less) + end);
        assert(lines_text(whole) =~= lines_text(first + seq![line] + less) + end);
        assert(lines_text(whole) =~= lines_text(first) + (line.source.pod + "/"@ + line.source.container + " "@
            + line.text + "\n"@) + lines_text(rest));
    } else {
        let whole = first + seq![line] + rest;
        assert(whole.drop_last() =~= first);
        assert(whole.last() == line);
        assert(lines_text(rest) =~= Seq::empty());
        assert(lines_text(whole) =~= lines_text(first) + (line.source.pod + "/"@ + line.source.container + " "@
            + line.text + "\n"@) + lines_text(rest));
    }
}

/// What a source is doing is what it said last, and no other source changes.
pub proof fn a_source_is_as_it_said(
    buffer: LogModel,
    source: SourceModel,
    state: LogSourceStateModel,
    other: SourceModel,
)
    requires
        buffer.wf(),
    ensures
        crate::keyed::lookup(buffer.with_source(source, state).sources, source) == Some(state),
        other != source ==> crate::keyed::lookup(buffer.with_source(source, state).sources, other)
            == crate::keyed::lookup(buffer.sources, other),
        buffer.with_source(source, state).shown_lines() == buffer.shown_lines(),
{
    crate::keyed::lookup_after_put::<LogSource, LogSourceStateModel>(buffer.sources, source, state, source);
    crate::keyed::lookup_after_put::<LogSource, LogSourceStateModel>(buffer.sources, source, state, other);
    let after = buffer.with_source(source, state);
    assert(after.shown_lines() =~= buffer.shown_lines());
}

/// Setting a filter sets the one that was typed and no other, and touches
/// neither the lines nor their order.
pub proof fn a_filter_is_the_one_that_was_set(buffer: LogModel, filter: FilterModel, matcher: MatcherModel)
    ensures
        buffer.narrowed(filter, matcher).filter == filter,
        buffer.narrowed(filter, matcher).matcher == matcher,
        buffer.narrowed(filter, matcher).lines == buffer.lines,
        buffer.narrowed(filter, matcher).order == buffer.order,
        buffer.narrowed(filter, matcher).dropped == buffer.dropped,
{
}

/// The lines without a timestamp are counted where lines are shown by time.
pub proof fn stampless_lines_are_counted(buffer: LogModel)
    requires
        buffer.wf(),
    ensures
        buffer.order == LogOrder::Arrival ==> buffer.untimestamped() == 0,
        buffer.order == LogOrder::Timestamp ==> buffer.untimestamped() == buffer.shown_lines().filter(
            |line: LineModel| line.timestamp is None,
        ).len(),
{
    if buffer.order == LogOrder::Timestamp {
        let first = buffer.dropped as int;
        let (missing, before) = (stampless(buffer.lines, first), by_time(buffer.lines, first));
        shown_numbers(buffer);
        crate::sorting::sorting_keeps_counts(buffer.arrived(), before, missing);
        let bare = |line: LineModel| line.timestamp is None;
        let named = |number: u64| buffer.line(number);
        let there = |number: u64| bare(buffer.line(number));
        crate::seqs::filter_mapped(buffer.shown(), named, bare, there);
        assert forall|i: int| 0 <= i < buffer.shown().len() implies missing(#[trigger] buffer.shown()[i]) == there(
            buffer.shown()[i],
        ) by {
            assert(buffer.dropped <= buffer.shown()[i] < buffer.dropped + buffer.lines.len());
        }
        crate::seqs::filter_agree(buffer.shown(), missing, there);
        assert(buffer.shown_lines() =~= buffer.shown().map_values(named));
    }
}

/// The sources that stream are those that have neither ended nor failed.
pub proof fn sources_stream_until_they_end(buffer: LogModel, entry: (SourceModel, LogSourceStateModel))
    ensures
        buffer.sources.filter(streaming_sources()).contains(entry) <==> buffer.sources.contains(entry) && !(entry.1
            is Ended) && !(entry.1 is Failed),
{
    crate::seqs::filter_contains(buffer.sources, streaming_sources(), entry);
}

} // verus!
