//! How log lines are put on screen.

use crate::clock::SystemTime;
use crate::sessions::{source_label, LogSource, LogSourceState, LogSourceStateModel, SourceModel};
use crate::text::{
    decimal, digit, digit_char, digits, first_of, first_of_is_first, joined, natural, pieces, start_trimmed, to_decimal,
    trimmed, white,
};
use crate::times::{clock_seconds, typed_time, TimeError};
use crate::value::Value;
use std::ops::Range;
use vstd::prelude::*;
use vstd::utf8::encode_utf8;

verus! {

/// How many lines are shown at once while long lines wrap.
pub const WRAP_LIMIT: usize = 500;

/// How many sources the legend names.
pub const LEGEND_LIMIT: usize = 12;

/// The colours sources are told apart by, as RGB.
pub open spec fn source_colours() -> Seq<u32> {
    seq![0x7aa2f7, 0x9ece6a, 0xe0af68, 0xf7768e, 0xbb9af7, 0x7dcfff, 0xff9e64, 0x73daca]
}

/// What is left of a text's bytes when each is added to thirty-one times what
/// came before, in 32 bits.
pub open spec fn byte_hash(bytes: Seq<u8>) -> u32
    decreases bytes.len(),
{
    if bytes.len() == 0 {
        0
    } else {
        ((byte_hash(bytes.drop_last()) as int * 31 + bytes.last() as int) % 0x1_0000_0000) as u32
    }
}

/// The colour of a source: its pod's name decides, so that the containers of a
/// pod have the same one.
pub open spec fn colour_of(source: SourceModel) -> u32 {
    source_colours()[byte_hash(encode_utf8(source.pod)) as int % 8]
}

/// The colour of a source, as RGB.
pub fn source_colour(source: &LogSource) -> (rgb: u32)
    ensures
        rgb == colour_of(source.deep_view()),
{
    let bytes: &[u8] = source.pod.as_str().as_bytes();
    let mut hash: u32 = 0;
    let mut at: usize = 0;
    while at < bytes.len()
        invariant
            at <= bytes.len(),
            hash == byte_hash(bytes@.take(at as int)),
        decreases bytes.len() - at,
    {
        assert(bytes@.take(at + 1).drop_last() =~= bytes@.take(at as int));
        assert(bytes@.take(at + 1).last() == bytes@[at as int]);
        hash = ((hash as u64 * 31 + bytes[at] as u64) % 0x1_0000_0000) as u32;
        at += 1;
    }
    assert(bytes@.take(at as int) =~= bytes@);
    let place: u32 = hash % 8;
    if place == 0 {
        0x7aa2f7
    } else if place == 1 {
        0x9ece6a
    } else if place == 2 {
        0xe0af68
    } else if place == 3 {
        0xf7768e
    } else if place == 4 {
        0xbb9af7
    } else if place == 5 {
        0x7dcfff
    } else if place == 6 {
        0xff9e64
    } else {
        0x73daca
    }
}

/// Two containers of one pod have the same colour.
pub proof fn a_pod_has_one_colour(a: SourceModel, b: SourceModel)
    requires
        a.pod == b.pod,
    ensures
        colour_of(a) == colour_of(b),
{
}

/// A number below a hundred in two digits.
pub open spec fn two_digits(n: nat) -> Seq<char> {
    seq![digit_char(n / 10), digit_char(n % 10)]
}

/// The time of day of a point in time, in UTC: `14:32:10`. A point before the
/// epoch counts as the epoch.
pub open spec fn time_text(time: SystemTime) -> Seq<char> {
    let seconds = if time.secs < 0 {
        0
    } else {
        time.secs as nat
    };
    two_digits(seconds / 3_600 % 24) + ":"@ + two_digits(seconds / 60 % 60) + ":"@ + two_digits(seconds % 60)
}

fn to_two_digits(n: u64) -> (text: String)
    requires
        n < 100,
    ensures
        text@ == two_digits(n as nat),
{
    let mut text: String = String::new();
    text.push((48u8 + (n / 10) as u8) as char);
    text.push((48u8 + (n % 10) as u8) as char);
    assert(text@ =~= two_digits(n as nat));
    text
}

/// The time of day of a point in time, in UTC: `14:32:10`.
pub fn format_time(time: SystemTime) -> (text: String)
    ensures
        text@ == time_text(time),
{
    let seconds: u64 = if time.secs < 0 {
        0
    } else {
        time.secs as u64
    };
    let hours: String = to_two_digits(seconds / 3_600 % 24);
    let minutes: String = to_two_digits(seconds / 60 % 60);
    let clock: String = joined(joined(hours, ":"), minutes.as_str());
    joined(joined(clock, ":"), to_two_digits(seconds % 60).as_str())
}

/// Which lines are shown while long lines wrap, from `start` up to `end`: those
/// after a jump, or else the newest.
pub open spec fn wrap_start(len: usize, anchor: Option<usize>) -> int {
    match anchor {
        Some(index) => if index < len {
            index as int
        } else if len > 0 {
            len - 1
        } else {
            0
        },
        None => if len > WRAP_LIMIT {
            len - WRAP_LIMIT
        } else {
            0
        },
    }
}

/// Which of a number of lines are shown while long lines wrap.
pub fn wrap_window(len: usize, anchor: Option<usize>) -> (window: Range<usize>)
    ensures
        window.start == wrap_start(len, anchor),
        window.end == (if wrap_start(len, anchor) + WRAP_LIMIT < len {
            wrap_start(len, anchor) + WRAP_LIMIT
        } else {
            len as int
        }),
        window.start <= window.end <= len,
        window.end - window.start <= WRAP_LIMIT,
        len > 0 ==> window.start < window.end,
{
    let start: usize = match anchor {
        Some(index) => if index < len {
            index
        } else if len > 0 {
            len - 1
        } else {
            0
        },
        None => if len > WRAP_LIMIT {
            len - WRAP_LIMIT
        } else {
            0
        },
    };
    let end: usize = if len - start > WRAP_LIMIT {
        start + WRAP_LIMIT
    } else {
        len
    };
    Range { start, end }
}

/// A source in the legend: what it says, and whether it is dimmed.
pub open spec fn chip_of(entry: (SourceModel, LogSourceStateModel)) -> (Seq<char>, bool) {
    match entry.1 {
        LogSourceStateModel::Streaming => (source_label(entry.0), false),
        LogSourceStateModel::Ended => (source_label(entry.0) + " (ended)"@, true),
        LogSourceStateModel::Failed { .. } => (source_label(entry.0) + " (failed)"@, true),
    }
}

/// The sources the legend names.
pub open spec fn chips_of(sources: Seq<(SourceModel, LogSourceStateModel)>) -> Seq<(Seq<char>, bool)> {
    let named = if sources.len() > LEGEND_LIMIT {
        sources.take(LEGEND_LIMIT as int)
    } else {
        sources
    };
    named.map_values(|entry: (SourceModel, LogSourceStateModel)| chip_of(entry))
}

/// What the legend says about the sources it does not name.
pub open spec fn overflow_of(sources: nat) -> Option<Seq<char>> {
    if sources > LEGEND_LIMIT {
        Some("+"@ + decimal((sources - LEGEND_LIMIT) as nat) + " more"@)
    } else {
        None
    }
}

fn chip(source: &LogSource, state: &LogSourceState) -> (chip: (String, bool))
    ensures
        chip.deep_view() == chip_of((source.deep_view(), state.deep_view())),
{
    match state {
        LogSourceState::Streaming => (source.label(), false),
        LogSourceState::Ended => (joined(source.label(), " (ended)"), true),
        LogSourceState::Failed { .. } => (joined(source.label(), " (failed)"), true),
    }
}

/// The legend: the sources it names, each with whether it is dimmed, and what
/// it says about the rest.
pub fn legend(sources: &Vec<(&LogSource, &LogSourceState)>) -> (legend: (Vec<(String, bool)>, Option<String>))
    ensures
        legend.0.deep_view() == chips_of(sources.deep_view()),
        legend.1.deep_view() == overflow_of(sources.deep_view().len()),
{
    let ghost all = sources.deep_view();
    let named: usize = if sources.len() > LEGEND_LIMIT {
        LEGEND_LIMIT
    } else {
        sources.len()
    };
    let mut chips: Vec<(String, bool)> = Vec::new();
    let mut at: usize = 0;
    while at < named
        invariant
            at <= named <= sources.len(),
            all == sources.deep_view(),
            chips.len() == at,
            forall|i: int| 0 <= i < at ==> (#[trigger] chips.deep_view()[i]) == chip_of(all[i]),
        decreases named - at,
    {
        let ghost before = chips.deep_view();
        let (source, state) = sources[at];
        let added: (String, bool) = chip(source, state);
        let ghost shown = added.deep_view();
        assert(all[at as int] == (source.deep_view(), state.deep_view()));
        chips.push(added);
        assert(chips.deep_view() =~= before.push(shown));
        at += 1;
    }
    assert(chips.deep_view() =~= chips_of(all));
    let overflow: Option<String> = if sources.len() > LEGEND_LIMIT {
        let rest: String = to_decimal((sources.len() - LEGEND_LIMIT) as u64);
        Some(joined(joined("+".to_owned(), rest.as_str()), " more"))
    } else {
        None
    };
    (chips, overflow)
}

// --- what is shown can be typed -------------------------------------------------

pub(crate) proof fn two_digits_read_back(n: nat)
    requires
        n < 100,
    ensures
        natural(two_digits(n)) == Some(n),
        forall|i: int| 0 <= i < 2 ==> '0' <= #[trigger] two_digits(n)[i] <= '9',
{
    let text = two_digits(n);
    assert(text.drop_last() =~= seq![digit_char(n / 10)]);
    assert(digits(text.drop_last()) == Some(n / 10));
    assert(digit(text.last()) == Some(n % 10));
}

/// A text of three pieces without a separator in them is cut into those.
pub(crate) proof fn three_pieces(a: Seq<char>, b: Seq<char>, c: Seq<char>, cut: char)
    requires
        forall|i: int| 0 <= i < a.len() ==> a[i] != cut,
        forall|i: int| 0 <= i < b.len() ==> b[i] != cut,
        forall|i: int| 0 <= i < c.len() ==> c[i] != cut,
    ensures
        pieces(a.push(cut) + b.push(cut) + c, cut) == seq![a, b, c],
        pieces(b.push(cut) + c, cut) == seq![b, c],
{
    let whole = a.push(cut) + b.push(cut) + c;
    let rest = b.push(cut) + c;
    first_of_is_first(whole, cut);
    assert(whole[a.len() as int] == cut);
    assert(first_of(whole, cut) == a.len()) by {
        let at = first_of(whole, cut);
        if at < a.len() {
            assert(whole[at] == a[at]);
        }
    }
    assert(whole.take(a.len() as int) =~= a);
    assert(whole.skip(a.len() as int + 1) =~= rest);
    first_of_is_first(rest, cut);
    assert(rest[b.len() as int] == cut);
    assert(first_of(rest, cut) == b.len()) by {
        let at = first_of(rest, cut);
        if at < b.len() {
            assert(rest[at] == b[at]);
        }
    }
    assert(rest.take(b.len() as int) =~= b);
    assert(rest.skip(b.len() as int + 1) =~= c);
    first_of_is_first(c, cut);
    assert(pieces(c, cut) =~= seq![c]);
    assert(pieces(rest, cut) =~= seq![b, c]);
    assert(pieces(whole, cut) =~= seq![a, b, c]);
}

/// Hours, minutes and seconds make up the time of day.
proof fn parts_of_a_day(seconds: nat)
    ensures
        (seconds / 3_600 % 24) * 3_600 + (seconds / 60 % 60) * 60 + seconds % 60 == seconds % 86_400,
        seconds / 3_600 % 24 < 24,
        seconds / 60 % 60 < 60,
        seconds % 60 < 60,
{
    let minutes = seconds / 60;
    let hours = seconds / 3_600;
    let days = seconds / 86_400;
    assert(hours == minutes / 60);
    assert(days == hours / 24);
    assert(seconds == minutes * 60 + seconds % 60);
    assert(minutes == hours * 60 + minutes % 60);
    assert(hours == days * 24 + hours % 24);
    assert(seconds == days * 86_400 + seconds % 86_400);
}

/// The time of day that a text of three numbers stands for.
pub(crate) proof fn clock_of_parts(h: nat, m: nat, s: nat)
    requires
        h < 24,
        m < 60,
        s < 60,
    ensures
        ({
            let text = two_digits(h) + ":"@ + two_digits(m) + ":"@ + two_digits(s);
            &&& clock_seconds(text) == Some(h * 3_600 + m * 60 + s)
            &&& trimmed(text) == text
            &&& text.len() > 0
            &&& text[0] != '-'
        }),
{
    reveal_strlit(":");
    let (a, b, c) = (two_digits(h), two_digits(m), two_digits(s));
    let text = a + ":"@ + b + ":"@ + c;
    two_digits_read_back(h);
    two_digits_read_back(m);
    two_digits_read_back(s);
    three_pieces(a, b, c, ':');
    assert(text =~= a.push(':') + b.push(':') + c);
    assert(text[0] == a[0]);
    assert(text.last() == c[1]);
    assert(!white(text[0]));
    assert(!white(text.last()));
    assert(start_trimmed(text) == text);
    let parts = pieces(text, ':');
    assert(parts[0] == a && parts[1] == b && parts[2] == c);
}

/// Typing the time of day that is shown for a point in time leads back to it,
/// to the second, on any moment of its day and so at that very point.
pub proof fn what_is_shown_can_be_typed(time: SystemTime, now: SystemTime)
    requires
        time.secs >= 0,
        now.secs >= 0,
        now.secs / 86_400 == time.secs / 86_400,
    ensures
        typed_time(time_text(time), now) == Ok::<SystemTime, TimeError>(SystemTime { secs: time.secs, nanos: 0 }),
{
    let seconds = time.secs as nat;
    parts_of_a_day(seconds);
    clock_of_parts(seconds / 3_600 % 24, seconds / 60 % 60, seconds % 60);
}

} // verus!
