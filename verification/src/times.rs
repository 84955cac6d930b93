//! Points in time, as somebody types them.

use crate::clock::{Duration, SystemTime};
use crate::text::{
    chars_of, copied, find, first_of, integer, natural_up_to, parse_integer, parse_natural, pieces, split, text_of,
    trim, trimmed,
};
use vstd::prelude::*;
use vstd::slice::slice_subrange;

verus! {

/// Seconds in a day.
pub const DAY: u64 = 86_400;

/// Why a typed time could not be used.
#[derive(Clone, Copy, Debug, PartialEq, Eq, Structural)]
pub enum TimeError {
    /// Nothing was typed.
    Empty,
    /// The text is not one of the forms that are understood.
    Unrecognised,
    /// The text names a point in time that no log line can carry.
    OutOfRange,
}

/// What somebody is told about a time that could not be used.
pub open spec fn time_error_text(error: TimeError) -> Seq<char> {
    match error {
        TimeError::Empty => "type a time to jump to"@,
        TimeError::Unrecognised => "not a time: try 14:32, 14:32:10, -5m, or 2026-08-18T14:32:00Z (UTC)"@,
        TimeError::OutOfRange => "that is outside the range a log line can carry"@,
    }
}

impl TimeError {
    /// What somebody is told about it.
    pub fn to_string(&self) -> (text: String)
        ensures
            text@ == time_error_text(*self),
    {
        match self {
            TimeError::Empty => "type a time to jump to".to_owned(),
            TimeError::Unrecognised => {
                "not a time: try 14:32, 14:32:10, -5m, or 2026-08-18T14:32:00Z (UTC)".to_owned()
            },
            TimeError::OutOfRange => "that is outside the range a log line can carry".to_owned(),
        }
    }
}

// --- the calendar ---------------------------------------------------------------

/// Whether a year has a 29th of February.
pub open spec fn is_leap(year: int) -> bool {
    year % 4 == 0 && (year % 100 != 0 || year % 400 == 0)
}

/// How many days a month has.
pub open spec fn month_length(year: int, month: int) -> int {
    if month == 4 || month == 6 || month == 9 || month == 11 {
        30
    } else if month == 2 {
        if is_leap(year) {
            29
        } else {
            28
        }
    } else {
        31
    }
}

/// How many days of a year are before a month.
pub open spec fn days_before_month(year: int, month: int) -> int
    decreases month,
{
    if month <= 1 {
        0
    } else {
        days_before_month(year, month - 1) + month_length(year, month - 1)
    }
}

/// How many days a year has.
pub open spec fn year_length(year: int) -> int {
    if is_leap(year) {
        366
    } else {
        365
    }
}

/// How many days from the epoch to the first day of a year.
pub open spec fn year_start(year: int) -> int
    decreases
        if year >= 1970 {
            year - 1970
        } else {
            1970 - year
        },
{
    if year == 1970 {
        0
    } else if year > 1970 {
        year_start(year - 1) + year_length(year - 1)
    } else {
        year_start(year + 1) - year_length(year)
    }
}

/// How many days from the epoch to a date: whole years, whole months, days.
pub open spec fn civil_days(year: int, month: int, day: int) -> int {
    year_start(year) + days_before_month(year, month) + day - 1
}

/// How many leap years there were up to a year.
#[verifier::opaque]
spec fn leap_years(year: int) -> int {
    year / 4 - year / 100 + year / 400
}

/// How the leap years up to a year follow from those up to the year before.
proof fn leap_years_step(year: int)
    ensures
        leap_years(year) == leap_years(year - 1) + (if is_leap(year) {
            1int
        } else {
            0
        }),
{
    reveal(leap_years);
    assert(year / 4 == (year - 1) / 4 + (if year % 4 == 0 {
        1int
    } else {
        0
    }));
    assert(year / 100 == (year - 1) / 100 + (if year % 100 == 0 {
        1int
    } else {
        0
    }));
    assert(year / 400 == (year - 1) / 400 + (if year % 400 == 0 {
        1int
    } else {
        0
    }));
    assert(year % 400 == 0 ==> year % 100 == 0);
    assert(year % 100 == 0 ==> year % 4 == 0);
}

proof fn year_start_counts(year: int)
    ensures
        year_start(year) == 365 * (year - 1970) + leap_years(year - 1) - 477,
    decreases
        if year >= 1970 {
            year - 1970
        } else {
            1970 - year
        },
{
    assert(leap_years(1969) == 477) by {
        reveal(leap_years);
    }
    if year > 1970 {
        year_start_counts(year - 1);
        leap_years_step(year - 1);
    } else if year < 1970 {
        year_start_counts(year + 1);
        leap_years_step(year);
    }
}

proof fn year_start_closed(year: int)
    ensures
        year_start(year) == 365 * (year - 1970) + (year - 1) / 4 - (year - 1) / 100 + (year - 1) / 400 - 477,
{
    reveal(leap_years);
    year_start_counts(year);
}

proof fn months_closed(year: int, month: int)
    requires
        1 <= month <= 12,
    ensures
        month <= 2 ==> days_before_month(year, month) == 31 * (month - 1),
        month > 2 ==> days_before_month(year, month) == (153 * (month - 3) + 2) / 5 + 59 + (if is_leap(year) {
            1int
        } else {
            0
        }),
{
    reveal_with_fuel(days_before_month, 13);
}

/// Counting in eras of 400 years, each starting in March, counts the same days.
proof fn eras_count_days(civil_year: int, month: int, day: int, year: int, era: int, year_of_era: int)
    requires
        1 <= month <= 12,
        year == (if month <= 2 {
            civil_year - 1
        } else {
            civil_year
        }),
        year == era * 400 + year_of_era,
        0 <= year_of_era < 400,
    ensures
        ({
            let shifted = if month > 2 {
                month - 3
            } else {
                month + 9
            };
            era * 146_097 + year_of_era * 365 + year_of_era / 4 - year_of_era / 100 + (153 * shifted + 2) / 5 + day
                - 1 - 719_468 == civil_days(civil_year, month, day)
        }),
{
    year_start_closed(civil_year);
    months_closed(civil_year, month);
    assert(year / 4 == era * 100 + year_of_era / 4);
    assert(year / 100 == era * 4 + year_of_era / 100);
    assert(year / 400 == era);
    if month <= 2 {
        assert((153 * (month + 9) + 2) / 5 == 31 * (month - 1) + 306);
    } else {
        assert((year - 1) / 4 == (if year % 4 == 0 {
            year / 4 - 1
        } else {
            year / 4
        }));
        assert((year - 1) / 100 == (if year % 100 == 0 {
            year / 100 - 1
        } else {
            year / 100
        }));
        assert((year - 1) / 400 == (if year % 400 == 0 {
            year / 400 - 1
        } else {
            year / 400
        }));
    }
}

/// Days since the epoch for a civil date.
pub fn days_from_civil(year: i64, month: u32, day: u32) -> (days: i64)
    requires
        -25_000_000_000_000_000 <= year <= 25_000_000_000_000_000,
        1 <= month <= 12,
    ensures
        days == civil_days(year as int, month as int, day as int),
{
    let ghost civil_year = year as int;
    let year: i64 = if month <= 2 {
        year - 1
    } else {
        year
    };
    let era: i64 = if year >= 0 {
        year / 400
    } else {
        -((399 - year) / 400)
    };
    let year_of_era: i64 = year - era * 400;
    let shifted: i64 = if month > 2 {
        month as i64 - 3
    } else {
        month as i64 + 9
    };
    proof {
        eras_count_days(
            civil_year,
            month as int,
            day as int,
            year as int,
            era as int,
            year_of_era as int,
        );
    }
    let day_of_year: i64 = (153 * shifted + 2) / 5 + day as i64 - 1;
    let day_of_era: i64 = year_of_era * 365 + year_of_era / 4 - year_of_era / 100 + day_of_year;
    era * 146_097 + day_of_era - 719_468
}

/// How many days a month has.
pub fn days_in_month(year: i64, month: u32) -> (days: u32)
    requires
        1 <= month <= 12,
    ensures
        days == month_length(year as int, month as int),
{
    match month {
        1 | 3 | 5 | 7 | 8 | 10 | 12 => 31,
        4 | 6 | 9 | 11 => 30,
        _ => {
            if divides(year, 4) && (!divides(year, 100) || divides(year, 400)) {
                29
            } else {
                28
            }
        },
    }
}

fn divides(year: i64, by: i64) -> (even: bool)
    requires
        0 < by <= 1000,
    ensures
        even == (year as int % by as int == 0),
{
    if year >= 0 {
        year % by == 0
    } else {
        let size: u64 = (-(year as i128)) as u64;
        proof {
            let (y, b) = (year as int, by as int);
            vstd::arithmetic::div_mod::lemma_fundamental_div_mod(y, b);
            vstd::arithmetic::div_mod::lemma_fundamental_div_mod(-y, b);
            if y % b == 0 {
                assert(-y == b * (-(y / b))) by (nonlinear_arith)
                    requires
                        y == b * (y / b),
                ;
                vstd::arithmetic::div_mod::lemma_fundamental_div_mod_converse(-y, b, -(y / b), 0);
            }
            if (-y) % b == 0 {
                assert(y == b * (-((-y) / b))) by (nonlinear_arith)
                    requires
                        -y == b * ((-y) / b),
                ;
                vstd::arithmetic::div_mod::lemma_fundamental_div_mod_converse(y, b, -((-y) / b), 0);
            }
        }
        size % (by as u64) == 0
    }
}

// --- seconds since the epoch ----------------------------------------------------

/// Whole seconds since the epoch; a point before it is out of range.
pub open spec fn seconds_of(time: SystemTime) -> Result<nat, TimeError> {
    if time.secs < 0 {
        Err(TimeError::OutOfRange)
    } else {
        Ok(time.secs as nat)
    }
}

/// The point a number of seconds after the epoch, if there is one.
pub open spec fn time_at(seconds: nat) -> Result<SystemTime, TimeError> {
    if seconds > i64::MAX {
        Err(TimeError::OutOfRange)
    } else {
        Ok(SystemTime { secs: seconds as i64, nanos: 0 })
    }
}

/// Whole seconds since the epoch.
pub fn epoch_seconds(time: SystemTime) -> (seconds: Result<u64, TimeError>)
    ensures
        seconds_of(time) == (match seconds {
            Ok(seconds) => Ok(seconds as nat),
            Err(error) => Err(error),
        }),
        seconds matches Ok(seconds) ==> seconds <= i64::MAX,
{
    if time.secs < 0 {
        Err(TimeError::OutOfRange)
    } else {
        Ok(time.secs as u64)
    }
}

/// The point a number of seconds after the epoch.
pub fn offset_epoch(seconds: u64) -> (time: Result<SystemTime, TimeError>)
    ensures
        time == time_at(seconds as nat),
{
    if seconds > 0x7fff_ffff_ffff_ffff {
        Err(TimeError::OutOfRange)
    } else {
        Ok(SystemTime { secs: seconds as i64, nanos: 0 })
    }
}

// --- durations ------------------------------------------------------------------

/// How many seconds a unit stands for.
pub open spec fn unit_seconds(unit: char) -> Option<nat> {
    if unit == 's' {
        Some(1)
    } else if unit == 'm' {
        Some(60)
    } else if unit == 'h' {
        Some(3_600)
    } else if unit == 'd' {
        Some(86_400)
    } else {
        None
    }
}

/// How many seconds a count and a unit stand for: `5m`, `30s`, `2h`, `1d`.
pub open spec fn span_seconds(text: Seq<char>) -> Result<nat, TimeError> {
    if text.len() == 0 {
        Err(TimeError::Unrecognised)
    } else {
        match (natural_up_to(text.drop_last(), u64::MAX as nat), unit_seconds(text.last())) {
            (Some(count), Some(unit)) => if count * unit <= u64::MAX {
                Ok(count * unit)
            } else {
                Err(TimeError::OutOfRange)
            },
            _ => Err(TimeError::Unrecognised),
        }
    }
}

fn read_span(text: &[char]) -> (seconds: Result<u64, TimeError>)
    ensures
        span_seconds(text@) == (match seconds {
            Ok(seconds) => Ok(seconds as nat),
            Err(error) => Err(error),
        }),
{
    if text.len() == 0 {
        return Err(TimeError::Unrecognised);
    }
    let last: usize = text.len() - 1;
    assert(text@.subrange(0, last as int) =~= text@.drop_last());
    let count: u64 = match parse_natural(slice_subrange(text, 0, last), 0xffff_ffff_ffff_ffff) {
        Some(count) => count,
        None => return Err(TimeError::Unrecognised),
    };
    let unit: char = text[last];
    let seconds: u64 = if unit == 's' {
        1
    } else if unit == 'm' {
        60
    } else if unit == 'h' {
        3_600
    } else if unit == 'd' {
        DAY
    } else {
        return Err(TimeError::Unrecognised);
    };
    match count.checked_mul(seconds) {
        Some(product) => Ok(product),
        None => Err(TimeError::OutOfRange),
    }
}

/// `5m`, `30s`, `2h`, `1d`: a count and a unit, no spaces.
pub fn parse_duration(input: &str) -> (span: Result<Duration, TimeError>)
    ensures
        match span {
            Ok(span) => span_seconds(input@) is Ok && span.nanos == span_seconds(input@)->Ok_0 * 1_000_000_000,
            Err(error) => span_seconds(input@) == Err::<nat, TimeError>(error),
        },
{
    let chars: Vec<char> = chars_of(input);
    match read_span(chars.as_slice()) {
        Ok(seconds) => Ok(Duration::from_secs(seconds)),
        Err(error) => Err(error),
    }
}

// --- clocks ---------------------------------------------------------------------

/// A number of at most `limit`, and nothing else.
pub open spec fn field(text: Seq<char>, limit: nat) -> Option<nat> {
    natural_up_to(text, limit)
}

/// Seconds since midnight for `HH:MM` or `HH:MM:SS`.
pub open spec fn clock_seconds(text: Seq<char>) -> Option<nat> {
    let parts = pieces(text, ':');
    if parts.len() == 2 {
        match (field(parts[0], 23), field(parts[1], 59)) {
            (Some(hours), Some(minutes)) => Some(hours * 3_600 + minutes * 60),
            _ => None,
        }
    } else if parts.len() == 3 {
        match (field(parts[0], 23), field(parts[1], 59), field(parts[2], 59)) {
            (Some(hours), Some(minutes), Some(seconds)) => Some(hours * 3_600 + minutes * 60 + seconds),
            _ => None,
        }
    } else {
        None
    }
}

fn read_clock(text: &[char]) -> (seconds: Option<u64>)
    ensures
        clock_seconds(text@) == (match seconds {
            Some(seconds) => Some(seconds as nat),
            None => None,
        }),
        seconds matches Some(seconds) ==> seconds < 86_400,
{
    let parts: Vec<Vec<char>> = split(text, ':');
    assert forall|i: int| 0 <= i < parts.len() implies parts.deep_view()[i] == (#[trigger] parts[i])@ by {
        assert(parts[i].deep_view() =~= parts[i]@);
    }
    if parts.len() != 2 && parts.len() != 3 {
        return None;
    }
    let hours: u64 = match parse_natural(parts[0].as_slice(), 23) {
        Some(hours) => hours,
        None => return None,
    };
    let minutes: u64 = match parse_natural(parts[1].as_slice(), 59) {
        Some(minutes) => minutes,
        None => return None,
    };
    let seconds: u64 = if parts.len() == 3 {
        match parse_natural(parts[2].as_slice(), 59) {
            Some(seconds) => seconds,
            None => return None,
        }
    } else {
        0
    };
    Some(hours * 3_600 + minutes * 60 + seconds)
}

/// `HH:MM` or `HH:MM:SS` as seconds since midnight.
pub fn parse_clock(input: &str) -> (seconds: Option<u64>)
    ensures
        clock_seconds(input@) == (match seconds {
            Some(seconds) => Some(seconds as nat),
            None => None,
        }),
{
    let chars: Vec<char> = chars_of(input);
    read_clock(chars.as_slice())
}

// --- offsets --------------------------------------------------------------------

/// Where the first sign of a text stands, or its length.
pub open spec fn first_sign(text: Seq<char>) -> int
    decreases text.len(),
{
    if text.len() == 0 || text[0] == '+' || text[0] == '-' {
        0
    } else {
        1 + first_sign(text.drop_first())
    }
}

/// A time of day and how far its zone is ahead of UTC, in seconds.
///
/// `Z` is UTC, and so is a time without a zone. The sign of a zone cannot be
/// the first character.
pub open spec fn zoned(text: Seq<char>) -> Result<(Seq<char>, int), TimeError> {
    if text.len() > 0 && (text.last() == 'Z' || text.last() == 'z') {
        Ok((text.drop_last(), 0))
    } else if text.len() == 0 {
        Ok((text, 0))
    } else {
        let at = 1 + first_sign(text.drop_first());
        if at >= text.len() {
            Ok((text, 0))
        } else {
            match clock_seconds(text.skip(at + 1)) {
                Some(ahead) => Ok(
                    (
                        text.take(at),
                        if text[at] == '-' {
                            -(ahead as int)
                        } else {
                            ahead as int
                        },
                    ),
                ),
                None => Err(TimeError::Unrecognised),
            }
        }
    }
}

proof fn first_sign_at(text: Seq<char>, at: int)
    requires
        0 <= at <= text.len(),
        forall|i: int| 0 <= i < at ==> text[i] != '+' && text[i] != '-',
        at < text.len() ==> text[at] == '+' || text[at] == '-',
    ensures
        first_sign(text) == at,
    decreases at,
{
    if at > 0 {
        let rest = text.drop_first();
        assert forall|i: int| 0 <= i < at - 1 implies rest[i] != '+' && rest[i] != '-' by {
            assert(rest[i] == text[i + 1]);
        }
        first_sign_at(rest, at - 1);
    }
}

fn read_offset(text: &[char]) -> (parts: Result<(Vec<char>, i64), TimeError>)
    ensures
        zoned(text@) == (match parts {
            Ok(parts) => Ok((parts.0@, parts.1 as int)),
            Err(error) => Err(error),
        }),
        parts matches Ok(parts) ==> -86_400 < parts.1 < 86_400,
{
    if text.len() == 0 {
        return Ok((copied(text), 0));
    }
    let last: usize = text.len() - 1;
    if text[last] == 'Z' || text[last] == 'z' {
        assert(text@.subrange(0, last as int) =~= text@.drop_last());
        return Ok((copied(slice_subrange(text, 0, last)), 0));
    }
    let mut at: usize = 1;
    while at < text.len() && text[at] != '+' && text[at] != '-'
        invariant
            1 <= at <= text.len(),
            forall|i: int| 1 <= i < at ==> text@[i] != '+' && text@[i] != '-',
        decreases text.len() - at,
    {
        at += 1;
    }
    proof {
        let rest = text@.drop_first();
        assert forall|i: int| 0 <= i < at - 1 implies rest[i] != '+' && rest[i] != '-' by {
            assert(rest[i] == text@[i + 1]);
        }
        first_sign_at(rest, at - 1);
    }
    if at >= text.len() {
        return Ok((copied(text), 0));
    }
    assert(text@.subrange(at + 1, text@.len() as int) =~= text@.skip(at + 1));
    match read_clock(slice_subrange(text, at + 1, text.len())) {
        Some(ahead) => {
            assert(text@.subrange(0, at as int) =~= text@.take(at as int));
            let signed: i64 = if text[at] == '-' {
                -(ahead as i64)
            } else {
                ahead as i64
            };
            Ok((copied(slice_subrange(text, 0, at)), signed))
        },
        None => Err(TimeError::Unrecognised),
    }
}

/// Splits `12:00:00Z` or `12:00:00+01:00` into the time of day and its offset
/// from UTC in seconds.
pub fn split_offset(rest: &str) -> (parts: Result<(String, i64), TimeError>)
    ensures
        zoned(rest@) == (match parts {
            Ok(parts) => Ok((parts.0@, parts.1 as int)),
            Err(error) => Err(error),
        }),
{
    let chars: Vec<char> = chars_of(rest);
    match read_offset(chars.as_slice()) {
        Ok((time, offset)) => Ok((text_of(time.as_slice()), offset)),
        Err(error) => Err(error),
    }
}

// --- stamps ---------------------------------------------------------------------

/// Where a date ends: at the first `T`, `t` or space, or with the text.
pub open spec fn date_end(text: Seq<char>) -> int
    decreases text.len(),
{
    if text.len() == 0 || text[0] == 'T' || text[0] == 't' || text[0] == ' ' {
        0
    } else {
        1 + date_end(text.drop_first())
    }
}

/// Days since the epoch for `YYYY-MM-DD`, if there is such a date.
pub open spec fn date_days(text: Seq<char>) -> Option<int> {
    let fields = pieces(text, '-');
    if fields.len() != 3 {
        None
    } else {
        match (integer(fields[0]), natural_up_to(fields[1], 12), natural_up_to(fields[2], 31)) {
            (Some(year), Some(month), Some(day)) => if i64::MIN <= year <= i64::MAX && 1 <= month && 1 <= day
                && day <= month_length(year, month as int) {
                Some(civil_days(year, month as int, day as int))
            } else {
                None
            },
            _ => None,
        }
    }
}

/// Whether a number of seconds is one that 64 bits hold.
pub open spec fn fits(seconds: int) -> bool {
    i64::MIN <= seconds <= i64::MAX
}

/// The point in time a number of days, a time of day and an offset name.
pub open spec fn moment(days: int, clock: int, offset: int) -> Result<SystemTime, TimeError> {
    let midnight = days * 86_400;
    if fits(midnight) && fits(midnight + clock) && fits(midnight + clock - offset) && midnight + clock - offset
        >= 0 {
        time_at((midnight + clock - offset) as nat)
    } else {
        Err(TimeError::OutOfRange)
    }
}

/// The point in time an RFC 3339 stamp names, to whole seconds.
#[verifier::opaque]
pub open spec fn stamp_time(text: Seq<char>) -> Result<SystemTime, TimeError> {
    let at = date_end(text);
    if at >= text.len() {
        Err(TimeError::Unrecognised)
    } else {
        match zoned(text.skip(at + 1)) {
            Ok((time, offset)) => match (clock_seconds(time.take(first_of(time, '.'))), date_days(text.take(at))) {
                (Some(clock), Some(days)) => moment(days, clock as int, offset),
                _ => Err(TimeError::Unrecognised),
            },
            Err(error) => Err(error),
        }
    }
}

proof fn date_end_at(text: Seq<char>, at: int)
    requires
        0 <= at <= text.len(),
        forall|i: int| 0 <= i < at ==> text[i] != 'T' && text[i] != 't' && text[i] != ' ',
        at < text.len() ==> text[at] == 'T' || text[at] == 't' || text[at] == ' ',
    ensures
        date_end(text) == at,
    decreases at,
{
    if at > 0 {
        let rest = text.drop_first();
        assert forall|i: int| 0 <= i < at - 1 implies rest[i] != 'T' && rest[i] != 't' && rest[i] != ' ' by {
            assert(rest[i] == text[i + 1]);
        }
        date_end_at(rest, at - 1);
    }
}

/// A date so far off that its seconds do not fit is told apart by its year.
proof fn far_years_do_not_fit(year: int, month: int, day: int)
    requires
        1 <= month <= 12,
        1 <= day <= 31,
    ensures
        year > 300_000_000_000 ==> civil_days(year, month, day) * 86_400 > i64::MAX,
        year < -300_000_000_000 ==> civil_days(year, month, day) * 86_400 < i64::MIN,
{
    year_start_closed(year);
    months_closed(year, month);
}

fn read_stamp(text: &[char]) -> (time: Result<SystemTime, TimeError>)
    ensures
        time == stamp_time(text@),
{
    reveal(stamp_time);
    let mut at: usize = 0;
    while at < text.len() && text[at] != 'T' && text[at] != 't' && text[at] != ' '
        invariant
            at <= text.len(),
            forall|i: int| 0 <= i < at ==> text@[i] != 'T' && text@[i] != 't' && text@[i] != ' ',
        decreases text.len() - at,
    {
        at += 1;
    }
    proof {
        date_end_at(text@, at as int);
    }
    if at >= text.len() {
        return Err(TimeError::Unrecognised);
    }
    assert(text@.subrange(at + 1, text@.len() as int) =~= text@.skip(at + 1));
    assert(text@.subrange(0, at as int) =~= text@.take(at as int));
    let (time, offset) = match read_offset(slice_subrange(text, at + 1, text.len())) {
        Ok(parts) => parts,
        Err(error) => return Err(error),
    };
    let point: usize = find(time.as_slice(), '.');
    assert(time@.subrange(0, point as int) =~= time@.take(point as int));
    let clock: u64 = match read_clock(slice_subrange(time.as_slice(), 0, point)) {
        Some(clock) => clock,
        None => return Err(TimeError::Unrecognised),
    };

    let fields: Vec<Vec<char>> = split(slice_subrange(text, 0, at), '-');
    assert forall|i: int| 0 <= i < fields.len() implies fields.deep_view()[i] == (#[trigger] fields[i])@ by {
        assert(fields[i].deep_view() =~= fields[i]@);
    }
    if fields.len() != 3 {
        return Err(TimeError::Unrecognised);
    }
    let year: i64 = match parse_integer(fields[0].as_slice()) {
        Some(year) => year,
        None => return Err(TimeError::Unrecognised),
    };
    let month: u32 = match parse_natural(fields[1].as_slice(), 12) {
        Some(month) => month as u32,
        None => return Err(TimeError::Unrecognised),
    };
    let day: u32 = match parse_natural(fields[2].as_slice(), 31) {
        Some(day) => day as u32,
        None => return Err(TimeError::Unrecognised),
    };
    if month < 1 || day < 1 || day > days_in_month(year, month) {
        return Err(TimeError::Unrecognised);
    }

    proof {
        far_years_do_not_fit(year as int, month as int, day as int);
    }
    if year > 300_000_000_000 || year < -300_000_000_000 {
        return Err(TimeError::OutOfRange);
    }
    let days: i64 = days_from_civil(year, month, day);
    let midnight: i64 = match days.checked_mul(86_400) {
        Some(midnight) => midnight,
        None => return Err(TimeError::OutOfRange),
    };
    let local: i64 = match midnight.checked_add(clock as i64) {
        Some(local) => local,
        None => return Err(TimeError::OutOfRange),
    };
    let seconds: i64 = match local.checked_sub(offset) {
        Some(seconds) => seconds,
        None => return Err(TimeError::OutOfRange),
    };
    if seconds < 0 {
        return Err(TimeError::OutOfRange);
    }
    offset_epoch(seconds as u64)
}

/// An RFC 3339 stamp, to whole seconds.
///
/// A fraction of a second is dropped: log timestamps are looked for by the second.
pub fn parse_rfc3339(input: &str) -> (time: Result<SystemTime, TimeError>)
    ensures
        time == stamp_time(input@),
{
    let chars: Vec<char> = chars_of(input);
    read_stamp(chars.as_slice())
}

// --- what somebody types --------------------------------------------------------

/// The point in time that a typed text names: a span before `now`, a time of
/// the same day, or a stamp. All of it is UTC.
pub open spec fn typed_time(text: Seq<char>, now: SystemTime) -> Result<SystemTime, TimeError> {
    let typed = trimmed(text);
    if typed.len() == 0 {
        Err(TimeError::Empty)
    } else if typed[0] == '-' {
        match (span_seconds(typed.drop_first()), seconds_of(now)) {
            (Err(error), _) => Err(error),
            (Ok(_), Err(error)) => Err(error),
            (Ok(ago), Ok(seconds)) => if ago <= seconds {
                time_at((seconds - ago) as nat)
            } else {
                Err(TimeError::OutOfRange)
            },
        }
    } else {
        match clock_seconds(typed) {
            Some(clock) => match seconds_of(now) {
                Ok(seconds) => time_at((seconds - seconds % 86_400 + clock) as nat),
                Err(error) => Err(error),
            },
            None => stamp_time(typed),
        }
    }
}

/// Turns what somebody typed into a point in time.
///
/// `14:32` and `14:32:10` are times on the same day as `now`, `-5m` is a span
/// before it (`s`, `m`, `h` and `d` are the units), and `2026-08-18T14:32:00Z`
/// is a stamp, with an offset like `+01:00` or without one, and with a space in
/// place of the `T` if need be. Everything is UTC.
pub fn parse_time(input: &str, now: SystemTime) -> (time: Result<SystemTime, TimeError>)
    ensures
        time == typed_time(input@, now),
{
    let typed: Vec<char> = trim(input);
    if typed.len() == 0 {
        return Err(TimeError::Empty);
    }
    if typed[0] == '-' {
        assert(typed@.subrange(1, typed@.len() as int) =~= typed@.drop_first());
        let ago: u64 = match read_span(slice_subrange(typed.as_slice(), 1, typed.len())) {
            Ok(ago) => ago,
            Err(error) => return Err(error),
        };
        let seconds: u64 = match epoch_seconds(now) {
            Ok(seconds) => seconds,
            Err(error) => return Err(error),
        };
        if ago > seconds {
            return Err(TimeError::OutOfRange);
        }
        return offset_epoch(seconds - ago);
    }
    if let Some(clock) = read_clock(typed.as_slice()) {
        let seconds: u64 = match epoch_seconds(now) {
            Ok(seconds) => seconds,
            Err(error) => return Err(error),
        };
        return offset_epoch(seconds - seconds % DAY + clock);
    }
    read_stamp(typed.as_slice())
}

// --- laws -----------------------------------------------------------------------

/// Every accepted time is at or after the epoch and on a whole second.
pub proof fn typed_times_are_whole_seconds(text: Seq<char>, now: SystemTime)
    ensures
        typed_time(text, now) matches Ok(time) ==> time.secs >= 0 && time.nanos == 0,
{
    reveal(stamp_time);
}

/// A time of day stays on the day it is now.
pub proof fn a_clock_stays_on_the_same_day(text: Seq<char>, now: SystemTime)
    requires
        trimmed(text).len() > 0,
        trimmed(text)[0] != '-',
        clock_seconds(trimmed(text)) is Some,
        now.secs >= 0,
    ensures
        typed_time(text, now) matches Ok(time) ==> time.secs / 86_400 == now.secs / 86_400,
{
    clock_is_within_a_day(trimmed(text));
}

proof fn clock_is_within_a_day(text: Seq<char>)
    ensures
        clock_seconds(text) matches Some(seconds) ==> seconds < 86_400,
{
}

/// A span names a point that is not after now.
pub proof fn a_span_is_in_the_past(text: Seq<char>, now: SystemTime)
    requires
        trimmed(text).len() > 0,
        trimmed(text)[0] == '-',
    ensures
        typed_time(text, now) matches Ok(time) ==> time.secs <= now.secs,
{
}

/// The day after a date is one day later, within a month and across its end.
pub proof fn days_follow_each_other(year: int, month: int, day: int)
    requires
        1 <= month <= 12,
        1 <= day <= month_length(year, month),
    ensures
        day < month_length(year, month) ==> civil_days(year, month, day + 1) == civil_days(year, month, day) + 1,
        day == month_length(year, month) && month < 12 ==> civil_days(year, month + 1, 1) == civil_days(
            year,
            month,
            day,
        ) + 1,
        day == month_length(year, month) && month == 12 ==> civil_days(year + 1, 1, 1) == civil_days(
            year,
            month,
            day,
        ) + 1,
        civil_days(1970, 1, 1) == 0,
{
    reveal_with_fuel(days_before_month, 13);
    year_start_closed(year);
    year_start_closed(year + 1);
}

} // verus!
