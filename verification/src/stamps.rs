//! What typed times mean, digit by digit.

use crate::clock::SystemTime;
use crate::logview::{three_pieces, two_digits, two_digits_read_back};
use crate::text::{
    decimal, decimal_reads_back, digits, first_of, first_of_is_first, integer, natural, pieces,
    start_trimmed, trimmed, white,
};
use crate::times::{
    civil_days, clock_seconds, date_days, date_end, first_sign, moment, month_length, stamp_time, typed_time,
    zoned, TimeError,
};
use vstd::prelude::*;

verus! {

/// Whether a character is a decimal digit.
pub open spec fn is_digit(c: char) -> bool {
    '0' <= c <= '9'
}

/// `HH:MM:SS`, two digits each.
pub open spec fn clock_text(hours: nat, minutes: nat, seconds: nat) -> Seq<char> {
    two_digits(hours).push(':') + two_digits(minutes).push(':') + two_digits(seconds)
}

/// `HH:MM`, two digits each.
pub open spec fn short_clock_text(hours: nat, minutes: nat) -> Seq<char> {
    two_digits(hours).push(':') + two_digits(minutes)
}

/// `YYYY-MM-DD`, the month and the day of two digits each.
pub open spec fn date_text(year: nat, month: nat, day: nat) -> Seq<char> {
    decimal(year).push('-') + two_digits(month).push('-') + two_digits(day)
}

/// Whether a text is a fraction of a second, or nothing.
pub open spec fn is_fraction(text: Seq<char>) -> bool {
    text.len() == 0 || (text[0] == '.' && forall|i: int| 1 <= i < text.len() ==> is_digit(#[trigger] text[i]))
}

pub(crate) proof fn decimals_are_digits(n: nat)
    ensures
        forall|i: int| 0 <= i < decimal(n).len() ==> is_digit(#[trigger] decimal(n)[i]),
    decreases n,
{
    if n >= 10 {
        decimals_are_digits(n / 10);
        let text = decimal(n);
        assert forall|i: int| 0 <= i < text.len() implies is_digit(#[trigger] text[i]) by {
            if i < text.len() - 1 {
                assert(text[i] == decimal(n / 10)[i]);
            }
        }
    }
}

proof fn clocks_read_back(hours: nat, minutes: nat, seconds: nat)
    requires
        hours < 24,
        minutes < 60,
        seconds < 60,
    ensures
        clock_seconds(clock_text(hours, minutes, seconds)) == Some(hours * 3_600 + minutes * 60 + seconds),
        clock_seconds(short_clock_text(hours, minutes)) == Some(hours * 3_600 + minutes * 60),
{
    let (a, b, c) = (two_digits(hours), two_digits(minutes), two_digits(seconds));
    two_digits_read_back(hours);
    two_digits_read_back(minutes);
    two_digits_read_back(seconds);
    three_pieces(a, b, c, ':');
    three_pieces(c, a, b, ':');
    let (long, short) = (pieces(clock_text(hours, minutes, seconds), ':'), pieces(short_clock_text(hours, minutes), ':'));
    assert(long[0] == a && long[1] == b && long[2] == c);
    assert(short[0] == a && short[1] == b);
}

/// `14:32:10` is that time of the day it is now, and `14:32` the first second
/// of that minute.
pub proof fn a_typed_clock_names_a_time_of_today(hours: nat, minutes: nat, seconds: nat, now: SystemTime)
    requires
        hours < 24,
        minutes < 60,
        seconds < 60,
        0 <= now.secs < 0x7fff_ffff_ffff_0000,
    ensures
        ({
            let midnight = now.secs - now.secs % 86_400;
            &&& typed_time(clock_text(hours, minutes, seconds), now) matches Ok(time) && time.nanos == 0 && time.secs
                == midnight + hours * 3_600 + minutes * 60 + seconds
            &&& typed_time(short_clock_text(hours, minutes), now) matches Ok(time) && time.nanos == 0 && time.secs
                == midnight + hours * 3_600 + minutes * 60
        }),
{
    clocks_read_back(hours, minutes, seconds);
    clocks_stand_alone(hours, minutes, seconds);
    a_clock_is_counted_from_midnight(clock_text(hours, minutes, seconds), now);
    a_clock_is_counted_from_midnight(short_clock_text(hours, minutes), now);
}

proof fn a_clock_is_counted_from_midnight(text: Seq<char>, now: SystemTime)
    requires
        trimmed(text) == text,
        text.len() > 0,
        text[0] != '-',
        clock_seconds(text) is Some,
        (clock_seconds(text)->0) < 86_400,
        0 <= now.secs < 0x7fff_ffff_ffff_0000,
    ensures
        typed_time(text, now) matches Ok(time) && time.nanos == 0 && time.secs == now.secs - now.secs % 86_400 + (
        clock_seconds(text)->0),
{
}

proof fn clocks_stand_alone(hours: nat, minutes: nat, seconds: nat)
    requires
        hours < 24,
        minutes < 60,
        seconds < 60,
    ensures
        trimmed(clock_text(hours, minutes, seconds)) == clock_text(hours, minutes, seconds),
        trimmed(short_clock_text(hours, minutes)) == short_clock_text(hours, minutes),
        is_digit(clock_text(hours, minutes, seconds)[0]),
        is_digit(short_clock_text(hours, minutes)[0]),
        clock_text(hours, minutes, seconds).len() == 8,
        short_clock_text(hours, minutes).len() == 5,
{
    let (long, short) = (clock_text(hours, minutes, seconds), short_clock_text(hours, minutes));
    two_digits_read_back(hours);
    two_digits_read_back(minutes);
    two_digits_read_back(seconds);
    assert(long[0] == two_digits(hours)[0] && short[0] == two_digits(hours)[0]);
    assert(long.last() == two_digits(seconds)[1] && short.last() == two_digits(minutes)[1]);
    digits_are_not_trimmed(long);
    digits_are_not_trimmed(short);
}

/// A text between two digits is not trimmed.
proof fn digits_are_not_trimmed(text: Seq<char>)
    requires
        text.len() > 0,
        !white(text[0]),
        !white(text.last()),
    ensures
        trimmed(text) == text,
{
    assert(start_trimmed(text) == text);
}

/// `-5m` is five minutes before now: a count of seconds, minutes, hours or days
/// is that many of them ago.
pub proof fn a_typed_span_is_that_long_ago(count: nat, now: SystemTime)
    requires
        now.secs >= 0,
    ensures
        ({
            let ago = |unit: char| typed_time(seq!['-'] + decimal(count).push(unit), now);
            let at = |seconds: int| Ok::<SystemTime, TimeError>(SystemTime { secs: seconds as i64, nanos: 0 });
            &&& count <= now.secs ==> ago('s') == at(now.secs - count)
            &&& count * 60 <= now.secs ==> ago('m') == at(now.secs - count * 60)
            &&& count * 3_600 <= now.secs ==> ago('h') == at(now.secs - count * 3_600)
            &&& count * 86_400 <= now.secs ==> ago('d') == at(now.secs - count * 86_400)
        }),
{
    decimal_reads_back(count);
    let base = decimal(count);
    a_span_has_its_parts(base, 's');
    a_span_has_its_parts(base, 'm');
    a_span_has_its_parts(base, 'h');
    a_span_has_its_parts(base, 'd');
}

proof fn a_span_has_its_parts(count: Seq<char>, unit: char)
    requires
        !white(unit),
    ensures
        ({
            let text = seq!['-'] + count.push(unit);
            &&& trimmed(text) == text
            &&& text[0] == '-'
            &&& text.drop_first() == count.push(unit)
            &&& count.push(unit).drop_last() == count
            &&& count.push(unit).last() == unit
        }),
{
    let text = seq!['-'] + count.push(unit);
    digits_are_not_trimmed(text);
    assert(text.drop_first() =~= count.push(unit));
    assert(count.push(unit).drop_last() =~= count);
}

proof fn first_sign_is(text: Seq<char>, at: int)
    requires
        0 <= at <= text.len(),
        forall|i: int| 0 <= i < at ==> text[i] != '+' && text[i] != '-',
        at < text.len() ==> text[at] == '+' || text[at] == '-',
    ensures
        first_sign(text) == at,
    decreases at,
{
    if at > 0 {
        let rest = text.drop_first();
        assert forall|i: int| 0 <= i < at - 1 implies rest[i] != '+' && rest[i] != '-' by {
            assert(rest[i] == text[i + 1]);
        }
        first_sign_is(rest, at - 1);
    }
}

proof fn date_end_is(text: Seq<char>, at: int)
    requires
        0 <= at < text.len(),
        forall|i: int| 0 <= i < at ==> text[i] == '-' || is_digit(#[trigger] text[i]),
        text[at] == 'T' || text[at] == 't' || text[at] == ' ',
    ensures
        date_end(text) == at,
    decreases at,
{
    if at > 0 {
        let rest = text.drop_first();
        assert(is_digit(text[0]) || text[0] == '-');
        assert forall|i: int| 0 <= i < at - 1 implies rest[i] == '-' || is_digit(#[trigger] rest[i]) by {
            assert(rest[i] == text[i + 1]);
        }
        date_end_is(rest, at - 1);
    }
}

/// How far a zone is ahead of UTC, in seconds, by its digits.
pub open spec fn zone_seconds(sign: char, hours: nat, minutes: nat) -> int {
    if sign == '-' {
        -(hours as int * 3_600 + minutes * 60)
    } else {
        hours as int * 3_600 + minutes * 60
    }
}

/// The zone of a time of day, with or without a fraction behind it, is what
/// stands behind it: `Z`, nothing, or a sign, hours and minutes.
proof fn zones_read_back(time: Seq<char>, sign: char, hours: nat, minutes: nat)
    requires
        time.len() > 0,
        forall|i: int| 0 <= i < time.len() ==> time[i] == ':' || time[i] == '.' || is_digit(#[trigger] time[i]),
        sign == '+' || sign == '-',
        hours < 24,
        minutes < 60,
    ensures
        zoned(time.push('Z')) == Ok::<(Seq<char>, int), TimeError>((time, 0)),
        zoned(time.push('z')) == Ok::<(Seq<char>, int), TimeError>((time, 0)),
        zoned(time) == Ok::<(Seq<char>, int), TimeError>((time, 0)),
        zoned(time.push(sign) + short_clock_text(hours, minutes)) == Ok::<(Seq<char>, int), TimeError>(
            (time, zone_seconds(sign, hours, minutes)),
        ),
{
    assert(time.push('Z').drop_last() =~= time);
    assert(time.push('z').drop_last() =~= time);
    let bare = time.drop_first();
    assert forall|i: int| 0 <= i < bare.len() implies bare[i] != '+' && bare[i] != '-' by {
        assert(bare[i] == time[i + 1]);
    }
    assert(time.last() == ':' || time.last() == '.' || is_digit(time.last()));
    first_sign_is(bare, bare.len() as int);
    let zone = short_clock_text(hours, minutes);
    let text = time.push(sign) + zone;
    two_digits_read_back(minutes);
    clocks_read_back(hours, minutes, 0);
    let rest = text.drop_first();
    assert forall|i: int| 0 <= i < bare.len() implies rest[i] != '+' && rest[i] != '-' by {
        assert(rest[i] == bare[i]);
    }
    assert(rest[bare.len() as int] == sign);
    first_sign_is(rest, bare.len() as int);
    assert(text.last() == two_digits(minutes)[1]);
    assert(is_digit(text.last()));
    assert(text.take(time.len() as int) =~= time);
    assert(text.skip(time.len() as int + 1) =~= zone);
    assert(text[time.len() as int] == sign);
}

/// A date is read by its year, its month and its day.
proof fn dates_read_back(year: nat, month: nat, day: nat)
    requires
        year <= 9_999,
        1 <= month <= 12,
        1 <= day <= month_length(year as int, month as int),
    ensures
        date_days(date_text(year, month, day)) == Some(civil_days(year as int, month as int, day as int)),
        forall|i: int|
            0 <= i < date_text(year, month, day).len() ==> date_text(year, month, day)[i] == '-' || is_digit(
                #[trigger] date_text(year, month, day)[i],
            ),
        date_text(year, month, day).len() > 0,
        is_digit(date_text(year, month, day)[0]),
{
    let (y, m, d) = (decimal(year), two_digits(month), two_digits(day));
    decimal_reads_back(year);
    decimals_are_digits(year);
    two_digits_read_back(month);
    two_digits_read_back(day);
    three_pieces(y, m, d, '-');
    let fields = pieces(date_text(year, month, day), '-');
    assert(fields[0] == y && fields[1] == m && fields[2] == d);
    assert(is_digit(y[0]));
    assert(integer(y) == Some(year as int));
}

/// A stamp names the moment its digits say: so many days after the epoch by its
/// date, so many seconds into that day by its time of day, and, with a zone of
/// `+hh:mm`, that many hours and minutes earlier, or later with `-hh:mm`. `Z`,
/// `z` and no zone at all are UTC; a fraction of a second is dropped; `T`, `t`
/// and a space are all the same.
pub proof fn a_stamp_names_what_its_digits_say(
    date: (nat, nat, nat),
    between: char,
    clock: (nat, nat, nat),
    fraction: Seq<char>,
    zone: (char, nat, nat),
)
    requires
        1970 <= date.0 <= 9_999,
        1 <= date.1 <= 12,
        1 <= date.2 <= month_length(date.0 as int, date.1 as int),
        between == 'T' || between == 't' || between == ' ',
        clock.0 < 24,
        clock.1 < 60,
        clock.2 < 60,
        is_fraction(fraction),
        zone.0 == '+' || zone.0 == '-',
        zone.1 < 24,
        zone.2 < 60,
    ensures
        ({
            let stamp = date_text(date.0, date.1, date.2).push(between) + clock_text(clock.0, clock.1, clock.2)
                + fraction;
            let utc = civil_days(date.0 as int, date.1 as int, date.2 as int) * 86_400 + clock.0 * 3_600 + clock.1 * 60
                + clock.2;
            let behind = if zone.0 == '-' {
                utc + zone.1 * 3_600 + zone.2 * 60
            } else {
                utc - zone.1 * 3_600 - zone.2 * 60
            };
            let at = |seconds: int| Ok::<SystemTime, TimeError>(SystemTime { secs: seconds as i64, nanos: 0 });
            &&& utc >= 0
            &&& stamp_time(stamp.push('Z')) == at(utc)
            &&& stamp_time(stamp.push('z')) == at(utc)
            &&& stamp_time(stamp) == at(utc)
            &&& behind >= 0 ==> stamp_time(stamp.push(zone.0) + short_clock_text(zone.1, zone.2)) == at(behind)
            &&& behind < 0 ==> stamp_time(stamp.push(zone.0) + short_clock_text(zone.1, zone.2)) == Err::<
                SystemTime,
                TimeError,
            >(TimeError::OutOfRange)
        }),
{
    let day = date_text(date.0, date.1, date.2);
    let hours = clock_text(clock.0, clock.1, clock.2);
    let time = hours + fraction;
    let stamp = day.push(between) + hours + fraction;
    let zone_text = short_clock_text(zone.1, zone.2);
    let days = civil_days(date.0 as int, date.1 as int, date.2 as int);
    let seconds = clock.0 * 3_600 + clock.1 * 60 + clock.2;
    dates_read_back(date.0, date.1, date.2);
    clocks_read_back(clock.0, clock.1, clock.2);
    times_are_plain(clock.0, clock.1, clock.2, fraction);
    dates_are_after_the_epoch(date.0 as int, date.1 as int, date.2 as int);
    a_stamp_in_utc(day, between, time, days, seconds);
    a_stamp_in_a_zone(day, between, time, days, seconds, zone);
    assert(stamp =~= day.push(between) + time);
    assert(stamp.push('Z') =~= day.push(between) + time.push('Z'));
    assert(stamp.push('z') =~= day.push(between) + time.push('z'));
    assert(stamp.push(zone.0) + zone_text =~= day.push(between) + (time.push(zone.0) + zone_text));
}

/// Whether a text is a date and a time of day that are read as so many days and
/// so many seconds.
spec fn is_read_as(day: Seq<char>, between: char, time: Seq<char>, days: int, clock: nat) -> bool {
    &&& forall|i: int| 0 <= i < day.len() ==> day[i] == '-' || is_digit(#[trigger] day[i])
    &&& between == 'T' || between == 't' || between == ' '
    &&& time.len() > 0
    &&& forall|i: int| 0 <= i < time.len() ==> time[i] == ':' || time[i] == '.' || is_digit(#[trigger] time[i])
    &&& date_days(day) == Some(days)
    &&& clock_seconds(time.take(first_of(time, '.'))) == Some(clock)
}

proof fn a_stamp_in_utc(day: Seq<char>, between: char, time: Seq<char>, days: int, clock: nat)
    requires
        is_read_as(day, between, time, days, clock),
    ensures
        stamp_time(day.push(between) + time) == moment(days, clock as int, 0),
        stamp_time(day.push(between) + time.push('Z')) == moment(days, clock as int, 0),
        stamp_time(day.push(between) + time.push('z')) == moment(days, clock as int, 0),
{
    zones_read_back(time, '+', 0, 0);
    a_stamp_has_its_parts(day, between, time);
    a_stamp_has_its_parts(day, between, time.push('Z'));
    a_stamp_has_its_parts(day, between, time.push('z'));
}

proof fn a_stamp_in_a_zone(
    day: Seq<char>,
    between: char,
    time: Seq<char>,
    days: int,
    clock: nat,
    zone: (char, nat, nat),
)
    requires
        is_read_as(day, between, time, days, clock),
        zone.0 == '+' || zone.0 == '-',
        zone.1 < 24,
        zone.2 < 60,
    ensures
        stamp_time(day.push(between) + (time.push(zone.0) + short_clock_text(zone.1, zone.2))) == moment(
            days,
            clock as int,
            zone_seconds(zone.0, zone.1, zone.2),
        ),
{
    zones_read_back(time, zone.0, zone.1, zone.2);
    a_stamp_has_its_parts(day, between, time.push(zone.0) + short_clock_text(zone.1, zone.2));
}

/// A time of day with a fraction is made of digits, colons and a point, and is
/// the time of day up to the point.
proof fn times_are_plain(hours: nat, minutes: nat, seconds: nat, fraction: Seq<char>)
    requires
        hours < 24,
        minutes < 60,
        seconds < 60,
        is_fraction(fraction),
    ensures
        ({
            let time = clock_text(hours, minutes, seconds) + fraction;
            &&& time.len() > 0
            &&& forall|i: int|
                0 <= i < time.len() ==> time[i] == ':' || time[i] == '.' || is_digit(#[trigger] time[i])
            &&& time.take(first_of(time, '.')) == clock_text(hours, minutes, seconds)
        }),
{
    let clock = clock_text(hours, minutes, seconds);
    let time = clock + fraction;
    two_digits_read_back(hours);
    two_digits_read_back(minutes);
    two_digits_read_back(seconds);
    assert forall|i: int| 0 <= i < time.len() implies time[i] == ':' || time[i] == '.' || is_digit(
        #[trigger] time[i],
    ) by {
        if i < clock.len() {
            assert(time[i] == clock[i]);
        } else {
            assert(time[i] == fraction[i - clock.len()]);
        }
    }
    first_of_is_first(time, '.');
    assert(first_of(time, '.') == clock.len()) by {
        let at = first_of(time, '.');
        if at < clock.len() {
            assert(time[at] == clock[at]);
        }
        if at > clock.len() {
            assert(time[clock.len() as int] == fraction[0]);
        }
    }
    assert(time.take(first_of(time, '.')) =~= clock);
}

/// What stands before and behind the first separator of a stamp decides it.
proof fn a_stamp_has_its_parts(day: Seq<char>, between: char, rest: Seq<char>)
    requires
        forall|i: int| 0 <= i < day.len() ==> day[i] == '-' || is_digit(#[trigger] day[i]),
        between == 'T' || between == 't' || between == ' ',
    ensures
        stamp_time(day.push(between) + rest) == (match zoned(rest) {
            Ok((time, offset)) => match (clock_seconds(time.take(first_of(time, '.'))), date_days(day)) {
                (Some(clock), Some(days)) => moment(days, clock as int, offset),
                _ => Err(TimeError::Unrecognised),
            },
            Err(error) => Err(error),
        }),
{
    reveal(stamp_time);
    let text = day.push(between) + rest;
    let at = day.len() as int;
    assert forall|i: int| 0 <= i < at implies text[i] == '-' || is_digit(#[trigger] text[i]) by {
        assert(text[i] == day[i]);
    }
    assert(text[at] == between);
    date_end_is(text, at);
    assert(text.take(at) =~= day);
    assert(text.skip(at + 1) =~= rest);
}

/// Dates from 1970 on are at or after the epoch, and those up to 9999 not far.
proof fn dates_are_after_the_epoch(year: int, month: int, day: int)
    requires
        1970 <= year <= 9_999,
        1 <= month <= 12,
        1 <= day <= 31,
    ensures
        0 <= civil_days(year, month, day) <= 366 * 8_030 + 400,
{
    years_add_up(year);
    reveal_with_fuel(crate::times::days_before_month, 13);
}

proof fn years_add_up(year: int)
    requires
        1970 <= year,
    ensures
        0 <= crate::times::year_start(year) <= 366 * (year - 1970),
    decreases year,
{
    if year > 1970 {
        years_add_up(year - 1);
    }
}

/// A stamp with a zone names a point that many hours and minutes from the one
/// the same stamp with `Z` names: earlier with `+`, later with `-`.
pub proof fn a_zone_shifts_by_its_digits(local: Seq<char>, cut: int, hours: nat, minutes: nat)
    requires
        0 <= cut < local.len() - 1,
        forall|i: int| 0 <= i < cut ==> local[i] == '-' || is_digit(#[trigger] local[i]),
        local[cut] == 'T' || local[cut] == 't' || local[cut] == ' ',
        forall|i: int|
            cut < i < local.len() ==> local[i] == ':' || local[i] == '.' || is_digit(#[trigger] local[i]),
        hours < 24,
        minutes < 60,
        stamp_time(local.push('Z')) is Ok,
    ensures
        ({
            let utc = stamp_time(local.push('Z'))->Ok_0.secs;
            let shift = hours * 3_600 + minutes * 60;
            let at = |seconds: int| Ok::<SystemTime, TimeError>(SystemTime { secs: seconds as i64, nanos: 0 });
            &&& utc - shift >= 0 ==> stamp_time(local.push('+') + short_clock_text(hours, minutes)) == at(utc - shift)
            &&& utc + shift <= i64::MAX ==> stamp_time(local.push('-') + short_clock_text(hours, minutes)) == at(
                utc + shift,
            )
        }),
{
    let (day, time) = (local.take(cut), local.skip(cut + 1));
    let zone = short_clock_text(hours, minutes);
    assert forall|i: int| 0 <= i < time.len() implies time[i] == ':' || time[i] == '.' || is_digit(
        #[trigger] time[i],
    ) by {
        assert(time[i] == local[cut + 1 + i]);
    }
    assert forall|i: int| 0 <= i < day.len() implies day[i] == '-' || is_digit(#[trigger] day[i]) by {
        assert(day[i] == local[i]);
    }
    let start = day.push(local[cut]);
    assert(local.push('Z') =~= start + time.push('Z'));
    assert(local.push('+') + zone =~= start + (time.push('+') + zone));
    assert(local.push('-') + zone =~= start + (time.push('-') + zone));
    a_stamp_is_read(day, local[cut], time);
    let (days, clock) = (date_days(day)->0, clock_seconds(time.take(first_of(time, '.')))->0);
    a_stamp_in_utc(day, local[cut], time, days, clock);
    a_stamp_in_a_zone(day, local[cut], time, days, clock, ('+', hours, minutes));
    a_stamp_in_a_zone(day, local[cut], time, days, clock, ('-', hours, minutes));
}

/// A stamp that names a moment has a date and a time of day that are read.
proof fn a_stamp_is_read(day: Seq<char>, between: char, time: Seq<char>)
    requires
        forall|i: int| 0 <= i < day.len() ==> day[i] == '-' || is_digit(#[trigger] day[i]),
        between == 'T' || between == 't' || between == ' ',
        time.len() > 0,
        forall|i: int| 0 <= i < time.len() ==> time[i] == ':' || time[i] == '.' || is_digit(#[trigger] time[i]),
        stamp_time(day.push(between) + time.push('Z')) is Ok,
    ensures
        date_days(day) is Some,
        clock_seconds(time.take(first_of(time, '.'))) is Some,
{
    zones_read_back(time, '+', 0, 0);
    a_stamp_has_its_parts(day, between, time.push('Z'));
}

/// A stamp that is typed or pasted is read as a stamp, white space around it or
/// not.
pub proof fn a_typed_stamp_is_read_as_one(text: Seq<char>, cut: int, now: SystemTime)
    requires
        0 < cut < trimmed(text).len(),
        forall|i: int| 0 <= i < cut ==> trimmed(text)[i] == '-' || is_digit(#[trigger] trimmed(text)[i]),
        is_digit(trimmed(text)[0]),
        trimmed(text)[cut] == 'T' || trimmed(text)[cut] == 't' || trimmed(text)[cut] == ' ',
    ensures
        typed_time(text, now) == stamp_time(trimmed(text)),
{
    let typed = trimmed(text);
    let at = first_of(typed, ':');
    first_of_is_first(typed, ':');
    if at <= cut && at < typed.len() {
        assert(typed[at] == ':');
        if at < cut {
            assert(typed[at] == '-' || is_digit(typed[at]));
        }
    }
    if at < typed.len() {
        let start = typed.take(at);
        assert(start[cut] == typed[cut]);
        assert(start[0] == typed[0]);
        digits_have_no_letters(start, cut);
        assert(pieces(typed, ':')[0] == start);
    } else {
        assert(pieces(typed, ':').len() == 1);
    }
}

/// A text with a letter or a space in it is no number.
proof fn digits_have_no_letters(text: Seq<char>, at: int)
    requires
        0 <= at < text.len(),
        !is_digit(text[at]),
    ensures
        digits(text) is None,
        text[0] != '+' ==> natural(text) is None,
    decreases text.len(),
{
    if text.len() > 1 && at < text.len() - 1 {
        assert(text.drop_last()[at] == text[at]);
        digits_have_no_letters(text.drop_last(), at);
    }
}

} // verus!
