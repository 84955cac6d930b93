//! Text: comparing, searching, trimming, and numbers written in it.

use vstd::prelude::*;
use vstd::slice::slice_subrange;

verus! {

// --- comparing ----------------------------------------------------------------

/// Whether one text sorts strictly before another: the first character that
/// differs decides by its code point, and a text sorts before anything it begins.
pub open spec fn text_before(a: Seq<char>, b: Seq<char>) -> bool
    decreases b.len(),
{
    if b.len() == 0 {
        false
    } else if a.len() == 0 {
        true
    } else if a[0] != b[0] {
        a[0] < b[0]
    } else {
        text_before(a.drop_first(), b.drop_first())
    }
}

/// `<` on `str`: the order of the characters' code points, the first that
/// differs deciding, which is what std documents for the order of strings.
#[verifier::external_body]
pub(crate) fn is_text_before(a: &str, b: &str) -> (first: bool)
    ensures
        first == text_before(a@, b@),
{
    a < b
}

proof fn text_not_before_itself(a: Seq<char>)
    ensures
        !text_before(a, a),
    decreases a.len(),
{
    if a.len() > 0 {
        text_not_before_itself(a.drop_first());
    }
}

/// Texts are totally ordered: none is before itself, "before" carries across,
/// and of two different texts one is before the other.
pub proof fn text_order(a: Seq<char>, b: Seq<char>, c: Seq<char>)
    ensures
        !text_before(a, a),
        !(text_before(a, b) && text_before(b, a)),
        text_before(a, b) && text_before(b, c) ==> text_before(a, c),
        a == b || text_before(a, b) || text_before(b, a),
    decreases a.len() + b.len() + c.len(),
{
    text_not_before_itself(a);
    if a.len() > 0 && b.len() > 0 {
        let (x, y) = (a.drop_first(), b.drop_first());
        if c.len() > 0 {
            text_order(x, y, c.drop_first());
        } else {
            text_order(x, y, c);
        }
        if a[0] == b[0] && x == y {
            assert(a =~= seq![a[0]] + x);
            assert(b =~= seq![b[0]] + y);
        }
    } else if a.len() == 0 && b.len() == 0 {
        assert(a =~= b);
    }
}

/// `==` on `str`: whether two texts hold the same characters.
#[verifier::external_body]
pub(crate) fn is_text(a: &str, b: &str) -> (equal: bool)
    ensures
        equal == (a@ == b@),
{
    a == b
}

// --- case ---------------------------------------------------------------------

/// The lowercase form of a text, by `str::to_lowercase`.
pub uninterp spec fn lowercase(text: Seq<char>) -> Seq<char>;

/// The uppercase form of a text, by `str::to_uppercase`.
pub uninterp spec fn uppercase(text: Seq<char>) -> Seq<char>;

/// `str::to_lowercase`: the Unicode lowercase mapping of the whole text, which
/// depends on nothing but the text.
#[verifier::external_body]
pub(crate) fn to_lowercase(text: &str) -> (lower: String)
    ensures
        lower@ == lowercase(text@),
{
    text.to_lowercase()
}

/// `str::to_uppercase`: the Unicode uppercase mapping of the whole text, which
/// depends on nothing but the text.
#[verifier::external_body]
pub(crate) fn to_uppercase(text: &str) -> (upper: String)
    ensures
        upper@ == uppercase(text@),
{
    text.to_uppercase()
}

/// An ASCII letter's lowercase, and every other character itself.
pub open spec fn ascii_lower(c: char) -> char {
    if 'A' <= c <= 'Z' {
        ((c as u8) + 32u8) as char
    } else {
        c
    }
}

/// An ASCII letter's lowercase, and every other character itself.
pub fn to_ascii_lower(c: char) -> (lower: char)
    ensures
        lower == ascii_lower(c),
{
    if 'A' <= c && c <= 'Z' {
        ((c as u8) + 32u8) as char
    } else {
        c
    }
}

/// A text with its ASCII letters in lowercase.
pub open spec fn ascii_folded(text: Seq<char>) -> Seq<char> {
    text.map_values(|c: char| ascii_lower(c))
}

/// Whether two runs of characters are equal once ASCII case is ignored.
pub fn equal_ignoring_ascii_case(a: &[char], b: &[char]) -> (equal: bool)
    ensures
        equal == (ascii_folded(a@) == ascii_folded(b@)),
{
    if a.len() != b.len() {
        assert(ascii_folded(a@).len() != ascii_folded(b@).len());
        return false;
    }
    let mut at: usize = 0;
    while at < a.len()
        invariant
            at <= a.len(),
            a.len() == b.len(),
            forall|i: int| 0 <= i < at ==> ascii_lower(#[trigger] a@[i]) == ascii_lower(b@[i]),
        decreases a.len() - at,
    {
        if to_ascii_lower(a[at]) != to_ascii_lower(b[at]) {
            assert(ascii_folded(a@)[at as int] != ascii_folded(b@)[at as int]);
            return false;
        }
        at += 1;
    }
    assert(ascii_folded(a@) =~= ascii_folded(b@));
    true
}

// --- searching ----------------------------------------------------------------

/// Whether `part` stands somewhere in `text`.
pub open spec fn holds(text: Seq<char>, part: Seq<char>) -> bool {
    exists|at: int| 0 <= at <= text.len() - part.len() && #[trigger] text.subrange(at, at + part.len()) == part
}

/// A text holds whatever it is put together from, and itself.
pub proof fn a_text_holds_its_parts(start: Seq<char>, part: Seq<char>, end: Seq<char>)
    ensures
        holds(start + part + end, part),
        holds(part, part),
{
    let whole = start + part + end;
    assert(whole.subrange(start.len() as int, start.len() as int + part.len()) =~= part);
    assert(part.subrange(0, 0int + part.len()) =~= part);
}

/// `str::contains` with a `&str` pattern: whether the pattern is a sub-slice
/// of the text.
#[verifier::external_body]
pub(crate) fn contains(text: &str, part: &str) -> (found: bool)
    ensures
        found == holds(text@, part@),
{
    text.contains(part)
}

/// The position of the first character equal to `wanted`, or the length.
pub open spec fn first_of(text: Seq<char>, wanted: char) -> int
    decreases text.len(),
{
    if text.len() == 0 || text[0] == wanted {
        0
    } else {
        1 + first_of(text.drop_first(), wanted)
    }
}

/// The first occurrence is within the text, nothing before it is equal to what
/// was asked for, and what stands there is.
pub proof fn first_of_is_first(text: Seq<char>, wanted: char)
    ensures
        0 <= first_of(text, wanted) <= text.len(),
        first_of(text, wanted) < text.len() ==> text[first_of(text, wanted)] == wanted,
        forall|i: int| 0 <= i < first_of(text, wanted) ==> text[i] != wanted,
    decreases text.len(),
{
    if text.len() > 0 && text[0] != wanted {
        let rest = text.drop_first();
        first_of_is_first(rest, wanted);
        assert forall|i: int| 0 <= i < first_of(text, wanted) implies text[i] != wanted by {
            if i > 0 {
                assert(rest[i - 1] == text[i]);
            }
        }
    }
}

proof fn first_of_at(text: Seq<char>, wanted: char, at: int)
    requires
        0 <= at <= text.len(),
        forall|i: int| 0 <= i < at ==> text[i] != wanted,
        at < text.len() ==> text[at] == wanted,
    ensures
        first_of(text, wanted) == at,
    decreases at,
{
    if at > 0 {
        let rest = text.drop_first();
        assert forall|i: int| 0 <= i < at - 1 implies rest[i] != wanted by {
            assert(rest[i] == text[i + 1]);
        }
        first_of_at(rest, wanted, at - 1);
    }
}

/// Where the first character equal to `wanted` stands, or the length if none does.
pub fn find(text: &[char], wanted: char) -> (at: usize)
    ensures
        at as int == first_of(text@, wanted),
        at <= text.len(),
{
    let mut at: usize = 0;
    while at < text.len() && text[at] != wanted
        invariant
            at <= text.len(),
            forall|i: int| 0 <= i < at ==> text@[i] != wanted,
        decreases text.len() - at,
    {
        at += 1;
    }
    proof {
        first_of_at(text@, wanted, at as int);
    }
    at
}

/// The pieces of a text between one separator: always at least one.
pub open spec fn pieces(text: Seq<char>, separator: char) -> Seq<Seq<char>>
    decreases text.len(),
{
    let at = first_of(text, separator);
    if 0 <= at < text.len() {
        seq![text.take(at)] + pieces(text.skip(at + 1), separator)
    } else {
        seq![text]
    }
}

/// Splits a text at every separator.
pub fn split(text: &[char], separator: char) -> (found: Vec<Vec<char>>)
    ensures
        found.deep_view() == pieces(text@, separator),
        found.len() > 0,
    decreases text.len(),
{
    let at: usize = find(text, separator);
    proof {
        first_of_is_first(text@, separator);
    }
    let mut found: Vec<Vec<char>> = Vec::new();
    found.push(copied(slice_subrange(text, 0, at)));
    assert(text@.subrange(0, at as int) =~= text@.take(at as int));
    if at < text.len() {
        let mut rest: Vec<Vec<char>> = split(slice_subrange(text, at + 1, text.len()), separator);
        assert(text@.subrange(at + 1, text@.len() as int) =~= text@.skip(at + 1));
        let ghost after = rest;
        found.append(&mut rest);
        assert(found.deep_view() =~= seq![text@.take(at as int)] + after.deep_view());
    } else {
        assert(text@.take(at as int) =~= text@);
        assert(found.deep_view() =~= seq![text@]);
    }
    found
}

// --- characters ---------------------------------------------------------------

/// `String::push`: appends one character.
pub assume_specification[ String::push ](text: &mut String, c: char)
    ensures
        final(text)@ == old(text)@.push(c),
;

/// The characters of a text.
pub fn chars_of(text: &str) -> (chars: Vec<char>)
    ensures
        chars@ == text@,
{
    broadcast use vstd::string::group_string_axioms;

    let mut chars: Vec<char> = Vec::new();
    for c in it: text.chars()
        invariant
            it.seq() == text@,
            chars@ == it.history(),
    {
        chars.push(c);
    }
    assert(chars@ =~= text@);
    chars
}

/// A text made of characters.
pub fn text_of(chars: &[char]) -> (text: String)
    ensures
        text@ == chars@,
{
    let mut text: String = String::new();
    let mut at: usize = 0;
    while at < chars.len()
        invariant
            at <= chars.len(),
            text@ == chars@.take(at as int),
        decreases chars.len() - at,
    {
        text.push(chars[at]);
        at += 1;
        assert(chars@.take(at as int) =~= chars@.take(at - 1).push(chars@[at - 1]));
    }
    assert(chars@.take(at as int) =~= chars@);
    text
}

/// A run of characters of its own.
pub fn copied(chars: &[char]) -> (copy: Vec<char>)
    ensures
        copy@ == chars@,
        copy.deep_view() == chars@,
{
    let mut copy: Vec<char> = Vec::new();
    let mut at: usize = 0;
    while at < chars.len()
        invariant
            at <= chars.len(),
            copy@ == chars@.take(at as int),
        decreases chars.len() - at,
    {
        copy.push(chars[at]);
        at += 1;
        assert(chars@.take(at as int) =~= chars@.take(at - 1).push(chars@[at - 1]));
    }
    assert(chars@.take(at as int) =~= chars@);
    assert(copy.deep_view() =~= chars@);
    copy
}

/// Two texts, one after the other.
pub fn joined(head: String, tail: &str) -> (whole: String)
    ensures
        whole@ == head@ + tail@,
{
    let mut whole: String = head;
    whole.append(tail);
    whole
}

// --- white space --------------------------------------------------------------

/// Whether a character is white space: whether it has the Unicode property
/// `White_Space`.
pub open spec fn white(c: char) -> bool {
    ||| '\u{9}' <= c <= '\u{d}'
    ||| c == ' '
    ||| c == '\u{85}'
    ||| c == '\u{a0}'
    ||| c == '\u{1680}'
    ||| '\u{2000}' <= c <= '\u{200a}'
    ||| c == '\u{2028}'
    ||| c == '\u{2029}'
    ||| c == '\u{202f}'
    ||| c == '\u{205f}'
    ||| c == '\u{3000}'
}

/// Whether a character is white space.
pub fn is_white(c: char) -> (space: bool)
    ensures
        space == white(c),
{
    ('\u{9}' <= c && c <= '\u{d}') || c == ' ' || c == '\u{85}' || c == '\u{a0}' || c == '\u{1680}' || ('\u{2000}' <= c
        && c <= '\u{200a}') || c == '\u{2028}' || c == '\u{2029}' || c == '\u{202f}' || c == '\u{205f}' || c == '\u{3000}'
}

/// A text without the white space it starts with.
pub open spec fn start_trimmed(text: Seq<char>) -> Seq<char>
    decreases text.len(),
{
    if text.len() > 0 && white(text[0]) {
        start_trimmed(text.drop_first())
    } else {
        text
    }
}

/// A text without the white space it ends with.
pub open spec fn end_trimmed(text: Seq<char>) -> Seq<char>
    decreases text.len(),
{
    if text.len() > 0 && white(text.last()) {
        end_trimmed(text.drop_last())
    } else {
        text
    }
}

/// A text without white space at either end.
pub open spec fn trimmed(text: Seq<char>) -> Seq<char> {
    end_trimmed(start_trimmed(text))
}

/// The characters of a text, without the white space at either end.
pub fn trim(text: &str) -> (chars: Vec<char>)
    ensures
        chars@ == trimmed(text@),
        chars.deep_view() == trimmed(text@),
{
    let all: Vec<char> = chars_of(text);
    let mut from: usize = 0;
    assert(all@.skip(0) =~= all@);
    while from < all.len() && is_white(all[from])
        invariant
            from <= all.len(),
            start_trimmed(all@) == start_trimmed(all@.skip(from as int)),
        decreases all.len() - from,
    {
        assert(all@.skip(from as int).drop_first() =~= all@.skip(from + 1));
        from += 1;
    }
    let mut to: usize = all.len();
    let ghost rest = all@.skip(from as int);
    assert(all@.subrange(from as int, to as int) =~= rest);
    while to > from && is_white(all[to - 1])
        invariant
            from <= to <= all.len(),
            end_trimmed(rest) == end_trimmed(all@.subrange(from as int, to as int)),
        decreases to - from,
    {
        assert(all@.subrange(from as int, to as int).drop_last() =~= all@.subrange(from as int, to - 1));
        to -= 1;
    }
    copied(slice_subrange(all.as_slice(), from, to))
}

/// The words of a text: what is left between its white space.
pub open spec fn words(text: Seq<char>) -> Seq<Seq<char>>
    decreases text.len(),
{
    if text.len() == 0 {
        seq![]
    } else if white(text[0]) {
        words(text.drop_first())
    } else {
        let at = word_end(text);
        if 0 < at <= text.len() {
            seq![text.take(at)] + words(text.skip(at))
        } else {
            seq![]
        }
    }
}

/// How many characters stand before the first white space.
pub open spec fn word_end(text: Seq<char>) -> int
    decreases text.len(),
{
    if text.len() == 0 || white(text[0]) {
        0
    } else {
        1 + word_end(text.drop_first())
    }
}

proof fn word_end_at(text: Seq<char>, at: int)
    requires
        0 <= at <= text.len(),
        forall|i: int| 0 <= i < at ==> !white(text[i]),
        at < text.len() ==> white(text[at]),
    ensures
        word_end(text) == at,
    decreases at,
{
    if at > 0 {
        let rest = text.drop_first();
        assert forall|i: int| 0 <= i < at - 1 implies !white(rest[i]) by {
            assert(rest[i] == text[i + 1]);
        }
        word_end_at(rest, at - 1);
    }
}

/// Splits a text at its white space.
pub fn split_words(text: &[char]) -> (found: Vec<String>)
    ensures
        found.deep_view() == words(text@),
    decreases text.len(),
{
    let mut found: Vec<String> = Vec::new();
    if text.len() == 0 {
        assert(found.deep_view() =~= seq![]);
        return found;
    }
    if is_white(text[0]) {
        assert(text@.subrange(1, text@.len() as int) =~= text@.drop_first());
        return split_words(slice_subrange(text, 1, text.len()));
    }
    let mut at: usize = 0;
    while at < text.len() && !is_white(text[at])
        invariant
            at <= text.len(),
            forall|i: int| 0 <= i < at ==> !white(text@[i]),
        decreases text.len() - at,
    {
        at += 1;
    }
    proof {
        word_end_at(text@, at as int);
        if at == 0 {
            assert(white(text@[0]));
        }
    }
    found.push(text_of(slice_subrange(text, 0, at)));
    assert(text@.subrange(0, at as int) =~= text@.take(at as int));
    assert(text@.subrange(at as int, text@.len() as int) =~= text@.skip(at as int));
    let mut rest: Vec<String> = split_words(slice_subrange(text, at, text.len()));
    let ghost after = rest;
    found.append(&mut rest);
    assert(found.deep_view() =~= seq![text@.take(at as int)] + after.deep_view());
    found
}

// --- numbers ------------------------------------------------------------------

/// The digit a character stands for.
pub open spec fn digit(c: char) -> Option<nat> {
    if '0' <= c <= '9' {
        Some((c as u32 - '0' as u32) as nat)
    } else {
        None
    }
}

/// The number a run of decimal digits stands for; nothing else stands for one.
pub open spec fn digits(text: Seq<char>) -> Option<nat>
    decreases text.len(),
{
    if text.len() == 0 {
        None
    } else if text.len() == 1 {
        digit(text[0])
    } else {
        match (digits(text.drop_last()), digit(text.last())) {
            (Some(head), Some(last)) => Some(head * 10 + last),
            _ => None,
        }
    }
}

/// The natural number a text stands for: digits, with or without a `+` before.
pub open spec fn natural(text: Seq<char>) -> Option<nat> {
    if text.len() > 0 && text[0] == '+' {
        digits(text.drop_first())
    } else {
        digits(text)
    }
}

/// The integer a text stands for: digits, with or without a sign before.
pub open spec fn integer(text: Seq<char>) -> Option<int> {
    if text.len() > 0 && text[0] == '-' {
        match digits(text.drop_first()) {
            Some(size) => Some(-(size as int)),
            None => None,
        }
    } else {
        match natural(text) {
            Some(size) => Some(size as int),
            None => None,
        }
    }
}

/// The number a text stands for, if it is at most `limit`.
pub open spec fn natural_up_to(text: Seq<char>, limit: nat) -> Option<nat> {
    match natural(text) {
        Some(n) if n <= limit => Some(n),
        _ => None,
    }
}

fn digit_of(c: char) -> (value: Option<u64>)
    ensures
        digit(c) == (match value {
            Some(d) => Some(d as nat),
            None => None,
        }),
        value is Some ==> value->0 <= 9,
{
    if '0' <= c && c <= '9' {
        Some((c as u32 - '0' as u32) as u64)
    } else {
        None
    }
}

proof fn prefix_is_no_larger(text: Seq<char>, at: int)
    requires
        1 <= at <= text.len(),
        digits(text) is Some,
    ensures
        digits(text.take(at)) is Some,
        digits(text.take(at))->0 <= digits(text)->0,
    decreases text.len() - at,
{
    if at < text.len() {
        assert(text.drop_last().take(at) =~= text.take(at));
        if at < text.len() - 1 {
            prefix_is_no_larger(text.drop_last(), at);
        } else {
            assert(text.drop_last().take(at) =~= text.drop_last());
        }
    } else {
        assert(text.take(at) =~= text);
    }
}

/// Reads a run of decimal digits, if what it stands for fits.
fn parse_digits(text: &[char]) -> (value: Option<u64>)
    ensures
        value is Some <==> digits(text@) is Some && digits(text@)->0 <= u64::MAX,
        value is Some ==> digits(text@) == Some(value->0 as nat),
{
    if text.len() == 0 {
        return None;
    }
    let mut value: u64 = match digit_of(text[0]) {
        Some(d) => d,
        None => {
            proof {
                if digits(text@) is Some {
                    prefix_is_no_larger(text@, 1);
                    assert(text@.take(1)[0] == text@[0]);
                }
            }
            return None;
        },
    };
    let mut at: usize = 1;
    assert(text@.take(1)[0] == text@[0]);
    while at < text.len()
        invariant
            1 <= at <= text.len(),
            digits(text@.take(at as int)) == Some(value as nat),
        decreases text.len() - at,
    {
        let ghost grown = text@.take(at + 1);
        assert(grown.drop_last() =~= text@.take(at as int));
        assert(grown.last() == text@[at as int]);
        let d: u64 = match digit_of(text[at]) {
            Some(d) => d,
            None => {
                proof {
                    if digits(text@) is Some {
                        prefix_is_no_larger(text@, at + 1);
                    }
                }
                return None;
            },
        };
        if value > (u64::MAX - d) / 10 {
            proof {
                assert(value * 10 + d > u64::MAX);
                if digits(text@) is Some {
                    prefix_is_no_larger(text@, at + 1);
                }
            }
            return None;
        }
        value = value * 10 + d;
        at += 1;
    }
    assert(text@.take(at as int) =~= text@);
    Some(value)
}

/// Reads a natural number of at most `limit`.
pub fn parse_natural(text: &[char], limit: u64) -> (value: Option<u64>)
    ensures
        natural_up_to(text@, limit as nat) == (match value {
            Some(n) => Some(n as nat),
            None => None,
        }),
{
    let read: Option<u64> = if text.len() > 0 && text[0] == '+' {
        assert(text@.subrange(1, text@.len() as int) =~= text@.drop_first());
        parse_digits(slice_subrange(text, 1, text.len()))
    } else {
        parse_digits(text)
    };
    match read {
        Some(n) if n <= limit => Some(n),
        _ => None,
    }
}

/// Reads an integer that fits 64 bits.
pub fn parse_integer(text: &[char]) -> (value: Option<i64>)
    ensures
        value is Some <==> integer(text@) is Some && i64::MIN <= integer(text@)->0 <= i64::MAX,
        value is Some ==> integer(text@) == Some(value->0 as int),
{
    if text.len() > 0 && text[0] == '-' {
        assert(text@.subrange(1, text@.len() as int) =~= text@.drop_first());
        match parse_digits(slice_subrange(text, 1, text.len())) {
            Some(n) => {
                if n <= 0x7fff_ffff_ffff_ffff {
                    Some(-(n as i64))
                } else if n == 0x8000_0000_0000_0000 {
                    Some(i64::MIN)
                } else {
                    None
                }
            },
            None => None,
        }
    } else {
        match parse_natural(text, 0x7fff_ffff_ffff_ffff) {
            Some(n) => Some(n as i64),
            None => None,
        }
    }
}

/// The character a digit is written as.
pub open spec fn digit_char(d: nat) -> char {
    (48 + d) as char
}

/// A number in decimal, without leading zeros.
pub open spec fn decimal(n: nat) -> Seq<char>
    decreases n,
{
    if n < 10 {
        seq![digit_char(n)]
    } else {
        decimal(n / 10).push(digit_char(n % 10))
    }
}

/// Writes a number in decimal.
pub fn to_decimal(n: u64) -> (text: String)
    ensures
        text@ == decimal(n as nat),
    decreases n,
{
    let mut text: String = if n < 10 {
        String::new()
    } else {
        to_decimal(n / 10)
    };
    text.push((48u8 + (n % 10) as u8) as char);
    proof {
        if n < 10 {
            assert(text@ =~= decimal(n as nat));
        }
    }
    text
}

/// An integer in decimal, with a `-` before it if it is negative.
pub open spec fn signed_decimal(n: int) -> Seq<char> {
    if n < 0 {
        "-"@ + decimal((-n) as nat)
    } else {
        decimal(n as nat)
    }
}

/// Writes an integer in decimal.
pub fn to_signed_decimal(n: i32) -> (text: String)
    ensures
        text@ == signed_decimal(n as int),
{
    if n < 0 {
        joined("-".to_owned(), to_decimal((-(n as i64)) as u64).as_str())
    } else {
        to_decimal(n as u64)
    }
}

/// What a number is written as reads back as that number.
pub proof fn decimal_reads_back(n: nat)
    ensures
        digits(decimal(n)) == Some(n),
        natural(decimal(n)) == Some(n),
        decimal(n).len() > 0,
    decreases n,
{
    if n >= 10 {
        decimal_reads_back(n / 10);
        assert(decimal(n).drop_last() =~= decimal(n / 10));
        assert(decimal(n)[0] == decimal(n / 10)[0]);
    }
    decimal_starts_with_a_digit(n);
}

proof fn decimal_starts_with_a_digit(n: nat)
    ensures
        decimal(n).len() > 0,
        '0' <= decimal(n)[0] <= '9',
    decreases n,
{
    if n >= 10 {
        decimal_starts_with_a_digit(n / 10);
        assert(decimal(n)[0] == decimal(n / 10)[0]);
    }
}

/// Whether two characters are the same letter but for its ASCII case, or the
/// same character.
pub open spec fn same_letter(a: char, b: char) -> bool {
    a == b || ('A' <= a <= 'Z' && b as u32 == a as u32 + 32) || ('A' <= b <= 'Z' && a as u32 == b as u32 + 32)
}

/// Two characters have the same lowercase, as ASCII goes, exactly if they are the
/// same letter.
pub proof fn folding_forgets_case_alone(a: char, b: char)
    ensures
        ascii_lower(a) == ascii_lower(b) <==> same_letter(a, b),
{
    if 'A' <= a <= 'Z' {
        assert(ascii_lower(a) as u32 == a as u32 + 32);
    }
    if 'A' <= b <= 'Z' {
        assert(ascii_lower(b) as u32 == b as u32 + 32);
    }
}

/// Trimming takes white space off both ends and nothing else: what is left stands
/// in the text as it did, neither starts nor ends with white space, and all that
/// was taken off was.
pub proof fn trimming_takes_white_space_off(text: Seq<char>)
    ensures
        trimmed(text).len() > 0 ==> !white(trimmed(text)[0]) && !white(trimmed(text).last()),
        exists|from: int, to: int|
            0 <= from <= to <= text.len() && trimmed(text) == #[trigger] text.subrange(from, to) && (forall|i: int|
                0 <= i < from ==> white(#[trigger] text[i])) && (forall|i: int|
                to <= i < text.len() ==> white(#[trigger] text[i])),
{
    let from = starts_trimmed(text);
    let rest = start_trimmed(text);
    let to = ends_trimmed(rest);
    assert(rest.take(to) =~= text.subrange(from, from + to));
    assert forall|i: int| from + to <= i < text.len() implies white(#[trigger] text[i]) by {
        assert(rest[i - from] == text[i]);
    }
    if to > 0 {
        assert(rest.take(to)[0] == rest[0]);
    }
    assert(trimmed(text) == text.subrange(from, from + to));
}

proof fn starts_trimmed(text: Seq<char>) -> (from: int)
    ensures
        0 <= from <= text.len(),
        start_trimmed(text) == text.skip(from),
        forall|i: int| 0 <= i < from ==> white(#[trigger] text[i]),
        from < text.len() ==> !white(text[from]),
    decreases text.len(),
{
    if text.len() > 0 && white(text[0]) {
        let rest = text.drop_first();
        let from = starts_trimmed(rest);
        assert(rest.skip(from) =~= text.skip(from + 1));
        assert forall|i: int| 0 <= i < from + 1 implies white(#[trigger] text[i]) by {
            if i > 0 {
                assert(rest[i - 1] == text[i]);
            }
        }
        if from < rest.len() {
            assert(rest[from] == text[from + 1]);
        }
        from + 1
    } else {
        assert(text.skip(0) =~= text);
        0
    }
}

proof fn ends_trimmed(text: Seq<char>) -> (to: int)
    ensures
        0 <= to <= text.len(),
        end_trimmed(text) == text.take(to),
        forall|i: int| to <= i < text.len() ==> white(#[trigger] text[i]),
        to > 0 ==> !white(text[to - 1]),
    decreases text.len(),
{
    if text.len() > 0 && white(text.last()) {
        let rest = text.drop_last();
        let to = ends_trimmed(rest);
        assert(rest.take(to) =~= text.take(to));
        assert forall|i: int| to <= i < text.len() implies white(#[trigger] text[i]) by {
            if i < rest.len() {
                assert(rest[i] == text[i]);
            }
        }
        to
    } else {
        assert(text.take(text.len() as int) =~= text);
        text.len() as int
    }
}

/// A command line is split at its white space: a run without any is a word, and
/// white space before, between and behind words makes none.
pub proof fn white_space_parts_words(word: Seq<char>, space: char, rest: Seq<char>)
    requires
        word.len() > 0,
        forall|i: int| 0 <= i < word.len() ==> !white(#[trigger] word[i]),
        white(space),
    ensures
        words(word) == seq![word],
        words(word.push(space) + rest) == seq![word] + words(rest),
        words(seq![space] + rest) == words(rest),
        words(seq![]) == Seq::<Seq<char>>::empty(),
{
    word_end_at(word, word.len() as int);
    assert(word.take(word.len() as int) =~= word);
    assert(word.skip(word.len() as int) =~= seq![]);
    assert(!white(word[0]));
    let none = Seq::<char>::empty();
    assert(words(none) =~= seq![]);
    assert(words(word.skip(word.len() as int)) == words(none));
    assert(words(word) =~= seq![word]);
    let text = word.push(space) + rest;
    let at = word.len() as int;
    assert forall|i: int| 0 <= i < at implies !white(text[i]) by {
        assert(text[i] == word[i]);
    }
    assert(text[at] == space);
    word_end_at(text, at);
    assert(text.take(at) =~= word);
    let tail = text.skip(at);
    assert(tail[0] == space);
    assert(tail.drop_first() =~= rest);
    assert(words(tail) == words(rest));
    assert(text[0] == word[0]);
    assert(words(text) =~= seq![word] + words(tail));
    assert((seq![space] + rest).drop_first() =~= rest);
}

/// Texts go by their first character that differs, and a text goes before every
/// longer one it begins.
pub proof fn the_first_difference_decides(start: Seq<char>, a: char, b: char, x: Seq<char>, y: Seq<char>)
    ensures
        a < b ==> text_before(start.push(a) + x, start.push(b) + y),
        text_before(start, start.push(a) + x),
        !text_before(start.push(a) + x, start),
    decreases start.len(),
{
    let (l, r) = (start.push(a) + x, start.push(b) + y);
    if start.len() > 0 {
        let rest = start.drop_first();
        the_first_difference_decides(rest, a, b, x, y);
        assert(l.drop_first() =~= rest.push(a) + x);
        assert(r.drop_first() =~= rest.push(b) + y);
        assert(l[0] == start[0] && r[0] == start[0]);
    } else {
        assert(l[0] == a && r[0] == b);
    }
}

/// A number goes by its sign: behind a minus it is as far below nothing as it is
/// above it without; a plus changes nothing; and nothing typed is no number.
pub proof fn a_sign_decides_which_way(text: Seq<char>)
    requires
        text.len() > 0,
        text[0] != '-',
        text[0] != '+',
    ensures
        integer(seq!['-'] + text) == (match integer(text) {
            Some(n) => Some(-n),
            None => None,
        }),
        integer(seq!['+'] + text) == integer(text),
        integer(text) matches Some(n) ==> n >= 0,
        integer(Seq::empty()) is None,
{
    assert((seq!['-'] + text).drop_first() =~= text);
    assert((seq!['+'] + text).drop_first() =~= text);
}

} // verus!
