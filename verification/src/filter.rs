//! The filter over log lines, compiled.

use crate::sessions::LogLine;
use crate::text::{ascii_lower, contains, holds, lowercase, to_lowercase};
use crate::text::ascii_folded;
use crate::value::Value;
use regex::{Regex, RegexBuilder};
use vstd::prelude::*;
use vstd::string::is_ascii_spec_bytes;
use vstd::utf8::{encode_utf8, is_ascii_chars};

verus! {

/// What somebody typed into a filter box.
#[derive(Clone, Debug, PartialEq, Eq)]
pub struct FilterSpec {
    /// The pattern. Empty means everything matches.
    pub pattern: String,
    /// Whether the pattern is a regular expression.
    pub regex: bool,
    /// Whether case matters.
    pub case_sensitive: bool,
}

/// What a [`FilterSpec`] holds.
pub struct FilterModel {
    /// The pattern. Empty means everything matches.
    pub pattern: Seq<char>,
    /// Whether the pattern is a regular expression.
    pub regex: bool,
    /// Whether case matters.
    pub case_sensitive: bool,
}

impl DeepView for FilterSpec {
    type V = FilterModel;

    open spec fn deep_view(&self) -> FilterModel {
        FilterModel {
            pattern: self.pattern.deep_view(),
            regex: self.regex.deep_view(),
            case_sensitive: self.case_sensitive.deep_view(),
        }
    }
}

impl Value for FilterSpec {
    fn dup(&self) -> (copy: Self) {
        FilterSpec {
            pattern: self.pattern.dup(),
            regex: self.regex.dup(),
            case_sensitive: self.case_sensitive.dup(),
        }
    }

    fn same(&self, other: &Self) -> (equal: bool) {
        self.pattern.same(&other.pattern)
            && self.regex.same(&other.regex)
            && self.case_sensitive.same(&other.case_sensitive)
    }
}

impl Default for FilterSpec {
    fn default() -> (spec: Self)
        ensures
            spec.deep_view() == FilterModel::everything(),
    {
        let spec: FilterSpec = FilterSpec {
            pattern: String::new(),
            regex: false,
            case_sensitive: false,
        };
        assert(spec.pattern@ =~= seq![]);
        spec
    }
}

impl FilterModel {
    /// The filter nothing was typed into.
    pub open spec fn everything() -> FilterModel {
        FilterModel { pattern: seq![], regex: false, case_sensitive: false }
    }
}

impl FilterSpec {
    /// Whether this filter lets everything through.
    pub fn is_empty(&self) -> (empty: bool)
        ensures
            empty == (self.deep_view().pattern.len() == 0),
    {
        self.pattern.as_str().is_empty()
    }
}

// --- regular expressions --------------------------------------------------------

/// A compiled regular expression of the `regex` crate.
#[verifier::external_type_specification]
#[verifier::external_body]
pub struct ExRegex(regex::Regex);

/// Why the `regex` crate did not compile an expression.
#[verifier::external_type_specification]
#[verifier::external_body]
pub struct ExRegexError(regex::Error);

/// What a pattern compiles to, where it compiles.
pub uninterp spec fn regex_of(pattern: Seq<char>, insensitive: bool) -> regex::Regex;

/// Whether a compiled expression finds a match in a text, by `Regex::is_match`.
pub uninterp spec fn regex_matches(regex: regex::Regex, text: Seq<char>) -> bool;

/// Why a pattern does not compile, where it does not.
pub uninterp spec fn regex_fault(pattern: Seq<char>, insensitive: bool, size_limit: usize) -> regex::Error;

/// What an error says, by its `Display`.
pub uninterp spec fn regex_complaint(error: regex::Error) -> Seq<char>;

/// `RegexBuilder::build`, with `case_insensitive` and `size_limit` set: where
/// the pattern compiles, the expression is the one of that pattern and that
/// treatment of case, and where it does not, the error is the one of that
/// pattern, that treatment of case and that limit. The expression does not
/// depend on the limit.
///
/// When it compiles is not stated. A pattern that is no expression does not,
/// and neither does one whose program takes more than `size_limit` bytes, which
/// is a matter of how large the machine's words are.
#[verifier::external_body]
fn build_regex(pattern: &str, insensitive: bool, size_limit: usize) -> (built: Result<Regex, regex::Error>)
    ensures
        built matches Ok(regex) ==> regex == regex_of(pattern@, insensitive),
        built matches Err(error) ==> error == regex_fault(pattern@, insensitive, size_limit),
{
    RegexBuilder::new(pattern).case_insensitive(insensitive).size_limit(size_limit).build()
}

/// `Regex::is_match`: whether there is a match anywhere in the text, which
/// depends on nothing but the expression and the text.
#[verifier::external_body]
fn regex_is_match(regex: &Regex, text: &str) -> (found: bool)
    ensures
        found == regex_matches(*regex, text@),
{
    regex.is_match(text)
}

/// `Display` of `regex::Error`: the message of the error, which depends on
/// nothing but the error.
#[verifier::external_body]
fn regex_error_text(error: &regex::Error) -> (text: String)
    ensures
        text@ == regex_complaint(*error),
{
    error.to_string()
}

/// How large a compiled expression may get, in bytes.
pub const REGEX_LIMIT: usize = 1_048_576;

// --- substrings -----------------------------------------------------------------

/// Whether a text holds a needle that is in lowercase already, case ignored.
///
/// ASCII is compared letter by letter; anything else goes by its lowercase
/// form, which can be longer than the text.
pub open spec fn holds_ignoring_case(text: Seq<char>, needle: Seq<char>) -> bool {
    if needle.len() == 0 {
        true
    } else if is_ascii_chars(text) && is_ascii_chars(needle) {
        holds(ascii_folded(text), ascii_folded(needle))
    } else {
        holds(lowercase(text), needle)
    }
}

/// A byte's lowercase, if it is an ASCII letter, and itself otherwise.
spec fn lower_byte(b: u8) -> u8 {
    if 65 <= b <= 90 {
        (b + 32) as u8
    } else {
        b
    }
}

fn fold_byte(b: u8) -> (lower: u8)
    ensures
        lower == lower_byte(b),
{
    if 65 <= b && b <= 90 {
        b + 32
    } else {
        b
    }
}

/// Whether the bytes of a window equal those of the needle, ASCII case ignored.
fn window_matches(text: &[u8], at: usize, needle: &[u8]) -> (equal: bool)
    requires
        at + needle.len() <= text.len(),
    ensures
        equal == forall|i: int| 0 <= i < needle@.len() ==> lower_byte(text@[at + i]) == lower_byte(#[trigger] needle@[i]),
{
    let mut i: usize = 0;
    while i < needle.len()
        invariant
            i <= needle.len(),
            at + needle.len() <= text.len(),
            forall|k: int| 0 <= k < i ==> lower_byte(text@[at + k]) == lower_byte(#[trigger] needle@[k]),
        decreases needle.len() - i,
    {
        if fold_byte(text[at + i]) != fold_byte(needle[i]) {
            assert(lower_byte(text@[at + i]) != lower_byte(needle@[i as int]));
            return false;
        }
        i += 1;
    }
    true
}

proof fn folded_alike(a: char, b: char)
    requires
        a as u32 <= 127,
        b as u32 <= 127,
    ensures
        (lower_byte(a as u8) == lower_byte(b as u8)) == (ascii_lower(a) == ascii_lower(b)),
{
}

/// Whether a window of a text equals the needle, ASCII case ignored, told by bytes.
proof fn window_is_subrange(text: Seq<char>, needle: Seq<char>, at: int)
    requires
        is_ascii_chars(text),
        is_ascii_chars(needle),
        0 <= at,
        at + needle.len() <= text.len(),
    ensures
        (ascii_folded(text).subrange(at, at + needle.len()) == ascii_folded(needle)) == (forall|i: int|
            0 <= i < needle.len() ==> lower_byte(text[at + i] as u8) == lower_byte((#[trigger] needle[i]) as u8)),
{
    let window = ascii_folded(text).subrange(at, at + needle.len());
    assert forall|i: int| 0 <= i < needle.len() implies (lower_byte(text[at + i] as u8) == lower_byte(
        (#[trigger] needle[i]) as u8,
    )) == (window[i] == ascii_folded(needle)[i]) by {
        folded_alike(text[at + i], needle[i]);
    }
    if forall|i: int|
        0 <= i < needle.len() ==> lower_byte(text[at + i] as u8) == lower_byte((#[trigger] needle[i]) as u8) {
        assert(window =~= ascii_folded(needle));
    } else {
        let i = choose|i: int|
            0 <= i < needle.len() && lower_byte(text[at + i] as u8) != lower_byte((#[trigger] needle[i]) as u8);
        assert(window[i] != ascii_folded(needle)[i]);
    }
}

/// Case-insensitive substring search that does not allocate over ASCII.
///
/// `needle` is already lowercase.
pub fn contains_ignoring_case(haystack: &str, needle: &str) -> (found: bool)
    ensures
        found == holds_ignoring_case(haystack@, needle@),
{
    if needle.is_empty() {
        return true;
    }
    if haystack.is_ascii() && needle.is_ascii() {
        let text: &[u8] = haystack.as_bytes();
        let wanted: &[u8] = needle.as_bytes();
        proof {
            is_ascii_spec_bytes(haystack);
            is_ascii_spec_bytes(needle);
        }
        if text.len() < wanted.len() {
            return false;
        }
        let last: usize = text.len() - wanted.len();
        let mut at: usize = 0;
        while at <= last
            invariant
                last == text.len() - wanted.len(),
                at <= last + 1,
                wanted@.len() == needle@.len(),
                text@.len() == haystack@.len(),
                wanted@.len() > 0,
                text@ == encode_utf8(haystack@),
                wanted@ == encode_utf8(needle@),
                text@.len() >= wanted@.len(),
                is_ascii_chars(haystack@),
                is_ascii_chars(needle@),
                forall|i: int| 0 <= i < text@.len() ==> #[trigger] text@[i] == haystack@[i] as u8,
                forall|i: int| 0 <= i < wanted@.len() ==> #[trigger] wanted@[i] == needle@[i] as u8,
                forall|k: int|
                    0 <= k < at ==> #[trigger] ascii_folded(haystack@).subrange(k, k + needle@.len())
                        != ascii_folded(needle@),
            decreases last + 1 - at,
        {
            proof {
                window_is_subrange(haystack@, needle@, at as int);
            }
            if window_matches(text, at, wanted) {
                proof {
                    assert forall|i: int| 0 <= i < needle@.len() implies lower_byte(haystack@[at + i] as u8)
                        == lower_byte((#[trigger] needle@[i]) as u8) by {
                        assert(wanted@[i] == needle@[i] as u8);
                        assert(text@[at + i] == haystack@[at + i] as u8);
                    }
                    assert(ascii_folded(haystack@).subrange(at as int, at + ascii_folded(needle@).len())
                        == ascii_folded(needle@));
                }
                return true;
            }
            proof {
                let i = choose|i: int|
                    0 <= i < wanted@.len() && lower_byte(text@[at + i]) != lower_byte(#[trigger] wanted@[i]);
                assert(text@[at + i] == haystack@[at + i] as u8);
                assert(lower_byte(haystack@[at + i] as u8) != lower_byte(needle@[i] as u8));
            }
            at += 1;
        }
        proof {
            if holds(ascii_folded(haystack@), ascii_folded(needle@)) {
                let k = choose|k: int|
                    0 <= k <= ascii_folded(haystack@).len() - ascii_folded(needle@).len()
                        && #[trigger] ascii_folded(haystack@).subrange(k, k + ascii_folded(needle@).len())
                        == ascii_folded(needle@);
                assert(ascii_folded(haystack@).subrange(k, k + needle@.len()) == ascii_folded(needle@));
            }
        }
        return false;
    }
    contains(to_lowercase(haystack).as_str(), needle)
}

// --- the compiled filter --------------------------------------------------------

/// A compiled filter.
#[derive(Debug)]
pub enum LineFilter {
    /// Everything matches.
    All,
    /// Case-sensitive substring.
    Substring(String),
    /// Case-insensitive substring, the pattern already in lowercase.
    SubstringInsensitive(String),
    /// A regular expression.
    Pattern(Box<Regex>),
    /// The pattern is no regular expression. Nothing matches, and the reason
    /// is there to be shown.
    Invalid(String),
}

/// What a [`LineFilter`] holds.
pub enum MatcherModel {
    /// Everything matches.
    All,
    /// Case-sensitive substring.
    Substring(Seq<char>),
    /// Case-insensitive substring, the pattern already in lowercase.
    SubstringInsensitive(Seq<char>),
    /// A regular expression.
    Pattern(regex::Regex),
    /// The pattern is no regular expression.
    Invalid(Seq<char>),
}

impl View for LineFilter {
    type V = MatcherModel;

    open spec fn view(&self) -> MatcherModel {
        match self {
            LineFilter::All => MatcherModel::All,
            LineFilter::Substring(needle) => MatcherModel::Substring(needle@),
            LineFilter::SubstringInsensitive(needle) => MatcherModel::SubstringInsensitive(needle@),
            LineFilter::Pattern(regex) => MatcherModel::Pattern(**regex),
            LineFilter::Invalid(message) => MatcherModel::Invalid(message@),
        }
    }
}

/// Whether a filter lets a text through.
pub open spec fn admits(matcher: MatcherModel, text: Seq<char>) -> bool {
    match matcher {
        MatcherModel::All => true,
        MatcherModel::Substring(needle) => holds(text, needle),
        MatcherModel::SubstringInsensitive(needle) => holds_ignoring_case(text, needle),
        MatcherModel::Pattern(regex) => regex_matches(regex, text),
        MatcherModel::Invalid(_) => false,
    }
}

/// Whether a compiled filter is what was typed: everything, where nothing was;
/// a substring with or without its case; or the regular expression, or why that
/// expression does not compile.
pub open spec fn compiles(spec: FilterModel, matcher: MatcherModel) -> bool {
    if spec.pattern.len() == 0 {
        matcher == MatcherModel::All
    } else if spec.regex {
        matcher == MatcherModel::Pattern(regex_of(spec.pattern, !spec.case_sensitive)) || matcher
            == MatcherModel::Invalid(
            regex_complaint(regex_fault(spec.pattern, !spec.case_sensitive, REGEX_LIMIT)),
        )
    } else if spec.case_sensitive {
        matcher == MatcherModel::Substring(spec.pattern)
    } else {
        matcher == MatcherModel::SubstringInsensitive(lowercase(spec.pattern))
    }
}

/// The filter of a regular expression, or of what was wrong with it.
pub open spec fn regex_matcher(built: Result<regex::Regex, regex::Error>) -> MatcherModel {
    match built {
        Ok(regex) => MatcherModel::Pattern(regex),
        Err(error) => MatcherModel::Invalid(regex_complaint(error)),
    }
}

impl LineFilter {
    /// The filter that compiling a regular expression led to.
    pub fn from_regex(built: Result<Regex, regex::Error>) -> (matcher: Self)
        ensures
            matcher@ == regex_matcher(built),
    {
        match built {
            Ok(regex) => LineFilter::Pattern(Box::new(regex)),
            Err(error) => LineFilter::Invalid(regex_error_text(&error)),
        }
    }

    /// Compiles what somebody typed.
    pub fn compile(spec: &FilterSpec) -> (matcher: Self)
        ensures
            compiles(spec.deep_view(), matcher@),
    {
        if spec.is_empty() {
            return LineFilter::All;
        }
        if spec.regex {
            return LineFilter::from_regex(
                build_regex(spec.pattern.as_str(), !spec.case_sensitive, REGEX_LIMIT),
            );
        }
        if spec.case_sensitive {
            LineFilter::Substring(spec.pattern.clone())
        } else {
            LineFilter::SubstringInsensitive(to_lowercase(spec.pattern.as_str()))
        }
    }

    /// Whether a line gets through.
    pub fn matches(&self, line: &LogLine) -> (admitted: bool)
        ensures
            admitted == admits(self@, line.deep_view().text),
    {
        match self {
            LineFilter::All => true,
            LineFilter::Substring(needle) => contains(line.text.as_str(), needle.as_str()),
            LineFilter::SubstringInsensitive(needle) => contains_ignoring_case(line.text.as_str(), needle.as_str()),
            LineFilter::Pattern(regex) => regex_is_match(&**regex, line.text.as_str()),
            LineFilter::Invalid(_) => false,
        }
    }

    /// Why the pattern cannot be used, if it cannot.
    pub fn error(&self) -> (message: Option<&str>)
        ensures
            message.deep_view() == (match self@ {
                MatcherModel::Invalid(message) => Some(message),
                _ => None,
            }),
    {
        match self {
            LineFilter::Invalid(message) => Some(message.as_str()),
            _ => None,
        }
    }
}

} // verus!
