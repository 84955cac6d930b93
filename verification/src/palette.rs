//! The jump palette: everything that can be jumped to, found by a few letters.

use crate::objects::{
    key_text, kind_label, kind_title, ClusterId, KeyModel, KindId, KindInfo, KindInfoModel, KindModel, ResourceKey,
    ResourceRow, RowModel,
};
use crate::sorting::{consistent, sort, sorted, sorting_keeps_items, sorting_orders, Precedence};
use crate::text::{is_text_before, joined, text_before, text_of, text_order, trim, trimmed};
use crate::value::Value;
use nucleo_matcher::pattern::{AtomKind, CaseMatching, Normalization, Pattern};
use nucleo_matcher::{Config, Matcher, Utf32String};
use std::sync::Arc;
use vstd::prelude::*;
use vstd::utf8::encode_utf8;

verus! {

/// How many objects the palette offers at most.
pub const MAX_OBJECTS: usize = 50_000;

/// How many results a search gives at most.
pub const MAX_RESULTS: usize = 50;

/// How many characters of a label the matcher can count: as many as thirty-two
/// bits do.
pub const LABEL_LIMIT: usize = 4_294_967_295;

/// How long a word can be whose score always fits. A score is sixteen bits wide:
/// the first character that is found adds up to thirty-six to it, and every
/// other one up to twenty-six.
pub const NEEDLE_LIMIT: usize = 2_520;

/// How large a table the matcher fills in, in cells, before it takes the first
/// match in place of the best one.
pub const TABLE_LIMIT: usize = 102_400;

/// Where a jump leads.
#[derive(Clone, Debug, PartialEq, Eq)]
pub enum Target {
    /// A kind of the cluster that is looked at.
    Kind(KindId),
    /// One object.
    Object {
        /// The cluster it is on.
        cluster: ClusterId,
        /// Its kind.
        kind: KindId,
        /// Which object.
        key: ResourceKey,
    },
    /// A cluster.
    Cluster(String),
}

/// What a [`Target`] holds.
pub enum TargetModel {
    /// A kind of the cluster that is looked at.
    Kind(KindModel),
    /// One object.
    Object {
        /// The cluster it is on.
        cluster: Seq<char>,
        /// Its kind.
        kind: KindModel,
        /// Which object.
        key: KeyModel,
    },
    /// A cluster.
    Cluster(Seq<char>),
}

impl DeepView for Target {
    type V = TargetModel;

    open spec fn deep_view(&self) -> TargetModel {
        match self {
            Target::Kind(held) => TargetModel::Kind(held.deep_view()),
            Target::Object { cluster, kind, key } => TargetModel::Object {
                cluster: cluster.deep_view(),
                kind: kind.deep_view(),
                key: key.deep_view(),
            },
            Target::Cluster(held) => TargetModel::Cluster(held.deep_view()),
        }
    }
}

impl Value for Target {
    fn dup(&self) -> (copy: Self) {
        match self {
            Target::Kind(held) => Target::Kind(held.dup()),
            Target::Object { cluster, kind, key } => Target::Object {
                cluster: cluster.dup(),
                kind: kind.dup(),
                key: key.dup(),
            },
            Target::Cluster(held) => Target::Cluster(held.dup()),
        }
    }

    fn same(&self, other: &Self) -> (equal: bool) {
        match (self, other) {
            (Target::Kind(held), Target::Kind(held_too)) => held.same(held_too),
            (Target::Object { cluster, kind, key }, Target::Object { cluster: cluster_too, kind: kind_too, key: key_too }) => {
                cluster.same(cluster_too)
                    && kind.same(kind_too)
                    && key.same(key_too)
            },
            (Target::Cluster(held), Target::Cluster(held_too)) => held.same(held_too),
            _ => false,
        }
    }
}

/// Something that can be jumped to.
#[derive(Clone, Debug, PartialEq, Eq)]
pub struct Candidate {
    /// Where that leads.
    pub target: Target,
    /// What it is called, and found by.
    pub label: String,
    /// What else is said about it.
    pub detail: String,
}

/// What a [`Candidate`] holds.
pub struct CandidateModel {
    /// Where that leads.
    pub target: TargetModel,
    /// What it is called, and found by.
    pub label: Seq<char>,
    /// What else is said about it.
    pub detail: Seq<char>,
}

impl DeepView for Candidate {
    type V = CandidateModel;

    open spec fn deep_view(&self) -> CandidateModel {
        CandidateModel {
            target: self.target.deep_view(),
            label: self.label.deep_view(),
            detail: self.detail.deep_view(),
        }
    }
}

impl Value for Candidate {
    fn dup(&self) -> (copy: Self) {
        Candidate {
            target: self.target.dup(),
            label: self.label.dup(),
            detail: self.detail.dup(),
        }
    }

    fn same(&self, other: &Self) -> (equal: bool) {
        self.target.same(&other.target)
            && self.label.same(&other.label)
            && self.detail.same(&other.detail)
    }
}

/// Something that was found.
#[derive(Clone, Debug, PartialEq, Eq)]
pub struct Match {
    /// What was found.
    pub candidate: Arc<Candidate>,
    /// How well it fits.
    pub score: u32,
}

/// What a [`Match`] holds.
pub struct MatchModel {
    /// What was found.
    pub candidate: CandidateModel,
    /// How well it fits.
    pub score: u32,
}

impl DeepView for Match {
    type V = MatchModel;

    open spec fn deep_view(&self) -> MatchModel {
        MatchModel {
            candidate: self.candidate.deep_view(),
            score: self.score.deep_view(),
        }
    }
}

impl Value for Match {
    fn dup(&self) -> (copy: Self) {
        Match {
            candidate: self.candidate.dup(),
            score: self.score.dup(),
        }
    }

    fn same(&self, other: &Self) -> (equal: bool) {
        self.candidate.same(&other.candidate)
            && self.score.same(&other.score)
    }
}

// --- the matcher ----------------------------------------------------------------

/// The scratch memory and settings of the `nucleo-matcher` crate.
#[verifier::external_type_specification]
#[verifier::external_body]
pub struct ExMatcher(nucleo_matcher::Matcher);

/// A parsed query of the `nucleo-matcher` crate.
#[verifier::external_type_specification]
#[verifier::external_body]
pub struct ExPattern(nucleo_matcher::pattern::Pattern);

/// A text as the `nucleo-matcher` crate searches it.
#[verifier::external_type_specification]
#[verifier::external_body]
pub struct ExUtf32String(nucleo_matcher::Utf32String);

/// What a query parses to, by `Pattern::parse` with smart case and smart
/// normalization.
pub uninterp spec fn pattern_of(query: Seq<char>) -> Pattern;

/// A text as it is searched, by `Utf32String::from`.
pub uninterp spec fn haystack_of(text: Seq<char>) -> Utf32String;

/// How well a text fits a query, by `Pattern::score` with a matcher of the
/// default settings; nothing, if it does not.
pub uninterp spec fn fuzzy_score(pattern: Pattern, haystack: Utf32String) -> Option<u32>;

/// Whether a matcher was made by `Matcher::new` with `Config::DEFAULT`, and has
/// those settings but for the two that every query sets for itself.
pub uninterp spec fn is_default(matcher: Matcher) -> bool;

/// The words a query was parsed to, in order: the characters that are looked
/// for, by `Atom::needle_text`, and whether they may be apart, by `Atom::kind`.
pub uninterp spec fn words_of(pattern: Pattern) -> Seq<(Seq<char>, bool)>;

/// The characters a text is searched by, by `Utf32Str::chars`.
pub uninterp spec fn characters_of(haystack: Utf32String) -> Seq<char>;

/// The ASCII letter that a Latin letter is a variant of, and every other
/// character itself, by `chars::normalize`.
pub uninterp spec fn unmarked(c: char) -> char;

/// What simple case folding makes of a character, by `chars::to_lower_case`.
pub uninterp spec fn folded(c: char) -> char;

/// Whether a character is lowercase, by `char::is_lowercase`.
pub uninterp spec fn lower(c: char) -> bool;

/// Whether marks are ignored where a word is looked for: it has none itself.
pub open spec fn ignores_marks(needle: Seq<char>) -> bool {
    forall|i: int| 0 <= i < needle.len() ==> unmarked(#[trigger] needle[i]) == needle[i]
}

/// Whether case is ignored where a word is looked for: it has no capitals itself.
pub open spec fn ignores_case(needle: Seq<char>) -> bool {
    forall|i: int| 0 <= i < needle.len() ==> folded(#[trigger] needle[i]) == needle[i]
}

/// A character of a text as it is compared with those of a word.
pub open spec fn compared(needle: Seq<char>) -> spec_fn(char) -> char {
    |c: char|
        {
            let plain = if ignores_marks(needle) {
                unmarked(c)
            } else {
                c
            };
            if ignores_case(needle) {
                folded(plain)
            } else {
                plain
            }
        }
}

/// Whether a character is one of the few that case folding changes though they
/// are lowercase, such as a long s.
pub open spec fn wavers(c: char) -> bool {
    lower(c) && folded(c) != c
}

/// A character as the matcher compares it while it fills in its table for a word
/// with marks: one that wavers is not folded there.
pub open spec fn tabled() -> spec_fn(char) -> char {
    |c: char|
        if wavers(c) {
            c
        } else {
            folded(c)
        }
}

/// Whether the characters of a word occur in a text, in order but possibly apart.
pub open spec fn occurs(needle: Seq<char>, text: Seq<char>) -> bool
    decreases text.len(),
{
    if needle.len() == 0 {
        true
    } else if text.len() == 0 {
        false
    } else if text[0] == needle[0] {
        occurs(needle.skip(1), text.skip(1))
    } else {
        occurs(needle, text.skip(1))
    }
}

/// Whether a text holds a word that is so long that its score may not fit.
pub open spec fn overflows(needle: Seq<char>, text: Seq<char>) -> bool {
    needle.len() > NEEDLE_LIMIT && occurs(needle, text.map_values(compared(needle)))
}

/// Whether the matcher starts its table at a character that the table then does
/// not count as the word's first: the first that folds to it wavers, the word
/// has marks, and it occurs behind that character all the same. The table goes
/// up to the last character that folds to the word's last.
pub open spec fn stumbles_at(needle: Seq<char>, text: Seq<char>, start: int, end: int) -> bool {
    &&& needle.len() >= 2
    &&& !ignores_marks(needle)
    &&& ignores_case(needle)
    &&& 0 <= start < end <= text.len()
    &&& folded(text[start]) == needle[0]
    &&& forall|i: int| 0 <= i < start ==> folded(#[trigger] text[i]) != needle[0]
    &&& wavers(text[start])
    &&& occurs(needle, text.skip(start + 1).map_values(tabled()))
    &&& folded(text[end - 1]) == needle.last()
    &&& forall|i: int| end <= i < text.len() ==> folded(#[trigger] text[i]) != needle.last()
    &&& (end - start) * needle.len() <= TABLE_LIMIT
}

/// Whether the matcher stumbles over a text where it looks for a word whose
/// characters may be apart.
pub open spec fn stumbles(needle: Seq<char>, text: Seq<char>) -> bool {
    exists|start: int, end: int| stumbles_at(needle, text, start, end)
}

/// Whether the matcher can look for a word in a text.
pub open spec fn can_match(word: (Seq<char>, bool), text: Seq<char>) -> bool {
    let (needle, apart) = word;
    &&& text.len() <= LABEL_LIMIT
    &&& !overflows(needle, text)
    &&& apart ==> !stumbles(needle, text) && (needle.len() >= text.len() || text.len() * needle.len() <= usize::MAX)
}

/// The most that words can score together.
pub open spec fn most(words: Seq<(Seq<char>, bool)>) -> int
    decreases words.len(),
{
    if words.len() == 0 {
        0
    } else {
        most(words.drop_last()) + 26 * words.last().0.len() + 10
    }
}

/// Whether the matcher can be asked how well a text fits words.
pub open spec fn can_score(words: Seq<(Seq<char>, bool)>, text: Seq<char>) -> bool {
    most(words) <= u32::MAX && forall|i: int| 0 <= i < words.len() ==> can_match(#[trigger] words[i], text)
}

/// `Atom::needle_text` and `Atom::kind` of each of `Pattern::atoms`: what is
/// looked for, and whether as a fuzzy match, which depends on nothing but the
/// pattern.
#[verifier::external_body]
fn words_in(pattern: &Pattern) -> (words: Vec<(Vec<char>, bool)>)
    ensures
        words.deep_view() == words_of(*pattern),
{
    pattern.atoms.iter().map(
        |atom| (atom.needle_text().chars().collect(), matches!(atom.kind, AtomKind::Fuzzy)),
    ).collect()
}

/// `Utf32Str::chars` of all of a text, which depends on nothing but the text.
#[verifier::external_body]
fn characters(haystack: &Utf32String) -> (chars: Vec<char>)
    ensures
        chars@ == characters_of(*haystack),
{
    haystack.slice(..).chars().collect()
}

/// `chars::normalize`: the ASCII letter that a Latin letter is a variant of, and
/// every other character itself, which depends on nothing but the character.
#[verifier::external_body]
fn without_mark(c: char) -> (plain: char)
    ensures
        plain == unmarked(c),
{
    nucleo_matcher::chars::normalize(c)
}

/// `chars::to_lower_case`: what simple case folding makes of a character, which
/// depends on nothing but the character.
#[verifier::external_body]
fn fold(c: char) -> (small: char)
    ensures
        small == folded(c),
{
    nucleo_matcher::chars::to_lower_case(c)
}

/// `char::is_lowercase`: whether a character has the Unicode property
/// `Lowercase`, which depends on nothing but the character.
#[verifier::external_body]
fn is_lower(c: char) -> (small: bool)
    ensures
        small == lower(c),
{
    c.is_lowercase()
}

fn is_without_marks(needle: &Vec<char>) -> (plain: bool)
    ensures
        plain == ignores_marks(needle@),
{
    let mut at: usize = 0;
    while at < needle.len()
        invariant
            at <= needle.len(),
            forall|i: int| 0 <= i < at ==> unmarked(#[trigger] needle@[i]) == needle@[i],
        decreases needle.len() - at,
    {
        if without_mark(needle[at]) != needle[at] {
            assert(unmarked(needle@[at as int]) != needle@[at as int]);
            return false;
        }
        at += 1;
    }
    true
}

fn is_without_capitals(needle: &Vec<char>) -> (small: bool)
    ensures
        small == ignores_case(needle@),
{
    let mut at: usize = 0;
    while at < needle.len()
        invariant
            at <= needle.len(),
            forall|i: int| 0 <= i < at ==> folded(#[trigger] needle@[i]) == needle@[i],
        decreases needle.len() - at,
    {
        if fold(needle[at]) != needle[at] {
            assert(folded(needle@[at as int]) != needle@[at as int]);
            return false;
        }
        at += 1;
    }
    true
}

fn is_wavering(c: char) -> (unsteady: bool)
    ensures
        unsteady == wavers(c),
{
    is_lower(c) && fold(c) != c
}

/// Whether the characters of a word occur in a text, in order.
fn is_in(needle: &Vec<char>, text: &Vec<char>) -> (inside: bool)
    ensures
        inside == occurs(needle@, text@),
{
    let mut found: usize = 0;
    let mut at: usize = 0;
    assert(needle@.skip(0) =~= needle@);
    assert(text@.skip(0) =~= text@);
    while at < text.len() && found < needle.len()
        invariant
            at <= text.len(),
            found <= needle.len(),
            occurs(needle@, text@) == occurs(needle@.skip(found as int), text@.skip(at as int)),
        decreases text.len() - at,
    {
        assert(needle@.skip(found as int).skip(1) =~= needle@.skip(found + 1));
        assert(text@.skip(at as int).skip(1) =~= text@.skip(at + 1));
        if text[at] == needle[found] {
            found += 1;
        }
        at += 1;
    }
    found == needle.len()
}

/// Whether a text holds a word that is so long that its score may not fit.
fn is_overflowing(needle: &Vec<char>, text: &Vec<char>) -> (too_long: bool)
    ensures
        too_long == overflows(needle@, text@),
{
    if needle.len() <= NEEDLE_LIMIT {
        return false;
    }
    let (plain, small) = (is_without_marks(needle), is_without_capitals(needle));
    let mut read: Vec<char> = Vec::new();
    let mut at: usize = 0;
    while at < text.len()
        invariant
            at <= text.len(),
            plain == ignores_marks(needle@),
            small == ignores_case(needle@),
            read@.len() == at,
            forall|i: int| 0 <= i < at ==> #[trigger] read@[i] == compared(needle@)(text@[i]),
        decreases text.len() - at,
    {
        let bare: char = if plain {
            without_mark(text[at])
        } else {
            text[at]
        };
        read.push(
            if small {
                fold(bare)
            } else {
                bare
            },
        );
        at += 1;
    }
    assert(read@ =~= text@.map_values(compared(needle@)));
    is_in(needle, &read)
}

/// Whether the matcher stumbles over a text where it looks for a word.
fn is_stumbling(needle: &Vec<char>, text: &Vec<char>) -> (stuck: bool)
    ensures
        stuck == stumbles(needle@, text@),
{
    if needle.len() < 2 || is_without_marks(needle) || !is_without_capitals(needle) {
        return false;
    }
    let mut start: usize = 0;
    while start < text.len() && fold(text[start]) != needle[0]
        invariant
            start <= text.len(),
            needle.len() >= 2,
            forall|i: int| 0 <= i < start ==> folded(#[trigger] text@[i]) != needle@[0],
        decreases text.len() - start,
    {
        start += 1;
    }
    if start == text.len() || !is_wavering(text[start]) {
        return false;
    }
    let mut rest: Vec<char> = Vec::new();
    let mut at: usize = start + 1;
    while at < text.len()
        invariant
            start < at <= text.len(),
            read_behind(rest@, text@, start as int, at as int),
        decreases text.len() - at,
    {
        rest.push(
            if is_wavering(text[at]) {
                text[at]
            } else {
                fold(text[at])
            },
        );
        at += 1;
    }
    assert(rest@ =~= text@.skip(start + 1).map_values(tabled()));
    if !is_in(needle, &rest) {
        return false;
    }
    let last: char = needle[needle.len() - 1];
    let mut end: usize = text.len();
    while end > start && fold(text[end - 1]) != last
        invariant
            start <= end <= text.len(),
            forall|i: int| end <= i < text.len() ==> folded(#[trigger] text@[i]) != last,
        decreases end,
    {
        end -= 1;
    }
    if end == start {
        return false;
    }
    let fits: bool = match (end - start).checked_mul(needle.len()) {
        Some(cells) => cells <= TABLE_LIMIT,
        None => false,
    };
    assert(fits ==> stumbles_at(needle@, text@, start as int, end as int));
    fits
}

/// Whether the characters of a text behind one of them, up to another, were read
/// as the matcher's table has them.
spec fn read_behind(read: Seq<char>, text: Seq<char>, start: int, at: int) -> bool {
    read.len() == at - start - 1 && forall|i: int| 0 <= i < read.len() ==> #[trigger] read[i] == tabled()(
        text[start + 1 + i],
    )
}

/// Whether the matcher can look for a word in a text.
fn is_matchable(needle: &Vec<char>, apart: bool, text: &Vec<char>) -> (possible: bool)
    ensures
        possible == can_match((needle@, apart), text@),
{
    text.len() <= LABEL_LIMIT && !is_overflowing(needle, text) && (!apart || (!is_stumbling(needle, text) && (
    needle.len() >= text.len() || text.len().checked_mul(needle.len()).is_some())))
}

/// Whether the most that words can score together fits in thirty-two bits.
fn is_countable(words: &Vec<(Vec<char>, bool)>) -> (possible: bool)
    ensures
        possible == (most(words.deep_view()) <= u32::MAX),
{
    let ghost all = words.deep_view();
    let mut total: u64 = 0;
    let mut at: usize = 0;
    assert(all.take(0) =~= seq![]);
    while at < words.len()
        invariant
            at <= words.len(),
            all == words.deep_view(),
            total == most(all.take(at as int)),
            total <= u32::MAX,
        decreases words.len() - at,
    {
        let len: usize = words[at].0.len();
        proof {
            assert(all[at as int].0 =~= words@[at as int].0@);
            assert(all.take(at + 1).drop_last() =~= all.take(at as int));
            assert(all.take(at + 1).last() == all[at as int]);
            most_grows(all, at + 1);
        }
        if len > 200_000_000 {
            return false;
        }
        total = total + 26 * (len as u64) + 10;
        at += 1;
        if total > 4_294_967_295 {
            return false;
        }
    }
    assert(all.take(at as int) =~= all);
    true
}

/// More words can score no less.
proof fn most_grows(words: Seq<(Seq<char>, bool)>, at: int)
    requires
        0 <= at <= words.len(),
    ensures
        0 <= most(words.take(at)) <= most(words),
    decreases words.len(),
{
    if at == words.len() {
        assert(words.take(at) =~= words);
        if at > 0 {
            most_grows(words.drop_last(), at - 1);
        }
    } else {
        most_grows(words.drop_last(), at);
        assert(words.drop_last().take(at) =~= words.take(at));
    }
}

/// Whether the matcher can be asked how well a text fits words.
fn is_scorable(words: &Vec<(Vec<char>, bool)>, text: &Vec<char>) -> (possible: bool)
    ensures
        possible == can_score(words.deep_view(), text@),
{
    let ghost all = words.deep_view();
    if !is_countable(words) {
        return false;
    }
    let mut at: usize = 0;
    while at < words.len()
        invariant
            at <= words.len(),
            all == words.deep_view(),
            most(all) <= u32::MAX,
            forall|i: int| 0 <= i < at ==> can_match(#[trigger] all[i], text@),
        decreases words.len() - at,
    {
        let (needle, apart) = (&words[at].0, words[at].1);
        assert(all[at as int].0 =~= needle@);
        if !is_matchable(needle, apart, text) {
            assert(!can_match(all[at as int], text@));
            return false;
        }
        at += 1;
    }
    true
}

/// `Matcher::new` with `Config::DEFAULT`: a matcher with the default settings.
#[verifier::external_body]
fn new_matcher() -> (matcher: Matcher)
    ensures
        is_default(matcher),
{
    Matcher::new(Config::DEFAULT)
}

/// `Pattern::parse` with smart case and smart normalization: the words of the
/// query, each with how it is to be matched, which depends on nothing but the
/// query.
#[verifier::external_body]
fn parse_query(query: &str) -> (pattern: Pattern)
    ensures
        pattern == pattern_of(query@),
{
    Pattern::parse(query, CaseMatching::Smart, Normalization::Smart)
}

/// `Utf32String::from`: the characters of a text, one to each grapheme, which
/// depends on nothing but the text.
#[verifier::external_body]
fn to_haystack(text: &str) -> (haystack: Utf32String)
    ensures
        haystack == haystack_of(text@),
{
    Utf32String::from(text)
}

/// `Pattern::score`: how well a text fits a query, which depends on the two and
/// on the settings of the matcher. The call uses the matcher's memory, and
/// overwrites two settings that every call overwrites before it reads them; the
/// others stay as they are.
///
/// Left out are the inputs on which the matcher panics, where overflow checks
/// and debug assertions are on: texts of more characters than thirty-two bits
/// count; words of so many characters, in a text that holds them, that their
/// score may not fit in sixteen bits, or that of all words in thirty-two; a
/// table with more cells than a `usize` counts; and a word with a mark, which
/// turns normalization off, in a text where the first pass finds its first
/// character in a lowercase letter that case folding changes, which the second
/// pass does not fold.
#[verifier::external_body]
fn score(pattern: &Pattern, haystack: &Utf32String, matcher: &mut Matcher) -> (score: Option<u32>)
    requires
        can_score(words_of(*pattern), characters_of(*haystack)),
        is_default(*old(matcher)),
    ensures
        score == fuzzy_score(*pattern, *haystack),
        is_default(*final(matcher)),
{
    pattern.score(haystack.slice(..), matcher)
}

// --- candidates -----------------------------------------------------------------

/// A cluster, to jump to.
pub open spec fn cluster_candidate(cluster: Seq<char>) -> CandidateModel {
    CandidateModel { target: TargetModel::Cluster(cluster), label: cluster, detail: "cluster"@ }
}

/// A kind, to jump to.
pub open spec fn kind_candidate(info: KindInfoModel) -> CandidateModel {
    CandidateModel {
        target: TargetModel::Kind(info.id),
        label: kind_title(info.id),
        detail: if info.custom {
            "custom resource · "@ + kind_label(info.id)
        } else {
            kind_label(info.id)
        },
    }
}

/// An object, to jump to. Its cluster is named unless it is the one looked at.
pub open spec fn object_candidate(
    object: (Seq<char>, KindModel, RowModel),
    home: Option<Seq<char>>,
) -> CandidateModel {
    let (cluster, kind, row) = object;
    CandidateModel {
        target: TargetModel::Object { cluster, kind, key: row.key },
        label: key_text(row.key),
        detail: if home == Some(cluster) {
            kind_label(kind)
        } else {
            kind_label(kind) + " · "@ + cluster
        },
    }
}

/// The objects the palette offers: the first ones, as many as it takes.
pub open spec fn offered(objects: Seq<(Seq<char>, KindModel, RowModel)>) -> Seq<(Seq<char>, KindModel, RowModel)> {
    if objects.len() > MAX_OBJECTS {
        objects.take(MAX_OBJECTS as int)
    } else {
        objects
    }
}

/// Everything that can be jumped to: the clusters, then the kinds, then objects.
pub open spec fn candidates_of(
    clusters: Seq<Seq<char>>,
    kinds: Seq<KindInfoModel>,
    objects: Seq<(Seq<char>, KindModel, RowModel)>,
    home: Option<Seq<char>>,
) -> Seq<CandidateModel> {
    clusters.map_values(|cluster: Seq<char>| cluster_candidate(cluster)) + kinds.map_values(
        |info: KindInfoModel| kind_candidate(info),
    ) + offered(objects).map_values(
        |object: (Seq<char>, KindModel, RowModel)| object_candidate(object, home),
    )
}

/// Whether the matcher can be asked about every candidate. It is not asked where
/// nothing was typed.
pub open spec fn can_search(candidates: Seq<CandidateModel>, query: Seq<char>) -> bool {
    trimmed(query).len() == 0 || forall|i: int|
        0 <= i < candidates.len() ==> can_score(
            words_of(pattern_of(trimmed(query))),
            characters_of(haystack_of((#[trigger] candidates[i]).label)),
        )
}

// --- results --------------------------------------------------------------------

/// Whether one match is strictly better than another: a higher score, then a
/// shorter label in bytes, then the label that sorts first.
pub open spec fn better() -> spec_fn(MatchModel, MatchModel) -> bool {
    |a: MatchModel, b: MatchModel|
        {
            let (short, long) = (encode_utf8(a.candidate.label).len(), encode_utf8(b.candidate.label).len());
            a.score > b.score || (a.score == b.score && (short < long || (short == long && text_before(
                a.candidate.label,
                b.candidate.label,
            ))))
        }
}

/// The first matches, as many as are given.
pub open spec fn top(found: Seq<MatchModel>) -> Seq<MatchModel> {
    if found.len() > MAX_RESULTS {
        found.take(MAX_RESULTS as int)
    } else {
        found
    }
}

/// The best matches, best first.
pub open spec fn ranked(found: Seq<MatchModel>) -> Seq<MatchModel> {
    top(sorted(found, better()))
}

/// How well a label fits a query; nothing, if it does not.
pub open spec fn fit_of(query: Seq<char>, label: Seq<char>) -> Option<u32> {
    fuzzy_score(pattern_of(query), haystack_of(label))
}

/// The candidates that fit a query, with how well they fit.
pub open spec fn fitting(candidates: Seq<CandidateModel>, query: Seq<char>) -> Seq<MatchModel>
    decreases candidates.len(),
{
    if candidates.len() == 0 {
        seq![]
    } else {
        let before = fitting(candidates.drop_last(), query);
        let last = candidates.last();
        match fit_of(query, last.label) {
            Some(score) => before.push(MatchModel { candidate: last, score }),
            None => before,
        }
    }
}

/// What is offered where nothing was typed: the first candidates.
pub open spec fn unsearched(candidates: Seq<CandidateModel>) -> Seq<MatchModel> {
    top(candidates.map_values(|candidate: CandidateModel| MatchModel { candidate, score: 0 }))
}

/// What a search finds.
pub open spec fn found_by(candidates: Seq<CandidateModel>, query: Seq<char>) -> Seq<MatchModel> {
    if trimmed(query).len() == 0 {
        unsearched(candidates)
    } else {
        ranked(fitting(candidates, trimmed(query)))
    }
}

struct Better;

impl Precedence<Match> for Better {
    open spec fn rel(&self) -> spec_fn(MatchModel, MatchModel) -> bool {
        better()
    }

    fn before(&self, left: &Match, right: &Match) -> (first: bool) {
        if left.score != right.score {
            return left.score > right.score;
        }
        let (a, b) = (left.candidate.label.as_str(), right.candidate.label.as_str());
        let (short, long) = (a.as_bytes().len(), b.as_bytes().len());
        short < long || (short == long && is_text_before(a, b))
    }
}

/// The best of what was found, best first.
pub fn rank(found: &Vec<Match>) -> (best: Vec<Match>)
    ensures
        best.deep_view() == ranked(found.deep_view()),
        best.len() <= MAX_RESULTS,
{
    let mut best: Vec<Match> = sort(found, &Better);
    let ghost all = best.deep_view();
    best.truncate(MAX_RESULTS);
    assert(best.deep_view() =~= top(all));
    best
}

/// Everything that can be jumped to, ready to be searched.
pub struct Palette {
    matcher: Matcher,
    haystacks: Vec<Utf32String>,
    candidates: Vec<Arc<Candidate>>,
}

impl View for Palette {
    type V = Seq<CandidateModel>;

    closed spec fn view(&self) -> Seq<CandidateModel> {
        self.candidates.deep_view()
    }
}

impl Default for Palette {
    fn default() -> (palette: Self)
        ensures
            palette.wf(),
            palette@ == Seq::<CandidateModel>::empty(),
    {
        Palette::new()
    }
}

impl Palette {
    /// Whether every candidate is ready to be searched.
    pub closed spec fn wf(&self) -> bool {
        &&& is_default(self.matcher)
        &&& self.haystacks@.len() == self@.len()
        &&& forall|i: int|
            0 <= i < self@.len() ==> #[trigger] self.haystacks@[i] == haystack_of(
                self@[i].label,
            )
    }

    /// A palette with nothing in it.
    pub fn new() -> (palette: Self)
        ensures
            palette.wf(),
            palette@ == Seq::<CandidateModel>::empty(),
    {
        let palette: Palette = Palette {
            matcher: new_matcher(),
            haystacks: Vec::new(),
            candidates: Vec::new(),
        };
        assert(palette@ =~= Seq::empty());
        palette
    }

    /// Replaces everything that can be jumped to.
    pub fn rebuild(
        &mut self,
        clusters: &Vec<String>,
        kinds: &Vec<KindInfo>,
        objects: &Vec<(&ClusterId, &KindId, &Arc<ResourceRow>)>,
        home: Option<&ClusterId>,
    )
        requires
            old(self).wf(),
        ensures
            final(self).wf(),
            final(self)@ == candidates_of(
                clusters.deep_view(),
                kinds.deep_view(),
                objects.deep_view(),
                home.deep_view(),
            ),
    {
        let ghost first = clusters.deep_view().map_values(|cluster: Seq<char>| cluster_candidate(cluster));
        let ghost second = kinds.deep_view().map_values(|info: KindInfoModel| kind_candidate(info));
        let ghost third = offered(objects.deep_view()).map_values(
            |object: (Seq<char>, KindModel, RowModel)| object_candidate(object, home.deep_view()),
        );
        let mut candidates: Vec<Arc<Candidate>> = Vec::new();
        let mut at: usize = 0;
        assert(candidates.deep_view() =~= first.take(0));
        while at < clusters.len()
            invariant
                at <= clusters.len(),
                first == clusters.deep_view().map_values(|cluster: Seq<char>| cluster_candidate(cluster)),
                candidates.deep_view() == first.take(at as int),
            decreases clusters.len() - at,
        {
            let ghost before = candidates.deep_view();
            let candidate: Candidate = Candidate {
                target: Target::Cluster(clusters[at].clone()),
                label: clusters[at].clone(),
                detail: "cluster".to_owned(),
            };
            assert(candidate.deep_view() == first[at as int]);
            candidates.push(Arc::new(candidate));
            assert(candidates.deep_view() =~= before.push(first[at as int]));
            assert(first.take(at + 1) =~= before.push(first[at as int]));
            at += 1;
        }
        assert(first.take(at as int) =~= first);

        let mut next: usize = 0;
        assert(candidates.deep_view() =~= first + second.take(0));
        while next < kinds.len()
            invariant
                next <= kinds.len(),
                second == kinds.deep_view().map_values(|info: KindInfoModel| kind_candidate(info)),
                candidates.deep_view() == first + second.take(next as int),
            decreases kinds.len() - next,
        {
            let ghost before = candidates.deep_view();
            let info: &KindInfo = &kinds[next];
            let detail: String = if info.custom {
                joined("custom resource · ".to_owned(), info.id.label().as_str())
            } else {
                info.id.label()
            };
            let candidate: Candidate = Candidate {
                target: Target::Kind(info.id.dup()),
                label: info.id.title(),
                detail,
            };
            assert(candidate.deep_view() == second[next as int]);
            candidates.push(Arc::new(candidate));
            assert(candidates.deep_view() =~= before.push(second[next as int]));
            assert(first + second.take(next + 1) =~= before.push(second[next as int]));
            next += 1;
        }
        assert(second.take(next as int) =~= second);

        let limit: usize = if objects.len() > MAX_OBJECTS {
            MAX_OBJECTS
        } else {
            objects.len()
        };
        let mut last: usize = 0;
        assert(candidates.deep_view() =~= first + second + third.take(0));
        while last < limit
            invariant
                last <= limit <= objects.len(),
                limit == offered(objects.deep_view()).len(),
                third == offered(objects.deep_view()).map_values(
                    |object: (Seq<char>, KindModel, RowModel)| object_candidate(object, home.deep_view()),
                ),
                candidates.deep_view() == first + second + third.take(last as int),
            decreases limit - last,
        {
            let ghost before = candidates.deep_view();
            let (cluster, kind, row) = objects[last];
            assert(offered(objects.deep_view())[last as int] == (
                cluster.deep_view(),
                kind.deep_view(),
                row.deep_view(),
            ));
            let at_home: bool = match home {
                Some(home) => home.same(cluster),
                None => false,
            };
            let detail: String = if at_home {
                kind.label()
            } else {
                joined(joined(kind.label(), " · "), cluster.as_str())
            };
            let candidate: Candidate = Candidate {
                target: Target::Object { cluster: cluster.dup(), kind: kind.dup(), key: row.key.dup() },
                label: row.key.to_text(),
                detail,
            };
            assert(candidate.deep_view() == third[last as int]);
            candidates.push(Arc::new(candidate));
            assert(candidates.deep_view() =~= before.push(third[last as int]));
            assert(first + second + third.take(last + 1) =~= before.push(third[last as int]));
            last += 1;
        }
        assert(third.take(last as int) =~= third);

        let ghost all = candidates.deep_view();
        let mut haystacks: Vec<Utf32String> = Vec::new();
        let mut each: usize = 0;
        while each < candidates.len()
            invariant
                each <= candidates.len(),
                all == candidates.deep_view(),
                haystacks@.len() == each,
                forall|i: int| 0 <= i < each ==> #[trigger] haystacks@[i] == haystack_of(all[i].label),
            decreases candidates.len() - each,
        {
            assert(all[each as int] == candidates[each as int].deep_view());
            haystacks.push(to_haystack(candidates[each].label.as_str()));
            each += 1;
        }
        self.candidates = candidates;
        self.haystacks = haystacks;
    }

    /// How many things can be jumped to.
    pub fn len(&self) -> (len: usize)
        ensures
            len == self@.len(),
    {
        self.candidates.len()
    }

    /// Whether nothing can be jumped to.
    pub fn is_empty(&self) -> (empty: bool)
        ensures
            empty == (self@.len() == 0),
    {
        self.candidates.len() == 0
    }

    /// Whether the matcher can be asked about every candidate.
    pub fn can_search(&self, query: &str) -> (possible: bool)
        requires
            self.wf(),
        ensures
            possible == can_search(self@, query@),
    {
        let ghost all = self@;
        let typed: Vec<char> = trim(query);
        if typed.len() == 0 {
            return true;
        }
        let ghost asked = words_of(pattern_of(trimmed(query@)));
        let words: Vec<(Vec<char>, bool)> = words_in(&parse_query(text_of(typed.as_slice()).as_str()));
        let mut at: usize = 0;
        while at < self.candidates.len()
            invariant
                at <= self.candidates.len(),
                self.wf(),
                all == self@,
                asked == words.deep_view(),
                asked == words_of(pattern_of(trimmed(query@))),
                trimmed(query@).len() > 0,
                forall|i: int|
                    0 <= i < at ==> can_score(asked, characters_of(haystack_of((#[trigger] all[i]).label))),
            decreases self.candidates.len() - at,
        {
            assert(self.haystacks@[at as int] == haystack_of(all[at as int].label));
            if !is_scorable(&words, &characters(&self.haystacks[at])) {
                assert(!can_score(asked, characters_of(haystack_of(all[at as int].label))));
                return false;
            }
            at += 1;
        }
        true
    }

    /// What fits a query, best first. Where nothing was typed, the first
    /// candidates.
    pub fn search(&mut self, query: &str) -> (found: Vec<Match>)
        requires
            old(self).wf(),
            can_search(old(self)@, query@),
        ensures
            final(self).wf(),
            final(self)@ == old(self)@,
            found.deep_view() == found_by(old(self)@, query@),
            found.len() <= MAX_RESULTS,
    {
        let ghost all = self@;
        let typed: Vec<char> = trim(query);
        if typed.len() == 0 {
            let mut found: Vec<Match> = Vec::new();
            let mut at: usize = 0;
            while at < self.candidates.len() && at < MAX_RESULTS
                invariant
                    at <= self.candidates.len(),
                    at <= MAX_RESULTS,
                    self.wf(),
                    all == self@,
                    self@ == old(self)@,
                    found.len() == at,
                    forall|i: int|
                        0 <= i < at ==> (#[trigger] found.deep_view()[i]) == (MatchModel {
                            candidate: all[i],
                            score: 0,
                        }),
                decreases self.candidates.len() - at,
            {
                let ghost before = found.deep_view();
                found.push(Match { candidate: Arc::clone(&self.candidates[at]), score: 0 });
                assert(found.deep_view() =~= before.push(MatchModel { candidate: all[at as int], score: 0 }));
                at += 1;
            }
            assert(found.deep_view() =~= unsearched(all));
            return found;
        }

        let words: String = text_of(typed.as_slice());
        let pattern: Pattern = parse_query(words.as_str());
        let ghost asked = trimmed(query@);
        let mut found: Vec<Match> = Vec::new();
        let mut at: usize = 0;
        assert(found.deep_view() =~= fitting(all.take(0), asked));
        while at < self.candidates.len()
            invariant
                at <= self.candidates.len(),
                self.wf(),
                all == self@,
                all == old(self)@,
                pattern == pattern_of(asked),
                asked == trimmed(query@),
                asked.len() > 0,
                can_search(all, query@),
                found.deep_view() == fitting(all.take(at as int), asked),
            decreases self.candidates.len() - at,
        {
            let ghost before = found.deep_view();
            assert(all.take(at + 1).drop_last() =~= all.take(at as int));
            assert(all.take(at + 1).last() == all[at as int]);
            assert(self.haystacks@[at as int] == haystack_of(all[at as int].label));
            assert(all[at as int] == self.candidates[at as int].deep_view());
            if let Some(fit) = score(&pattern, &self.haystacks[at], &mut self.matcher) {
                found.push(Match { candidate: Arc::clone(&self.candidates[at]), score: fit });
                assert(found.deep_view() =~= before.push(MatchModel { candidate: all[at as int], score: fit }));
            }
            at += 1;
        }
        assert(all.take(at as int) =~= all);
        rank(&found)
    }
}

// --- laws -----------------------------------------------------------------------

/// A search finds exactly the candidates that fit, each with its score.
pub proof fn what_fits_is_found(candidates: Seq<CandidateModel>, query: Seq<char>, found: MatchModel)
    ensures
        fitting(candidates, query).contains(found) <==> candidates.contains(found.candidate) && fit_of(
            query,
            found.candidate.label,
        ) == Some(found.score),
    decreases candidates.len(),
{
    if candidates.len() > 0 {
        let (rest, last) = (candidates.drop_last(), candidates.last());
        what_fits_is_found(rest, query, found);
        let before = fitting(rest, query);
        let after = fitting(candidates, query);
        assert(candidates =~= rest.push(last));
        assert(candidates.contains(found.candidate) <==> rest.contains(found.candidate) || found.candidate == last) by {
            if rest.contains(found.candidate) {
                let i = choose|i: int| 0 <= i < rest.len() && rest[i] == found.candidate;
                assert(candidates[i] == found.candidate);
            }
            if found.candidate == last {
                assert(candidates[candidates.len() - 1] == last);
            }
        }
        match fit_of(query, last.label) {
            Some(score) => {
                let entry = MatchModel { candidate: last, score };
                assert(after == before.push(entry));
                if before.contains(found) {
                    let i = choose|i: int| 0 <= i < before.len() && before[i] == found;
                    assert(after[i] == found);
                }
                if found == entry {
                    assert(after[before.len() as int] == found);
                }
            },
            None => {},
        }
    }
}

/// Results are ranked: none is better than one ahead of it, each of them was
/// found, and whatever was left out is no better than any that was given.
pub proof fn results_are_the_best(found: Seq<MatchModel>, i: int, j: int)
    requires
        0 <= i < j < sorted(found, better()).len(),
        i < ranked(found).len(),
    ensures
        ranked(found).len() <= MAX_RESULTS,
        ranked(found)[i] == sorted(found, better())[i],
        !better()(sorted(found, better())[j], ranked(found)[i]),
        found.contains(ranked(found)[i]),
{
    better_is_consistent(found);
    sorting_orders(found, better());
    let all = sorted(found, better());
    assert(!better()(all[j], all[i]));
    assert(all.contains(all[i]));
    crate::sorting::sorting_keeps_membership(found, better(), all[i]);
}

proof fn better_is_consistent(found: Seq<MatchModel>)
    ensures
        consistent(found, better()),
{
    let before = better();
    assert forall|a: MatchModel, b: MatchModel| #![trigger before(a, b)]
        found.contains(a) && found.contains(b) && before(a, b) implies !before(b, a) by {
        text_order(a.candidate.label, b.candidate.label, a.candidate.label);
    }
    assert forall|a: MatchModel, b: MatchModel, c: MatchModel| #![trigger before(a, b), before(b, c)]
        found.contains(a) && found.contains(b) && found.contains(c) && before(a, b) && before(b, c) implies before(
        a,
        c,
    ) by {
        text_order(a.candidate.label, b.candidate.label, c.candidate.label);
    }
    assert forall|a: MatchModel, b: MatchModel, c: MatchModel| #![trigger before(a, b), before(b, c)]
        found.contains(a) && found.contains(b) && found.contains(c) && !before(a, b) && !before(b, c) implies !before(
        a,
        c,
    ) by {
        text_order(a.candidate.label, b.candidate.label, c.candidate.label);
        text_order(b.candidate.label, a.candidate.label, c.candidate.label);
        text_order(c.candidate.label, b.candidate.label, a.candidate.label);
        text_order(a.candidate.label, c.candidate.label, b.candidate.label);
        text_order(b.candidate.label, c.candidate.label, a.candidate.label);
    }
}

/// Everything that fits is among the results where there is room for all of it.
pub proof fn nothing_is_left_out_without_need(found: Seq<MatchModel>, wanted: MatchModel)
    requires
        found.len() <= MAX_RESULTS,
    ensures
        ranked(found).contains(wanted) <==> found.contains(wanted),
{
    sorting_keeps_items(found, better());
    crate::sorting::sorting_keeps_membership(found, better(), wanted);
}

/// Whatever can be jumped to is offered: every cluster by its name, every kind
/// by its title, and every object there is room for by its name, each leading
/// where it says. An object on another cluster than the one on screen says which.
pub proof fn everything_is_offered(
    clusters: Seq<Seq<char>>,
    kinds: Seq<KindInfoModel>,
    objects: Seq<(Seq<char>, KindModel, RowModel)>,
    home: Option<Seq<char>>,
    i: int,
)
    ensures
        ({
            let all = candidates_of(clusters, kinds, objects, home);
            &&& objects.len() <= MAX_OBJECTS ==> all.len() == clusters.len() + kinds.len() + objects.len()
            &&& 0 <= i < clusters.len() ==> all[i].target == TargetModel::Cluster(clusters[i]) && all[i].label
                == clusters[i]
            &&& 0 <= i < kinds.len() ==> all[clusters.len() + i].target == TargetModel::Kind(kinds[i].id) && crate::text::holds(
                all[clusters.len() + i].detail,
                kinds[i].id.plural,
            )
            &&& 0 <= i < objects.len() && i < MAX_OBJECTS ==> {
                let (cluster, kind, row) = objects[i];
                let offer = all[clusters.len() + kinds.len() + i];
                &&& offer.target == (TargetModel::Object { cluster, kind, key: row.key })
                &&& row.key.namespace.len() == 0 ==> offer.label == row.key.name
                &&& row.key.namespace.len() > 0 ==> offer.label == row.key.namespace + "/"@ + row.key.name
                &&& home != Some(cluster) ==> crate::text::holds(offer.detail, cluster)
                &&& home == Some(cluster) ==> offer.detail == kind_label(kind)
            }
        }),
{
    let none = Seq::<char>::empty();
    if 0 <= i < kinds.len() {
        let id = kinds[i].id;
        let custom = "custom resource · "@;
        if id.group.len() == 0 {
            assert(custom + kind_label(id) =~= custom + id.plural + none);
            crate::text::a_text_holds_its_parts(custom, id.plural, none);
        } else {
            let end = "."@ + id.group;
            assert(custom + kind_label(id) =~= custom + id.plural + end);
            assert(kind_label(id) =~= none + id.plural + end);
            crate::text::a_text_holds_its_parts(custom, id.plural, end);
            crate::text::a_text_holds_its_parts(none, id.plural, end);
        }
    }
    if 0 <= i < objects.len() && i < MAX_OBJECTS {
        let (cluster, kind, row) = objects[i];
        let offers = offered(objects).map_values(
            |object: (Seq<char>, KindModel, RowModel)| object_candidate(object, home),
        );
        assert(offers[i] == object_candidate(objects[i], home));
        let start = kind_label(kind) + " · "@;
        assert(kind_label(kind) + " · "@ + cluster =~= start + cluster + none);
        crate::text::a_text_holds_its_parts(start, cluster, none);
    }
}

/// Results are listed best first: by score, then by how short the label is, then
/// by the label. With nothing typed they are the first candidates as they come.
pub proof fn results_are_listed_best_first(candidates: Seq<CandidateModel>, query: Seq<char>, i: int, j: int)
    requires
        0 <= i < j < found_by(candidates, query).len(),
    ensures
        ({
            let found = found_by(candidates, query);
            let (a, b) = (found[i], found[j]);
            let (short, long) = (encode_utf8(a.candidate.label).len(), encode_utf8(b.candidate.label).len());
            &&& found.len() <= 50
            &&& trimmed(query).len() > 0 ==> a.score > b.score || (a.score == b.score && (short < long || (short == long
                && (a.candidate.label == b.candidate.label || text_before(a.candidate.label, b.candidate.label)))))
            &&& trimmed(query).len() == 0 ==> a.candidate == candidates[i] && a.score == 0 && found.len() == (
            if candidates.len() > 50 {
                50
            } else {
                candidates.len()
            })
        }),
{
    if trimmed(query).len() > 0 {
        let fits = fitting(candidates, trimmed(query));
        better_is_consistent(fits);
        sorting_orders(fits, better());
        let all = sorted(fits, better());
        assert(!better()(all[j], all[i]));
        text_order(all[i].candidate.label, all[j].candidate.label, all[i].candidate.label);
    }
}

/// What a search lists is what the matcher says fits, with the score it gave;
/// and everything that fits is listed where there are no more than fifty.
pub proof fn a_search_lists_what_fits(candidates: Seq<CandidateModel>, query: Seq<char>, found: MatchModel)
    requires
        trimmed(query).len() > 0,
    ensures
        ({
            let fits = candidates.contains(found.candidate) && fuzzy_score(
                pattern_of(trimmed(query)),
                haystack_of(found.candidate.label),
            ) == Some(found.score);
            &&& found_by(candidates, query).contains(found) ==> fits
            &&& fits && fitting(candidates, trimmed(query)).len() <= 50 ==> found_by(candidates, query).contains(found)
        }),
{
    let fits = fitting(candidates, trimmed(query));
    what_fits_is_found(candidates, trimmed(query), found);
    let all = sorted(fits, better());
    crate::sorting::sorting_keeps_membership(fits, better(), found);
    sorting_keeps_items(fits, better());
    if found_by(candidates, query).contains(found) {
        let i = choose|i: int| 0 <= i < found_by(candidates, query).len() && found_by(candidates, query)[i] == found;
        assert(all[i] == found);
    }
}

/// A cluster is offered as one, and a kind by its title, as a custom one where it
/// was added to its cluster.
pub proof fn what_is_offered_is_told_apart(cluster: Seq<char>, info: KindInfoModel)
    ensures
        cluster_candidate(cluster).detail == "cluster"@,
        kind_candidate(info).label == kind_title(info.id),
        !info.custom ==> kind_candidate(info).detail == kind_label(info.id),
        info.custom ==> "custom resource"@.is_prefix_of(kind_candidate(info).detail) && kind_candidate(info).detail.len()
            > kind_label(info.id).len(),
{
    reveal_strlit("custom resource");
    reveal_strlit("custom resource · ");
    let text = "custom resource · "@ + kind_label(info.id);
    assert(text.take(15) =~= "custom resource"@);
}

} // verus!
