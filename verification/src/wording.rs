//! What a console says, word for word.

use crate::events::CommandError;
use crate::objects::{kind_label, KindId, KindInfo, KindModel, OwnerRef};
use crate::sessions::{connection_label, connection_problem, ConnectionState, ConnectionStateModel};
use crate::text::{
    chars_of, contains, decimal, find, first_of, holds, is_white, joined, lowercase, natural_up_to, parse_natural,
    text_of, to_decimal, to_lowercase, trim, trimmed, white,
};
use crate::value::Value;
use vstd::prelude::*;
use vstd::slice::slice_subrange;

verus! {

// --- an empty table -------------------------------------------------------------

/// What is said in place of a table with no rows in it. A refusal outranks
/// every other explanation, and a problem is never passed over as emptiness.
pub open spec fn empty_text(
    unavailable: Option<Seq<char>>,
    kind: Option<KindModel>,
    state: Option<ConnectionStateModel>,
) -> Seq<char> {
    match (unavailable, state) {
        (Some(reason), _) => match kind {
            Some(kind) => "Not allowed to list "@ + kind_label(kind) + " here — "@ + reason,
            None => reason,
        },
        (None, None) => "Select a context to connect."@,
        (None, Some(ConnectionStateModel::Connecting)) => "Connecting…"@,
        (None, Some(ConnectionStateModel::Idle)) => "Not connected."@,
        (None, Some(state)) => if connection_problem(state) {
            "No rows to show — the cluster is "@ + connection_label(state) + "."@
        } else {
            match kind {
                Some(kind) => "No "@ + kind_label(kind) + " here."@,
                None => "No kind selected."@,
            }
        },
    }
}

/// What is said in place of a table with no rows in it.
pub fn empty_message(
    unavailable: Option<&str>,
    kind: Option<&KindId>,
    state: Option<&ConnectionState>,
) -> (message: String)
    ensures
        message@ == empty_text(unavailable.deep_view(), kind.deep_view(), state.deep_view()),
{
    if let Some(reason) = unavailable {
        return match kind {
            Some(kind) => {
                let listed: String = joined("Not allowed to list ".to_owned(), kind.label().as_str());
                joined(joined(listed, " here — "), reason)
            },
            None => reason.to_owned(),
        };
    }
    match state {
        None => "Select a context to connect.".to_owned(),
        Some(state) => match state {
            ConnectionState::Connecting => "Connecting…".to_owned(),
            ConnectionState::Idle => "Not connected.".to_owned(),
            _ => if state.is_problem() {
                joined(joined("No rows to show — the cluster is ".to_owned(), state.label()), ".")
            } else {
                match kind {
                    Some(kind) => joined(joined("No ".to_owned(), kind.label().as_str()), " here."),
                    None => "No kind selected.".to_owned(),
                }
            },
        },
    }
}

/// A refusal is always said, whatever the connection is doing.
pub proof fn refusals_are_always_said(
    reason: Seq<char>,
    kind: Option<KindModel>,
    state: Option<ConnectionStateModel>,
)
    ensures
        holds(empty_text(Some(reason), kind, state), reason),
{
    let text = empty_text(Some(reason), kind, state);
    assert(text.subrange(text.len() - reason.len(), text.len() - reason.len() + reason.len()) =~= reason);
}

// --- commands that were not accepted --------------------------------------------

/// What is said about a command that was not accepted.
pub open spec fn command_error_text(error: CommandError) -> Seq<char> {
    match error {
        CommandError::Backpressure => {
            "The cluster runtime is saturated and did not accept the command. Retry in a moment."@
        },
        CommandError::Closed => "The cluster runtime has stopped. Restart Periscope to reconnect."@,
    }
}

/// What is said about a command that was not accepted, and what to do about it.
pub fn error_text(error: CommandError) -> (text: String)
    ensures
        text@ == command_error_text(error),
{
    match error {
        CommandError::Backpressure => {
            "The cluster runtime is saturated and did not accept the command. Retry in a moment.".to_owned()
        },
        CommandError::Closed => "The cluster runtime has stopped. Restart Periscope to reconnect.".to_owned(),
    }
}

// --- the detail pane's tabs -----------------------------------------------------

/// Which part of an object the detail pane shows.
#[derive(Clone, Copy, Debug, PartialEq, Eq, Structural)]
pub enum DetailTab {
    /// The object itself.
    Yaml,
    /// What has happened to it.
    Events,
    /// What owns it.
    Related,
}

impl DeepView for DetailTab {
    type V = DetailTab;

    open spec fn deep_view(&self) -> DetailTab {
        *self
    }
}

impl Default for DetailTab {
    fn default() -> (tab: Self)
        ensures
            tab == DetailTab::Yaml,
    {
        DetailTab::Yaml
    }
}

/// A word with a count after it, where there is something to count.
pub open spec fn counted_word(word: Seq<char>, count: nat) -> Seq<char> {
    if count > 0 {
        word + " ("@ + decimal(count) + ")"@
    } else {
        word
    }
}

/// What a tab says.
pub open spec fn tab_label(tab: DetailTab, events: nat, owners: nat) -> Seq<char> {
    match tab {
        DetailTab::Yaml => "YAML"@,
        DetailTab::Events => counted_word("Events"@, events),
        DetailTab::Related => counted_word("Related"@, owners),
    }
}

fn with_count(word: &str, count: usize) -> (text: String)
    ensures
        text@ == counted_word(word@, count as nat),
{
    if count > 0 {
        let opened: String = joined(word.to_owned(), " (");
        joined(joined(opened, to_decimal(count as u64).as_str()), ")")
    } else {
        word.to_owned()
    }
}

impl DetailTab {
    /// What the tab says, with a count where there is something to count.
    pub fn label(self, events: usize, owners: usize) -> (label: String)
        ensures
            label@ == tab_label(self, events as nat, owners as nat),
    {
        match self {
            DetailTab::Yaml => "YAML".to_owned(),
            DetailTab::Events => with_count("Events", events),
            DetailTab::Related => with_count("Related", owners),
        }
    }
}

// --- exports --------------------------------------------------------------------

/// How many characters of a label an export's name keeps.
pub const EXPORT_LABEL_LIMIT: usize = 80;

/// Whether a character is one that a shell or a path reads as structure: white
/// space, a control character, a quote, a bracket, or a sign that separates,
/// redirects, expands or comments.
pub open spec fn structural(c: char) -> bool {
    ||| white(c)
    ||| c < ' '
    ||| c == '\u{7f}'
    ||| c == '/' || c == '\\' || c == ':'
    ||| c == '"' || c == '\'' || c == '`'
    ||| c == '(' || c == ')' || c == '[' || c == ']' || c == '{' || c == '}' || c == '<' || c == '>'
    ||| c == '|' || c == '&' || c == ';' || c == '!' || c == '#' || c == '^'
    ||| c == '$' || c == '%' || c == '*' || c == '?' || c == '~'
}

/// Whether a character is one that a shell or a path reads as structure.
pub fn is_structural(c: char) -> (structure: bool)
    ensures
        structure == structural(c),
{
    let separates: bool = c == '/' || c == '\\' || c == ':' || c == '|' || c == '&' || c == ';';
    let quotes: bool = c == '"' || c == '\'' || c == '`';
    let brackets: bool = c == '(' || c == ')' || c == '[' || c == ']' || c == '{' || c == '}' || c == '<' || c == '>';
    let expands: bool = c == '$' || c == '%' || c == '*' || c == '?' || c == '~' || c == '!' || c == '#' || c == '^';
    is_white(c) || c < ' ' || c == '\u{7f}' || separates || quotes || brackets || expands
}

/// A character of a label as an export's name has it.
pub open spec fn plain_char(c: char) -> char {
    if structural(c) {
        '-'
    } else {
        c
    }
}

/// A label as an export's name has it: no structure, and not too long.
pub open spec fn plain_label(label: Seq<char>) -> Seq<char> {
    let kept = if label.len() > EXPORT_LABEL_LIMIT {
        label.take(EXPORT_LABEL_LIMIT as int)
    } else {
        label
    };
    kept.map_values(|c: char| plain_char(c))
}

/// The file an export goes to.
pub open spec fn export_file(label: Seq<char>, exports: nat) -> Seq<char> {
    "periscope-"@ + plain_label(label) + "-"@ + decimal(exports) + ".log"@
}

/// The file an export goes to, by what it is an export of. `exports` counts
/// within the session, so that two exports of one pane do not meet.
pub fn export_name(label: &str, exports: u32) -> (name: String)
    ensures
        name@ == export_file(label@, exports as nat),
{
    let chars: Vec<char> = chars_of(label);
    let kept: usize = if chars.len() > EXPORT_LABEL_LIMIT {
        EXPORT_LABEL_LIMIT
    } else {
        chars.len()
    };
    let mut plain: String = String::new();
    let mut at: usize = 0;
    assert(plain@ =~= plain_label(label@).take(0));
    while at < kept
        invariant
            at <= kept <= chars.len(),
            chars@ == label@,
            kept == plain_label(label@).len(),
            plain@ == plain_label(label@).take(at as int),
        decreases kept - at,
    {
        let c: char = chars[at];
        plain.push(
            if is_structural(c) {
                '-'
            } else {
                c
            },
        );
        assert(plain_label(label@).take(at + 1) =~= plain_label(label@).take(at as int).push(plain_char(c)));
        at += 1;
    }
    assert(plain_label(label@).take(at as int) =~= plain_label(label@));
    let started: String = joined(joined("periscope-".to_owned(), plain.as_str()), "-");
    joined(joined(started, to_decimal(exports as u64).as_str()), ".log")
}

/// Nothing that a path or a shell reads as structure is left of a label, and
/// no more than a file name has room for.
pub proof fn export_labels_are_plain(label: Seq<char>, i: int)
    requires
        0 <= i < plain_label(label).len(),
    ensures
        !structural(plain_label(label)[i]),
        plain_label(label).len() <= EXPORT_LABEL_LIMIT,
{
}

/// Two exports of one session never have the same name.
pub proof fn export_names_differ(label: Seq<char>, first: nat, second: nat)
    requires
        first != second,
    ensures
        export_file(label, first) != export_file(label, second),
{
    let head = "periscope-"@ + plain_label(label) + "-"@;
    let (a, b) = (export_file(label, first), export_file(label, second));
    if a == b {
        assert(a.subrange(head.len() as int, a.len() - ".log"@.len()) =~= decimal(first));
        assert(b.subrange(head.len() as int, b.len() - ".log"@.len()) =~= decimal(second));
        crate::text::decimal_reads_back(first);
        crate::text::decimal_reads_back(second);
    }
}

// --- kinds ----------------------------------------------------------------------

/// Whether a kind is one that the text in the sidebar's filter box asks for.
/// An empty box asks for everything.
pub open spec fn kind_wanted(kind: KindModel, filter: Seq<char>) -> bool {
    filter.len() == 0 || holds(lowercase(kind_label(kind)), filter)
}

/// Whether a kind is one that the sidebar's filter asks for.
pub fn matches_filter(info: &KindInfo, filter: &str) -> (wanted: bool)
    ensures
        wanted == kind_wanted(info.deep_view().id, filter@),
{
    filter.is_empty() || contains(to_lowercase(info.id.label().as_str()).as_str(), filter)
}

/// Whether a text ends with another.
pub open spec fn ends_with(text: Seq<char>, end: Seq<char>) -> bool {
    text.len() >= end.len() && text.skip(text.len() - end.len()) == end
}

/// The plural of a kind's name, by the convention of Kubernetes: in lowercase,
/// with `s`, `es` after a hiss, or `ies` in place of `y`.
pub open spec fn plural_of(kind: Seq<char>) -> Seq<char> {
    let lower = lowercase(kind);
    if lower.len() > 0 && lower.last() == 'y' {
        lower.drop_last() + "ies"@
    } else if ends_with(lower, "s"@) || ends_with(lower, "ch"@) || ends_with(lower, "sh"@) {
        lower + "es"@
    } else {
        lower + "s"@
    }
}

/// The kind an owner reference points at.
pub open spec fn owner_kind_of(api_version: Seq<char>, kind: Seq<char>) -> KindModel {
    let at = first_of(api_version, '/');
    if at < api_version.len() {
        KindModel {
            group: api_version.take(at),
            version: api_version.skip(at + 1),
            kind,
            plural: plural_of(kind),
        }
    } else {
        KindModel { group: ""@, version: api_version, kind, plural: plural_of(kind) }
    }
}

/// The kind an owner reference points at.
pub fn owner_kind(owner: &OwnerRef) -> (kind: KindId)
    ensures
        kind.deep_view() == owner_kind_of(owner.deep_view().api_version, owner.deep_view().kind),
{
    let version: Vec<char> = chars_of(owner.api_version.as_str());
    let at: usize = find(version.as_slice(), '/');
    let lower: Vec<char> = chars_of(to_lowercase(owner.kind.as_str()).as_str());
    let len: usize = lower.len();
    let ghost text = lower@;
    proof {
        reveal_strlit("s");
        reveal_strlit("ch");
        reveal_strlit("sh");
        if len >= 1 {
            assert(text.skip(len - 1) =~= seq![text[len - 1]]);
            assert("s"@ =~= seq!['s']);
        }
        if len >= 2 {
            assert(text.skip(len - 2) =~= seq![text[len - 2], text[len - 1]]);
            assert("ch"@ =~= seq!['c', 'h']);
            assert("sh"@ =~= seq!['s', 'h']);
            assert(seq![text[len - 2], text[len - 1]][0] == text[len - 2]);
            assert(seq![text[len - 2], text[len - 1]][1] == text[len - 1]);
        }
    }
    let plural: String = if len > 0 && lower[len - 1] == 'y' {
        assert(text.subrange(0, len - 1) =~= text.drop_last());
        joined(text_of(slice_subrange(lower.as_slice(), 0, len - 1)), "ies")
    } else if (len > 0 && lower[len - 1] == 's') || (len > 1 && (lower[len - 2] == 'c' || lower[len - 2] == 's')
        && lower[len - 1] == 'h') {
        proof {
            if len > 0 && text[len - 1] == 's' {
                assert(ends_with(text, "s"@));
            } else if text[len - 2] == 'c' {
                assert(text.skip(len - 2) =~= "ch"@);
                assert(ends_with(text, "ch"@));
            } else {
                assert(text.skip(len - 2) =~= "sh"@);
                assert(ends_with(text, "sh"@));
            }
        }
        joined(text_of(lower.as_slice()), "es")
    } else {
        proof {
            if ends_with(text, "s"@) {
                assert(text.skip(len - 1)[0] == text[len - 1]);
            }
            if ends_with(text, "ch"@) {
                assert(text.skip(len - 2)[0] == text[len - 2]);
                assert(text.skip(len - 2)[1] == text[len - 1]);
            }
            if ends_with(text, "sh"@) {
                assert(text.skip(len - 2)[0] == text[len - 2]);
                assert(text.skip(len - 2)[1] == text[len - 1]);
            }
        }
        joined(text_of(lower.as_slice()), "s")
    };
    if at < version.len() {
        assert(version@.subrange(0, at as int) =~= version@.take(at as int));
        assert(version@.subrange(at + 1, version@.len() as int) =~= version@.skip(at + 1));
        KindId {
            group: text_of(slice_subrange(version.as_slice(), 0, at)),
            version: text_of(slice_subrange(version.as_slice(), at + 1, version.len())),
            kind: owner.kind.clone(),
            plural,
        }
    } else {
        KindId { group: "".to_owned(), version: owner.api_version.clone(), kind: owner.kind.clone(), plural }
    }
}

// --- numbers somebody types -----------------------------------------------------

/// The number of replicas that was typed, if it is one.
pub open spec fn replicas_typed(text: Seq<char>) -> Option<nat> {
    natural_up_to(trimmed(text), u32::MAX as nat)
}

/// The port that was typed, if it is one.
pub open spec fn port_typed(text: Seq<char>) -> Option<nat> {
    match natural_up_to(trimmed(text), u16::MAX as nat) {
        Some(port) => if port > 0 {
            Some(port)
        } else {
            None
        },
        None => None,
    }
}

/// The number of replicas that was typed, if it is one.
pub fn typed_replicas(text: &str) -> (replicas: Option<u32>)
    ensures
        replicas_typed(text@) == (match replicas {
            Some(replicas) => Some(replicas as nat),
            None => None,
        }),
{
    let typed: Vec<char> = trim(text);
    match parse_natural(typed.as_slice(), 0xffff_ffff) {
        Some(replicas) => Some(replicas as u32),
        None => None,
    }
}

/// The port that was typed, if it is one.
pub fn typed_port(text: &str) -> (port: Option<u16>)
    ensures
        port_typed(text@) == (match port {
            Some(port) => Some(port as nat),
            None => None,
        }),
{
    let typed: Vec<char> = trim(text);
    match parse_natural(typed.as_slice(), 0xffff) {
        Some(port) => if port > 0 {
            Some(port as u16)
        } else {
            None
        },
        None => None,
    }
}

/// How many replicas a workload wants, by the cell that says `ready/desired`.
pub open spec fn desired_replicas(cell: Seq<char>) -> Option<nat> {
    let at = first_of(cell, '/');
    if at < cell.len() {
        natural_up_to(trimmed(cell.skip(at + 1)), u32::MAX as nat)
    } else {
        None
    }
}

/// How many replicas a workload wants, by the cell that says `ready/desired`.
pub fn replicas_in(cell: &str) -> (replicas: Option<u32>)
    ensures
        desired_replicas(cell@) == (match replicas {
            Some(replicas) => Some(replicas as nat),
            None => None,
        }),
{
    let chars: Vec<char> = chars_of(cell);
    let at: usize = find(chars.as_slice(), '/');
    if at >= chars.len() {
        return None;
    }
    assert(chars@.subrange(at + 1, chars@.len() as int) =~= chars@.skip(at + 1));
    let desired: String = text_of(slice_subrange(chars.as_slice(), at + 1, chars.len()));
    typed_replicas(desired.as_str())
}

/// A label is kept in an export's name letter for letter, but that whatever a
/// shell or a path reads as structure becomes a dash; the number of the export
/// stands behind it.
pub proof fn an_export_is_named_after_its_pane(label: Seq<char>, exports: nat, i: int)
    requires
        0 <= i < label.len(),
        label.len() <= 80,
    ensures
        ({
            let name = export_file(label, exports);
            let (c, written) = (label[i], name["periscope-"@.len() + i]);
            let plain = 'a' <= c <= 'z' || 'A' <= c <= 'Z' || '0' <= c <= '9' || c == '-' || c == '_' || c == '.' || c
                == '=' || c == ',';
            let risky = c == ' ' || c == '/' || c == '\\' || c == ':' || c == '"' || c == '\'' || c == '`' || c == '('
                || c == ')' || c == '[' || c == ']' || c == '{' || c == '}' || c == '<' || c == '>' || c == '|' || c
                == '&' || c == ';' || c == '!' || c == '#' || c == '^' || c == '$' || c == '%' || c == '*' || c == '?'
                || c == '~' || c == '\n' || c == '\t' || c == '\r';
            &&& name == "periscope-"@ + plain_label(label) + "-"@ + decimal(exports) + ".log"@
            &&& plain ==> written == c
            &&& risky ==> written == '-'
        }),
{
}

} // verus!
