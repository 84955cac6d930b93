//! Which keys do what, and where.

use crate::text::{chars_of, joined, trim, trimmed};
use crate::value::Value;
use vstd::prelude::*;

verus! {

/// Something a key can be bound to.
#[derive(Clone, Copy, Debug, PartialEq, Eq, Structural)]
pub enum Command {
    /// Open or close the jump palette.
    Palette,
    /// Close whatever is on top.
    Dismiss,
    /// Tail logs.
    Logs,
    /// Stick to the newest line, or stay put.
    Follow,
    /// Show two clusters, or one.
    Split,
    /// Move down the palette.
    Next,
    /// Move up the palette.
    Previous,
    /// Jump to what the palette is on.
    Confirm,
    /// Move down the table.
    RowDown,
    /// Move up the table.
    RowUp,
    /// Go to the first row.
    RowTop,
    /// Go to the last row.
    RowBottom,
    /// Move half a screen down.
    HalfPageDown,
    /// Move half a screen up.
    HalfPageUp,
    /// Open the row the cursor is on.
    OpenRow,
}

impl DeepView for Command {
    type V = Command;

    open spec fn deep_view(&self) -> Command {
        *self
    }
}

impl Value for Command {
    fn dup(&self) -> (copy: Self) {
        *self
    }

    fn same(&self, other: &Self) -> (equal: bool) {
        *self == *other
    }
}

/// What the settings call a command.
pub open spec fn command_name(command: Command) -> Seq<char> {
    match command {
        Command::Palette => "palette"@,
        Command::Dismiss => "dismiss"@,
        Command::Logs => "logs"@,
        Command::Follow => "follow"@,
        Command::Split => "split"@,
        Command::Next => "next"@,
        Command::Previous => "previous"@,
        Command::Confirm => "confirm"@,
        Command::RowDown => "row-down"@,
        Command::RowUp => "row-up"@,
        Command::RowTop => "row-top"@,
        Command::RowBottom => "row-bottom"@,
        Command::HalfPageDown => "half-page-down"@,
        Command::HalfPageUp => "half-page-up"@,
        Command::OpenRow => "open-row"@,
    }
}

impl Command {
    /// What the settings call it.
    pub fn name(self) -> (name: &'static str)
        ensures
            name@ == command_name(self),
    {
        match self {
            Command::Palette => "palette",
            Command::Dismiss => "dismiss",
            Command::Logs => "logs",
            Command::Follow => "follow",
            Command::Split => "split",
            Command::Next => "next",
            Command::Previous => "previous",
            Command::Confirm => "confirm",
            Command::RowDown => "row-down",
            Command::RowUp => "row-up",
            Command::RowTop => "row-top",
            Command::RowBottom => "row-bottom",
            Command::HalfPageDown => "half-page-down",
            Command::HalfPageUp => "half-page-up",
            Command::OpenRow => "open-row",
        }
    }
}

/// One key, with what was held down.
#[derive(Clone, Debug, PartialEq, Eq)]
pub struct Keystroke {
    /// Whether control was held.
    pub control: bool,
    /// Whether alt was held.
    pub alt: bool,
    /// Whether the platform's own key was held.
    pub platform: bool,
    /// Whether the function key was held.
    pub function: bool,
    /// The key.
    pub key: String,
}

/// What a [`Keystroke`] holds.
pub struct KeystrokeModel {
    /// Whether control was held.
    pub control: bool,
    /// Whether alt was held.
    pub alt: bool,
    /// Whether the platform's own key was held.
    pub platform: bool,
    /// Whether the function key was held.
    pub function: bool,
    /// The key.
    pub key: Seq<char>,
}

impl DeepView for Keystroke {
    type V = KeystrokeModel;

    open spec fn deep_view(&self) -> KeystrokeModel {
        KeystrokeModel {
            control: self.control.deep_view(),
            alt: self.alt.deep_view(),
            platform: self.platform.deep_view(),
            function: self.function.deep_view(),
            key: self.key.deep_view(),
        }
    }
}

impl Value for Keystroke {
    fn dup(&self) -> (copy: Self) {
        Keystroke {
            control: self.control.dup(),
            alt: self.alt.dup(),
            platform: self.platform.dup(),
            function: self.function.dup(),
            key: self.key.dup(),
        }
    }

    fn same(&self, other: &Self) -> (equal: bool) {
        self.control.same(&other.control)
            && self.alt.same(&other.alt)
            && self.platform.same(&other.platform)
            && self.function.same(&other.function)
            && self.key.same(&other.key)
    }
}

/// Whether a keystroke is something a person could be typing: one character,
/// and nothing held that would take it out of the text. Shift may be held.
pub open spec fn typable(keystroke: KeystrokeModel) -> bool {
    !keystroke.control && !keystroke.alt && !keystroke.platform && !keystroke.function && keystroke.key.len() == 1
}

/// Whether a keystroke is something a person could be typing into a field.
pub fn is_typable(keystroke: &Keystroke) -> (could_be: bool)
    ensures
        could_be == typable(keystroke.deep_view()),
{
    let key: Vec<char> = chars_of(keystroke.key.as_str());
    !keystroke.control && !keystroke.alt && !keystroke.platform && !keystroke.function && key.len() == 1
}

/// Where a command belongs.
pub enum Place {
    /// The palette, while it is open.
    Palette,
    /// The table, whatever is typed.
    Table,
    /// The table, but no text field.
    TableOutsideFields,
    /// Anywhere but in a text field.
    OutsideFields,
    /// Anywhere.
    Anywhere,
}

/// Where the keys of a command apply: those of the palette only while it is
/// open, and those somebody could be typing never in a text field. Half a page
/// is never moved in one either: its keys mean something to fields.
pub open spec fn place_of(command: Command, could_be_typed: bool) -> Place {
    match command {
        Command::Next => Place::Palette,
        Command::Previous => Place::Palette,
        Command::Confirm => Place::Palette,
        Command::HalfPageDown => Place::TableOutsideFields,
        Command::HalfPageUp => Place::TableOutsideFields,
        Command::RowDown | Command::RowUp | Command::RowTop | Command::RowBottom | Command::OpenRow => {
            if could_be_typed {
                Place::TableOutsideFields
            } else {
                Place::Table
            }
        },
        _ => if could_be_typed {
            Place::OutsideFields
        } else {
            Place::Anywhere
        },
    }
}

/// A place, as the toolkit names it.
pub open spec fn place_context(place: Place) -> Option<Seq<char>> {
    match place {
        Place::Palette => Some("Palette"@),
        Place::Table => Some("Periscope"@),
        Place::TableOutsideFields => Some("Periscope && !Input && !NumberInput && !SearchPanel"@),
        Place::OutsideFields => Some("!Input && !NumberInput && !SearchPanel"@),
        Place::Anywhere => None,
    }
}

/// Whether a keystroke is one that could be typed; what is no keystroke could not.
pub open spec fn could_be_typed(keystroke: Option<KeystrokeModel>) -> bool {
    match keystroke {
        Some(keystroke) => typable(keystroke),
        None => false,
    }
}

/// Where the keys of a command apply.
pub fn context_of(command: Command, keystroke: Option<&Keystroke>) -> (context: Option<&'static str>)
    ensures
        context.deep_view() == place_context(place_of(command, could_be_typed(keystroke.deep_view()))),
{
    let typed: bool = match keystroke {
        Some(keystroke) => is_typable(keystroke),
        None => false,
    };
    match command {
        Command::Next | Command::Previous | Command::Confirm => Some("Palette"),
        Command::RowDown | Command::RowUp | Command::RowTop | Command::RowBottom | Command::OpenRow => {
            if typed {
                Some("Periscope && !Input && !NumberInput && !SearchPanel")
            } else {
                Some("Periscope")
            }
        },
        Command::HalfPageDown | Command::HalfPageUp => {
            Some("Periscope && !Input && !NumberInput && !SearchPanel")
        },
        _ => if typed {
            Some("!Input && !NumberInput && !SearchPanel")
        } else {
            None
        },
    }
}

/// What somebody could be typing is never taken from a text field, except by
/// the palette, which has the field.
pub proof fn letters_stay_in_fields(command: Command)
    ensures
        ({
            let place = place_of(command, true);
            place is Palette || place is TableOutsideFields || place is OutsideFields
        }),
        place_of(command, true) is Palette <==> (command == Command::Next || command == Command::Previous || command
            == Command::Confirm),
{
}

// --- keys from the settings -----------------------------------------------------

/// A key that the settings bind, as far as it could be made sense of.
#[derive(Clone, Debug, PartialEq, Eq)]
pub struct TypedKey {
    /// What it is bound to.
    pub command: Command,
    /// What the settings say.
    pub text: String,
    /// What all of that is, if it is one keystroke.
    pub whole: Option<Keystroke>,
    /// Why it is no key, if it is none.
    pub error: Option<String>,
}

/// What a [`TypedKey`] holds.
pub struct TypedKeyModel {
    /// What it is bound to.
    pub command: Command,
    /// What the settings say.
    pub text: Seq<char>,
    /// What all of that is, if it is one keystroke.
    pub whole: Option<KeystrokeModel>,
    /// Why it is no key, if it is none.
    pub error: Option<Seq<char>>,
}

impl DeepView for TypedKey {
    type V = TypedKeyModel;

    open spec fn deep_view(&self) -> TypedKeyModel {
        TypedKeyModel {
            command: self.command.deep_view(),
            text: self.text.deep_view(),
            whole: self.whole.deep_view(),
            error: self.error.deep_view(),
        }
    }
}

impl Value for TypedKey {
    fn dup(&self) -> (copy: Self) {
        TypedKey {
            command: self.command.dup(),
            text: self.text.dup(),
            whole: self.whole.dup(),
            error: self.error.dup(),
        }
    }

    fn same(&self, other: &Self) -> (equal: bool) {
        self.command.same(&other.command)
            && self.text.same(&other.text)
            && self.whole.same(&other.whole)
            && self.error.same(&other.error)
    }
}

/// Why a text is no key: it is empty, or one of its words is none.
pub open spec fn key_error(text: Seq<char>, words: Seq<Option<Seq<char>>>) -> Option<Seq<char>>
    decreases words.len(),
{
    if trimmed(text).len() == 0 {
        Some("it is empty"@)
    } else {
        first_error(words)
    }
}

/// The first error there is.
pub open spec fn first_error(words: Seq<Option<Seq<char>>>) -> Option<Seq<char>>
    decreases words.len(),
{
    if words.len() == 0 {
        None
    } else {
        match first_error(words.drop_last()) {
            Some(error) => Some(error),
            None => words.last(),
        }
    }
}

proof fn first_error_stays(words: Seq<Option<Seq<char>>>, at: int)
    requires
        0 <= at <= words.len(),
        first_error(words.take(at)) is Some,
    ensures
        first_error(words) == first_error(words.take(at)),
    decreases words.len() - at,
{
    if at < words.len() {
        assert(words.drop_last().take(at) =~= words.take(at));
        first_error_stays(words.drop_last(), at);
    } else {
        assert(words.take(at) =~= words);
    }
}

/// Why what the settings say is no key, if it is none. `words` is what came of
/// parsing each of its words: an error, or none.
pub fn validate(keystrokes: &str, words: &Vec<Option<String>>) -> (error: Option<String>)
    ensures
        error.deep_view() == key_error(keystrokes@, words.deep_view()),
{
    if trim(keystrokes).len() == 0 {
        return Some("it is empty".to_owned());
    }
    let ghost all = words.deep_view();
    let mut at: usize = 0;
    while at < words.len()
        invariant
            at <= words.len(),
            all == words.deep_view(),
            first_error(all.take(at as int)) is None,
            trimmed(keystrokes@).len() > 0,
        decreases words.len() - at,
    {
        assert(all.take(at + 1).drop_last() =~= all.take(at as int));
        assert(all.take(at + 1).last() == all[at as int]);
        if let Some(error) = &words[at] {
            proof {
                first_error_stays(all, at + 1);
            }
            return Some(error.clone());
        }
        at += 1;
    }
    assert(all.take(at as int) =~= all);
    None
}

/// A key, what it does, and where.
#[derive(Clone, Debug, PartialEq, Eq)]
pub struct Binding {
    /// What it does.
    pub command: Command,
    /// The key.
    pub text: String,
    /// Where, in the toolkit's words; anywhere, if there are none.
    pub context: Option<&'static str>,
}

/// What a [`Binding`] holds.
pub struct BindingModel {
    /// What it does.
    pub command: Command,
    /// The key.
    pub text: Seq<char>,
    /// Where, in the toolkit's words; anywhere, if there are none.
    pub context: Option<Seq<char>>,
}

impl DeepView for Binding {
    type V = BindingModel;

    open spec fn deep_view(&self) -> BindingModel {
        BindingModel {
            command: self.command,
            text: self.text@,
            context: self.context.deep_view(),
        }
    }
}

/// A key that makes sense, bound.
pub open spec fn binding_of(key: TypedKeyModel) -> BindingModel {
    BindingModel {
        command: key.command,
        text: key.text,
        context: place_context(place_of(key.command, could_be_typed(key.whole))),
    }
}

/// What is said about a key that makes none.
pub open spec fn key_problem(key: TypedKeyModel) -> Seq<char> {
    "`"@ + key.text + "` is not a key ("@ + command_name(key.command) + " in settings.toml): "@ + key.error->0
}

/// The keys that make sense, bound.
pub open spec fn bindings_of(keys: Seq<TypedKeyModel>) -> Seq<BindingModel>
    decreases keys.len(),
{
    if keys.len() == 0 {
        seq![]
    } else {
        let before = bindings_of(keys.drop_last());
        if keys.last().error is None {
            before.push(binding_of(keys.last()))
        } else {
            before
        }
    }
}

/// What is said about those that make none.
pub open spec fn key_problems(keys: Seq<TypedKeyModel>) -> Seq<Seq<char>>
    decreases keys.len(),
{
    if keys.len() == 0 {
        seq![]
    } else {
        let before = key_problems(keys.drop_last());
        if keys.last().error is Some {
            before.push(key_problem(keys.last()))
        } else {
            before
        }
    }
}

/// Binds the keys that make sense, and says what is wrong with the others: a
/// mistake in one key leaves the rest of the keymap working.
pub fn plan_bindings(keys: &Vec<TypedKey>) -> (plan: (Vec<Binding>, Vec<String>))
    ensures
        plan.0.deep_view() == bindings_of(keys.deep_view()),
        plan.1.deep_view() == key_problems(keys.deep_view()),
{
    let ghost all = keys.deep_view();
    let mut bindings: Vec<Binding> = Vec::new();
    let mut problems: Vec<String> = Vec::new();
    let mut at: usize = 0;
    assert(bindings.deep_view() =~= bindings_of(all.take(0)));
    assert(problems.deep_view() =~= key_problems(all.take(0)));
    while at < keys.len()
        invariant
            at <= keys.len(),
            all == keys.deep_view(),
            bindings.deep_view() == bindings_of(all.take(at as int)),
            problems.deep_view() == key_problems(all.take(at as int)),
        decreases keys.len() - at,
    {
        let ghost (bound, said) = (bindings.deep_view(), problems.deep_view());
        assert(all.take(at + 1).drop_last() =~= all.take(at as int));
        assert(all.take(at + 1).last() == all[at as int]);
        let key: &TypedKey = &keys[at];
        assert(all[at as int] == key.deep_view());
        match &key.error {
            Some(error) => {
                let named: String = joined(joined("`".to_owned(), key.text.as_str()), "` is not a key (");
                let placed: String = joined(joined(named, key.command.name()), " in settings.toml): ");
                problems.push(joined(placed, error.as_str()));
                assert(problems.deep_view() =~= said.push(key_problem(all[at as int])));
            },
            None => {
                bindings.push(
                    Binding {
                        command: key.command,
                        text: key.text.clone(),
                        context: context_of(key.command, key.whole.as_ref()),
                    },
                );
                assert(bindings.deep_view() =~= bound.push(binding_of(all[at as int])));
            },
        }
        at += 1;
    }
    assert(all.take(at as int) =~= all);
    (bindings, problems)
}

/// Every key is bound or complained about, never both and never neither.
pub proof fn every_key_is_accounted_for(keys: Seq<TypedKeyModel>)
    ensures
        bindings_of(keys).len() + key_problems(keys).len() == keys.len(),
    decreases keys.len(),
{
    if keys.len() > 0 {
        every_key_is_accounted_for(keys.drop_last());
    }
}

/// A command's keys work where the command does: those of the palette while it
/// is open, those of the table where the table is, and the others anywhere; and
/// no key that could be typed works in a text field but those of the palette.
pub proof fn keys_work_where_their_command_does(command: Command)
    ensures
        ({
            let (typed, held) = (place_context(place_of(command, true)), place_context(place_of(command, false)));
            let palette = command == Command::Next || command == Command::Previous || command == Command::Confirm;
            let table = command == Command::RowDown || command == Command::RowUp || command == Command::RowTop || command
                == Command::RowBottom || command == Command::OpenRow;
            let half = command == Command::HalfPageDown || command == Command::HalfPageUp;
            &&& palette ==> typed == Some("Palette"@) && held == Some("Palette"@)
            &&& table ==> typed == Some("Periscope && !Input && !NumberInput && !SearchPanel"@) && held == Some(
                "Periscope"@,
            )
            &&& half ==> typed == held && held == Some("Periscope && !Input && !NumberInput && !SearchPanel"@)
            &&& !palette && !table && !half ==> typed == Some("!Input && !NumberInput && !SearchPanel"@) && held is None
        }),
{
}

/// A keystroke could be typed if it is one character and nothing but shift is
/// held with it.
pub proof fn what_could_be_typed(keystroke: KeystrokeModel)
    ensures
        keystroke.control || keystroke.alt || keystroke.platform || keystroke.function ==> !typable(keystroke),
        keystroke.key.len() != 1 ==> !typable(keystroke),
        keystroke.key.len() == 1 && !keystroke.control && !keystroke.alt && !keystroke.platform && !keystroke.function
            ==> typable(keystroke),
{
}

/// A key that makes sense is bound to its own command, as it is written; one
/// that makes none is complained about by name, with the reason.
pub proof fn a_key_is_bound_to_its_command(keys: Seq<TypedKeyModel>, at: int)
    requires
        0 <= at < keys.len(),
    ensures
        keys[at].error is None ==> exists|i: int|
            0 <= i < bindings_of(keys).len() && (#[trigger] bindings_of(keys)[i]).command == keys[at].command
                && bindings_of(keys)[i].text == keys[at].text,
        keys[at].error matches Some(error) ==> exists|i: int|
            0 <= i < key_problems(keys).len() && crate::text::holds(#[trigger] key_problems(keys)[i], keys[at].text)
                && crate::text::holds(key_problems(keys)[i], error),
    decreases keys.len(),
{
    let (rest, last) = (keys.drop_last(), keys.last());
    let (bound, said) = (bindings_of(rest), key_problems(rest));
    if at < rest.len() {
        a_key_is_bound_to_its_command(rest, at);
        assert(rest[at] == keys[at]);
        if keys[at].error is None {
            let i = choose|i: int|
                0 <= i < bound.len() && (#[trigger] bound[i]).command == keys[at].command && bound[i].text
                    == keys[at].text;
            assert(bindings_of(keys)[i] == bound[i]);
        } else {
            let i = choose|i: int|
                0 <= i < said.len() && crate::text::holds(#[trigger] said[i], keys[at].text) && crate::text::holds(
                    said[i],
                    keys[at].error->0,
                );
            assert(key_problems(keys)[i] == said[i]);
        }
    } else {
        if last.error is None {
            assert(bindings_of(keys)[bound.len() as int] == binding_of(last));
        } else {
            let problem = key_problem(last);
            let (tick, middle) = ("`"@, "` is not a key ("@ + command_name(last.command) + " in settings.toml): "@);
            let none = Seq::<char>::empty();
            assert(problem =~= tick + last.text + (middle + last.error->0));
            crate::text::a_text_holds_its_parts(tick, last.text, middle + last.error->0);
            assert(problem =~= (tick + last.text + middle) + last.error->0 + none);
            crate::text::a_text_holds_its_parts(tick + last.text + middle, last.error->0, none);
            assert(key_problems(keys)[said.len() as int] == problem);
        }
    }
}

/// What is typed for a key is refused where it is empty, and otherwise for the
/// first of its words that is no key; it is accepted where every word is one.
pub proof fn a_key_is_refused_for_its_first_fault(text: Seq<char>, words: Seq<Option<Seq<char>>>, at: int)
    requires
        0 <= at <= words.len(),
        forall|i: int| 0 <= i < at ==> (#[trigger] words[i]) is None,
        at < words.len() ==> words[at] is Some,
    ensures
        trimmed(text).len() == 0 ==> key_error(text, words) == Some("it is empty"@),
        trimmed(text).len() > 0 && at < words.len() ==> key_error(text, words) == words[at],
        trimmed(text).len() > 0 && at == words.len() ==> key_error(text, words) is None,
{
    no_fault_among(words.take(at));
    if at < words.len() {
        assert(words.take(at + 1).drop_last() =~= words.take(at));
        first_error_stays(words, at + 1);
    } else {
        assert(words.take(at) =~= words);
    }
}

proof fn no_fault_among(words: Seq<Option<Seq<char>>>)
    requires
        forall|i: int| 0 <= i < words.len() ==> (#[trigger] words[i]) is None,
    ensures
        first_error(words) is None,
    decreases words.len(),
{
    if words.len() > 0 {
        assert(words[words.len() - 1] is None);
        no_fault_among(words.drop_last());
    }
}

} // verus!
