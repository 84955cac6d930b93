//! What a cluster holds: kinds, objects, and the rows they are shown as.

use crate::clock::SystemTime;
use crate::keyed::Key;
use crate::text::{ascii_lower, chars_of, is_text_before, joined, text_before, to_ascii_lower};
use crate::value::Value;
use vstd::prelude::*;

verus! {

/// A cluster, by the name of the context that reaches it.
#[derive(Clone, Debug, PartialEq, Eq, PartialOrd, Ord)]
pub struct ClusterId {
    /// The context's name.
    pub name: String,
}

impl DeepView for ClusterId {
    type V = Seq<char>;

    open spec fn deep_view(&self) -> Seq<char> {
        self.name@
    }
}

impl Value for ClusterId {
    fn dup(&self) -> (copy: Self) {
        ClusterId { name: self.name.clone() }
    }

    fn same(&self, other: &Self) -> (equal: bool) {
        self.name == other.name
    }
}

impl Key for ClusterId {
    open spec fn below(a: Seq<char>, b: Seq<char>) -> bool {
        text_before(a, b)
    }

    proof fn ordered(a: Seq<char>, b: Seq<char>, c: Seq<char>) {
        crate::text::text_order(a, b, c);
    }

    fn is_below(&self, other: &Self) -> (below: bool) {
        is_text_before(self.name.as_str(), other.name.as_str())
    }
}

impl ClusterId {
    /// The cluster of a context.
    pub fn new(name: &str) -> (id: Self)
        ensures
            id.deep_view() == name@,
    {
        ClusterId { name: name.to_owned() }
    }

    /// The context's name.
    pub fn as_str(&self) -> (name: &str)
        ensures
            name@ == self.deep_view(),
    {
        self.name.as_str()
    }
}

/// A kind of object, as an apiserver names it.
#[derive(Clone, Debug, PartialEq, Eq)]
pub struct KindId {
    /// The API group; empty for the core group.
    pub group: String,
    /// The version within the group.
    pub version: String,
    /// The singular name, such as `Deployment`.
    pub kind: String,
    /// The name in API paths, such as `deployments`.
    pub plural: String,
}

/// What a [`KindId`] holds.
pub struct KindModel {
    /// The API group; empty for the core group.
    pub group: Seq<char>,
    /// The version within the group.
    pub version: Seq<char>,
    /// The singular name, such as `Deployment`.
    pub kind: Seq<char>,
    /// The name in API paths, such as `deployments`.
    pub plural: Seq<char>,
}

impl DeepView for KindId {
    type V = KindModel;

    open spec fn deep_view(&self) -> KindModel {
        KindModel {
            group: self.group.deep_view(),
            version: self.version.deep_view(),
            kind: self.kind.deep_view(),
            plural: self.plural.deep_view(),
        }
    }
}

impl Value for KindId {
    fn dup(&self) -> (copy: Self) {
        KindId {
            group: self.group.dup(),
            version: self.version.dup(),
            kind: self.kind.dup(),
            plural: self.plural.dup(),
        }
    }

    fn same(&self, other: &Self) -> (equal: bool) {
        self.group.same(&other.group)
            && self.version.same(&other.version)
            && self.kind.same(&other.kind)
            && self.plural.same(&other.plural)
    }
}

/// A kind's fields in the order kinds are compared by.
pub open spec fn kind_parts(kind: KindModel) -> (Seq<char>, (Seq<char>, (Seq<char>, Seq<char>))) {
    (kind.group, (kind.version, (kind.kind, kind.plural)))
}

impl Key for KindId {
    open spec fn below(a: KindModel, b: KindModel) -> bool {
        <(String, (String, (String, String))) as Key>::below(kind_parts(a), kind_parts(b))
    }

    proof fn ordered(a: KindModel, b: KindModel, c: KindModel) {
        <(String, (String, (String, String))) as Key>::ordered(kind_parts(a), kind_parts(b), kind_parts(c));
    }

    fn is_below(&self, other: &Self) -> (below: bool) {
        self.group.is_below(&other.group) || (self.group.same(&other.group) && (self.version.is_below(
            &other.version,
        ) || (self.version.same(&other.version) && (self.kind.is_below(&other.kind) || (self.kind.same(
            &other.kind,
        ) && self.plural.is_below(&other.plural))))))
    }
}

/// A kind's name where its group matters: `pods`, `deployments.apps`.
pub open spec fn kind_label(kind: KindModel) -> Seq<char> {
    if kind.group.len() == 0 {
        kind.plural
    } else {
        kind.plural + "."@ + kind.group
    }
}

/// Whether a character is an ASCII capital.
pub open spec fn capital(c: char) -> bool {
    'A' <= c <= 'Z'
}

/// An ASCII letter's capital, and every other character itself.
pub open spec fn capitalised(c: char) -> char {
    if 'a' <= c <= 'z' {
        ((c as u8) - 32u8) as char
    } else {
        c
    }
}

/// How many characters two texts begin alike with, ASCII case ignored.
pub open spec fn shared_start(a: Seq<char>, b: Seq<char>) -> int
    decreases a.len(),
{
    if a.len() > 0 && b.len() > 0 && ascii_lower(a[0]) == ascii_lower(b[0]) {
        1 + shared_start(a.drop_first(), b.drop_first())
    } else {
        0
    }
}

/// Whether a new word starts at a position of a name written in camel case: at
/// a capital, unless it stands inside a run of them.
pub open spec fn word_starts(kind: Seq<char>, at: int) -> bool {
    &&& 0 < at < kind.len()
    &&& capital(kind[at])
    &&& !capital(kind[at - 1]) || (at + 1 < kind.len() && !capital(kind[at + 1]))
}

/// The first `upto` characters of a plural, spelled and spaced as the kind is
/// for as far as the two agree, and starting with a capital.
pub open spec fn spaced_plural(kind: Seq<char>, plural: Seq<char>, upto: int) -> Seq<char>
    decreases upto,
{
    if upto <= 0 {
        seq![]
    } else {
        let at = upto - 1;
        let shared = shared_start(kind, plural);
        let spelled = if at < shared {
            kind[at]
        } else {
            plural[at]
        };
        let letter = if at == 0 {
            capitalised(spelled)
        } else {
            spelled
        };
        let before = spaced_plural(kind, plural, at);
        if at < shared && word_starts(kind, at) {
            before.push(' ').push(letter)
        } else {
            before.push(letter)
        }
    }
}

/// A kind's plural as words, such as `Network Policies`.
pub open spec fn kind_title(kind: KindModel) -> Seq<char> {
    spaced_plural(kind.kind, kind.plural, kind.plural.len() as int)
}

proof fn shared_start_at(a: Seq<char>, b: Seq<char>, at: int)
    requires
        0 <= at <= a.len(),
        at <= b.len(),
        forall|i: int| 0 <= i < at ==> ascii_lower(#[trigger] a[i]) == ascii_lower(b[i]),
        at < a.len() && at < b.len() ==> ascii_lower(a[at]) != ascii_lower(b[at]),
    ensures
        shared_start(a, b) == at,
    decreases at,
{
    if at > 0 {
        let (x, y) = (a.drop_first(), b.drop_first());
        assert(ascii_lower(a[0]) == ascii_lower(b[0]));
        assert forall|i: int| 0 <= i < at - 1 implies ascii_lower(#[trigger] x[i]) == ascii_lower(y[i]) by {
            assert(ascii_lower(a[i + 1]) == ascii_lower(b[i + 1]));
        }
        shared_start_at(x, y, at - 1);
    }
}

impl KindId {
    /// A kind from its parts.
    pub fn new(group: &str, version: &str, kind: &str, plural: &str) -> (id: Self)
        ensures
            id.deep_view() == (KindModel { group: group@, version: version@, kind: kind@, plural: plural@ }),
    {
        KindId {
            group: group.to_owned(),
            version: version.to_owned(),
            kind: kind.to_owned(),
            plural: plural.to_owned(),
        }
    }

    /// Whether this kind is in the core group.
    pub fn is_core(&self) -> (core: bool)
        ensures
            core == (self.deep_view().group.len() == 0),
    {
        self.group.as_str().is_empty()
    }

    /// The kind's name where its group matters: `pods`, `deployments.apps`.
    pub fn label(&self) -> (label: String)
        ensures
            label@ == kind_label(self.deep_view()),
    {
        if self.is_core() {
            self.plural.clone()
        } else {
            joined(joined(self.plural.clone(), "."), self.group.as_str())
        }
    }

    /// The plural as words, such as `Network Policies`.
    pub fn title(&self) -> (title: String)
        ensures
            title@ == kind_title(self.deep_view()),
    {
        let kind: Vec<char> = chars_of(self.kind.as_str());
        let plural: Vec<char> = chars_of(self.plural.as_str());
        let mut shared: usize = 0;
        while shared < kind.len() && shared < plural.len() && to_ascii_lower(kind[shared]) == to_ascii_lower(
            plural[shared],
        )
            invariant
                shared <= kind.len(),
                shared <= plural.len(),
                forall|i: int| 0 <= i < shared ==> ascii_lower(#[trigger] kind@[i]) == ascii_lower(plural@[i]),
            decreases kind.len() - shared,
        {
            shared += 1;
        }
        proof {
            shared_start_at(kind@, plural@, shared as int);
        }

        let mut title: String = String::new();
        let mut at: usize = 0;
        while at < plural.len()
            invariant
                at <= plural.len(),
                shared <= kind.len(),
                shared <= plural.len(),
                shared == shared_start(kind@, plural@),
                title@ == spaced_plural(kind@, plural@, at as int),
            decreases plural.len() - at,
        {
            let spelled: char = if at < shared {
                kind[at]
            } else {
                plural[at]
            };
            let letter: char = if at == 0 && 'a' <= spelled && spelled <= 'z' {
                (spelled as u8 - 32) as char
            } else {
                spelled
            };
            if at < shared && at > 0 && is_capital(kind[at]) && (!is_capital(kind[at - 1]) || (at + 1
                < kind.len() && !is_capital(kind[at + 1]))) {
                title.push(' ');
            }
            title.push(letter);
            at += 1;
        }
        title
    }
}

fn is_capital(c: char) -> (found: bool)
    ensures
        found == capital(c),
{
    'A' <= c && c <= 'Z'
}

/// What discovery says about a kind.
#[derive(Clone, Debug, PartialEq, Eq)]
pub struct KindInfo {
    /// Which kind.
    pub id: KindId,
    /// Whether its objects live in namespaces.
    pub namespaced: bool,
    /// Whether it can be listed and watched.
    pub watchable: bool,
    /// Whether a custom resource definition declares it.
    pub custom: bool,
}

/// What a [`KindInfo`] holds.
pub struct KindInfoModel {
    /// Which kind.
    pub id: KindModel,
    /// Whether its objects live in namespaces.
    pub namespaced: bool,
    /// Whether it can be listed and watched.
    pub watchable: bool,
    /// Whether a custom resource definition declares it.
    pub custom: bool,
}

impl DeepView for KindInfo {
    type V = KindInfoModel;

    open spec fn deep_view(&self) -> KindInfoModel {
        KindInfoModel {
            id: self.id.deep_view(),
            namespaced: self.namespaced.deep_view(),
            watchable: self.watchable.deep_view(),
            custom: self.custom.deep_view(),
        }
    }
}

impl Value for KindInfo {
    fn dup(&self) -> (copy: Self) {
        KindInfo {
            id: self.id.dup(),
            namespaced: self.namespaced.dup(),
            watchable: self.watchable.dup(),
            custom: self.custom.dup(),
        }
    }

    fn same(&self, other: &Self) -> (equal: bool) {
        self.id.same(&other.id)
            && self.namespaced.same(&other.namespaced)
            && self.watchable.same(&other.watchable)
            && self.custom.same(&other.custom)
    }
}

impl KindInfo {
    /// What a list of kinds is ordered by: the label.
    pub fn sort_key(&self) -> (key: String)
        ensures
            key@ == kind_label(self.deep_view().id),
    {
        self.id.label()
    }
}

/// Which object of a kind: its namespace and its name.
#[derive(Clone, Debug, PartialEq, Eq, PartialOrd, Ord)]
pub struct ResourceKey {
    /// The namespace; empty for an object outside of any.
    pub namespace: String,
    /// The name.
    pub name: String,
}

/// What a [`ResourceKey`] holds.
pub struct KeyModel {
    /// The namespace; empty for an object outside of any.
    pub namespace: Seq<char>,
    /// The name.
    pub name: Seq<char>,
}

impl DeepView for ResourceKey {
    type V = KeyModel;

    open spec fn deep_view(&self) -> KeyModel {
        KeyModel {
            namespace: self.namespace.deep_view(),
            name: self.name.deep_view(),
        }
    }
}

impl Value for ResourceKey {
    fn dup(&self) -> (copy: Self) {
        ResourceKey {
            namespace: self.namespace.dup(),
            name: self.name.dup(),
        }
    }

    fn same(&self, other: &Self) -> (equal: bool) {
        self.namespace.same(&other.namespace)
            && self.name.same(&other.name)
    }
}

impl Key for ResourceKey {
    open spec fn below(a: KeyModel, b: KeyModel) -> bool {
        <(String, String) as Key>::below((a.namespace, a.name), (b.namespace, b.name))
    }

    proof fn ordered(a: KeyModel, b: KeyModel, c: KeyModel) {
        <(String, String) as Key>::ordered(
            (a.namespace, a.name),
            (b.namespace, b.name),
            (c.namespace, c.name),
        );
    }

    fn is_below(&self, other: &Self) -> (below: bool) {
        self.namespace.is_below(&other.namespace) || (self.namespace.same(&other.namespace) && self.name.is_below(
            &other.name,
        ))
    }
}

/// An object's name as it is written: `namespace/name`, or the name alone.
pub open spec fn key_text(key: KeyModel) -> Seq<char> {
    if key.namespace.len() == 0 {
        key.name
    } else {
        key.namespace + "/"@ + key.name
    }
}

impl ResourceKey {
    /// The key of an object.
    pub fn new(namespace: &str, name: &str) -> (key: Self)
        ensures
            key.deep_view() == (KeyModel { namespace: namespace@, name: name@ }),
    {
        ResourceKey { namespace: namespace.to_owned(), name: name.to_owned() }
    }

    /// Whether the object lives in a namespace.
    pub fn is_namespaced(&self) -> (namespaced: bool)
        ensures
            namespaced == (self.deep_view().namespace.len() > 0),
    {
        !self.namespace.as_str().is_empty()
    }

    /// The key as it is written: `namespace/name`, or the name alone.
    pub fn to_text(&self) -> (text: String)
        ensures
            text@ == key_text(self.deep_view()),
    {
        if self.is_namespaced() {
            joined(joined(self.namespace.clone(), "/"), self.name.as_str())
        } else {
            self.name.clone()
        }
    }
}

/// How a row is doing, for the colour it is shown in.
#[derive(Clone, Copy, Debug, PartialEq, Eq, Structural)]
pub enum RowState {
    /// Doing what it is meant to.
    Healthy,
    /// On its way somewhere.
    Transient,
    /// In trouble.
    Failing,
    /// Neither.
    Neutral,
}

impl DeepView for RowState {
    type V = RowState;

    open spec fn deep_view(&self) -> RowState {
        *self
    }
}

impl Value for RowState {
    fn dup(&self) -> (copy: Self) {
        *self
    }

    fn same(&self, other: &Self) -> (equal: bool) {
        *self == *other
    }
}

/// One cell of a row: what it says, and the number it says if it says one.
#[derive(Clone, Debug, PartialEq, Eq)]
pub struct Cell {
    /// The text.
    pub text: String,
    /// The rank of the text's value among numbers, if it is a number: of two cells
    /// the smaller number has the smaller rank.
    pub number: Option<i64>,
}

/// What a [`Cell`] holds.
pub struct CellModel {
    /// The text.
    pub text: Seq<char>,
    /// The rank of the text's value among numbers, if it is a number: of two cells
    /// the smaller number has the smaller rank.
    pub number: Option<i64>,
}

impl DeepView for Cell {
    type V = CellModel;

    open spec fn deep_view(&self) -> CellModel {
        CellModel {
            text: self.text.deep_view(),
            number: self.number.deep_view(),
        }
    }
}

impl Value for Cell {
    fn dup(&self) -> (copy: Self) {
        Cell {
            text: self.text.dup(),
            number: self.number.dup(),
        }
    }

    fn same(&self, other: &Self) -> (equal: bool) {
        self.text.same(&other.text)
            && self.number.same(&other.number)
    }
}

/// One object, as a table shows it.
#[derive(Clone, Debug, PartialEq, Eq)]
pub struct ResourceRow {
    /// Which object.
    pub key: ResourceKey,
    /// The identity the apiserver gave it.
    pub uid: Option<String>,
    /// The kind's own columns.
    pub cells: Vec<Cell>,
    /// How it is doing.
    pub state: RowState,
    /// When it was created, if that is known.
    pub created: Option<SystemTime>,
}

/// What a [`ResourceRow`] holds.
pub struct RowModel {
    /// Which object.
    pub key: KeyModel,
    /// The identity the apiserver gave it.
    pub uid: Option<Seq<char>>,
    /// The kind's own columns.
    pub cells: Seq<CellModel>,
    /// How it is doing.
    pub state: RowState,
    /// When it was created, if that is known.
    pub created: Option<SystemTime>,
}

impl DeepView for ResourceRow {
    type V = RowModel;

    open spec fn deep_view(&self) -> RowModel {
        RowModel {
            key: self.key.deep_view(),
            uid: self.uid.deep_view(),
            cells: self.cells.deep_view(),
            state: self.state.deep_view(),
            created: self.created.deep_view(),
        }
    }
}

impl Value for ResourceRow {
    fn dup(&self) -> (copy: Self) {
        ResourceRow {
            key: self.key.dup(),
            uid: self.uid.dup(),
            cells: self.cells.dup(),
            state: self.state.dup(),
            created: self.created.dup(),
        }
    }

    fn same(&self, other: &Self) -> (equal: bool) {
        self.key.same(&other.key)
            && self.uid.same(&other.uid)
            && self.cells.same(&other.cells)
            && self.state.same(&other.state)
            && self.created.same(&other.created)
    }
}

/// The cell of a column; an empty one where the row has none.
pub open spec fn cell_at(row: RowModel, column: int) -> CellModel {
    if 0 <= column < row.cells.len() {
        row.cells[column]
    } else {
        CellModel { text: seq![], number: None }
    }
}

impl ResourceRow {
    /// The text of a column; empty where the row has none.
    pub fn cell(&self, column: usize) -> (text: &str)
        ensures
            text@ == cell_at(self.deep_view(), column as int).text,
    {
        if column < self.cells.len() {
            self.cells[column].text.as_str()
        } else {
            proof {
                reveal_strlit("");
                assert(""@ =~= seq![]);
            }
            ""
        }
    }
}

/// One column of a kind.
#[derive(Clone, Debug, PartialEq, Eq)]
pub struct ColumnSpec {
    /// The heading.
    pub name: String,
    /// Its width in pixels; what is left, if it has none.
    pub width: Option<u32>,
}

/// What a [`ColumnSpec`] holds.
pub struct ColumnModel {
    /// The heading.
    pub name: Seq<char>,
    /// Its width in pixels; what is left, if it has none.
    pub width: Option<u32>,
}

impl DeepView for ColumnSpec {
    type V = ColumnModel;

    open spec fn deep_view(&self) -> ColumnModel {
        ColumnModel {
            name: self.name.deep_view(),
            width: self.width.deep_view(),
        }
    }
}

impl Value for ColumnSpec {
    fn dup(&self) -> (copy: Self) {
        ColumnSpec {
            name: self.name.dup(),
            width: self.width.dup(),
        }
    }

    fn same(&self, other: &Self) -> (equal: bool) {
        self.name.same(&other.name)
            && self.width.same(&other.width)
    }
}

impl ColumnSpec {
    /// A column of a fixed width.
    pub fn fixed(name: &str, width: u32) -> (column: Self)
        ensures
            column.deep_view() == (ColumnModel { name: name@, width: Some(width) }),
    {
        ColumnSpec { name: name.to_owned(), width: Some(width) }
    }

    /// A column that takes what is left.
    pub fn flexible(name: &str) -> (column: Self)
        ensures
            column.deep_view() == (ColumnModel { name: name@, width: None }),
    {
        ColumnSpec { name: name.to_owned(), width: None }
    }
}

/// One context of the kubeconfig.
#[derive(Clone, Debug, PartialEq, Eq)]
pub struct ContextInfo {
    /// Its name.
    pub name: String,
    /// The cluster entry it uses.
    pub cluster: String,
    /// The user entry it uses.
    pub user: Option<String>,
    /// The namespace it starts in.
    pub namespace: Option<String>,
}

/// What a [`ContextInfo`] holds.
pub struct ContextModel {
    /// Its name.
    pub name: Seq<char>,
    /// The cluster entry it uses.
    pub cluster: Seq<char>,
    /// The user entry it uses.
    pub user: Option<Seq<char>>,
    /// The namespace it starts in.
    pub namespace: Option<Seq<char>>,
}

impl DeepView for ContextInfo {
    type V = ContextModel;

    open spec fn deep_view(&self) -> ContextModel {
        ContextModel {
            name: self.name.deep_view(),
            cluster: self.cluster.deep_view(),
            user: self.user.deep_view(),
            namespace: self.namespace.deep_view(),
        }
    }
}

impl Value for ContextInfo {
    fn dup(&self) -> (copy: Self) {
        ContextInfo {
            name: self.name.dup(),
            cluster: self.cluster.dup(),
            user: self.user.dup(),
            namespace: self.namespace.dup(),
        }
    }

    fn same(&self, other: &Self) -> (equal: bool) {
        self.name.same(&other.name)
            && self.cluster.same(&other.cluster)
            && self.user.same(&other.user)
            && self.namespace.same(&other.namespace)
    }
}

/// Something that happened to an object.
#[derive(Clone, Debug, PartialEq, Eq)]
pub struct EventLine {
    /// Whether it is a warning.
    pub warning: bool,
    /// The short reason.
    pub reason: String,
    /// What happened.
    pub message: String,
    /// How often.
    pub count: u32,
}

/// What a [`EventLine`] holds.
pub struct EventLineModel {
    /// Whether it is a warning.
    pub warning: bool,
    /// The short reason.
    pub reason: Seq<char>,
    /// What happened.
    pub message: Seq<char>,
    /// How often.
    pub count: u32,
}

impl DeepView for EventLine {
    type V = EventLineModel;

    open spec fn deep_view(&self) -> EventLineModel {
        EventLineModel {
            warning: self.warning.deep_view(),
            reason: self.reason.deep_view(),
            message: self.message.deep_view(),
            count: self.count.deep_view(),
        }
    }
}

impl Value for EventLine {
    fn dup(&self) -> (copy: Self) {
        EventLine {
            warning: self.warning.dup(),
            reason: self.reason.dup(),
            message: self.message.dup(),
            count: self.count.dup(),
        }
    }

    fn same(&self, other: &Self) -> (equal: bool) {
        self.warning.same(&other.warning)
            && self.reason.same(&other.reason)
            && self.message.same(&other.message)
            && self.count.same(&other.count)
    }
}

impl EventLine {
    /// Whether the event is a warning.
    pub fn is_warning(&self) -> (warning: bool)
        ensures
            warning == self.deep_view().warning,
    {
        self.warning
    }
}

/// What owns an object.
#[derive(Clone, Debug, PartialEq, Eq)]
pub struct OwnerRef {
    /// Its group and version, as `group/version` or `version`.
    pub api_version: String,
    /// Its kind.
    pub kind: String,
    /// Its name.
    pub name: String,
    /// Whether it controls the object.
    pub controller: bool,
}

/// What a [`OwnerRef`] holds.
pub struct OwnerModel {
    /// Its group and version, as `group/version` or `version`.
    pub api_version: Seq<char>,
    /// Its kind.
    pub kind: Seq<char>,
    /// Its name.
    pub name: Seq<char>,
    /// Whether it controls the object.
    pub controller: bool,
}

impl DeepView for OwnerRef {
    type V = OwnerModel;

    open spec fn deep_view(&self) -> OwnerModel {
        OwnerModel {
            api_version: self.api_version.deep_view(),
            kind: self.kind.deep_view(),
            name: self.name.deep_view(),
            controller: self.controller.deep_view(),
        }
    }
}

impl Value for OwnerRef {
    fn dup(&self) -> (copy: Self) {
        OwnerRef {
            api_version: self.api_version.dup(),
            kind: self.kind.dup(),
            name: self.name.dup(),
            controller: self.controller.dup(),
        }
    }

    fn same(&self, other: &Self) -> (equal: bool) {
        self.api_version.same(&other.api_version)
            && self.kind.same(&other.kind)
            && self.name.same(&other.name)
            && self.controller.same(&other.controller)
    }
}

/// One object in full.
#[derive(Clone, Debug, PartialEq, Eq)]
pub struct ObjectDetail {
    /// Which object.
    pub key: ResourceKey,
    /// The object as YAML.
    pub yaml: String,
    /// Whether it holds values that are hidden until asked for.
    pub maskable: bool,
    /// Whether those values are shown.
    pub revealed: bool,
    /// What happened to it, oldest first.
    pub events: Vec<EventLine>,
    /// What owns it.
    pub owners: Vec<OwnerRef>,
}

/// What a [`ObjectDetail`] holds.
pub struct ObjectModel {
    /// Which object.
    pub key: KeyModel,
    /// The object as YAML.
    pub yaml: Seq<char>,
    /// Whether it holds values that are hidden until asked for.
    pub maskable: bool,
    /// Whether those values are shown.
    pub revealed: bool,
    /// What happened to it, oldest first.
    pub events: Seq<EventLineModel>,
    /// What owns it.
    pub owners: Seq<OwnerModel>,
}

impl DeepView for ObjectDetail {
    type V = ObjectModel;

    open spec fn deep_view(&self) -> ObjectModel {
        ObjectModel {
            key: self.key.deep_view(),
            yaml: self.yaml.deep_view(),
            maskable: self.maskable.deep_view(),
            revealed: self.revealed.deep_view(),
            events: self.events.deep_view(),
            owners: self.owners.deep_view(),
        }
    }
}

impl Value for ObjectDetail {
    fn dup(&self) -> (copy: Self) {
        ObjectDetail {
            key: self.key.dup(),
            yaml: self.yaml.dup(),
            maskable: self.maskable.dup(),
            revealed: self.revealed.dup(),
            events: self.events.dup(),
            owners: self.owners.dup(),
        }
    }

    fn same(&self, other: &Self) -> (equal: bool) {
        self.key.same(&other.key)
            && self.yaml.same(&other.yaml)
            && self.maskable.same(&other.maskable)
            && self.revealed.same(&other.revealed)
            && self.events.same(&other.events)
            && self.owners.same(&other.owners)
    }
}

/// One container of a pod.
#[derive(Clone, Debug, PartialEq, Eq)]
pub struct PodContainer {
    /// Its name.
    pub name: String,
    /// Whether it only runs while the pod starts.
    pub init: bool,
}

/// What a [`PodContainer`] holds.
pub struct ContainerModel {
    /// Its name.
    pub name: Seq<char>,
    /// Whether it only runs while the pod starts.
    pub init: bool,
}

impl DeepView for PodContainer {
    type V = ContainerModel;

    open spec fn deep_view(&self) -> ContainerModel {
        ContainerModel {
            name: self.name.deep_view(),
            init: self.init.deep_view(),
        }
    }
}

impl Value for PodContainer {
    fn dup(&self) -> (copy: Self) {
        PodContainer {
            name: self.name.dup(),
            init: self.init.dup(),
        }
    }

    fn same(&self, other: &Self) -> (equal: bool) {
        self.name.same(&other.name)
            && self.init.same(&other.init)
    }
}

/// One pod, as a listing shows it.
#[derive(Clone, Debug, PartialEq, Eq)]
pub struct PodSnapshot {
    /// Which pod.
    pub key: ResourceKey,
    /// The identity the apiserver gave it.
    pub uid: Option<String>,
    /// What it says it is doing.
    pub status: String,
    /// How many of its containers are ready.
    pub ready: u32,
    /// How many containers it has.
    pub containers: u32,
    /// How often they were restarted.
    pub restarts: u32,
    /// The node it runs on.
    pub node: Option<String>,
    /// When it was created.
    pub created: Option<SystemTime>,
}

/// What a [`PodSnapshot`] holds.
pub struct PodModel {
    /// Which pod.
    pub key: KeyModel,
    /// The identity the apiserver gave it.
    pub uid: Option<Seq<char>>,
    /// What it says it is doing.
    pub status: Seq<char>,
    /// How many of its containers are ready.
    pub ready: u32,
    /// How many containers it has.
    pub containers: u32,
    /// How often they were restarted.
    pub restarts: u32,
    /// The node it runs on.
    pub node: Option<Seq<char>>,
    /// When it was created.
    pub created: Option<SystemTime>,
}

impl DeepView for PodSnapshot {
    type V = PodModel;

    open spec fn deep_view(&self) -> PodModel {
        PodModel {
            key: self.key.deep_view(),
            uid: self.uid.deep_view(),
            status: self.status.deep_view(),
            ready: self.ready.deep_view(),
            containers: self.containers.deep_view(),
            restarts: self.restarts.deep_view(),
            node: self.node.deep_view(),
            created: self.created.deep_view(),
        }
    }
}

impl Value for PodSnapshot {
    fn dup(&self) -> (copy: Self) {
        PodSnapshot {
            key: self.key.dup(),
            uid: self.uid.dup(),
            status: self.status.dup(),
            ready: self.ready.dup(),
            containers: self.containers.dup(),
            restarts: self.restarts.dup(),
            node: self.node.dup(),
            created: self.created.dup(),
        }
    }

    fn same(&self, other: &Self) -> (equal: bool) {
        self.key.same(&other.key)
            && self.uid.same(&other.uid)
            && self.status.same(&other.status)
            && self.ready.same(&other.ready)
            && self.containers.same(&other.containers)
            && self.restarts.same(&other.restarts)
            && self.node.same(&other.node)
            && self.created.same(&other.created)
    }
}

/// Whether every container of a pod is ready; a pod without any is not.
pub open spec fn pod_ready(pod: PodModel) -> bool {
    pod.containers > 0 && pod.ready >= pod.containers
}

impl PodSnapshot {
    /// Whether every container is ready.
    pub fn is_ready(&self) -> (ready: bool)
        ensures
            ready == pod_ready(self.deep_view()),
    {
        self.containers > 0 && self.ready >= self.containers
    }
}

/// A kind's title is its plural, letter for letter but for their case and the
/// spaces between words: a space goes before every word that starts inside it.
pub proof fn a_title_spells_the_plural(kind: Seq<char>, plural: Seq<char>, upto: int)
    requires
        0 <= upto <= plural.len(),
        forall|i: int| 0 <= i < plural.len() ==> plural[i] != ' ',
    ensures
        ({
            let title = spaced_plural(kind, plural, upto);
            let letters = title.filter(|c: char| c != ' ');
            &&& letters.len() == upto
            &&& forall|i: int| 0 <= i < upto ==> ascii_lower(#[trigger] letters[i]) == ascii_lower(plural[i])
            &&& upto > 0 ==> !('a' <= title[0] <= 'z')
        }),
    decreases upto,
{
    let keep = |c: char| c != ' ';
    let title = spaced_plural(kind, plural, upto);
    reveal(Seq::filter);
    if upto > 0 {
        let at = upto - 1;
        a_title_spells_the_plural(kind, plural, at);
        let before = spaced_plural(kind, plural, at);
        let shared = shared_start(kind, plural);
        let spelled = if at < shared {
            kind[at]
        } else {
            plural[at]
        };
        let letter = if at == 0 {
            capitalised(spelled)
        } else {
            spelled
        };
        shared_letters(kind, plural, at);
        assert(ascii_lower(letter) == ascii_lower(plural[at])) by {
            if 'a' <= spelled <= 'z' {
                assert(ascii_lower(capitalised(spelled)) == spelled);
            }
        }
        assert(letter != ' ');
        crate::seqs::filter_push(before, ' ', keep);
        crate::seqs::filter_push(before, letter, keep);
        crate::seqs::filter_push(before.push(' '), letter, keep);
        let letters = title.filter(keep);
        assert(letters == before.filter(keep).push(letter));
        if at == 0 {
            assert(title =~= seq![letter]);
        } else {
            assert(title[0] == before[0]) by {
                title_grows(kind, plural, at);
            }
        }
    }
}

proof fn title_grows(kind: Seq<char>, plural: Seq<char>, upto: int)
    requires
        1 <= upto,
    ensures
        spaced_plural(kind, plural, upto).len() > 0,
{
}

proof fn shared_letters(a: Seq<char>, b: Seq<char>, at: int)
    requires
        0 <= at < b.len(),
    ensures
        at < shared_start(a, b) ==> at < a.len() && ascii_lower(a[at]) == ascii_lower(b[at]),
    decreases at,
{
    if at > 0 && a.len() > 0 && b.len() > 0 {
        shared_letters(a.drop_first(), b.drop_first(), at - 1);
    }
}

/// A word starts at a capital behind a small letter, and at the last capital of
/// several where a small letter follows; a title has a space there.
pub proof fn words_start_at_capitals(kind: Seq<char>, plural: Seq<char>, at: int)
    requires
        0 < at < kind.len(),
        at < plural.len(),
    ensures
        'A' <= kind[at] <= 'Z' && !('A' <= kind[at - 1] <= 'Z') ==> word_starts(kind, at),
        'A' <= kind[at] <= 'Z' && 'A' <= kind[at - 1] <= 'Z' && at + 1 < kind.len() ==> word_starts(kind, at) == !('A'
            <= kind[at + 1] <= 'Z'),
        'A' <= kind[at - 1] <= 'Z' && at + 1 == kind.len() ==> !word_starts(kind, at),
        !('A' <= kind[at] <= 'Z') ==> !word_starts(kind, at),
        at < shared_start(kind, plural) && word_starts(kind, at) ==> {
            let title = spaced_plural(kind, plural, at + 1);
            title.last() == kind[at] && title[title.len() - 2] == ' '
        },
{
}

/// A pod is ready once all of its containers are, and it has some.
pub proof fn a_pod_is_ready_with_all_its_containers(pod: PodModel)
    ensures
        pod.containers == 0 ==> !pod_ready(pod),
        pod.containers > 0 && pod.ready < pod.containers ==> !pod_ready(pod),
        pod.containers > 0 && pod.ready == pod.containers ==> pod_ready(pod),
{
}

} // verus!
