//! What a console keeps open against a cluster: connections, log tails,
//! commands and port forwards.

use crate::clock::SystemTime;
use crate::keyed::Key;
use crate::objects::ClusterId;
use crate::text::{chars_of, decimal, joined, signed_decimal, split_words, to_decimal, to_signed_decimal, words};
use crate::value::Value;
use vstd::prelude::*;

verus! {

/// How a connection to a cluster is doing.
#[derive(Clone, Debug, PartialEq, Eq)]
pub enum ConnectionState {
    /// Nothing was tried yet.
    Idle,
    /// An attempt is under way.
    Connecting,
    /// The apiserver answers.
    Connected,
    /// The apiserver answers, but something is wrong.
    Degraded {
        /// What is wrong.
        reason: String,
    },
    /// The apiserver does not accept the credentials.
    AuthFailed {
        /// What it said.
        reason: String,
    },
    /// There is no connection.
    Disconnected {
        /// Why, if it was not asked for.
        reason: Option<String>,
    },
}

/// What a [`ConnectionState`] holds.
pub enum ConnectionStateModel {
    /// Nothing was tried yet.
    Idle,
    /// An attempt is under way.
    Connecting,
    /// The apiserver answers.
    Connected,
    /// The apiserver answers, but something is wrong.
    Degraded {
        /// What is wrong.
        reason: Seq<char>,
    },
    /// The apiserver does not accept the credentials.
    AuthFailed {
        /// What it said.
        reason: Seq<char>,
    },
    /// There is no connection.
    Disconnected {
        /// Why, if it was not asked for.
        reason: Option<Seq<char>>,
    },
}

impl DeepView for ConnectionState {
    type V = ConnectionStateModel;

    open spec fn deep_view(&self) -> ConnectionStateModel {
        match self {
            ConnectionState::Idle => ConnectionStateModel::Idle,
            ConnectionState::Connecting => ConnectionStateModel::Connecting,
            ConnectionState::Connected => ConnectionStateModel::Connected,
            ConnectionState::Degraded { reason } => ConnectionStateModel::Degraded {
                reason: reason.deep_view(),
            },
            ConnectionState::AuthFailed { reason } => ConnectionStateModel::AuthFailed {
                reason: reason.deep_view(),
            },
            ConnectionState::Disconnected { reason } => ConnectionStateModel::Disconnected {
                reason: reason.deep_view(),
            },
        }
    }
}

impl Value for ConnectionState {
    fn dup(&self) -> (copy: Self) {
        match self {
            ConnectionState::Idle => ConnectionState::Idle,
            ConnectionState::Connecting => ConnectionState::Connecting,
            ConnectionState::Connected => ConnectionState::Connected,
            ConnectionState::Degraded { reason } => ConnectionState::Degraded {
                reason: reason.dup(),
            },
            ConnectionState::AuthFailed { reason } => ConnectionState::AuthFailed {
                reason: reason.dup(),
            },
            ConnectionState::Disconnected { reason } => ConnectionState::Disconnected {
                reason: reason.dup(),
            },
        }
    }

    fn same(&self, other: &Self) -> (equal: bool) {
        match (self, other) {
            (ConnectionState::Idle, ConnectionState::Idle) => true,
            (ConnectionState::Connecting, ConnectionState::Connecting) => true,
            (ConnectionState::Connected, ConnectionState::Connected) => true,
            (ConnectionState::Degraded { reason }, ConnectionState::Degraded { reason: reason_too }) => {
                reason.same(reason_too)
            },
            (ConnectionState::AuthFailed { reason }, ConnectionState::AuthFailed { reason: reason_too }) => {
                reason.same(reason_too)
            },
            (ConnectionState::Disconnected { reason }, ConnectionState::Disconnected { reason: reason_too }) => {
                reason.same(reason_too)
            },
            _ => false,
        }
    }
}

/// Whether a connection is in a state somebody should look at.
pub open spec fn connection_problem(state: ConnectionStateModel) -> bool {
    match state {
        ConnectionStateModel::Degraded { .. } => true,
        ConnectionStateModel::AuthFailed { .. } => true,
        ConnectionStateModel::Disconnected { reason } => reason is Some,
        _ => false,
    }
}

/// Whether requests can be sent over a connection.
pub open spec fn connection_usable(state: ConnectionStateModel) -> bool {
    state is Connected || state is Degraded
}

/// The word for a state.
pub open spec fn connection_label(state: ConnectionStateModel) -> Seq<char> {
    match state {
        ConnectionStateModel::Idle => "idle"@,
        ConnectionStateModel::Connecting => "connecting"@,
        ConnectionStateModel::Connected => "connected"@,
        ConnectionStateModel::Degraded { .. } => "degraded"@,
        ConnectionStateModel::AuthFailed { .. } => "not authenticated"@,
        ConnectionStateModel::Disconnected { .. } => "disconnected"@,
    }
}

/// What is known about a problem.
pub open spec fn connection_detail(state: ConnectionStateModel) -> Option<Seq<char>> {
    match state {
        ConnectionStateModel::Degraded { reason } => Some(reason),
        ConnectionStateModel::AuthFailed { reason } => Some(reason),
        ConnectionStateModel::Disconnected { reason } => reason,
        _ => None,
    }
}

impl ConnectionState {
    /// Whether this is a state somebody should look at.
    pub fn is_problem(&self) -> (problem: bool)
        ensures
            problem == connection_problem(self.deep_view()),
    {
        match self {
            ConnectionState::Degraded { .. } => true,
            ConnectionState::AuthFailed { .. } => true,
            ConnectionState::Disconnected { reason } => reason.is_some(),
            _ => false,
        }
    }

    /// Whether requests can be sent: connected, or connected with a complaint.
    pub fn is_usable(&self) -> (usable: bool)
        ensures
            usable == connection_usable(self.deep_view()),
    {
        match self {
            ConnectionState::Connected => true,
            ConnectionState::Degraded { .. } => true,
            _ => false,
        }
    }

    /// The word for this state.
    pub fn label(&self) -> (label: &'static str)
        ensures
            label@ == connection_label(self.deep_view()),
    {
        match self {
            ConnectionState::Idle => "idle",
            ConnectionState::Connecting => "connecting",
            ConnectionState::Connected => "connected",
            ConnectionState::Degraded { .. } => "degraded",
            ConnectionState::AuthFailed { .. } => "not authenticated",
            ConnectionState::Disconnected { .. } => "disconnected",
        }
    }

    /// What is known about a problem, verbatim.
    pub fn detail(&self) -> (detail: Option<&str>)
        ensures
            detail.deep_view() == connection_detail(self.deep_view()),
    {
        match self {
            ConnectionState::Degraded { reason } => Some(reason.as_str()),
            ConnectionState::AuthFailed { reason } => Some(reason.as_str()),
            ConnectionState::Disconnected { reason } => match reason {
                Some(reason) => Some(reason.as_str()),
                None => None,
            },
            _ => None,
        }
    }
}

// --- logs -----------------------------------------------------------------------

/// Which pods a tail covers.
#[derive(Clone, Debug, PartialEq, Eq)]
pub enum LogSelector {
    /// One pod, by name.
    Pod(String),
    /// Every pod a label selector picks.
    Labels(String),
}

/// What a [`LogSelector`] holds.
pub enum LogSelectorModel {
    /// One pod, by name.
    Pod(Seq<char>),
    /// Every pod a label selector picks.
    Labels(Seq<char>),
}

impl DeepView for LogSelector {
    type V = LogSelectorModel;

    open spec fn deep_view(&self) -> LogSelectorModel {
        match self {
            LogSelector::Pod(held) => LogSelectorModel::Pod(held.deep_view()),
            LogSelector::Labels(held) => LogSelectorModel::Labels(held.deep_view()),
        }
    }
}

impl Value for LogSelector {
    fn dup(&self) -> (copy: Self) {
        match self {
            LogSelector::Pod(held) => LogSelector::Pod(held.dup()),
            LogSelector::Labels(held) => LogSelector::Labels(held.dup()),
        }
    }

    fn same(&self, other: &Self) -> (equal: bool) {
        match (self, other) {
            (LogSelector::Pod(held), LogSelector::Pod(held_too)) => held.same(held_too),
            (LogSelector::Labels(held), LogSelector::Labels(held_too)) => held.same(held_too),
            _ => false,
        }
    }
}

/// What a tail was opened on.
#[derive(Clone, Debug, PartialEq, Eq)]
pub struct LogTarget {
    /// The namespace the pods are in.
    pub namespace: String,
    /// Which pods.
    pub selector: LogSelector,
    /// One container, or all of them.
    pub container: Option<String>,
    /// Whether it is the logs of the containers before the last restart.
    pub previous: bool,
}

/// What a [`LogTarget`] holds.
pub struct LogTargetModel {
    /// The namespace the pods are in.
    pub namespace: Seq<char>,
    /// Which pods.
    pub selector: LogSelectorModel,
    /// One container, or all of them.
    pub container: Option<Seq<char>>,
    /// Whether it is the logs of the containers before the last restart.
    pub previous: bool,
}

impl DeepView for LogTarget {
    type V = LogTargetModel;

    open spec fn deep_view(&self) -> LogTargetModel {
        LogTargetModel {
            namespace: self.namespace.deep_view(),
            selector: self.selector.deep_view(),
            container: self.container.deep_view(),
            previous: self.previous.deep_view(),
        }
    }
}

impl Value for LogTarget {
    fn dup(&self) -> (copy: Self) {
        LogTarget {
            namespace: self.namespace.dup(),
            selector: self.selector.dup(),
            container: self.container.dup(),
            previous: self.previous.dup(),
        }
    }

    fn same(&self, other: &Self) -> (equal: bool) {
        self.namespace.same(&other.namespace)
            && self.selector.same(&other.selector)
            && self.container.same(&other.container)
            && self.previous.same(&other.previous)
    }
}

/// How a tail's target is written.
pub open spec fn log_target_label(target: LogTargetModel) -> Seq<char> {
    let pods = target.namespace + "/"@ + (match target.selector {
        LogSelectorModel::Pod(name) => name,
        LogSelectorModel::Labels(labels) => labels,
    });
    let within = match target.container {
        Some(container) => pods + " ["@ + container + "]"@,
        None => pods,
    };
    if target.previous {
        within + " (previous)"@
    } else {
        within
    }
}

impl LogTarget {
    /// A tail of one pod.
    pub fn pod(namespace: &str, pod: &str) -> (target: Self)
        ensures
            target.deep_view() == (LogTargetModel {
                namespace: namespace@,
                selector: LogSelectorModel::Pod(pod@),
                container: None,
                previous: false,
            }),
    {
        LogTarget {
            namespace: namespace.to_owned(),
            selector: LogSelector::Pod(pod.to_owned()),
            container: None,
            previous: false,
        }
    }

    /// A tail of every pod a label selector picks.
    pub fn labels(namespace: &str, labels: &str) -> (target: Self)
        ensures
            target.deep_view() == (LogTargetModel {
                namespace: namespace@,
                selector: LogSelectorModel::Labels(labels@),
                container: None,
                previous: false,
            }),
    {
        LogTarget {
            namespace: namespace.to_owned(),
            selector: LogSelector::Labels(labels.to_owned()),
            container: None,
            previous: false,
        }
    }

    /// The same tail, of one container or of all of them.
    pub fn container(self, container: Option<String>) -> (target: Self)
        ensures
            target.deep_view() == (LogTargetModel { container: container.deep_view(), ..self.deep_view() }),
    {
        LogTarget {
            namespace: self.namespace,
            selector: self.selector,
            container,
            previous: self.previous,
        }
    }

    /// The same tail, of the running containers or of the ones before.
    pub fn previous(self, previous: bool) -> (target: Self)
        ensures
            target.deep_view() == (LogTargetModel { previous, ..self.deep_view() }),
    {
        LogTarget {
            namespace: self.namespace,
            selector: self.selector,
            container: self.container,
            previous,
        }
    }

    /// How the target is written.
    pub fn label(&self) -> (label: String)
        ensures
            label@ == log_target_label(self.deep_view()),
    {
        let name: &str = match &self.selector {
            LogSelector::Pod(name) => name.as_str(),
            LogSelector::Labels(labels) => labels.as_str(),
        };
        let pods: String = joined(joined(self.namespace.clone(), "/"), name);
        let within: String = match &self.container {
            Some(container) => joined(joined(joined(pods, " ["), container.as_str()), "]"),
            None => pods,
        };
        if self.previous {
            joined(within, " (previous)")
        } else {
            within
        }
    }
}

/// Where a line came from: a container of a pod.
#[derive(Clone, Debug, PartialEq, Eq, PartialOrd, Ord)]
pub struct LogSource {
    /// The pod.
    pub pod: String,
    /// The container.
    pub container: String,
}

/// What a [`LogSource`] holds.
pub struct SourceModel {
    /// The pod.
    pub pod: Seq<char>,
    /// The container.
    pub container: Seq<char>,
}

impl DeepView for LogSource {
    type V = SourceModel;

    open spec fn deep_view(&self) -> SourceModel {
        SourceModel {
            pod: self.pod.deep_view(),
            container: self.container.deep_view(),
        }
    }
}

impl Value for LogSource {
    fn dup(&self) -> (copy: Self) {
        LogSource {
            pod: self.pod.dup(),
            container: self.container.dup(),
        }
    }

    fn same(&self, other: &Self) -> (equal: bool) {
        self.pod.same(&other.pod)
            && self.container.same(&other.container)
    }
}

impl Key for LogSource {
    open spec fn below(a: SourceModel, b: SourceModel) -> bool {
        <(String, String) as Key>::below((a.pod, a.container), (b.pod, b.container))
    }

    proof fn ordered(a: SourceModel, b: SourceModel, c: SourceModel) {
        <(String, String) as Key>::ordered((a.pod, a.container), (b.pod, b.container), (c.pod, c.container));
    }

    fn is_below(&self, other: &Self) -> (below: bool) {
        self.pod.is_below(&other.pod) || (self.pod.same(&other.pod) && self.container.is_below(&other.container))
    }
}

/// How a source is written: `pod/container`.
pub open spec fn source_label(source: SourceModel) -> Seq<char> {
    source.pod + "/"@ + source.container
}

impl LogSource {
    /// A container of a pod.
    pub fn new(pod: &str, container: &str) -> (source: Self)
        ensures
            source.deep_view() == (SourceModel { pod: pod@, container: container@ }),
    {
        LogSource { pod: pod.to_owned(), container: container.to_owned() }
    }

    /// How the source is written: `pod/container`.
    pub fn label(&self) -> (label: String)
        ensures
            label@ == source_label(self.deep_view()),
    {
        joined(joined(self.pod.clone(), "/"), self.container.as_str())
    }
}

/// What a source of lines is doing.
#[derive(Clone, Debug, PartialEq, Eq)]
pub enum LogSourceState {
    /// Lines arrive.
    Streaming,
    /// It said all it had to say.
    Ended,
    /// It broke off.
    Failed {
        /// Why.
        reason: String,
    },
}

/// What a [`LogSourceState`] holds.
pub enum LogSourceStateModel {
    /// Lines arrive.
    Streaming,
    /// It said all it had to say.
    Ended,
    /// It broke off.
    Failed {
        /// Why.
        reason: Seq<char>,
    },
}

impl DeepView for LogSourceState {
    type V = LogSourceStateModel;

    open spec fn deep_view(&self) -> LogSourceStateModel {
        match self {
            LogSourceState::Streaming => LogSourceStateModel::Streaming,
            LogSourceState::Ended => LogSourceStateModel::Ended,
            LogSourceState::Failed { reason } => LogSourceStateModel::Failed {
                reason: reason.deep_view(),
            },
        }
    }
}

impl Value for LogSourceState {
    fn dup(&self) -> (copy: Self) {
        match self {
            LogSourceState::Streaming => LogSourceState::Streaming,
            LogSourceState::Ended => LogSourceState::Ended,
            LogSourceState::Failed { reason } => LogSourceState::Failed {
                reason: reason.dup(),
            },
        }
    }

    fn same(&self, other: &Self) -> (equal: bool) {
        match (self, other) {
            (LogSourceState::Streaming, LogSourceState::Streaming) => true,
            (LogSourceState::Ended, LogSourceState::Ended) => true,
            (LogSourceState::Failed { reason }, LogSourceState::Failed { reason: reason_too }) => {
                reason.same(reason_too)
            },
            _ => false,
        }
    }
}

/// One line of a log.
#[derive(Clone, Debug, PartialEq, Eq)]
pub struct LogLine {
    /// Where it came from.
    pub source: LogSource,
    /// When it was written, if the apiserver said.
    pub timestamp: Option<SystemTime>,
    /// The line.
    pub text: String,
}

/// What a [`LogLine`] holds.
pub struct LineModel {
    /// Where it came from.
    pub source: SourceModel,
    /// When it was written, if the apiserver said.
    pub timestamp: Option<SystemTime>,
    /// The line.
    pub text: Seq<char>,
}

impl DeepView for LogLine {
    type V = LineModel;

    open spec fn deep_view(&self) -> LineModel {
        LineModel {
            source: self.source.deep_view(),
            timestamp: self.timestamp.deep_view(),
            text: self.text.deep_view(),
        }
    }
}

impl Value for LogLine {
    fn dup(&self) -> (copy: Self) {
        LogLine {
            source: self.source.dup(),
            timestamp: self.timestamp.dup(),
            text: self.text.dup(),
        }
    }

    fn same(&self, other: &Self) -> (equal: bool) {
        self.source.same(&other.source)
            && self.timestamp.same(&other.timestamp)
            && self.text.same(&other.text)
    }
}

// --- commands -------------------------------------------------------------------

/// A command to run in a container.
#[derive(Clone, Debug, PartialEq, Eq)]
pub struct ExecTarget {
    /// The namespace the pod is in.
    pub namespace: String,
    /// The pod.
    pub pod: String,
    /// The container; the pod's default if there is none.
    pub container: Option<String>,
    /// The command and its arguments.
    pub command: Vec<String>,
}

/// What a [`ExecTarget`] holds.
pub struct ExecTargetModel {
    /// The namespace the pod is in.
    pub namespace: Seq<char>,
    /// The pod.
    pub pod: Seq<char>,
    /// The container; the pod's default if there is none.
    pub container: Option<Seq<char>>,
    /// The command and its arguments.
    pub command: Seq<Seq<char>>,
}

impl DeepView for ExecTarget {
    type V = ExecTargetModel;

    open spec fn deep_view(&self) -> ExecTargetModel {
        ExecTargetModel {
            namespace: self.namespace.deep_view(),
            pod: self.pod.deep_view(),
            container: self.container.deep_view(),
            command: self.command.deep_view(),
        }
    }
}

impl Value for ExecTarget {
    fn dup(&self) -> (copy: Self) {
        ExecTarget {
            namespace: self.namespace.dup(),
            pod: self.pod.dup(),
            container: self.container.dup(),
            command: self.command.dup(),
        }
    }

    fn same(&self, other: &Self) -> (equal: bool) {
        self.namespace.same(&other.namespace)
            && self.pod.same(&other.pod)
            && self.container.same(&other.container)
            && self.command.same(&other.command)
    }
}

/// Words with one space between them.
pub open spec fn spaced(words: Seq<Seq<char>>) -> Seq<char>
    decreases words.len(),
{
    if words.len() == 0 {
        seq![]
    } else if words.len() == 1 {
        words[0]
    } else {
        spaced(words.drop_last()) + " "@ + words.last()
    }
}

/// How a command and the place it runs in are written.
pub open spec fn exec_label(target: ExecTargetModel) -> Seq<char> {
    let pod = target.namespace + "/"@ + target.pod;
    let within = match target.container {
        Some(container) => pod + " ["@ + container + "]"@,
        None => pod,
    };
    within + " $ "@ + spaced(target.command)
}

/// The sentence that asks whether to run a command.
pub open spec fn exec_confirmation(target: ExecTargetModel, cluster: Seq<char>) -> Seq<char> {
    let what = "Run `"@ + spaced(target.command) + "` in pod "@ + target.pod;
    let place = match target.container {
        Some(container) => what + ", container "@ + container + ","@,
        None => what + ", default container,"@,
    };
    place + " in namespace "@ + target.namespace + " on cluster "@ + cluster + "?"@
}

impl ExecTarget {
    /// The command somebody typed, split at its white space; nothing, if they
    /// typed none.
    pub fn parse(namespace: &str, pod: &str, container: Option<String>, typed: &str) -> (target: Option<Self>)
        ensures
            target.deep_view() == (if words(typed@).len() == 0 {
                None
            } else {
                Some(
                    ExecTargetModel {
                        namespace: namespace@,
                        pod: pod@,
                        container: container.deep_view(),
                        command: words(typed@),
                    },
                )
            }),
    {
        let typed: Vec<char> = chars_of(typed);
        let command: Vec<String> = split_words(typed.as_slice());
        if command.len() == 0 {
            None
        } else {
            Some(
                ExecTarget {
                    namespace: namespace.to_owned(),
                    pod: pod.to_owned(),
                    container,
                    command,
                },
            )
        }
    }

    /// The command and its arguments on one line.
    pub fn command_line(&self) -> (line: String)
        ensures
            line@ == spaced(self.deep_view().command),
    {
        let ghost all = self.command.deep_view();
        if self.command.len() == 0 {
            let line: String = String::new();
            assert(line@ =~= seq![]);
            return line;
        }
        let mut line: String = self.command[0].clone();
        let mut at: usize = 1;
        assert(all.take(1)[0] == all[0]);
        while at < self.command.len()
            invariant
                1 <= at <= self.command.len(),
                all == self.command.deep_view(),
                line@ == spaced(all.take(at as int)),
            decreases self.command.len() - at,
        {
            line = joined(joined(line, " "), self.command[at].as_str());
            at += 1;
            assert(all.take(at as int).drop_last() =~= all.take(at - 1));
            assert(all.take(at as int).last() == all[at - 1]);
        }
        assert(all.take(at as int) =~= all);
        line
    }

    /// How the command and the place it runs in are written.
    pub fn label(&self) -> (label: String)
        ensures
            label@ == exec_label(self.deep_view()),
    {
        let pod: String = joined(joined(self.namespace.clone(), "/"), self.pod.as_str());
        let within: String = match &self.container {
            Some(container) => joined(joined(joined(pod, " ["), container.as_str()), "]"),
            None => pod,
        };
        joined(joined(within, " $ "), self.command_line().as_str())
    }

    /// The sentence that asks whether to run this on a cluster.
    pub fn confirmation(&self, cluster: &ClusterId) -> (sentence: String)
        ensures
            sentence@ == exec_confirmation(self.deep_view(), cluster.deep_view()),
    {
        let run: String = joined(joined("Run `".to_owned(), self.command_line().as_str()), "` in pod ");
        let what: String = joined(run, self.pod.as_str());
        let place: String = match &self.container {
            Some(container) => joined(joined(joined(what, ", container "), container.as_str()), ","),
            None => joined(what, ", default container,"),
        };
        let within: String = joined(joined(place, " in namespace "), self.namespace.as_str());
        joined(joined(joined(within, " on cluster "), cluster.as_str()), "?")
    }
}

/// How a command ended.
#[derive(Clone, Debug, PartialEq, Eq)]
pub enum ExecStatus {
    /// It ran to its end.
    Exited {
        /// The exit code, if the cluster reported one.
        code: Option<i32>,
        /// What the cluster said about it.
        message: String,
    },
    /// It could not be run.
    Failed {
        /// Why.
        reason: String,
    },
    /// It was stopped.
    Cancelled,
}

/// What a [`ExecStatus`] holds.
pub enum ExecStatusModel {
    /// It ran to its end.
    Exited {
        /// The exit code, if the cluster reported one.
        code: Option<i32>,
        /// What the cluster said about it.
        message: Seq<char>,
    },
    /// It could not be run.
    Failed {
        /// Why.
        reason: Seq<char>,
    },
    /// It was stopped.
    Cancelled,
}

impl DeepView for ExecStatus {
    type V = ExecStatusModel;

    open spec fn deep_view(&self) -> ExecStatusModel {
        match self {
            ExecStatus::Exited { code, message } => ExecStatusModel::Exited {
                code: code.deep_view(),
                message: message.deep_view(),
            },
            ExecStatus::Failed { reason } => ExecStatusModel::Failed {
                reason: reason.deep_view(),
            },
            ExecStatus::Cancelled => ExecStatusModel::Cancelled,
        }
    }
}

impl Value for ExecStatus {
    fn dup(&self) -> (copy: Self) {
        match self {
            ExecStatus::Exited { code, message } => ExecStatus::Exited {
                code: code.dup(),
                message: message.dup(),
            },
            ExecStatus::Failed { reason } => ExecStatus::Failed {
                reason: reason.dup(),
            },
            ExecStatus::Cancelled => ExecStatus::Cancelled,
        }
    }

    fn same(&self, other: &Self) -> (equal: bool) {
        match (self, other) {
            (ExecStatus::Exited { code, message }, ExecStatus::Exited { code: code_too, message: message_too }) => {
                code.same(code_too)
                    && message.same(message_too)
            },
            (ExecStatus::Failed { reason }, ExecStatus::Failed { reason: reason_too }) => {
                reason.same(reason_too)
            },
            (ExecStatus::Cancelled, ExecStatus::Cancelled) => true,
            _ => false,
        }
    }
}

/// How the end of a command is written.
pub open spec fn exec_message(status: ExecStatusModel) -> Seq<char> {
    match status {
        ExecStatusModel::Exited { code: Some(code), .. } => "exited "@ + signed_decimal(code as int),
        ExecStatusModel::Exited { code: None, message } => message,
        ExecStatusModel::Failed { reason } => reason,
        ExecStatusModel::Cancelled => "cancelled"@,
    }
}

/// Whether a command ended badly: it failed, or did not exit with zero.
pub open spec fn exec_problem(status: ExecStatusModel) -> bool {
    match status {
        ExecStatusModel::Exited { code, .. } => code != Some(0i32),
        ExecStatusModel::Failed { .. } => true,
        ExecStatusModel::Cancelled => false,
    }
}

impl ExecStatus {
    /// How the end is written.
    pub fn message(&self) -> (message: String)
        ensures
            message@ == exec_message(self.deep_view()),
    {
        match self {
            ExecStatus::Exited { code, message } => match code {
                Some(code) => joined("exited ".to_owned(), to_signed_decimal(*code).as_str()),
                None => message.clone(),
            },
            ExecStatus::Failed { reason } => reason.clone(),
            ExecStatus::Cancelled => "cancelled".to_owned(),
        }
    }

    /// Whether the command ended badly.
    pub fn is_problem(&self) -> (problem: bool)
        ensures
            problem == exec_problem(self.deep_view()),
    {
        match self {
            ExecStatus::Exited { code, .. } => match code {
                Some(code) => *code != 0,
                None => true,
            },
            ExecStatus::Failed { .. } => true,
            ExecStatus::Cancelled => false,
        }
    }
}

// --- forwards -------------------------------------------------------------------

/// Which forward, of those a session has opened.
#[derive(Clone, Copy, Debug, PartialEq, Eq, PartialOrd, Ord, Structural)]
pub struct ForwardId(pub u64);

impl DeepView for ForwardId {
    type V = ForwardId;

    open spec fn deep_view(&self) -> ForwardId {
        *self
    }
}

impl Value for ForwardId {
    fn dup(&self) -> (copy: Self) {
        *self
    }

    fn same(&self, other: &Self) -> (equal: bool) {
        *self == *other
    }
}

impl Key for ForwardId {
    open spec fn below(a: ForwardId, b: ForwardId) -> bool {
        a.0 < b.0
    }

    proof fn ordered(a: ForwardId, b: ForwardId, c: ForwardId) {
    }

    fn is_below(&self, other: &Self) -> (below: bool) {
        self.0 < other.0
    }
}

/// A port of a pod.
#[derive(Clone, Debug, PartialEq, Eq)]
pub struct ForwardTarget {
    /// The namespace the pod is in.
    pub namespace: String,
    /// The pod.
    pub pod: String,
    /// The port in the container.
    pub port: u16,
}

/// What a [`ForwardTarget`] holds.
pub struct ForwardTargetModel {
    /// The namespace the pod is in.
    pub namespace: Seq<char>,
    /// The pod.
    pub pod: Seq<char>,
    /// The port in the container.
    pub port: u16,
}

impl DeepView for ForwardTarget {
    type V = ForwardTargetModel;

    open spec fn deep_view(&self) -> ForwardTargetModel {
        ForwardTargetModel {
            namespace: self.namespace.deep_view(),
            pod: self.pod.deep_view(),
            port: self.port.deep_view(),
        }
    }
}

impl Value for ForwardTarget {
    fn dup(&self) -> (copy: Self) {
        ForwardTarget {
            namespace: self.namespace.dup(),
            pod: self.pod.dup(),
            port: self.port.dup(),
        }
    }

    fn same(&self, other: &Self) -> (equal: bool) {
        self.namespace.same(&other.namespace)
            && self.pod.same(&other.pod)
            && self.port.same(&other.port)
    }
}

/// How a port of a pod is written.
pub open spec fn forward_target_label(target: ForwardTargetModel) -> Seq<char> {
    target.namespace + "/"@ + target.pod + ":"@ + decimal(target.port as nat)
}

impl ForwardTarget {
    /// A port of a pod.
    pub fn new(namespace: &str, pod: &str, port: u16) -> (target: Self)
        ensures
            target.deep_view() == (ForwardTargetModel { namespace: namespace@, pod: pod@, port }),
    {
        ForwardTarget { namespace: namespace.to_owned(), pod: pod.to_owned(), port }
    }

    /// How the port is written: `namespace/pod:port`.
    pub fn label(&self) -> (label: String)
        ensures
            label@ == forward_target_label(self.deep_view()),
    {
        let pod: String = joined(joined(self.namespace.clone(), "/"), self.pod.as_str());
        joined(joined(pod, ":"), to_decimal(self.port as u64).as_str())
    }
}

/// How a forward is doing.
#[derive(Clone, Debug, PartialEq, Eq)]
pub enum ForwardState {
    /// It is being opened.
    Starting,
    /// It is open.
    Listening {
        /// The port on this machine.
        local_port: u16,
    },
    /// It is open, but something is wrong.
    Degraded {
        /// The port on this machine.
        local_port: u16,
        /// What is wrong.
        reason: String,
    },
    /// It could not be opened, or broke.
    Failed {
        /// Why.
        reason: String,
    },
    /// It was torn down.
    Stopped,
}

/// What a [`ForwardState`] holds.
pub enum ForwardStateModel {
    /// It is being opened.
    Starting,
    /// It is open.
    Listening {
        /// The port on this machine.
        local_port: u16,
    },
    /// It is open, but something is wrong.
    Degraded {
        /// The port on this machine.
        local_port: u16,
        /// What is wrong.
        reason: Seq<char>,
    },
    /// It could not be opened, or broke.
    Failed {
        /// Why.
        reason: Seq<char>,
    },
    /// It was torn down.
    Stopped,
}

impl DeepView for ForwardState {
    type V = ForwardStateModel;

    open spec fn deep_view(&self) -> ForwardStateModel {
        match self {
            ForwardState::Starting => ForwardStateModel::Starting,
            ForwardState::Listening { local_port } => ForwardStateModel::Listening {
                local_port: local_port.deep_view(),
            },
            ForwardState::Degraded { local_port, reason } => ForwardStateModel::Degraded {
                local_port: local_port.deep_view(),
                reason: reason.deep_view(),
            },
            ForwardState::Failed { reason } => ForwardStateModel::Failed {
                reason: reason.deep_view(),
            },
            ForwardState::Stopped => ForwardStateModel::Stopped,
        }
    }
}

impl Value for ForwardState {
    fn dup(&self) -> (copy: Self) {
        match self {
            ForwardState::Starting => ForwardState::Starting,
            ForwardState::Listening { local_port } => ForwardState::Listening {
                local_port: local_port.dup(),
            },
            ForwardState::Degraded { local_port, reason } => ForwardState::Degraded {
                local_port: local_port.dup(),
                reason: reason.dup(),
            },
            ForwardState::Failed { reason } => ForwardState::Failed {
                reason: reason.dup(),
            },
            ForwardState::Stopped => ForwardState::Stopped,
        }
    }

    fn same(&self, other: &Self) -> (equal: bool) {
        match (self, other) {
            (ForwardState::Starting, ForwardState::Starting) => true,
            (ForwardState::Listening { local_port }, ForwardState::Listening { local_port: local_port_too }) => {
                local_port.same(local_port_too)
            },
            (ForwardState::Degraded { local_port, reason }, ForwardState::Degraded { local_port: local_port_too, reason: reason_too }) => {
                local_port.same(local_port_too)
                    && reason.same(reason_too)
            },
            (ForwardState::Failed { reason }, ForwardState::Failed { reason: reason_too }) => {
                reason.same(reason_too)
            },
            (ForwardState::Stopped, ForwardState::Stopped) => true,
            _ => false,
        }
    }
}

/// Whether a forward needs attention.
pub open spec fn forward_problem(state: ForwardStateModel) -> bool {
    state is Degraded || state is Failed
}

/// What is known about a forward's problem.
pub open spec fn forward_detail(state: ForwardStateModel) -> Option<Seq<char>> {
    match state {
        ForwardStateModel::Degraded { reason, .. } => Some(reason),
        ForwardStateModel::Failed { reason } => Some(reason),
        _ => None,
    }
}

/// The port on this machine that a forward listens on.
pub open spec fn forward_port(state: ForwardStateModel) -> Option<u16> {
    match state {
        ForwardStateModel::Listening { local_port } => Some(local_port),
        ForwardStateModel::Degraded { local_port, .. } => Some(local_port),
        _ => None,
    }
}

/// The address a forward listens on.
pub open spec fn forward_address(state: ForwardStateModel) -> Option<Seq<char>> {
    match forward_port(state) {
        Some(port) => Some("127.0.0.1:"@ + decimal(port as nat)),
        None => None,
    }
}

impl ForwardState {
    /// Whether the forward needs attention.
    pub fn is_problem(&self) -> (problem: bool)
        ensures
            problem == forward_problem(self.deep_view()),
    {
        match self {
            ForwardState::Degraded { .. } => true,
            ForwardState::Failed { .. } => true,
            _ => false,
        }
    }

    /// What is known about a problem, verbatim.
    pub fn detail(&self) -> (detail: Option<&str>)
        ensures
            detail.deep_view() == forward_detail(self.deep_view()),
    {
        match self {
            ForwardState::Degraded { reason, .. } => Some(reason.as_str()),
            ForwardState::Failed { reason } => Some(reason.as_str()),
            _ => None,
        }
    }
}

/// One port forward.
#[derive(Clone, Debug, PartialEq, Eq)]
pub struct ForwardInfo {
    /// Which forward.
    pub id: ForwardId,
    /// What it leads to.
    pub target: ForwardTarget,
    /// How it is doing.
    pub state: ForwardState,
    /// How many connections went through it.
    pub connections: u32,
}

/// What a [`ForwardInfo`] holds.
pub struct ForwardInfoModel {
    /// Which forward.
    pub id: ForwardId,
    /// What it leads to.
    pub target: ForwardTargetModel,
    /// How it is doing.
    pub state: ForwardStateModel,
    /// How many connections went through it.
    pub connections: u32,
}

impl DeepView for ForwardInfo {
    type V = ForwardInfoModel;

    open spec fn deep_view(&self) -> ForwardInfoModel {
        ForwardInfoModel {
            id: self.id.deep_view(),
            target: self.target.deep_view(),
            state: self.state.deep_view(),
            connections: self.connections.deep_view(),
        }
    }
}

impl Value for ForwardInfo {
    fn dup(&self) -> (copy: Self) {
        ForwardInfo {
            id: self.id.dup(),
            target: self.target.dup(),
            state: self.state.dup(),
            connections: self.connections.dup(),
        }
    }

    fn same(&self, other: &Self) -> (equal: bool) {
        self.id.same(&other.id)
            && self.target.same(&other.target)
            && self.state.same(&other.state)
            && self.connections.same(&other.connections)
    }
}

/// How a forward is written: where it listens, and where that leads.
pub open spec fn forward_summary(forward: ForwardInfoModel) -> Seq<char> {
    let from = match forward_address(forward.state) {
        Some(address) => address,
        None => match forward.state {
            ForwardStateModel::Starting => "starting"@,
            ForwardStateModel::Stopped => "stopped"@,
            _ => "failed"@,
        },
    };
    from + " → "@ + forward_target_label(forward.target)
}

impl ForwardInfo {
    /// A forward that is being opened.
    pub fn starting(id: ForwardId, target: ForwardTarget) -> (forward: Self)
        ensures
            forward.deep_view() == (ForwardInfoModel {
                id,
                target: target.deep_view(),
                state: ForwardStateModel::Starting,
                connections: 0,
            }),
    {
        ForwardInfo { id, target, state: ForwardState::Starting, connections: 0 }
    }

    /// The address it listens on, while it does.
    pub fn address(&self) -> (address: Option<String>)
        ensures
            address.deep_view() == forward_address(self.deep_view().state),
    {
        match &self.state {
            ForwardState::Listening { local_port } => Some(
                joined("127.0.0.1:".to_owned(), to_decimal(*local_port as u64).as_str()),
            ),
            ForwardState::Degraded { local_port, .. } => Some(
                joined("127.0.0.1:".to_owned(), to_decimal(*local_port as u64).as_str()),
            ),
            _ => None,
        }
    }

    /// How the forward is written: where it listens, and where that leads.
    pub fn summary(&self) -> (summary: String)
        ensures
            summary@ == forward_summary(self.deep_view()),
    {
        let from: String = match self.address() {
            Some(address) => address,
            None => match &self.state {
                ForwardState::Starting => "starting".to_owned(),
                ForwardState::Stopped => "stopped".to_owned(),
                _ => "failed".to_owned(),
            },
        };
        joined(joined(from, " → "), self.target.label().as_str())
    }
}

/// A connection needs looking at where it failed or is failing, and can be used
/// while it is connected, if only just.
pub proof fn states_are_told_apart(state: ConnectionStateModel)
    ensures
        connection_usable(state) <==> state is Connected || state is Degraded,
        connection_problem(state) <==> state is Degraded || state is AuthFailed || (state
            matches ConnectionStateModel::Disconnected { reason } && reason is Some),
        state matches ConnectionStateModel::AuthFailed { reason } ==> connection_detail(state) == Some(reason),
        state matches ConnectionStateModel::Degraded { reason } ==> connection_detail(state) == Some(reason),
{
}

/// A command went well only if it exited with zero or was cancelled, and what it
/// exited with is said.
pub proof fn an_exit_is_told_as_it_was(code: i32, message: Seq<char>, reason: Seq<char>)
    ensures
        exec_problem(ExecStatusModel::Exited { code: Some(code), message }) == (code != 0),
        exec_problem(ExecStatusModel::Failed { reason }),
        !exec_problem(ExecStatusModel::Cancelled),
        exec_message(ExecStatusModel::Failed { reason }) == reason,
        code >= 0 ==> exec_message(ExecStatusModel::Exited { code: Some(code), message }) == "exited "@ + decimal(
            code as nat,
        ),
{
}

/// The words of a command are written with one space between them.
pub proof fn words_are_written_apart(words: Seq<Seq<char>>, last: Seq<char>)
    ensures
        spaced(seq![last]) == last,
        words.len() > 0 ==> spaced(words.push(last)) == spaced(words) + " "@ + last,
{
    assert(words.push(last).drop_last() =~= words);
}

} // verus!
