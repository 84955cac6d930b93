//! The connections to every cluster anybody mentioned.

use crate::clock::{Duration, Instant};
use crate::events::{ClusterEvent, EventModel};
use crate::keyed::{cut, is_key, lookup, lookup_after_put, put, put_after_cut, OrdMap};
use crate::objects::ClusterId;
use crate::sessions::{connection_problem, ConnectionState, ConnectionStateModel};
use crate::value::Value;
use vstd::prelude::*;

verus! {

/// What is known about the connection to one cluster.
#[derive(Clone, Debug, PartialEq, Eq)]
pub struct Connection {
    /// How it is doing.
    pub state: ConnectionState,
    /// When it got into that state.
    pub since: Instant,
    /// How long the last ping took.
    pub last_round_trip: Option<Duration>,
    /// How many of its events were lost since it was last listed from scratch.
    pub dropped_events: usize,
}

/// What a [`Connection`] holds.
pub struct ConnectionModel {
    /// How it is doing.
    pub state: ConnectionStateModel,
    /// When it got into that state.
    pub since: Instant,
    /// How long the last ping took.
    pub last_round_trip: Option<Duration>,
    /// How many of its events were lost since it was last listed from scratch.
    pub dropped_events: usize,
}

impl DeepView for Connection {
    type V = ConnectionModel;

    open spec fn deep_view(&self) -> ConnectionModel {
        ConnectionModel {
            state: self.state.deep_view(),
            since: self.since.deep_view(),
            last_round_trip: self.last_round_trip.deep_view(),
            dropped_events: self.dropped_events.deep_view(),
        }
    }
}

impl Value for Connection {
    fn dup(&self) -> (copy: Self) {
        Connection {
            state: self.state.dup(),
            since: self.since.dup(),
            last_round_trip: self.last_round_trip.dup(),
            dropped_events: self.dropped_events.dup(),
        }
    }

    fn same(&self, other: &Self) -> (equal: bool) {
        self.state.same(&other.state)
            && self.since.same(&other.since)
            && self.last_round_trip.same(&other.last_round_trip)
            && self.dropped_events.same(&other.dropped_events)
    }
}

/// A connection in a state since a moment, and nothing else known about it.
pub open spec fn fresh_connection(state: ConnectionStateModel, now: Instant) -> ConnectionModel {
    ConnectionModel { state, since: now, last_round_trip: None, dropped_events: 0 }
}

impl Connection {
    fn new(state: ConnectionState, now: Instant) -> (connection: Self)
        ensures
            connection.deep_view() == fresh_connection(state.deep_view(), now),
    {
        Connection { state, since: now, last_round_trip: None, dropped_events: 0 }
    }

    /// Whether events were lost, so that what is shown may be out of date.
    pub fn is_stale(&self) -> (stale: bool)
        ensures
            stale == (self.deep_view().dropped_events > 0),
    {
        self.dropped_events > 0
    }
}

/// The connections by cluster, in the order of their names.
pub type Connections = Seq<(Seq<char>, ConnectionModel)>;

/// A cluster's connection; an idle one, if nothing is known of it.
pub open spec fn known_connection(connections: Connections, cluster: Seq<char>, now: Instant) -> ConnectionModel {
    match lookup(connections, cluster) {
        Some(connection) => connection,
        None => fresh_connection(ConnectionStateModel::Idle, now),
    }
}

/// The connections with a cluster among them, idle if it is new.
pub open spec fn mentioned(connections: Connections, cluster: Seq<char>, now: Instant) -> Connections {
    if is_key(connections, cluster) {
        connections
    } else {
        put::<ClusterId, ConnectionModel>(
            connections,
            cluster,
            fresh_connection(ConnectionStateModel::Idle, now),
        )
    }
}

/// A connection that lost more events.
pub open spec fn losing(connection: ConnectionModel, dropped: usize) -> ConnectionModel {
    ConnectionModel { dropped_events: (connection.dropped_events + dropped) as usize, ..connection }
}

/// Every connection, each having lost more events.
pub open spec fn all_losing(connections: Connections, dropped: usize) -> Connections {
    connections.map_values(|entry: (Seq<char>, ConnectionModel)| (entry.0, losing(entry.1, dropped)))
}

/// Whether an event tells something of a connection that was not known yet.
pub open spec fn is_news(connections: Connections, event: EventModel) -> bool {
    match event {
        EventModel::Status { cluster, state } => match lookup(connections, cluster) {
            Some(connection) => connection.state != state,
            None => true,
        },
        EventModel::Pong { cluster, elapsed, .. } => match lookup(connections, cluster) {
            Some(connection) => connection.last_round_trip != Some(elapsed),
            None => true,
        },
        EventModel::Stale { cluster: Some(_), dropped } => dropped > 0,
        EventModel::Stale { cluster: None, dropped } => dropped > 0 && connections.len() > 0,
        _ => false,
    }
}

/// The connections after an event: a state is recorded with the moment it was
/// entered, a ping with how long it took, and lost events are added up.
pub open spec fn connections_after(connections: Connections, event: EventModel, now: Instant) -> Connections {
    if !is_news(connections, event) {
        connections
    } else {
        match event {
            EventModel::Status { cluster, state } => put::<ClusterId, ConnectionModel>(
                connections,
                cluster,
                ConnectionModel { state, since: now, ..known_connection(connections, cluster, now) },
            ),
            EventModel::Pong { cluster, elapsed, .. } => put::<ClusterId, ConnectionModel>(
                connections,
                cluster,
                ConnectionModel {
                    last_round_trip: Some(elapsed),
                    ..known_connection(connections, cluster, now)
                },
            ),
            EventModel::Stale { cluster: Some(cluster), dropped } => put::<ClusterId, ConnectionModel>(
                connections,
                cluster,
                losing(known_connection(connections, cluster, now), dropped),
            ),
            EventModel::Stale { cluster: None, dropped } => all_losing(connections, dropped),
            _ => connections,
        }
    }
}

/// Whether the events an event reports lost can still be counted.
pub open spec fn countable(connections: Connections, event: EventModel) -> bool {
    match event {
        EventModel::Stale { cluster: Some(cluster), dropped } => match lookup(connections, cluster) {
            Some(connection) => connection.dropped_events + dropped <= usize::MAX,
            None => true,
        },
        EventModel::Stale { cluster: None, dropped } => forall|i: int|
            0 <= i < connections.len() ==> (#[trigger] connections[i]).1.dropped_events + dropped <= usize::MAX,
        _ => true,
    }
}

/// The connections after a batch of events.
pub open spec fn connections_after_all(connections: Connections, events: Seq<EventModel>, now: Instant) -> Connections
    decreases events.len(),
{
    if events.len() == 0 {
        connections
    } else {
        connections_after(connections_after_all(connections, events.drop_last(), now), events.last(), now)
    }
}

/// Whether any event of a batch was news when it arrived.
pub open spec fn any_news(connections: Connections, events: Seq<EventModel>, now: Instant) -> bool
    decreases events.len(),
{
    events.len() > 0 && (any_news(connections, events.drop_last(), now) || is_news(
        connections_after_all(connections, events.drop_last(), now),
        events.last(),
    ))
}

/// Whether every loss a batch reports can be counted.
pub open spec fn all_countable(connections: Connections, events: Seq<EventModel>, now: Instant) -> bool {
    forall|i: int|
        0 <= i < events.len() ==> #[trigger] countable(
            connections_after_all(connections, events.take(i), now),
            events[i],
        )
}

/// The connections with a cluster's lost events forgotten.
pub open spec fn freshened(connections: Connections, cluster: Seq<char>) -> Connections {
    match lookup(connections, cluster) {
        Some(connection) => put::<ClusterId, ConnectionModel>(
            connections,
            cluster,
            ConnectionModel { dropped_events: 0, ..connection },
        ),
        None => connections,
    }
}

/// Picks the connections somebody should look at.
pub open spec fn troubled() -> spec_fn((Seq<char>, ConnectionModel)) -> bool {
    |entry: (Seq<char>, ConnectionModel)| connection_problem(entry.1.state)
}

/// The connections to every cluster anybody mentioned.
#[derive(Clone, Debug)]
pub struct ConnectionRegistry {
    clusters: OrdMap<ClusterId, Connection>,
}

impl View for ConnectionRegistry {
    type V = Connections;

    closed spec fn view(&self) -> Connections {
        self.clusters@
    }
}

impl Default for ConnectionRegistry {
    fn default() -> (registry: Self)
        ensures
            registry.wf(),
            registry@ == Seq::<(Seq<char>, ConnectionModel)>::empty(),
    {
        ConnectionRegistry::new()
    }
}

impl ConnectionRegistry {
    /// Whether the clusters are in order, each once.
    pub closed spec fn wf(&self) -> bool {
        self.clusters.wf()
    }

    /// A well-formed registry is in the order of its clusters.
    pub proof fn wf_is_ascending(&self)
        requires
            self.wf(),
        ensures
            crate::keyed::ascending::<ClusterId, ConnectionModel>(self@),
    {
    }

    /// No connections.
    pub fn new() -> (registry: Self)
        ensures
            registry.wf(),
            registry@ == Seq::<(Seq<char>, ConnectionModel)>::empty(),
    {
        ConnectionRegistry { clusters: OrdMap::new() }
    }

    /// Makes sure a cluster is known, idle if it is new.
    pub fn track(&mut self, cluster: ClusterId, now: Instant)
        requires
            old(self).wf(),
        ensures
            final(self).wf(),
            final(self)@ == mentioned(old(self)@, cluster.deep_view(), now),
    {
        if !self.clusters.contains_key(&cluster) {
            self.clusters.put(cluster, Connection::new(ConnectionState::Idle, now));
        }
    }

    /// A cluster's connection, taken out; an idle one, if it is new.
    fn take(&mut self, cluster: &ClusterId, now: Instant) -> (connection: Connection)
        requires
            old(self).wf(),
        ensures
            final(self).wf(),
            final(self)@ == cut(old(self)@, cluster.deep_view()),
            connection.deep_view() == known_connection(old(self)@, cluster.deep_view(), now),
    {
        match self.clusters.take(cluster) {
            Some(connection) => connection,
            None => Connection::new(ConnectionState::Idle, now),
        }
    }

    /// Folds one event in, reporting whether it changed anything.
    pub fn apply(&mut self, event: &ClusterEvent, now: Instant) -> (changed: bool)
        requires
            old(self).wf(),
            countable(old(self)@, event.deep_view()),
        ensures
            final(self).wf(),
            changed == is_news(old(self)@, event.deep_view()),
            final(self)@ == connections_after(old(self)@, event.deep_view(), now),
    {
        match event {
            ClusterEvent::Status { cluster, state } => {
                if let Some(held) = self.clusters.get(cluster) {
                    if held.state.same(state) {
                        return false;
                    }
                }
                let mut connection: Connection = self.take(cluster, now);
                connection.state = state.dup();
                connection.since = now;
                proof {
                    put_after_cut::<ClusterId, ConnectionModel>(
                        old(self)@,
                        cluster.deep_view(),
                        connection.deep_view(),
                    );
                }
                self.clusters.put(cluster.dup(), connection);
                true
            },
            ClusterEvent::Pong { cluster, elapsed, .. } => {
                if let Some(held) = self.clusters.get(cluster) {
                    if let Some(known) = held.last_round_trip {
                        if known == *elapsed {
                            return false;
                        }
                    }
                }
                let mut connection: Connection = self.take(cluster, now);
                connection.last_round_trip = Some(*elapsed);
                proof {
                    put_after_cut::<ClusterId, ConnectionModel>(
                        old(self)@,
                        cluster.deep_view(),
                        connection.deep_view(),
                    );
                }
                self.clusters.put(cluster.dup(), connection);
                true
            },
            ClusterEvent::Stale { cluster, dropped } => {
                if *dropped == 0 {
                    return false;
                }
                match cluster {
                    Some(cluster) => {
                        let mut connection: Connection = self.take(cluster, now);
                        connection.dropped_events = connection.dropped_events + *dropped;
                        proof {
                            put_after_cut::<ClusterId, ConnectionModel>(
                                old(self)@,
                                cluster.deep_view(),
                                connection.deep_view(),
                            );
                        }
                        self.clusters.put(cluster.dup(), connection);
                    },
                    None => {
                        let mut at: usize = 0;
                        while at < self.clusters.len()
                            invariant
                                self.wf(),
                                at <= self@.len(),
                                self@.len() == old(self)@.len(),
                                forall|i: int|
                                    0 <= i < old(self)@.len() ==> (#[trigger] old(self)@[i]).1.dropped_events
                                        + *dropped <= usize::MAX,
                                forall|i: int|
                                    0 <= i < at ==> (#[trigger] self@[i]) == all_losing(old(self)@, *dropped)[i],
                                forall|i: int| at <= i < self@.len() ==> (#[trigger] self@[i]) == old(self)@[i],
                            decreases self@.len() - at,
                        {
                            let mut connection: Connection = self.clusters.value_at(at).dup();
                            assert(self@[at as int] == old(self)@[at as int]);
                            connection.dropped_events = connection.dropped_events + *dropped;
                            self.clusters.replace_at(at, connection);
                            at += 1;
                        }
                        assert(self@ =~= all_losing(old(self)@, *dropped));
                        if self.clusters.len() == 0 {
                            assert(self@ =~= old(self)@);
                            return false;
                        }
                    },
                }
                true
            },
            _ => false,
        }
    }

    /// Forgets the events a cluster lost: it was just listed from scratch.
    pub fn mark_fresh(&mut self, cluster: &ClusterId)
        requires
            old(self).wf(),
        ensures
            final(self).wf(),
            final(self)@ == freshened(old(self)@, cluster.deep_view()),
    {
        if self.clusters.contains_key(cluster) {
            let ghost before = self@;
            let held: Option<Connection> = self.clusters.take(cluster);
            if let Some(connection) = held {
                let mut connection: Connection = connection;
                connection.dropped_events = 0;
                proof {
                    put_after_cut::<ClusterId, ConnectionModel>(
                        before,
                        cluster.deep_view(),
                        connection.deep_view(),
                    );
                }
                self.clusters.put(cluster.dup(), connection);
            }
        }
    }

    /// Folds a batch in, reporting whether anything changed.
    pub fn apply_batch(&mut self, events: &Vec<ClusterEvent>, now: Instant) -> (changed: bool)
        requires
            old(self).wf(),
            all_countable(old(self)@, events.deep_view(), now),
        ensures
            final(self).wf(),
            final(self)@ == connections_after_all(old(self)@, events.deep_view(), now),
            changed == any_news(old(self)@, events.deep_view(), now),
    {
        let ghost all = events.deep_view();
        let mut changed: bool = false;
        let mut at: usize = 0;
        assert(all.take(0) =~= Seq::empty());
        while at < events.len()
            invariant
                at <= events.len(),
                all == events.deep_view(),
                all_countable(old(self)@, all, now),
                self.wf(),
                self@ == connections_after_all(old(self)@, all.take(at as int), now),
                changed == any_news(old(self)@, all.take(at as int), now),
            decreases events.len() - at,
        {
            assert(countable(connections_after_all(old(self)@, all.take(at as int), now), all[at as int]));
            let news: bool = self.apply(&events[at], now);
            changed = changed || news;
            at += 1;
            assert(all.take(at as int).drop_last() =~= all.take(at - 1));
            assert(all.take(at as int).last() == all[at - 1]);
        }
        assert(all.take(at as int) =~= all);
        changed
    }

    /// What is known about a cluster's connection.
    pub fn get(&self, cluster: &ClusterId) -> (connection: Option<&Connection>)
        requires
            self.wf(),
        ensures
            connection.deep_view() == lookup(self@, cluster.deep_view()),
    {
        self.clusters.get(cluster)
    }

    /// Every connection, in the order of the clusters' names.
    pub fn iter(&self) -> (all: Vec<(&ClusterId, &Connection)>)
        ensures
            all.deep_view() == self@,
    {
        let mut all: Vec<(&ClusterId, &Connection)> = Vec::new();
        let mut at: usize = 0;
        while at < self.clusters.len()
            invariant
                at <= self@.len(),
                all.deep_view() == self@.take(at as int),
            decreases self@.len() - at,
        {
            let ghost before = all.deep_view();
            all.push((self.clusters.key_at(at), self.clusters.value_at(at)));
            at += 1;
            assert(all.deep_view() =~= before.push(self@[at - 1]));
            assert(self@.take(at as int) =~= before.push(self@[at - 1]));
        }
        assert(self@.take(at as int) =~= self@);
        all
    }

    /// How many clusters are known.
    pub fn len(&self) -> (len: usize)
        ensures
            len == self@.len(),
    {
        self.clusters.len()
    }

    /// Whether no cluster is known.
    pub fn is_empty(&self) -> (empty: bool)
        ensures
            empty == (self@.len() == 0),
    {
        self.clusters.len() == 0
    }

    /// The connections somebody should look at.
    pub fn problems(&self) -> (found: Vec<(&ClusterId, &Connection)>)
        ensures
            found.deep_view() == self@.filter(troubled()),
    {
        let mut found: Vec<(&ClusterId, &Connection)> = Vec::new();
        let mut at: usize = 0;
        assert(self@.take(0) =~= Seq::empty());
        assert(found.deep_view() =~= Seq::<(Seq<char>, ConnectionModel)>::empty().filter(troubled())) by {
            reveal(Seq::filter);
        }
        while at < self.clusters.len()
            invariant
                at <= self@.len(),
                found.deep_view() == self@.take(at as int).filter(troubled()),
            decreases self@.len() - at,
        {
            let ghost before = found.deep_view();
            let ghost entry = self@[at as int];
            proof {
                crate::seqs::filter_push(self@.take(at as int), entry, troubled());
            }
            if self.clusters.value_at(at).state.is_problem() {
                found.push((self.clusters.key_at(at), self.clusters.value_at(at)));
                assert(found.deep_view() =~= before.push(entry));
            }
            at += 1;
            assert(self@.take(at as int) =~= self@.take(at - 1).push(entry));
        }
        assert(self@.take(at as int) =~= self@);
        found
    }
}

/// An event about one cluster leaves every other cluster's connection alone.
pub proof fn other_connections_are_untouched(
    connections: Connections,
    event: EventModel,
    now: Instant,
    other: Seq<char>,
)
    requires
        crate::keyed::ascending::<ClusterId, ConnectionModel>(connections),
        crate::events::event_cluster(event) is Some,
        crate::events::event_cluster(event) != Some(other),
    ensures
        lookup(connections_after(connections, event, now), other) == lookup(connections, other),
{
    match event {
        EventModel::Status { cluster, state } => lookup_after_put::<ClusterId, ConnectionModel>(
            connections,
            cluster,
            ConnectionModel { state, since: now, ..known_connection(connections, cluster, now) },
            other,
        ),
        EventModel::Pong { cluster, elapsed, .. } => lookup_after_put::<ClusterId, ConnectionModel>(
            connections,
            cluster,
            ConnectionModel { last_round_trip: Some(elapsed), ..known_connection(connections, cluster, now) },
            other,
        ),
        EventModel::Stale { cluster: Some(cluster), dropped } => lookup_after_put::<ClusterId, ConnectionModel>(
            connections,
            cluster,
            losing(known_connection(connections, cluster, now), dropped),
            other,
        ),
        _ => {},
    }
}

/// An event is news exactly if it changes what is known of the connections.
pub proof fn news_is_a_change(connections: Connections, event: EventModel, now: Instant)
    requires
        crate::keyed::ascending::<ClusterId, ConnectionModel>(connections),
        countable(connections, event),
    ensures
        is_news(connections, event) == (connections_after(connections, event, now) != connections),
{
    match event {
        EventModel::Status { cluster, state } => lookup_after_put::<ClusterId, ConnectionModel>(
            connections,
            cluster,
            ConnectionModel { state, since: now, ..known_connection(connections, cluster, now) },
            cluster,
        ),
        EventModel::Pong { cluster, elapsed, .. } => lookup_after_put::<ClusterId, ConnectionModel>(
            connections,
            cluster,
            ConnectionModel { last_round_trip: Some(elapsed), ..known_connection(connections, cluster, now) },
            cluster,
        ),
        EventModel::Stale { cluster: Some(cluster), dropped } => lookup_after_put::<ClusterId, ConnectionModel>(
            connections,
            cluster,
            losing(known_connection(connections, cluster, now), dropped),
            cluster,
        ),
        EventModel::Stale { cluster: None, dropped } => {
            if is_news(connections, event) {
                let first = connections[0].1;
                assert(all_losing(connections, dropped)[0].1 == losing(first, dropped));
            }
        },
        _ => {},
    }
}

/// Reporting the state a connection is in already is no news: the moment it
/// got into that state stays what it was.
pub proof fn repeating_a_state_changes_nothing(
    connections: Connections,
    cluster: Seq<char>,
    state: ConnectionStateModel,
    first: Instant,
    later: Instant,
)
    requires
        crate::keyed::ascending::<ClusterId, ConnectionModel>(connections),
    ensures
        ({
            let event = EventModel::Status { cluster, state };
            let once = connections_after(connections, event, first);
            !is_news(once, event) && connections_after(once, event, later) == once
        }),
{
    let connection = ConnectionModel { state, since: first, ..known_connection(connections, cluster, first) };
    lookup_after_put::<ClusterId, ConnectionModel>(connections, cluster, connection, cluster);
}

/// Somebody should look at exactly the connections that failed or are failing.
pub proof fn troubled_connections_are_those_in_trouble(connections: Connections, entry: (Seq<char>, ConnectionModel))
    ensures
        connections.filter(troubled()).contains(entry) <==> connections.contains(entry) && (entry.1.state is Degraded
            || entry.1.state is AuthFailed || (entry.1.state matches ConnectionStateModel::Disconnected { reason }
            && reason is Some)),
{
    crate::seqs::filter_contains(connections, troubled(), entry);
}

/// A batch is news where one of its events was when it arrived, and its events
/// are folded in one after the other.
pub proof fn a_batch_is_news_where_an_event_is(
    connections: Connections,
    events: Seq<EventModel>,
    last: EventModel,
    now: Instant,
)
    ensures
        !any_news(connections, Seq::empty(), now),
        any_news(connections, events.push(last), now) <==> any_news(connections, events, now) || is_news(
            connections_after_all(connections, events, now),
            last,
        ),
        connections_after_all(connections, Seq::empty(), now) == connections,
        connections_after_all(connections, events.push(last), now) == connections_after(
            connections_after_all(connections, events, now),
            last,
            now,
        ),
{
    assert(events.push(last).drop_last() =~= events);
}

} // verus!
