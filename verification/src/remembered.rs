//! What the sidebar looked like last time.

use crate::keyed::{ascending, lookup, lookup_after_put, put, OrdMap};
use crate::seqs::{filter_contains, filter_first, filter_push};
use crate::value::Value;
use vstd::prelude::*;

verus! {

/// How many visits are remembered.
pub const VISITS_KEPT: usize = 32;

/// What a [`UiState`] holds.
pub struct UiModel {
    /// The sections somebody opened or closed, by heading.
    pub sections: Seq<(Seq<char>, bool)>,
    /// The kinds that were opened, latest first: the cluster, and the label of
    /// the kind.
    pub visits: Seq<(Seq<char>, Seq<char>)>,
}

/// Picks every other visit.
pub open spec fn other_visit(visit: (Seq<char>, Seq<char>)) -> spec_fn((Seq<char>, Seq<char>)) -> bool {
    |other: (Seq<char>, Seq<char>)| other != visit
}

/// Picks the visits to a cluster.
pub open spec fn visit_to(cluster: Seq<char>) -> spec_fn((Seq<char>, Seq<char>)) -> bool {
    |visit: (Seq<char>, Seq<char>)| visit.0 == cluster
}

/// The kind a visit was to.
pub open spec fn visited_kind() -> spec_fn((Seq<char>, Seq<char>)) -> Seq<char> {
    |visit: (Seq<char>, Seq<char>)| visit.1
}

/// As many visits as are remembered.
pub open spec fn kept_visits(visits: Seq<(Seq<char>, Seq<char>)>) -> Seq<(Seq<char>, Seq<char>)> {
    if visits.len() > VISITS_KEPT {
        visits.take(VISITS_KEPT as int)
    } else {
        visits
    }
}

/// The visits with one at the front, and nowhere else.
pub open spec fn visits_with(
    visits: Seq<(Seq<char>, Seq<char>)>,
    visit: (Seq<char>, Seq<char>),
) -> Seq<(Seq<char>, Seq<char>)> {
    kept_visits(seq![visit] + visits.filter(other_visit(visit)))
}

impl UiModel {
    /// Nothing remembered.
    pub open spec fn blank() -> UiModel {
        UiModel { sections: seq![], visits: seq![] }
    }

    /// The kinds that were opened on a cluster, latest first.
    pub open spec fn visits_to(self, cluster: Seq<char>) -> Seq<Seq<char>> {
        self.visits.filter(visit_to(cluster)).map_values(visited_kind())
    }

    /// With a kind having been opened on a cluster.
    pub open spec fn visited(self, cluster: Seq<char>, label: Seq<char>) -> UiModel {
        UiModel { visits: visits_with(self.visits, (cluster, label)), ..self }
    }

    /// The kind that was opened last on a cluster.
    pub open spec fn last_kind(self, cluster: Seq<char>) -> Option<Seq<char>> {
        if self.visits_to(cluster).len() > 0 {
            Some(self.visits_to(cluster)[0])
        } else {
            None
        }
    }

    /// Whether a section is open: what somebody decided, or else its default.
    pub open spec fn is_open(self, heading: Seq<char>, by_default: bool) -> bool {
        match lookup(self.sections, heading) {
            Some(open) => open,
            None => by_default,
        }
    }

    /// With a section opened or closed.
    pub open spec fn with_section(self, heading: Seq<char>, open: bool) -> UiModel {
        UiModel { sections: put::<String, bool>(self.sections, heading, open), ..self }
    }
}

/// What the sidebar looked like: which sections were open, and which kinds
/// were looked at on which cluster.
#[derive(Clone, Debug, PartialEq, Eq)]
pub struct UiState {
    sections: OrdMap<String, bool>,
    visits: Vec<(String, String)>,
}

impl View for UiState {
    type V = UiModel;

    closed spec fn view(&self) -> UiModel {
        UiModel { sections: self.sections@, visits: self.visits.deep_view() }
    }
}

impl UiState {
    /// Whether the headings are in order, and no more visits are remembered
    /// than are kept.
    pub closed spec fn wf(&self) -> bool {
        self.sections.wf() && self.visits.len() <= VISITS_KEPT
    }

    /// What is well-formed is in order and bounded.
    pub proof fn wf_model(&self)
        requires
            self.wf(),
        ensures
            ascending::<String, bool>(self@.sections),
            self@.visits.len() <= VISITS_KEPT,
    {
    }

    /// Nothing remembered.
    pub fn new() -> (state: Self)
        ensures
            state.wf(),
            state@ == UiModel::blank(),
    {
        let state: UiState = UiState { sections: OrdMap::new(), visits: Vec::new() };
        assert(state@.visits =~= seq![]);
        state
    }

    /// What was written down: the visits, latest first. The sections follow by
    /// [`UiState::set_section`].
    pub fn of_visits(visits: Vec<(String, String)>) -> (state: Self)
        ensures
            state.wf(),
            state@ == (UiModel { sections: seq![], visits: kept_visits(visits.deep_view()) }),
    {
        let ghost all = visits.deep_view();
        let mut kept: Vec<(String, String)> = visits;
        if kept.len() > VISITS_KEPT {
            kept.truncate(VISITS_KEPT);
        }
        let state: UiState = UiState { sections: OrdMap::new(), visits: kept };
        assert(state@.visits =~= kept_visits(all));
        state
    }

    /// What is to be written down: the sections somebody opened or closed.
    pub fn sections(&self) -> (sections: &OrdMap<String, bool>)
        requires
            self.wf(),
        ensures
            sections@ == self@.sections,
            sections.wf(),
    {
        &self.sections
    }

    /// What is to be written down: the visits, latest first.
    pub fn visits(&self) -> (visits: &Vec<(String, String)>)
        ensures
            visits.deep_view() == self@.visits,
    {
        &self.visits
    }

    /// Whether somebody opened or closed a section, and which of the two.
    pub fn section(&self, heading: &String) -> (open: Option<bool>)
        requires
            self.wf(),
        ensures
            open == lookup(self@.sections, heading@),
    {
        match self.sections.get(heading) {
            Some(open) => Some(*open),
            None => None,
        }
    }

    /// Remembers a section as open or closed.
    pub fn set_section(&mut self, heading: String, open: bool)
        requires
            old(self).wf(),
        ensures
            final(self).wf(),
            final(self)@ == old(self)@.with_section(heading@, open),
    {
        self.sections.put(heading, open);
    }

    /// The kinds that were opened on a cluster, latest first.
    pub fn recent_kinds(&self, cluster: &String) -> (labels: Vec<String>)
        ensures
            labels.deep_view() == self@.visits_to(cluster@),
    {
        let ghost all = self.visits.deep_view();
        let ghost wanted = visit_to(cluster@);
        let mut labels: Vec<String> = Vec::new();
        let mut at: usize = 0;
        proof {
            assert(all.take(0) =~= seq![]);
            assert(labels.deep_view() =~= all.take(0).filter(wanted).map_values(visited_kind())) by {
                reveal(Seq::filter);
            }
        }
        while at < self.visits.len()
            invariant
                at <= self.visits.len(),
                all == self.visits.deep_view(),
                wanted == visit_to(cluster@),
                labels.deep_view() == all.take(at as int).filter(wanted).map_values(visited_kind()),
            decreases self.visits.len() - at,
        {
            let ghost so_far = labels.deep_view();
            let ghost kept = all.take(at as int).filter(wanted);
            proof {
                filter_push(all.take(at as int), all[at as int], wanted);
                assert(all.take(at + 1) =~= all.take(at as int).push(all[at as int]));
                assert(kept.push(all[at as int]).map_values(visited_kind()) =~= so_far.push((all[at as int]).1));
            }
            if self.visits[at].0.same(cluster) {
                labels.push(self.visits[at].1.clone());
                assert(labels.deep_view() =~= so_far.push((all[at as int]).1));
            }
            at += 1;
        }
        assert(all.take(at as int) =~= all);
        labels
    }

    /// The kind that was opened last on a cluster.
    pub fn last_kind(&self, cluster: &String) -> (label: Option<String>)
        ensures
            label.deep_view() == self@.last_kind(cluster@),
    {
        let labels: Vec<String> = self.recent_kinds(cluster);
        if labels.len() > 0 {
            Some(labels[0].clone())
        } else {
            None
        }
    }

    /// Remembers that a kind was opened on a cluster.
    pub fn visited(&mut self, cluster: String, label: String)
        requires
            old(self).wf(),
        ensures
            final(self).wf(),
            final(self)@ == old(self)@.visited(cluster@, label@),
    {
        let ghost all = self.visits.deep_view();
        let ghost visit = (cluster@, label@);
        let ghost keep = other_visit(visit);
        let mut visits: Vec<(String, String)> = Vec::new();
        visits.push((cluster.clone(), label.clone()));
        let mut at: usize = 0;
        assert(all.take(0) =~= seq![]);
        assert(visits.deep_view() =~= seq![visit] + all.take(0).filter(keep)) by {
            reveal(Seq::filter);
        }
        while at < self.visits.len()
            invariant
                at <= self.visits.len() <= VISITS_KEPT,
                all == self.visits.deep_view(),
                visit == (cluster@, label@),
                keep == other_visit(visit),
                visits.deep_view() == seq![visit] + all.take(at as int).filter(keep),
            decreases self.visits.len() - at,
        {
            let ghost so_far = visits.deep_view();
            proof {
                filter_push(all.take(at as int), all[at as int], keep);
                assert(all.take(at + 1) =~= all.take(at as int).push(all[at as int]));
            }
            let (other, kind) = (&self.visits[at].0, &self.visits[at].1);
            assert(all[at as int] == (other@, kind@));
            if !(other.same(&cluster) && kind.same(&label)) {
                visits.push((other.clone(), kind.clone()));
                assert(visits.deep_view() =~= so_far.push(all[at as int]));
                assert(seq![visit] + all.take(at as int).filter(keep).push(all[at as int]) =~= so_far.push(
                    all[at as int],
                ));
            }
            at += 1;
        }
        assert(all.take(at as int) =~= all);
        let ghost every = visits.deep_view();
        if visits.len() > VISITS_KEPT {
            visits.truncate(VISITS_KEPT);
        }
        assert(visits.deep_view() =~= kept_visits(every));
        self.visits = visits;
    }
}

/// No more visits are remembered than are kept, the one made last comes first,
/// and no visit is remembered twice if none was before.
pub proof fn the_latest_visit_comes_first(state: UiState, cluster: Seq<char>, label: Seq<char>)
    requires
        state.wf(),
    ensures
        state@.visited(cluster, label).visits.len() <= VISITS_KEPT,
        state@.visited(cluster, label).last_kind(cluster) == Some(label),
        forall|i: int|
            0 < i < state@.visited(cluster, label).visits.len() ==> (#[trigger] state@.visited(
                cluster,
                label,
            ).visits[i]) != (cluster, label),
{
    let visit = (cluster, label);
    let kept = state@.visits.filter(other_visit(visit));
    let after = state@.visited(cluster, label);
    assert(after.visits[0] == visit);
    filter_first(after.visits, visit_to(cluster), 0);
    assert forall|i: int| 0 < i < after.visits.len() implies (#[trigger] after.visits[i]) != visit by {
        assert(after.visits[i] == kept[i - 1]);
        assert(kept.contains(kept[i - 1]));
        filter_contains(state@.visits, other_visit(visit), kept[i - 1]);
    }
}

/// Opening a kind on one cluster changes what is remembered of another only in
/// that its oldest visits make room: while there is room, nothing changes.
pub proof fn visits_belong_to_their_cluster(
    state: UiState,
    cluster: Seq<char>,
    label: Seq<char>,
    other: Seq<char>,
)
    requires
        state.wf(),
        other != cluster,
    ensures
        ({
            let (before, after) = (state@.visits_to(other), state@.visited(cluster, label).visits_to(other));
            &&& after.len() <= before.len()
            &&& after == before.take(after.len() as int)
            &&& state@.visits.len() < VISITS_KEPT ==> after == before
        }),
{
    let visit = (cluster, label);
    let (keep, wanted) = (other_visit(visit), visit_to(other));
    let visits = state@.visits;
    let front = seq![visit];
    let every = front + visits.filter(keep);
    Seq::filter_distributes_over_add(front, visits.filter(keep), wanted);
    crate::seqs::filter_prefix(front, wanted, 0);
    assert(front.take(0) =~= Seq::empty());
    crate::seqs::filter_twice(visits, keep, wanted, wanted);
    assert(every.filter(wanted) =~= visits.filter(wanted));
    let kept = kept_visits(every);
    let rest = every.skip(kept.len() as int);
    assert(kept + rest =~= every);
    Seq::filter_distributes_over_add(kept, rest, wanted);
    let (before, after) = (state@.visits_to(other), state@.visited(cluster, label).visits_to(other));
    assert(kept.filter(wanted) =~= every.filter(wanted).take(kept.filter(wanted).len() as int));
    assert(after =~= before.take(after.len() as int));
    crate::seqs::filter_no_longer(visits, keep);
    if visits.len() < VISITS_KEPT {
        assert(kept == every);
    }
}

/// A section stays the way somebody left it, and no other section with it.
pub proof fn sections_stay_as_they_were_left(
    state: UiState,
    heading: Seq<char>,
    open: bool,
    other: Seq<char>,
    by_default: bool,
)
    requires
        state.wf(),
    ensures
        state@.with_section(heading, open).is_open(heading, by_default) == open,
        other != heading ==> state@.with_section(heading, open).is_open(other, by_default) == state@.is_open(
            other,
            by_default,
        ),
{
    state.wf_model();
    lookup_after_put::<String, bool>(state@.sections, heading, open, heading);
    lookup_after_put::<String, bool>(state@.sections, heading, open, other);
}

/// A section nobody touched is as it starts out.
pub proof fn an_untouched_section_is_as_it_starts(state: UiModel, heading: Seq<char>, by_default: bool)
    requires
        lookup(state.sections, heading) is None,
    ensures
        state.is_open(heading, by_default) == by_default,
{
}

/// The kinds opened on a cluster are those that were opened on it, latest first.
pub proof fn visits_are_latest_first(state: UiModel, cluster: Seq<char>, first: Seq<char>, second: Seq<char>)
    requires
        first != second,
    ensures
        ({
            let after = state.visited(cluster, first).visited(cluster, second);
            after.visits_to(cluster).len() >= 2 && after.visits_to(cluster)[0] == second && after.visits_to(cluster)[1]
                == first
        }),
{
    let once = state.visited(cluster, first);
    let after = once.visited(cluster, second);
    let (a, b) = ((cluster, first), (cluster, second));
    let keep = other_visit(b);
    assert(once.visits[0] == a);
    filter_first(once.visits, keep, 0);
    let kept = once.visits.filter(keep);
    assert(after.visits[0] == b);
    assert(after.visits[1] == kept[0]);
    let wanted = visit_to(cluster);
    let (head, tail) = (after.visits.take(2), after.visits.skip(2));
    assert(head + tail =~= after.visits);
    Seq::filter_distributes_over_add(head, tail, wanted);
    assert forall|i: int| 0 <= i < head.len() implies wanted(#[trigger] head[i]) by {
        assert(head[i] == after.visits[i]);
    }
    crate::seqs::filter_all(head, wanted);
    let all = after.visits.filter(wanted);
    assert(all[0] == head[0] && all[1] == head[1]);
}

} // verus!
