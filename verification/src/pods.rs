//! The pods of a cluster, in table order.

use crate::keyed::{collected, cut, is_key, lookup, put, values, OrdMap};
use crate::objects::{pod_ready, KeyModel, PodModel, PodSnapshot, ResourceKey};
use crate::seqs::{count, filter_push};
use crate::value::Value;
use std::sync::Arc;
use vstd::prelude::*;

verus! {

/// Every pod known, by namespace and name.
#[derive(Clone, Debug)]
pub struct PodTable {
    pods: OrdMap<ResourceKey, Arc<PodSnapshot>>,
}

impl View for PodTable {
    type V = Seq<(KeyModel, PodModel)>;

    closed spec fn view(&self) -> Seq<(KeyModel, PodModel)> {
        self.pods@
    }
}

/// Pods under their own keys.
pub open spec fn keyed_pods(pods: Seq<PodModel>) -> Seq<(KeyModel, PodModel)> {
    pods.map_values(|pod: PodModel| (pod.key, pod))
}

/// Picks the pods whose containers are all ready.
pub open spec fn ready_pods() -> spec_fn(PodModel) -> bool {
    |pod: PodModel| pod_ready(pod)
}

impl Default for PodTable {
    fn default() -> (table: Self)
        ensures
            table.wf(),
            table@ == Seq::<(KeyModel, PodModel)>::empty(),
    {
        PodTable::new()
    }
}

impl PodTable {
    /// Whether the pods are in the order of their keys, each key once.
    pub closed spec fn wf(&self) -> bool {
        self.pods.wf()
    }

    /// An empty table.
    pub fn new() -> (table: Self)
        ensures
            table.wf(),
            table@ == Seq::<(KeyModel, PodModel)>::empty(),
    {
        PodTable { pods: OrdMap::new() }
    }

    /// Replaces every pod, reporting whether anything changed.
    pub fn reset(&mut self, pods: &Vec<PodSnapshot>) -> (changed: bool)
        requires
            old(self).wf(),
        ensures
            final(self).wf(),
            final(self)@ == collected::<ResourceKey, PodModel>(keyed_pods(pods.deep_view())),
            changed == (final(self)@ != old(self)@),
    {
        let ghost all = keyed_pods(pods.deep_view());
        let mut replacement: OrdMap<ResourceKey, Arc<PodSnapshot>> = OrdMap::new();
        let mut at: usize = 0;
        while at < pods.len()
            invariant
                at <= pods.len(),
                all == keyed_pods(pods.deep_view()),
                replacement.wf(),
                replacement@ == collected::<ResourceKey, PodModel>(all.take(at as int)),
            decreases pods.len() - at,
        {
            let pod: &PodSnapshot = &pods[at];
            replacement.put(pod.key.dup(), Arc::new(pod.dup()));
            at += 1;
            assert(all.take(at as int).drop_last() =~= all.take(at - 1));
            assert(all.take(at as int).last() == all[at - 1]);
        }
        assert(all.take(at as int) =~= all);
        if replacement.same(&self.pods) {
            return false;
        }
        self.pods = replacement;
        true
    }

    /// Adds or updates a pod, reporting whether it differed from what was held.
    pub fn apply(&mut self, pod: Arc<PodSnapshot>) -> (changed: bool)
        requires
            old(self).wf(),
        ensures
            final(self).wf(),
            changed == (lookup(old(self)@, pod.deep_view().key) != Some(pod.deep_view())),
            final(self)@ == (if changed {
                put::<ResourceKey, PodModel>(old(self)@, pod.deep_view().key, pod.deep_view())
            } else {
                old(self)@
            }),
    {
        if let Some(held) = self.pods.get(&pod.key) {
            if held.same(&pod) {
                return false;
            }
        }
        self.pods.put(pod.key.dup(), pod);
        true
    }

    /// Removes a pod, reporting whether it was there.
    pub fn remove(&mut self, key: &ResourceKey) -> (held: bool)
        requires
            old(self).wf(),
        ensures
            final(self).wf(),
            held == is_key(old(self)@, key.deep_view()),
            final(self)@ == cut(old(self)@, key.deep_view()),
    {
        self.pods.take(key).is_some()
    }

    /// The pods in table order: namespace, then name.
    pub fn rows(&self) -> (rows: Vec<Arc<PodSnapshot>>)
        ensures
            rows.deep_view() == values(self@),
    {
        let mut rows: Vec<Arc<PodSnapshot>> = Vec::new();
        let mut at: usize = 0;
        while at < self.pods.len()
            invariant
                at <= self@.len(),
                rows.deep_view() == values(self@).take(at as int),
            decreases self@.len() - at,
        {
            let ghost before = rows.deep_view();
            rows.push(Arc::clone(self.pods.value_at(at)));
            at += 1;
            assert(rows.deep_view() =~= before.push(values(self@)[at - 1]));
            assert(values(self@).take(at as int) =~= before.push(values(self@)[at - 1]));
        }
        assert(values(self@).take(at as int) =~= values(self@));
        rows
    }

    /// The pods in table order, where they are held.
    pub fn iter(&self) -> (rows: Vec<&Arc<PodSnapshot>>)
        ensures
            rows.deep_view() == values(self@),
    {
        let mut rows: Vec<&Arc<PodSnapshot>> = Vec::new();
        let mut at: usize = 0;
        while at < self.pods.len()
            invariant
                at <= self@.len(),
                rows.deep_view() == values(self@).take(at as int),
            decreases self@.len() - at,
        {
            let ghost before = rows.deep_view();
            rows.push(self.pods.value_at(at));
            at += 1;
            assert(rows.deep_view() =~= before.push(values(self@)[at - 1]));
            assert(values(self@).take(at as int) =~= before.push(values(self@)[at - 1]));
        }
        assert(values(self@).take(at as int) =~= values(self@));
        rows
    }

    /// How many pods are held.
    pub fn len(&self) -> (len: usize)
        ensures
            len == self@.len(),
    {
        self.pods.len()
    }

    /// Whether no pod is held.
    pub fn is_empty(&self) -> (empty: bool)
        ensures
            empty == (self@.len() == 0),
    {
        self.pods.len() == 0
    }

    /// How many pods have every container ready.
    pub fn ready(&self) -> (ready: usize)
        ensures
            ready == count(values(self@), ready_pods()),
    {
        let mut ready: usize = 0;
        let mut at: usize = 0;
        assert(values(self@).take(0) =~= Seq::empty());
        assert(Seq::<PodModel>::empty().filter(ready_pods()) =~= Seq::empty()) by {
            reveal(Seq::filter);
        }
        while at < self.pods.len()
            invariant
                at <= self@.len(),
                ready <= at,
                ready == count(values(self@).take(at as int), ready_pods()),
            decreases self@.len() - at,
        {
            let ghost before = values(self@).take(at as int);
            let ghost pod = values(self@)[at as int];
            proof {
                filter_push(before, pod, ready_pods());
            }
            if self.pods.value_at(at).is_ready() {
                ready += 1;
            }
            at += 1;
            assert(values(self@).take(at as int) =~= before.push(pod));
        }
        assert(values(self@).take(at as int) =~= values(self@));
        ready
    }
}

/// A pod counts as ready where it has containers and none of them is not ready.
pub proof fn ready_pods_have_all_their_containers(pods: Seq<PodModel>, pod: PodModel)
    ensures
        pods.filter(ready_pods()).contains(pod) <==> pods.contains(pod) && pod.containers > 0 && pod.ready
            >= pod.containers,
{
    crate::seqs::filter_contains(pods, ready_pods(), pod);
}

} // verus!
