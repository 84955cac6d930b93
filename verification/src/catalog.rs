//! The kinds of a cluster, in sections somebody can find their way in.

use crate::keyed::{is_key, lookup, lookup_after_put, lookup_at, put_after_cut, Key, OrdMap};
use crate::objects::{kind_label, KindId, KindInfo, KindInfoModel, KindModel};
use crate::seqs::filter_push;
use crate::sorting::{sort, sorted, sorting_keeps_items, Precedence};
use crate::text::{is_text, is_text_before, text_before, to_uppercase, uppercase};
use crate::value::Value;
use vstd::prelude::*;

verus! {

/// The section of the sidebar a kind is listed in.
#[derive(Clone, Debug, PartialEq, Eq)]
pub enum Category {
    /// What runs.
    Workloads,
    /// What connects it.
    Networking,
    /// What configures it.
    Configuration,
    /// Where it keeps things.
    Storage,
    /// Who may do what.
    AccessControl,
    /// What the cluster itself is made of.
    Cluster,
    /// What a custom resource definition of a group declares.
    Custom(String),
    /// Everything else.
    Other,
}

/// What a [`Category`] holds.
pub enum CategoryModel {
    /// What runs.
    Workloads,
    /// What connects it.
    Networking,
    /// What configures it.
    Configuration,
    /// Where it keeps things.
    Storage,
    /// Who may do what.
    AccessControl,
    /// What the cluster itself is made of.
    Cluster,
    /// What a custom resource definition of a group declares.
    Custom(Seq<char>),
    /// Everything else.
    Other,
}

impl DeepView for Category {
    type V = CategoryModel;

    open spec fn deep_view(&self) -> CategoryModel {
        match self {
            Category::Workloads => CategoryModel::Workloads,
            Category::Networking => CategoryModel::Networking,
            Category::Configuration => CategoryModel::Configuration,
            Category::Storage => CategoryModel::Storage,
            Category::AccessControl => CategoryModel::AccessControl,
            Category::Cluster => CategoryModel::Cluster,
            Category::Custom(held) => CategoryModel::Custom(held.deep_view()),
            Category::Other => CategoryModel::Other,
        }
    }
}

impl Value for Category {
    fn dup(&self) -> (copy: Self) {
        match self {
            Category::Workloads => Category::Workloads,
            Category::Networking => Category::Networking,
            Category::Configuration => Category::Configuration,
            Category::Storage => Category::Storage,
            Category::AccessControl => Category::AccessControl,
            Category::Cluster => Category::Cluster,
            Category::Custom(held) => Category::Custom(held.dup()),
            Category::Other => Category::Other,
        }
    }

    fn same(&self, other: &Self) -> (equal: bool) {
        match (self, other) {
            (Category::Workloads, Category::Workloads) => true,
            (Category::Networking, Category::Networking) => true,
            (Category::Configuration, Category::Configuration) => true,
            (Category::Storage, Category::Storage) => true,
            (Category::AccessControl, Category::AccessControl) => true,
            (Category::Cluster, Category::Cluster) => true,
            (Category::Custom(held), Category::Custom(held_too)) => held.same(held_too),
            (Category::Other, Category::Other) => true,
            _ => false,
        }
    }
}

/// The heading of a section.
pub open spec fn category_title(category: CategoryModel) -> Seq<char> {
    match category {
        CategoryModel::Workloads => "WORKLOADS"@,
        CategoryModel::Networking => "NETWORKING"@,
        CategoryModel::Configuration => "CONFIGURATION"@,
        CategoryModel::Storage => "STORAGE"@,
        CategoryModel::AccessControl => "ACCESS CONTROL"@,
        CategoryModel::Cluster => "CLUSTER"@,
        CategoryModel::Custom(group) => uppercase(group),
        CategoryModel::Other => "OTHER"@,
    }
}

/// Where a section stands: the built-in ones in a fixed order, then the custom
/// groups by name, and the rest last.
pub open spec fn category_rank(category: CategoryModel) -> (u64, Seq<char>) {
    match category {
        CategoryModel::Workloads => (0, ""@),
        CategoryModel::Networking => (1, ""@),
        CategoryModel::Configuration => (2, ""@),
        CategoryModel::Storage => (3, ""@),
        CategoryModel::AccessControl => (4, ""@),
        CategoryModel::Cluster => (5, ""@),
        CategoryModel::Custom(group) => (6, group),
        CategoryModel::Other => (7, ""@),
    }
}

/// The section of a built-in kind: its group decides, and within the core
/// group its name.
pub open spec fn built_in_category(kind: KindModel) -> CategoryModel {
    let group = kind.group;
    let plural = kind.plural;
    if group == "apps"@ || group == "batch"@ || group == "autoscaling"@ {
        CategoryModel::Workloads
    } else if group == "networking.k8s.io"@ || group == "discovery.k8s.io"@ || group
        == "gateway.networking.k8s.io"@ {
        CategoryModel::Networking
    } else if group == "storage.k8s.io"@ {
        CategoryModel::Storage
    } else if group == "rbac.authorization.k8s.io"@ {
        CategoryModel::AccessControl
    } else if group == "policy"@ {
        CategoryModel::Configuration
    } else if group == "apiextensions.k8s.io"@ || group == "apiregistration.k8s.io"@ || group
        == "certificates.k8s.io"@ || group == "coordination.k8s.io"@ || group == "node.k8s.io"@ || group
        == "scheduling.k8s.io"@ {
        CategoryModel::Cluster
    } else if group.len() > 0 {
        CategoryModel::Other
    } else if plural == "pods"@ || plural == "replicationcontrollers"@ || plural == "podtemplates"@ {
        CategoryModel::Workloads
    } else if plural == "services"@ || plural == "endpoints"@ {
        CategoryModel::Networking
    } else if plural == "configmaps"@ || plural == "secrets"@ || plural == "resourcequotas"@ || plural
        == "limitranges"@ {
        CategoryModel::Configuration
    } else if plural == "persistentvolumeclaims"@ || plural == "persistentvolumes"@ {
        CategoryModel::Storage
    } else if plural == "serviceaccounts"@ {
        CategoryModel::AccessControl
    } else if plural == "nodes"@ || plural == "namespaces"@ || plural == "events"@ || plural
        == "componentstatuses"@ {
        CategoryModel::Cluster
    } else {
        CategoryModel::Other
    }
}

/// The section of a kind: its own group's, if it is custom.
pub open spec fn category_of(info: KindInfoModel) -> CategoryModel {
    if info.custom {
        CategoryModel::Custom(info.id.group)
    } else {
        built_in_category(info.id)
    }
}

/// No two sections stand in the same place.
pub proof fn ranks_are_distinct(a: CategoryModel, b: CategoryModel)
    requires
        category_rank(a) == category_rank(b),
    ensures
        a == b,
{
}

impl Category {
    /// The heading of the section.
    pub fn title(&self) -> (title: String)
        ensures
            title@ == category_title(self.deep_view()),
    {
        match self {
            Category::Workloads => "WORKLOADS".to_owned(),
            Category::Networking => "NETWORKING".to_owned(),
            Category::Configuration => "CONFIGURATION".to_owned(),
            Category::Storage => "STORAGE".to_owned(),
            Category::AccessControl => "ACCESS CONTROL".to_owned(),
            Category::Cluster => "CLUSTER".to_owned(),
            Category::Custom(group) => to_uppercase(group.as_str()),
            Category::Other => "OTHER".to_owned(),
        }
    }

    /// Where the section stands among the others.
    pub fn rank(&self) -> (rank: (u8, &str))
        ensures
            (rank.0 as u64, rank.1@) == category_rank(self.deep_view()),
    {
        match self {
            Category::Workloads => (0, ""),
            Category::Networking => (1, ""),
            Category::Configuration => (2, ""),
            Category::Storage => (3, ""),
            Category::AccessControl => (4, ""),
            Category::Cluster => (5, ""),
            Category::Custom(group) => (6, group.as_str()),
            Category::Other => (7, ""),
        }
    }

    /// Whether the section is open until somebody decides otherwise.
    pub fn open_by_default(&self) -> (open: bool)
        ensures
            open == (self.deep_view() == CategoryModel::Workloads),
    {
        match self {
            Category::Workloads => true,
            _ => false,
        }
    }

    /// The section a kind is listed in.
    pub fn of(info: &KindInfo) -> (category: Self)
        ensures
            category.deep_view() == category_of(info.deep_view()),
    {
        if info.custom {
            return Category::Custom(info.id.group.clone());
        }
        Self::of_id(&info.id)
    }

    /// The section a built-in kind is listed in.
    pub fn of_id(id: &KindId) -> (category: Self)
        ensures
            category.deep_view() == built_in_category(id.deep_view()),
    {
        let group: &str = id.group.as_str();
        let plural: &str = id.plural.as_str();
        if is_text(group, "apps") || is_text(group, "batch") || is_text(group, "autoscaling") {
            return Category::Workloads;
        }
        if is_text(group, "networking.k8s.io") || is_text(group, "discovery.k8s.io") || is_text(
            group,
            "gateway.networking.k8s.io",
        ) {
            return Category::Networking;
        }
        if is_text(group, "storage.k8s.io") {
            return Category::Storage;
        }
        if is_text(group, "rbac.authorization.k8s.io") {
            return Category::AccessControl;
        }
        if is_text(group, "policy") {
            return Category::Configuration;
        }
        if is_text(group, "apiextensions.k8s.io") || is_text(group, "apiregistration.k8s.io") || is_text(
            group,
            "certificates.k8s.io",
        ) || is_text(group, "coordination.k8s.io") || is_text(group, "node.k8s.io") || is_text(
            group,
            "scheduling.k8s.io",
        ) {
            return Category::Cluster;
        }
        if !id.is_core() {
            return Category::Other;
        }
        if is_text(plural, "pods") || is_text(plural, "replicationcontrollers") || is_text(
            plural,
            "podtemplates",
        ) {
            Category::Workloads
        } else if is_text(plural, "services") || is_text(plural, "endpoints") {
            Category::Networking
        } else if is_text(plural, "configmaps") || is_text(plural, "secrets") || is_text(
            plural,
            "resourcequotas",
        ) || is_text(plural, "limitranges") {
            Category::Configuration
        } else if is_text(plural, "persistentvolumeclaims") || is_text(plural, "persistentvolumes") {
            Category::Storage
        } else if is_text(plural, "serviceaccounts") {
            Category::AccessControl
        } else if is_text(plural, "nodes") || is_text(plural, "namespaces") || is_text(plural, "events")
            || is_text(plural, "componentstatuses") {
            Category::Cluster
        } else {
            Category::Other
        }
    }
}

/// Picks the kinds of a section: those that can be listed at all.
pub open spec fn in_section(category: CategoryModel) -> spec_fn(KindInfoModel) -> bool {
    |info: KindInfoModel| info.watchable && category_of(info) == category
}

/// Kinds by their labels.
pub open spec fn by_label() -> spec_fn(KindInfoModel, KindInfoModel) -> bool {
    |a: KindInfoModel, b: KindInfoModel| text_before(kind_label(a.id), kind_label(b.id))
}

/// The kinds of a section, by their labels.
pub open spec fn section_kinds(kinds: Seq<KindInfoModel>, category: CategoryModel) -> Seq<KindInfoModel> {
    sorted(kinds.filter(in_section(category)), by_label())
}

/// Whether a list of sections is what a list of kinds falls into: the sections
/// in their order, each with all of its kinds, none of them empty, and every
/// kind that can be listed in the section of its own.
pub open spec fn is_sections(kinds: Seq<KindInfoModel>, found: Seq<(CategoryModel, Seq<KindInfoModel>)>) -> bool {
    &&& forall|i: int, j: int|
        0 <= i < j < found.len() ==> <(u64, String) as Key>::below(
            category_rank((#[trigger] found[i]).0),
            category_rank((#[trigger] found[j]).0),
        )
    &&& forall|i: int|
        0 <= i < found.len() ==> (#[trigger] found[i]).1 == section_kinds(kinds, found[i].0)
            && found[i].1.len() > 0
    &&& forall|k: int|
        0 <= k < kinds.len() && (#[trigger] kinds[k]).watchable ==> exists|i: int|
            0 <= i < found.len() && (#[trigger] found[i]).0 == category_of(kinds[k])
}

/// Whether what is grouped under a key so far, if anything is, is the section
/// of that key with all of its kinds.
spec fn is_group(
    group: Option<(CategoryModel, Seq<KindInfoModel>)>,
    key: (u64, Seq<char>),
    kinds: Seq<KindInfoModel>,
) -> bool {
    match group {
        Some(group) => {
            &&& category_rank(group.0) == key
            &&& group.1 == kinds.filter(in_section(group.0))
            &&& group.1.len() > 0
        },
        None => true,
    }
}

struct ByLabel;

impl Precedence<KindInfo> for ByLabel {
    open spec fn rel(&self) -> spec_fn(KindInfoModel, KindInfoModel) -> bool {
        by_label()
    }

    fn before(&self, left: &KindInfo, right: &KindInfo) -> (first: bool) {
        is_text_before(left.sort_key().as_str(), right.sort_key().as_str())
    }
}

/// The kinds that can be listed, in sections.
pub fn sections(kinds: &Vec<KindInfo>) -> (found: Vec<(Category, Vec<KindInfo>)>)
    ensures
        is_sections(kinds.deep_view(), found.deep_view()),
{
    let ghost all = kinds.deep_view();
    let mut grouped: OrdMap<(u64, String), (Category, Vec<KindInfo>)> = OrdMap::new();
    let mut at: usize = 0;
    assert(all.take(0) =~= Seq::empty());
    proof {
        assert forall|c: CategoryModel| #![trigger category_rank(c)] all.take(0).filter(in_section(c)).len() == 0 by {
            reveal(Seq::filter);
        }
    }
    while at < kinds.len()
        invariant
            at <= kinds.len(),
            all == kinds.deep_view(),
            grouped.wf(),
            forall|key: (u64, Seq<char>)|
                is_group(#[trigger] lookup(grouped@, key), key, all.take(at as int)),
            forall|c: CategoryModel| #![trigger category_rank(c)]
                all.take(at as int).filter(in_section(c)).len() > 0 ==> is_key(grouped@, category_rank(c)),
        decreases kinds.len() - at,
    {
        let ghost before = all.take(at as int);
        let ghost info = all[at as int];
        let ghost held = grouped@;
        assert(all.take(at + 1) =~= before.push(info));
        proof {
            assert forall|c: CategoryModel| #![trigger category_rank(c)] all.take(at + 1).filter(in_section(c))
                == (if info.watchable && category_of(info) == c {
                before.filter(in_section(c)).push(info)
            } else {
                before.filter(in_section(c))
            }) by {
                filter_push(before, info, in_section(c));
            }
        }
        if kinds[at].watchable {
            let category: Category = Category::of(&kinds[at]);
            let (rank, name) = category.rank();
            let key: (u64, String) = (rank as u64, name.to_owned());
            let ghost k = key.deep_view();
            let ghost c = category.deep_view();
            let mut group: Vec<KindInfo> = match grouped.take(&key) {
                Some((_, group)) => group,
                None => Vec::new(),
            };
            let ghost group_before = group.deep_view();
            proof {
                match lookup(held, k) {
                    Some(old_group) => {
                        ranks_are_distinct(old_group.0, c);
                    },
                    None => {
                        assert(before.filter(in_section(c)).len() == 0);
                        assert(group_before =~= before.filter(in_section(c)));
                    },
                }
            }
            group.push(kinds[at].dup());
            proof {
                assert(group.deep_view() =~= group_before.push(info));
                put_after_cut::<(u64, String), (CategoryModel, Seq<KindInfoModel>)>(
                    held,
                    k,
                    (c, group.deep_view()),
                );
                assert forall|key: (u64, Seq<char>)| is_group(
                    #[trigger] lookup(
                        crate::keyed::put::<(u64, String), (CategoryModel, Seq<KindInfoModel>)>(
                            held,
                            k,
                            (c, group.deep_view()),
                        ),
                        key,
                    ),
                    key,
                    all.take(at + 1),
                ) by {
                    lookup_after_put::<(u64, String), (CategoryModel, Seq<KindInfoModel>)>(
                        held,
                        k,
                        (c, group.deep_view()),
                        key,
                    );
                    assert(category_rank(c) == k);
                    assert(is_group(lookup(held, key), key, before));
                    if key != k && lookup(held, key) is Some {
                        let found = lookup(held, key)->0;
                        assert(category_rank(found.0) == key);
                    }
                }
                assert forall|d: CategoryModel| #![trigger category_rank(d)] all.take(at + 1).filter(in_section(d)).len()
                    > 0 implies is_key(
                    crate::keyed::put::<(u64, String), (CategoryModel, Seq<KindInfoModel>)>(
                        held,
                        k,
                        (c, group.deep_view()),
                    ),
                    category_rank(d),
                ) by {
                    lookup_after_put::<(u64, String), (CategoryModel, Seq<KindInfoModel>)>(
                        held,
                        k,
                        (c, group.deep_view()),
                        category_rank(d),
                    );
                    if d != c {
                        assert(is_key(held, category_rank(d)));
                    }
                }
            }
            grouped.put(key, (category, group));
        } else {
            proof {
                assert forall|key: (u64, Seq<char>)| is_group(
                    #[trigger] lookup(grouped@, key),
                    key,
                    all.take(at + 1),
                ) by {
                    assert(is_group(lookup(grouped@, key), key, before));
                    if lookup(grouped@, key) is Some {
                        let found = lookup(grouped@, key)->0;
                        assert(category_rank(found.0) == key);
                    }
                }
            }
        }
        at += 1;
    }
    assert(all.take(at as int) =~= all);

    let mut found: Vec<(Category, Vec<KindInfo>)> = Vec::new();
    let mut next: usize = 0;
    while next < grouped.len()
        invariant
            next <= grouped@.len(),
            all == kinds.deep_view(),
            grouped.wf(),
            forall|key: (u64, Seq<char>)|
                is_group(#[trigger] lookup(grouped@, key), key, all),
            found.len() == next,
            forall|i: int|
                0 <= i < next ==> {
                    &&& (#[trigger] found.deep_view()[i]).0 == grouped@[i].1.0
                    &&& category_rank(found.deep_view()[i].0) == grouped@[i].0
                    &&& found.deep_view()[i].1 == section_kinds(all, found.deep_view()[i].0)
                    &&& found.deep_view()[i].1.len() > 0
                },
        decreases grouped@.len() - next,
    {
        let ghost before = found.deep_view();
        proof {
            lookup_at::<(u64, String), (CategoryModel, Seq<KindInfoModel>)>(grouped@, next as int);
            assert(lookup(grouped@, grouped@[next as int].0) is Some);
            sorting_keeps_items(all.filter(in_section(grouped@[next as int].1.0)), by_label());
        }
        let group: &(Category, Vec<KindInfo>) = grouped.value_at(next);
        let arranged: Vec<KindInfo> = sort(&group.1, &ByLabel);
        let section: (Category, Vec<KindInfo>) = (group.0.dup(), arranged);
        let ghost added = section.deep_view();
        found.push(section);
        assert(found.deep_view() =~= before.push(added));
        next += 1;
    }
    proof {
        assert forall|k: int| 0 <= k < all.len() && (#[trigger] all[k]).watchable implies exists|i: int|
            0 <= i < found.deep_view().len() && (#[trigger] found.deep_view()[i]).0 == category_of(all[k]) by {
            let c = category_of(all[k]);
            crate::seqs::filter_target(all, in_section(c), k);
            assert(all.filter(in_section(c)).len() > 0);
            assert(is_key(grouped@, category_rank(c)));
            let i = choose|i: int| 0 <= i < grouped@.len() && (#[trigger] grouped@[i]).0 == category_rank(c);
            ranks_are_distinct(found.deep_view()[i].0, c);
        }
        assert forall|i: int, j: int| 0 <= i < j < found.deep_view().len() implies <(u64, String) as Key>::below(
            category_rank((#[trigger] found.deep_view()[i]).0),
            category_rank((#[trigger] found.deep_view()[j]).0),
        ) by {
            assert(<(u64, String) as Key>::below(grouped@[i].0, grouped@[j].0));
        }
    }
    found
}

/// Every kind that can be listed is in exactly one section, and a section
/// holds nothing else.
pub proof fn sections_hold_every_kind_once(
    kinds: Seq<KindInfoModel>,
    found: Seq<(CategoryModel, Seq<KindInfoModel>)>,
    i: int,
    info: KindInfoModel,
)
    requires
        is_sections(kinds, found),
        0 <= i < found.len(),
    ensures
        found[i].1.contains(info) <==> kinds.contains(info) && info.watchable && category_of(info) == found[i].0,
{
    let category = found[i].0;
    crate::sorting::sorting_keeps_membership(kinds.filter(in_section(category)), by_label(), info);
    crate::seqs::filter_contains(kinds, in_section(category), info);
}

// --- recently opened kinds ------------------------------------------------------

/// How many recently opened kinds are shown.
pub const RECENT_SHOWN: usize = 6;

/// Picks the kinds with a label that can be listed.
pub open spec fn labelled(label: Seq<char>) -> spec_fn(KindInfoModel) -> bool {
    |info: KindInfoModel| info.watchable && kind_label(info.id) == label
}

/// The first kind with a label that can be listed.
pub open spec fn kind_labelled(kinds: Seq<KindInfoModel>, label: Seq<char>) -> Option<KindInfoModel> {
    let found = kinds.filter(labelled(label));
    if found.len() > 0 {
        Some(found[0])
    } else {
        None
    }
}

/// The kinds that labels stand for, those without one left out.
pub open spec fn kinds_labelled(kinds: Seq<KindInfoModel>, labels: Seq<Seq<char>>) -> Seq<KindInfoModel>
    decreases labels.len(),
{
    if labels.len() == 0 {
        seq![]
    } else {
        let before = kinds_labelled(kinds, labels.drop_last());
        match kind_labelled(kinds, labels.last()) {
            Some(info) => before.push(info),
            None => before,
        }
    }
}

/// The first few of the kinds that labels stand for.
pub open spec fn recent_kinds(kinds: Seq<KindInfoModel>, labels: Seq<Seq<char>>) -> Seq<KindInfoModel> {
    let found = kinds_labelled(kinds, labels);
    if found.len() > RECENT_SHOWN {
        found.take(RECENT_SHOWN as int)
    } else {
        found
    }
}

/// The first kind with a label that can be listed.
pub fn find_kind<'a>(kinds: &'a Vec<KindInfo>, label: &str) -> (found: Option<&'a KindInfo>)
    ensures
        found.deep_view() == kind_labelled(kinds.deep_view(), label@),
{
    let ghost all = kinds.deep_view();
    let ghost wanted = labelled(label@);
    let mut at: usize = 0;
    while at < kinds.len()
        invariant
            at <= kinds.len(),
            all == kinds.deep_view(),
            wanted == labelled(label@),
            forall|i: int| 0 <= i < at ==> !wanted(#[trigger] all[i]),
        decreases kinds.len() - at,
    {
        let info: &KindInfo = &kinds[at];
        if info.watchable && is_text(info.id.label().as_str(), label) {
            proof {
                crate::seqs::filter_first(all, wanted, at as int);
            }
            return Some(info);
        }
        at += 1;
    }
    proof {
        crate::seqs::filter_prefix(all, wanted, 0);
        assert(all.take(0) =~= Seq::empty());
    }
    None
}

/// The kinds that were opened recently and are still served, most recent first.
pub fn recent(kinds: &Vec<KindInfo>, visited: &Vec<String>) -> (found: Vec<KindInfo>)
    ensures
        found.deep_view() == recent_kinds(kinds.deep_view(), visited.deep_view()),
        found.len() <= RECENT_SHOWN,
{
    let ghost all = kinds.deep_view();
    let ghost labels = visited.deep_view();
    let mut found: Vec<KindInfo> = Vec::new();
    let mut at: usize = 0;
    assert(found.deep_view() =~= kinds_labelled(all, labels.take(0)));
    while at < visited.len() && found.len() < RECENT_SHOWN
        invariant
            at <= visited.len(),
            all == kinds.deep_view(),
            labels == visited.deep_view(),
            found.deep_view() == kinds_labelled(all, labels.take(at as int)),
            found.len() <= RECENT_SHOWN,
        decreases visited.len() - at,
    {
        let ghost before = found.deep_view();
        assert(labels.take(at + 1).drop_last() =~= labels.take(at as int));
        assert(labels.take(at + 1).last() == labels[at as int]);
        if let Some(info) = find_kind(kinds, visited[at].as_str()) {
            found.push(info.dup());
            assert(found.deep_view() =~= before.push(info.deep_view()));
        }
        at += 1;
    }
    proof {
        labels_add_kinds(all, labels, at as int);
        assert(labels.take(labels.len() as int) =~= labels);
        assert(found.deep_view() =~= recent_kinds(all, labels));
    }
    found
}

proof fn labels_add_kinds(kinds: Seq<KindInfoModel>, labels: Seq<Seq<char>>, at: int)
    requires
        0 <= at <= labels.len(),
    ensures
        kinds_labelled(kinds, labels.take(at)).len() <= kinds_labelled(kinds, labels).len(),
        kinds_labelled(kinds, labels).take(kinds_labelled(kinds, labels.take(at)).len() as int)
            == kinds_labelled(kinds, labels.take(at)),
    decreases labels.len() - at,
{
    let some = kinds_labelled(kinds, labels.take(at));
    if at < labels.len() {
        let rest = labels.drop_last();
        labels_add_kinds(kinds, rest, at);
        assert(rest.take(at) =~= labels.take(at));
        let before = kinds_labelled(kinds, rest);
        let all = kinds_labelled(kinds, labels);
        assert(all.take(some.len() as int) =~= before.take(some.len() as int));
    } else {
        assert(labels.take(at) =~= labels);
        assert(some.take(some.len() as int) =~= some);
    }
}

/// What is offered as recent is short, and each of it is a kind that is served
/// and can be listed, under a label that was visited.
pub proof fn recents_are_served(kinds: Seq<KindInfoModel>, labels: Seq<Seq<char>>, i: int)
    requires
        0 <= i < recent_kinds(kinds, labels).len(),
    ensures
        recent_kinds(kinds, labels).len() <= RECENT_SHOWN,
        kinds.contains(recent_kinds(kinds, labels)[i]),
        recent_kinds(kinds, labels)[i].watchable,
        labels.contains(kind_label(recent_kinds(kinds, labels)[i].id)),
{
    labelled_kinds_are_served(kinds, labels, i);
}

proof fn labelled_kinds_are_served(kinds: Seq<KindInfoModel>, labels: Seq<Seq<char>>, i: int)
    requires
        0 <= i < kinds_labelled(kinds, labels).len(),
    ensures
        kinds.contains(kinds_labelled(kinds, labels)[i]),
        kinds_labelled(kinds, labels)[i].watchable,
        labels.contains(kind_label(kinds_labelled(kinds, labels)[i].id)),
    decreases labels.len(),
{
    let (rest, last) = (labels.drop_last(), labels.last());
    let before = kinds_labelled(kinds, rest);
    if i < before.len() {
        labelled_kinds_are_served(kinds, rest, i);
        let label = kind_label(before[i].id);
        let k = choose|k: int| 0 <= k < rest.len() && rest[k] == label;
        assert(labels[k] == label);
    } else {
        let wanted = labelled(last);
        assert(kinds.filter(wanted).len() > 0);
        crate::seqs::filter_source(kinds, wanted, 0);
        assert(labels[labels.len() - 1] == last);
    }
}

/// A custom kind stands under its own group, whatever it is called.
pub proof fn custom_kinds_stand_under_their_group(info: KindInfoModel)
    requires
        info.custom,
    ensures
        category_of(info) == CategoryModel::Custom(info.id.group),
{
}

/// The kinds that come with a cluster stand where people look for them: what
/// runs, what routes, what configures, what persists, what permits, and what
/// describes the cluster.
pub proof fn built_in_kinds_stand_where_they_belong(kind: KindModel)
    ensures
        ({
            let section = built_in_category(kind);
            let core = |plural: Seq<char>| kind.group == ""@ && kind.plural == plural;
            &&& kind.group == "apps"@ || kind.group == "batch"@ || kind.group == "autoscaling"@ || core("pods"@) || core(
                "replicationcontrollers"@,
            ) || core("podtemplates"@) ==> section == CategoryModel::Workloads
            &&& kind.group == "networking.k8s.io"@ || kind.group == "discovery.k8s.io"@ || kind.group
                == "gateway.networking.k8s.io"@ || core("services"@) || core("endpoints"@) ==> section
                == CategoryModel::Networking
            &&& kind.group == "policy"@ || core("configmaps"@) || core("secrets"@) || core("resourcequotas"@) || core(
                "limitranges"@,
            ) ==> section == CategoryModel::Configuration
            &&& kind.group == "storage.k8s.io"@ || core("persistentvolumeclaims"@) || core("persistentvolumes"@)
                ==> section == CategoryModel::Storage
            &&& kind.group == "rbac.authorization.k8s.io"@ || core("serviceaccounts"@) ==> section
                == CategoryModel::AccessControl
            &&& kind.group == "apiextensions.k8s.io"@ || kind.group == "apiregistration.k8s.io"@ || kind.group
                == "certificates.k8s.io"@ || kind.group == "coordination.k8s.io"@ || kind.group == "node.k8s.io"@
                || kind.group == "scheduling.k8s.io"@ || core("nodes"@) || core("namespaces"@) || core("events"@)
                || core("componentstatuses"@) ==> section == CategoryModel::Cluster
        }),
{
    names_differ();
}

#[verifier::rlimit(60)]
proof fn names_differ()
    ensures
        ""@ == Seq::<char>::empty(),
        "apps"@.len() == 4,
        "batch"@.len() == 5,
        "autoscaling"@.len() == 11,
        "networking.k8s.io"@.len() == 17,
        "discovery.k8s.io"@.len() == 16,
        "gateway.networking.k8s.io"@.len() == 25,
        "storage.k8s.io"@.len() == 14,
        "rbac.authorization.k8s.io"@.len() == 25,
        "policy"@.len() == 6,
        "apiextensions.k8s.io"@.len() == 20,
        "apiregistration.k8s.io"@.len() == 22,
        "certificates.k8s.io"@.len() == 19,
        "coordination.k8s.io"@.len() == 19,
        "node.k8s.io"@.len() == 11,
        "scheduling.k8s.io"@.len() == 17,
        "gateway.networking.k8s.io"@[0] == 'g',
        "rbac.authorization.k8s.io"@[0] == 'r',
        "autoscaling"@[0] == 'a',
        "node.k8s.io"@[0] == 'n',
        "networking.k8s.io"@[0] == 'n',
        "scheduling.k8s.io"@[0] == 's',
        "pods"@.len() == 4,
        "replicationcontrollers"@.len() == 22,
        "podtemplates"@.len() == 12,
        "services"@.len() == 8,
        "endpoints"@.len() == 9,
        "configmaps"@.len() == 10,
        "secrets"@.len() == 7,
        "resourcequotas"@.len() == 14,
        "limitranges"@.len() == 11,
        "persistentvolumeclaims"@.len() == 22,
        "persistentvolumes"@.len() == 17,
        "serviceaccounts"@.len() == 15,
        "nodes"@.len() == 5,
        "namespaces"@.len() == 10,
        "events"@.len() == 6,
        "componentstatuses"@.len() == 17,
        "replicationcontrollers"@[0] == 'r',
        "persistentvolumeclaims"@[0] == 'p',
        "configmaps"@[0] == 'c',
        "namespaces"@[0] == 'n',
        "persistentvolumes"@[0] == 'p',
        "componentstatuses"@[0] == 'c',
{
    reveal_strlit("");
    reveal_strlit("apps");
    reveal_strlit("batch");
    reveal_strlit("autoscaling");
    reveal_strlit("networking.k8s.io");
    reveal_strlit("discovery.k8s.io");
    reveal_strlit("gateway.networking.k8s.io");
    reveal_strlit("storage.k8s.io");
    reveal_strlit("rbac.authorization.k8s.io");
    reveal_strlit("policy");
    reveal_strlit("apiextensions.k8s.io");
    reveal_strlit("apiregistration.k8s.io");
    reveal_strlit("certificates.k8s.io");
    reveal_strlit("coordination.k8s.io");
    reveal_strlit("node.k8s.io");
    reveal_strlit("scheduling.k8s.io");
    reveal_strlit("pods");
    reveal_strlit("replicationcontrollers");
    reveal_strlit("podtemplates");
    reveal_strlit("services");
    reveal_strlit("endpoints");
    reveal_strlit("configmaps");
    reveal_strlit("secrets");
    reveal_strlit("resourcequotas");
    reveal_strlit("limitranges");
    reveal_strlit("persistentvolumeclaims");
    reveal_strlit("persistentvolumes");
    reveal_strlit("serviceaccounts");
    reveal_strlit("nodes");
    reveal_strlit("namespaces");
    reveal_strlit("events");
    reveal_strlit("componentstatuses");
}

/// Sections stand in a fixed order: workloads first, then networking,
/// configuration, storage, access control and the cluster, then the custom
/// groups by name, and whatever is left last.
pub proof fn sections_stand_in_order(
    kinds: Seq<KindInfoModel>,
    found: Seq<(CategoryModel, Seq<KindInfoModel>)>,
    i: int,
    j: int,
)
    requires
        is_sections(kinds, found),
        0 <= i < j < found.len(),
    ensures
        ({
            let (upper, lower) = (found[i].0, found[j].0);
            &&& !(lower is Workloads)
            &&& lower is Networking ==> upper is Workloads
            &&& lower is Configuration ==> upper is Workloads || upper is Networking
            &&& lower is Storage ==> upper is Workloads || upper is Networking || upper is Configuration
            &&& upper is Cluster ==> lower is Custom || lower is Other
            &&& upper is AccessControl ==> lower is Cluster || lower is Custom || lower is Other
            &&& upper is Custom ==> lower is Other || (lower matches CategoryModel::Custom(group) && text_before(
                upper->Custom_0,
                group,
            ))
            &&& !(upper is Other)
        }),
{
    assert(<(u64, String) as Key>::below(category_rank(found[i].0), category_rank(found[j].0)));
    reveal_strlit("");
}

/// Within a section kinds go by their labels.
pub proof fn kinds_go_by_their_labels(
    kinds: Seq<KindInfoModel>,
    found: Seq<(CategoryModel, Seq<KindInfoModel>)>,
    at: int,
    i: int,
    j: int,
)
    requires
        is_sections(kinds, found),
        0 <= at < found.len(),
        0 <= i < j < found[at].1.len(),
    ensures
        ({
            let (upper, lower) = (kind_label(found[at].1[i].id), kind_label(found[at].1[j].id));
            upper == lower || text_before(upper, lower)
        }),
{
    let members = kinds.filter(in_section(found[at].0));
    let before = by_label();
    assert forall|a: KindInfoModel, b: KindInfoModel| #![trigger before(a, b)]
        members.contains(a) && members.contains(b) && before(a, b) implies !before(b, a) by {
        crate::text::text_order(kind_label(a.id), kind_label(b.id), kind_label(a.id));
    }
    assert forall|a: KindInfoModel, b: KindInfoModel, c: KindInfoModel| #![trigger before(a, b), before(b, c)]
        members.contains(a) && members.contains(b) && members.contains(c) && before(a, b) && before(b, c) implies before(
        a,
        c,
    ) by {
        crate::text::text_order(kind_label(a.id), kind_label(b.id), kind_label(c.id));
    }
    assert forall|a: KindInfoModel, b: KindInfoModel, c: KindInfoModel| #![trigger before(a, b), before(b, c)]
        members.contains(a) && members.contains(b) && members.contains(c) && !before(a, b) && !before(b, c) implies !before(
        a,
        c,
    ) by {
        let (x, y, z) = (kind_label(a.id), kind_label(b.id), kind_label(c.id));
        crate::text::text_order(x, y, z);
        crate::text::text_order(y, x, z);
        crate::text::text_order(z, y, x);
        crate::text::text_order(x, z, y);
        crate::text::text_order(y, z, x);
    }
    crate::sorting::sorting_orders(members, before);
    let section = found[at].1;
    assert(!before(section[j], section[i]));
    crate::text::text_order(kind_label(section[i].id), kind_label(section[j].id), kind_label(section[i].id));
}

/// The kinds that were opened recently stand in the order they were opened in,
/// latest first, those left out that are no longer served.
pub proof fn recents_keep_their_order(
    kinds: Seq<KindInfoModel>,
    label: Seq<char>,
    rest: Seq<Seq<char>>,
    at: int,
)
    requires
        0 <= at < kinds.len(),
        kinds[at].watchable,
        kind_label(kinds[at].id) == label,
        forall|i: int| 0 <= i < at ==> !((#[trigger] kinds[i]).watchable && kind_label(kinds[i].id) == label),
    ensures
        recent_kinds(kinds, seq![label] + rest).len() > 0,
        recent_kinds(kinds, seq![label] + rest)[0] == kinds[at],
{
    let wanted = labelled(label);
    crate::seqs::filter_first(kinds, wanted, at);
    let labels = seq![label] + rest;
    labels_add_kinds(kinds, labels, 1);
    assert(labels.take(1) =~= seq![label]);
    assert(seq![label].drop_last() =~= seq![]);
    assert(kinds_labelled(kinds, seq![]) =~= seq![]);
    let one = kinds_labelled(kinds, seq![label]);
    assert(one =~= seq![kinds[at]]);
    let all = kinds_labelled(kinds, labels);
    assert(all.take(1)[0] == all[0]);
}

} // verus!
