//! Declarative descriptions of the three resources of a workload instance.
//!
//! Every type here is plain data. Each has a view that replaces strings by
//! character sequences and vectors by sequences of views; the contracts of
//! the builders and of the orchestrator are stated over those views.

use crate::kind::ResourceKind;
use vstd::prelude::*;

verus! {

/// The views of the elements of `s`, in the same order.
pub open spec fn views<T: View>(s: Seq<T>) -> Seq<T::V> {
    Seq::new(s.len(), |i: int| s[i]@)
}

/// The labels as a set: what each key is mapped to. A list of labels may
/// hold a key more than once; of two labels with one key the later counts.
pub open spec fn label_set(labels: Seq<LabelView>) -> Map<Seq<char>, Seq<char>>
    decreases labels.len(),
{
    if labels.len() == 0 {
        Map::empty()
    } else {
        label_set(labels.drop_last()).insert(labels.last().key, labels.last().value)
    }
}

/// One key/value label.
#[derive(Debug, PartialEq, Eq)]
pub struct Label {
    pub key: String,
    pub value: String,
}

/// What a `Label` stands for.
pub struct LabelView {
    pub key: Seq<char>,
    pub value: Seq<char>,
}

impl View for Label {
    type V = LabelView;

    open spec fn view(&self) -> LabelView {
        LabelView { key: self.key@, value: self.value@ }
    }
}

impl Clone for Label {
    fn clone(&self) -> (copy: Self)
        ensures
            copy@ == self@,
    {
        Label { key: self.key.clone(), value: self.value.clone() }
    }
}

/// Whether no key occurs twice among `labels`.
pub open spec fn distinct_keys(labels: Seq<LabelView>) -> bool {
    forall|i: int, j: int| 0 <= i < j < labels.len() ==> labels[i].key != labels[j].key
}

/// Whether a later label has the key of the label at `at`, and so counts in
/// its place.
pub open spec fn overridden(labels: Seq<LabelView>, at: int) -> bool {
    exists|later: int| at < later < labels.len() && labels[later].key == labels[at].key
}

/// Of the first `upto` of `labels`, those that no later label overrides, in
/// their order.
pub open spec fn effective_upto(labels: Seq<LabelView>, upto: nat) -> Seq<LabelView>
    decreases upto,
{
    if upto == 0 {
        Seq::empty()
    } else if overridden(labels, upto - 1) {
        effective_upto(labels, (upto - 1) as nat)
    } else {
        effective_upto(labels, (upto - 1) as nat).push(labels[upto - 1])
    }
}

/// The labels that count: each key once, with the value that was given to it
/// last.
pub open spec fn effective(labels: Seq<LabelView>) -> Seq<LabelView> {
    effective_upto(labels, labels.len())
}

/// The labels that count: each key once, with the value that was given to it
/// last.
pub fn effective_labels(labels: &Vec<Label>) -> (kept: Vec<Label>)
    ensures
        views(kept@) == effective(views(labels@)),
        distinct_keys(views(kept@)),
{
    let ghost all = views(labels@);
    let mut kept: Vec<Label> = Vec::new();
    let mut at: usize = 0;
    while at < labels.len()
        invariant
            at <= labels.len(),
            all == views(labels@),
            views(kept@) == effective_upto(all, at as nat),
        decreases labels.len() - at,
    {
        let mut later: usize = at + 1;
        let mut found = false;
        while later < labels.len()
            invariant
                at < later <= labels.len(),
                all == views(labels@),
                found == (exists|other: int|
                    at < other < later && all[other].key == all[at as int].key),
            decreases labels.len() - later,
        {
            assert(all[later as int] == labels@[later as int]@);
            assert(all[at as int] == labels@[at as int]@);
            if labels[later].key == labels[at].key {
                found = true;
            }
            later += 1;
        }
        assert(found == overridden(all, at as int));
        if !found {
            let ghost before = views(kept@);
            kept.push(labels[at].clone());
            assert(all[at as int] == labels@[at as int]@);
            assert(views(kept@) =~= before.push(all[at as int]));
        }
        at += 1;
    }
    proof {
        lemma_effective_keys_are_distinct(all, all.len());
    }
    kept
}

/// Among the labels that count no key occurs twice, and each of them is one
/// of the first `upto` labels that no later label overrides.
pub proof fn lemma_effective_keys_are_distinct(labels: Seq<LabelView>, upto: nat)
    requires
        upto <= labels.len(),
    ensures
        distinct_keys(effective_upto(labels, upto)),
        forall|i: int|
            0 <= i < effective_upto(labels, upto).len() ==> exists|at: int|
                0 <= at < upto && !overridden(labels, at) && labels[at] == #[trigger] effective_upto(
                    labels,
                    upto,
                )[i],
    decreases upto,
{
    if upto > 0 {
        let fewer = (upto - 1) as nat;
        lemma_effective_keys_are_distinct(labels, fewer);
        let before = effective_upto(labels, fewer);
        let now = effective_upto(labels, upto);
        if !overridden(labels, upto - 1) {
            assert forall|i: int| 0 <= i < now.len() implies exists|at: int|
                0 <= at < upto && !overridden(labels, at) && labels[at] == #[trigger] now[i] by {
                if i < before.len() {
                    assert(now[i] == before[i]);
                    let at = choose|at: int|
                        0 <= at < fewer && !overridden(labels, at) && labels[at] == before[i];
                    assert(0 <= at < upto && !overridden(labels, at) && labels[at] == now[i]);
                } else {
                    assert(labels[upto - 1] == now[i]);
                }
            }
            assert forall|i: int, j: int| 0 <= i < j < now.len() implies now[i].key
                != now[j].key by {
                if j < before.len() {
                    assert(now[i] == before[i] && now[j] == before[j]);
                } else {
                    assert(now[i] == before[i]);
                    let at = choose|at: int|
                        0 <= at < fewer && !overridden(labels, at) && labels[at] == before[i];
                    if labels[at].key == labels[upto - 1].key {
                        assert(overridden(labels, at));
                    }
                }
            }
        }
    }
}

/// Where no key occurs twice, every label counts: the labels that count are
/// the labels.
pub proof fn lemma_distinct_labels_all_count(labels: Seq<LabelView>)
    requires
        distinct_keys(labels),
    ensures
        effective(labels) == labels,
{
    lemma_distinct_prefix_counts(labels, labels.len());
    assert(labels.take(labels.len() as int) =~= labels);
}

proof fn lemma_distinct_prefix_counts(labels: Seq<LabelView>, upto: nat)
    requires
        distinct_keys(labels),
        upto <= labels.len(),
    ensures
        effective_upto(labels, upto) == labels.take(upto as int),
    decreases upto,
{
    if upto > 0 {
        lemma_distinct_prefix_counts(labels, (upto - 1) as nat);
        assert(!overridden(labels, upto - 1));
        assert(labels.take(upto as int) =~= labels.take(upto - 1).push(labels[upto - 1]));
    }
}

/// What the label set holds: a key is in it exactly when some label has it,
/// and it is mapped to the value of the last label that has it.
pub proof fn lemma_label_set_holds_the_last(labels: Seq<LabelView>)
    ensures
        forall|key: Seq<char>|
            label_set(labels).dom().contains(key) <==> exists|i: int|
                0 <= i < labels.len() && (#[trigger] labels[i]).key == key,
        forall|i: int|
            0 <= i < labels.len() && !overridden(labels, i) ==> label_set(labels).dom().contains(
                (#[trigger] labels[i]).key,
            ) && label_set(labels)[labels[i].key] == labels[i].value,
    decreases labels.len(),
{
    if labels.len() > 0 {
        let front = labels.drop_last();
        let last = labels.last();
        lemma_label_set_holds_the_last(front);
        assert forall|key: Seq<char>|
            label_set(labels).dom().contains(key) <==> exists|i: int|
                0 <= i < labels.len() && (#[trigger] labels[i]).key == key by {
            assert(label_set(labels) == label_set(front).insert(last.key, last.value));
            if label_set(labels).dom().contains(key) {
                if key == last.key {
                    assert(labels[labels.len() - 1].key == key);
                } else {
                    assert(label_set(front).dom().contains(key));
                    let i = choose|i: int|
                        0 <= i < front.len() && (#[trigger] front[i]).key == key;
                    assert(labels[i].key == key);
                }
            }
            if exists|i: int| 0 <= i < labels.len() && (#[trigger] labels[i]).key == key {
                let i = choose|i: int| 0 <= i < labels.len() && (#[trigger] labels[i]).key == key;
                if i < front.len() {
                    assert(front[i].key == key);
                }
            }
        }
        assert forall|i: int| 0 <= i < labels.len() && !overridden(labels, i) implies label_set(
            labels,
        ).dom().contains((#[trigger] labels[i]).key) && label_set(labels)[labels[i].key]
            == labels[i].value by {
            if i < front.len() {
                assert(labels[i] == front[i]);
                if labels[i].key == last.key {
                    assert(labels[labels.len() - 1].key == labels[i].key);
                    assert(overridden(labels, i));
                }
                if overridden(front, i) {
                    let later = choose|later: int|
                        i < later < front.len() && front[later].key == front[i].key;
                    assert(labels[later].key == labels[i].key);
                    assert(overridden(labels, i));
                }
            }
        }
    }
}

proof fn lemma_last_with_key(labels: Seq<LabelView>, from: int) -> (at: int)
    requires
        0 <= from < labels.len(),
    ensures
        from <= at < labels.len(),
        labels[at].key == labels[from].key,
        !overridden(labels, at),
    decreases labels.len() - from,
{
    if overridden(labels, from) {
        let later = choose|later: int|
            from < later < labels.len() && labels[later].key == labels[from].key;
        lemma_last_with_key(labels, later)
    } else {
        from
    }
}

proof fn lemma_effective_holds_what_counts(labels: Seq<LabelView>, upto: nat, at: int)
    requires
        0 <= at < upto <= labels.len(),
        !overridden(labels, at),
    ensures
        exists|i: int|
            0 <= i < effective_upto(labels, upto).len() && #[trigger] effective_upto(
                labels,
                upto,
            )[i] == labels[at],
    decreases upto,
{
    let now = effective_upto(labels, upto);
    if at == upto - 1 {
        assert(now[now.len() - 1] == labels[at]);
    } else {
        let fewer = (upto - 1) as nat;
        lemma_effective_holds_what_counts(labels, fewer, at);
        let before = effective_upto(labels, fewer);
        let i = choose|i: int| 0 <= i < before.len() && #[trigger] before[i] == labels[at];
        assert(now[i] == labels[at]);
    }
}

/// Leaving out the labels that do not count changes nothing in the label
/// set.
pub proof fn lemma_effective_keeps_the_label_set(labels: Seq<LabelView>)
    ensures
        label_set(effective(labels)) == label_set(labels),
{
    let kept = effective(labels);
    lemma_label_set_holds_the_last(labels);
    lemma_label_set_holds_the_last(kept);
    lemma_effective_keys_are_distinct(labels, labels.len());
    assert forall|key: Seq<char>|
        #![trigger label_set(labels).dom().contains(key)]
        label_set(labels).dom().contains(key) implies label_set(kept).dom().contains(key)
        && label_set(kept)[key] == label_set(labels)[key] by {
        let from = choose|i: int| 0 <= i < labels.len() && (#[trigger] labels[i]).key == key;
        let at = lemma_last_with_key(labels, from);
        lemma_effective_holds_what_counts(labels, labels.len(), at);
        let i = choose|i: int| 0 <= i < kept.len() && #[trigger] kept[i] == labels[at];
        assert(!overridden(kept, i)) by {
            if overridden(kept, i) {
                let later = choose|later: int|
                    i < later < kept.len() && kept[later].key == kept[i].key;
                assert(kept[i].key != kept[later].key);
            }
        }
        assert(kept[i].key == key);
        assert(label_set(labels)[labels[at].key] == labels[at].value);
    }
    assert forall|key: Seq<char>|
        #![trigger label_set(kept).dom().contains(key)]
        label_set(kept).dom().contains(key) implies label_set(labels).dom().contains(key) by {
        let i = choose|i: int| 0 <= i < kept.len() && (#[trigger] kept[i]).key == key;
        let at = choose|at: int|
            0 <= at < labels.len() && !overridden(labels, at) && labels[at] == kept[i];
        assert(labels[at].key == key);
    }
    assert(label_set(kept) =~= label_set(labels));
}

/// A named port that a container publishes.
#[derive(Debug, PartialEq, Eq)]
pub struct PortSpec {
    pub name: String,
    pub container_port: i32,
}

/// What a `PortSpec` stands for.
pub struct PortView {
    pub name: Seq<char>,
    pub container_port: int,
}

impl View for PortSpec {
    type V = PortView;

    open spec fn view(&self) -> PortView {
        PortView { name: self.name@, container_port: self.container_port as int }
    }
}

impl Clone for PortSpec {
    fn clone(&self) -> (copy: Self)
        ensures
            copy@ == self@,
    {
        PortSpec { name: self.name.clone(), container_port: self.container_port }
    }
}

/// An environment variable handed to a container.
#[derive(Debug, PartialEq, Eq)]
pub struct EnvSpec {
    pub name: String,
    pub value: String,
}

/// What an `EnvSpec` stands for.
pub struct EnvView {
    pub name: Seq<char>,
    pub value: Seq<char>,
}

impl View for EnvSpec {
    type V = EnvView;

    open spec fn view(&self) -> EnvView {
        EnvView { name: self.name@, value: self.value@ }
    }
}

impl Clone for EnvSpec {
    fn clone(&self) -> (copy: Self)
        ensures
            copy@ == self@,
    {
        EnvSpec { name: self.name.clone(), value: self.value.clone() }
    }
}

/// Where a container mounts a volume of its pod.
#[derive(Debug, PartialEq, Eq)]
pub struct MountSpec {
    /// Name of the pod volume that is mounted.
    pub volume: String,
    pub mount_path: String,
}

/// What a `MountSpec` stands for.
pub struct MountView {
    pub volume: Seq<char>,
    pub mount_path: Seq<char>,
}

impl View for MountSpec {
    type V = MountView;

    open spec fn view(&self) -> MountView {
        MountView { volume: self.volume@, mount_path: self.mount_path@ }
    }
}

impl Clone for MountSpec {
    fn clone(&self) -> (copy: Self)
        ensures
            copy@ == self@,
    {
        MountSpec { volume: self.volume.clone(), mount_path: self.mount_path.clone() }
    }
}

/// A pod volume backed by a persistent storage claim.
#[derive(Debug, PartialEq, Eq)]
pub struct ClaimVolume {
    pub name: String,
    /// Name of the storage claim, in the namespace of the pod.
    pub claim_name: String,
}

/// What a `ClaimVolume` stands for.
pub struct ClaimVolumeView {
    pub name: Seq<char>,
    pub claim_name: Seq<char>,
}

impl View for ClaimVolume {
    type V = ClaimVolumeView;

    open spec fn view(&self) -> ClaimVolumeView {
        ClaimVolumeView { name: self.name@, claim_name: self.claim_name@ }
    }
}

impl Clone for ClaimVolume {
    fn clone(&self) -> (copy: Self)
        ensures
            copy@ == self@,
    {
        ClaimVolume { name: self.name.clone(), claim_name: self.claim_name.clone() }
    }
}

/// The single container of the workload.
#[derive(Debug, PartialEq, Eq)]
pub struct ContainerSpec {
    pub name: String,
    pub image: String,
    pub image_pull_policy: String,
    /// The whole command line, as one list.
    pub args: Vec<String>,
    pub ports: Vec<PortSpec>,
    pub env: Vec<EnvSpec>,
    pub mount: MountSpec,
}

/// What a `ContainerSpec` stands for.
pub struct ContainerView {
    pub name: Seq<char>,
    pub image: Seq<char>,
    pub image_pull_policy: Seq<char>,
    pub args: Seq<Seq<char>>,
    pub ports: Seq<PortView>,
    pub env: Seq<EnvView>,
    pub mount: MountView,
}

impl View for ContainerSpec {
    type V = ContainerView;

    open spec fn view(&self) -> ContainerView {
        ContainerView {
            name: self.name@,
            image: self.image@,
            image_pull_policy: self.image_pull_policy@,
            args: views(self.args@),
            ports: views(self.ports@),
            env: views(self.env@),
            mount: self.mount@,
        }
    }
}

impl Clone for ContainerSpec {
    fn clone(&self) -> (copy: Self)
        ensures
            copy@ == self@,
    {
        let copy = ContainerSpec {
            name: self.name.clone(),
            image: self.image.clone(),
            image_pull_policy: self.image_pull_policy.clone(),
            args: self.args.clone(),
            ports: self.ports.clone(),
            env: self.env.clone(),
            mount: self.mount.clone(),
        };
        assert(views(copy.args@) =~= views(self.args@));
        assert(views(copy.ports@) =~= views(self.ports@));
        assert(views(copy.env@) =~= views(self.env@));
        copy
    }
}

/// The compute workload: a replicated pod template and the selector that
/// finds its pods.
#[derive(Debug, PartialEq, Eq)]
pub struct ComputeSpec {
    pub name: String,
    pub namespace: String,
    pub replicas: i32,
    /// Labels that the workload selects its pods by.
    pub selector: Vec<Label>,
    /// Labels that the pod template puts on every pod.
    pub template_labels: Vec<Label>,
    pub container: ContainerSpec,
    pub volume: ClaimVolume,
}

/// What a `ComputeSpec` stands for.
pub struct ComputeSpecView {
    pub name: Seq<char>,
    pub namespace: Seq<char>,
    pub replicas: int,
    pub selector: Seq<LabelView>,
    pub template_labels: Seq<LabelView>,
    pub container: ContainerView,
    pub volume: ClaimVolumeView,
}

impl View for ComputeSpec {
    type V = ComputeSpecView;

    open spec fn view(&self) -> ComputeSpecView {
        ComputeSpecView {
            name: self.name@,
            namespace: self.namespace@,
            replicas: self.replicas as int,
            selector: views(self.selector@),
            template_labels: views(self.template_labels@),
            container: self.container@,
            volume: self.volume@,
        }
    }
}

impl Clone for ComputeSpec {
    fn clone(&self) -> (copy: Self)
        ensures
            copy@ == self@,
    {
        let copy = ComputeSpec {
            name: self.name.clone(),
            namespace: self.namespace.clone(),
            replicas: self.replicas,
            selector: self.selector.clone(),
            template_labels: self.template_labels.clone(),
            container: self.container.clone(),
            volume: self.volume.clone(),
        };
        assert(views(copy.selector@) =~= views(self.selector@));
        assert(views(copy.template_labels@) =~= views(self.template_labels@));
        copy
    }
}

impl ComputeSpec {
    /// The same workload with `args` as the whole command line of its
    /// container.
    pub fn with_args(self, args: Vec<String>) -> (changed: ComputeSpec)
        ensures
            changed@ == (ComputeSpecView {
                container: ContainerView { args: views(args@), ..self@.container },
                ..self@
            }),
    {
        let mut changed = self;
        changed.container.args = args;
        changed
    }
}

/// The persistent storage claim.
#[derive(Debug, PartialEq, Eq)]
pub struct StorageSpec {
    pub name: String,
    pub namespace: String,
    pub size_gib: u32,
}

/// What a `StorageSpec` stands for.
pub struct StorageSpecView {
    pub name: Seq<char>,
    pub namespace: Seq<char>,
    pub size_gib: nat,
}

impl View for StorageSpec {
    type V = StorageSpecView;

    open spec fn view(&self) -> StorageSpecView {
        StorageSpecView {
            name: self.name@,
            namespace: self.namespace@,
            size_gib: self.size_gib as nat,
        }
    }
}

impl Clone for StorageSpec {
    fn clone(&self) -> (copy: Self)
        ensures
            copy@ == self@,
    {
        StorageSpec {
            name: self.name.clone(),
            namespace: self.namespace.clone(),
            size_gib: self.size_gib,
        }
    }
}

/// The network service in front of the workload.
#[derive(Debug, PartialEq, Eq)]
pub struct NetworkSpec {
    pub name: String,
    pub namespace: String,
    /// Labels of the pods that the service routes to.
    pub selector: Vec<Label>,
}

/// What a `NetworkSpec` stands for.
pub struct NetworkSpecView {
    pub name: Seq<char>,
    pub namespace: Seq<char>,
    pub selector: Seq<LabelView>,
}

impl View for NetworkSpec {
    type V = NetworkSpecView;

    open spec fn view(&self) -> NetworkSpecView {
        NetworkSpecView {
            name: self.name@,
            namespace: self.namespace@,
            selector: views(self.selector@),
        }
    }
}

impl Clone for NetworkSpec {
    fn clone(&self) -> (copy: Self)
        ensures
            copy@ == self@,
    {
        let copy = NetworkSpec {
            name: self.name.clone(),
            namespace: self.namespace.clone(),
            selector: self.selector.clone(),
        };
        assert(views(copy.selector@) =~= views(self.selector@));
        copy
    }
}

/// A description of one resource, tagged by its kind.
#[derive(Debug, PartialEq, Eq)]
pub enum ResourceSpec {
    Storage(StorageSpec),
    Compute(ComputeSpec),
    Network(NetworkSpec),
}

/// What a `ResourceSpec` stands for.
pub enum ResourceSpecView {
    Storage(StorageSpecView),
    Compute(ComputeSpecView),
    Network(NetworkSpecView),
}

impl ResourceSpecView {
    pub open spec fn kind(self) -> ResourceKind {
        match self {
            ResourceSpecView::Storage(_) => ResourceKind::Storage,
            ResourceSpecView::Compute(_) => ResourceKind::Compute,
            ResourceSpecView::Network(_) => ResourceKind::Network,
        }
    }

    /// The name under which the cluster knows the resource.
    pub open spec fn name(self) -> Seq<char> {
        match self {
            ResourceSpecView::Storage(s) => s.name,
            ResourceSpecView::Compute(s) => s.name,
            ResourceSpecView::Network(s) => s.name,
        }
    }

    pub open spec fn namespace(self) -> Seq<char> {
        match self {
            ResourceSpecView::Storage(s) => s.namespace,
            ResourceSpecView::Compute(s) => s.namespace,
            ResourceSpecView::Network(s) => s.namespace,
        }
    }
}

impl View for ResourceSpec {
    type V = ResourceSpecView;

    open spec fn view(&self) -> ResourceSpecView {
        match self {
            ResourceSpec::Storage(s) => ResourceSpecView::Storage(s@),
            ResourceSpec::Compute(s) => ResourceSpecView::Compute(s@),
            ResourceSpec::Network(s) => ResourceSpecView::Network(s@),
        }
    }
}

impl Clone for ResourceSpec {
    fn clone(&self) -> (copy: Self)
        ensures
            copy@ == self@,
    {
        match self {
            ResourceSpec::Storage(spec) => ResourceSpec::Storage(spec.clone()),
            ResourceSpec::Compute(spec) => ResourceSpec::Compute(spec.clone()),
            ResourceSpec::Network(spec) => ResourceSpec::Network(spec.clone()),
        }
    }
}

impl ResourceSpec {
    pub fn kind(&self) -> (k: ResourceKind)
        ensures
            k == self@.kind(),
    {
        match self {
            ResourceSpec::Storage(_) => ResourceKind::Storage,
            ResourceSpec::Compute(_) => ResourceKind::Compute,
            ResourceSpec::Network(_) => ResourceKind::Network,
        }
    }

    /// The name under which the cluster knows the resource.
    pub fn name(&self) -> (n: &str)
        ensures
            n@ == self@.name(),
    {
        match self {
            ResourceSpec::Storage(s) => s.name.as_str(),
            ResourceSpec::Compute(s) => s.name.as_str(),
            ResourceSpec::Network(s) => s.name.as_str(),
        }
    }

    pub fn namespace(&self) -> (n: &str)
        ensures
            n@ == self@.namespace(),
    {
        match self {
            ResourceSpec::Storage(s) => s.namespace.as_str(),
            ResourceSpec::Compute(s) => s.namespace.as_str(),
            ResourceSpec::Network(s) => s.namespace.as_str(),
        }
    }
}

} // verus!
