//! Builders of the resource descriptions.
//!
//! A description is a function of the instance alone: the builders read
//! nothing else, and two instances with the same view give descriptions with
//! the same view.

use crate::instance::{InstanceView, WorkloadInstance};
use crate::kind::ResourceKind;
use crate::model::{
    distinct_keys, effective, label_set, lemma_distinct_labels_all_count, views, ClaimVolume,
    ClaimVolumeView, ComputeSpec, ComputeSpecView, ContainerSpec, ContainerView, EnvSpec, EnvView,
    Label, LabelView, MountSpec, MountView, NetworkSpec, NetworkSpecView, PortSpec, PortView,
    ResourceSpec, ResourceSpecView, StorageSpec, StorageSpecView,
};
use vstd::prelude::*;
use vstd::string::StringExecFns;

verus! {

/// Name of the storage claim of the workload called `name`.
pub open spec fn claim_name_model(name: Seq<char>) -> Seq<char> {
    name + "-storage"@
}

/// Name of the volume that holds the storage claim inside the pod. It is the
/// same in every workload: only the claim behind it follows the workload's
/// name.
pub open spec fn pod_volume_model() -> Seq<char> {
    "pgmoneta-storage"@
}

/// The labels by which the pods of the workload called `name` are found.
pub open spec fn app_labels_model(name: Seq<char>) -> Seq<LabelView> {
    seq![LabelView { key: "app"@, value: name }]
}

/// Command line that the container is started with, word for word.
pub open spec fn stock_args_model() -> Seq<Seq<char>> {
    seq![
        "ppmoneta"@,
        "-c"@,
        "/etc/pgmoneta/pgmoneta.conf"@,
        "-c"@,
        "/etc/pgmoneta/pgmoeta.conf"@,
    ]
}

/// The service port and the metrics port.
pub open spec fn stock_ports_model() -> Seq<PortView> {
    seq![
        PortView { name: "proxy"@, container_port: 8432 },
        PortView { name: "metrics"@, container_port: 5001 },
    ]
}

/// Connection parameters of the primary that is backed up.
pub open spec fn stock_env_model() -> Seq<EnvView> {
    seq![
        EnvView { name: "PG_PRIMARY_NAME"@, value: "postgresql"@ },
        EnvView { name: "PG_PRIMARY_PORT"@, value: "5432"@ },
        EnvView { name: "PG_BACKUP_SLOT"@, value: "pgmoneta_slot"@ },
    ]
}

/// The compute workload of the instance `name` in `namespace`.
pub open spec fn compute_model(name: Seq<char>, namespace: Seq<char>) -> ComputeSpecView {
    ComputeSpecView {
        name: name,
        namespace: namespace,
        replicas: 1,
        selector: app_labels_model(name),
        template_labels: app_labels_model(name),
        container: ContainerView {
            name: name,
            image: "pgmoneta-rocky10:latest"@,
            image_pull_policy: "IfNotPresent"@,
            args: stock_args_model(),
            ports: stock_ports_model(),
            env: stock_env_model(),
            mount: MountView { volume: pod_volume_model(), mount_path: "/home/pgmoneta"@ },
        },
        volume: ClaimVolumeView { name: pod_volume_model(), claim_name: claim_name_model(name) },
    }
}

/// The storage claim of an instance.
pub open spec fn storage_model(instance: InstanceView) -> StorageSpecView {
    StorageSpecView {
        name: claim_name_model(instance.name),
        namespace: instance.namespace,
        size_gib: instance.storage_size_gib,
    }
}

/// The network service of the instance `name` in `namespace`.
pub open spec fn network_model(name: Seq<char>, namespace: Seq<char>) -> NetworkSpecView {
    NetworkSpecView { name: name, namespace: namespace, selector: app_labels_model(name) }
}

/// The description of the resource of `kind` that belongs to `instance`.
pub open spec fn build_model(kind: ResourceKind, instance: InstanceView) -> ResourceSpecView {
    match kind {
        ResourceKind::Storage => ResourceSpecView::Storage(storage_model(instance)),
        ResourceKind::Compute => ResourceSpecView::Compute(
            compute_model(instance.name, instance.namespace),
        ),
        ResourceKind::Network => ResourceSpecView::Network(
            network_model(instance.name, instance.namespace),
        ),
    }
}

/// The bundle of an instance: the descriptions of all its resources, in
/// creation order.
pub open spec fn bundle_model(instance: InstanceView) -> Seq<ResourceSpecView> {
    seq![
        build_model(ResourceKind::Storage, instance),
        build_model(ResourceKind::Compute, instance),
        build_model(ResourceKind::Network, instance),
    ]
}

/// Name under which the resource of `kind` of the workload `name` is created
/// and, later, deleted.
pub open spec fn resource_name_model(kind: ResourceKind, name: Seq<char>) -> Seq<char> {
    match kind {
        ResourceKind::Storage => claim_name_model(name),
        ResourceKind::Compute => name,
        ResourceKind::Network => name,
    }
}

/// Name of the storage claim of the workload called `name`.
pub fn storage_claim_name(name: &str) -> (claim: String)
    ensures
        claim@ == claim_name_model(name@),
{
    name.to_owned().concat("-storage")
}

/// Name under which the resource of `kind` of the workload `name` is created
/// and, later, deleted.
pub fn resource_name(kind: ResourceKind, name: &str) -> (full: String)
    ensures
        full@ == resource_name_model(kind, name@),
{
    match kind {
        ResourceKind::Storage => storage_claim_name(name),
        ResourceKind::Compute => name.to_owned(),
        ResourceKind::Network => name.to_owned(),
    }
}

/// The labels by which the pods of the workload called `name` are found.
pub fn app_labels(name: &str) -> (labels: Vec<Label>)
    ensures
        views(labels@) == app_labels_model(name@),
{
    let mut labels: Vec<Label> = Vec::new();
    labels.push(Label { key: "app".to_owned(), value: name.to_owned() });
    assert(views(labels@) =~= app_labels_model(name@));
    labels
}

fn stock_args() -> (args: Vec<String>)
    ensures
        views(args@) == stock_args_model(),
{
    let mut args: Vec<String> = Vec::new();
    args.push("ppmoneta".to_owned());
    args.push("-c".to_owned());
    args.push("/etc/pgmoneta/pgmoneta.conf".to_owned());
    args.push("-c".to_owned());
    args.push("/etc/pgmoneta/pgmoeta.conf".to_owned());
    assert(views(args@) =~= stock_args_model());
    args
}

fn stock_ports() -> (ports: Vec<PortSpec>)
    ensures
        views(ports@) == stock_ports_model(),
{
    let mut ports: Vec<PortSpec> = Vec::new();
    ports.push(PortSpec { name: "proxy".to_owned(), container_port: 8432 });
    ports.push(PortSpec { name: "metrics".to_owned(), container_port: 5001 });
    assert(views(ports@) =~= stock_ports_model());
    ports
}

fn stock_env() -> (env: Vec<EnvSpec>)
    ensures
        views(env@) == stock_env_model(),
{
    let mut env: Vec<EnvSpec> = Vec::new();
    env.push(EnvSpec { name: "PG_PRIMARY_NAME".to_owned(), value: "postgresql".to_owned() });
    env.push(EnvSpec { name: "PG_PRIMARY_PORT".to_owned(), value: "5432".to_owned() });
    env.push(EnvSpec { name: "PG_BACKUP_SLOT".to_owned(), value: "pgmoneta_slot".to_owned() });
    assert(views(env@) =~= stock_env_model());
    env
}

/// Describes the pgmoneta workload `name` in `namespace`: one replica of one
/// container, found by the label `app`, with the storage claim of the
/// workload mounted as its home. The volume that holds the claim has the
/// same name in every workload.
pub fn pgmoneta_create(name: &str, namespace: &str) -> (spec: ComputeSpec)
    ensures
        spec@ == compute_model(name@, namespace@),
        views(spec.selector@) == views(spec.template_labels@),
{
    ComputeSpec {
        name: name.to_owned(),
        namespace: namespace.to_owned(),
        replicas: 1,
        selector: app_labels(name),
        template_labels: app_labels(name),
        container: ContainerSpec {
            name: name.to_owned(),
            image: "pgmoneta-rocky10:latest".to_owned(),
            image_pull_policy: "IfNotPresent".to_owned(),
            args: stock_args(),
            ports: stock_ports(),
            env: stock_env(),
            mount: MountSpec {
                volume: "pgmoneta-storage".to_owned(),
                mount_path: "/home/pgmoneta".to_owned(),
            },
        },
        volume: ClaimVolume {
            name: "pgmoneta-storage".to_owned(),
            claim_name: storage_claim_name(name),
        },
    }
}

/// Describes the storage claim of `instance`.
pub fn storage_claim(instance: &WorkloadInstance) -> (spec: StorageSpec)
    ensures
        spec@ == storage_model(instance@),
{
    StorageSpec {
        name: storage_claim_name(instance.name()),
        namespace: instance.namespace().to_owned(),
        size_gib: instance.storage_size_gib(),
    }
}

/// Describes the network service of the workload `name` in `namespace`.
pub fn network_service(name: &str, namespace: &str) -> (spec: NetworkSpec)
    ensures
        spec@ == network_model(name@, namespace@),
{
    NetworkSpec {
        name: name.to_owned(),
        namespace: namespace.to_owned(),
        selector: app_labels(name),
    }
}

/// Describes the resource of `kind` that belongs to `instance`.
pub fn build(kind: ResourceKind, instance: &WorkloadInstance) -> (spec: ResourceSpec)
    ensures
        spec@ == build_model(kind, instance@),
        spec@.kind() == kind,
        spec@.name() == resource_name_model(kind, instance@.name),
        spec@.namespace() == instance@.namespace,
{
    match kind {
        ResourceKind::Storage => ResourceSpec::Storage(storage_claim(instance)),
        ResourceKind::Compute => ResourceSpec::Compute(
            pgmoneta_create(instance.name(), instance.namespace()),
        ),
        ResourceKind::Network => ResourceSpec::Network(
            network_service(instance.name(), instance.namespace()),
        ),
    }
}

/// Describes all resources of `instance`, in creation order.
pub fn bundle(instance: &WorkloadInstance) -> (all: Vec<ResourceSpec>)
    ensures
        views(all@) == bundle_model(instance@),
{
    let mut all: Vec<ResourceSpec> = Vec::new();
    all.push(build(ResourceKind::Storage, instance));
    all.push(build(ResourceKind::Compute, instance));
    all.push(build(ResourceKind::Network, instance));
    assert(views(all@) =~= bundle_model(instance@));
    all
}

/// The bundle holds one description for each kind, at the position of the
/// kind in the creation order.
pub proof fn lemma_bundle_by_kind(instance: InstanceView, kind: ResourceKind)
    ensures
        bundle_model(instance).len() == 3,
        bundle_model(instance)[kind.rank() as int] == build_model(kind, instance),
{
}

/// Building is deterministic: two descriptions built for the same kind and
/// the same instance are identical.
pub proof fn lemma_build_is_deterministic(
    kind: ResourceKind,
    instance: InstanceView,
    first: ResourceSpec,
    second: ResourceSpec,
)
    requires
        first@ == build_model(kind, instance),
        second@ == build_model(kind, instance),
    ensures
        first@ == second@,
{
}

/// The selector of a built workload holds exactly the labels that its pod
/// template puts on the pods: the one label `app`, with the name of the
/// workload as its value. The two agree as lists and as sets.
pub proof fn lemma_selector_matches_template(
    name: Seq<char>,
    namespace: Seq<char>,
    built: ComputeSpec,
)
    requires
        built@ == compute_model(name, namespace),
    ensures
        views(built.selector@) == views(built.template_labels@),
        views(built.selector@) == app_labels_model(name),
        label_set(views(built.selector@)) == label_set(views(built.template_labels@)),
        label_set(views(built.selector@)) == Map::<Seq<char>, Seq<char>>::empty().insert(
            "app"@,
            name,
        ),
{
    let labels = app_labels_model(name);
    assert(labels.drop_last() =~= Seq::<LabelView>::empty());
    reveal_with_fuel(label_set, 2);
}

/// The claim that a built workload mounts is the claim that is built for the
/// same instance: the two agree in name and in namespace, and the container
/// mounts the volume that holds the claim.
pub proof fn lemma_claim_reference_is_intact(instance: InstanceView)
    ensures
        compute_model(instance.name, instance.namespace).volume.claim_name == storage_model(
            instance,
        ).name,
        compute_model(instance.name, instance.namespace).namespace == storage_model(
            instance,
        ).namespace,
        compute_model(instance.name, instance.namespace).container.mount.volume == compute_model(
            instance.name,
            instance.namespace,
        ).volume.name,
{
}

/// Two built workloads differ only in what follows from name and namespace.
///
/// Whatever the two names and namespaces, the workloads agree on the replica
/// count, the image, its pull policy, the command line, the ports, the
/// variables, the mount path, the name of the pod volume and the volume that
/// the container mounts. What is left to differ is the name, the namespace,
/// the value of the label, the name of the container and the name of the
/// claim.
pub proof fn lemma_workloads_differ_by_name_only(
    name: Seq<char>,
    namespace: Seq<char>,
    other_name: Seq<char>,
    other_namespace: Seq<char>,
)
    ensures
        ({
            let one = compute_model(name, namespace);
            let other = compute_model(other_name, other_namespace);
            &&& one.replicas == other.replicas
            &&& one.container.image == other.container.image
            &&& one.container.image_pull_policy == other.container.image_pull_policy
            &&& one.container.args == other.container.args
            &&& one.container.ports == other.container.ports
            &&& one.container.env == other.container.env
            &&& one.container.mount == other.container.mount
            &&& one.volume.name == other.volume.name
            &&& other == (ComputeSpecView {
                name: other_name,
                namespace: other_namespace,
                selector: app_labels_model(other_name),
                template_labels: app_labels_model(other_name),
                container: ContainerView { name: other_name, ..one.container },
                volume: ClaimVolumeView { claim_name: claim_name_model(other_name), ..one.volume },
                ..one
            })
        }),
{
}

/// The network service built for a workload selects the pods of the workload
/// built for it: its selector holds the labels of the pod template, in the
/// same namespace.
pub proof fn lemma_service_selects_workload(name: Seq<char>, namespace: Seq<char>)
    ensures
        network_model(name, namespace).selector == compute_model(name, namespace).template_labels,
        network_model(name, namespace).namespace == compute_model(name, namespace).namespace,
{
}

/// Every description is filed under the kind it was built for, under the
/// name that a later delete call uses, in the namespace of the instance. For
/// a valid instance neither the name nor the namespace is empty.
pub proof fn lemma_built_as_addressed(kind: ResourceKind, instance: InstanceView)
    ensures
        build_model(kind, instance).kind() == kind,
        build_model(kind, instance).name() == resource_name_model(kind, instance.name),
        build_model(kind, instance).namespace() == instance.namespace,
        instance.valid() ==> build_model(kind, instance).name().len() > 0 && build_model(
            kind,
            instance,
        ).namespace().len() > 0,
{
}

/// In a built workload every label counts: no key occurs twice, so the
/// labels that its Kubernetes object selects by, and those that it puts on
/// its pods, are the labels of the description, and they are the same.
pub proof fn lemma_built_labels_all_count(name: Seq<char>, namespace: Seq<char>)
    ensures
        distinct_keys(compute_model(name, namespace).selector),
        effective(compute_model(name, namespace).selector) == app_labels_model(name),
        effective(compute_model(name, namespace).template_labels) == app_labels_model(name),
{
    lemma_distinct_labels_all_count(app_labels_model(name));
}

} // verus!
