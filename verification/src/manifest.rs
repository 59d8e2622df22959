//! The compute workload as a Kubernetes object and as a manifest.
//!
//! The objects are those of `k8s_openapi` and the manifest is written by
//! `serde_yaml`. Neither is read by the verifier. Each step that makes an
//! object, and the serialiser, gives a result that depends on what it is
//! given and on nothing else; that result has a name here, and the contracts
//! of this module say which names are applied to which parts of a
//! description. What the named objects and texts look like is for the tests
//! to show.

use crate::builder::{compute_model, pgmoneta_create};
use crate::error::IoError;
use crate::model::{
    distinct_keys, effective, effective_labels, views, ClaimVolume, ClaimVolumeView, ComputeSpec,
    ComputeSpecView, ContainerSpec, ContainerView, EnvSpec, EnvView, Label, LabelView, PortSpec,
    PortView,
};
use k8s_openapi::api;
use k8s_openapi::apimachinery::pkg::apis::meta::v1::{LabelSelector, ObjectMeta};
use std::collections::BTreeMap;
use vstd::prelude::*;

verus! {

#[verifier::external_type_specification]
#[verifier::external_body]
pub struct ExDeployment(k8s_openapi::api::apps::v1::Deployment);

#[verifier::external_type_specification]
#[verifier::external_body]
pub struct ExPodTemplateSpec(k8s_openapi::api::core::v1::PodTemplateSpec);

#[verifier::external_type_specification]
#[verifier::external_body]
pub struct ExContainer(k8s_openapi::api::core::v1::Container);

#[verifier::external_type_specification]
#[verifier::external_body]
pub struct ExContainerPort(k8s_openapi::api::core::v1::ContainerPort);

#[verifier::external_type_specification]
#[verifier::external_body]
pub struct ExEnvVar(k8s_openapi::api::core::v1::EnvVar);

#[verifier::external_type_specification]
#[verifier::external_body]
pub struct ExVolume(k8s_openapi::api::core::v1::Volume);

#[verifier::external_type_specification]
#[verifier::external_body]
pub struct ExYamlError(serde_yaml::Error);

#[verifier::external_type_specification]
#[verifier::external_body]
pub struct ExIoError(std::io::Error);

/// File that the stock manifest is written to.
pub open spec fn manifest_file_model() -> Seq<char> {
    "pgopr-pgmoneta.yaml"@
}

/// The `ContainerPort` that is made of a port.
pub uninterp spec fn port_object(port: PortView) -> api::core::v1::ContainerPort;

/// The `EnvVar` that is made of a variable.
pub uninterp spec fn env_object(variable: EnvView) -> api::core::v1::EnvVar;

/// The `Volume` that is made of a claim volume.
pub uninterp spec fn volume_object(volume: ClaimVolumeView) -> api::core::v1::Volume;

/// The `Container` that is made of a container, of the objects of its ports
/// and of those of its variables.
pub uninterp spec fn container_object(
    spec: ContainerView,
    ports: Seq<api::core::v1::ContainerPort>,
    env: Seq<api::core::v1::EnvVar>,
) -> api::core::v1::Container;

/// The `PodTemplateSpec` that is made of labels, a container and a volume.
pub uninterp spec fn template_object(
    labels: Seq<LabelView>,
    container: api::core::v1::Container,
    volume: api::core::v1::Volume,
) -> api::core::v1::PodTemplateSpec;

/// The `Deployment` that is made of a workload, of the labels it selects by
/// and of its pod template.
pub uninterp spec fn deployment_object(
    spec: ComputeSpecView,
    selector: Seq<LabelView>,
    template: api::core::v1::PodTemplateSpec,
) -> api::apps::v1::Deployment;

/// The YAML document that `serde_yaml` writes for a `Deployment`, or nothing
/// where it fails.
pub uninterp spec fn deployment_yaml(deployment: api::apps::v1::Deployment) -> Option<Seq<char>>;

/// Makes a `k8s_openapi` `ContainerPort` with the name and the number of
/// `port`, and every other field as `ContainerPort::default()` leaves it.
/// Claimed: the object depends on the port alone.
#[verifier::external_body]
fn k8s_port(port: &PortSpec) -> (object: api::core::v1::ContainerPort)
    ensures
        object == port_object(port@),
{
    api::core::v1::ContainerPort {
        name: Some(port.name.clone()),
        container_port: port.container_port,
        ..Default::default()
    }
}

/// Makes a `k8s_openapi` `EnvVar` with the name and the value of `variable`,
/// and no source for the value, as `EnvVar::default()` leaves it. Claimed:
/// the object depends on the variable alone.
#[verifier::external_body]
fn k8s_env(variable: &EnvSpec) -> (object: api::core::v1::EnvVar)
    ensures
        object == env_object(variable@),
{
    api::core::v1::EnvVar {
        name: variable.name.clone(),
        value: Some(variable.value.clone()),
        ..Default::default()
    }
}

/// Makes a `k8s_openapi` `Volume` with the name of `volume` and a
/// `PersistentVolumeClaimVolumeSource` for its claim; every other field is
/// as the `default()` of its type leaves it. Claimed: the object depends on
/// the volume alone.
#[verifier::external_body]
fn k8s_volume(volume: &ClaimVolume) -> (object: api::core::v1::Volume)
    ensures
        object == volume_object(volume@),
{
    let claim = api::core::v1::PersistentVolumeClaimVolumeSource {
        claim_name: volume.claim_name.clone(),
        ..Default::default()
    };
    api::core::v1::Volume {
        name: volume.name.clone(),
        persistent_volume_claim: Some(claim),
        ..Default::default()
    }
}

/// Makes a `k8s_openapi` `Container` with the fields of `spec`, the given
/// ports and variables, and one `VolumeMount` for the mount of `spec`; every
/// other field is as `Container::default()` and `VolumeMount::default()`
/// leave it. Claimed: the object depends on these three alone.
#[verifier::external_body]
fn k8s_container(
    spec: &ContainerSpec,
    ports: Vec<api::core::v1::ContainerPort>,
    env: Vec<api::core::v1::EnvVar>,
) -> (object: api::core::v1::Container)
    ensures
        object == container_object(spec@, ports@, env@),
{
    let (name, mount_path) = (spec.mount.volume.clone(), spec.mount.mount_path.clone());
    let mount = api::core::v1::VolumeMount { name, mount_path, ..Default::default() };
    api::core::v1::Container {
        name: spec.name.clone(),
        image: Some(spec.image.clone()),
        image_pull_policy: Some(spec.image_pull_policy.clone()),
        args: Some(spec.args.clone()),
        ports: Some(ports),
        env: Some(env),
        volume_mounts: Some(vec![mount]),
        ..Default::default()
    }
}

/// Makes a `k8s_openapi` `PodTemplateSpec` whose metadata holds `labels`, as
/// the map that `ObjectMeta` keeps them in, and whose pod holds `container`
/// and `volume`; every other field is as the `default()` of its type leaves
/// it. No key may occur twice, so that the map holds the labels one for one.
/// Claimed: the object depends on these three alone.
#[verifier::external_body]
fn k8s_pod_template(
    labels: &Vec<Label>,
    container: api::core::v1::Container,
    volume: api::core::v1::Volume,
) -> (object: api::core::v1::PodTemplateSpec)
    requires
        distinct_keys(views(labels@)),
    ensures
        object == template_object(views(labels@), container, volume),
{
    let labels: BTreeMap<String, String> =
        labels.iter().map(|label| (label.key.clone(), label.value.clone())).collect();
    let volumes = Some(vec![volume]);
    api::core::v1::PodTemplateSpec {
        metadata: Some(ObjectMeta { labels: Some(labels), ..Default::default() }),
        spec: Some(
            api::core::v1::PodSpec { containers: vec![container], volumes, ..Default::default() },
        ),
    }
}

/// Makes a `k8s_openapi` `Deployment` with the name, the namespace and the
/// replica count of `spec`, a `LabelSelector` that matches `selector`, as the
/// map that it keeps labels in, and `template`; every other field is as the
/// `default()` of its type leaves it. No key may occur twice, so that the map
/// holds the labels one for one. Claimed: the object depends on these three
/// alone.
#[verifier::external_body]
fn k8s_deployment(
    spec: &ComputeSpec,
    selector: &Vec<Label>,
    template: api::core::v1::PodTemplateSpec,
) -> (object: api::apps::v1::Deployment)
    requires
        distinct_keys(views(selector@)),
    ensures
        object == deployment_object(spec@, views(selector@), template),
{
    let labels: BTreeMap<String, String> =
        selector.iter().map(|label| (label.key.clone(), label.value.clone())).collect();
    let selector = LabelSelector { match_expressions: None, match_labels: Some(labels) };
    let (name, namespace) = (Some(spec.name.clone()), Some(spec.namespace.clone()));
    let replicas = Some(spec.replicas);
    api::apps::v1::Deployment {
        metadata: ObjectMeta { name, namespace, ..Default::default() },
        spec: Some(
            api::apps::v1::DeploymentSpec { replicas, selector, template, ..Default::default() },
        ),
        ..Default::default()
    }
}

/// Calls `serde_yaml::to_string` on `deployment`. Claimed: whether there is a
/// text, and which, depends on the object alone.
#[verifier::external_body]
fn yaml_text(deployment: &api::apps::v1::Deployment) -> (rendered: Result<
    String,
    serde_yaml::Error,
>)
    ensures
        rendered matches Ok(written) ==> deployment_yaml(*deployment) == Some(written@),
        rendered is Err ==> deployment_yaml(*deployment) is None,
{
    serde_yaml::to_string(deployment)
}

/// The Kubernetes object that a workload is turned into.
///
/// Ports and variables become objects one by one and go into the container.
/// The container and the volume go into the pod template, under the labels
/// of the template that count. The template goes into the deployment, which
/// selects by the labels of the selector that count.
pub open spec fn deployment_model(spec: ComputeSpecView) -> api::apps::v1::Deployment {
    deployment_object(
        spec,
        effective(spec.selector),
        template_object(
            effective(spec.template_labels),
            container_object(
                spec.container,
                spec.container.ports.map_values(|port: PortView| port_object(port)),
                spec.container.env.map_values(|variable: EnvView| env_object(variable)),
            ),
            volume_object(spec.volume),
        ),
    )
}

/// The manifest of a workload: the YAML document of its Kubernetes object,
/// or nothing where the serialiser fails on it.
pub open spec fn manifest_model(spec: ComputeSpecView) -> Option<Seq<char>> {
    deployment_yaml(deployment_model(spec))
}

/// The Kubernetes object that `spec` describes.
pub fn to_deployment(spec: &ComputeSpec) -> (object: api::apps::v1::Deployment)
    ensures
        object == deployment_model(spec@),
{
    let mut ports: Vec<api::core::v1::ContainerPort> = Vec::new();
    let mut i: usize = 0;
    while i < spec.container.ports.len()
        invariant
            i <= spec.container.ports.len(),
            ports@.len() == i,
            forall|k: int| 0 <= k < i ==> ports@[k] == port_object(spec.container.ports@[k]@),
        decreases spec.container.ports.len() - i,
    {
        ports.push(k8s_port(&spec.container.ports[i]));
        i += 1;
    }
    let mut env: Vec<api::core::v1::EnvVar> = Vec::new();
    let mut j: usize = 0;
    while j < spec.container.env.len()
        invariant
            j <= spec.container.env.len(),
            env@.len() == j,
            forall|k: int| 0 <= k < j ==> env@[k] == env_object(spec.container.env@[k]@),
        decreases spec.container.env.len() - j,
    {
        env.push(k8s_env(&spec.container.env[j]));
        j += 1;
    }
    assert(ports@ =~= spec@.container.ports.map_values(|port: PortView| port_object(port)));
    assert(env@ =~= spec@.container.env.map_values(|variable: EnvView| env_object(variable)));
    let container = k8s_container(&spec.container, ports, env);
    let volume = k8s_volume(&spec.volume);
    let template_labels = effective_labels(&spec.template_labels);
    let template = k8s_pod_template(&template_labels, container, volume);
    let selector = effective_labels(&spec.selector);
    k8s_deployment(spec, &selector, template)
}

/// What becomes of the serialiser's answer: its text, or nothing where it
/// failed.
pub fn manifest_text(rendered: Result<String, serde_yaml::Error>) -> (text: Option<String>)
    ensures
        rendered matches Ok(written) ==> text == Some(written),
        rendered is Err ==> text is None,
{
    match rendered {
        Ok(written) => Some(written),
        Err(_) => None,
    }
}

/// The manifest of `spec`: its Kubernetes object as a YAML document, or
/// `None` where the serialiser fails on it.
pub fn render_manifest(spec: &ComputeSpec) -> (text: Option<String>)
    ensures
        text matches Some(written) ==> manifest_model(spec@) == Some(written@),
        text is None ==> manifest_model(spec@) is None,
{
    let deployment = to_deployment(spec);
    manifest_text(yaml_text(&deployment))
}

/// The manifest of the workload `pgmoneta` in namespace `default`, or `None`
/// where the serialiser fails on it.
pub fn pgmoneta_generate() -> (text: Option<String>)
    ensures
        text matches Some(written) ==> manifest_model(compute_model("pgmoneta"@, "default"@))
            == Some(written@),
        text is None ==> manifest_model(compute_model("pgmoneta"@, "default"@)) is None,
{
    let spec = pgmoneta_create("pgmoneta", "default");
    render_manifest(&spec)
}

/// Equal descriptions give the same manifest: two texts rendered for
/// descriptions with one view are the same text, and where one rendering
/// fails so does the other.
pub proof fn lemma_manifest_is_deterministic(
    first: ComputeSpecView,
    second: ComputeSpecView,
    first_text: Option<String>,
    second_text: Option<String>,
)
    requires
        first == second,
        first_text matches Some(written) ==> manifest_model(first) == Some(written@),
        first_text is None ==> manifest_model(first) is None,
        second_text matches Some(written) ==> manifest_model(second) == Some(written@),
        second_text is None ==> manifest_model(second) is None,
    ensures
        first_text is Some <==> second_text is Some,
        first_text is Some ==> first_text->Some_0@ == second_text->Some_0@,
{
}

/// File that the stock manifest is written to.
pub fn manifest_file() -> (path: &'static str)
    ensures
        path@ == manifest_file_model(),
{
    "pgopr-pgmoneta.yaml"
}

/// What an export reports once the file system has answered: success, or
/// `WriteFailed` whatever the error was.
pub fn export_outcome(written: Result<(), std::io::Error>) -> (outcome: Result<(), IoError>)
    ensures
        written is Ok ==> outcome == Ok::<(), IoError>(()),
        written is Err ==> outcome == Err::<(), IoError>(IoError::WriteFailed),
{
    match written {
        Ok(_) => Ok(()),
        Err(_) => Err(IoError::WriteFailed),
    }
}

} // verus!
