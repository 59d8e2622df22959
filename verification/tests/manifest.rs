use k8s_openapi::api::apps::v1::Deployment;
use pgmoneta_lifecycle::builder::pgmoneta_create;
use pgmoneta_lifecycle::error::IoError;
use pgmoneta_lifecycle::model::Label;
use pgmoneta_lifecycle::manifest::{
    export_outcome, manifest_file, manifest_text, pgmoneta_generate, render_manifest,
    to_deployment,
};
use std::collections::BTreeMap;

fn app(name: &str) -> Option<BTreeMap<String, String>> {
    let mut labels = BTreeMap::new();
    labels.insert("app".to_string(), name.to_string());
    Some(labels)
}

#[test]
fn deployment_carries_name_and_namespace() {
    let deployment = to_deployment(&pgmoneta_create("pgmoneta", "default"));
    assert_eq!(deployment.metadata.name.as_deref(), Some("pgmoneta"));
    assert_eq!(deployment.metadata.namespace.as_deref(), Some("default"));
    assert_eq!(deployment.metadata.labels, None);
    assert_eq!(deployment.status, None);
}

#[test]
fn deployment_selects_its_own_pods() {
    let deployment = to_deployment(&pgmoneta_create("pgmoneta", "default"));
    let spec = deployment.spec.unwrap();
    assert_eq!(spec.replicas, Some(1));
    assert_eq!(spec.selector.match_labels, app("pgmoneta"));
    assert_eq!(spec.selector.match_expressions, None);
    assert_eq!(spec.template.metadata.unwrap().labels, app("pgmoneta"));
}

#[test]
fn deployment_holds_one_container() {
    let deployment = to_deployment(&pgmoneta_create("pgmoneta", "default"));
    let pod = deployment.spec.unwrap().template.spec.unwrap();
    assert_eq!(pod.containers.len(), 1);
    let container = &pod.containers[0];
    assert_eq!(container.name, "pgmoneta");
    assert_eq!(container.image.as_deref(), Some("pgmoneta-rocky10:latest"));
    assert_eq!(container.image_pull_policy.as_deref(), Some("IfNotPresent"));
    assert_eq!(
        container.args,
        Some(vec![
            "ppmoneta".to_string(),
            "-c".to_string(),
            "/etc/pgmoneta/pgmoneta.conf".to_string(),
            "-c".to_string(),
            "/etc/pgmoneta/pgmoeta.conf".to_string(),
        ])
    );
    assert_eq!(container.command, None);
}

#[test]
fn deployment_publishes_the_ports() {
    let deployment = to_deployment(&pgmoneta_create("pgmoneta", "default"));
    let pod = deployment.spec.unwrap().template.spec.unwrap();
    let ports = pod.containers[0].ports.clone().unwrap();
    let named: Vec<(Option<String>, i32)> =
        ports.iter().map(|port| (port.name.clone(), port.container_port)).collect();
    assert_eq!(
        named,
        vec![(Some("proxy".to_string()), 8432), (Some("metrics".to_string()), 5001)]
    );
    assert_eq!(ports[0].protocol, None);
    assert_eq!(ports[0].host_port, None);
}

#[test]
fn deployment_sets_the_variables() {
    let deployment = to_deployment(&pgmoneta_create("pgmoneta", "default"));
    let pod = deployment.spec.unwrap().template.spec.unwrap();
    let env = pod.containers[0].env.clone().unwrap();
    let pairs: Vec<(String, Option<String>)> =
        env.iter().map(|variable| (variable.name.clone(), variable.value.clone())).collect();
    assert_eq!(
        pairs,
        vec![
            ("PG_PRIMARY_NAME".to_string(), Some("postgresql".to_string())),
            ("PG_PRIMARY_PORT".to_string(), Some("5432".to_string())),
            ("PG_BACKUP_SLOT".to_string(), Some("pgmoneta_slot".to_string())),
        ]
    );
    assert_eq!(env[0].value_from, None);
}

#[test]
fn deployment_mounts_the_claim() {
    let deployment = to_deployment(&pgmoneta_create("db", "backups"));
    let pod = deployment.spec.unwrap().template.spec.unwrap();
    let mounts = pod.containers[0].volume_mounts.clone().unwrap();
    assert_eq!(mounts.len(), 1);
    assert_eq!(mounts[0].name, "pgmoneta-storage");
    assert_eq!(mounts[0].mount_path, "/home/pgmoneta");
    let volumes = pod.volumes.unwrap();
    assert_eq!(volumes.len(), 1);
    assert_eq!(volumes[0].name, "pgmoneta-storage");
    let claim = volumes[0].persistent_volume_claim.clone().unwrap();
    assert_eq!(claim.claim_name, "db-storage");
    assert_eq!(claim.read_only, None);
}

#[test]
fn deployment_follows_a_changed_description() {
    let mut spec = pgmoneta_create("pgmoneta", "default").with_args(vec!["pgmoneta".to_string()]);
    spec.replicas = 3;
    spec.container.image = "pgmoneta:test".to_string();
    spec.container.ports.pop();
    let deployment = to_deployment(&spec);
    let inner = deployment.spec.unwrap();
    assert_eq!(inner.replicas, Some(3));
    let pod = inner.template.spec.unwrap();
    assert_eq!(pod.containers[0].image.as_deref(), Some("pgmoneta:test"));
    assert_eq!(pod.containers[0].args, Some(vec!["pgmoneta".to_string()]));
    assert_eq!(pod.containers[0].ports.clone().unwrap().len(), 1);
}

#[test]
fn manifest_reads_back_as_the_deployment() {
    let spec = pgmoneta_create("pgmoneta", "default");
    let text = render_manifest(&spec).unwrap();
    let read: Deployment = serde_yaml::from_str(&text).unwrap();
    assert_eq!(read, to_deployment(&spec));
}

#[test]
fn manifest_is_the_same_each_time() {
    let spec = pgmoneta_create("pgmoneta", "default");
    assert_eq!(render_manifest(&spec), render_manifest(&spec));
    assert_eq!(pgmoneta_generate(), pgmoneta_generate());
}

#[test]
fn manifest_names_kind_and_image() {
    let text = pgmoneta_generate().unwrap();
    assert!(text.contains("kind: Deployment"));
    assert!(text.contains("apiVersion: apps/v1"));
    assert!(text.contains("name: pgmoneta"));
    assert!(text.contains("namespace: default"));
    assert!(text.contains("image: pgmoneta-rocky10:latest"));
    assert!(text.contains("claimName: pgmoneta-storage"));
}

#[test]
fn generate_gives_the_stock_manifest() {
    assert_eq!(pgmoneta_generate(), render_manifest(&pgmoneta_create("pgmoneta", "default")));
}

#[test]
fn manifest_text_keeps_what_was_written() {
    assert_eq!(manifest_text(Ok("a: 1\n".to_string())), Some("a: 1\n".to_string()));
}

#[test]
fn manifest_text_is_none_after_a_failure() {
    let failure = serde_yaml::from_str::<i32>("not a number").unwrap_err();
    assert_eq!(manifest_text(Err(failure)), None);
}

#[test]
fn manifest_goes_to_the_stock_file() {
    assert_eq!(manifest_file(), "pgopr-pgmoneta.yaml");
}

#[test]
fn export_succeeds_when_the_write_does() {
    assert_eq!(export_outcome(Ok(())), Ok(()));
}

#[test]
fn export_reports_write_failed() {
    let full = std::io::Error::new(std::io::ErrorKind::StorageFull, "no space left");
    assert_eq!(export_outcome(Err(full)), Err(IoError::WriteFailed));
    let denied = std::io::Error::from(std::io::ErrorKind::PermissionDenied);
    assert_eq!(export_outcome(Err(denied)), Err(IoError::WriteFailed));
}

#[test]
fn later_label_wins_in_the_deployment() {
    let mut spec = pgmoneta_create("pgmoneta", "default");
    spec.selector.push(Label { key: "tier".to_string(), value: "backup".to_string() });
    spec.selector.push(Label { key: "app".to_string(), value: "other".to_string() });
    let deployment = to_deployment(&spec);
    let mut expected = BTreeMap::new();
    expected.insert("app".to_string(), "other".to_string());
    expected.insert("tier".to_string(), "backup".to_string());
    assert_eq!(deployment.spec.unwrap().selector.match_labels, Some(expected));
}
