use pgmoneta_lifecycle::builder::{
    app_labels, build, bundle, network_service, pgmoneta_create, resource_name, storage_claim,
    storage_claim_name,
};
use pgmoneta_lifecycle::instance::{pgmoneta_instance, WorkloadInstance};
use pgmoneta_lifecycle::kind::ResourceKind;
use pgmoneta_lifecycle::model::{
    effective_labels, ClaimVolume, EnvSpec, Label, MountSpec, PortSpec, ResourceSpec,
};

fn label(key: &str, value: &str) -> Label {
    Label { key: key.to_string(), value: value.to_string() }
}

#[test]
fn create_names_the_workload() {
    let spec = pgmoneta_create("pgmoneta", "default");
    assert_eq!(spec.name, "pgmoneta");
    assert_eq!(spec.namespace, "default");
    assert_eq!(spec.replicas, 1);
    assert_eq!(spec.container.name, "pgmoneta");
}

#[test]
fn create_uses_the_stock_image() {
    let spec = pgmoneta_create("pgmoneta", "default");
    assert_eq!(spec.container.image, "pgmoneta-rocky10:latest");
    assert_eq!(spec.container.image_pull_policy, "IfNotPresent");
}

#[test]
fn create_passes_the_stock_command_line() {
    let spec = pgmoneta_create("pgmoneta", "default");
    assert_eq!(
        spec.container.args,
        vec![
            "ppmoneta".to_string(),
            "-c".to_string(),
            "/etc/pgmoneta/pgmoneta.conf".to_string(),
            "-c".to_string(),
            "/etc/pgmoneta/pgmoeta.conf".to_string(),
        ]
    );
}

#[test]
fn create_publishes_two_ports() {
    let spec = pgmoneta_create("pgmoneta", "default");
    assert_eq!(
        spec.container.ports,
        vec![
            PortSpec { name: "proxy".to_string(), container_port: 8432 },
            PortSpec { name: "metrics".to_string(), container_port: 5001 },
        ]
    );
}

#[test]
fn create_sets_three_variables() {
    let spec = pgmoneta_create("pgmoneta", "default");
    assert_eq!(
        spec.container.env,
        vec![
            EnvSpec { name: "PG_PRIMARY_NAME".to_string(), value: "postgresql".to_string() },
            EnvSpec { name: "PG_PRIMARY_PORT".to_string(), value: "5432".to_string() },
            EnvSpec { name: "PG_BACKUP_SLOT".to_string(), value: "pgmoneta_slot".to_string() },
        ]
    );
}

#[test]
fn create_mounts_the_storage_claim() {
    let spec = pgmoneta_create("pgmoneta", "default");
    assert_eq!(
        spec.container.mount,
        MountSpec {
            volume: "pgmoneta-storage".to_string(),
            mount_path: "/home/pgmoneta".to_string(),
        }
    );
    assert_eq!(
        spec.volume,
        ClaimVolume {
            name: "pgmoneta-storage".to_string(),
            claim_name: "pgmoneta-storage".to_string(),
        }
    );
}

#[test]
fn create_labels_by_app() {
    let spec = pgmoneta_create("backup-7", "ops");
    assert_eq!(spec.selector, vec![label("app", "backup-7")]);
    assert_eq!(spec.template_labels, vec![label("app", "backup-7")]);
}

#[test]
fn create_twice_gives_the_same() {
    for (name, namespace) in [("pgmoneta", "default"), ("a", "b"), ("", ""), ("übung", "测试")] {
        assert_eq!(pgmoneta_create(name, namespace), pgmoneta_create(name, namespace));
    }
}

#[test]
fn build_twice_gives_the_same() {
    let instance = WorkloadInstance::new("pgmoneta", "default", 10).unwrap();
    for kind in [ResourceKind::Storage, ResourceKind::Compute, ResourceKind::Network] {
        assert_eq!(build(kind, &instance), build(kind, &instance));
    }
}

#[test]
fn selector_equals_template_labels() {
    for name in ["pgmoneta", "x", "", "with space", "a-b-c"] {
        let spec = pgmoneta_create(name, "default");
        assert_eq!(spec.selector, spec.template_labels);
    }
}

#[test]
fn mounted_claim_is_the_storage_claim() {
    for name in ["pgmoneta", "db", "long-name-of-a-workload"] {
        let instance = WorkloadInstance::new(name, "default", 3).unwrap();
        let compute = pgmoneta_create(name, "default");
        let storage = storage_claim(&instance);
        assert_eq!(compute.volume.claim_name, storage.name);
        assert_eq!(compute.namespace, storage.namespace);
        assert_eq!(compute.container.mount.volume, compute.volume.name);
    }
}

#[test]
fn claim_name_appends_suffix() {
    assert_eq!(storage_claim_name("pgmoneta"), "pgmoneta-storage");
    assert_eq!(storage_claim_name("db1"), "db1-storage");
    assert_eq!(storage_claim_name(""), "-storage");
}

#[test]
fn resource_names_by_kind() {
    assert_eq!(resource_name(ResourceKind::Storage, "pgmoneta"), "pgmoneta-storage");
    assert_eq!(resource_name(ResourceKind::Compute, "pgmoneta"), "pgmoneta");
    assert_eq!(resource_name(ResourceKind::Network, "pgmoneta"), "pgmoneta");
}

#[test]
fn app_labels_hold_the_name() {
    assert_eq!(app_labels("pgmoneta"), vec![label("app", "pgmoneta")]);
}

#[test]
fn storage_claim_carries_the_size() {
    let instance = WorkloadInstance::new("pgmoneta", "default", 10).unwrap();
    let claim = storage_claim(&instance);
    assert_eq!(claim.name, "pgmoneta-storage");
    assert_eq!(claim.namespace, "default");
    assert_eq!(claim.size_gib, 10);
}

#[test]
fn network_service_selects_the_workload() {
    let service = network_service("pgmoneta", "default");
    assert_eq!(service.name, "pgmoneta");
    assert_eq!(service.namespace, "default");
    assert_eq!(service.selector, pgmoneta_create("pgmoneta", "default").template_labels);
}

#[test]
fn build_gives_the_kind_asked_for() {
    let instance = WorkloadInstance::new("pgmoneta", "default", 10).unwrap();
    let storage = build(ResourceKind::Storage, &instance);
    let compute = build(ResourceKind::Compute, &instance);
    let network = build(ResourceKind::Network, &instance);
    assert_eq!(storage, ResourceSpec::Storage(storage_claim(&instance)));
    assert_eq!(compute, ResourceSpec::Compute(pgmoneta_create("pgmoneta", "default")));
    assert_eq!(network, ResourceSpec::Network(network_service("pgmoneta", "default")));
    assert_eq!(storage.kind(), ResourceKind::Storage);
    assert_eq!(compute.kind(), ResourceKind::Compute);
    assert_eq!(network.kind(), ResourceKind::Network);
    assert_eq!(storage.name(), "pgmoneta-storage");
    assert_eq!(compute.name(), "pgmoneta");
    assert_eq!(network.name(), "pgmoneta");
    assert_eq!(storage.namespace(), "default");
    assert_eq!(compute.namespace(), "default");
    assert_eq!(network.namespace(), "default");
}

#[test]
fn with_args_replaces_the_command_line() {
    let stock = pgmoneta_create("pgmoneta", "default");
    let args =
        vec!["pgmoneta".to_string(), "-c".to_string(), "/etc/pgmoneta/pgmoneta.conf".to_string()];
    let changed = pgmoneta_create("pgmoneta", "default").with_args(args.clone());
    assert_eq!(changed.container.args, args);
    assert_eq!(changed.container.image, stock.container.image);
    assert_eq!(changed.container.ports, stock.container.ports);
    assert_eq!(changed.selector, stock.selector);
    assert_eq!(changed.volume, stock.volume);
    assert_eq!(changed.name, stock.name);
}

#[test]
fn instance_keeps_what_it_was_made_of() {
    let instance = WorkloadInstance::new("pgmoneta", "default", 10).unwrap();
    assert_eq!(instance.name(), "pgmoneta");
    assert_eq!(instance.namespace(), "default");
    assert_eq!(instance.storage_size_gib(), 10);
    assert_eq!(instance.clone(), instance);
}

#[test]
fn instance_needs_a_name() {
    assert_eq!(WorkloadInstance::new("", "default", 10), None);
}

#[test]
fn instance_needs_a_namespace() {
    assert_eq!(WorkloadInstance::new("pgmoneta", "", 10), None);
}

#[test]
fn instance_needs_a_positive_size() {
    assert_eq!(WorkloadInstance::new("pgmoneta", "default", 0), None);
    assert!(WorkloadInstance::new("pgmoneta", "default", 1).is_some());
    assert!(WorkloadInstance::new("pgmoneta", "default", u32::MAX).is_some());
}

#[test]
fn stock_instance_is_pgmoneta_on_ten_gib() {
    assert_eq!(Some(pgmoneta_instance()), WorkloadInstance::new("pgmoneta", "default", 10));
}

#[test]
fn bundle_holds_all_three_in_creation_order() {
    let instance = WorkloadInstance::new("pgmoneta", "default", 10).unwrap();
    assert_eq!(
        bundle(&instance),
        vec![
            build(ResourceKind::Storage, &instance),
            build(ResourceKind::Compute, &instance),
            build(ResourceKind::Network, &instance),
        ]
    );
    assert_eq!(bundle(&instance), bundle(&instance.clone()));
}

#[test]
fn clones_are_equal() {
    let instance = WorkloadInstance::new("pgmoneta", "default", 10).unwrap();
    for spec in bundle(&instance) {
        assert_eq!(spec.clone(), spec);
    }
}

#[test]
fn later_label_counts() {
    let given = vec![label("app", "one"), label("tier", "backup"), label("app", "two")];
    assert_eq!(effective_labels(&given), vec![label("tier", "backup"), label("app", "two")]);
}

#[test]
fn distinct_labels_all_count() {
    let given = vec![label("app", "one"), label("tier", "backup"), label("zone", "a")];
    assert_eq!(effective_labels(&given), given);
    assert_eq!(effective_labels(&Vec::new()), Vec::new());
    let built = pgmoneta_create("pgmoneta", "default");
    assert_eq!(effective_labels(&built.selector), built.selector);
    assert_eq!(effective_labels(&built.template_labels), built.template_labels);
}

#[test]
fn repeated_key_counts_once() {
    let given = vec![label("app", "a"), label("app", "b"), label("app", "c")];
    assert_eq!(effective_labels(&given), vec![label("app", "c")]);
}

#[test]
fn pod_volume_keeps_its_name() {
    for name in ["pgmoneta", "db", "a", ""] {
        let spec = pgmoneta_create(name, "backups");
        assert_eq!(spec.volume.name, "pgmoneta-storage");
        assert_eq!(spec.container.mount.volume, "pgmoneta-storage");
        assert_eq!(spec.volume.claim_name, format!("{}-storage", name));
    }
}

#[test]
fn workloads_differ_by_name_only() {
    let one = pgmoneta_create("a", "x");
    let other = pgmoneta_create("b", "y");
    assert_eq!(one.replicas, other.replicas);
    assert_eq!(one.container.image, other.container.image);
    assert_eq!(one.container.image_pull_policy, other.container.image_pull_policy);
    assert_eq!(one.container.args, other.container.args);
    assert_eq!(one.container.ports, other.container.ports);
    assert_eq!(one.container.env, other.container.env);
    assert_eq!(one.container.mount, other.container.mount);
    assert_eq!(one.volume.name, other.volume.name);
    assert_ne!(one.volume.claim_name, other.volume.claim_name);
    assert_ne!(one.name, other.name);
    assert_ne!(one.namespace, other.namespace);
    assert_ne!(one.selector, other.selector);
    assert_ne!(one.container.name, other.container.name);
}
