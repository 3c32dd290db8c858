use akri::action::{Action, Duration};
use akri::dc_controller::{
    delete_instance, discovered_instances, error_policy, reconcile_done, reconcile_start,
    stale_instances, ErrorBackoffs, InstanceCleanup, ReconcileStart,
};
use akri::discovery_configuration::{
    default_capacity, default_namespace, DiscoveryConfiguration, DiscoveryConfigurationSpec,
};
use akri::instance::{Instance, InstanceSpec};
use akri::meta::{ObjectMeta, OwnerReference};
use akri::string_map::StringMap;

fn config(name: &str) -> DiscoveryConfiguration {
    DiscoveryConfiguration {
        metadata: ObjectMeta::named(name.to_string()),
        spec: DiscoveryConfigurationSpec {
            discovery_handler_name: "debugEcho".to_string(),
            discovery_details: String::default(),
            discovery_properties: None,
            instances_capacity: 1,
            extra_instances_properties: StringMap::new(),
        },
    }
}

fn instance(name: &str, nodes: &[&str], owners: Vec<OwnerReference>) -> Instance {
    let mut metadata = ObjectMeta::named(name.to_string());
    metadata.owner_references = owners;
    Instance {
        metadata,
        spec: InstanceSpec {
            configuration_name: "config-1".to_string(),
            cdi_name: format!("akri.sh/config-1={}", name),
            capacity: 1,
            broker_properties: StringMap::new(),
            shared: false,
            nodes: nodes.iter().map(|s| s.to_string()).collect(),
            device_usage: StringMap::new(),
            active_claims: vec![],
        },
    }
}

fn owner(api_version: &str, kind: &str, name: &str, uid: &str) -> OwnerReference {
    OwnerReference {
        api_version: api_version.to_string(),
        block_owner_deletion: None,
        controller: Some(true),
        kind: kind.to_string(),
        name: name.to_string(),
        uid: uid.to_string(),
    }
}

#[test]
fn test_error_policy() {
    let config_1 = config("config-1");
    let config_2 = config("config-2");
    let mut backoffs = ErrorBackoffs::new();
    assert_eq!(
        error_policy(&config_1, &mut backoffs),
        Action::requeue(Duration::from_secs(1))
    );
    assert_eq!(
        error_policy(&config_1, &mut backoffs),
        Action::requeue(Duration::from_secs(2))
    );
    assert_eq!(
        error_policy(&config_1, &mut backoffs),
        Action::requeue(Duration::from_secs(4))
    );
    assert_eq!(
        error_policy(&config_2, &mut backoffs),
        Action::requeue(Duration::from_secs(1))
    );
    assert_eq!(
        error_policy(&config_1, &mut backoffs),
        Action::requeue(Duration::from_secs(8))
    );
}

#[test]
fn success_resets_the_backoff() {
    let config_1 = config("config-1");
    let mut backoffs = ErrorBackoffs::new();
    error_policy(&config_1, &mut backoffs);
    error_policy(&config_1, &mut backoffs);
    assert_eq!(
        reconcile_done(&config_1, &mut backoffs),
        Action::requeue(Duration::from_secs(600))
    );
    assert_eq!(
        error_policy(&config_1, &mut backoffs),
        Action::requeue(Duration::from_secs(1))
    );
}

#[test]
fn backoff_stops_short_of_duration_overflow() {
    let config_1 = config("config-1");
    let mut backoffs = ErrorBackoffs::new();
    let name = "config-1".to_string();
    let mut n = 0;
    while backoffs.can_back_off(&name) {
        error_policy(&config_1, &mut backoffs);
        n += 1;
    }
    // 0.5 s * 2^65 is the first value past u64::MAX seconds.
    assert_eq!(n, 64);
}

#[test]
fn test_delete_instance_delete() {
    let i = instance("instance-1", &["node-a"], vec![]);
    match delete_instance(&i, &"node-a".to_string()) {
        InstanceCleanup::Delete(name) => assert_eq!(name, "instance-1"),
        _ => panic!("the instance should be deleted"),
    }
}

#[test]
fn test_delete_instance_remove_node() {
    let i = instance("instance-1", &["node-a", "node-b"], vec![]);
    match delete_instance(&i, &"node-a".to_string()) {
        InstanceCleanup::Release(released) => {
            assert!(released.spec.nodes.is_empty());
            assert_eq!(released.name_any(), "instance-1");
        }
        _ => panic!("the instance should be released"),
    }
}

#[test]
fn test_delete_instance_other_node() {
    let i = instance("instance-1", &["node-b"], vec![]);
    assert!(matches!(delete_instance(&i, &"node-a".to_string()), InstanceCleanup::Keep));
}

#[test]
fn test_reconcile_nothing_to_do() {
    let mut dc = config("config-1");
    dc.metadata.uid = Some("00112233-4455-6677-8899-aabbccddeeff".to_string());
    dc.metadata.finalizers = vec!["node-a".to_string()];
    let agent = "node-a".to_string();
    assert!(matches!(
        reconcile_start(&dc, &agent),
        ReconcileStart::Proceed { add_finalizer: false }
    ));
    let owner = dc.controller_owner_ref().unwrap();
    let discovered = discovered_instances(vec![], &agent, &owner, dc.spec.instances_capacity);
    assert!(discovered.is_empty());
    let cache: Vec<Instance> = vec![];
    assert!(stale_instances(&cache, &owner, &discovered).is_empty());
    let mut backoffs = ErrorBackoffs::new();
    assert_eq!(
        reconcile_done(&dc, &mut backoffs),
        Action::requeue(Duration::from_secs(600))
    );
}

#[test]
fn test_reconcile_no_request_existing_instances() {
    let cache = vec![
        instance(
            "instance-1",
            &["node-a"],
            vec![owner("akri.sh/v0", "Configuration", "config-1", "00112233-4455-6677-8899-aabbccddeeff")],
        ),
        instance(
            "instance-2",
            &["node-b"],
            vec![owner("akri.sh/v0", "Configuration", "config-1", "00112233-4455-6677-8899-aabbccddeeff")],
        ),
        instance(
            "instance-3",
            &["node-a"],
            vec![owner("akri.sh/v0", "Configuration", "config-2", "11112233-4455-6677-8899-aabbccddeeff")],
        ),
    ];
    let mut dc = config("config-1");
    dc.metadata.uid = Some("00112233-4455-6677-8899-aabbccddeeff".to_string());
    let agent = "node-a".to_string();
    assert!(matches!(
        reconcile_start(&dc, &agent),
        ReconcileStart::Proceed { add_finalizer: true }
    ));
    let owner_ref = dc.controller_owner_ref().unwrap();
    assert_eq!(owner_ref.api_version, "akri.sh/v1alpha1");
    assert_eq!(owner_ref.kind, "DiscoveryConfiguration");
    // No discovery request yet: nothing is discovered, and the cached
    // Instances are owned by another apiVersion, so none is stale.
    let discovered = discovered_instances(vec![], &agent, &owner_ref, 1);
    assert!(stale_instances(&cache, &owner_ref, &discovered).is_empty());
}

#[test]
fn vanished_owned_instances_are_stale() {
    let mut dc = config("config-1");
    dc.metadata.uid = Some("uid-1".to_string());
    let agent = "node-a".to_string();
    let owner_ref = dc.controller_owner_ref().unwrap();
    let cache = vec![
        instance("instance-1", &["node-a"], vec![owner_ref.clone_ref()]),
        instance("instance-2", &["node-a"], vec![owner_ref.clone_ref()]),
        instance("instance-3", &["node-a"], vec![]),
    ];
    let found = vec![instance("instance-2", &["node-z"], vec![])];
    let discovered = discovered_instances(found, &agent, &owner_ref, 3);
    assert_eq!(discovered.len(), 1);
    assert_eq!(discovered[0].spec.nodes, vec!["node-a".to_string()]);
    assert_eq!(discovered[0].spec.capacity, 3);
    assert!(discovered[0].metadata.has_owner_reference(&owner_ref));
    assert_eq!(stale_instances(&cache, &owner_ref, &discovered), vec![0]);
}

#[test]
fn deleted_configuration_terminates() {
    let mut dc = config("config-1");
    dc.metadata.deletion_timestamp = Some("2024-01-01T00:00:00Z".to_string());
    match reconcile_start(&dc, &"node-a".to_string()) {
        ReconcileStart::Terminate { action } => assert_eq!(action, Action::await_change()),
        _ => panic!("a deleted configuration terminates"),
    }
}

#[test]
fn configuration_defaults() {
    assert_eq!(default_namespace(), "default");
    assert_eq!(default_capacity(), 1);
}

#[test]
fn owner_ref_needs_name_and_uid() {
    let dc = config("config-1");
    assert!(dc.controller_owner_ref().is_none());
}
