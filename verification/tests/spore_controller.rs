use akri::action::{Action, Duration};
use akri::instance::{Instance, InstanceSpec};
use akri::meta::{ObjectMeta, OwnerReference};
use akri::spore::{Spore, SporeDiscoverySelector, SporeSpec};
use akri::spore_controller::{
    decorate_for_apply, device_template_data, error_policy, linked_instances, once_template_data,
    reconcile_namespace, reconcile_plan,
    spore_ref, spores_to_reconcile, template_type, Error, SporeStep, TypeMeta, WatchedTypes,
};
use akri::spore_refs::{SporeRef, SporeRefSet, WatchedConfigurations};
use akri::string_map::StringMap;

fn spore(deleted: bool) -> Spore {
    let mut metadata = ObjectMeta::named("spore-a".to_string());
    metadata.namespace = Some("default".to_string());
    metadata.uid = Some("1234".to_string());
    if deleted {
        metadata.deletion_timestamp = Some("2024-01-01T00:00:00Z".to_string());
    }
    Spore {
        metadata,
        spec: SporeSpec { discovery_selector: SporeDiscoverySelector { name: "config-a".to_string() } },
    }
}

fn instance(deleted: bool) -> Instance {
    let mut metadata = ObjectMeta::named("instance-a".to_string());
    metadata.uid = Some("5432".to_string());
    metadata.owner_references = vec![OwnerReference {
        api_version: "akri.sh/v1alpha1".to_string(),
        kind: "DiscoveryConfiguration".to_string(),
        name: "config-a".to_string(),
        uid: "6789".to_string(),
        controller: None,
        block_owner_deletion: None,
    }];
    if deleted {
        metadata.deletion_timestamp = Some("2024-01-01T00:00:00Z".to_string());
    }
    Instance {
        metadata,
        spec: InstanceSpec {
            configuration_name: "config-a".to_string(),
            cdi_name: "akri.sh/config-a=instance-a".to_string(),
            capacity: 1,
            broker_properties: StringMap::new(),
            shared: false,
            nodes: vec![],
            device_usage: StringMap::new(),
            active_claims: vec![],
        },
    }
}

fn watched_count(w: &WatchedConfigurations, config: &str) -> usize {
    w.spores_of(&config.to_string()).len()
}

#[test]
fn test_register_type() {
    let mut watched = WatchedTypes::new();
    let t = TypeMeta { api_version: "example.com/v0".to_string(), kind: "Bar".to_string() };
    assert!(!watched.contains(&t));
    watched.insert(t.clone_type());
    assert!(watched.contains(&t));
    let other = TypeMeta { api_version: "example.com/v0".to_string(), kind: "Baz".to_string() };
    assert!(!watched.contains(&other));
}

#[test]
fn test_reconcile_no_instances() {
    let s = spore(false);
    let mut watched = WatchedConfigurations::new();
    let plan = reconcile_plan(&s, &vec![], &mut watched).ok().unwrap();
    assert_eq!(plan.action, Action::requeue(Duration::from_secs(300)));
    assert_eq!(plan.steps.len(), 1);
    assert!(matches!(plan.steps[0], SporeStep::AddSporeFinalizer));
    assert_eq!(watched_count(&watched, "config-a"), 1);
}

#[test]
fn test_reconcile_no_instances_deleted() {
    let s = spore(true);
    let mut watched = WatchedConfigurations::new();
    watched.watch(&"config-a".to_string(), spore_ref(&s));
    let plan = reconcile_plan(&s, &vec![], &mut watched).ok().unwrap();
    assert_eq!(plan.action, Action::await_change());
    assert_eq!(plan.steps.len(), 1);
    assert!(matches!(plan.steps[0], SporeStep::RemoveSporeFinalizer));
    assert_eq!(watched_count(&watched, "config-a"), 0);
}

#[test]
fn test_reconcile_with_instances() {
    let s = spore(false);
    let instances = linked_instances(&vec![instance(false)], &s);
    assert_eq!(instances.len(), 1);
    let mut watched = WatchedConfigurations::new();
    let plan = reconcile_plan(&s, &instances, &mut watched).ok().unwrap();
    assert_eq!(plan.action, Action::requeue(Duration::from_secs(300)));
    assert_eq!(plan.instance_finalizer, "akri.sh/spore_instance_1234");
    assert_eq!(plan.owner.kind, "Spore");
    assert_eq!(plan.namespace, "default");
    assert_eq!(plan.steps.len(), 4);
    assert!(matches!(plan.steps[0], SporeStep::AddSporeFinalizer));
    match &plan.steps[1] {
        SporeStep::ApplyOnce(labels) => {
            assert_eq!(labels.get(&"akri.sh/spore".to_string()), Some(&"spore-a".to_string()));
            assert_eq!(
                labels.get(&"app.kubernetes.io/managed-by".to_string()),
                Some(&"akri".to_string())
            );
            assert!(!labels.contains_key(&"akri.sh/instance".to_string()));
        }
        _ => panic!("once objects are applied"),
    }
    assert!(matches!(plan.steps[2], SporeStep::AddInstanceFinalizer(0)));
    match &plan.steps[3] {
        SporeStep::ApplyDevice(0, labels) => {
            assert_eq!(labels.get(&"akri.sh/instance".to_string()), Some(&"instance-a".to_string()));
            assert_eq!(labels.len(), 3);
        }
        _ => panic!("device objects are applied"),
    }
}

#[test]
fn test_reconcile_with_deleted_instances() {
    let s = spore(false);
    let instances = linked_instances(&vec![instance(true)], &s);
    let mut watched = WatchedConfigurations::new();
    let plan = reconcile_plan(&s, &instances, &mut watched).ok().unwrap();
    assert_eq!(plan.action, Action::requeue(Duration::from_secs(300)));
    assert_eq!(plan.steps.len(), 4);
    assert!(matches!(plan.steps[0], SporeStep::AddSporeFinalizer));
    assert!(matches!(plan.steps[1], SporeStep::DeleteOnce));
    assert!(matches!(plan.steps[2], SporeStep::DeleteDevice(0)));
    assert!(matches!(plan.steps[3], SporeStep::RemoveInstanceFinalizer(0)));
}

#[test]
fn test_reconcile_with_instances_deleted() {
    let s = spore(true);
    let instances = linked_instances(&vec![instance(false)], &s);
    let mut watched = WatchedConfigurations::new();
    let plan = reconcile_plan(&s, &instances, &mut watched).ok().unwrap();
    assert_eq!(plan.action, Action::await_change());
    assert_eq!(plan.steps.len(), 2);
    assert!(matches!(plan.steps[0], SporeStep::RemoveInstanceFinalizer(0)));
    assert!(matches!(plan.steps[1], SporeStep::RemoveSporeFinalizer));
}

#[test]
fn spore_without_namespace_or_uid_is_never_valid() {
    let mut s = spore(false);
    s.metadata.uid = None;
    let mut watched = WatchedConfigurations::new();
    assert!(matches!(reconcile_plan(&s, &vec![], &mut watched), Err(Error::Never)));
    assert_eq!(watched_count(&watched, "config-a"), 0);
    s.metadata.namespace = None;
    assert!(matches!(reconcile_namespace(&s), Err(Error::Never)));
}

#[test]
fn only_instances_of_the_selected_configuration_are_linked() {
    let s = spore(false);
    let mut other = instance(false);
    other.metadata.owner_references[0].name = "config-b".to_string();
    let mut wrong_kind = instance(false);
    wrong_kind.metadata.owner_references[0].kind = "Configuration".to_string();
    let linked = linked_instances(&vec![other, instance(false), wrong_kind], &s);
    assert_eq!(linked.len(), 1);
}

#[test]
fn spore_error_policy() {
    assert_eq!(error_policy(&Error::Never), Action::requeue(Duration::from_secs(300)));
    assert_eq!(
        error_policy(&Error::Template("t".to_string())),
        Action::requeue(Duration::from_secs(300))
    );
    assert_eq!(
        error_policy(&Error::InvalidObject("o".to_string())),
        Action::requeue(Duration::from_secs(300))
    );
    assert_eq!(
        error_policy(&Error::Anyhow("a".to_string())),
        Action::requeue(Duration::from_secs(5))
    );
}

#[test]
fn instance_changes_trigger_watching_spores() {
    let mut watched = WatchedConfigurations::new();
    let a = SporeRef { namespace: Some("ns".to_string()), name: "a".to_string() };
    let b = SporeRef { namespace: Some("ns".to_string()), name: "b".to_string() };
    watched.watch(&"config-a".to_string(), a.clone_ref());
    watched.watch(&"config-a".to_string(), b.clone_ref());
    watched.watch(&"config-a".to_string(), a.clone_ref());
    let owner = OwnerReference {
        api_version: "akri.sh/v1alpha1".to_string(),
        kind: "DiscoveryConfiguration".to_string(),
        name: "config-a".to_string(),
        uid: "1".to_string(),
        controller: None,
        block_owner_deletion: None,
    };
    assert_eq!(spores_to_reconcile(&watched, &vec![owner]).len(), 2);
    assert_eq!(spores_to_reconcile(&watched, &vec![]).len(), 0);
    watched.unwatch(&"config-a".to_string(), &a);
    let left = watched.spores_of(&"config-a".to_string());
    assert_eq!(left.len(), 1);
    assert!(left[0].same_as(&b));
    watched.unwatch(&"config-a".to_string(), &b);
    assert_eq!(watched_count(&watched, "config-a"), 0);
}

#[test]
fn spore_ref_sets() {
    let mut set = SporeRefSet::new();
    assert!(set.is_empty());
    let a = SporeRef { namespace: None, name: "a".to_string() };
    let a_ns = SporeRef { namespace: Some("x".to_string()), name: "a".to_string() };
    set.insert(a.clone_ref());
    assert!(set.contains(&a));
    assert!(!set.contains(&a_ns));
    set.remove(&a);
    assert!(set.is_empty());
}

#[test]
fn templates_are_decorated() {
    match template_type(&None) {
        Err(Error::InvalidObject(m)) => assert_eq!(m, "No valid type in object"),
        _ => panic!("a template without a type is invalid"),
    }
    let mut meta = ObjectMeta::named("cm".to_string());
    meta.labels.insert("akri.sh/spore".to_string(), "old".to_string());
    meta.labels.insert("keep".to_string(), "yes".to_string());
    let mut labels = StringMap::new();
    labels.insert("akri.sh/spore".to_string(), "spore-a".to_string());
    let owner = spore(false).controller_owner_ref().unwrap();
    decorate_for_apply(&mut meta, &owner, &labels, &"default".to_string());
    assert_eq!(meta.namespace, Some("default".to_string()));
    assert_eq!(meta.owner_references.len(), 1);
    assert_eq!(meta.labels.get(&"akri.sh/spore".to_string()), Some(&"spore-a".to_string()));
    assert_eq!(meta.labels.get(&"keep".to_string()), Some(&"yes".to_string()));
}

#[test]
fn spore_description() {
    assert_eq!(spore(false).describe(), "Spore<default::spore-a (1234)>");
    let bare = Spore {
        metadata: ObjectMeta::new(),
        spec: SporeSpec { discovery_selector: SporeDiscoverySelector { name: "c".to_string() } },
    };
    assert_eq!(bare.describe(), "Spore<:: ()>");
}

#[test]
fn unwatching_leaves_other_configurations_alone() {
    let mut watched = WatchedConfigurations::new();
    let a = SporeRef { namespace: Some("ns".to_string()), name: "a".to_string() };
    watched.watch(&"config-a".to_string(), a.clone_ref());
    watched.watch(&"config-b".to_string(), a.clone_ref());
    watched.unwatch(&"config-a".to_string(), &a);
    assert_eq!(watched_count(&watched, "config-a"), 0);
    assert_eq!(watched_count(&watched, "config-b"), 1);
    watched.unwatch(&"config-c".to_string(), &a);
    assert_eq!(watched_count(&watched, "config-b"), 1);
}

#[test]
fn template_variables() {
    let mut i = instance(false);
    i.spec.nodes = vec!["node-a".to_string()];
    i.spec.broker_properties.insert("DESCRIPTION".to_string(), "cam".to_string());
    let name = "spore-a".to_string();
    let once = once_template_data(&name, &vec![i.clone_instance()]);
    assert_eq!(once.label_selector.len(), 1);
    assert_eq!(once.label_selector.get(&"akri.sh/spore".to_string()), Some(&name));
    assert_eq!(once.instances.len(), 1);
    assert_eq!(once.instances[0].name, "instance-a");
    assert_eq!(once.instances[0].nodes, vec!["node-a".to_string()]);
    assert_eq!(once.instances[0].properties.get(&"DESCRIPTION".to_string()), Some(&"cam".to_string()));
    let device = device_template_data(&name, &i);
    assert_eq!(device.label_selector.len(), 2);
    assert_eq!(device.label_selector.get(&"akri.sh/instance".to_string()), Some(&"instance-a".to_string()));
    assert_eq!(device.instance.name, "instance-a");
}
