use akri::action::{Action, Duration};
use akri::allocation::best_instance;
use akri::claim_controller::{
    allocated_action, allocation_decision, candidates_within_capacity, claim_field_manager,
    deallocation_handle, error_policy as claim_error_policy, needs_deallocation, release_patch,
    reserve_patch, ClaimDecision, Error,
};
use akri::instance::{Instance, InstanceSpec};
use akri::instance_filter::{
    InstanceFilter, InstanceFilterOperator, InstanceFilterRequirement, InstanceFilterSpec,
    InstanceFilterTerm,
};
use akri::meta::ObjectMeta;
use akri::node_set::NodeSet;
use akri::pod_scheduling::{
    allocate_on_node, claim_is_ours, claim_reference, eligible_instances, node_suits_all,
    error_policy as psc_error_policy, potential_nodes, scheduling_status, suitable_nodes,
    unsuitable_nodes, ClaimNodes, ClaimSource, Pod, PodResourceClaim,
    PodResourceClaimStatus, PodSchedulingContext,
};
use akri::resource::{
    AllocationResult, ResourceClaim, ResourceClaimSpec, ResourceClaimStatus, ResourceClass,
    ResourceHandle,
};
use akri::string_map::StringMap;

fn instance(name: &str, config: &str, capacity: usize, claims: usize, nodes: &[&str]) -> Instance {
    let mut metadata = ObjectMeta::named(name.to_string());
    metadata.resource_version = Some(format!("rv-{}", name));
    let mut broker_properties = StringMap::new();
    broker_properties.insert("NAME".to_string(), name.to_string());
    Instance {
        metadata,
        spec: InstanceSpec {
            configuration_name: config.to_string(),
            cdi_name: format!("akri.sh/{}={}", config, name),
            capacity,
            broker_properties,
            shared: true,
            nodes: nodes.iter().map(|s| s.to_string()).collect(),
            device_usage: StringMap::new(),
            active_claims: (0..claims).map(|i| format!("claim-{}", i)).collect(),
        },
    }
}

fn claim(mode: Option<&str>, class: &str, params: Option<&str>) -> ResourceClaim {
    let mut metadata = ObjectMeta::named("claim-1".to_string());
    metadata.namespace = Some("default".to_string());
    metadata.uid = Some("uid-claim-1".to_string());
    ResourceClaim {
        metadata,
        spec: ResourceClaimSpec {
            allocation_mode: mode.map(|s| s.to_string()),
            resource_class_name: class.to_string(),
            parameters_ref: params.map(|s| s.to_string()),
        },
        status: None,
    }
}

fn class(driver: &str, params: Option<&str>) -> ResourceClass {
    ResourceClass {
        metadata: ObjectMeta::named("akri-class".to_string()),
        driver_name: driver.to_string(),
        parameters_ref: params.map(|s| s.to_string()),
    }
}

fn name_filter(names: &[&str]) -> InstanceFilter {
    InstanceFilter {
        metadata: ObjectMeta::named("filter".to_string()),
        spec: InstanceFilterSpec {
            terms: vec![InstanceFilterTerm {
                match_properties: vec![InstanceFilterRequirement {
                    key: "NAME".to_string(),
                    value: Some(names.iter().map(|s| s.to_string()).collect()),
                    operator: InstanceFilterOperator::In,
                }],
            }],
        },
    }
}

#[test]
fn best_instance_takes_first_with_most_free_slots() {
    let instances = vec![
        instance("a", "c", 2, 1, &["n"]),
        instance("b", "c", 3, 1, &["n"]),
        instance("c", "c", 4, 2, &["n"]),
        instance("d", "c", 1, 1, &["n"]),
    ];
    assert_eq!(best_instance(&instances, &vec![0, 1, 2, 3]), Some(1));
    assert_eq!(best_instance(&instances, &vec![2, 1]), Some(0));
    assert_eq!(best_instance(&instances, &vec![3]), None);
    assert_eq!(best_instance(&instances, &vec![]), None);
}

#[test]
fn allocated_claims_are_requeued() {
    let mut c = claim(Some("Immediate"), "akri-class", None);
    c.status = Some(ResourceClaimStatus {
        allocation: Some(AllocationResult { resource_handles: None }),
        deallocation_requested: None,
    });
    let k = class("akri.sh", Some("config-1"));
    match allocation_decision(&c, Some(&k), None, &vec![]) {
        Ok(ClaimDecision::Done(a)) => assert_eq!(a, Action::requeue(Duration::from_secs(300))),
        _ => panic!("an allocated claim is requeued"),
    }
}

#[test]
fn claims_outside_immediate_akri_classes_are_ignored() {
    let k = class("akri.sh", Some("config-1"));
    let c = claim(Some("WaitForFirstConsumer"), "akri-class", None);
    assert!(matches!(
        allocation_decision(&c, Some(&k), None, &vec![]),
        Ok(ClaimDecision::Done(a)) if a == Action::await_change()
    ));
    let c = claim(Some("Immediate"), "akri-class", None);
    let other = class("example.com", Some("config-1"));
    assert!(matches!(
        allocation_decision(&c, Some(&other), None, &vec![]),
        Ok(ClaimDecision::Done(a)) if a == Action::await_change()
    ));
}

#[test]
fn claim_errors() {
    let c = claim(Some("Immediate"), "akri-class", None);
    assert!(matches!(allocation_decision(&c, None, None, &vec![]), Err(Error::ClassNotFound)));
    let no_params = class("akri.sh", None);
    assert!(matches!(
        allocation_decision(&c, Some(&no_params), None, &vec![]),
        Err(Error::ClassNotFound)
    ));
    let k = class("akri.sh", Some("config-1"));
    let with_filter = claim(Some("Immediate"), "akri-class", Some("filter"));
    assert!(matches!(
        allocation_decision(&with_filter, Some(&k), None, &vec![]),
        Err(Error::FilterNotFound)
    ));
    let full = vec![instance("a", "config-1", 1, 1, &["n"])];
    assert!(matches!(
        allocation_decision(&c, Some(&k), None, &full),
        Err(Error::NoMatchingInstance)
    ));
}

#[test]
fn immediate_claim_gets_best_matching_instance() {
    let instances = vec![
        instance("a", "config-2", 5, 0, &["n1"]),
        instance("b", "config-1", 2, 1, &["n1"]),
        instance("c", "config-1", 3, 0, &["n2", "n3"]),
        instance("d", "config-1", 4, 0, &["n4"]),
    ];
    let k = class("akri.sh", Some("config-1"));
    let c = claim(Some("Immediate"), "akri-class", None);
    match allocation_decision(&c, Some(&k), None, &instances) {
        Ok(ClaimDecision::Allocate(a)) => {
            assert_eq!(a.handle.instance_name, "d");
            assert_eq!(a.handle.cdi_name, "akri.sh/config-1=d");
            assert_eq!(a.nodes, vec!["n4".to_string()]);
            assert_eq!(a.instance_resource_version, Some("rv-d".to_string()));
        }
        _ => panic!("expected an allocation"),
    }
    let f = name_filter(&["b", "c"]);
    let c = claim(Some("Immediate"), "akri-class", Some("filter"));
    match allocation_decision(&c, Some(&k), Some(&f), &instances) {
        Ok(ClaimDecision::Allocate(a)) => {
            assert_eq!(a.handle.instance_name, "c");
            assert_eq!(a.nodes, vec!["n2".to_string(), "n3".to_string()]);
        }
        _ => panic!("expected an allocation"),
    }
}

#[test]
fn deallocation_needs_finalizer_and_handle() {
    let mut c = claim(Some("Immediate"), "akri-class", None);
    assert!(!needs_deallocation(&c));
    c.metadata.deletion_timestamp = Some("2024-01-01T00:00:00Z".to_string());
    assert!(!needs_deallocation(&c));
    c.metadata.finalizers = vec!["akri.sh/driver-controller".to_string()];
    assert!(needs_deallocation(&c));
    assert!(matches!(deallocation_handle(&c), Err(Error::InvalidObject)));
    c.status = Some(ResourceClaimStatus {
        allocation: Some(AllocationResult {
            resource_handles: Some(vec![ResourceHandle {
                data: Some("{\"cdi_name\":\"x\",\"instance_name\":\"y\"}".to_string()),
                driver_name: Some("akri.sh".to_string()),
            }]),
        }),
        deallocation_requested: None,
    });
    assert_eq!(
        deallocation_handle(&c).unwrap(),
        "{\"cdi_name\":\"x\",\"instance_name\":\"y\"}"
    );
    c.metadata.deletion_timestamp = None;
    assert!(!needs_deallocation(&c));
    if let Some(st) = c.status.as_mut() {
        st.deallocation_requested = Some(true);
    }
    assert!(needs_deallocation(&c));
}

fn pod() -> Pod {
    let mut metadata = ObjectMeta::named("pod-1".to_string());
    metadata.namespace = Some("default".to_string());
    Pod {
        metadata,
        resource_claims: vec![],
        resource_claim_statuses: vec![
            PodResourceClaimStatus { name: "gpu".to_string(), resource_claim_name: Some("pod-1-gpu-abc".to_string()) },
            PodResourceClaimStatus { name: "gpu".to_string(), resource_claim_name: Some("ignored".to_string()) },
            PodResourceClaimStatus { name: "cam".to_string(), resource_claim_name: None },
        ],
    }
}

#[test]
fn pod_claims_refer_to_resource_claims() {
    let p = pod();
    let direct = PodResourceClaim {
        name: "x".to_string(),
        source: Some(ClaimSource { resource_claim_name: Some("claim-x".to_string()), resource_claim_template_name: None }),
    };
    assert_eq!(claim_reference(&direct, &p), Some("claim-x".to_string()));
    let templated = PodResourceClaim {
        name: "gpu".to_string(),
        source: Some(ClaimSource { resource_claim_name: None, resource_claim_template_name: Some("t".to_string()) }),
    };
    assert_eq!(claim_reference(&templated, &p), Some("pod-1-gpu-abc".to_string()));
    let pending = PodResourceClaim {
        name: "cam".to_string(),
        source: Some(ClaimSource { resource_claim_name: None, resource_claim_template_name: Some("t".to_string()) }),
    };
    assert_eq!(claim_reference(&pending, &p), None);
    let unknown = PodResourceClaim {
        name: "other".to_string(),
        source: Some(ClaimSource { resource_claim_name: None, resource_claim_template_name: Some("t".to_string()) }),
    };
    assert_eq!(claim_reference(&unknown, &p), None);
    let no_source = PodResourceClaim { name: "gpu".to_string(), source: None };
    assert_eq!(claim_reference(&no_source, &p), None);
}

#[test]
fn waiting_claims_of_akri_classes_are_ours() {
    let k = class("akri.sh", Some("config-1"));
    let waiting = claim(Some("WaitForFirstConsumer"), "akri-class", None);
    assert_eq!(claim_is_ours(&waiting, Some(&k)), Some("config-1".to_string()));
    assert_eq!(claim_is_ours(&waiting, None), None);
    let immediate = claim(Some("Immediate"), "akri-class", None);
    assert_eq!(claim_is_ours(&immediate, Some(&k)), None);
    let other = class("example.com", Some("config-1"));
    assert_eq!(claim_is_ours(&waiting, Some(&other)), None);
}

#[test]
fn scheduling_nodes_and_allocation() {
    let instances = vec![
        instance("a", "config-1", 1, 1, &["n1"]),
        instance("b", "config-1", 2, 0, &["n2", "n3"]),
        instance("c", "config-1", 3, 0, &["n3"]),
        instance("d", "config-2", 3, 0, &["n4"]),
    ];
    let config = "config-1".to_string();
    let eligible = eligible_instances(&instances, &config, None, None);
    assert_eq!(eligible, vec![1, 2]);
    let suitable = suitable_nodes(&instances, &eligible);
    let mut expected = suitable.to_vec();
    expected.sort();
    assert_eq!(expected, vec!["n2".to_string(), "n3".to_string()]);

    let psc = PodSchedulingContext {
        metadata: ObjectMeta::named("pod-1".to_string()),
        selected_node: Some("n1".to_string()),
        potential_nodes: vec!["n2".to_string(), "n4".to_string()],
    };
    let potential = potential_nodes(&psc);
    let mut unsuitable = unsuitable_nodes(&potential, &suitable).to_vec();
    unsuitable.sort();
    assert_eq!(unsuitable, vec!["n1".to_string(), "n4".to_string()]);

    assert!(!node_suits_all(&"n1".to_string(), &vec![suitable_nodes(&instances, &eligible)]));
    assert!(node_suits_all(&"n3".to_string(), &vec![suitable_nodes(&instances, &eligible)]));
    assert!(node_suits_all(&"n9".to_string(), &vec![]));

    let a = allocate_on_node(&instances, &config, None, &"n3".to_string()).unwrap();
    assert_eq!(a.handle.instance_name, "c");
    assert_eq!(a.node, "n3");
    let a = allocate_on_node(&instances, &config, None, &"n2".to_string()).unwrap();
    assert_eq!(a.handle.instance_name, "b");
    assert!(matches!(
        allocate_on_node(&instances, &config, None, &"n1".to_string()),
        Err(Error::NoMatchingInstance)
    ));
    let f = name_filter(&["b"]);
    assert_eq!(eligible_instances(&instances, &config, Some(&f), None), vec![1]);
    let a = allocate_on_node(&instances, &config, Some(&f), &"n3".to_string()).unwrap();
    assert_eq!(a.handle.instance_name, "b");
}

#[test]
fn node_set_difference() {
    let a = NodeSet::from_strings(&vec!["x".to_string(), "y".to_string(), "x".to_string()]);
    let b = NodeSet::from_strings(&vec!["y".to_string()]);
    assert_eq!(a.to_vec(), vec!["x".to_string(), "y".to_string()]);
    assert_eq!(a.difference(&b).to_vec(), vec!["x".to_string()]);
    assert!(a.contains(&"y".to_string()));
    assert!(!b.contains(&"x".to_string()));
}

#[test]
fn over_capacity_candidates_are_detected() {
    let k = class("akri.sh", Some("config-1"));
    let c = claim(Some("Immediate"), "akri-class", None);
    let over = vec![instance("a", "config-1", 1, 0, &["n"]), instance("b", "config-1", 1, 2, &["n"])];
    assert!(!candidates_within_capacity(&c, Some(&k), None, &over));
    let other_config = vec![instance("b", "config-2", 1, 2, &["n"])];
    assert!(candidates_within_capacity(&c, Some(&k), None, &other_config));
    let f = name_filter(&["a"]);
    let filtered = claim(Some("Immediate"), "akri-class", Some("filter"));
    assert!(candidates_within_capacity(&filtered, Some(&k), Some(&f), &over));
    let waiting = claim(Some("WaitForFirstConsumer"), "akri-class", None);
    assert!(candidates_within_capacity(&waiting, Some(&k), None, &over));
    assert!(candidates_within_capacity(&c, None, None, &over));
}

#[test]
fn claims_hold_instances_under_their_own_field_manager() {
    assert_eq!(
        claim_field_manager(&"uid-claim-1".to_string()),
        "akri.sh/driver-controller=uid-claim-1"
    );
}

#[test]
fn scheduling_status_has_one_entry_per_claim() {
    let potential = NodeSet::from_strings(&vec!["n1".to_string(), "n2".to_string(), "n3".to_string()]);
    let claims = vec![
        ClaimNodes { name: "a".to_string(), suitable: NodeSet::from_strings(&vec!["n1".to_string()]) },
        ClaimNodes { name: "b".to_string(), suitable: NodeSet::from_strings(&vec![]) },
        ClaimNodes {
            name: "a".to_string(),
            suitable: NodeSet::from_strings(&vec!["n1".to_string(), "n2".to_string()]),
        },
    ];
    let status = scheduling_status(&claims, &potential);
    assert_eq!(status.action, Action::requeue(Duration::from_secs(3600)));
    assert_eq!(status.statuses.len(), 2);
    for entry in &status.statuses {
        let mut unsuitable = entry.unsuitable_nodes.to_vec();
        unsuitable.sort();
        match entry.name.as_str() {
            "a" => assert_eq!(unsuitable, vec!["n3".to_string()]),
            "b" => assert_eq!(unsuitable, vec!["n1".to_string(), "n2".to_string(), "n3".to_string()]),
            other => panic!("unexpected entry {}", other),
        }
    }
    assert_eq!(scheduling_status(&vec![], &potential).statuses.len(), 0);
}

#[test]
fn driver_error_policies_retry_after_a_minute() {
    assert_eq!(psc_error_policy(), Action::requeue(Duration::from_secs(60)));
    assert_eq!(claim_error_policy(), Action::requeue(Duration::from_secs(60)));
    assert_eq!(allocated_action(), Action::requeue(Duration::from_secs(300)));
}

#[test]
fn instance_reservation_and_release() {
    let uid = "uid-claim-1".to_string();
    let reserve = reserve_patch(&"instance-1".to_string(), &"rv-7".to_string(), &uid);
    assert_eq!(reserve.instance_name, "instance-1");
    assert_eq!(reserve.resource_version, Some("rv-7".to_string()));
    assert_eq!(reserve.active_claims, vec![uid.clone()]);
    assert_eq!(reserve.field_manager, "akri.sh/driver-controller=uid-claim-1");
    let release = release_patch(&"instance-1".to_string(), &uid);
    assert_eq!(release.instance_name, "instance-1");
    assert_eq!(release.resource_version, None);
    assert!(release.active_claims.is_empty());
    assert_eq!(release.field_manager, "akri.sh/driver-controller=uid-claim-1");
}
