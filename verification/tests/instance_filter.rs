use akri::instance::{Instance, InstanceSpec};
use akri::instance_filter::{
    InstanceFilter, InstanceFilterOperator, InstanceFilterRequirement, InstanceFilterSpec,
    InstanceFilterTerm,
};
use akri::meta::ObjectMeta;
use akri::parse::parse_i64;
use akri::string_map::StringMap;

fn instance_with(props: &[(&str, &str)]) -> Instance {
    let mut broker_properties = StringMap::new();
    for (k, v) in props {
        broker_properties.insert(k.to_string(), v.to_string());
    }
    Instance {
        metadata: ObjectMeta::named("instance-1".to_string()),
        spec: InstanceSpec {
            configuration_name: "config-1".to_string(),
            cdi_name: "akri.sh/config-1=instance-1".to_string(),
            capacity: 1,
            broker_properties,
            shared: false,
            nodes: vec!["node-a".to_string()],
            device_usage: StringMap::new(),
            active_claims: vec![],
        },
    }
}

fn req(key: &str, values: Option<&[&str]>, operator: InstanceFilterOperator) -> InstanceFilterRequirement {
    InstanceFilterRequirement {
        key: key.to_string(),
        value: values.map(|v| v.iter().map(|s| s.to_string()).collect()),
        operator,
    }
}

fn filter(terms: Vec<Vec<InstanceFilterRequirement>>) -> InstanceFilter {
    InstanceFilter {
        metadata: ObjectMeta::named("filter".to_string()),
        spec: InstanceFilterSpec {
            terms: terms.into_iter().map(|t| InstanceFilterTerm { match_properties: t }).collect(),
        },
    }
}

#[test]
fn empty_filter_matches_everything() {
    let i = instance_with(&[]);
    assert!(filter(vec![]).matches(&i));
    assert!(InstanceFilter::accept_all().matches(&i));
}

#[test]
fn exists_and_not_exists() {
    let i = instance_with(&[("VENDOR", "acme")]);
    assert!(req("VENDOR", None, InstanceFilterOperator::Exists).matches(&i));
    assert!(!req("VENDOR", None, InstanceFilterOperator::NotExists).matches(&i));
    assert!(!req("MODEL", None, InstanceFilterOperator::Exists).matches(&i));
    assert!(req("MODEL", None, InstanceFilterOperator::NotExists).matches(&i));
}

#[test]
fn in_and_not_in() {
    let i = instance_with(&[("VENDOR", "acme")]);
    assert!(req("VENDOR", Some(&["foo", "acme"]), InstanceFilterOperator::In).matches(&i));
    assert!(!req("VENDOR", Some(&["foo"]), InstanceFilterOperator::In).matches(&i));
    assert!(!req("VENDOR", None, InstanceFilterOperator::In).matches(&i));
    assert!(req("VENDOR", Some(&["foo"]), InstanceFilterOperator::NotIn).matches(&i));
    assert!(!req("VENDOR", Some(&["acme"]), InstanceFilterOperator::NotIn).matches(&i));
    assert!(req("VENDOR", None, InstanceFilterOperator::NotIn).matches(&i));
    // A missing property is neither in nor out of a list.
    assert!(!req("MODEL", Some(&["foo"]), InstanceFilterOperator::In).matches(&i));
    assert!(!req("MODEL", Some(&["foo"]), InstanceFilterOperator::NotIn).matches(&i));
}

#[test]
fn gt_and_lt_compare_integers() {
    let i = instance_with(&[("SIZE", "42"), ("NAME", "big")]);
    assert!(req("SIZE", Some(&["41"]), InstanceFilterOperator::Gt).matches(&i));
    assert!(!req("SIZE", Some(&["42"]), InstanceFilterOperator::Gt).matches(&i));
    assert!(req("SIZE", Some(&["43", "0"]), InstanceFilterOperator::Lt).matches(&i));
    assert!(!req("SIZE", Some(&["42"]), InstanceFilterOperator::Lt).matches(&i));
    assert!(req("SIZE", Some(&["-100"]), InstanceFilterOperator::Gt).matches(&i));
    // Non-integers, missing values and missing properties never compare.
    assert!(!req("NAME", Some(&["1"]), InstanceFilterOperator::Gt).matches(&i));
    assert!(!req("SIZE", Some(&["x"]), InstanceFilterOperator::Lt).matches(&i));
    assert!(!req("SIZE", Some(&[]), InstanceFilterOperator::Gt).matches(&i));
    assert!(!req("SIZE", None, InstanceFilterOperator::Lt).matches(&i));
    assert!(!req("MODEL", Some(&["1"]), InstanceFilterOperator::Gt).matches(&i));
}

#[test]
fn terms_are_or_of_ands() {
    let i = instance_with(&[("VENDOR", "acme"), ("SIZE", "3")]);
    let f = filter(vec![
        vec![
            req("VENDOR", Some(&["acme"]), InstanceFilterOperator::In),
            req("SIZE", Some(&["5"]), InstanceFilterOperator::Gt),
        ],
        vec![req("MODEL", None, InstanceFilterOperator::Exists)],
    ]);
    assert!(!f.matches(&i));
    let f = filter(vec![
        vec![
            req("VENDOR", Some(&["acme"]), InstanceFilterOperator::In),
            req("SIZE", Some(&["5"]), InstanceFilterOperator::Gt),
        ],
        vec![req("MODEL", None, InstanceFilterOperator::NotExists)],
    ]);
    assert!(f.matches(&i));
    let empty_term = filter(vec![vec![]]);
    assert!(empty_term.matches(&i));
}

#[test]
fn parse_i64_follows_the_std_grammar() {
    for s in ["0", "42", "-42", "+42", "007", "-0", "9223372036854775807", "-9223372036854775808", "", "+", "-", "4 2", " 1", "1x", "9223372036854775808", "-9223372036854775809", "00000000000000000000000000001", "٣", "--1", "+-1"] {
        assert_eq!(parse_i64(s), s.parse::<i64>().ok(), "input {:?}", s);
    }
}
