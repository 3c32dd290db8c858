use akri::meta::{ObjectMeta, OwnerReference};
use akri::string_map::StringMap;

#[test]
fn object_meta_name_any_prefers_name() {
    let mut meta = ObjectMeta::new();
    assert_eq!(meta.name_any(), "");
    meta.generate_name = Some("gen-".to_string());
    assert_eq!(meta.name_any(), "gen-");
    meta.name = Some("named".to_string());
    assert_eq!(meta.name_any(), "named");
}

#[test]
fn owner_reference_equality_is_field_by_field() {
    let a = OwnerReference {
        api_version: "akri.sh/v1alpha1".to_string(),
        kind: "DiscoveryConfiguration".to_string(),
        name: "config-1".to_string(),
        uid: "1".to_string(),
        controller: Some(true),
        block_owner_deletion: None,
    };
    let b = a.clone_ref();
    assert!(a.same_as(&b));
    let mut c = a.clone_ref();
    c.controller = None;
    assert!(!a.same_as(&c));
}

#[test]
fn string_map_insert_get_remove_extend() {
    let mut m = StringMap::new();
    assert_eq!(m.len(), 0);
    m.insert("a".to_string(), "1".to_string());
    m.insert("b".to_string(), "2".to_string());
    m.insert("a".to_string(), "3".to_string());
    assert_eq!(m.len(), 2);
    assert_eq!(m.get(&"a".to_string()), Some(&"3".to_string()));
    assert!(m.contains_key(&"b".to_string()));
    assert_eq!(m.remove(&"b".to_string()), Some("2".to_string()));
    assert!(!m.contains_key(&"b".to_string()));
    assert_eq!(m.remove(&"b".to_string()), None);
    let mut other = StringMap::new();
    other.insert("a".to_string(), "4".to_string());
    other.insert("c".to_string(), "5".to_string());
    m.extend(&other);
    assert_eq!(m.get(&"a".to_string()), Some(&"4".to_string()));
    assert_eq!(m.get(&"c".to_string()), Some(&"5".to_string()));
    assert_eq!(m.len(), 2);
}
