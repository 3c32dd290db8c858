use akri::ownership::{OwnershipInfo, OwnershipType, API_NAMESPACE, API_VERSION};

#[test]
fn test_ownership_from_config() {
    let name = "asdf";
    let uid = "zxcv";
    let ownership =
        OwnershipInfo::new(OwnershipType::Configuration, name.to_string(), uid.to_string());
    assert_eq!(format!("{}/{}", API_NAMESPACE, API_VERSION), ownership.get_api_version());
    assert_eq!("Configuration", &ownership.get_kind());
    assert!(ownership.get_controller().unwrap());
    assert!(ownership.get_block_owner_deletion().unwrap());
    assert_eq!(name, &ownership.get_name());
    assert_eq!(uid, &ownership.get_uid());
}

#[test]
fn test_ownership_from_instance() {
    let name = "asdf";
    let uid = "zxcv";
    let ownership = OwnershipInfo::new(OwnershipType::Instance, name.to_string(), uid.to_string());
    assert_eq!(format!("{}/{}", API_NAMESPACE, API_VERSION), ownership.get_api_version());
    assert_eq!("Instance", &ownership.get_kind());
    assert!(ownership.get_controller().unwrap());
    assert!(ownership.get_block_owner_deletion().unwrap());
    assert_eq!(name, &ownership.get_name());
    assert_eq!(uid, &ownership.get_uid());
}

#[test]
fn test_ownership_from_pod() {
    let name = "asdf";
    let uid = "zxcv";
    let ownership = OwnershipInfo::new(OwnershipType::Pod, name.to_string(), uid.to_string());
    assert_eq!("core/v1", ownership.get_api_version());
    assert_eq!("Pod", &ownership.get_kind());
    assert!(ownership.get_controller().unwrap());
    assert!(ownership.get_block_owner_deletion().unwrap());
    assert_eq!(name, &ownership.get_name());
    assert_eq!(uid, &ownership.get_uid());
}

#[test]
fn test_ownership_from_service() {
    let name = "asdf";
    let uid = "zxcv";
    let ownership = OwnershipInfo::new(OwnershipType::Service, name.to_string(), uid.to_string());
    assert_eq!("core/v1", ownership.get_api_version());
    assert_eq!("Service", &ownership.get_kind());
    assert!(ownership.get_controller().unwrap());
    assert!(ownership.get_block_owner_deletion().unwrap());
    assert_eq!(name, &ownership.get_name());
    assert_eq!(uid, &ownership.get_uid());
}

#[test]
fn api_version_of_akri_objects() {
    let o = OwnershipInfo::new(OwnershipType::Instance, "a".to_string(), "b".to_string());
    assert_eq!(o.get_api_version(), "akri.sh/v0");
}
