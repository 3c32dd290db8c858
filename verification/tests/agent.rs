use akri::cdi::{cdi_file_name, fqdn_to_file, should_remove_cdi_file, FileBasedDeviceManager};
use akri::dra_plugin::{prepare_response, unprepare_response};
use akri::resource::ClaimHandle;

#[test]
fn cdi_file_names() {
    assert_eq!(cdi_file_name("akri.sh/config-1"), "akri.sh-config-1.json");
    assert_eq!(cdi_file_name("a/b/c"), "a-b-c.json");
    assert_eq!(
        fqdn_to_file("akri.sh/config-1=instance=1"),
        Some(("akri.sh-config-1.json".to_string(), "instance=1".to_string()))
    );
    assert_eq!(fqdn_to_file("no-equal-sign"), None);
    assert_eq!(fqdn_to_file("=x"), Some((".json".to_string(), "x".to_string())));
    let dm = FileBasedDeviceManager { path: "/etc/cdi".to_string() };
    assert_eq!(
        dm.file_of("akri.sh/c=d"),
        Some(("akri.sh-c.json".to_string(), "d".to_string()))
    );
}

#[test]
fn only_stale_akri_files_are_removed() {
    let keep = vec!["akri.sh-config-1.json".to_string()];
    assert!(!should_remove_cdi_file(&"akri.sh-config-1.json".to_string(), &keep));
    assert!(should_remove_cdi_file(&"akri.sh-config-2.json".to_string(), &keep));
    assert!(!should_remove_cdi_file(&"nvidia.com-gpu.json".to_string(), &keep));
    assert!(!should_remove_cdi_file(&"akri.sh".to_string(), &keep));
}

#[test]
fn prepare_responses() {
    let handle = ClaimHandle { cdi_name: "akri.sh/c=d".to_string(), instance_name: "d".to_string() };
    let r = prepare_response(Ok(handle), true);
    assert_eq!(r.cdi_devices, vec!["akri.sh/c=d".to_string()]);
    assert_eq!(r.error, "");
    let handle = ClaimHandle { cdi_name: "akri.sh/c=d".to_string(), instance_name: "d".to_string() };
    let r = prepare_response(Ok(handle), false);
    assert!(r.cdi_devices.is_empty());
    assert_eq!(r.error, "CDI device not found on node");
    let r = prepare_response(Err("bad json".to_string()), true);
    assert!(r.cdi_devices.is_empty());
    assert_eq!(r.error, "bad json");
    assert_eq!(unprepare_response().error, "");
}
