//! Registered devices, the order of texts, and names of the system's rules.

use rapid_driver::name_map::NameMap;
use rapid_driver::order::{sort_texts, text_before};
use rapid_driver::registry::{extract_identity, find_match, DeviceEntry, Registry, UsbIdentity};
use rapid_driver::udev_rule::{generate_rule, rule_file_name};

fn usb(name: &str, vid: &str, pid: &str, serial: &str) -> DeviceEntry {
    DeviceEntry {
        name: name.to_string(),
        backend: "usb".to_string(),
        vid: vid.to_string(),
        pid: pid.to_string(),
        serial: serial.to_string(),
        service_type: String::new(),
        on_attach: "run".to_string(),
        on_detach: String::new(),
        on_record_start: String::new(),
        on_record_stop: String::new(),
        sensor_type: String::new(),
    }
}

fn identity(vid: &str, pid: &str, serial: &str) -> UsbIdentity {
    UsbIdentity {
        vid: vid.to_string(),
        pid: pid.to_string(),
        serial: serial.to_string(),
        sysname: "1-1".to_string(),
    }
}

#[test]
fn serial_numbers_go_before_models() {
    let registry = Registry {
        devices: vec![
            usb("any", "1d6b", "0002", ""),
            usb("mine", "1d6b", "0002", "SN1"),
            usb("other", "1d6b", "0003", ""),
        ],
    };
    let found = find_match(&registry, &identity("1d6b", "0002", "SN1")).unwrap();
    assert_eq!(found.name, "mine");
    let found = find_match(&registry, &identity("1d6b", "0002", "SN2")).unwrap();
    assert_eq!(found.name, "any");
    let found = find_match(&registry, &identity("1d6b", "0002", "")).unwrap();
    assert_eq!(found.name, "any");
    assert!(find_match(&registry, &identity("1d6b", "0004", "")).is_none());
}

#[test]
fn identities_need_vendor_and_model() {
    let id = extract_identity(Some("1d6b"), Some("0002"), None, "1-1.4").unwrap();
    assert_eq!(id.vid, "1d6b");
    assert_eq!(id.pid, "0002");
    assert_eq!(id.serial, "");
    assert_eq!(id.sysname, "1-1.4");
    assert!(extract_identity(None, Some("0002"), Some("S"), "1-1").is_none());
    assert!(extract_identity(Some("1d6b"), None, Some("S"), "1-1").is_none());
}

#[test]
fn added_devices_are_found_and_removed_ones_are_not() {
    let mut registry = Registry { devices: vec![] };
    assert!(registry.add(usb("arm", "1", "2", "")).is_ok());
    assert!(registry.add(usb("camera", "1", "3", "")).is_ok());
    assert_eq!(registry.find("arm").unwrap().pid, "2");
    let refused = registry.add(usb("arm", "9", "9", ""));
    assert!(refused.is_err());
    assert_eq!(registry.devices.len(), 2);
    assert!(registry.remove("arm").is_ok());
    assert!(registry.find("arm").is_none());
    assert_eq!(registry.find("camera").unwrap().pid, "3");
    assert!(registry.remove("arm").is_err());
}

#[test]
fn names_are_sorted() {
    let registry =
        Registry { devices: vec![usb("b", "", "", ""), usb("Z", "", "", ""), usb("a", "", "", "")] };
    assert_eq!(registry.device_names_sorted(), vec!["Z", "a", "b"]);
}

#[test]
fn texts_are_sorted_as_strings_are() {
    let mut list: Vec<String> =
        ["b", "", "ab", "a", "aé", "a\u{ffff}", "a\u{10000}", "B", "b"].iter().map(|s| s.to_string()).collect();
    let sorted = sort_texts(&list);
    list.sort();
    assert_eq!(sorted, list);
    assert!(text_before("a", "ab"));
    assert!(text_before("ab", "ab"));
    assert!(!text_before("b", "ab"));
}

#[test]
fn rules_name_the_device() {
    let rule = generate_rule(&usb("arm", "1d6b", "0002", "SN1"));
    let conditions = "ATTRS{idVendor}==\"1d6b\", ATTRS{idProduct}==\"0002\", ATTRS{serial}==\"SN1\"";
    let expected = format!(
        "# rapid_driver rule for 'arm'\nSUBSYSTEM==\"tty\", {}, SYMLINK+=\"arm\"\nSUBSYSTEM==\"video4linux\", {}, ATTR{{index}}==\"0\", SYMLINK+=\"arm\"\n",
        conditions, conditions
    );
    assert_eq!(rule, expected);
    assert!(!generate_rule(&usb("arm", "1d6b", "0002", "")).contains("serial"));
    assert_eq!(rule_file_name("arm"), "99-rapid-driver-arm.rules");
}

#[test]
fn name_maps_keep_the_order_of_names() {
    let mut map: NameMap<u32> = NameMap::new();
    map.insert("b".to_string(), 1);
    map.insert("a".to_string(), 2);
    map.insert("b".to_string(), 3);
    assert_eq!(map.len(), 2);
    assert_eq!(map.name_at(0), "b");
    assert_eq!(map.value_at(0), &3);
    assert_eq!(map.get("a"), Some(&2));
    assert!(map.contains_key("a"));
    assert_eq!(map.remove("b"), Some(3));
    assert_eq!(map.remove("b"), None);
    assert_eq!(map.name_at(0), "a");
    map.clear();
    assert_eq!(map.len(), 0);
}
