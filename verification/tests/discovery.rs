//! Devices on the USB bus and in the network.

use rapid_driver::cli::{blank_entry, SourceKind};
use rapid_driver::discovery::mdns::{normalize_service_type, MdnsDiscovery, ResolvedService};
use rapid_driver::discovery::usb::{device_path, is_usb_device, UsbDiscovery};
use rapid_driver::discovery::DiscoveryEvent;
use rapid_driver::registry::{DeviceEntry, Registry, UsbIdentity};

const SEC: u64 = 1_000_000_000;

fn phone() -> DeviceEntry {
    let mut e = blank_entry(SourceKind::Mdns);
    e.name = "phone".to_string();
    e.service_type = "_vio._tcp".to_string();
    e
}

fn service(data_port: Option<&str>, ip: Option<&str>) -> ResolvedService {
    ResolvedService {
        fullname: "x._vio._tcp.local.".to_string(),
        service_type: "_vio._tcp.local.".to_string(),
        data_port: data_port.map(|p| p.to_string()),
        port: 7000,
        ip: ip.map(|i| i.to_string()),
    }
}

fn network() -> MdnsDiscovery {
    MdnsDiscovery::new(Registry { devices: vec![phone()] })
}

fn camera() -> DeviceEntry {
    let mut e = blank_entry(SourceKind::Usb);
    e.name = "camera".to_string();
    e.vid = "1".to_string();
    e.pid = "2".to_string();
    e
}

fn identity() -> UsbIdentity {
    UsbIdentity {
        vid: "1".to_string(),
        pid: "2".to_string(),
        serial: String::new(),
        sysname: "1-1".to_string(),
    }
}

#[test]
fn service_types_get_their_domain() {
    assert_eq!(normalize_service_type("_vio._tcp"), "_vio._tcp.local.");
    assert_eq!(normalize_service_type("_vio._tcp."), "_vio._tcp.local.");
    assert_eq!(normalize_service_type("_vio._tcp.local."), "_vio._tcp.local.");
    let once = normalize_service_type("a.local");
    assert_eq!(normalize_service_type(&once), once);
    assert_eq!(network().service_types(), vec!["_vio._tcp.local."]);
    let of_type = |st: &str| {
        let mut e = phone();
        e.service_type = st.to_string();
        e
    };
    let types = ["_b._tcp", "_a._tcp", "_b._tcp.local.", "", "_a._tcp.", "_c._udp"];
    let mut devices: Vec<DeviceEntry> = types.iter().map(|st| of_type(st)).collect();
    devices.push(camera());
    let network = MdnsDiscovery::new(Registry { devices });
    assert_eq!(network.service_types(), vec!["_b._tcp.local.", "_a._tcp.local.", "_c._udp.local."]);
}

#[test]
fn services_are_reported_once_they_have_settled() {
    let mut n = network();
    n.service_resolved(&service(Some("5563"), Some("10.0.0.2")), 10 * SEC);
    assert!(n.poll(10 * SEC).is_empty());
    assert!(n.poll(12 * SEC - 1).is_empty());
    let events = n.poll(12 * SEC);
    assert_eq!(events.len(), 1);
    match &events[0] {
        DiscoveryEvent::Added(d) => {
            assert_eq!(d.source_id, "x._vio._tcp.local.");
            assert_eq!(d.device_name, "phone");
            assert_eq!(d.address.as_deref(), Some("10.0.0.2:5563"));
        }
        DiscoveryEvent::Removed { .. } => panic!("removed"),
    }
    assert!(n.device_still_exists("x._vio._tcp.local."));
    assert!(n.poll(20 * SEC).is_empty());
}

#[test]
fn services_are_gone_once_they_were_missed_for_long() {
    let mut n = network();
    n.service_resolved(&service(None, Some("10.0.0.2")), 0);
    assert_eq!(n.poll(2 * SEC).len(), 1);
    n.service_removed("x._vio._tcp.local.", 10 * SEC);
    assert!(n.poll(15 * SEC - 1).is_empty());
    assert!(n.device_still_exists("x._vio._tcp.local."));
    let events = n.poll(15 * SEC);
    assert!(matches!(&events[..], [DiscoveryEvent::Removed { source_id }] if source_id == "x._vio._tcp.local."));
    assert!(!n.device_still_exists("x._vio._tcp.local."));
}

#[test]
fn services_that_come_back_in_time_stay() {
    let mut n = network();
    n.service_resolved(&service(None, Some("10.0.0.2")), 0);
    assert_eq!(n.poll(2 * SEC).len(), 1);
    n.service_removed("x._vio._tcp.local.", 10 * SEC);
    assert!(n.poll(11 * SEC).is_empty());
    n.service_resolved(&service(None, Some("10.0.0.2")), 12 * SEC);
    assert!(n.poll(30 * SEC).is_empty());
    assert!(n.device_still_exists("x._vio._tcp.local."));
}

#[test]
fn services_that_vanish_before_they_settle_are_never_reported() {
    let mut n = network();
    n.service_resolved(&service(None, None), 0);
    n.service_removed("x._vio._tcp.local.", SEC);
    assert!(n.poll(2 * SEC).is_empty());
    assert!(n.poll(20 * SEC).is_empty());
}

#[test]
fn addresses_fall_back_to_the_port_of_the_service() {
    let mut n = network();
    n.service_resolved(&service(Some("nonsense"), Some("10.0.0.2")), 0);
    match &n.poll(2 * SEC)[0] {
        DiscoveryEvent::Added(d) => assert_eq!(d.address.as_deref(), Some("10.0.0.2:7000")),
        DiscoveryEvent::Removed { .. } => panic!("removed"),
    }
}

#[test]
fn only_registered_services_count() {
    let n = network();
    assert_eq!(n.find_mdns_match("_vio._tcp.local").unwrap().name, "phone");
    assert!(n.find_mdns_match("_other._tcp.local.").is_none());
}

#[test]
fn usb_devices_cool_down_after_their_removal() {
    let mut bus = UsbDiscovery::new(Registry { devices: vec![camera()] });
    let found = bus.device_added("1-1", Some(&identity()), SEC).unwrap();
    assert_eq!(found.device_name, "camera");
    assert_eq!(found.source_id, "1-1");
    assert!(bus.device_removed("1-1", 10 * SEC));
    assert!(!bus.device_removed("1-2", 10 * SEC));
    assert!(bus.device_added("1-1", Some(&identity()), 12 * SEC - 1).is_none());
    assert!(bus.device_added("1-1", Some(&identity()), 12 * SEC).is_some());
}

#[test]
fn events_of_the_bus_are_told_apart() {
    let mut bus = UsbDiscovery::new(Registry { devices: vec![camera()] });
    assert!(bus.bus_event("add", Some("usb_interface"), "1-1:1.0", Some(&identity()), 0).is_none());
    assert!(matches!(
        bus.bus_event("add", Some("usb_device"), "1-1", Some(&identity()), 0),
        Some(DiscoveryEvent::Added(_))
    ));
    assert!(bus.bus_event("change", Some("usb_device"), "1-1", Some(&identity()), 0).is_none());
    assert!(matches!(
        bus.bus_event("remove", Some("usb_device"), "1-1", None, SEC),
        Some(DiscoveryEvent::Removed { .. })
    ));
    assert!(is_usb_device(Some("usb_device")));
    assert!(!is_usb_device(None));
    assert_eq!(device_path("1-1"), "/sys/bus/usb/devices/1-1");
    assert_eq!(bus.device_found(&identity()).unwrap().device_name, "camera");
}
