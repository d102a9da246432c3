//! The command line.

use rapid_driver::cli::{
    blank_entry, build_discovery_sources, choose_backend, last_lines, list_head, list_row,
    missing_from_layout, new_output, parse_port_from_bind, write_layout_row, write_usb_line, Progress, Question,
    Registration, SourceKind,
};
use rapid_driver::registry::{DeviceEntry, Registry, UsbIdentity};

fn entry(name: &str, kind: SourceKind) -> DeviceEntry {
    let mut e = blank_entry(kind);
    e.name = name.to_string();
    e
}

fn names(list: &[&str]) -> Vec<String> {
    list.iter().map(|n| n.to_string()).collect()
}

#[test]
fn ports_are_read_out_of_addresses() {
    assert_eq!(parse_port_from_bind("0.0.0.0:7400"), Some(7400));
    assert_eq!(parse_port_from_bind("[::1]:80"), Some(80));
    assert_eq!(parse_port_from_bind("7400"), Some(7400));
    assert_eq!(parse_port_from_bind("host:"), None);
    assert_eq!(parse_port_from_bind("host:65536"), None);
}

#[test]
fn only_needed_sources_are_built() {
    let none = Registry { devices: vec![] };
    assert!(build_discovery_sources(&none).is_empty());
    let both =
        Registry { devices: vec![entry("a", SourceKind::Mdns), entry("b", SourceKind::Usb)] };
    assert_eq!(build_discovery_sources(&both), vec![SourceKind::Usb, SourceKind::Mdns]);
    let mdns = Registry { devices: vec![entry("a", SourceKind::Mdns)] };
    assert_eq!(build_discovery_sources(&mdns), vec![SourceKind::Mdns]);
}

#[test]
fn rows_are_aligned() {
    let mut e = entry("arm", SourceKind::Usb);
    e.vid = "1d6b".to_string();
    e.pid = "0002".to_string();
    e.on_attach = "run".to_string();
    assert_eq!(
        list_row(&e),
        format!("{:<20} {:<8} {:<10} {:<20} {:<8} {:<30} {}", "arm", "usb", "1d6b:0002", "-", "-", "run", "(none)")
    );
    assert!(list_head().starts_with("NAME "));
    assert_eq!(
        write_layout_row(3, "arm", &names(&["arm"])),
        format!("[{:>2}] {:<20} {}", 3, "arm", "registered")
    );
    assert_eq!(
        write_layout_row(12, "leg", &names(&["arm"])),
        format!("[{:>2}] {:<20} {}", 12, "leg", "NOT IN REGISTRY")
    );
    assert_eq!(missing_from_layout(&names(&["a", "b", "c"]), &names(&["b"])), names(&["a", "c"]));
}

#[test]
fn last_lines_are_kept() {
    let lines = names(&["1", "2", "3"]);
    assert_eq!(last_lines(&lines, 2), names(&["2", "3"]));
    assert_eq!(last_lines(&lines, 5), lines);
    assert!(last_lines(&lines, 0).is_empty());
}

#[test]
fn backends_are_chosen_by_number() {
    assert_eq!(choose_backend(""), Some(SourceKind::Usb));
    assert_eq!(choose_backend(" 1\n"), Some(SourceKind::Usb));
    assert_eq!(choose_backend("2"), Some(SourceKind::Mdns));
    assert_eq!(choose_backend("3"), None);
}

#[test]
fn usb_devices_are_registered_step_by_step() {
    let registry = Registry { devices: vec![entry("taken", SourceKind::Usb)] };
    let identities = vec![UsbIdentity {
        vid: "1d6b".to_string(),
        pid: "0002".to_string(),
        serial: "SN1".to_string(),
        sysname: "1-1".to_string(),
    }];
    let mut r = Registration::new(SourceKind::Usb);
    assert_eq!(r.prompt(), "\nSelect device number: ");
    for answer in ["0", " arm ", "run it", "stop it", "y"] {
        assert!(matches!(r.answer(Some(answer), &registry, &identities), Progress::Ask));
    }
    assert_eq!(r.question, Question::Symlink);
    assert_eq!(r.prompt(), "Create udev symlink /dev/arm? (y/N): ");
    assert!(matches!(
        r.answer(Some("Y"), &registry, &identities),
        Progress::Finish { symlink: true }
    ));
    assert_eq!(r.entry.name, "arm");
    assert_eq!(r.entry.vid, "1d6b");
    assert_eq!(r.entry.serial, "SN1");
    assert_eq!(r.entry.on_attach, "run it");
    assert_eq!(r.entry.on_detach, "stop it");
    assert_eq!(r.entry.backend, "usb");
}

#[test]
fn mdns_devices_are_registered_step_by_step() {
    let registry = Registry { devices: vec![] };
    let mut r = Registration::new(SourceKind::Mdns);
    for answer in ["phone", "_vio._tcp", "run", "", "rec", "norec"] {
        assert!(matches!(r.answer(Some(answer), &registry, &vec![]), Progress::Ask));
    }
    assert!(matches!(
        r.answer(None, &registry, &vec![]),
        Progress::Finish { symlink: false }
    ));
    assert_eq!(r.entry.service_type, "_vio._tcp");
    assert_eq!(r.entry.on_record_start, "rec");
    assert_eq!(r.entry.on_record_stop, "norec");
    assert_eq!(r.entry.sensor_type, "");
}

#[test]
fn registrations_are_given_up() {
    let registry = Registry { devices: vec![entry("taken", SourceKind::Usb)] };
    let message = |kind: SourceKind, answers: &[Option<&str>]| -> Option<String> {
        let mut r = Registration::new(kind);
        for a in answers {
            match r.answer(*a, &registry, &vec![]) {
                Progress::Ask => {}
                Progress::Abort(m) => return m,
                Progress::Finish { .. } => return Some("finished".to_string()),
            }
        }
        Some("asked".to_string())
    };
    assert_eq!(message(SourceKind::Usb, &[Some("0")]).unwrap(), "Invalid selection.");
    assert_eq!(message(SourceKind::Usb, &[Some("x")]).unwrap(), "Invalid selection.");
    assert_eq!(message(SourceKind::Usb, &[None]), None);
    assert_eq!(message(SourceKind::Mdns, &[None]), None);
    assert_eq!(message(SourceKind::Mdns, &[Some(" ")]).unwrap(), "Name cannot be empty.");
    assert_eq!(
        message(SourceKind::Mdns, &[Some("taken")]).unwrap(),
        "Name 'taken' already exists in registry."
    );
    assert_eq!(
        message(SourceKind::Mdns, &[Some("n"), Some("")]).unwrap(),
        "Service type cannot be empty."
    );
    assert_eq!(
        message(SourceKind::Mdns, &[Some("n"), Some("_t._tcp"), Some("")]).unwrap(),
        "on_attach command cannot be empty."
    );
}

#[test]
fn usb_lines_show_what_is_known() {
    let id = UsbIdentity {
        vid: "1d6b".to_string(),
        pid: "0002".to_string(),
        serial: "SN1".to_string(),
        sysname: "1-1".to_string(),
    };
    let line = write_usb_line(0, &id, Some("Acme"), Some("Cam"));
    assert!(line.contains("1d6b:0002") && line.contains("Acme") && line.contains("Cam"));
    assert!(line.contains("SN1"));
}

#[test]
fn logs_are_followed_while_they_grow() {
    assert_eq!(new_output(10, 25), Some(25));
    assert_eq!(new_output(10, 10), None);
    assert_eq!(new_output(10, 3), None);
}
