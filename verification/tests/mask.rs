//! The mask: its layout, its record and its debug state.

use rapid_driver::mask::debug::{count_set_bits, write_hex16, DebugPublisher, DebugState, DeviceDebugInfo};
use rapid_driver::mask::layout::MaskLayout;
use rapid_driver::mask::shm::{HardwareMask, MaskPublisher, MAGIC, VERSION};
use rapid_driver::text::is_among;

fn layout(names: &[&str]) -> MaskLayout {
    MaskLayout { device_order: names.iter().map(|n| n.to_string()).collect() }
}

fn names(list: &[&str]) -> Vec<String> {
    list.iter().map(|n| n.to_string()).collect()
}

#[test]
fn test_from_devices_sorted() {
    let names = vec!["camera".into(), "lidar".into(), "arm".into()];
    let layout = MaskLayout::from_devices_sorted(&names);
    assert_eq!(layout.device_order, vec!["arm", "camera", "lidar"]);
}

#[test]
fn test_bit_index() {
    let layout = MaskLayout {
        device_order: vec!["a".into(), "b".into(), "c".into()],
    };
    assert_eq!(layout.bit_index("a"), Some(0));
    assert_eq!(layout.bit_index("b"), Some(1));
    assert_eq!(layout.bit_index("c"), Some(2));
    assert_eq!(layout.bit_index("d"), None);
}

#[test]
fn test_move_device() {
    let mut layout = MaskLayout {
        device_order: vec!["a".into(), "b".into(), "c".into()],
    };
    layout.move_device(0, 2);
    assert_eq!(layout.device_order, vec!["b", "c", "a"]);
}

#[test]
fn moving_there_and_back_restores_the_order() {
    let mut l = layout(&["a", "b", "c", "d"]);
    l.move_device(3, 1);
    assert_eq!(l.device_order, vec!["a", "d", "b", "c"]);
    assert_eq!(l.bit_index("d"), Some(1));
    l.move_device(1, 3);
    assert_eq!(l.device_order, vec!["a", "b", "c", "d"]);
}

#[test]
fn moves_out_of_range_change_nothing() {
    let mut l = layout(&["a", "b"]);
    l.move_device(0, 2);
    assert_eq!(l.device_order, vec!["a", "b"]);
    l.move_device(2, 0);
    assert_eq!(l.device_order, vec!["a", "b"]);
    l.move_device(1, 1);
    assert_eq!(l.device_order, vec!["a", "b"]);
}

#[test]
fn saved_layouts_are_reconciled_with_the_registry() {
    let registered = names(&["lidar", "arm", "camera"]);
    let l = MaskLayout::load_or_default(Some(layout(&["lidar", "gone"])), &registered);
    assert_eq!(l.device_order, vec!["lidar", "arm", "camera"]);
    let l = MaskLayout::load_or_default(None, &registered);
    assert_eq!(l.device_order, vec!["arm", "camera", "lidar"]);
    assert_eq!(l.device_count(), 3);
}

#[test]
fn layouts_can_be_reset_and_indexed() {
    let mut l = layout(&["c", "a", "b"]);
    let map = l.build_index_map();
    assert_eq!(map.get("c"), Some(&0));
    assert_eq!(map.get("b"), Some(&2));
    assert_eq!(map.get("d"), None);
    l.reset_to_alphabetical();
    assert_eq!(l.device_order, vec!["a", "b", "c"]);
}

#[test]
fn names_are_found_among_others() {
    let list = names(&["Arm", "arm", "ärm"]);
    assert!(is_among(&list, "arm"));
    assert!(is_among(&list, "ärm"));
    assert!(!is_among(&list, "ar"));
    assert!(!is_among(&list, ""));
}

#[test]
fn test_mask_struct_size() {
    assert_eq!(std::mem::size_of::<HardwareMask>(), 32);
}

#[test]
fn test_magic_value() {
    let mask = HardwareMask::new(5);
    let bytes = mask.as_bytes();
    // "RAPD" in little-endian is 0x44, 0x50, 0x41, 0x52
    assert_eq!(bytes[0], 0x52); // 'R'
    assert_eq!(bytes[1], 0x41); // 'A'
    assert_eq!(bytes[2], 0x50); // 'P'
    assert_eq!(bytes[3], 0x44); // 'D'
}

#[test]
fn records_hold_their_fields_in_order() {
    let mask = HardwareMask {
        magic: MAGIC,
        version: VERSION,
        device_count: 3,
        _padding: [0, 0],
        mask: 0x0102_0304_0506_0708,
        timestamp_ns: 1,
        sequence: 0xff,
    };
    let bytes = mask.as_bytes();
    assert_eq!(bytes.len(), 32);
    assert_eq!(&bytes[..8], &[0x52, 0x41, 0x50, 0x44, 1, 3, 0, 0]);
    assert_eq!(&bytes[8..16], &[8, 7, 6, 5, 4, 3, 2, 1]);
    assert_eq!(&bytes[16..24], &[1, 0, 0, 0, 0, 0, 0, 0]);
    assert_eq!(&bytes[24..], &[255, 0, 0, 0, 0, 0, 0, 0]);
}

#[test]
fn publications_are_numbered() {
    let mut publisher = MaskPublisher::new();
    let first = publisher.publish(5, 2, 1000);
    let second = publisher.publish(7, 2, 2000);
    assert_eq!(second.sequence, first.sequence + 1);
    assert_eq!(publisher.sequence(), second.sequence);
    assert_eq!(second.mask, 7);
    assert_eq!(second.device_count, 2);
    assert_eq!(second.timestamp_ns, 2000);
    assert_eq!(second.magic, MAGIC);
}

#[test]
fn debug_states_show_the_mask() {
    let mut state = DebugState::at("2026-01-01T00:00:00+00:00".to_string(), 9);
    state.set_mask(0b101, 3);
    state.add_device(
        "arm".to_string(),
        DeviceDebugInfo { bit: 0, online: true, usb_connected: true, process_running: true, pid: Some(7) },
    );
    assert_eq!(state.timestamp, "2026-01-01T00:00:00+00:00");
    assert_eq!(state.sequence, 9);
    assert_eq!(state.device_count, 3);
    assert_eq!(state.online_count, 2);
    assert_eq!(state.mask_hex, "0x00000005");
    assert_eq!(state.mask_binary, format!("0b{}101", "0".repeat(61)));
    assert_eq!(state.devices.get("arm").unwrap().pid, Some(7));
}

#[test]
fn debug_states_carry_the_time() {
    let state = DebugState::new(1);
    assert!(state.timestamp.contains('T'));
    assert!(state.timestamp.ends_with("+00:00"));
    assert_eq!(state.sequence, 1);
}

#[test]
fn bits_are_counted_and_written() {
    assert_eq!(count_set_bits(0), 0);
    assert_eq!(count_set_bits(u64::MAX), 64);
    assert_eq!(count_set_bits(0x8000_0000_0000_0001), 2);
    assert_eq!(write_hex16(0xdead_beef), "0x00000000deadbeef");
}

#[test]
fn debug_publications_keep_their_distance() {
    let start = 20_000_000_000;
    let mut publisher = DebugPublisher::with_interval(500, start);
    assert!(publisher.publish(start));
    assert!(!publisher.publish(start + 499_000_000));
    assert!(!publisher.should_publish(start + 499_000_000));
    assert!(publisher.publish(start + 500_000_000));
    let usual = DebugPublisher::new(start);
    assert_eq!(usual.interval_ms, 1000);
    assert!(usual.should_publish(start));
}
