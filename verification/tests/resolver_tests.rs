//! Tests for the resolver and the catalog against fixture stores.

use ccntool_core::catalog::queryall;
use ccntool_core::resolver::myquery;
use ccntool_core::store::{Device, Port, Store};

fn device(id: i32, label: &str, ip: &str) -> Device {
    Device { device_id: id, label: label.to_string(), primary_ip: ip.to_string() }
}

fn port(device_id: i32, number: i32, notes: &str) -> Port {
    Port {
        device_id,
        port_number: number,
        notes: notes.to_string(),
        connected_device_id: None,
        connected_port: None,
    }
}

fn linked_port(device_id: i32, number: i32, notes: &str, remote_device: i32, remote_port: i32) -> Port {
    Port {
        device_id,
        port_number: number,
        notes: notes.to_string(),
        connected_device_id: Some(remote_device),
        connected_port: Some(remote_port),
    }
}

/// The worked scenario: one near port, its link sibling, and the remote
/// device and port the sibling references.
fn example_store() -> Store {
    Store {
        devices: vec![
            device(7, "SW-CORE-1", "10.0.0.7"),
            device(3, "SW-EDGE-9", "10.0.0.3"),
        ],
        ports: vec![
            port(7, 1, "01.1.001-1"),
            linked_port(7, -1, "uplink", 3, 12),
            port(3, 12, "patch-9"),
        ],
    }
}

#[test]
fn resolve_example_scenario() {
    let store = example_store();
    let info = myquery(&store, "01.1.001-1").unwrap();
    assert_eq!(info.switch_hostname, "SW-EDGE-9");
    assert_eq!(info.port_description, "uplink");
    assert_eq!(info.switch_port, "patch-9");
    assert_eq!(info.switch_ip, "10.0.0.3");
    assert_eq!(info.switch_device_id, "3");
}

#[test]
fn resolve_is_idempotent() {
    let store = example_store();
    let first = myquery(&store, "01.1.001-1").unwrap();
    let second = myquery(&store, "01.1.001-1").unwrap();
    assert_eq!(first, second);
}

#[test]
fn resolve_trims_surrounding_whitespace() {
    let store = example_store();
    let padded = myquery(&store, " 01.1.001-1 ").unwrap();
    let plain = myquery(&store, "01.1.001-1").unwrap();
    assert_eq!(padded, plain);
}

#[test]
fn resolve_unknown_label_is_not_found() {
    let store = example_store();
    assert!(myquery(&store, "99.9.999-9").is_err());
}

#[test]
fn resolve_without_link_sibling_is_not_found() {
    // The near port exists, but no port on the same device carries the
    // negated port number.
    let store = Store {
        devices: vec![device(7, "SW-CORE-1", "10.0.0.7")],
        ports: vec![port(7, 1, "01.1.001-1"), port(7, 2, "unrelated")],
    };
    assert!(myquery(&store, "01.1.001-1").is_err());
}

#[test]
fn resolve_without_connected_reference_is_not_found() {
    // The link sibling exists but carries no remote reference.
    let store = Store {
        devices: vec![device(7, "SW-CORE-1", "10.0.0.7")],
        ports: vec![port(7, 1, "01.1.001-1"), port(7, -1, "uplink")],
    };
    assert!(myquery(&store, "01.1.001-1").is_err());
}

#[test]
fn resolve_without_remote_device_is_not_found() {
    // The link sibling references a device the store does not hold.
    let store = Store {
        devices: vec![device(7, "SW-CORE-1", "10.0.0.7")],
        ports: vec![
            port(7, 1, "01.1.001-1"),
            linked_port(7, -1, "uplink", 3, 12),
            port(3, 12, "patch-9"),
        ],
    };
    assert!(myquery(&store, "01.1.001-1").is_err());
}

#[test]
fn resolve_without_remote_port_is_not_found() {
    // The remote device exists, but not the referenced port on it.
    let store = Store {
        devices: vec![device(7, "SW-CORE-1", "10.0.0.7"), device(3, "SW-EDGE-9", "10.0.0.3")],
        ports: vec![port(7, 1, "01.1.001-1"), linked_port(7, -1, "uplink", 3, 12)],
    };
    assert!(myquery(&store, "01.1.001-1").is_err());
}

#[test]
fn resolve_first_row_wins_for_duplicate_labels() {
    // The same label appears under two devices; the earlier row decides.
    let store = Store {
        devices: vec![
            device(3, "SW-EDGE-9", "10.0.0.3"),
            device(4, "SW-EDGE-10", "10.0.0.4"),
        ],
        ports: vec![
            port(1, 5, "01.1.001-1"),
            linked_port(1, -5, "first uplink", 3, 2),
            port(3, 2, "first remote"),
            port(2, 6, "01.1.001-1"),
            linked_port(2, -6, "second uplink", 4, 2),
            port(4, 2, "second remote"),
        ],
    };
    let info = myquery(&store, "01.1.001-1").unwrap();
    assert_eq!(info.switch_hostname, "SW-EDGE-9");
    assert_eq!(info.port_description, "first uplink");
    assert_eq!(info.switch_port, "first remote");
}

#[test]
fn catalog_keeps_valid_labels_in_row_order() {
    let store = Store {
        devices: vec![],
        ports: vec![
            port(1, 1, "01.1.001-1"),
            port(1, 2, "uplink"),
            port(2, 1, "MT-panel/3"),
            port(2, 2, "02.E.017-4a"),
            port(3, 1, ""),
        ],
    };
    let listed = queryall(&store);
    assert_eq!(listed, vec!["01.1.001-1", "MT-panel/3", "02.E.017-4a"]);
}

#[test]
fn catalog_of_empty_store_is_empty() {
    let store = Store { devices: vec![], ports: vec![] };
    assert!(queryall(&store).is_empty());
}

#[test]
fn catalog_lists_duplicate_rows_once_each() {
    // Each row is listed on its own: a label present in two rows shows up
    // twice, once per row.
    let store = Store {
        devices: vec![],
        ports: vec![port(1, 1, "01.1.001-1"), port(2, 1, "01.1.001-1")],
    };
    let listed = queryall(&store);
    assert_eq!(listed, vec!["01.1.001-1", "01.1.001-1"]);
}
