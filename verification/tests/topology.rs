use ble_core::gatt::{RawCharacteristic, RawDescriptor, RawService};
use ble_core::peripheral::{ConnectAction, ConnState, Peripheral, PeripheralId};

fn raw_char(uuid: u128, descriptors: Option<Vec<RawDescriptor>>) -> RawCharacteristic {
    RawCharacteristic {
        uuid,
        broadcast: false,
        read: true,
        write_without_response: false,
        write: true,
        notify: true,
        indicate: false,
        authenticated_signed_writes: false,
        extended_properties: false,
        descriptors,
    }
}

fn fresh_record() -> Peripheral {
    Peripheral::new(
        PeripheralId(7),
        String::from("native-7"),
        Some(String::from("Widget")),
        vec![],
    )
}

#[test]
fn find_characteristic_before_discovery_is_absent_not_error() {
    let p = fresh_record();
    assert!(p.find_characteristic(0x100, 0x200).is_none());
    assert!(p.find_descriptor(0x100, 0x200, 0x300).is_none());
}

#[test]
fn discovery_populates_the_tree_and_connects() {
    let mut p = fresh_record();
    let raw = vec![RawService {
        uuid: 0x100,
        primary: true,
        characteristics: vec![
            raw_char(0x200, Some(vec![RawDescriptor { uuid: 0x300 }])),
            raw_char(0x201, None),
        ],
    }];
    p.discover_services(&raw);
    assert!(p.is_connected());

    let c = p.find_characteristic(0x100, 0x200).unwrap();
    assert_eq!(c.uuid, 0x200);
    assert_eq!(c.service_uuid, 0x100);
    assert!(c.properties.read && c.properties.write && c.properties.notify);
    assert!(!c.properties.broadcast);
    assert_eq!(c.descriptors.len(), 1);

    let d = p.find_descriptor(0x100, 0x200, 0x300).unwrap();
    assert_eq!(d.service_uuid, 0x100);
    assert_eq!(d.characteristic_uuid, 0x200);

    assert!(p.find_characteristic(0x100, 0x999).is_none());
    assert!(p.find_characteristic(0x999, 0x200).is_none());
}

#[test]
fn failed_descriptor_enumeration_degrades_to_empty_branch() {
    let mut p = fresh_record();
    let raw = vec![RawService {
        uuid: 0x100,
        primary: true,
        characteristics: vec![
            raw_char(0x200, None),
            raw_char(0x201, Some(vec![RawDescriptor { uuid: 0x301 }])),
        ],
    }];
    p.discover_services(&raw);
    // The failed branch has zero descriptors; the healthy branch is intact.
    let broken = p.find_characteristic(0x100, 0x200).unwrap();
    assert!(broken.descriptors.is_empty());
    let healthy = p.find_characteristic(0x100, 0x201).unwrap();
    assert_eq!(healthy.descriptors.len(), 1);
}

#[test]
fn duplicate_uuids_keep_the_first_occurrence() {
    let mut p = fresh_record();
    let mut first = raw_char(0x200, None);
    first.notify = true;
    let mut second = raw_char(0x200, None);
    second.notify = false;
    let raw = vec![RawService {
        uuid: 0x100,
        primary: true,
        characteristics: vec![first, second],
    }];
    p.discover_services(&raw);
    let services = p.services();
    assert_eq!(services.len(), 1);
    assert_eq!(services[0].characteristics.len(), 1);
    assert!(services[0].characteristics[0].properties.notify);
}

#[test]
fn snapshot_is_unaffected_by_a_later_replacement() {
    let mut p = fresh_record();
    let raw_a = vec![RawService { uuid: 0xA, primary: true, characteristics: vec![] }];
    p.discover_services(&raw_a);
    let snapshot = p.services();

    let raw_b = vec![
        RawService { uuid: 0xB1, primary: true, characteristics: vec![] },
        RawService { uuid: 0xB2, primary: false, characteristics: vec![] },
    ];
    p.discover_services(&raw_b);

    // The old snapshot still shows the old complete tree.
    assert_eq!(snapshot.len(), 1);
    assert_eq!(snapshot[0].uuid, 0xA);
    // The record shows the new complete tree, never a mix.
    let now = p.services();
    assert_eq!(now.len(), 2);
    assert_eq!(now[0].uuid, 0xB1);
    assert_eq!(now[1].uuid, 0xB2);
}

#[test]
fn reconnect_always_runs_a_fresh_discovery() {
    let mut p = fresh_record();
    assert_eq!(p.connect(), ConnectAction::RunDiscovery);
    let raw = vec![RawService { uuid: 0xA, primary: true, characteristics: vec![] }];
    p.discover_services(&raw);
    assert_eq!(p.connect(), ConnectAction::AlreadyConnected);

    assert!(p.disconnect());
    assert!(!p.is_connected());
    // Topology is retained while disconnected...
    assert_eq!(p.services().len(), 1);
    // ...but reconnecting still demands a fresh discovery pass.
    assert_eq!(p.connect(), ConnectAction::RunDiscovery);
    // A second disconnect is a no-op.
    assert!(!p.disconnect());
}

#[test]
fn conn_state_values_are_distinct() {
    assert_ne!(ConnState::Discovered, ConnState::Connected);
    assert_ne!(ConnState::Connected, ConnState::Disconnected);
}
