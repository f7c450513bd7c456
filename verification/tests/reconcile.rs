use ble_core::adapter::Adapter;
use ble_core::events::CentralEvent;
use ble_core::models::BleDevice;
use ble_core::peripheral::Peripheral;
use ble_core::peripheral::PeripheralId;

fn sighting(address: &str, name: &str) -> BleDevice {
    BleDevice {
        address: String::from(address),
        name: String::from(name),
        is_connected: false,
        manufacturer_data: vec![(0x004C, vec![1, 2, 3])],
        services: vec![0x180F],
    }
}

#[test]
fn first_sighting_discovers_then_resighting_updates() {
    let mut adapter = Adapter::new();
    let sub = adapter.events();

    // Sighting batch [{native="AA", name="Foo"}] on an empty registry.
    let id = adapter.on_sighting(&sighting("AA", "Foo"));
    assert_eq!(adapter.peripherals().len(), 1);
    let p = adapter.peripheral(&id).unwrap();
    assert_eq!(p.properties().local_name, Some(String::from("Foo")));

    match adapter.next_event(sub).unwrap() {
        Some(CentralEvent::DeviceDiscovered(got)) => assert_eq!(got, id),
        other => panic!("expected DeviceDiscovered, got {:?}", other),
    }
    assert!(adapter.next_event(sub).unwrap().is_none());

    // Re-sighting [{native="AA", name="Foo2"}]: same id, one update event.
    let id2 = adapter.on_sighting(&sighting("AA", "Foo2"));
    assert_eq!(id, id2);
    assert_eq!(adapter.peripherals().len(), 1);
    let p2 = adapter.peripheral(&id).unwrap();
    assert_eq!(p2.properties().local_name, Some(String::from("Foo2")));

    match adapter.next_event(sub).unwrap() {
        Some(CentralEvent::DeviceUpdated(got)) => assert_eq!(got, id),
        other => panic!("expected DeviceUpdated, got {:?}", other),
    }
    assert!(adapter.next_event(sub).unwrap().is_none());
}

#[test]
fn replaying_an_identical_sighting_leaves_state_equal() {
    let mut adapter = Adapter::new();
    let sub = adapter.events();
    let id = adapter.on_sighting(&sighting("AA", "Foo"));
    let before = adapter.peripheral(&id).unwrap();

    let id2 = adapter.on_sighting(&sighting("AA", "Foo"));
    assert_eq!(id, id2);
    let after = adapter.peripheral(&id).unwrap();

    // Stored state is equal field for field.
    assert_eq!(adapter.peripherals().len(), 1);
    let pb = before.properties();
    let pa = after.properties();
    assert_eq!(pb.local_name, pa.local_name);
    assert_eq!(pb.manufacturer_data, pa.manufacturer_data);
    assert_eq!(pb.services, pa.services);
    assert_eq!(before.is_connected(), after.is_connected());

    // Exactly one event per call: one Discovered, then one Updated.
    assert!(matches!(
        adapter.next_event(sub).unwrap(),
        Some(CentralEvent::DeviceDiscovered(_))
    ));
    assert!(matches!(
        adapter.next_event(sub).unwrap(),
        Some(CentralEvent::DeviceUpdated(_))
    ));
    assert!(adapter.next_event(sub).unwrap().is_none());
}

#[test]
fn a_batch_reconciles_each_sighting_in_order() {
    let mut adapter = Adapter::new();
    let sub = adapter.events();
    let batch = vec![
        sighting("AA", "Foo"),
        sighting("BB", "Bar"),
        sighting("AA", "Foo3"),
    ];
    let ids = adapter.on_sightings(&batch);
    assert_eq!(ids.len(), 3);
    assert_eq!(ids[0], ids[2]);
    assert_ne!(ids[0], ids[1]);
    assert_eq!(adapter.peripherals().len(), 2);
    let p = adapter.peripheral(&ids[0]).unwrap();
    assert_eq!(p.properties().local_name, Some(String::from("Foo3")));

    assert!(matches!(
        adapter.next_event(sub).unwrap(),
        Some(CentralEvent::DeviceDiscovered(_))
    ));
    assert!(matches!(
        adapter.next_event(sub).unwrap(),
        Some(CentralEvent::DeviceDiscovered(_))
    ));
    match adapter.next_event(sub).unwrap() {
        Some(CentralEvent::DeviceUpdated(got)) => assert_eq!(got, ids[0]),
        other => panic!("expected DeviceUpdated, got {:?}", other),
    }
    assert!(adapter.next_event(sub).unwrap().is_none());
}

#[test]
fn distinct_natives_get_distinct_records() {
    let mut adapter = Adapter::new();
    let a = adapter.on_sighting(&sighting("AA", "Foo"));
    let b = adapter.on_sighting(&sighting("BB", "Bar"));
    assert_ne!(a, b);
    assert_eq!(adapter.peripherals().len(), 2);
}

#[test]
fn unknown_id_lookup_is_absent() {
    let adapter = Adapter::new();
    assert!(adapter.peripheral(&PeripheralId(42)).is_none());
    assert!(adapter.peripherals().is_empty());
}

#[test]
fn add_peripheral_signals_duplicate_ids() {
    let mut adapter = Adapter::new();
    let id = adapter.on_sighting(&sighting("AA", "Foo"));
    let copy = Peripheral::new(id, String::from("AA"), None, vec![]);
    let r = adapter.add_peripheral(copy);
    assert!(matches!(r, Err(ble_core::errors::Error::RuntimeError(_))));
    assert_eq!(adapter.peripherals().len(), 1);

    let fresh = Peripheral::new(PeripheralId(id.0.wrapping_add(1)), String::from("CC"), None, vec![]);
    assert!(adapter.add_peripheral(fresh).is_ok());
    assert_eq!(adapter.peripherals().len(), 2);
}

#[test]
fn scan_state_threads_the_filter_through() {
    let mut adapter = Adapter::new();
    assert!(!adapter.is_scanning());
    adapter.start_scan(ble_core::models::ScanFilter::Service(0x180F));
    assert!(adapter.is_scanning());
    assert!(matches!(
        adapter.scan_filter(),
        ble_core::models::ScanFilter::Service(0x180F)
    ));
    adapter.stop_scan();
    assert!(!adapter.is_scanning());
}

#[test]
fn adapter_info_names_the_backend() {
    let adapter = Adapter::new();
    assert_eq!(adapter.adapter_info(), "WebBluetooth");
}

#[test]
fn manager_offers_one_fresh_adapter() {
    let manager = ble_core::manager::Manager::new();
    let adapters = manager.adapters();
    assert_eq!(adapters.len(), 1);
    assert!(adapters[0].peripherals().is_empty());
}
