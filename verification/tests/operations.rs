use ble_core::errors::Error;
use ble_core::gatt::{RawCharacteristic, RawDescriptor, RawService};
use ble_core::models::{BleDevice, WriteType};
use ble_core::peripheral::{
    NotifyAction, Peripheral, PeripheralId, TransferOp, TransferRequest,
};

const SVC: u128 = 0x180F;
const CHR: u128 = 0x2A19;
const DSC: u128 = 0x2902;

fn raw_tree() -> Vec<RawService> {
    vec![RawService {
        uuid: SVC,
        primary: true,
        characteristics: vec![RawCharacteristic {
            uuid: CHR,
            broadcast: false,
            read: true,
            write_without_response: true,
            write: true,
            notify: true,
            indicate: false,
            authenticated_signed_writes: false,
            extended_properties: false,
            descriptors: Some(vec![RawDescriptor { uuid: DSC }]),
        }],
    }]
}

fn connected_record() -> Peripheral {
    let mut p = Peripheral::new(
        PeripheralId(11),
        String::from("native-11"),
        Some(String::from("Sensor")),
        vec![SVC],
    );
    p.discover_services(&raw_tree());
    p
}

/// A transport that loops written data back on the next read, keyed by the
/// characteristic path of the request.
struct LoopbackTransport {
    stored: Vec<(u128, u128, Vec<u8>)>,
}

impl LoopbackTransport {
    fn new() -> LoopbackTransport {
        LoopbackTransport { stored: Vec::new() }
    }

    fn perform(&mut self, request: &TransferRequest) -> Option<Vec<u8>> {
        match &request.op {
            TransferOp::Write(data, _mode) => {
                self.stored.retain(|(s, c, _)| {
                    !(*s == request.service_uuid && *c == request.characteristic_uuid)
                });
                self.stored.push((
                    request.service_uuid,
                    request.characteristic_uuid,
                    data.clone(),
                ));
                None
            }
            TransferOp::Read => self
                .stored
                .iter()
                .find(|(s, c, _)| *s == request.service_uuid && *c == request.characteristic_uuid)
                .map(|(_, _, d)| d.clone()),
        }
    }
}

#[test]
fn write_then_read_round_trips_on_a_loopback_backend() {
    let p = connected_record();
    let mut transport = LoopbackTransport::new();

    let payload = vec![0xDE, 0xAD, 0xBE, 0xEF];
    let write = p.write(SVC, CHR, &payload, WriteType::WithResponse).unwrap();
    match &write.op {
        TransferOp::Write(data, mode) => {
            assert_eq!(data, &payload);
            assert_eq!(*mode, WriteType::WithResponse);
        }
        other => panic!("expected a write, got {:?}", other),
    }
    assert!(transport.perform(&write).is_none());

    let read = p.read(SVC, CHR).unwrap();
    assert!(matches!(read.op, TransferOp::Read));
    assert_eq!(read.native_id, "native-11");
    let echoed = transport.perform(&read).unwrap();
    assert_eq!(echoed, payload);
}

#[test]
fn operations_demand_a_connection_first() {
    let p = Peripheral::new(PeripheralId(12), String::from("n"), None, vec![]);
    assert!(matches!(p.read(SVC, CHR), Err(Error::NotConnected)));
    assert!(matches!(
        p.write(SVC, CHR, &[1], WriteType::WithoutResponse),
        Err(Error::NotConnected)
    ));
    assert!(matches!(p.read_descriptor(SVC, CHR, DSC), Err(Error::NotConnected)));
    assert!(matches!(
        p.write_descriptor(SVC, CHR, DSC, &[1]),
        Err(Error::NotConnected)
    ));
    let mut q = connected_record();
    q.disconnect();
    assert!(matches!(q.read(SVC, CHR), Err(Error::NotConnected)));
}

#[test]
fn operations_on_unknown_paths_report_device_not_found() {
    let p = connected_record();
    assert!(matches!(p.read(SVC, 0xBAD), Err(Error::DeviceNotFound)));
    assert!(matches!(p.read(0xBAD, CHR), Err(Error::DeviceNotFound)));
    assert!(matches!(
        p.write(SVC, 0xBAD, &[1], WriteType::WithResponse),
        Err(Error::DeviceNotFound)
    ));
    assert!(matches!(p.read_descriptor(SVC, CHR, 0xBAD), Err(Error::DeviceNotFound)));
}

#[test]
fn descriptor_requests_resolve_the_full_path() {
    let p = connected_record();
    let r = p.read_descriptor(SVC, CHR, DSC).unwrap();
    assert_eq!(r.service_uuid, SVC);
    assert_eq!(r.characteristic_uuid, CHR);
    assert_eq!(r.descriptor_uuid, DSC);
    assert!(matches!(r.op, TransferOp::Read));

    let w = p.write_descriptor(SVC, CHR, DSC, &[7, 7]).unwrap();
    match &w.op {
        TransferOp::Write(data, _) => assert_eq!(data, &vec![7u8, 7u8]),
        other => panic!("expected a write, got {:?}", other),
    }
}

#[test]
fn double_subscribe_single_unsubscribe_keeps_notifications_flowing() {
    let mut p = connected_record();
    assert_eq!(p.subscribe(SVC, CHR).unwrap(), NotifyAction::Start);
    assert_eq!(p.subscribe(SVC, CHR).unwrap(), NotifyAction::NoChange);
    assert_eq!(p.unsubscribe(SVC, CHR), NotifyAction::NoChange);

    // Still subscribed: a delivered value-change event is queued.
    assert!(p.push_notification(CHR, vec![1, 2]));
    let queued = p.notifications();
    assert_eq!(queued.len(), 1);
    assert_eq!(queued[0].uuid, CHR);
    assert_eq!(queued[0].value, vec![1, 2]);

    // The last unsubscription is the one that stops the transport.
    assert_eq!(p.unsubscribe(SVC, CHR), NotifyAction::Stop);
    assert!(!p.push_notification(CHR, vec![3]));
    assert!(p.notifications().is_empty());
}

#[test]
fn unsubscribe_without_subscription_is_a_no_op() {
    let mut p = connected_record();
    assert_eq!(p.unsubscribe(SVC, CHR), NotifyAction::NoChange);
}

#[test]
fn subscribe_requires_connection_and_known_path() {
    let mut p = Peripheral::new(PeripheralId(13), String::from("n"), None, vec![]);
    assert!(matches!(p.subscribe(SVC, CHR), Err(Error::NotConnected)));
    let mut q = connected_record();
    assert!(matches!(q.subscribe(SVC, 0xBAD), Err(Error::DeviceNotFound)));
}

#[test]
fn notifications_drain_in_delivery_order() {
    let mut p = connected_record();
    p.subscribe(SVC, CHR).unwrap();
    assert!(p.push_notification(CHR, vec![1]));
    assert!(p.push_notification(CHR, vec![2]));
    let first_batch = p.notifications();
    assert_eq!(first_batch.len(), 2);
    assert_eq!(first_batch[0].value, vec![1]);
    assert_eq!(first_batch[1].value, vec![2]);
    assert!(p.notifications().is_empty());
}

#[test]
fn from_peripheral_summarises_the_record() {
    let p = connected_record();
    let d = BleDevice::from_peripheral(&p);
    assert_eq!(d.address, "native-11");
    assert_eq!(d.name, "Sensor");
    assert!(d.is_connected);
    assert_eq!(d.services, vec![SVC]);

    let anonymous = Peripheral::new(PeripheralId(14), String::from("native-14"), None, vec![]);
    let d2 = BleDevice::from_peripheral(&anonymous);
    assert_eq!(d2.name, "native-14");
    assert!(!d2.is_connected);
}

#[test]
fn mutation_through_the_registry_handle_persists() {
    let mut adapter = ble_core::adapter::Adapter::new();
    let id = adapter.on_sighting(&BleDevice {
        address: String::from("AA"),
        name: String::from("Foo"),
        is_connected: false,
        manufacturer_data: vec![],
        services: vec![],
    });

    {
        let handle = adapter.peripheral_mut(&id).unwrap();
        handle.discover_services(&raw_tree());
        handle.subscribe(SVC, CHR).unwrap();
    }

    // The canonical record carries the mutation; a snapshot shows it.
    let snapshot = adapter.peripheral(&id).unwrap();
    assert!(snapshot.is_connected());
    assert!(snapshot.find_characteristic(SVC, CHR).is_some());

    {
        let handle = adapter.peripheral_mut(&id).unwrap();
        assert!(handle.push_notification(CHR, vec![5]));
        assert_eq!(handle.notifications().len(), 1);
    }

    assert!(adapter.peripheral_mut(&PeripheralId(id.0.wrapping_add(1))).is_none());
}

#[test]
fn error_values_carry_their_kind() {
    let not_supported = Error::NotSupported(String::from("no radio"));
    assert!(matches!(not_supported, Error::NotSupported(_)));
    assert_eq!(Error::DeviceNotFound, Error::DeviceNotFound);
    assert_ne!(Error::NotConnected, Error::ChannelClosed);
}
