use ble_core::adapter::Adapter;
use ble_core::errors::Error;
use ble_core::events::CentralEvent;
use ble_core::peripheral::PeripheralId;

#[test]
fn subscriber_sees_only_events_after_subscription_in_order() {
    let mut adapter = Adapter::new();
    adapter.emit(CentralEvent::DeviceDiscovered(PeripheralId(1)));

    let sub = adapter.events();
    adapter.emit(CentralEvent::DeviceUpdated(PeripheralId(2)));
    adapter.emit(CentralEvent::DeviceConnected(PeripheralId(3)));

    assert!(matches!(
        adapter.next_event(sub).unwrap(),
        Some(CentralEvent::DeviceUpdated(PeripheralId(2)))
    ));
    assert!(matches!(
        adapter.next_event(sub).unwrap(),
        Some(CentralEvent::DeviceConnected(PeripheralId(3)))
    ));
    assert!(adapter.next_event(sub).unwrap().is_none());
}

#[test]
fn subscriptions_are_independent() {
    let mut adapter = Adapter::new();
    let early = adapter.events();
    adapter.emit(CentralEvent::DeviceDisconnected(PeripheralId(9)));
    let late = adapter.events();

    assert!(matches!(
        adapter.next_event(early).unwrap(),
        Some(CentralEvent::DeviceDisconnected(PeripheralId(9)))
    ));
    // The late subscriber never sees the earlier event...
    assert!(adapter.next_event(late).unwrap().is_none());
    // ...and draining one subscriber does not advance the other.
    assert!(adapter.next_event(early).unwrap().is_none());
}

#[test]
fn payload_events_carry_their_data() {
    let mut adapter = Adapter::new();
    let sub = adapter.events();
    adapter.emit(CentralEvent::ManufacturerDataAdvertised(
        PeripheralId(5),
        0x004C,
        vec![9, 8, 7],
    ));
    match adapter.next_event(sub).unwrap() {
        Some(CentralEvent::ManufacturerDataAdvertised(id, company, data)) => {
            assert_eq!(id, PeripheralId(5));
            assert_eq!(company, 0x004C);
            assert_eq!(data, vec![9, 8, 7]);
        }
        other => panic!("unexpected event {:?}", other),
    }
}

#[test]
fn lagging_subscriber_loses_only_the_oldest_events() {
    let mut adapter = Adapter::new();
    let sub = adapter.events();
    for i in 0..1030u128 {
        adapter.emit(CentralEvent::DeviceUpdated(PeripheralId(i)));
    }
    // 1030 undelivered events exceed the buffer of 1024: the 6 oldest are
    // dropped and delivery resumes in order from the seventh.
    match adapter.next_event(sub).unwrap() {
        Some(CentralEvent::DeviceUpdated(PeripheralId(n))) => assert_eq!(n, 6),
        other => panic!("unexpected event {:?}", other),
    }
    match adapter.next_event(sub).unwrap() {
        Some(CentralEvent::DeviceUpdated(PeripheralId(n))) => assert_eq!(n, 7),
        other => panic!("unexpected event {:?}", other),
    }
}

#[test]
fn closed_stream_signals_drained_subscribers() {
    let mut adapter = Adapter::new();
    let sub = adapter.events();
    adapter.emit(CentralEvent::DeviceDiscovered(PeripheralId(4)));
    adapter.close();

    // The event emitted before teardown is still delivered...
    assert!(matches!(
        adapter.next_event(sub).unwrap(),
        Some(CentralEvent::DeviceDiscovered(PeripheralId(4)))
    ));
    // ...and after draining, the subscriber gets the stream-closed signal.
    assert!(matches!(adapter.next_event(sub), Err(Error::ChannelClosed)));
}
