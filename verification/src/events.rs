//! Lifecycle events broadcast by the adapter registry.

use vstd::prelude::*;

use crate::models::{copy_byte_slice, copy_vec};
use crate::peripheral::PeripheralId;

verus! {

/// One lifecycle transition, broadcast to every subscriber. An event
/// carries only identifiers and payloads, never a reference into the
/// registry, so consumers may hold it across registry mutations.
#[derive(Debug)]
pub enum CentralEvent {
    DeviceDiscovered(PeripheralId),
    DeviceUpdated(PeripheralId),
    DeviceConnected(PeripheralId),
    DeviceDisconnected(PeripheralId),
    ManufacturerDataAdvertised(PeripheralId, u16, Vec<u8>),
    ServiceDataAdvertised(PeripheralId, u128, Vec<u8>),
    ServicesAdvertised(PeripheralId, Vec<u128>),
}

/// The mathematical value of a [`CentralEvent`].
#[verifier::ext_equal]
pub enum EventModel {
    DeviceDiscovered(PeripheralId),
    DeviceUpdated(PeripheralId),
    DeviceConnected(PeripheralId),
    DeviceDisconnected(PeripheralId),
    ManufacturerDataAdvertised(PeripheralId, u16, Seq<u8>),
    ServiceDataAdvertised(PeripheralId, u128, Seq<u8>),
    ServicesAdvertised(PeripheralId, Seq<u128>),
}

impl View for CentralEvent {
    type V = EventModel;

    open spec fn view(&self) -> EventModel {
        match self {
            CentralEvent::DeviceDiscovered(id) => EventModel::DeviceDiscovered(*id),
            CentralEvent::DeviceUpdated(id) => EventModel::DeviceUpdated(*id),
            CentralEvent::DeviceConnected(id) => EventModel::DeviceConnected(*id),
            CentralEvent::DeviceDisconnected(id) => EventModel::DeviceDisconnected(*id),
            CentralEvent::ManufacturerDataAdvertised(id, company, data) => EventModel::ManufacturerDataAdvertised(
                *id,
                *company,
                data@,
            ),
            CentralEvent::ServiceDataAdvertised(id, service, data) => EventModel::ServiceDataAdvertised(
                *id,
                *service,
                data@,
            ),
            CentralEvent::ServicesAdvertised(id, services) => EventModel::ServicesAdvertised(
                *id,
                services@,
            ),
        }
    }
}

impl Clone for CentralEvent {
    /// An exact copy: the clone has the same mathematical value.
    fn clone(&self) -> (r: CentralEvent)
        ensures
            r@ == self@,
    {
        match self {
            CentralEvent::DeviceDiscovered(id) => CentralEvent::DeviceDiscovered(*id),
            CentralEvent::DeviceUpdated(id) => CentralEvent::DeviceUpdated(*id),
            CentralEvent::DeviceConnected(id) => CentralEvent::DeviceConnected(*id),
            CentralEvent::DeviceDisconnected(id) => CentralEvent::DeviceDisconnected(*id),
            CentralEvent::ManufacturerDataAdvertised(id, company, data) => CentralEvent::ManufacturerDataAdvertised(
                *id,
                *company,
                copy_byte_slice(data.as_slice()),
            ),
            CentralEvent::ServiceDataAdvertised(id, service, data) => CentralEvent::ServiceDataAdvertised(
                *id,
                *service,
                copy_byte_slice(data.as_slice()),
            ),
            CentralEvent::ServicesAdvertised(id, services) => CentralEvent::ServicesAdvertised(
                *id,
                copy_vec(services),
            ),
        }
    }
}

/// The views of a sequence of events.
pub open spec fn event_views(s: Seq<CentralEvent>) -> Seq<EventModel> {
    s.map_values(|e: CentralEvent| e@)
}

} // verus!
