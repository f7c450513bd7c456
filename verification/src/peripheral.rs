//! One peripheral record: stable identity, advertised properties, the GATT
//! topology cache, the connection state machine, and the decision side of
//! read/write/subscribe operations.
//!
//! The record never talks to a backend itself. Operations that need the
//! transport resolve their target in the cache and hand back a request value;
//! an external driver performs it and feeds results (discovery trees,
//! notification payloads) back in.

use vstd::prelude::*;

use crate::errors::Error;
use crate::gatt::{
    build_services, built_services, copy_services, find_characteristic,
    find_descriptor, lookup_characteristic, lookup_descriptor, raw_service_views, service_views,
    topology_wf, Characteristic, Descriptor, RawService, Service, ServiceModel,
};
use crate::gatt::lemma_built_services_wf;
use crate::models::{
    copy_byte_slice, copy_opt_string, copy_pairs128, copy_pairs16, copy_vec, pair128_views,
    pair16_views, BDAddr, WriteType,
};

verus! {

/// An opaque, globally stable 128-bit identifier for one peripheral,
/// compared and ordered by bit value. Once assigned to a device within one
/// process lifetime it never changes, even when the backend's native handle
/// for that device changes between scans.
#[derive(Clone, Copy, Debug, PartialEq, Eq, Hash, PartialOrd, Ord, Structural)]
pub struct PeripheralId(pub u128);

impl From<u128> for PeripheralId {
    fn from(v: u128) -> (r: PeripheralId) {
        PeripheralId(v)
    }
}

impl vstd::std_specs::convert::FromSpecImpl<u128> for PeripheralId {
    open spec fn obeys_from_spec() -> bool {
        true
    }

    open spec fn from_spec(v: u128) -> PeripheralId {
        PeripheralId(v)
    }
}

/// Whether a hardware address is public or random.
#[derive(Clone, Copy, Debug, PartialEq, Eq, Structural)]
pub enum AddressType {
    Public,
    Random,
}

/// Advertised and connection metadata of one peripheral. Mutated only by
/// property refreshes; read by any number of observers.
#[derive(Debug)]
pub struct PeripheralProperties {
    /// The hardware address, or the synthetic all-zero default.
    pub address: BDAddr,
    pub address_type: Option<AddressType>,
    pub local_name: Option<String>,
    pub tx_power_level: Option<i16>,
    pub rssi: Option<i16>,
    /// Manufacturer-specific advertisement payloads, keyed by company id;
    /// keys unique.
    pub manufacturer_data: Vec<(u16, Vec<u8>)>,
    /// Service-specific advertisement payloads, keyed by service UUID; keys
    /// unique.
    pub service_data: Vec<(u128, Vec<u8>)>,
    /// The advertised service UUIDs.
    pub services: Vec<u128>,
    pub class: Option<u32>,
}

/// The mathematical value of [`PeripheralProperties`].
#[verifier::ext_equal]
pub struct PropertiesModel {
    pub address: Seq<u8>,
    pub address_type: Option<AddressType>,
    pub local_name: Option<Seq<char>>,
    pub tx_power_level: Option<i16>,
    pub rssi: Option<i16>,
    pub manufacturer_data: Seq<(u16, Seq<u8>)>,
    pub service_data: Seq<(u128, Seq<u8>)>,
    pub services: Seq<u128>,
    pub class: Option<u32>,
}

impl View for PeripheralProperties {
    type V = PropertiesModel;

    open spec fn view(&self) -> PropertiesModel {
        PropertiesModel {
            address: self.address@,
            address_type: self.address_type,
            local_name: match self.local_name {
                Option::Some(n) => Option::Some(n@),
                Option::None => Option::None,
            },
            tx_power_level: self.tx_power_level,
            rssi: self.rssi,
            manufacturer_data: pair16_views(self.manufacturer_data@),
            service_data: pair128_views(self.service_data@),
            services: self.services@,
            class: self.class,
        }
    }
}

/// Key uniqueness of the two advertisement-payload maps.
pub open spec fn props_wf(p: PropertiesModel) -> bool {
    &&& forall|i: int, j: int|
        0 <= i < j < p.manufacturer_data.len() ==> p.manufacturer_data[i].0
            != p.manufacturer_data[j].0
    &&& forall|i: int, j: int|
        0 <= i < j < p.service_data.len() ==> p.service_data[i].0 != p.service_data[j].0
}

impl Clone for PeripheralProperties {
    /// An exact copy: the clone has the same mathematical value.
    fn clone(&self) -> (r: PeripheralProperties)
        ensures
            r@ == self@,
    {
        let r = PeripheralProperties {
            address: self.address,
            address_type: self.address_type,
            local_name: copy_opt_string(&self.local_name),
            tx_power_level: self.tx_power_level,
            rssi: self.rssi,
            manufacturer_data: copy_pairs16(&self.manufacturer_data),
            service_data: copy_pairs128(&self.service_data),
            services: copy_vec(&self.services),
            class: self.class,
        };
        proof {
            assert(r@ =~= self@);
        }
        r
    }
}

/// One value-change event delivered by a subscribed characteristic, tagged
/// with the characteristic UUID it originated from.
#[derive(Debug)]
pub struct ValueNotification {
    pub uuid: u128,
    pub value: Vec<u8>,
}

/// The mathematical value of a [`ValueNotification`].
#[verifier::ext_equal]
pub struct NotificationModel {
    pub uuid: u128,
    pub value: Seq<u8>,
}

impl View for ValueNotification {
    type V = NotificationModel;

    open spec fn view(&self) -> NotificationModel {
        NotificationModel { uuid: self.uuid, value: self.value@ }
    }
}

/// The views of a sequence of notifications.
pub open spec fn notification_views(s: Seq<ValueNotification>) -> Seq<NotificationModel> {
    s.map_values(|n: ValueNotification| n@)
}

impl Clone for ValueNotification {
    /// An exact copy: the clone has the same mathematical value.
    fn clone(&self) -> (r: ValueNotification)
        ensures
            r@ == self@,
    {
        ValueNotification { uuid: self.uuid, value: copy_byte_slice(self.value.as_slice()) }
    }
}

/// An exact copy of a notification queue.
fn copy_notifications(v: &Vec<ValueNotification>) -> (r: Vec<ValueNotification>)
    ensures
        notification_views(r@) == notification_views(v@),
{
    let mut r: Vec<ValueNotification> = Vec::new();
    let mut i: usize = 0;
    while i < v.len()
        invariant
            i <= v.len(),
            r@.len() == i,
            notification_views(r@) =~= notification_views(v@).take(i as int),
        decreases v.len() - i,
    {
        r.push(v[i].clone());
        i = i + 1;
    }
    proof {
        assert(notification_views(v@).take(v@.len() as int) =~= notification_views(v@));
    }
    r
}

/// The connection state machine of one record. `Discovered` is the state on
/// first sighting; `Connected` is entered only after a successful discovery
/// pass; `Disconnected` keeps the (now stale) topology and is not terminal.
#[derive(Clone, Copy, Debug, PartialEq, Eq, Structural)]
pub enum ConnState {
    Discovered,
    Connected,
    Disconnected,
}

/// What the caller of `connect` has to do next.
#[derive(Clone, Copy, Debug, PartialEq, Eq, Structural)]
pub enum ConnectAction {
    /// The record is already connected: a no-op success.
    AlreadyConnected,
    /// Run a fresh discovery pass through the transport and feed the result
    /// to `discover_services`. Cached topology from before a disconnect is
    /// never trusted.
    RunDiscovery,
}

/// What the caller of `subscribe`/`unsubscribe` has to do next.
#[derive(Clone, Copy, Debug, PartialEq, Eq, Structural)]
pub enum NotifyAction {
    /// Ask the transport to start notifications: the first subscription.
    Start,
    /// Ask the transport to stop notifications: the last subscription left.
    Stop,
    /// Nothing: the registration count changed without crossing zero.
    NoChange,
}

/// One notification registration: a characteristic path and how many
/// subscribers hold it. A count of zero means not subscribed.
#[derive(Clone, Copy, Debug, PartialEq, Eq, Structural)]
pub struct SubEntry {
    pub service_uuid: u128,
    pub characteristic_uuid: u128,
    pub count: u64,
}

/// The registration count of one characteristic path: the count of its
/// entry, or zero when absent.
pub open spec fn sub_count(s: Seq<SubEntry>, su: u128, cu: u128) -> u64
    decreases s.len(),
{
    if s.len() == 0 {
        0
    } else if s[0].service_uuid == su && s[0].characteristic_uuid == cu {
        s[0].count
    } else {
        sub_count(s.drop_first(), su, cu)
    }
}

/// No two registrations name the same characteristic path.
pub open spec fn subs_unique(s: Seq<SubEntry>) -> bool {
    forall|i: int, j: int|
        0 <= i < j < s.len() ==> !(s[i].service_uuid == s[j].service_uuid
            && s[i].characteristic_uuid == s[j].characteristic_uuid)
}

proof fn lemma_subs_unique_drop_first(s: Seq<SubEntry>)
    requires
        subs_unique(s),
        s.len() > 0,
    ensures
        subs_unique(s.drop_first()),
{
    let t = s.drop_first();
    assert forall|i: int, j: int| 0 <= i < j < t.len() implies !(t[i].service_uuid
        == t[j].service_uuid && t[i].characteristic_uuid == t[j].characteristic_uuid) by {
        assert(t[i] == s[i + 1]);
        assert(t[j] == s[j + 1]);
    }
}

proof fn lemma_sub_count_at(s: Seq<SubEntry>, i: int)
    requires
        subs_unique(s),
        0 <= i < s.len(),
    ensures
        sub_count(s, s[i].service_uuid, s[i].characteristic_uuid) == s[i].count,
    decreases s.len(),
{
    if i == 0 {
    } else {
        lemma_subs_unique_drop_first(s);
        assert(s.drop_first()[i - 1] == s[i]);
        lemma_sub_count_at(s.drop_first(), i - 1);
    }
}

proof fn lemma_sub_count_absent(s: Seq<SubEntry>, su: u128, cu: u128)
    requires
        forall|k: int|
            0 <= k < s.len() ==> !(s[k].service_uuid == su && s[k].characteristic_uuid == cu),
    ensures
        sub_count(s, su, cu) == 0,
    decreases s.len(),
{
    if s.len() > 0 {
        assert forall|k: int| 0 <= k < s.drop_first().len() implies !(
        s.drop_first()[k].service_uuid == su && s.drop_first()[k].characteristic_uuid == cu) by {
            assert(s.drop_first()[k] == s[k + 1]);
        }
        lemma_sub_count_absent(s.drop_first(), su, cu);
    }
}

proof fn lemma_sub_count_update(s: Seq<SubEntry>, i: int, e: SubEntry, su: u128, cu: u128)
    requires
        subs_unique(s),
        0 <= i < s.len(),
        e.service_uuid == s[i].service_uuid,
        e.characteristic_uuid == s[i].characteristic_uuid,
    ensures
        sub_count(s.update(i, e), su, cu) == if su == e.service_uuid && cu
            == e.characteristic_uuid {
            e.count
        } else {
            sub_count(s, su, cu)
        },
        subs_unique(s.update(i, e)),
    decreases s.len(),
{
    let t = s.update(i, e);
    assert forall|a: int, b: int| 0 <= a < b < t.len() implies !(t[a].service_uuid
        == t[b].service_uuid && t[a].characteristic_uuid == t[b].characteristic_uuid) by {
        assert(t[a] == if a == i {
            e
        } else {
            s[a]
        });
        assert(t[b] == if b == i {
            e
        } else {
            s[b]
        });
    }
    if i == 0 {
        assert(t[0] == e);
        assert(t.drop_first() =~= s.drop_first());
        if !(su == e.service_uuid && cu == e.characteristic_uuid) {
        }
    } else {
        assert(t[0] == s[0]);
        if s[0].service_uuid == su && s[0].characteristic_uuid == cu {
            // The head already answers; the updated entry sits deeper and,
            // by uniqueness, carries a different path than the head.
        } else {
            lemma_subs_unique_drop_first(s);
            assert(t.drop_first() =~= s.drop_first().update(i - 1, e));
            assert(s.drop_first()[i - 1] == s[i]);
            lemma_sub_count_update(s.drop_first(), i - 1, e, su, cu);
        }
    }
}

proof fn lemma_sub_count_push(s: Seq<SubEntry>, e: SubEntry, su: u128, cu: u128)
    requires
        forall|k: int|
            0 <= k < s.len() ==> !(s[k].service_uuid == e.service_uuid
                && s[k].characteristic_uuid == e.characteristic_uuid),
    ensures
        sub_count(s.push(e), su, cu) == if su == e.service_uuid && cu == e.characteristic_uuid {
            e.count
        } else {
            sub_count(s, su, cu)
        },
    decreases s.len(),
{
    let t = s.push(e);
    if s.len() == 0 {
        assert(t[0] == e);
        assert(t.drop_first() =~= Seq::<SubEntry>::empty());
        if su == e.service_uuid && cu == e.characteristic_uuid {
            assert(sub_count(t, su, cu) == e.count);
        } else {
            assert(sub_count(Seq::<SubEntry>::empty(), su, cu) == 0);
            assert(sub_count(t, su, cu) == sub_count(t.drop_first(), su, cu));
            assert(sub_count(s, su, cu) == 0);
        }
    } else {
        assert(t[0] == s[0]);
        assert(t.drop_first() =~= s.drop_first().push(e));
        assert forall|k: int| 0 <= k < s.drop_first().len() implies !(
        s.drop_first()[k].service_uuid == e.service_uuid && s.drop_first()[k].characteristic_uuid
            == e.characteristic_uuid) by {
            assert(s.drop_first()[k] == s[k + 1]);
        }
        lemma_sub_count_push(s.drop_first(), e, su, cu);
        if s[0].service_uuid == su && s[0].characteristic_uuid == cu {
            assert(!(s[0].service_uuid == e.service_uuid && s[0].characteristic_uuid
                == e.characteristic_uuid));
            assert(!(su == e.service_uuid && cu == e.characteristic_uuid));
            assert(sub_count(t, su, cu) == t[0].count);
            assert(sub_count(s, su, cu) == s[0].count);
        } else {
            assert(sub_count(t, su, cu) == sub_count(s.drop_first().push(e), su, cu));
            assert(sub_count(s, su, cu) == sub_count(s.drop_first(), su, cu));
        }
    }
}

/// A registration count after one more subscription; the count saturates
/// rather than wraps.
pub open spec fn bumped(c: u64) -> u64 {
    if c < u64::MAX {
        (c + 1) as u64
    } else {
        c
    }
}

/// A registration count after one unsubscription.
pub open spec fn dropped(c: u64) -> u64 {
    if c == 0 {
        0
    } else {
        (c - 1) as u64
    }
}

/// Subscribing twice and unsubscribing once leaves notifications flowing:
/// the registration count stays above zero, and the unsubscription is
/// never the one that asks the transport to stop (that takes a count of
/// exactly one). Registration is counted, not toggled.
pub proof fn lemma_extra_subscribe_keeps_notifications(count: u64)
    ensures
        dropped(bumped(bumped(count))) > 0,
        bumped(bumped(count)) != 1,
{
}

/// Whether any registration of this characteristic is live, under any
/// service.
pub open spec fn char_subscribed(s: Seq<SubEntry>, cu: u128) -> bool {
    exists|i: int| 0 <= i < s.len() && s[i].characteristic_uuid == cu && s[i].count > 0
}

/// The view of an optional text.
pub open spec fn opt_text(o: Option<String>) -> Option<Seq<char>> {
    match o {
        Option::Some(s) => Option::Some(s@),
        Option::None => Option::None,
    }
}

/// What a transfer asks the transport to do with a characteristic.
#[derive(Debug)]
pub enum TransferOp {
    /// Fetch the characteristic's value.
    Read,
    /// Hand the payload to the characteristic, in the given mode.
    Write(Vec<u8>, WriteType),
}

/// The mathematical value of a [`TransferOp`].
#[verifier::ext_equal]
pub enum TransferOpModel {
    Read,
    Write(Seq<u8>, WriteType),
}

impl View for TransferOp {
    type V = TransferOpModel;

    open spec fn view(&self) -> TransferOpModel {
        match self {
            TransferOp::Read => TransferOpModel::Read,
            TransferOp::Write(data, mode) => TransferOpModel::Write(data@, *mode),
        }
    }
}

/// A fully resolved transfer, ready for the external transport collaborator:
/// the backend-native device id and the UUID path of the characteristic.
#[derive(Debug)]
pub struct TransferRequest {
    pub native_id: String,
    pub service_uuid: u128,
    pub characteristic_uuid: u128,
    pub op: TransferOp,
}

/// The mathematical value of a [`TransferRequest`].
#[verifier::ext_equal]
pub struct TransferRequestModel {
    pub native_id: Seq<char>,
    pub service_uuid: u128,
    pub characteristic_uuid: u128,
    pub op: TransferOpModel,
}

impl View for TransferRequest {
    type V = TransferRequestModel;

    open spec fn view(&self) -> TransferRequestModel {
        TransferRequestModel {
            native_id: self.native_id@,
            service_uuid: self.service_uuid,
            characteristic_uuid: self.characteristic_uuid,
            op: self.op@,
        }
    }
}

/// A fully resolved descriptor transfer.
#[derive(Debug)]
pub struct DescriptorRequest {
    pub native_id: String,
    pub service_uuid: u128,
    pub characteristic_uuid: u128,
    pub descriptor_uuid: u128,
    pub op: TransferOp,
}

/// The mathematical value of a [`DescriptorRequest`].
#[verifier::ext_equal]
pub struct DescriptorRequestModel {
    pub native_id: Seq<char>,
    pub service_uuid: u128,
    pub characteristic_uuid: u128,
    pub descriptor_uuid: u128,
    pub op: TransferOpModel,
}

impl View for DescriptorRequest {
    type V = DescriptorRequestModel;

    open spec fn view(&self) -> DescriptorRequestModel {
        DescriptorRequestModel {
            native_id: self.native_id@,
            service_uuid: self.service_uuid,
            characteristic_uuid: self.characteristic_uuid,
            descriptor_uuid: self.descriptor_uuid,
            op: self.op@,
        }
    }
}

/// One peripheral record. The registry owns the canonical copy; readers get
/// snapshots, and callers elsewhere address the record by its stable id.
#[derive(Debug)]
pub struct Peripheral {
    id: u128,
    native_id: String,
    state: ConnState,
    properties: PeripheralProperties,
    services: Vec<Service>,
    subs: Vec<SubEntry>,
    pending: Vec<ValueNotification>,
}

/// The mathematical value of a [`Peripheral`].
#[verifier::ext_equal]
pub struct PeripheralModel {
    pub id: u128,
    pub native_id: Seq<char>,
    pub state: ConnState,
    pub properties: PropertiesModel,
    pub services: Seq<ServiceModel>,
    pub subs: Seq<SubEntry>,
    pub pending: Seq<NotificationModel>,
}

impl View for Peripheral {
    type V = PeripheralModel;

    closed spec fn view(&self) -> PeripheralModel {
        PeripheralModel {
            id: self.id,
            native_id: self.native_id@,
            state: self.state,
            properties: self.properties@,
            services: service_views(self.services@),
            subs: self.subs@,
            pending: notification_views(self.pending@),
        }
    }
}

impl Clone for Peripheral {
    /// An exact copy: the clone has the same mathematical value. What a
    /// caller gets from the registry is such a snapshot; the registry keeps
    /// the canonical record.
    fn clone(&self) -> (r: Peripheral)
        ensures
            r@ == self@,
    {
        let r = Peripheral {
            id: self.id,
            native_id: self.native_id.clone(),
            state: self.state,
            properties: self.properties.clone(),
            services: copy_services(&self.services),
            subs: copy_vec(&self.subs),
            pending: copy_notifications(&self.pending),
        };
        proof {
            assert(r@ =~= self@);
        }
        r
    }
}

/// Validity of one record: a well-formed topology, no duplicated
/// registration paths, and well-formed properties.
pub open spec fn peripheral_wf(m: PeripheralModel) -> bool {
    &&& topology_wf(m.services)
    &&& subs_unique(m.subs)
    &&& props_wf(m.properties)
}

/// The properties a record starts with, seeded from its first sighting.
pub open spec fn seeded_properties(local_name: Option<Seq<char>>, advertised: Seq<u128>) -> PropertiesModel {
    PropertiesModel {
        address: Seq::new(6, |i: int| 0u8),
        address_type: Option::None,
        local_name,
        tx_power_level: Option::None,
        rssi: Option::None,
        manufacturer_data: Seq::empty(),
        service_data: Seq::empty(),
        services: advertised,
        class: Option::None,
    }
}

/// The properties of a record after a refresh from one sighting: the name,
/// manufacturer data and advertised services are taken from the sighting,
/// everything else is kept.
pub open spec fn refreshed_properties(p: PropertiesModel, d: crate::models::BleDeviceModel) -> PropertiesModel {
    PropertiesModel {
        local_name: Option::Some(d.name),
        manufacturer_data: d.manufacturer_data,
        services: d.services,
        ..p
    }
}

/// The model of a record created by the first sighting of a device.
pub open spec fn sighted_peripheral(id: u128, d: crate::models::BleDeviceModel) -> PeripheralModel {
    PeripheralModel {
        id,
        native_id: d.address,
        state: ConnState::Discovered,
        properties: refreshed_properties(
            seeded_properties(Option::Some(d.name), d.services),
            d,
        ),
        services: Seq::empty(),
        subs: Seq::empty(),
        pending: Seq::empty(),
    }
}

/// The model of a record fresh from its first sighting.
pub open spec fn fresh_peripheral(
    id: u128,
    native_id: Seq<char>,
    local_name: Option<Seq<char>>,
    advertised: Seq<u128>,
) -> PeripheralModel {
    PeripheralModel {
        id,
        native_id,
        state: ConnState::Discovered,
        properties: seeded_properties(local_name, advertised),
        services: Seq::empty(),
        subs: Seq::empty(),
        pending: Seq::empty(),
    }
}

impl Peripheral {
    /// A record fresh from its first sighting: no topology yet, in the
    /// `Discovered` state.
    pub fn new(
        id: PeripheralId,
        native_id: String,
        local_name: Option<String>,
        advertised: Vec<u128>,
    ) -> (p: Peripheral)
        ensures
            p@ == fresh_peripheral(id.0, native_id@, opt_text(local_name), advertised@),
            peripheral_wf(p@),
    {
        let p = Peripheral {
            id: id.0,
            native_id,
            state: ConnState::Discovered,
            properties: PeripheralProperties {
                address: BDAddr::zeroed(),
                address_type: Option::None,
                local_name,
                tx_power_level: Option::None,
                rssi: Option::None,
                manufacturer_data: Vec::new(),
                service_data: Vec::new(),
                services: advertised,
                class: Option::None,
            },
            services: Vec::new(),
            subs: Vec::new(),
            pending: Vec::new(),
        };
        proof {
            assert(p@ =~= fresh_peripheral(
                id.0,
                p.native_id@,
                opt_text(p.properties.local_name),
                p.properties.services@,
            ));
        }
        p
    }

    /// The stable id of this record.
    pub fn id(&self) -> (r: PeripheralId)
        ensures
            r.0 == self@.id,
    {
        PeripheralId(self.id)
    }

    /// The backend-native transient identifier this record was resolved
    /// from.
    pub fn native_id(&self) -> (r: &String)
        ensures
            r@ == self@.native_id,
    {
        &self.native_id
    }

    /// The hardware address, or the synthetic default on backends without
    /// one.
    pub fn address(&self) -> (r: BDAddr)
        ensures
            r@ == self@.properties.address,
    {
        self.properties.address
    }

    /// A snapshot of the advertised and connection metadata.
    pub fn properties(&self) -> (r: PeripheralProperties)
        ensures
            r@ == self@.properties,
    {
        self.properties.clone()
    }

    /// A snapshot of the cached topology. Iterating it is unaffected by a
    /// later `replace_topology`.
    pub fn services(&self) -> (r: Vec<Service>)
        ensures
            service_views(r@) == self@.services,
    {
        copy_services(&self.services)
    }

    /// Whether the record has an active link.
    pub fn is_connected(&self) -> (r: bool)
        ensures
            r == (self@.state is Connected),
    {
        match self.state {
            ConnState::Connected => true,
            _ => false,
        }
    }

    /// Connect: a no-op success when already connected; otherwise the
    /// caller has to run a fresh discovery pass, whatever topology is
    /// cached, and feed the result to `discover_services`.
    pub fn connect(&self) -> (action: ConnectAction)
        ensures
            action == if self@.state is Connected {
                ConnectAction::AlreadyConnected
            } else {
                ConnectAction::RunDiscovery
            },
    {
        match self.state {
            ConnState::Connected => ConnectAction::AlreadyConnected,
            _ => ConnectAction::RunDiscovery,
        }
    }

    /// Record a backend-reported link loss: the topology is retained but
    /// stale. A no-op on a record without an active link.
    pub fn disconnect(&mut self) -> (was_connected: bool)
        ensures
            was_connected == (old(self)@.state is Connected),
            final(self)@ == (PeripheralModel {
                state: if old(self)@.state is Connected {
                    ConnState::Disconnected
                } else {
                    old(self)@.state
                },
                ..old(self)@
            }),
    {
        match self.state {
            ConnState::Connected => {
                self.state = ConnState::Disconnected;
                true
            },
            _ => false,
        }
    }

    /// Swap the whole topology atomically: a reader sees the old complete
    /// tree or the new complete tree, never a mix.
    pub fn replace_topology(&mut self, services: Vec<Service>)
        requires
            topology_wf(service_views(services@)),
        ensures
            final(self)@ == (PeripheralModel { services: service_views(services@), ..old(self)@ }),
    {
        self.services = services;
    }

    /// Apply the finished result of a discovery pass: build the cached tree
    /// from the raw one and swap it in wholesale, then enter `Connected`.
    pub fn discover_services(&mut self, raw: &Vec<RawService>)
        ensures
            final(self)@ == (PeripheralModel {
                state: ConnState::Connected,
                services: built_services(raw_service_views(raw@)),
                ..old(self)@
            }),
            topology_wf(final(self)@.services),
    {
        let built = build_services(raw);
        proof {
            lemma_built_services_wf(raw_service_views(raw@));
        }
        self.replace_topology(built);
        self.state = ConnState::Connected;
    }

    /// Refresh the advertised metadata from a new sighting of this device.
    /// Nothing else of the record changes: replaying a sighting that
    /// carries the stored data leaves the record as it was.
    pub fn update_properties(&mut self, sighting: &crate::models::BleDevice)
        ensures
            final(self)@ == (PeripheralModel {
                properties: refreshed_properties(old(self)@.properties, sighting@),
                ..old(self)@
            }),
    {
        self.properties.local_name = Option::Some(sighting.name.clone());
        self.properties.manufacturer_data = copy_pairs16(&sighting.manufacturer_data);
        self.properties.services = copy_vec(&sighting.services);
        proof {
            assert(self@ =~= (PeripheralModel {
                properties: refreshed_properties(old(self)@.properties, sighting@),
                ..old(self)@
            }));
        }
    }

    /// The cached characteristic at the given UUID path, if discovery has
    /// put one there. Absence is a normal outcome, not an error.
    pub fn find_characteristic(&self, service_uuid: u128, characteristic_uuid: u128) -> (r: Option<
        Characteristic,
    >)
        ensures
            (r is Some) == (lookup_characteristic(
                self@.services,
                service_uuid,
                characteristic_uuid,
            ) is Some),
            r is Some ==> Option::Some(r.unwrap()@) == lookup_characteristic(
                self@.services,
                service_uuid,
                characteristic_uuid,
            ),
    {
        match find_characteristic(&self.services, service_uuid, characteristic_uuid) {
            Option::Some(c) => Option::Some(c.clone()),
            Option::None => Option::None,
        }
    }

    /// The cached descriptor at the given UUID path, if discovery has put
    /// one there.
    pub fn find_descriptor(
        &self,
        service_uuid: u128,
        characteristic_uuid: u128,
        descriptor_uuid: u128,
    ) -> (r: Option<Descriptor>)
        ensures
            r == lookup_descriptor(
                self@.services,
                service_uuid,
                characteristic_uuid,
                descriptor_uuid,
            ),
    {
        find_descriptor(&self.services, service_uuid, characteristic_uuid, descriptor_uuid)
    }

    /// A resolved read of a characteristic, for the transport to execute.
    /// Owed exactly when the record is connected and the path is cached;
    /// the transport's raw payload is the operation's result.
    pub fn read(&self, service_uuid: u128, characteristic_uuid: u128) -> (r: Result<
        TransferRequest,
        Error,
    >)
        ensures
            ({
                let target = lookup_characteristic(
                    self@.services,
                    service_uuid,
                    characteristic_uuid,
                );
                match r {
                    Result::Ok(q) => self@.state is Connected && target is Some && q@
                        == (TransferRequestModel {
                        native_id: self@.native_id,
                        service_uuid,
                        characteristic_uuid,
                        op: TransferOpModel::Read,
                    }),
                    Result::Err(e) => (e is NotConnected && !(self@.state is Connected)) || (
                    e is DeviceNotFound && self@.state is Connected && target is None),
                }
            }),
    {
        if !self.is_connected() {
            return Result::Err(Error::NotConnected);
        }
        match find_characteristic(&self.services, service_uuid, characteristic_uuid) {
            Option::None => Result::Err(Error::DeviceNotFound),
            Option::Some(_) => Result::Ok(
                TransferRequest {
                    native_id: self.native_id.clone(),
                    service_uuid,
                    characteristic_uuid,
                    op: TransferOp::Read,
                },
            ),
        }
    }

    /// A resolved write of a characteristic carrying exactly the given
    /// payload and mode. `WithResponse` asks the transport to wait for the
    /// backend's acknowledgment; `WithoutResponse` returns once the payload
    /// is handed over.
    pub fn write(
        &self,
        service_uuid: u128,
        characteristic_uuid: u128,
        data: &[u8],
        write_type: WriteType,
    ) -> (r: Result<TransferRequest, Error>)
        ensures
            ({
                let target = lookup_characteristic(
                    self@.services,
                    service_uuid,
                    characteristic_uuid,
                );
                match r {
                    Result::Ok(q) => self@.state is Connected && target is Some && q@
                        == (TransferRequestModel {
                        native_id: self@.native_id,
                        service_uuid,
                        characteristic_uuid,
                        op: TransferOpModel::Write(data@, write_type),
                    }),
                    Result::Err(e) => (e is NotConnected && !(self@.state is Connected)) || (
                    e is DeviceNotFound && self@.state is Connected && target is None),
                }
            }),
    {
        if !self.is_connected() {
            return Result::Err(Error::NotConnected);
        }
        match find_characteristic(&self.services, service_uuid, characteristic_uuid) {
            Option::None => Result::Err(Error::DeviceNotFound),
            Option::Some(_) => Result::Ok(
                TransferRequest {
                    native_id: self.native_id.clone(),
                    service_uuid,
                    characteristic_uuid,
                    op: TransferOp::Write(copy_byte_slice(data), write_type),
                },
            ),
        }
    }

    /// A resolved read of a descriptor.
    pub fn read_descriptor(
        &self,
        service_uuid: u128,
        characteristic_uuid: u128,
        descriptor_uuid: u128,
    ) -> (r: Result<DescriptorRequest, Error>)
        ensures
            ({
                let target = lookup_descriptor(
                    self@.services,
                    service_uuid,
                    characteristic_uuid,
                    descriptor_uuid,
                );
                match r {
                    Result::Ok(q) => self@.state is Connected && target is Some && q@
                        == (DescriptorRequestModel {
                        native_id: self@.native_id,
                        service_uuid,
                        characteristic_uuid,
                        descriptor_uuid,
                        op: TransferOpModel::Read,
                    }),
                    Result::Err(e) => (e is NotConnected && !(self@.state is Connected)) || (
                    e is DeviceNotFound && self@.state is Connected && target is None),
                }
            }),
    {
        if !self.is_connected() {
            return Result::Err(Error::NotConnected);
        }
        match find_descriptor(&self.services, service_uuid, characteristic_uuid, descriptor_uuid) {
            Option::None => Result::Err(Error::DeviceNotFound),
            Option::Some(_) => Result::Ok(
                DescriptorRequest {
                    native_id: self.native_id.clone(),
                    service_uuid,
                    characteristic_uuid,
                    descriptor_uuid,
                    op: TransferOp::Read,
                },
            ),
        }
    }

    /// A resolved write of a descriptor carrying exactly the given payload.
    pub fn write_descriptor(
        &self,
        service_uuid: u128,
        characteristic_uuid: u128,
        descriptor_uuid: u128,
        data: &[u8],
    ) -> (r: Result<DescriptorRequest, Error>)
        ensures
            ({
                let target = lookup_descriptor(
                    self@.services,
                    service_uuid,
                    characteristic_uuid,
                    descriptor_uuid,
                );
                match r {
                    Result::Ok(q) => self@.state is Connected && target is Some && q@
                        == (DescriptorRequestModel {
                        native_id: self@.native_id,
                        service_uuid,
                        characteristic_uuid,
                        descriptor_uuid,
                        op: TransferOpModel::Write(data@, WriteType::WithResponse),
                    }),
                    Result::Err(e) => (e is NotConnected && !(self@.state is Connected)) || (
                    e is DeviceNotFound && self@.state is Connected && target is None),
                }
            }),
    {
        if !self.is_connected() {
            return Result::Err(Error::NotConnected);
        }
        match find_descriptor(&self.services, service_uuid, characteristic_uuid, descriptor_uuid) {
            Option::None => Result::Err(Error::DeviceNotFound),
            Option::Some(_) => Result::Ok(
                DescriptorRequest {
                    native_id: self.native_id.clone(),
                    service_uuid,
                    characteristic_uuid,
                    descriptor_uuid,
                    op: TransferOp::Write(copy_byte_slice(data), WriteType::WithResponse),
                },
            ),
        }
    }

    /// The index of the registration entry of one characteristic path.
    fn sub_index(&self, service_uuid: u128, characteristic_uuid: u128) -> (r: Option<usize>)
        ensures
            match r {
                Option::Some(i) => i < self@.subs.len() && self@.subs[i as int].service_uuid
                    == service_uuid && self@.subs[i as int].characteristic_uuid
                    == characteristic_uuid,
                Option::None => forall|k: int|
                    0 <= k < self@.subs.len() ==> !(#[trigger] self@.subs[k].service_uuid
                        == service_uuid && self@.subs[k].characteristic_uuid
                        == characteristic_uuid),
            },
    {
        let mut i: usize = 0;
        while i < self.subs.len()
            invariant
                i <= self@.subs.len(),
                forall|k: int|
                    0 <= k < i ==> !(#[trigger] self@.subs[k].service_uuid == service_uuid
                        && self@.subs[k].characteristic_uuid == characteristic_uuid),
            decreases self@.subs.len() - i,
        {
            if self.subs[i].service_uuid == service_uuid && self.subs[i].characteristic_uuid
                == characteristic_uuid {
                return Option::Some(i);
            }
            i = i + 1;
        }
        Option::None
    }

    /// Register one more subscriber of a characteristic's notifications.
    /// Exactly one notification sink exists per characteristic per record:
    /// only the registration that takes the count from zero asks the
    /// transport to start notifications, so duplicate subscriptions never
    /// duplicate deliveries.
    pub fn subscribe(&mut self, service_uuid: u128, characteristic_uuid: u128) -> (r: Result<
        NotifyAction,
        Error,
    >)
        requires
            subs_unique(old(self)@.subs),
        ensures
            subs_unique(final(self)@.subs),
            ({
                let target = lookup_characteristic(
                    old(self)@.services,
                    service_uuid,
                    characteristic_uuid,
                );
                let before = sub_count(old(self)@.subs, service_uuid, characteristic_uuid);
                match r {
                    Result::Ok(action) => {
                        &&& old(self)@.state is Connected
                        &&& target is Some
                        &&& sub_count(final(self)@.subs, service_uuid, characteristic_uuid)
                            == bumped(before)
                        &&& forall|su: u128, cu: u128|
                            !(su == service_uuid && cu == characteristic_uuid) ==> sub_count(
                                final(self)@.subs,
                                su,
                                cu,
                            ) == sub_count(old(self)@.subs, su, cu)
                        &&& action == if before == 0 {
                            NotifyAction::Start
                        } else {
                            NotifyAction::NoChange
                        }
                        &&& final(self)@ == (PeripheralModel {
                            subs: final(self)@.subs,
                            ..old(self)@
                        })
                    },
                    Result::Err(e) => final(self)@ == old(self)@ && ((e is NotConnected && !(
                    old(self)@.state is Connected)) || (e is DeviceNotFound
                        && old(self)@.state is Connected && target is None)),
                }
            }),
    {
        if !self.is_connected() {
            return Result::Err(Error::NotConnected);
        }
        let present = find_characteristic(
            &self.services,
            service_uuid,
            characteristic_uuid,
        ).is_some();
        if !present {
            return Result::Err(Error::DeviceNotFound);
        }
        match self.sub_index(service_uuid, characteristic_uuid) {
            Option::Some(i) => {
                let e = self.subs[i];
                proof {
                    lemma_sub_count_at(self@.subs, i as int);
                }
                let grown = if e.count < u64::MAX {
                    e.count + 1
                } else {
                    e.count
                };
                let e2 = SubEntry { count: grown, ..e };
                proof {
                    assert forall|su: u128, cu: u128|
                        sub_count(self@.subs.update(i as int, e2), su, cu) == if su
                            == e2.service_uuid && cu == e2.characteristic_uuid {
                            e2.count
                        } else {
                            sub_count(self@.subs, su, cu)
                        } by {
                        lemma_sub_count_update(self@.subs, i as int, e2, su, cu);
                    }
                    lemma_sub_count_update(
                        self@.subs,
                        i as int,
                        e2,
                        service_uuid,
                        characteristic_uuid,
                    );
                }
                self.subs.set(i, e2);
                Result::Ok(
                    if e.count == 0 {
                        NotifyAction::Start
                    } else {
                        NotifyAction::NoChange
                    },
                )
            },
            Option::None => {
                let e = SubEntry { service_uuid, characteristic_uuid, count: 1 };
                proof {
                    assert forall|su: u128, cu: u128|
                        sub_count(self@.subs.push(e), su, cu) == if su == e.service_uuid && cu
                            == e.characteristic_uuid {
                            e.count
                        } else {
                            sub_count(self@.subs, su, cu)
                        } by {
                        lemma_sub_count_push(self@.subs, e, su, cu);
                    }
                    lemma_sub_count_absent(self@.subs, service_uuid, characteristic_uuid);
                    let t = self@.subs.push(e);
                    assert forall|a: int, b: int| 0 <= a < b < t.len() implies !(t[a].service_uuid
                        == t[b].service_uuid && t[a].characteristic_uuid
                        == t[b].characteristic_uuid) by {
                        assert(b == t.len() - 1 ==> t[b] == e);
                        assert(a < self@.subs.len() ==> t[a] == self@.subs[a]);
                    }
                }
                self.subs.push(e);
                Result::Ok(NotifyAction::Start)
            },
        }
    }

    /// Drop one subscriber of a characteristic's notifications. Only the
    /// unsubscription that takes the count to zero asks the transport to
    /// stop notifications; with more subscribers left, deliveries keep
    /// flowing. A no-op on a path nobody subscribed to.
    pub fn unsubscribe(&mut self, service_uuid: u128, characteristic_uuid: u128) -> (action:
        NotifyAction)
        requires
            subs_unique(old(self)@.subs),
        ensures
            subs_unique(final(self)@.subs),
            ({
                let before = sub_count(old(self)@.subs, service_uuid, characteristic_uuid);
                &&& sub_count(final(self)@.subs, service_uuid, characteristic_uuid) == dropped(
                    before,
                )
                &&& forall|su: u128, cu: u128|
                    !(su == service_uuid && cu == characteristic_uuid) ==> sub_count(
                        final(self)@.subs,
                        su,
                        cu,
                    ) == sub_count(old(self)@.subs, su, cu)
                &&& action == if before == 1 {
                    NotifyAction::Stop
                } else {
                    NotifyAction::NoChange
                }
                &&& final(self)@ == (PeripheralModel { subs: final(self)@.subs, ..old(self)@ })
            }),
    {
        match self.sub_index(service_uuid, characteristic_uuid) {
            Option::Some(i) => {
                let e = self.subs[i];
                proof {
                    lemma_sub_count_at(self@.subs, i as int);
                }
                if e.count == 0 {
                    return NotifyAction::NoChange;
                }
                let e2 = SubEntry { count: e.count - 1, ..e };
                proof {
                    assert forall|su: u128, cu: u128|
                        sub_count(self@.subs.update(i as int, e2), su, cu) == if su
                            == e2.service_uuid && cu == e2.characteristic_uuid {
                            e2.count
                        } else {
                            sub_count(self@.subs, su, cu)
                        } by {
                        lemma_sub_count_update(self@.subs, i as int, e2, su, cu);
                    }
                }
                self.subs.set(i, e2);
                if e.count == 1 {
                    NotifyAction::Stop
                } else {
                    NotifyAction::NoChange
                }
            },
            Option::None => {
                proof {
                    lemma_sub_count_absent(self@.subs, service_uuid, characteristic_uuid);
                }
                NotifyAction::NoChange
            },
        }
    }

    /// Hand in a value-change event the transport delivered for a
    /// characteristic. Queued exactly when some registration of that
    /// characteristic is live; events for unsubscribed characteristics are
    /// dropped.
    #[verifier::loop_isolation(false)]
    pub fn push_notification(&mut self, characteristic_uuid: u128, value: Vec<u8>) -> (delivered:
        bool)
        ensures
            delivered == char_subscribed(old(self)@.subs, characteristic_uuid),
            delivered ==> final(self)@ == (PeripheralModel {
                pending: old(self)@.pending.push(
                    NotificationModel { uuid: characteristic_uuid, value: value@ },
                ),
                ..old(self)@
            }),
            !delivered ==> final(self)@ == old(self)@,
    {
        let ghost payload = value@;
        let mut i: usize = 0;
        while i < self.subs.len()
            invariant
                i <= self@.subs.len(),
                self@ == old(self)@,
                forall|k: int|
                    0 <= k < i ==> !(self@.subs[k].characteristic_uuid == characteristic_uuid
                        && self@.subs[k].count > 0),
            decreases self@.subs.len() - i,
        {
            if self.subs[i].characteristic_uuid == characteristic_uuid && self.subs[i].count > 0 {
                let ghost idx = i as int;
                self.pending.push(ValueNotification { uuid: characteristic_uuid, value });
                proof {
                    assert(old(self)@.subs[idx].characteristic_uuid == characteristic_uuid && old(
                        self,
                    )@.subs[idx].count > 0);
                    assert(char_subscribed(old(self)@.subs, characteristic_uuid));
                    assert(notification_views(self.pending@) =~= old(self)@.pending.push(
                        NotificationModel { uuid: characteristic_uuid, value: payload },
                    ));
                    assert(self@ =~= (PeripheralModel {
                        pending: old(self)@.pending.push(
                            NotificationModel { uuid: characteristic_uuid, value: payload },
                        ),
                        ..old(self)@
                    }));
                }
                return true;
            }
            i = i + 1;
        }
        proof {
            if char_subscribed(old(self)@.subs, characteristic_uuid) {
                let k = choose|k: int|
                    0 <= k < old(self)@.subs.len() && old(self)@.subs[k].characteristic_uuid
                        == characteristic_uuid && old(self)@.subs[k].count > 0;
                assert(!(self@.subs[k].characteristic_uuid == characteristic_uuid
                    && self@.subs[k].count > 0));
            }
        }
        false
    }

    /// The value-change events queued since the last call, oldest first;
    /// the queue is left empty. One lazy sequence per record, each event
    /// tagged with its characteristic UUID.
    pub fn notifications(&mut self) -> (r: Vec<ValueNotification>)
        ensures
            notification_views(r@) == old(self)@.pending,
            final(self)@ == (PeripheralModel { pending: Seq::empty(), ..old(self)@ }),
    {
        let mut drained: Vec<ValueNotification> = Vec::new();
        core::mem::swap(&mut drained, &mut self.pending);
        proof {
            assert(notification_views(Seq::<ValueNotification>::empty()) =~= Seq::<
                NotificationModel,
            >::empty());
        }
        drained
    }
}

} // verus!
