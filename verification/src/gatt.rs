//! The GATT topology: a three-level tree of services, characteristics and
//! descriptors, keyed by UUID at each level.
//!
//! A discovery pass hands the crate a raw tree as the backend reported it
//! (flag booleans, possibly failed descriptor enumerations, possibly repeated
//! UUIDs). Building the cached topology turns the flags into the
//! portable flag set, treats a failed descriptor enumeration as "zero
//! descriptors" rather than a failed pass, and keeps the first occurrence of
//! every UUID so that UUIDs are unique within their level under one parent.

use vstd::prelude::*;

verus! {

/// One capability bit advertised per characteristic.
#[derive(Clone, Copy, Debug, PartialEq, Eq, Structural)]
pub enum CharProps {
    Broadcast,
    Read,
    WriteWithoutResponse,
    Write,
    Notify,
    Indicate,
    AuthenticatedSignedWrites,
    ExtendedProperties,
}

/// The wire position of one capability bit, as GATT packs them into a byte.
pub open spec fn char_prop_bit(p: CharProps) -> u8 {
    match p {
        CharProps::Broadcast => 0x01,
        CharProps::Read => 0x02,
        CharProps::WriteWithoutResponse => 0x04,
        CharProps::Write => 0x08,
        CharProps::Notify => 0x10,
        CharProps::Indicate => 0x20,
        CharProps::AuthenticatedSignedWrites => 0x40,
        CharProps::ExtendedProperties => 0x80,
    }
}

impl CharProps {
    /// The wire bit of this capability.
    pub fn bit(self) -> (b: u8)
        ensures
            b == char_prop_bit(self),
    {
        match self {
            CharProps::Broadcast => 0x01,
            CharProps::Read => 0x02,
            CharProps::WriteWithoutResponse => 0x04,
            CharProps::Write => 0x08,
            CharProps::Notify => 0x10,
            CharProps::Indicate => 0x20,
            CharProps::AuthenticatedSignedWrites => 0x40,
            CharProps::ExtendedProperties => 0x80,
        }
    }
}

/// The portable set of capability flags of one characteristic.
#[derive(Clone, Copy, Debug, PartialEq, Eq, Structural)]
pub struct CharFlags {
    pub broadcast: bool,
    pub read: bool,
    pub write_without_response: bool,
    pub write: bool,
    pub notify: bool,
    pub indicate: bool,
    pub authenticated_signed_writes: bool,
    pub extended_properties: bool,
}

impl CharFlags {
    /// The flag set with no capability.
    pub fn none() -> (f: CharFlags)
        ensures
            f == (CharFlags {
                broadcast: false,
                read: false,
                write_without_response: false,
                write: false,
                notify: false,
                indicate: false,
                authenticated_signed_writes: false,
                extended_properties: false,
            }),
    {
        CharFlags {
            broadcast: false,
            read: false,
            write_without_response: false,
            write: false,
            notify: false,
            indicate: false,
            authenticated_signed_writes: false,
            extended_properties: false,
        }
    }

    /// Whether the given capability is in the set.
    pub fn has(self, p: CharProps) -> (r: bool)
        ensures
            r == self.spec_has(p),
    {
        match p {
            CharProps::Broadcast => self.broadcast,
            CharProps::Read => self.read,
            CharProps::WriteWithoutResponse => self.write_without_response,
            CharProps::Write => self.write,
            CharProps::Notify => self.notify,
            CharProps::Indicate => self.indicate,
            CharProps::AuthenticatedSignedWrites => self.authenticated_signed_writes,
            CharProps::ExtendedProperties => self.extended_properties,
        }
    }

    /// Whether the given capability is in the set.
    pub open spec fn spec_has(self, p: CharProps) -> bool {
        match p {
            CharProps::Broadcast => self.broadcast,
            CharProps::Read => self.read,
            CharProps::WriteWithoutResponse => self.write_without_response,
            CharProps::Write => self.write,
            CharProps::Notify => self.notify,
            CharProps::Indicate => self.indicate,
            CharProps::AuthenticatedSignedWrites => self.authenticated_signed_writes,
            CharProps::ExtendedProperties => self.extended_properties,
        }
    }

    /// The flag set read out of a backend's packed byte.
    pub fn from_bits(b: u8) -> (f: CharFlags)
        ensures
            f.broadcast == (b & 0x01 != 0),
            f.read == (b & 0x02 != 0),
            f.write_without_response == (b & 0x04 != 0),
            f.write == (b & 0x08 != 0),
            f.notify == (b & 0x10 != 0),
            f.indicate == (b & 0x20 != 0),
            f.authenticated_signed_writes == (b & 0x40 != 0),
            f.extended_properties == (b & 0x80 != 0),
    {
        CharFlags {
            broadcast: b & 0x01 != 0,
            read: b & 0x02 != 0,
            write_without_response: b & 0x04 != 0,
            write: b & 0x08 != 0,
            notify: b & 0x10 != 0,
            indicate: b & 0x20 != 0,
            authenticated_signed_writes: b & 0x40 != 0,
            extended_properties: b & 0x80 != 0,
        }
    }

    /// The flag set packed into a byte, one bit per capability.
    pub fn to_bits(self) -> (b: u8)
        ensures
            (b & 0x01 != 0) == self.broadcast,
            (b & 0x02 != 0) == self.read,
            (b & 0x04 != 0) == self.write_without_response,
            (b & 0x08 != 0) == self.write,
            (b & 0x10 != 0) == self.notify,
            (b & 0x20 != 0) == self.indicate,
            (b & 0x40 != 0) == self.authenticated_signed_writes,
            (b & 0x80 != 0) == self.extended_properties,
    {
        let b0: u8 = if self.broadcast {
            0x01
        } else {
            0
        };
        let b1: u8 = if self.read {
            0x02
        } else {
            0
        };
        let b2: u8 = if self.write_without_response {
            0x04
        } else {
            0
        };
        let b3: u8 = if self.write {
            0x08
        } else {
            0
        };
        let b4: u8 = if self.notify {
            0x10
        } else {
            0
        };
        let b5: u8 = if self.indicate {
            0x20
        } else {
            0
        };
        let b6: u8 = if self.authenticated_signed_writes {
            0x40
        } else {
            0
        };
        let b7: u8 = if self.extended_properties {
            0x80
        } else {
            0
        };
        let b: u8 = b0 | b1 | b2 | b3 | b4 | b5 | b6 | b7;
        proof {
            assert((b & 0x01 != 0) == (b0 == 0x01) && (b & 0x02 != 0) == (b1 == 0x02) && (b & 0x04
                != 0) == (b2 == 0x04) && (b & 0x08 != 0) == (b3 == 0x08) && (b & 0x10 != 0) == (b4
                == 0x10) && (b & 0x20 != 0) == (b5 == 0x20) && (b & 0x40 != 0) == (b6 == 0x40) && (
            b & 0x80 != 0) == (b7 == 0x80)) by (bit_vector)
                requires
                    b == b0 | b1 | b2 | b3 | b4 | b5 | b6 | b7,
                    b0 == 0x01 || b0 == 0,
                    b1 == 0x02 || b1 == 0,
                    b2 == 0x04 || b2 == 0,
                    b3 == 0x08 || b3 == 0,
                    b4 == 0x10 || b4 == 0,
                    b5 == 0x20 || b5 == 0,
                    b6 == 0x40 || b6 == 0,
                    b7 == 0x80 || b7 == 0,
            ;
        }
        b
    }
}

/// One descriptor, with lookup keys back to the characteristic and service
/// that own it.
#[derive(Clone, Copy, Debug, PartialEq, Eq, Structural)]
pub struct Descriptor {
    pub uuid: u128,
    pub service_uuid: u128,
    pub characteristic_uuid: u128,
}

/// One characteristic: its UUID, a lookup key back to its owning service,
/// its capability flags, and its descriptors.
#[derive(Debug)]
pub struct Characteristic {
    pub uuid: u128,
    pub service_uuid: u128,
    pub properties: CharFlags,
    pub descriptors: Vec<Descriptor>,
}

/// The mathematical value of a [`Characteristic`].
#[verifier::ext_equal]
pub struct CharacteristicModel {
    pub uuid: u128,
    pub service_uuid: u128,
    pub properties: CharFlags,
    pub descriptors: Seq<Descriptor>,
}

impl View for Characteristic {
    type V = CharacteristicModel;

    open spec fn view(&self) -> CharacteristicModel {
        CharacteristicModel {
            uuid: self.uuid,
            service_uuid: self.service_uuid,
            properties: self.properties,
            descriptors: self.descriptors@,
        }
    }
}

impl Clone for Characteristic {
    /// An exact copy: the clone has the same mathematical value.
    fn clone(&self) -> (r: Characteristic)
        ensures
            r@ == self@,
    {
        Characteristic {
            uuid: self.uuid,
            service_uuid: self.service_uuid,
            properties: self.properties,
            descriptors: copy_descriptors(&self.descriptors),
        }
    }
}

/// One service: its UUID, whether it is a primary service, and its
/// characteristics.
#[derive(Debug)]
pub struct Service {
    pub uuid: u128,
    pub primary: bool,
    pub characteristics: Vec<Characteristic>,
}

/// The mathematical value of a [`Service`].
#[verifier::ext_equal]
pub struct ServiceModel {
    pub uuid: u128,
    pub primary: bool,
    pub characteristics: Seq<CharacteristicModel>,
}

/// The views of a sequence of characteristics.
pub open spec fn char_views(s: Seq<Characteristic>) -> Seq<CharacteristicModel> {
    s.map_values(|c: Characteristic| c@)
}

impl View for Service {
    type V = ServiceModel;

    open spec fn view(&self) -> ServiceModel {
        ServiceModel {
            uuid: self.uuid,
            primary: self.primary,
            characteristics: char_views(self.characteristics@),
        }
    }
}

impl Clone for Service {
    /// An exact copy: the clone has the same mathematical value.
    fn clone(&self) -> (r: Service)
        ensures
            r@ == self@,
    {
        let mut characteristics: Vec<Characteristic> = Vec::new();
        let mut i: usize = 0;
        while i < self.characteristics.len()
            invariant
                i <= self.characteristics.len(),
                characteristics@.len() == i,
                char_views(characteristics@) =~= char_views(self.characteristics@).take(i as int),
            decreases self.characteristics.len() - i,
        {
            characteristics.push(self.characteristics[i].clone());
            i = i + 1;
        }
        proof {
            assert(char_views(self.characteristics@).take(self.characteristics@.len() as int)
                =~= char_views(self.characteristics@));
        }
        Service { uuid: self.uuid, primary: self.primary, characteristics }
    }
}

/// The views of a sequence of services: the tree as a mathematical value.
pub open spec fn service_views(s: Seq<Service>) -> Seq<ServiceModel> {
    s.map_values(|x: Service| x@)
}

/// An exact copy of a descriptor list.
pub fn copy_descriptors(v: &Vec<Descriptor>) -> (r: Vec<Descriptor>)
    ensures
        r@ == v@,
{
    let mut r: Vec<Descriptor> = Vec::new();
    let mut i: usize = 0;
    while i < v.len()
        invariant
            i <= v.len(),
            r@ =~= v@.take(i as int),
        decreases v.len() - i,
    {
        r.push(v[i]);
        i = i + 1;
    }
    proof {
        assert(v@.take(v@.len() as int) =~= v@);
    }
    r
}

/// One descriptor as a backend reports it during discovery.
#[derive(Clone, Copy, Debug, PartialEq, Eq, Structural)]
pub struct RawDescriptor {
    pub uuid: u128,
}

/// One characteristic as a backend reports it during discovery: the native
/// capability booleans, and the descriptors when the backend's descriptor
/// enumeration succeeded. `descriptors` absent means the enumeration failed;
/// backends commonly report "not found" for legitimately descriptor-less
/// characteristics, so that branch degrades to zero descriptors rather than
/// failing the pass.
#[derive(Debug)]
pub struct RawCharacteristic {
    pub uuid: u128,
    pub broadcast: bool,
    pub read: bool,
    pub write_without_response: bool,
    pub write: bool,
    pub notify: bool,
    pub indicate: bool,
    pub authenticated_signed_writes: bool,
    pub extended_properties: bool,
    pub descriptors: Option<Vec<RawDescriptor>>,
}

/// The mathematical value of a [`RawCharacteristic`].
#[verifier::ext_equal]
pub struct RawCharacteristicModel {
    pub uuid: u128,
    pub broadcast: bool,
    pub read: bool,
    pub write_without_response: bool,
    pub write: bool,
    pub notify: bool,
    pub indicate: bool,
    pub authenticated_signed_writes: bool,
    pub extended_properties: bool,
    pub descriptors: Option<Seq<RawDescriptor>>,
}

impl View for RawCharacteristic {
    type V = RawCharacteristicModel;

    open spec fn view(&self) -> RawCharacteristicModel {
        RawCharacteristicModel {
            uuid: self.uuid,
            broadcast: self.broadcast,
            read: self.read,
            write_without_response: self.write_without_response,
            write: self.write,
            notify: self.notify,
            indicate: self.indicate,
            authenticated_signed_writes: self.authenticated_signed_writes,
            extended_properties: self.extended_properties,
            descriptors: match self.descriptors {
                Option::Some(ds) => Option::Some(ds@),
                Option::None => Option::None,
            },
        }
    }
}

/// One service as a backend reports it during discovery.
#[derive(Debug)]
pub struct RawService {
    pub uuid: u128,
    pub primary: bool,
    pub characteristics: Vec<RawCharacteristic>,
}

/// The mathematical value of a [`RawService`].
#[verifier::ext_equal]
pub struct RawServiceModel {
    pub uuid: u128,
    pub primary: bool,
    pub characteristics: Seq<RawCharacteristicModel>,
}

/// The views of a sequence of raw characteristics.
pub open spec fn raw_char_views(s: Seq<RawCharacteristic>) -> Seq<RawCharacteristicModel> {
    s.map_values(|c: RawCharacteristic| c@)
}

impl View for RawService {
    type V = RawServiceModel;

    open spec fn view(&self) -> RawServiceModel {
        RawServiceModel {
            uuid: self.uuid,
            primary: self.primary,
            characteristics: raw_char_views(self.characteristics@),
        }
    }
}

/// The views of a sequence of raw services.
pub open spec fn raw_service_views(s: Seq<RawService>) -> Seq<RawServiceModel> {
    s.map_values(|x: RawService| x@)
}

/// Whether some element of `s` has key `k`.
pub open spec fn keyed<T>(s: Seq<T>, key: spec_fn(T) -> u128, k: u128) -> bool {
    exists|j: int| 0 <= j < s.len() && key(s[j]) == k
}

/// The subsequence of `s` that keeps, for every key, only its first
/// occurrence.
pub open spec fn first_by_key<T>(s: Seq<T>, key: spec_fn(T) -> u128) -> Seq<T>
    decreases s.len(),
{
    if s.len() == 0 {
        Seq::empty()
    } else {
        let fore = first_by_key(s.drop_last(), key);
        if keyed(s.drop_last(), key, key(s.last())) {
            fore
        } else {
            fore.push(s.last())
        }
    }
}

/// `first_by_key` keeps exactly the keys of its input, holds each key once,
/// and holds only elements of its input.
pub proof fn lemma_first_by_key<T>(s: Seq<T>, key: spec_fn(T) -> u128)
    ensures
        forall|k: u128| keyed(first_by_key(s, key), key, k) == keyed(s, key, k),
        forall|i: int, j: int|
            0 <= i < j < first_by_key(s, key).len() ==> key(first_by_key(s, key)[i]) != key(
                first_by_key(s, key)[j],
            ),
        forall|i: int| 0 <= i < first_by_key(s, key).len() ==> s.contains(first_by_key(s, key)[i]),
    decreases s.len(),
{
    if s.len() == 0 {
    } else {
        let fore = s.drop_last();
        let last = s.last();
        lemma_first_by_key(fore, key);
        let d0 = first_by_key(fore, key);
        let d = first_by_key(s, key);
        assert forall|k: u128| keyed(s, key, k) implies (keyed(fore, key, k) || key(last)
            == k) by {
            let j = choose|j: int| 0 <= j < s.len() && key(s[j]) == k;
            if j < s.len() - 1 {
                assert(fore[j] == s[j]);
                assert(keyed(fore, key, k));
            } else {
                assert(s[j] == last);
            }
        }
        assert forall|k: u128| keyed(fore, key, k) implies keyed(s, key, k) by {
            let j = choose|j: int| 0 <= j < fore.len() && key(fore[j]) == k;
            assert(s[j] == fore[j]);
        }
        assert forall|i: int| 0 <= i < d0.len() implies s.contains(d0[i]) by {
            assert(fore.contains(d0[i]));
            let j = choose|j: int| 0 <= j < fore.len() && fore[j] == d0[i];
            assert(s[j] == fore[j]);
        }
        if keyed(fore, key, key(last)) {
            assert(d == d0);
        } else {
            assert(d == d0.push(last));
            assert(key(s[s.len() - 1]) == key(last));
            assert forall|k: u128| keyed(d, key, k) implies keyed(s, key, k) by {
                let j = choose|j: int| 0 <= j < d.len() && key(d[j]) == k;
                if j < d0.len() {
                    assert(d[j] == d0[j]);
                    assert(keyed(d0, key, k));
                } else {
                    assert(d[j] == last);
                }
            }
            assert forall|k: u128| keyed(s, key, k) implies keyed(d, key, k) by {
                if keyed(fore, key, k) {
                    let j = choose|j: int| 0 <= j < d0.len() && key(d0[j]) == k;
                    assert(d[j] == d0[j]);
                } else {
                    assert(key(last) == k);
                    assert(d[d.len() - 1] == last);
                }
            }
            assert forall|i: int, j: int| 0 <= i < j < d.len() implies key(d[i]) != key(d[j]) by {
                if j < d0.len() {
                    assert(d[i] == d0[i] && d[j] == d0[j]);
                } else {
                    assert(d[j] == last);
                    assert(d[i] == d0[i]);
                    if key(d0[i]) == key(last) {
                        assert(keyed(d0, key, key(last)));
                    }
                }
            }
            assert forall|i: int| 0 <= i < d.len() implies s.contains(d[i]) by {
                if i < d0.len() {
                    assert(d[i] == d0[i]);
                } else {
                    assert(d[i] == last);
                    assert(s[s.len() - 1] == last);
                }
            }
        }
    }
}

/// The key of a raw descriptor: its UUID.
pub open spec fn rdesc_key() -> spec_fn(RawDescriptor) -> u128 {
    |d: RawDescriptor| d.uuid
}

/// The key of a raw characteristic: its UUID.
pub open spec fn rchar_key() -> spec_fn(RawCharacteristicModel) -> u128 {
    |c: RawCharacteristicModel| c.uuid
}

/// The key of a raw service: its UUID.
pub open spec fn rservice_key() -> spec_fn(RawServiceModel) -> u128 {
    |s: RawServiceModel| s.uuid
}

/// The portable flag set a backend's capability booleans stand for.
pub open spec fn built_flags(rc: RawCharacteristicModel) -> CharFlags {
    CharFlags {
        broadcast: rc.broadcast,
        read: rc.read,
        write_without_response: rc.write_without_response,
        write: rc.write,
        notify: rc.notify,
        indicate: rc.indicate,
        authenticated_signed_writes: rc.authenticated_signed_writes,
        extended_properties: rc.extended_properties,
    }
}

/// The cached descriptor built from a raw one, under the given owners.
pub open spec fn built_descriptor(su: u128, cu: u128, rd: RawDescriptor) -> Descriptor {
    Descriptor { uuid: rd.uuid, service_uuid: su, characteristic_uuid: cu }
}

/// The cached descriptor list of one characteristic: a failed enumeration
/// degrades to zero descriptors; duplicate UUIDs keep the first occurrence.
pub open spec fn built_descriptors(su: u128, cu: u128, rds: Option<Seq<RawDescriptor>>) -> Seq<
    Descriptor,
> {
    match rds {
        Option::None => Seq::empty(),
        Option::Some(ds) => first_by_key(ds, rdesc_key()).map_values(
            |d: RawDescriptor| built_descriptor(su, cu, d),
        ),
    }
}

/// The cached characteristic built from a raw one, under its owning service.
pub open spec fn built_characteristic(su: u128, rc: RawCharacteristicModel) -> CharacteristicModel {
    CharacteristicModel {
        uuid: rc.uuid,
        service_uuid: su,
        properties: built_flags(rc),
        descriptors: built_descriptors(su, rc.uuid, rc.descriptors),
    }
}

/// The cached characteristic list of one service: duplicate UUIDs keep the
/// first occurrence.
pub open spec fn built_characteristics(su: u128, rcs: Seq<RawCharacteristicModel>) -> Seq<
    CharacteristicModel,
> {
    first_by_key(rcs, rchar_key()).map_values(
        |c: RawCharacteristicModel| built_characteristic(su, c),
    )
}

/// The cached service built from a raw one.
pub open spec fn built_service(rs: RawServiceModel) -> ServiceModel {
    ServiceModel {
        uuid: rs.uuid,
        primary: rs.primary,
        characteristics: built_characteristics(rs.uuid, rs.characteristics),
    }
}

/// The whole cached tree built from one discovery pass: duplicate service
/// UUIDs keep the first occurrence.
pub open spec fn built_services(raw: Seq<RawServiceModel>) -> Seq<ServiceModel> {
    first_by_key(raw, rservice_key()).map_values(|r: RawServiceModel| built_service(r))
}

/// An exact copy of a service list: the snapshot a reader gets.
pub fn copy_services(v: &Vec<Service>) -> (r: Vec<Service>)
    ensures
        service_views(r@) == service_views(v@),
{
    let mut r: Vec<Service> = Vec::new();
    let mut i: usize = 0;
    while i < v.len()
        invariant
            i <= v.len(),
            r@.len() == i,
            service_views(r@) =~= service_views(v@).take(i as int),
        decreases v.len() - i,
    {
        r.push(v[i].clone());
        i = i + 1;
    }
    proof {
        assert(service_views(v@).take(v@.len() as int) =~= service_views(v@));
    }
    r
}

/// Whether the descriptor list already holds a descriptor with this UUID.
fn descriptor_uuid_present(out: &Vec<Descriptor>, uuid: u128) -> (r: bool)
    ensures
        r == exists|j: int| 0 <= j < out@.len() && out@[j].uuid == uuid,
{
    let mut i: usize = 0;
    while i < out.len()
        invariant
            i <= out.len(),
            forall|j: int| 0 <= j < i ==> out@[j].uuid != uuid,
        decreases out.len() - i,
    {
        if out[i].uuid == uuid {
            return true;
        }
        i = i + 1;
    }
    false
}

/// Whether the characteristic list already holds a characteristic with this
/// UUID.
fn characteristic_uuid_present(out: &Vec<Characteristic>, uuid: u128) -> (r: bool)
    ensures
        r == exists|j: int| 0 <= j < out@.len() && out@[j].uuid == uuid,
{
    let mut i: usize = 0;
    while i < out.len()
        invariant
            i <= out.len(),
            forall|j: int| 0 <= j < i ==> out@[j].uuid != uuid,
        decreases out.len() - i,
    {
        if out[i].uuid == uuid {
            return true;
        }
        i = i + 1;
    }
    false
}

/// Whether the service list already holds a service with this UUID.
fn service_uuid_present(out: &Vec<Service>, uuid: u128) -> (r: bool)
    ensures
        r == exists|j: int| 0 <= j < out@.len() && out@[j].uuid == uuid,
{
    let mut i: usize = 0;
    while i < out.len()
        invariant
            i <= out.len(),
            forall|j: int| 0 <= j < i ==> out@[j].uuid != uuid,
        decreases out.len() - i,
    {
        if out[i].uuid == uuid {
            return true;
        }
        i = i + 1;
    }
    false
}

/// The cached descriptor list of one characteristic, built from what the
/// backend's enumeration reported.
#[verifier::loop_isolation(false)]
fn build_descriptors(service_uuid: u128, characteristic_uuid: u128, raw: &Option<
    Vec<RawDescriptor>,
>) -> (out: Vec<Descriptor>)
    ensures
        out@ == built_descriptors(
            service_uuid,
            characteristic_uuid,
            match raw {
                Option::Some(ds) => Option::Some(ds@),
                Option::None => Option::None,
            },
        ),
{
    match raw {
        Option::None => Vec::new(),
        Option::Some(ds) => {
            let key = Ghost(rdesc_key());
            let bd = Ghost(|d: RawDescriptor| built_descriptor(service_uuid, characteristic_uuid, d));
            let mut out: Vec<Descriptor> = Vec::new();
            let mut i: usize = 0;
            while i < ds.len()
                invariant
                    i <= ds.len(),
                    out@ == first_by_key(ds@.take(i as int), key@).map_values(bd@),
                decreases ds.len() - i,
            {
                let ghost t0 = ds@.take(i as int);
                let ghost t1 = ds@.take(i as int + 1);
                proof {
                    assert(t1.drop_last() =~= t0);
                    assert(t1.last() == ds@[i as int]);
                    lemma_first_by_key(t0, key@);
                }
                let d = ds[i];
                let present = descriptor_uuid_present(&out, d.uuid);
                proof {
                    if present {
                        let j = choose|j: int| 0 <= j < out@.len() && out@[j].uuid == d.uuid;
                        assert(out@[j] == bd@(first_by_key(t0, key@)[j]));
                        assert(keyed(first_by_key(t0, key@), key@, d.uuid));
                    } else {
                        if keyed(t0, key@, key@(t1.last())) {
                            let j = choose|j: int|
                                0 <= j < first_by_key(t0, key@).len() && key@(
                                    first_by_key(t0, key@)[j],
                                ) == d.uuid;
                            assert(out@[j] == bd@(first_by_key(t0, key@)[j]));
                            assert(out@[j].uuid == d.uuid);
                        }
                    }
                }
                if !present {
                    out.push(
                        Descriptor {
                            uuid: d.uuid,
                            service_uuid,
                            characteristic_uuid,
                        },
                    );
                    proof {
                        assert(first_by_key(t1, key@) == first_by_key(t0, key@).push(t1.last()));
                        assert(out@ =~= first_by_key(t1, key@).map_values(bd@));
                    }
                } else {
                    proof {
                        assert(first_by_key(t1, key@) == first_by_key(t0, key@));
                    }
                }
                i = i + 1;
            }
            proof {
                assert(ds@.take(ds@.len() as int) =~= ds@);
            }
            out
        },
    }
}

/// The cached characteristic built from a raw one, under its owning service.
fn build_characteristic(service_uuid: u128, rc: &RawCharacteristic) -> (c: Characteristic)
    ensures
        c@ == built_characteristic(service_uuid, rc@),
{
    Characteristic {
        uuid: rc.uuid,
        service_uuid,
        properties: CharFlags {
            broadcast: rc.broadcast,
            read: rc.read,
            write_without_response: rc.write_without_response,
            write: rc.write,
            notify: rc.notify,
            indicate: rc.indicate,
            authenticated_signed_writes: rc.authenticated_signed_writes,
            extended_properties: rc.extended_properties,
        },
        descriptors: build_descriptors(service_uuid, rc.uuid, &rc.descriptors),
    }
}

/// The cached service built from a raw one: flags packed, descriptor
/// failures degraded per branch, first occurrence kept per UUID.
#[verifier::loop_isolation(false)]
fn build_service(rs: &RawService) -> (s: Service)
    ensures
        s@ == built_service(rs@),
{
    let key = Ghost(rchar_key());
    let bc = Ghost(|c: RawCharacteristicModel| built_characteristic(rs.uuid, c));
    let mut characteristics: Vec<Characteristic> = Vec::new();
    let mut i: usize = 0;
    while i < rs.characteristics.len()
        invariant
            i <= rs.characteristics.len(),
            char_views(characteristics@) == first_by_key(
                raw_char_views(rs.characteristics@).take(i as int),
                key@,
            ).map_values(bc@),
            characteristics@.len() == first_by_key(
                raw_char_views(rs.characteristics@).take(i as int),
                key@,
            ).len(),
        decreases rs.characteristics.len() - i,
    {
        let ghost rcs = raw_char_views(rs.characteristics@);
        let ghost t0 = rcs.take(i as int);
        let ghost t1 = rcs.take(i as int + 1);
        proof {
            assert(t1.drop_last() =~= t0);
            assert(t1.last() == rcs[i as int]);
            assert(rcs[i as int] == rs.characteristics@[i as int]@);
            lemma_first_by_key(t0, key@);
        }
        let rc = &rs.characteristics[i];
        let present = characteristic_uuid_present(&characteristics, rc.uuid);
        proof {
            if present {
                let j = choose|j: int|
                    0 <= j < characteristics@.len() && characteristics@[j].uuid == rc.uuid;
                assert(char_views(characteristics@)[j] == characteristics@[j]@);
                assert(char_views(characteristics@)[j] == bc@(first_by_key(t0, key@)[j]));
                assert(key@(first_by_key(t0, key@)[j]) == rc.uuid);
                assert(keyed(first_by_key(t0, key@), key@, rc.uuid));
            } else {
                if keyed(t0, key@, key@(t1.last())) {
                    let j = choose|j: int|
                        0 <= j < first_by_key(t0, key@).len() && key@(first_by_key(t0, key@)[j])
                            == rc.uuid;
                    assert(char_views(characteristics@)[j] == bc@(first_by_key(t0, key@)[j]));
                    assert(char_views(characteristics@)[j] == characteristics@[j]@);
                    assert(characteristics@[j].uuid == rc.uuid);
                }
            }
        }
        if !present {
            let ghost before = characteristics@;
            characteristics.push(build_characteristic(rs.uuid, rc));
            proof {
                let d0v = first_by_key(t0, key@);
                let d1 = first_by_key(t1, key@);
                assert(d1 == d0v.push(t1.last()));
                assert(characteristics@ == before.push(characteristics@[before.len() as int]));
                assert(characteristics@[before.len() as int]@ == bc@(t1.last()));
                assert forall|k: int| 0 <= k < characteristics@.len() implies char_views(
                    characteristics@,
                )[k] == d1.map_values(bc@)[k] by {
                    assert(char_views(characteristics@)[k] == characteristics@[k]@);
                    if k < before.len() {
                        assert(characteristics@[k] == before[k]);
                        assert(char_views(before)[k] == before[k]@);
                        assert(char_views(before)[k] == d0v.map_values(bc@)[k]);
                        assert(d1[k] == d0v[k]);
                    } else {
                        assert(d1[k] == t1.last());
                    }
                }
                assert(char_views(characteristics@) =~= d1.map_values(bc@));
            }
        } else {
            proof {
                assert(first_by_key(t1, key@) == first_by_key(t0, key@));
            }
        }
        i = i + 1;
    }
    proof {
        let rcs = raw_char_views(rs.characteristics@);
        assert(rcs.take(rcs.len() as int) =~= rcs);
    }
    Service { uuid: rs.uuid, primary: rs.primary, characteristics }
}

/// The whole cached tree built from one discovery pass.
#[verifier::loop_isolation(false)]
pub fn build_services(raw: &Vec<RawService>) -> (out: Vec<Service>)
    ensures
        service_views(out@) == built_services(raw_service_views(raw@)),
{
    let key = Ghost(rservice_key());
    let bs = Ghost(|r: RawServiceModel| built_service(r));
    let mut out: Vec<Service> = Vec::new();
    let mut i: usize = 0;
    while i < raw.len()
        invariant
            i <= raw.len(),
            service_views(out@) == first_by_key(
                raw_service_views(raw@).take(i as int),
                key@,
            ).map_values(bs@),
            out@.len() == first_by_key(raw_service_views(raw@).take(i as int), key@).len(),
        decreases raw.len() - i,
    {
        let ghost rss = raw_service_views(raw@);
        let ghost t0 = rss.take(i as int);
        let ghost t1 = rss.take(i as int + 1);
        proof {
            assert(t1.drop_last() =~= t0);
            assert(t1.last() == rss[i as int]);
            assert(rss[i as int] == raw@[i as int]@);
            lemma_first_by_key(t0, key@);
        }
        let rs = &raw[i];
        let present = service_uuid_present(&out, rs.uuid);
        proof {
            if present {
                let j = choose|j: int| 0 <= j < out@.len() && out@[j].uuid == rs.uuid;
                assert(service_views(out@)[j] == out@[j]@);
                assert(service_views(out@)[j] == bs@(first_by_key(t0, key@)[j]));
                assert(key@(first_by_key(t0, key@)[j]) == rs.uuid);
                assert(keyed(first_by_key(t0, key@), key@, rs.uuid));
            } else {
                if keyed(t0, key@, key@(t1.last())) {
                    let j = choose|j: int|
                        0 <= j < first_by_key(t0, key@).len() && key@(first_by_key(t0, key@)[j])
                            == rs.uuid;
                    assert(service_views(out@)[j] == bs@(first_by_key(t0, key@)[j]));
                    assert(service_views(out@)[j] == out@[j]@);
                    assert(out@[j].uuid == rs.uuid);
                }
            }
        }
        if !present {
            let ghost before = out@;
            out.push(build_service(rs));
            proof {
                let d0v = first_by_key(t0, key@);
                let d1 = first_by_key(t1, key@);
                assert(d1 == d0v.push(t1.last()));
                assert(out@ == before.push(out@[before.len() as int]));
                assert(out@[before.len() as int]@ == bs@(t1.last()));
                assert forall|k: int| 0 <= k < out@.len() implies service_views(out@)[k]
                    == d1.map_values(bs@)[k] by {
                    assert(service_views(out@)[k] == out@[k]@);
                    if k < before.len() {
                        assert(out@[k] == before[k]);
                        assert(service_views(before)[k] == before[k]@);
                        assert(service_views(before)[k] == d0v.map_values(bs@)[k]);
                        assert(d1[k] == d0v[k]);
                    } else {
                        assert(d1[k] == t1.last());
                    }
                }
                assert(service_views(out@) =~= d1.map_values(bs@));
            }
        } else {
            proof {
                assert(first_by_key(t1, key@) == first_by_key(t0, key@));
            }
        }
        i = i + 1;
    }
    proof {
        let rss = raw_service_views(raw@);
        assert(rss.take(rss.len() as int) =~= rss);
    }
    out
}

/// Well-formedness of one cached characteristic under its owning service:
/// the back-references point at the owners, and descriptor UUIDs are unique.
pub open spec fn characteristic_wf(c: CharacteristicModel, su: u128) -> bool {
    &&& c.service_uuid == su
    &&& forall|i: int|
        0 <= i < c.descriptors.len() ==> #[trigger] c.descriptors[i].service_uuid == su
            && c.descriptors[i].characteristic_uuid == c.uuid
    &&& forall|i: int, j: int|
        0 <= i < j < c.descriptors.len() ==> c.descriptors[i].uuid != c.descriptors[j].uuid
}

/// Well-formedness of one cached service: its characteristics point back at
/// it and their UUIDs are unique under it.
pub open spec fn service_wf(s: ServiceModel) -> bool {
    &&& forall|i: int|
        0 <= i < s.characteristics.len() ==> characteristic_wf(
            #[trigger] s.characteristics[i],
            s.uuid,
        )
    &&& forall|i: int, j: int|
        0 <= i < j < s.characteristics.len() ==> s.characteristics[i].uuid
            != s.characteristics[j].uuid
}

/// Well-formedness of a whole cached tree: every service is well-formed and
/// service UUIDs are unique.
pub open spec fn topology_wf(ss: Seq<ServiceModel>) -> bool {
    &&& forall|i: int| 0 <= i < ss.len() ==> service_wf(#[trigger] ss[i])
    &&& forall|i: int, j: int| 0 <= i < j < ss.len() ==> ss[i].uuid != ss[j].uuid
}

proof fn lemma_built_characteristic_wf(su: u128, rc: RawCharacteristicModel)
    ensures
        characteristic_wf(built_characteristic(su, rc), su),
{
    let c = built_characteristic(su, rc);
    match rc.descriptors {
        Option::None => {},
        Option::Some(ds) => {
            lemma_first_by_key(ds, rdesc_key());
            let kept = first_by_key(ds, rdesc_key());
            assert forall|i: int, j: int| 0 <= i < j < c.descriptors.len() implies c.descriptors[i].uuid
                != c.descriptors[j].uuid by {
                assert(c.descriptors[i] == built_descriptor(su, rc.uuid, kept[i]));
                assert(c.descriptors[j] == built_descriptor(su, rc.uuid, kept[j]));
                assert(rdesc_key()(kept[i]) != rdesc_key()(kept[j]));
            }
        },
    }
}

proof fn lemma_built_service_wf(rs: RawServiceModel)
    ensures
        service_wf(built_service(rs)),
{
    let s = built_service(rs);
    lemma_first_by_key(rs.characteristics, rchar_key());
    let kept = first_by_key(rs.characteristics, rchar_key());
    assert forall|i: int| 0 <= i < s.characteristics.len() implies characteristic_wf(
        #[trigger] s.characteristics[i],
        s.uuid,
    ) by {
        assert(s.characteristics[i] == built_characteristic(rs.uuid, kept[i]));
        lemma_built_characteristic_wf(rs.uuid, kept[i]);
    }
    assert forall|i: int, j: int| 0 <= i < j < s.characteristics.len() implies s.characteristics[i].uuid
        != s.characteristics[j].uuid by {
        assert(s.characteristics[i] == built_characteristic(rs.uuid, kept[i]));
        assert(s.characteristics[j] == built_characteristic(rs.uuid, kept[j]));
        assert(rchar_key()(kept[i]) != rchar_key()(kept[j]));
    }
}

/// A tree built from any discovery pass is well-formed: back-references are
/// right and UUIDs are unique within their level under one parent.
pub proof fn lemma_built_services_wf(raw: Seq<RawServiceModel>)
    ensures
        topology_wf(built_services(raw)),
{
    let ss = built_services(raw);
    lemma_first_by_key(raw, rservice_key());
    let kept = first_by_key(raw, rservice_key());
    assert forall|i: int| 0 <= i < ss.len() implies service_wf(#[trigger] ss[i]) by {
        assert(ss[i] == built_service(kept[i]));
        lemma_built_service_wf(kept[i]);
    }
    assert forall|i: int, j: int| 0 <= i < j < ss.len() implies ss[i].uuid != ss[j].uuid by {
        assert(ss[i] == built_service(kept[i]));
        assert(ss[j] == built_service(kept[j]));
        assert(rservice_key()(kept[i]) != rservice_key()(kept[j]));
    }
}

/// The first service of the tree with the given UUID, if any.
pub open spec fn lookup_service(ss: Seq<ServiceModel>, uuid: u128) -> Option<ServiceModel>
    decreases ss.len(),
{
    if ss.len() == 0 {
        Option::None
    } else if ss[0].uuid == uuid {
        Option::Some(ss[0])
    } else {
        lookup_service(ss.drop_first(), uuid)
    }
}

/// The first characteristic of the list with the given UUID, if any.
pub open spec fn lookup_characteristic_in(cs: Seq<CharacteristicModel>, uuid: u128) -> Option<
    CharacteristicModel,
>
    decreases cs.len(),
{
    if cs.len() == 0 {
        Option::None
    } else if cs[0].uuid == uuid {
        Option::Some(cs[0])
    } else {
        lookup_characteristic_in(cs.drop_first(), uuid)
    }
}

/// The first descriptor of the list with the given UUID, if any.
pub open spec fn lookup_descriptor_in(ds: Seq<Descriptor>, uuid: u128) -> Option<Descriptor>
    decreases ds.len(),
{
    if ds.len() == 0 {
        Option::None
    } else if ds[0].uuid == uuid {
        Option::Some(ds[0])
    } else {
        lookup_descriptor_in(ds.drop_first(), uuid)
    }
}

/// The characteristic reached by the UUID path service/characteristic, if
/// the whole path is in the tree.
pub open spec fn lookup_characteristic(ss: Seq<ServiceModel>, service_uuid: u128, uuid: u128) -> Option<
    CharacteristicModel,
> {
    match lookup_service(ss, service_uuid) {
        Option::None => Option::None,
        Option::Some(s) => lookup_characteristic_in(s.characteristics, uuid),
    }
}

/// The descriptor reached by the UUID path service/characteristic/descriptor,
/// if the whole path is in the tree.
pub open spec fn lookup_descriptor(
    ss: Seq<ServiceModel>,
    service_uuid: u128,
    characteristic_uuid: u128,
    uuid: u128,
) -> Option<Descriptor> {
    match lookup_characteristic(ss, service_uuid, characteristic_uuid) {
        Option::None => Option::None,
        Option::Some(c) => lookup_descriptor_in(c.descriptors, uuid),
    }
}

/// The service with the given UUID, if the tree holds one. Absence is a
/// normal outcome, not an error.
#[verifier::loop_isolation(false)]
pub fn find_service<'a>(services: &'a Vec<Service>, uuid: u128) -> (r: Option<&'a Service>)
    ensures
        (r is Some) == (lookup_service(service_views(services@), uuid) is Some),
        r is Some ==> Option::Some(r.unwrap()@) == lookup_service(service_views(services@), uuid),
{
    let ghost views = service_views(services@);
    proof {
        assert(views.skip(0) =~= views);
    }
    let mut i: usize = 0;
    while i < services.len()
        invariant
            i <= services.len(),
            lookup_service(views, uuid) == lookup_service(views.skip(i as int), uuid),
        decreases services.len() - i,
    {
        proof {
            assert(views.skip(i as int)[0] == views[i as int]);
            assert(views[i as int] == services@[i as int]@);
            assert(views.skip(i as int).drop_first() =~= views.skip(i as int + 1));
        }
        if services[i].uuid == uuid {
            return Some(&services[i]);
        }
        i = i + 1;
    }
    proof {
        assert(views.skip(services@.len() as int) =~= Seq::<ServiceModel>::empty());
    }
    None
}

/// The characteristic with the given UUID inside one service, if any.
#[verifier::loop_isolation(false)]
pub fn find_characteristic_in<'a>(service: &'a Service, uuid: u128) -> (r: Option<
    &'a Characteristic,
>)
    ensures
        (r is Some) == (lookup_characteristic_in(service@.characteristics, uuid) is Some),
        r is Some ==> Option::Some(r.unwrap()@) == lookup_characteristic_in(
            service@.characteristics,
            uuid,
        ),
{
    let ghost views = service@.characteristics;
    proof {
        assert(views.skip(0) =~= views);
    }
    let mut i: usize = 0;
    while i < service.characteristics.len()
        invariant
            i <= service.characteristics.len(),
            lookup_characteristic_in(views, uuid) == lookup_characteristic_in(
                views.skip(i as int),
                uuid,
            ),
        decreases service.characteristics.len() - i,
    {
        proof {
            assert(views.skip(i as int)[0] == views[i as int]);
            assert(views[i as int] == service.characteristics@[i as int]@);
            assert(views.skip(i as int).drop_first() =~= views.skip(i as int + 1));
        }
        if service.characteristics[i].uuid == uuid {
            return Some(&service.characteristics[i]);
        }
        i = i + 1;
    }
    proof {
        assert(views.skip(service.characteristics@.len() as int) =~= Seq::<
            CharacteristicModel,
        >::empty());
    }
    None
}

/// The characteristic reached by the UUID path service/characteristic, if
/// the whole path is in the tree. Absence signals "target not yet
/// discovered" or "target unknown", never an error.
pub fn find_characteristic<'a>(
    services: &'a Vec<Service>,
    service_uuid: u128,
    characteristic_uuid: u128,
) -> (r: Option<&'a Characteristic>)
    ensures
        (r is Some) == (lookup_characteristic(
            service_views(services@),
            service_uuid,
            characteristic_uuid,
        ) is Some),
        r is Some ==> Option::Some(r.unwrap()@) == lookup_characteristic(
            service_views(services@),
            service_uuid,
            characteristic_uuid,
        ),
{
    match find_service(services, service_uuid) {
        Option::None => Option::None,
        Option::Some(s) => find_characteristic_in(s, characteristic_uuid),
    }
}

/// The descriptor reached by the UUID path, if the whole path is in the
/// tree.
#[verifier::loop_isolation(false)]
pub fn find_descriptor(
    services: &Vec<Service>,
    service_uuid: u128,
    characteristic_uuid: u128,
    uuid: u128,
) -> (r: Option<Descriptor>)
    ensures
        r == lookup_descriptor(
            service_views(services@),
            service_uuid,
            characteristic_uuid,
            uuid,
        ),
{
    match find_characteristic(services, service_uuid, characteristic_uuid) {
        Option::None => Option::None,
        Option::Some(c) => {
            let ghost views = c@.descriptors;
            proof {
                assert(views.skip(0) =~= views);
            }
            let mut i: usize = 0;
            while i < c.descriptors.len()
                invariant
                    i <= c.descriptors.len(),
                    lookup_descriptor_in(views, uuid) == lookup_descriptor_in(
                        views.skip(i as int),
                        uuid,
                    ),
                decreases c.descriptors.len() - i,
            {
                proof {
                    assert(views.skip(i as int)[0] == views[i as int]);
                    assert(views[i as int] == c.descriptors@[i as int]);
                    assert(views.skip(i as int).drop_first() =~= views.skip(i as int + 1));
                }
                if c.descriptors[i].uuid == uuid {
                    return Some(c.descriptors[i]);
                }
                i = i + 1;
            }
            proof {
                assert(views.skip(c.descriptors@.len() as int) =~= Seq::<Descriptor>::empty());
            }
            Option::None
        },
    }
}

} // verus!
