//! Plain data carried between the core and its callers: hardware addresses,
//! write modes, scan filters, and the raw device sighting a scan yields.

use vstd::prelude::*;

use crate::peripheral::Peripheral;

verus! {

/// One raw device sighting, as a scan batch delivers it: the backend-native
/// transient identifier under `address`, and the advertised metadata.
#[derive(Debug)]
pub struct BleDevice {
    /// The backend-native transient identifier of the device.
    pub address: String,
    pub name: String,
    pub is_connected: bool,
    /// Manufacturer-specific advertisement payloads, keyed by company id;
    /// keys unique.
    pub manufacturer_data: Vec<(u16, Vec<u8>)>,
    /// The advertised service UUIDs.
    pub services: Vec<u128>,
}

/// The mathematical value of a [`BleDevice`].
#[verifier::ext_equal]
pub struct BleDeviceModel {
    pub address: Seq<char>,
    pub name: Seq<char>,
    pub is_connected: bool,
    pub manufacturer_data: Seq<(u16, Seq<u8>)>,
    pub services: Seq<u128>,
}

impl View for BleDevice {
    type V = BleDeviceModel;

    open spec fn view(&self) -> BleDeviceModel {
        BleDeviceModel {
            address: self.address@,
            name: self.name@,
            is_connected: self.is_connected,
            manufacturer_data: pair16_views(self.manufacturer_data@),
            services: self.services@,
        }
    }
}

/// The views of a sequence of sightings.
pub open spec fn device_views(s: Seq<BleDevice>) -> Seq<BleDeviceModel> {
    s.map_values(|d: BleDevice| d@)
}

/// Key uniqueness of the sighting's manufacturer-data map.
pub open spec fn bledevice_wf(d: BleDeviceModel) -> bool {
    forall|i: int, j: int|
        0 <= i < j < d.manufacturer_data.len() ==> d.manufacturer_data[i].0
            != d.manufacturer_data[j].0
}

impl Clone for BleDevice {
    /// An exact copy: the clone has the same mathematical value.
    fn clone(&self) -> (r: BleDevice)
        ensures
            r@ == self@,
    {
        let r = BleDevice {
            address: self.address.clone(),
            name: self.name.clone(),
            is_connected: self.is_connected,
            manufacturer_data: copy_pairs16(&self.manufacturer_data),
            services: copy_vec(&self.services),
        };
        proof {
            assert(r@ =~= self@);
        }
        r
    }
}

impl PartialEq for BleDevice {
    /// Two sightings are the same device when their native identifiers
    /// are equal.
    fn eq(&self, other: &BleDevice) -> (r: bool) {
        self.address == other.address
    }
}

impl vstd::std_specs::cmp::PartialEqSpecImpl for BleDevice {
    open spec fn obeys_eq_spec() -> bool {
        true
    }

    open spec fn eq_spec(&self, other: &BleDevice) -> bool {
        self.address@ == other.address@
    }
}

impl BleDevice {
    /// The sighting-shaped summary of one stored record: what a caller
    /// would see re-advertised for it. The name falls back to the native
    /// identifier when the record has none.
    pub fn from_peripheral(peripheral: &Peripheral) -> (d: BleDevice)
        ensures
            d@.address == peripheral@.native_id,
            d@.name == (match peripheral@.properties.local_name {
                Option::Some(n) => n,
                Option::None => peripheral@.native_id,
            }),
            d@.is_connected == (peripheral@.state is Connected),
            d@.manufacturer_data == peripheral@.properties.manufacturer_data,
            d@.services == peripheral@.properties.services,
    {
        let props = peripheral.properties();
        let name = match props.local_name {
            Option::Some(n) => n,
            Option::None => peripheral.native_id().clone(),
        };
        BleDevice {
            address: peripheral.native_id().clone(),
            name,
            is_connected: peripheral.is_connected(),
            manufacturer_data: props.manufacturer_data,
            services: props.services,
        }
    }
}

/// A six-byte hardware address, or the all-zero synthetic default on
/// backends that expose none.
#[derive(Clone, Copy, Debug, PartialEq, Eq, Hash)]
pub struct BDAddr(pub [u8; 6]);

impl View for BDAddr {
    type V = Seq<u8>;

    open spec fn view(&self) -> Seq<u8> {
        self.0@
    }
}

impl BDAddr {
    /// The six bytes of the address.
    pub fn into_inner(self) -> (r: [u8; 6])
        ensures
            r@ == self@,
    {
        self.0
    }

    /// The synthetic default: all zero.
    pub fn zeroed() -> (r: BDAddr)
        ensures
            r@ == Seq::new(6, |i: int| 0u8),
    {
        let a = BDAddr([0u8; 6]);
        proof {
            assert(a@ =~= Seq::new(6, |i: int| 0u8));
        }
        a
    }
}

/// The hex digit of a value below sixteen, upper case.
pub open spec fn hex_digit(n: u8) -> char
    recommends
        n < 16,
{
    if n == 0 {
        '0'
    } else if n == 1 {
        '1'
    } else if n == 2 {
        '2'
    } else if n == 3 {
        '3'
    } else if n == 4 {
        '4'
    } else if n == 5 {
        '5'
    } else if n == 6 {
        '6'
    } else if n == 7 {
        '7'
    } else if n == 8 {
        '8'
    } else if n == 9 {
        '9'
    } else if n == 10 {
        'A'
    } else if n == 11 {
        'B'
    } else if n == 12 {
        'C'
    } else if n == 13 {
        'D'
    } else if n == 14 {
        'E'
    } else {
        'F'
    }
}

/// The two hex digits of one byte.
pub open spec fn byte_hex(b: u8) -> Seq<char> {
    seq![hex_digit(b / 16), hex_digit(b % 16)]
}

/// The canonical text of a six-byte address: hex bytes joined by colons.
pub open spec fn addr_text(a: Seq<u8>) -> Seq<char>
    recommends
        a.len() == 6,
{
    byte_hex(a[0]) + seq![':'] + byte_hex(a[1]) + seq![':'] + byte_hex(a[2]) + seq![':'] + byte_hex(
        a[3],
    ) + seq![':'] + byte_hex(a[4]) + seq![':'] + byte_hex(a[5])
}

fn hex_digit_str(n: u8) -> (r: &'static str)
    requires
        n < 16,
    ensures
        r@ == seq![hex_digit(n)],
{
    proof {
        reveal_strlit("0");
        reveal_strlit("1");
        reveal_strlit("2");
        reveal_strlit("3");
        reveal_strlit("4");
        reveal_strlit("5");
        reveal_strlit("6");
        reveal_strlit("7");
        reveal_strlit("8");
        reveal_strlit("9");
        reveal_strlit("A");
        reveal_strlit("B");
        reveal_strlit("C");
        reveal_strlit("D");
        reveal_strlit("E");
        reveal_strlit("F");
    }
    let r: &'static str = if n == 0 {
        "0"
    } else if n == 1 {
        "1"
    } else if n == 2 {
        "2"
    } else if n == 3 {
        "3"
    } else if n == 4 {
        "4"
    } else if n == 5 {
        "5"
    } else if n == 6 {
        "6"
    } else if n == 7 {
        "7"
    } else if n == 8 {
        "8"
    } else if n == 9 {
        "9"
    } else if n == 10 {
        "A"
    } else if n == 11 {
        "B"
    } else if n == 12 {
        "C"
    } else if n == 13 {
        "D"
    } else if n == 14 {
        "E"
    } else {
        "F"
    };
    proof {
        assert(r@ =~= seq![hex_digit(n)]);
    }
    r
}

fn push_byte_hex(s: &mut String, b: u8)
    ensures
        final(s)@ == old(s)@ + byte_hex(b),
{
    s.append(hex_digit_str(b / 16));
    s.append(hex_digit_str(b % 16));
    proof {
        assert(final(s)@ =~= old(s)@ + byte_hex(b));
    }
}

/// The canonical text of a hardware address: six upper-case hex bytes
/// joined by colons.
#[must_use]
pub fn fmt_addr(addr: BDAddr) -> (r: String)
    ensures
        r@ == addr_text(addr@),
{
    let a = addr.into_inner();
    let mut s = String::new();
    push_byte_hex(&mut s, a[0]);
    s.append(":");
    push_byte_hex(&mut s, a[1]);
    s.append(":");
    push_byte_hex(&mut s, a[2]);
    s.append(":");
    push_byte_hex(&mut s, a[3]);
    s.append(":");
    push_byte_hex(&mut s, a[4]);
    s.append(":");
    push_byte_hex(&mut s, a[5]);
    proof {
        reveal_strlit(":");
        assert((":")@ =~= seq![':']);
        assert(s@ =~= addr_text(addr@));
    }
    s
}

/// How a write hands its payload to the link layer.
#[derive(Clone, Copy, Debug, PartialEq, Eq, Structural)]
pub enum WriteType {
    /// Wait for the backend's acknowledgment before reporting success
    /// (a request).
    WithResponse,
    /// Report success once the payload is handed to the transport layer
    /// (a command).
    WithoutResponse,
}

impl Default for WriteType {
    /// The mode assumed when a caller names none.
    fn default() -> (r: WriteType)
        ensures
            r == WriteType::WithResponse,
    {
        WriteType::WithResponse
    }
}

/// What the external scan collaborator is asked to match. The core only
/// threads the filter through; matching happens in the backend.
#[derive(Debug)]
pub enum ScanFilter {
    /// Match every device.
    Unfiltered,
    /// Match devices advertising the given service.
    Service(u128),
    /// Match devices advertising any of the given services.
    AnyService(Vec<u128>),
    /// Match devices advertising all of the given services.
    AllServices(Vec<u128>),
    /// Match devices advertising the given manufacturer data.
    ManufacturerData(u16, Vec<u8>),
}

/// The mathematical value of a [`ScanFilter`].
#[verifier::ext_equal]
pub enum ScanFilterModel {
    Unfiltered,
    Service(u128),
    AnyService(Seq<u128>),
    AllServices(Seq<u128>),
    ManufacturerData(u16, Seq<u8>),
}

impl View for ScanFilter {
    type V = ScanFilterModel;

    open spec fn view(&self) -> ScanFilterModel {
        match self {
            ScanFilter::Unfiltered => ScanFilterModel::Unfiltered,
            ScanFilter::Service(u) => ScanFilterModel::Service(*u),
            ScanFilter::AnyService(us) => ScanFilterModel::AnyService(us@),
            ScanFilter::AllServices(us) => ScanFilterModel::AllServices(us@),
            ScanFilter::ManufacturerData(c, d) => ScanFilterModel::ManufacturerData(*c, d@),
        }
    }
}

/// An exact copy of a vector of copyable values.
pub fn copy_vec<T: Copy>(v: &Vec<T>) -> (r: Vec<T>)
    ensures
        r@ == v@,
{
    let mut r: Vec<T> = Vec::new();
    let mut i: usize = 0;
    while i < v.len()
        invariant
            i <= v.len(),
            r@ =~= v@.take(i as int),
        decreases v.len() - i,
    {
        r.push(v[i]);
        i = i + 1;
    }
    proof {
        assert(v@.take(v@.len() as int) =~= v@);
    }
    r
}

/// An exact copy of a byte slice as an owned vector.
pub fn copy_byte_slice(v: &[u8]) -> (r: Vec<u8>)
    ensures
        r@ == v@,
{
    let mut r: Vec<u8> = Vec::new();
    let mut i: usize = 0;
    while i < v.len()
        invariant
            i <= v.len(),
            r@ =~= v@.take(i as int),
        decreases v.len() - i,
    {
        r.push(v[i]);
        i = i + 1;
    }
    proof {
        assert(v@.take(v@.len() as int) =~= v@);
    }
    r
}

/// The views of a sequence of key/payload pairs with 16-bit keys.
pub open spec fn pair16_views(s: Seq<(u16, Vec<u8>)>) -> Seq<(u16, Seq<u8>)> {
    s.map_values(|p: (u16, Vec<u8>)| (p.0, p.1@))
}

/// The views of a sequence of key/payload pairs with UUID keys.
pub open spec fn pair128_views(s: Seq<(u128, Vec<u8>)>) -> Seq<(u128, Seq<u8>)> {
    s.map_values(|p: (u128, Vec<u8>)| (p.0, p.1@))
}

/// An exact copy of a list of company-id/payload pairs.
pub fn copy_pairs16(v: &Vec<(u16, Vec<u8>)>) -> (r: Vec<(u16, Vec<u8>)>)
    ensures
        pair16_views(r@) == pair16_views(v@),
{
    let mut r: Vec<(u16, Vec<u8>)> = Vec::new();
    let mut i: usize = 0;
    while i < v.len()
        invariant
            i <= v.len(),
            r@.len() == i,
            pair16_views(r@) =~= pair16_views(v@).take(i as int),
        decreases v.len() - i,
    {
        let key = v[i].0;
        let payload = copy_byte_slice(v[i].1.as_slice());
        r.push((key, payload));
        i = i + 1;
    }
    proof {
        assert(pair16_views(v@).take(v@.len() as int) =~= pair16_views(v@));
    }
    r
}

/// An exact copy of a list of service-UUID/payload pairs.
pub fn copy_pairs128(v: &Vec<(u128, Vec<u8>)>) -> (r: Vec<(u128, Vec<u8>)>)
    ensures
        pair128_views(r@) == pair128_views(v@),
{
    let mut r: Vec<(u128, Vec<u8>)> = Vec::new();
    let mut i: usize = 0;
    while i < v.len()
        invariant
            i <= v.len(),
            r@.len() == i,
            pair128_views(r@) =~= pair128_views(v@).take(i as int),
        decreases v.len() - i,
    {
        let key = v[i].0;
        let payload = copy_byte_slice(v[i].1.as_slice());
        r.push((key, payload));
        i = i + 1;
    }
    proof {
        assert(pair128_views(v@).take(v@.len() as int) =~= pair128_views(v@));
    }
    r
}

/// An exact copy of an optional text.
pub fn copy_opt_string(v: &Option<String>) -> (r: Option<String>)
    ensures
        match (v, &r) {
            (Option::Some(a), Option::Some(b)) => a@ == b@,
            (Option::None, Option::None) => true,
            _ => false,
        },
{
    match v {
        Option::Some(s) => Option::Some(s.clone()),
        Option::None => Option::None,
    }
}

} // verus!
