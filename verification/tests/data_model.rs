use ble_core::gatt::{CharFlags, CharProps};
use ble_core::models::{fmt_addr, BDAddr, WriteType};

#[test]
fn char_prop_bits_match_wire_positions() {
    assert_eq!(CharProps::Broadcast.bit(), 0x01);
    assert_eq!(CharProps::Read.bit(), 0x02);
    assert_eq!(CharProps::WriteWithoutResponse.bit(), 0x04);
    assert_eq!(CharProps::Write.bit(), 0x08);
    assert_eq!(CharProps::Notify.bit(), 0x10);
    assert_eq!(CharProps::Indicate.bit(), 0x20);
    assert_eq!(CharProps::AuthenticatedSignedWrites.bit(), 0x40);
    assert_eq!(CharProps::ExtendedProperties.bit(), 0x80);
}

#[test]
fn char_flags_from_bits_reads_each_bit() {
    let f = CharFlags::from_bits(0x12);
    assert!(!f.broadcast);
    assert!(f.read);
    assert!(!f.write_without_response);
    assert!(!f.write);
    assert!(f.notify);
    assert!(!f.indicate);
    assert!(!f.authenticated_signed_writes);
    assert!(!f.extended_properties);
}

#[test]
fn char_flags_bits_round_trip() {
    for b in 0..=255u8 {
        assert_eq!(CharFlags::from_bits(b).to_bits(), b);
    }
}

#[test]
fn char_flags_has_matches_fields() {
    let f = CharFlags::from_bits(0x0A);
    assert!(f.has(CharProps::Read));
    assert!(f.has(CharProps::Write));
    assert!(!f.has(CharProps::Notify));
    let none = CharFlags::none();
    assert!(!none.has(CharProps::Read));
}

#[test]
fn fmt_addr_formats_upper_hex_with_colons() {
    let s = fmt_addr(BDAddr([0x01, 0x2A, 0xFF, 0x00, 0x9C, 0x10]));
    assert_eq!(s, "01:2A:FF:00:9C:10");
}

#[test]
fn fmt_addr_zero_address() {
    let s = fmt_addr(BDAddr::zeroed());
    assert_eq!(s, "00:00:00:00:00:00");
}

#[test]
fn write_type_defaults_to_with_response() {
    assert_eq!(WriteType::default(), WriteType::WithResponse);
}
