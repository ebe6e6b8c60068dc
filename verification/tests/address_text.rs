//! The address codec: the colon-joined hex text round-trips exactly.

use bluetui::address::{format_address, parse_address, Address};

#[test]
fn format_writes_colon_joined_uppercase_hex() {
    assert_eq!(format_address(Address::new(0xAABBCCDDEEFF)), "AA:BB:CC:DD:EE:FF");
    assert_eq!(format_address(Address::new(0)), "00:00:00:00:00:00");
    assert_eq!(format_address(Address::new(0x0102030A0B0C)), "01:02:03:0A:0B:0C");
}

#[test]
fn parse_reads_what_format_writes() {
    for bits in [0u64, 1, 0xFF, 0xA1B2C3D4E5F6, 0xFFFF_FFFF_FFFF] {
        let addr = Address::new(bits);
        assert_eq!(parse_address(&format_address(addr)), Some(addr));
    }
}

#[test]
fn parse_accepts_lowercase_and_rejects_malformed_text() {
    assert_eq!(parse_address("AA:BB:CC:DD:EE"), None);
    assert_eq!(parse_address("AA:BB:CC:DD:EE:F"), None);
    assert_eq!(parse_address("AA:BB:CC:DD:EE:FF:00"), None);
    assert_eq!(parse_address("AA-BB-CC-DD-EE-FF"), None);
    assert_eq!(parse_address("aa:bb:cc:dd:ee:ff"), Some(Address::new(0xAABBCCDDEEFF)));
    assert_eq!(parse_address("AG:BB:CC:DD:EE:FF"), None);
    assert_eq!(parse_address(""), None);
}

#[test]
fn parse_reads_known_values() {
    assert_eq!(parse_address("00:00:00:00:00:01"), Some(Address::new(1)));
    assert_eq!(parse_address("01:00:00:00:00:00"), Some(Address::new(0x010000000000)));
}
