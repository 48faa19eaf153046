use avisaver::core_info::{
    APPLICATION_ID, APPLICATION_NAME, APPLICATION_ORGANIZATION, APPLICATION_QUALIFIER,
    APPLICATION_TITLE,
};
use avisaver::text::{decimal_string, starts_with, upper_hex_string};

#[test]
fn application_id_joins_its_parts() {
    assert_eq!(APPLICATION_ID, "com.kneelawk.avisaver");
    assert_eq!(
        APPLICATION_ID,
        format!("{}.{}.{}", APPLICATION_QUALIFIER, APPLICATION_ORGANIZATION, APPLICATION_NAME)
    );
    assert_eq!(APPLICATION_TITLE, "AviSaver");
}

#[test]
fn decimal_matches_to_string() {
    assert_eq!(decimal_string(0), "0");
    assert_eq!(decimal_string(7), "7");
    assert_eq!(decimal_string(10), "10");
    assert_eq!(decimal_string(1234567890), "1234567890");
    assert_eq!(decimal_string(u32::MAX), "4294967295");
    for n in [1u32, 9, 99, 100, 65535, 1_000_000] {
        assert_eq!(decimal_string(n), n.to_string());
    }
}

#[test]
fn upper_hex_matches_format() {
    assert_eq!(upper_hex_string(0), "0");
    assert_eq!(upper_hex_string(15), "F");
    assert_eq!(upper_hex_string(255), "FF");
    assert_eq!(upper_hex_string(0xDEADBEEF), "DEADBEEF");
    assert_eq!(upper_hex_string(u32::MAX), "FFFFFFFF");
    for n in [1u32, 16, 4096, 0x1234_ABCD] {
        assert_eq!(upper_hex_string(n), format!("{:X}", n));
    }
}

#[test]
fn starts_with_compares_prefixes() {
    assert!(starts_with("HOST_INFO", "HOST_INFO"));
    assert!(starts_with("VALUE&x=1", "VALUE"));
    assert!(starts_with("anything", ""));
    assert!(!starts_with("VAL", "VALUE"));
    assert!(!starts_with("value", "VALUE"));
    assert!(!starts_with("", "A"));
    assert!(starts_with("héllo", "hé"));
}
