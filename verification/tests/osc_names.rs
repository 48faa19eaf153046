use avisaver::osc::{api_app_name, api_app_name_with, decode_datagram, ReceiveError};

#[test]
fn api_name_appends_upper_hex_suffix() {
    assert_eq!(api_app_name_with("avisaver", 0xABC), "avisaver-ABC");
    assert_eq!(api_app_name_with("avisaver", 0), "avisaver-0");
    assert_eq!(api_app_name_with("", u32::MAX), "-FFFFFFFF");
}

#[test]
fn random_api_name_has_the_format() {
    let name = api_app_name("avisaver");
    let suffix = name.strip_prefix("avisaver-").expect("prefix");
    assert!(!suffix.is_empty() && suffix.len() <= 8);
    let n = u32::from_str_radix(suffix, 16).expect("hex");
    assert_eq!(format!("{:X}", n), suffix);
}

#[test]
fn empty_datagram_is_rejected() {
    assert!(matches!(decode_datagram(&[]), Err(ReceiveError::Decode(_))));
}

#[test]
fn garbage_datagram_is_rejected() {
    assert!(decode_datagram(b"hello\0\0\0").is_err());
}

#[test]
fn osc_message_is_decoded() {
    let packet = rosc::OscPacket::Message(rosc::OscMessage {
        addr: "/avatar/change".to_string(),
        args: vec![rosc::OscType::String("avtr_1".to_string())],
    });
    let bytes = rosc::encoder::encode(&packet).unwrap();
    match decode_datagram(&bytes) {
        Ok(rosc::OscPacket::Message(m)) => {
            assert_eq!(m.addr, "/avatar/change");
            assert_eq!(m.args, vec![rosc::OscType::String("avtr_1".to_string())]);
        },
        _ => panic!("expected a message"),
    }
    let mut buf = vec![0u8; rosc::decoder::MTU];
    buf[..bytes.len()].copy_from_slice(&bytes);
    assert!(decode_datagram(&buf).is_ok());
}
