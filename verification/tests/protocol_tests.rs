use switcher_rust::codec::{
    build_control_packet, build_get_state_packet, build_login_packet, build_set_name_packet,
    encode_device_name, sign_packet, signed_control_packet, signed_get_state_packet,
    signed_login_packet, signed_set_name_packet,
};
use switcher_rust::device::{le_u16, DeviceState, SwitcherDevice};
use switcher_rust::errors::SwitcherError;
use switcher_rust::hexstr::{hex_decode, hex_encode, is_hex_str, str_eq};

/// A reference discovery broadcast with every field at its protocol offset.
fn reference_payload() -> Vec<u8> {
    let mut data = vec![0u8; 165];
    data[0] = 0xfe;
    data[1] = 0xf0;
    // device id bytes
    data[18] = 0x9c;
    data[19] = 0x4f;
    data[20] = 0x22;
    // device key byte
    data[40] = 0xa1;
    // NUL-terminated name field
    for (i, b) in b"Test Device".iter().enumerate() {
        data[42 + i] = *b;
    }
    // the one recognized type code
    data[74] = 0x01;
    data[75] = 0xa8;
    // address bytes, first octet first
    data[76] = 192;
    data[77] = 168;
    data[78] = 1;
    data[79] = 100;
    // MAC bytes
    data[80] = 0x00;
    data[81] = 0x11;
    data[82] = 0x22;
    data[83] = 0x33;
    data[84] = 0x44;
    data[85] = 0x55;
    // state byte: on
    data[133] = 0x01;
    // consumption, little-endian 1234
    data[135] = 0xd2;
    data[136] = 0x04;
    data
}

#[test]
fn decoder_rejects_wrong_length() {
    assert!(SwitcherDevice::from_discovery_packet(&[]).is_none());
    assert!(SwitcherDevice::from_discovery_packet(&[0xfe, 0xf0]).is_none());
    let mut short = reference_payload();
    short.truncate(164);
    assert!(SwitcherDevice::from_discovery_packet(&short).is_none());
    let mut long = reference_payload();
    long.push(0);
    assert!(SwitcherDevice::from_discovery_packet(&long).is_none());
}

#[test]
fn decoder_rejects_wrong_magic() {
    let mut data = reference_payload();
    data[0] = 0xff;
    assert!(SwitcherDevice::from_discovery_packet(&data).is_none());
    let mut data = reference_payload();
    data[1] = 0x00;
    assert!(SwitcherDevice::from_discovery_packet(&data).is_none());
}

#[test]
fn decoder_rejects_wrong_type_code() {
    // Everything else well-formed, but a foreign type code: no record.
    let mut data = reference_payload();
    data[74] = 0x01;
    data[75] = 0xa7;
    assert!(SwitcherDevice::from_discovery_packet(&data).is_none());
    let mut data = reference_payload();
    data[74] = 0x02;
    assert!(SwitcherDevice::from_discovery_packet(&data).is_none());
}

#[test]
fn decoder_reproduces_reference_fields() {
    let data = reference_payload();
    let d = SwitcherDevice::from_discovery_packet(&data).expect("reference payload must decode");
    assert_eq!(d.device_id, "9c4f22");
    assert_eq!(d.device_key, "a1");
    assert_eq!(d.ip_address, "192.168.1.100");
    assert_eq!(d.mac_address, "00:11:22:33:44:55");
    assert_eq!(d.name, "Test Device");
    assert_eq!(d.device_type, "Switcher Power Plug");
    assert_eq!(d.state, DeviceState::On);
    assert_eq!(d.power_consumption, 1234);
}

#[test]
fn decoder_defaults_unknown_state_to_off() {
    let mut data = reference_payload();
    data[133] = 0x7f;
    let d = SwitcherDevice::from_discovery_packet(&data).unwrap();
    assert_eq!(d.state, DeviceState::Off);
}

#[test]
fn decoder_truncates_name_at_first_nul() {
    let mut data = reference_payload();
    data[46] = 0; // "Test" then NUL
    let d = SwitcherDevice::from_discovery_packet(&data).unwrap();
    assert_eq!(d.name, "Test");
}

#[test]
fn login_packet_matches_template() {
    let p = build_login_packet("0000abcd");
    assert_eq!(
        p,
        "fef052000232a100000000003400010000000000000000000000abcd00000000000000000000f0fe0000000000000000000000000000000000000000000000000000000000000000000000000000"
    );
    // The header length byte is the payload's byte count plus four.
    assert_eq!(p.len(), 156);
    assert_eq!(0x52, 156 / 2 + 4);
}

#[test]
fn control_packet_matches_template() {
    let p = build_control_packet("deadbeef", "0000abcd", "9c4f22", "1");
    assert_eq!(
        p,
        "fef05d0002320102deadbeef3400010000000000000000000000abcd00000000000000000000f0fe9c4f2200000000000000000000000000000000000000000000000000000000000000000000000000010600010000000000"
    );
    // The header length byte is the payload's byte count plus four.
    assert_eq!(p.len(), 178);
    assert_eq!(0x5d, 178 / 2 + 4);
}

#[test]
fn get_state_packet_matches_template() {
    let p = build_get_state_packet("deadbeef", "0000abcd", "9c4f22");
    assert_eq!(
        p,
        "fef0300002320103deadbeef3400010000000000000000000000abcd00000000000000000000f0fe9c4f2200"
    );
    // The header length byte is the payload's byte count plus four.
    assert_eq!(p.len(), 88);
    assert_eq!(0x30, 88 / 2 + 4);
}

#[test]
fn set_name_packet_matches_template() {
    let name_hex = encode_device_name("AB").unwrap();
    let p = build_set_name_packet("deadbeef", "0000abcd", "9c4f22", &name_hex);
    assert_eq!(
        p,
        "fef0740002320202deadbeef3400010000000000000000000000abcd00000000000000000000f0fe9c4f22000000000000000000000000000000000000000000000000000000000000000000000000004142000000000000000000000000000000000000000000000000000000000000"
    );
    // The header length byte is the payload's byte count plus four.
    assert_eq!(p.len(), 224);
    assert_eq!(0x74, 224 / 2 + 4);
}

#[test]
fn signing_appends_expected_signature() {
    let payload = build_login_packet("0000abcd");
    let signed = sign_packet(&payload);
    assert_eq!(signed.len(), payload.len() + 8);
    assert!(signed.starts_with(payload.as_str()));
    assert_eq!(&signed[signed.len() - 8..], "51275ba1");
}

#[test]
fn signing_is_deterministic() {
    let payload = build_control_packet("deadbeef", "0000abcd", "9c4f22", "1");
    let first = sign_packet(&payload);
    let second = sign_packet(&payload);
    assert_eq!(first, second);
    assert_eq!(&first[first.len() - 8..], &second[second.len() - 8..]);
}

#[test]
fn signing_single_bit_flips_change_packet_crc() {
    // Property check: flipping any single payload bit should change the
    // packet-CRC segment in at least 99% of cases.
    let payload = build_login_packet("0000abcd");
    let bytes = hex_decode(&payload).unwrap();
    let signed = sign_packet(&payload);
    let base_sig = signed[payload.len()..payload.len() + 4].to_string();

    let mut total = 0u32;
    let mut changed = 0u32;
    for i in 0..bytes.len() {
        for bit in 0..8 {
            let mut mutated = bytes.clone();
            mutated[i] ^= 1u8 << bit;
            let mutated_hex = hex_encode(&mutated);
            let mutated_signed = sign_packet(&mutated_hex);
            let sig = &mutated_signed[mutated_hex.len()..mutated_hex.len() + 4];
            total += 1;
            if sig != base_sig {
                changed += 1;
            }
        }
    }
    assert!(changed * 100 >= total * 99);
}

#[test]
fn name_encoding_accepts_bounds() {
    let two = encode_device_name("AB").unwrap();
    assert_eq!(two.len(), 64);
    assert_eq!(
        two,
        "4142000000000000000000000000000000000000000000000000000000000000"
    );

    let name32 = "A".repeat(32);
    let full = encode_device_name(&name32).unwrap();
    assert_eq!(full.len(), 64);
    assert_eq!(full, "41".repeat(32));
}

#[test]
fn name_encoding_rejects_out_of_bounds() {
    assert_eq!(
        encode_device_name("A"),
        Err(SwitcherError::InvalidNameLength)
    );
    let name33 = "A".repeat(33);
    assert_eq!(
        encode_device_name(&name33),
        Err(SwitcherError::InvalidNameLength)
    );
    assert_eq!(encode_device_name(""), Err(SwitcherError::InvalidNameLength));
}

#[test]
fn signed_builders_check_their_fields() {
    assert!(signed_login_packet("0000abcd").is_some());
    assert!(signed_login_packet("xyz").is_none());
    assert!(signed_login_packet("0000abcde").is_none());

    assert!(signed_control_packet("deadbeef", "0000abcd", "9c4f22", "1").is_some());
    assert!(signed_control_packet("deadbeef", "0000abcd", "9c4f22", "0").is_some());
    assert!(signed_control_packet("deadbeef", "0000abcd", "9c4f22", "2").is_none());
    assert!(signed_control_packet("deadbee", "0000abcd", "9c4f22", "1").is_none());
    assert!(signed_control_packet("deadbeef", "0000abcd", "9c4f2", "1").is_none());

    let signed = signed_get_state_packet("deadbeef", "0000abcd", "9c4f22").unwrap();
    assert_eq!(
        signed,
        "fef0300002320103deadbeef3400010000000000000000000000abcd00000000000000000000f0fe9c4f22005b6a17ff"
    );

    let renamed = signed_set_name_packet("deadbeef", "0000abcd", "9c4f22", "Kitchen Plug");
    assert!(matches!(renamed, Ok(Some(_))));
    let bad_name = signed_set_name_packet("deadbeef", "0000abcd", "9c4f22", "A");
    assert_eq!(bad_name, Err(SwitcherError::InvalidNameLength));
    let bad_sid = signed_set_name_packet("nothex!!", "0000abcd", "9c4f22", "Kitchen Plug");
    assert_eq!(bad_sid, Ok(None));
}

#[test]
fn hex_helpers_round_trip() {
    assert_eq!(hex_encode(&[1u8, 2, 3, 15, 16]), "0102030f10");
    assert_eq!(hex_decode("0102030f10").unwrap(), vec![1u8, 2, 3, 15, 16]);
    assert_eq!(hex_decode("DEADbeef").unwrap(), vec![0xde, 0xad, 0xbe, 0xef]);
    assert!(hex_decode("123").is_err());
    assert!(hex_decode("zz").is_err());

    assert!(is_hex_str("0000abcd", 8));
    assert!(!is_hex_str("0000abcd", 7));
    assert!(!is_hex_str("0000abcx", 8));

    assert!(str_eq("abc", "abc"));
    assert!(!str_eq("abc", "abd"));
    assert!(!str_eq("abc", "ab"));
}

#[test]
fn le_u16_assembles_low_byte_first() {
    assert_eq!(le_u16(0xd2, 0x04), 1234);
    assert_eq!(le_u16(0x00, 0x00), 0);
    assert_eq!(le_u16(0xff, 0xff), 0xffff);
}
