use dig_network_block::serde_hex::{
    decode_hex_array32, decode_hex_array48, decode_hex_vec, encode_lower_hex_prefixed,
    strip_0x, HexSerdeError,
};

#[test]
fn vec_round_trip() {
    let v = vec![0x00u8, 0x01, 0xaa, 0xff];
    let s = encode_lower_hex_prefixed(&v);
    assert_eq!(s, "0x0001aaff");
    let back = decode_hex_vec(s.as_bytes()).unwrap();
    assert_eq!(back, v);
}

#[test]
fn strip_0x_splits_prefix() {
    assert_eq!(strip_0x(b"0xdead").unwrap(), b"dead");
    match strip_0x(b"dead").unwrap_err() {
        HexSerdeError::MissingPrefix => {}
        _ => panic!("unexpected error variant"),
    }
    match strip_0x(b"0").unwrap_err() {
        HexSerdeError::MissingPrefix => {}
        _ => panic!("unexpected error variant"),
    }
}

#[test]
fn arr32_round_trip() {
    let mut a = [0u8; 32];
    a[0] = 0xde;
    a[31] = 0xad;
    let s = encode_lower_hex_prefixed(&a);
    assert!(s.starts_with("0x"));
    assert_eq!(s.len(), 2 + 64);
    let back = decode_hex_array32(s.as_bytes()).unwrap();
    assert_eq!(back, a);
}

#[test]
fn arr48_round_trip() {
    let mut a = [0u8; 48];
    a[0] = 0x12;
    a[47] = 0x34;
    let s = encode_lower_hex_prefixed(&a);
    assert!(s.starts_with("0x"));
    assert_eq!(s.len(), 2 + 96);
    let back = decode_hex_array48(s.as_bytes()).unwrap();
    assert_eq!(back, a);
}

#[test]
fn vec_rejects_missing_prefix() {
    let err = decode_hex_vec(b"deadbeef").unwrap_err();
    match err {
        HexSerdeError::MissingPrefix => {}
        _ => panic!("unexpected error variant"),
    }
}

#[test]
fn arr32_wrong_length_rejected() {
    // 31 bytes (62 hex chars) with 0x
    let s = format!("0x{}", "00".repeat(31));
    let err = decode_hex_array32(s.as_bytes()).unwrap_err();
    match err {
        HexSerdeError::LengthMismatch { expected, actual } => {
            assert_eq!(expected, 32);
            assert_eq!(actual, 31);
        }
        _ => panic!("unexpected error variant"),
    }
}

#[test]
fn arr48_wrong_length_rejected() {
    // 49 bytes
    let s = format!("0x{}", "ff".repeat(49));
    let err = decode_hex_array48(s.as_bytes()).unwrap_err();
    match err {
        HexSerdeError::LengthMismatch { expected, actual } => {
            assert_eq!(expected, 48);
            assert_eq!(actual, 49);
        }
        _ => panic!("unexpected error variant"),
    }
}

#[test]
fn invalid_hex_char_rejected() {
    let err = decode_hex_vec(b"0xzz").unwrap_err();
    match err {
        HexSerdeError::InvalidHex(_) => {}
        _ => panic!("unexpected error variant"),
    }
}

#[test]
fn odd_digit_count_rejected() {
    let err = decode_hex_vec(b"0xabc").unwrap_err();
    match err {
        HexSerdeError::InvalidHex(_) => {}
        _ => panic!("unexpected error variant"),
    }
}

#[test]
fn uppercase_digits_accepted() {
    let back = decode_hex_vec(b"0xAAff").unwrap();
    assert_eq!(back, vec![0xaau8, 0xff]);
}
