use pylon_lfp_protocol::util::{u16_encode_hex, u16_from_hex, u8_encode_hex, u8_from_hex, DecodeError};

#[test]
fn test_u8_encode_hex() {
    assert_eq!(&u8_encode_hex(0x0C), b"0C");
}

#[test]
fn test_u16_encode_hex() {
    assert_eq!(&u16_encode_hex(0x0A02), b"0A02");
}

#[test]
fn test_u8_decode_hex() {
    assert_eq!(u8_from_hex(b"0C").unwrap(), 0x0C);
}

#[test]
fn test_u16_decode_hex() {
    assert_eq!(u16_from_hex(b"0A02").unwrap(), 0x0A02);
}

#[test]
fn test_u8_hex_round_trip_all_bytes() {
    for b in 0..=255u8 {
        let encoded = u8_encode_hex(b);
        assert_eq!(u8_from_hex(&encoded).unwrap(), b);
    }
}

#[test]
fn test_u16_hex_round_trip_samples() {
    for v in [0u16, 1, 0x0A02, 0x1234, 0xABCD, 0xFFFF, 0x00FF, 0xFF00] {
        let encoded = u16_encode_hex(v);
        assert_eq!(u16_from_hex(&encoded).unwrap(), v);
    }
}

#[test]
fn test_u8_decode_hex_lowercase() {
    assert_eq!(u8_from_hex(b"ab").unwrap(), 0xAB);
    assert_eq!(u16_from_hex(b"beef").unwrap(), 0xBEEF);
}

#[test]
fn test_u8_decode_hex_rejects_non_hex() {
    assert_eq!(u8_from_hex(b"G1"), Err(DecodeError::Hex));
    assert_eq!(u8_from_hex(b"1G"), Err(DecodeError::Hex));
    assert_eq!(u8_from_hex(b"+C"), Err(DecodeError::Hex));
    assert_eq!(u8_from_hex(&[0xFF, 0x30]), Err(DecodeError::Hex));
    assert_eq!(u16_from_hex(b"12G4"), Err(DecodeError::Hex));
    assert_eq!(u16_from_hex(b" 123"), Err(DecodeError::Hex));
}

#[test]
fn test_u8_encode_hex_is_uppercase() {
    assert_eq!(&u8_encode_hex(0xAB), b"AB");
    assert_eq!(&u8_encode_hex(0x00), b"00");
    assert_eq!(&u8_encode_hex(0xFF), b"FF");
    assert_eq!(&u16_encode_hex(0xFFFF), b"FFFF");
    assert_eq!(&u16_encode_hex(0x0000), b"0000");
}
