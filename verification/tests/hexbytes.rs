use polyjuice::errors::DecodeError;
use polyjuice::hexbytes::{hex_decode, hex_encode, parse_address_hex};

#[test]
fn decode_known_bytes() {
    let text = b"00ff10Ab".to_vec();
    assert_eq!(hex_decode(&text), Ok(vec![0x00, 0xff, 0x10, 0xab]));
}

#[test]
fn decode_matches_reference_decoder() {
    let text = b"deadbeef0123456789aBcDeF".to_vec();
    let ours = hex_decode(&text).expect("valid hex");
    let reference = hex::decode(std::str::from_utf8(&text).unwrap()).expect("valid hex");
    assert_eq!(ours, reference);
}

#[test]
fn encode_matches_reference_encoder() {
    let data = vec![0u8, 1, 2, 0x7f, 0x80, 0xff];
    let ours = hex_encode(&data);
    assert_eq!(String::from_utf8(ours).unwrap(), hex::encode(&data));
}

#[test]
fn encode_then_decode_round_trips() {
    let data: Vec<u8> = (0..=255u8).collect();
    assert_eq!(hex_decode(&hex_encode(&data)), Ok(data));
}

#[test]
fn odd_length_is_malformed() {
    assert_eq!(hex_decode(&b"abc".to_vec()), Err(DecodeError::Malformed));
}

#[test]
fn stray_character_is_malformed() {
    assert_eq!(hex_decode(&b"0g".to_vec()), Err(DecodeError::Malformed));
    assert_eq!(hex_decode(&b"0x11".to_vec()), Err(DecodeError::Malformed));
}

#[test]
fn parse_address_accepts_prefixed_form() {
    let text = b"0x1111111111111111111111111111111111111111".to_vec();
    assert_eq!(parse_address_hex(&text), Ok(vec![0x11; 20]));
}

#[test]
fn parse_address_rejects_other_forms() {
    let unprefixed = b"1111111111111111111111111111111111111111".to_vec();
    assert_eq!(parse_address_hex(&unprefixed), Err(DecodeError::Malformed));
    let short = b"0x1111".to_vec();
    assert_eq!(parse_address_hex(&short), Err(DecodeError::Malformed));
    let bad_digit = b"0x11111111111111111111111111111111111111zz".to_vec();
    assert_eq!(parse_address_hex(&bad_digit), Err(DecodeError::Malformed));
}
