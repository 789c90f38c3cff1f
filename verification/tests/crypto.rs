use polyjuice::crypto::sign_digest;
use polyjuice::errors::ProtocolError;

/// The order of the secp256k1 group, big endian.
const GROUP_ORDER: [u8; 32] = [
    0xff, 0xff, 0xff, 0xff, 0xff, 0xff, 0xff, 0xff, 0xff, 0xff, 0xff, 0xff, 0xff, 0xff, 0xff,
    0xfe, 0xba, 0xae, 0xdc, 0xe6, 0xaf, 0x48, 0xa0, 0x3b, 0xbf, 0xd2, 0x5e, 0x8c, 0xd0, 0x36,
    0x41, 0x41,
];

#[test]
fn signs_with_a_key_just_below_the_group_order() {
    let mut key = GROUP_ORDER.to_vec();
    key[31] = 0x40; // order minus one: the largest valid key
    let digest = vec![0x5au8; 32];
    let signature = sign_digest(&digest, &key).expect("valid key");
    assert_eq!(signature.len(), 65);
    assert!(signature[64] < 4);
}

#[test]
fn rejects_the_group_order_and_zero_as_keys() {
    let digest = vec![0x5au8; 32];
    assert_eq!(sign_digest(&digest, &GROUP_ORDER.to_vec()), Err(ProtocolError::SignFailed));
    assert_eq!(sign_digest(&digest, &vec![0u8; 32]), Err(ProtocolError::SignFailed));
}

#[test]
fn signing_is_deterministic_and_digest_sensitive() {
    let key = vec![0x07u8; 32];
    let d1 = vec![0x01u8; 32];
    let d2 = vec![0x02u8; 32];
    let s1 = sign_digest(&d1, &key).expect("valid key");
    let s1_again = sign_digest(&d1, &key).expect("valid key");
    let s2 = sign_digest(&d2, &key).expect("valid key");
    assert_eq!(s1, s1_again);
    assert_ne!(s1, s2);
}
