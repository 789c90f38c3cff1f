use ckb_types::bytes::Bytes;
use ckb_types::packed;
use ckb_types::prelude::{Builder, Entity, Pack};
use polyjuice::envelope::WitnessEnvelope;
use polyjuice::errors::DecodeError;

fn bytes_opt(data: Option<Vec<u8>>) -> packed::BytesOpt {
    packed::BytesOpt::new_builder().set(data.map(|d| Bytes::from(d).pack())).build()
}

fn chain_encoding(
    primary: Option<Vec<u8>>,
    input_side: Option<Vec<u8>>,
    output_side: Option<Vec<u8>>,
) -> Vec<u8> {
    packed::WitnessArgs::new_builder()
        .lock(bytes_opt(primary))
        .input_type(bytes_opt(input_side))
        .output_type(bytes_opt(output_side))
        .build()
        .as_bytes()
        .to_vec()
}

#[test]
fn encoding_matches_the_chain_format() {
    let ours = WitnessEnvelope {
        primary: Some(vec![0xab; 10]),
        input_side: Some(vec![1, 2, 3]),
        output_side: None,
    }
    .encode();
    let theirs = chain_encoding(Some(vec![0xab; 10]), Some(vec![1, 2, 3]), None);
    assert_eq!(ours, theirs);
}

#[test]
fn empty_envelope_matches_the_chain_format() {
    let ours = WitnessEnvelope { primary: None, input_side: None, output_side: None }.encode();
    let theirs = chain_encoding(None, None, None);
    assert_eq!(ours, theirs);
}

#[test]
fn decodes_what_the_chain_encodes() {
    let bytes = chain_encoding(Some(vec![9; 65]), None, Some(vec![5, 6]));
    let env = WitnessEnvelope::decode(&bytes).expect("chain-built envelope");
    assert_eq!(env.primary, Some(vec![9; 65]));
    assert_eq!(env.input_side, None);
    assert_eq!(env.output_side, Some(vec![5, 6]));
}

#[test]
fn envelope_round_trip() {
    let env = WitnessEnvelope {
        primary: Some(vec![7; 4]),
        input_side: None,
        output_side: Some(vec![]),
    };
    let encoded = env.encode();
    let decoded = WitnessEnvelope::decode(&encoded).expect("round trip");
    assert_eq!(decoded, env);
}

#[test]
fn decode_rejects_wrong_full_size() {
    let mut bytes = chain_encoding(None, None, None);
    bytes[0] = bytes[0].wrapping_add(1);
    assert_eq!(WitnessEnvelope::decode(&bytes), Err(DecodeError::Malformed));
}

#[test]
fn decode_rejects_short_buffer() {
    assert_eq!(WitnessEnvelope::decode(&vec![4, 0, 0, 0]), Err(DecodeError::Malformed));
    assert_eq!(WitnessEnvelope::decode(&Vec::new()), Err(DecodeError::Malformed));
}

#[test]
fn decode_rejects_bad_field_prefix() {
    // A present field whose own length prefix disagrees with its region.
    let mut bytes = chain_encoding(Some(vec![1, 2, 3]), None, None);
    bytes[16] = 9;
    assert_eq!(WitnessEnvelope::decode(&bytes), Err(DecodeError::Malformed));
}

#[test]
fn builders_set_exactly_one_field() {
    let base = WitnessEnvelope { primary: Some(vec![1]), input_side: None, output_side: None };
    let with_in = base.clone().with_input_side(vec![2, 2]);
    assert_eq!(with_in.primary, Some(vec![1]));
    assert_eq!(with_in.input_side, Some(vec![2, 2]));
    assert_eq!(with_in.output_side, None);
    let with_out = base.with_output_side(vec![3]);
    assert_eq!(with_out.primary, Some(vec![1]));
    assert_eq!(with_out.input_side, None);
    assert_eq!(with_out.output_side, Some(vec![3]));
}
