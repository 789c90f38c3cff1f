use polyjuice::envelope::WitnessEnvelope;
use polyjuice::errors::ProtocolError;
use polyjuice::protocol::{
    assemble_unsigned_data, build_signature, build_signing_digest, embed_signature, sign_receipt,
    TransactionReceipt,
};

fn input_witness(payload: Vec<u8>) -> Vec<u8> {
    WitnessEnvelope { primary: None, input_side: Some(payload), output_side: None }.encode()
}

fn output_witness(payload: Vec<u8>) -> Vec<u8> {
    WitnessEnvelope { primary: None, input_side: None, output_side: Some(payload) }.encode()
}

/// A length-prefixed body: what a caller places into a witness slot.
fn length_prefixed(body: &[u8]) -> Vec<u8> {
    let mut payload = (body.len() as u32).to_le_bytes().to_vec();
    payload.extend_from_slice(body);
    payload
}

fn zeroed(payload: &[u8]) -> Vec<u8> {
    let mut copy = payload.to_vec();
    for b in copy[4..69].iter_mut() {
        *b = 0;
    }
    copy
}

fn expected_signature(digest: &[u8], key: [u8; 32]) -> Vec<u8> {
    let sk = secp256k1::SecretKey::from_secret_bytes(key).expect("valid key");
    let mut d = [0u8; 32];
    d.copy_from_slice(digest);
    let msg = secp256k1::Message::from_digest(d);
    let sig = secp256k1::ecdsa::RecoverableSignature::sign_ecdsa_recoverable(msg, &sk);
    let (recovery_id, compact) = sig.serialize_compact();
    let mut out = compact.to_vec();
    out.push(u8::from(recovery_id));
    out
}

#[test]
fn message_holds_hash_then_buckets_in_order() {
    let tx_hash = vec![0x33u8; 32];
    let entrance = length_prefixed(&[7u8; 96]);
    let out_payload = vec![0xb0u8; 5];
    let in_payload = vec![0xa0u8; 3];
    let witnesses = vec![
        input_witness(entrance.clone()),
        output_witness(out_payload.clone()),
        input_witness(in_payload.clone()),
    ];
    let message = assemble_unsigned_data(&witnesses, &tx_hash).expect("entrance present");
    // Input-side payloads first (indices 0 and 2), then output-side (index 1);
    // only the entrance signature slice is zeroed.
    let mut expected = tx_hash.clone();
    expected.extend_from_slice(&zeroed(&entrance));
    expected.extend_from_slice(&in_payload);
    expected.extend_from_slice(&out_payload);
    assert_eq!(message, expected);
}

#[test]
fn message_is_independent_of_signature() {
    let tx_hash = vec![0u8; 32];
    let mut body1 = vec![0x44u8; 100];
    let mut body2 = vec![0x44u8; 100];
    for i in 0..65 {
        body1[i] = 0;
        body2[i] = 0xee;
    }
    let witnesses1 = vec![input_witness(length_prefixed(&body1)), input_witness(vec![9; 4])];
    let witnesses2 = vec![input_witness(length_prefixed(&body2)), input_witness(vec![9; 4])];
    let m1 = assemble_unsigned_data(&witnesses1, &tx_hash).expect("entrance present");
    let m2 = assemble_unsigned_data(&witnesses2, &tx_hash).expect("entrance present");
    assert_eq!(m1, m2);
}

#[test]
fn no_entrance_without_index_zero_payload() {
    let tx_hash = vec![0u8; 32];
    let bare = WitnessEnvelope { primary: Some(vec![1, 2]), input_side: None, output_side: None }
        .encode();
    let witnesses = vec![bare, input_witness(vec![5; 80])];
    assert_eq!(
        assemble_unsigned_data(&witnesses, &tx_hash),
        Err(ProtocolError::NoEntranceWitness)
    );
    assert_eq!(
        assemble_unsigned_data(&Vec::new(), &tx_hash),
        Err(ProtocolError::NoEntranceWitness)
    );
}

#[test]
fn single_qualifying_entrance_succeeds() {
    let tx_hash = vec![1u8; 32];
    let witnesses = vec![output_witness(length_prefixed(&[3u8; 70]))];
    let message = assemble_unsigned_data(&witnesses, &tx_hash).expect("entrance present");
    let mut expected = tx_hash.clone();
    expected.extend_from_slice(&zeroed(&length_prefixed(&[3u8; 70])));
    assert_eq!(message, expected);
}

#[test]
fn undecodable_witness_reports_its_index() {
    let tx_hash = vec![0u8; 32];
    let witnesses = vec![input_witness(length_prefixed(&[0u8; 80])), vec![1, 2, 3]];
    assert_eq!(
        assemble_unsigned_data(&witnesses, &tx_hash),
        Err(ProtocolError::InvalidWitness(1))
    );
}

#[test]
fn short_entrance_payload_is_invalid() {
    let tx_hash = vec![0u8; 32];
    let witnesses = vec![input_witness(vec![0u8; 68])];
    assert_eq!(
        assemble_unsigned_data(&witnesses, &tx_hash),
        Err(ProtocolError::InvalidWitness(0))
    );
}

#[test]
fn digest_is_the_chain_hash_of_the_message() {
    let tx_hash = vec![0x21u8; 32];
    let witnesses = vec![input_witness(length_prefixed(&[6u8; 90]))];
    let message = assemble_unsigned_data(&witnesses, &tx_hash).expect("entrance present");
    let digest = build_signing_digest(&witnesses, &tx_hash).expect("entrance present");
    assert_eq!(digest, ckb_hash::blake2b_256(&message).to_vec());
}

#[test]
fn embedding_writes_exactly_the_signature_slice() {
    // A transaction with 3 witnesses; witness 0 carries an input-side payload
    // whose body is 100 bytes with a zero signature; a fixed deterministic
    // signer would return this known 65-byte signature for the digest.
    let mut body = vec![0u8; 100];
    for i in 65..100 {
        body[i] = i as u8;
    }
    let entrance = length_prefixed(&body);
    let witnesses = vec![
        input_witness(entrance.clone()),
        input_witness(vec![0x61; 33]),
        input_witness(vec![0x62; 44]),
    ];
    let tx_hash = vec![0x10u8; 32];
    build_signing_digest(&witnesses, &tx_hash).expect("digest builds");
    let signature: Vec<u8> = (0..65u8).map(|b| b.wrapping_add(100)).collect();
    let new_entrance = embed_signature(&witnesses[0], &signature).expect("embeds");
    let env = WitnessEnvelope::decode(&new_entrance).expect("still an envelope");
    let payload = env.input_side.expect("payload stays input side");
    assert_eq!(payload.len(), 104);
    assert_eq!(&payload[4..69], signature.as_slice());
    assert_eq!(&payload[0..4], &entrance[0..4]); // length prefix unchanged
    assert_eq!(&payload[69..104], &entrance[69..104]); // body tail unchanged
    assert_eq!(env.primary, None);
    assert_eq!(env.output_side, None);
    // The other witnesses were never touched.
    assert_eq!(witnesses[1], input_witness(vec![0x61; 33]));
    assert_eq!(witnesses[2], input_witness(vec![0x62; 44]));
}

#[test]
fn embedding_twice_is_idempotent() {
    let entrance = length_prefixed(&[0x77u8; 100]);
    let witness = WitnessEnvelope {
        primary: Some(vec![0xcc; 3]),
        input_side: None,
        output_side: Some(entrance),
    }
    .encode();
    let signature = vec![0xabu8; 65];
    let once = embed_signature(&witness, &signature).expect("embeds");
    let twice = embed_signature(&once, &signature).expect("embeds again");
    assert_eq!(once, twice);
}

#[test]
fn embedding_preserves_the_other_fields() {
    let witness = WitnessEnvelope {
        primary: Some(vec![0x0f; 7]),
        input_side: Some(length_prefixed(&[1u8; 70])),
        output_side: Some(vec![0x3c; 2]),
    }
    .encode();
    let signature = vec![0x99u8; 65];
    let rebuilt = embed_signature(&witness, &signature).expect("embeds");
    let env = WitnessEnvelope::decode(&rebuilt).expect("envelope");
    assert_eq!(env.primary, Some(vec![0x0f; 7]));
    assert_eq!(env.output_side, Some(vec![0x3c; 2]));
    let payload = env.input_side.expect("input side kept");
    assert_eq!(&payload[4..69], signature.as_slice());
}

#[test]
fn sign_receipt_replaces_only_the_entrance_witness() {
    let entrance = length_prefixed(&[0u8; 96]);
    let other = input_witness(vec![0x55; 10]);
    let mut receipt = TransactionReceipt {
        tx_hash: vec![0x42u8; 32],
        witnesses: vec![input_witness(entrance.clone()), other.clone()],
    };
    let key = [0x01u8; 32];
    let digest =
        build_signing_digest(&receipt.witnesses, &receipt.tx_hash).expect("digest builds");
    let signature = expected_signature(&digest, key);
    let old_entrance_witness = receipt.witnesses[0].clone();
    sign_receipt(&mut receipt, &key.to_vec()).expect("signing succeeds");
    assert_eq!(receipt.tx_hash, vec![0x42u8; 32]);
    assert_eq!(receipt.witnesses.len(), 2);
    assert_eq!(receipt.witnesses[1], other);
    let expected_entrance =
        embed_signature(&old_entrance_witness, &signature).expect("embeds");
    assert_eq!(receipt.witnesses[0], expected_entrance);
    let env = WitnessEnvelope::decode(&receipt.witnesses[0]).expect("envelope");
    assert_eq!(&env.input_side.expect("payload")[4..69], signature.as_slice());
}

#[test]
fn sign_receipt_rejects_invalid_key_and_leaves_receipt_alone() {
    let witnesses = vec![input_witness(length_prefixed(&[0u8; 80]))];
    let mut receipt = TransactionReceipt { tx_hash: vec![0u8; 32], witnesses: witnesses.clone() };
    let r = sign_receipt(&mut receipt, &vec![0u8; 32]); // zero is not a valid key
    assert_eq!(r, Err(ProtocolError::SignFailed));
    assert_eq!(receipt.witnesses, witnesses);
}

#[test]
fn sign_receipt_propagates_phase_one_errors() {
    let mut receipt =
        TransactionReceipt { tx_hash: vec![0u8; 32], witnesses: vec![vec![0xde, 0xad]] };
    let r = sign_receipt(&mut receipt, &vec![1u8; 32]);
    assert_eq!(r, Err(ProtocolError::InvalidWitness(0)));
    assert_eq!(receipt.witnesses, vec![vec![0xde, 0xad]]);
}

#[test]
fn build_signature_matches_manual_construction() {
    let tx_hash = vec![0x77u8; 32];
    let init_env = WitnessEnvelope {
        primary: Some(vec![0u8; 65]),
        input_side: Some(vec![0xe1; 8]),
        output_side: None,
    };
    let witnesses = vec![init_env.clone().encode(), vec![], vec![0xfe; 12]];
    let idxs = vec![0usize, 2usize];
    let key = [0x02u8; 32];
    let signature = build_signature(&tx_hash, &idxs, &witnesses, &key.to_vec())
        .expect("group signs");
    // The initial witness gets 65 zero bytes in its primary field; every other
    // group witness is hashed behind its u64 length.
    let masked = WitnessEnvelope {
        primary: Some(vec![0u8; 65]),
        input_side: Some(vec![0xe1; 8]),
        output_side: None,
    }
    .encode();
    let mut message = tx_hash.clone();
    message.extend_from_slice(&(masked.len() as u64).to_le_bytes());
    message.extend_from_slice(&masked);
    message.extend_from_slice(&(witnesses[2].len() as u64).to_le_bytes());
    message.extend_from_slice(&witnesses[2]);
    let digest = ckb_hash::blake2b_256(&message);
    assert_eq!(signature, expected_signature(&digest, key));
}

#[test]
fn build_signature_treats_empty_initial_witness_as_default_envelope() {
    let tx_hash = vec![0x08u8; 32];
    let witnesses = vec![vec![]];
    let idxs = vec![0usize];
    let key = [0x03u8; 32];
    let signature =
        build_signature(&tx_hash, &idxs, &witnesses, &key.to_vec()).expect("group signs");
    let masked = WitnessEnvelope {
        primary: Some(vec![0u8; 65]),
        input_side: None,
        output_side: None,
    }
    .encode();
    let mut message = tx_hash.clone();
    message.extend_from_slice(&(masked.len() as u64).to_le_bytes());
    message.extend_from_slice(&masked);
    let digest = ckb_hash::blake2b_256(&message);
    assert_eq!(signature, expected_signature(&digest, key));
}

#[test]
fn build_signature_rejects_invalid_key() {
    let witnesses = vec![vec![]];
    let idxs = vec![0usize];
    let r = build_signature(&vec![0u8; 32], &idxs, &witnesses, &vec![0u8; 32]);
    assert_eq!(r, Err(ProtocolError::SignFailed));
}
