//! The multi-witness signing protocol.
//!
//! Phase 1 scans a transaction's witnesses, classifies every payload-bearing
//! envelope by which auxiliary field it uses, and assembles the canonical
//! unsigned message: the transaction hash, then every input-side payload in
//! ascending index order, then every output-side payload in ascending index
//! order, with the entrance witness's signature slice zeroed so the message
//! never depends on a signature that has not been computed yet. Phase 2 signs
//! the message digest. Phase 3 overwrites the signature slice of the original
//! entrance payload and rebuilds its envelope, touching nothing else.

use vstd::prelude::*;
use crate::bytesutil::{append_range, push_u64_le, u32_le, u64_le, zeros};
use crate::call_frame::{lemma_signature_offset_stable, spec_witness_data_bytes, WitnessDataView};
use crate::crypto::{blake2b256, blake2b256_of, is_valid_secret_key, recoverable_signature_of,
    sign_digest};
use crate::envelope::{spec_decode_envelope, spec_encode_envelope, WitnessEnvelope,
    WitnessEnvelopeView};
use crate::errors::ProtocolError;

verus! {

/// A not-yet-finalized transaction as the signing protocol sees it: the
/// 32-byte transaction hash and the ordered raw witnesses.
pub struct TransactionReceipt {
    /// The 32-byte hash of the transaction the witnesses belong to.
    pub tx_hash: Vec<u8>,
    /// One raw byte string per witness slot, in transaction order.
    pub witnesses: Vec<Vec<u8>>,
}

impl TransactionReceipt {
    /// The transaction hash holds exactly 32 bytes.
    pub open spec fn well_formed(&self) -> bool {
        self.tx_hash@.len() == 32
    }
}

/// `p` with its signature slice `[4, 69)` zeroed: the 4-byte length prefix
/// and everything past the 65 signature bytes stay as they are.
pub open spec fn zero_signature(p: Seq<u8>) -> Seq<u8>
    recommends
        p.len() >= 69,
{
    p.take(4) + Seq::new(65, |i: int| 0u8) + p.skip(69)
}

/// The payload an envelope contributes as entrance witness: the input-side
/// field when present, the output-side field otherwise.
pub open spec fn entrance_payload(e: WitnessEnvelopeView) -> Option<Seq<u8>> {
    if e.input_side is Some {
        e.input_side
    } else {
        e.output_side
    }
}

/// The witness at `idx` lets the scan proceed: it decodes as an envelope,
/// and at index 0 any payload it carries is long enough to hold the length
/// prefix and the signature.
pub open spec fn witness_ok(w: Seq<u8>, idx: int) -> bool {
    match spec_decode_envelope(w) {
        Ok(e) => idx != 0 || (match entrance_payload(e) {
            Option::Some(p) => p.len() >= 69,
            Option::None => true,
        }),
        Err(_) => false,
    }
}

/// The first index below `n` whose witness stops the scan, if any.
pub open spec fn first_bad_before(ws: Seq<Seq<u8>>, n: int) -> Option<int>
    decreases n,
{
    if n <= 0 {
        Option::None
    } else {
        match first_bad_before(ws, n - 1) {
            Option::Some(i) => Option::Some(i),
            Option::None => if witness_ok(ws[n - 1], n - 1) {
                Option::None
            } else {
                Option::Some(n - 1)
            },
        }
    }
}

/// What the witness at `i` adds to the input-side bucket: its input-side
/// payload, zeroed at index 0, nothing otherwise.
pub open spec fn in_contrib(ws: Seq<Seq<u8>>, i: int) -> Seq<u8> {
    match spec_decode_envelope(ws[i]) {
        Ok(e) => match e.input_side {
            Option::Some(p) => if i == 0 {
                zero_signature(p)
            } else {
                p
            },
            Option::None => Seq::empty(),
        },
        Err(_) => Seq::empty(),
    }
}

/// What the witness at `i` adds to the output-side bucket: its output-side
/// payload when it has no input-side payload, zeroed at index 0.
pub open spec fn out_contrib(ws: Seq<Seq<u8>>, i: int) -> Seq<u8> {
    match spec_decode_envelope(ws[i]) {
        Ok(e) => if e.input_side is Some {
            Seq::empty()
        } else {
            match e.output_side {
                Option::Some(p) => if i == 0 {
                    zero_signature(p)
                } else {
                    p
                },
                Option::None => Seq::empty(),
            }
        },
        Err(_) => Seq::empty(),
    }
}

/// All input-side contributions below `n`, in ascending index order.
pub open spec fn in_concat(ws: Seq<Seq<u8>>, n: int) -> Seq<u8>
    decreases n,
{
    if n <= 0 {
        Seq::empty()
    } else {
        in_concat(ws, n - 1) + in_contrib(ws, n - 1)
    }
}

/// All output-side contributions below `n`, in ascending index order.
pub open spec fn out_concat(ws: Seq<Seq<u8>>, n: int) -> Seq<u8>
    decreases n,
{
    if n <= 0 {
        Seq::empty()
    } else {
        out_concat(ws, n - 1) + out_contrib(ws, n - 1)
    }
}

/// Index 0 exists, decodes, and carries a payload in one of the two
/// auxiliary fields: the transaction has an entrance witness.
pub open spec fn has_entrance(ws: Seq<Seq<u8>>) -> bool {
    ws.len() > 0 && (match spec_decode_envelope(ws[0]) {
        Ok(e) => entrance_payload(e) is Some,
        Err(_) => false,
    })
}

/// The canonical unsigned message: the transaction hash, then the input-side
/// bucket, then the output-side bucket.
pub open spec fn spec_unsigned_data(ws: Seq<Seq<u8>>, h: Seq<u8>) -> Seq<u8> {
    h + in_concat(ws, ws.len() as int) + out_concat(ws, ws.len() as int)
}

/// Phase 1 as a function of the witnesses and the transaction hash:
/// `InvalidWitness(i)` for the first witness that stops the scan,
/// `NoEntranceWitness` when index 0 carries no payload, the unsigned message
/// otherwise.
pub open spec fn spec_phase1(ws: Seq<Seq<u8>>, h: Seq<u8>) -> Result<Seq<u8>, ProtocolError> {
    match first_bad_before(ws, ws.len() as int) {
        Option::Some(i) => Err(ProtocolError::InvalidWitness(i as usize)),
        Option::None => if !has_entrance(ws) {
            Err(ProtocolError::NoEntranceWitness)
        } else {
            Ok(spec_unsigned_data(ws, h))
        },
    }
}

/// Once the scan has stopped, later witnesses cannot move the stopping index.
proof fn lemma_first_bad_extend(ws: Seq<Seq<u8>>, n: int, m: int)
    requires
        0 <= n <= m,
        first_bad_before(ws, n) is Some,
    ensures
        first_bad_before(ws, m) == first_bad_before(ws, n),
    decreases m,
{
    if m > n {
        lemma_first_bad_extend(ws, n, m - 1);
    }
}

/// Appends `p` with its signature slice zeroed.
fn append_zeroed(out: &mut Vec<u8>, p: &Vec<u8>)
    requires
        p@.len() >= 69,
    ensures
        final(out)@ == old(out)@ + zero_signature(p@),
{
    append_range(out, p, 0, 4);
    let z = zeros(65);
    append_range(out, &z, 0, 65);
    append_range(out, p, 69, p.len());
    proof {
        assert(z@.subrange(0, 65) =~= Seq::new(65, |i: int| 0u8));
        assert(p@.subrange(0, 4) =~= p@.take(4));
        assert(p@.subrange(69, p@.len() as int) =~= p@.skip(69));
        assert(out@ =~= old(out)@ + zero_signature(p@));
    }
}

/// Phase 1: scans the witnesses and assembles the canonical unsigned message
/// `tx_hash || input-side payloads || output-side payloads`, the entrance
/// signature slice zeroed.
///
/// Returns exactly what [`spec_phase1`] gives on the witnesses and the hash.
pub fn assemble_unsigned_data(witnesses: &Vec<Vec<u8>>, tx_hash: &Vec<u8>) -> (r: Result<
    Vec<u8>,
    ProtocolError,
>)
    requires
        tx_hash@.len() == 32,
    ensures
        match r {
            Ok(m) => spec_phase1(witnesses.deep_view(), tx_hash@) == Ok::<Seq<u8>, ProtocolError>(
                m@,
            ),
            Err(e) => spec_phase1(witnesses.deep_view(), tx_hash@) == Err::<Seq<u8>, ProtocolError>(
                e,
            ),
        },
{
    let ghost dw = witnesses.deep_view();
    let n = witnesses.len();
    proof {
        assert(dw.len() == n);
    }
    let mut main: Vec<u8> = Vec::new();
    append_range(&mut main, tx_hash, 0, tx_hash.len());
    proof {
        assert(main@ =~= tx_hash@ + in_concat(dw, 0));
    }
    let mut out_buf: Vec<u8> = Vec::new();
    let mut found = false;
    let mut i: usize = 0;
    while i < n
        invariant
            i <= n,
            n == witnesses@.len(),
            dw == witnesses.deep_view(),
            dw.len() == n,
            first_bad_before(dw, i as int) is None,
            main@ == tx_hash@ + in_concat(dw, i as int),
            out_buf@ == out_concat(dw, i as int),
            found <==> (i > 0 && has_entrance(dw)),
        decreases n - i,
    {
        let w = &witnesses[i];
        proof {
            assert(dw[i as int] =~= w@);
        }
        let env = match WitnessEnvelope::decode(w) {
            Ok(env) => env,
            Err(_) => {
                proof {
                    assert(!witness_ok(dw[i as int], i as int));
                    assert(first_bad_before(dw, i as int + 1) == Option::Some(i as int));
                    lemma_first_bad_extend(dw, i as int + 1, n as int);
                }
                return Err(ProtocolError::InvalidWitness(i));
            },
        };
        if let Option::Some(p) = &env.input_side {
            if i == 0 {
                if p.len() < 69 {
                    proof {
                        assert(!witness_ok(dw[0], 0));
                        assert(first_bad_before(dw, 1) == Option::Some(0int));
                        lemma_first_bad_extend(dw, 1, n as int);
                    }
                    return Err(ProtocolError::InvalidWitness(0));
                }
                append_zeroed(&mut main, p);
                found = true;
            } else {
                append_range(&mut main, p, 0, p.len());
                proof {
                    assert(p@.subrange(0, p@.len() as int) =~= p@);
                }
            }
        } else if let Option::Some(p) = &env.output_side {
            if i == 0 {
                if p.len() < 69 {
                    proof {
                        assert(!witness_ok(dw[0], 0));
                        assert(first_bad_before(dw, 1) == Option::Some(0int));
                        lemma_first_bad_extend(dw, 1, n as int);
                    }
                    return Err(ProtocolError::InvalidWitness(0));
                }
                append_zeroed(&mut out_buf, p);
                found = true;
            } else {
                append_range(&mut out_buf, p, 0, p.len());
                proof {
                    assert(p@.subrange(0, p@.len() as int) =~= p@);
                }
            }
        }
        proof {
            assert(witness_ok(dw[i as int], i as int));
            assert(main@ =~= tx_hash@ + in_concat(dw, i as int + 1));
            assert(out_buf@ =~= out_concat(dw, i as int + 1));
        }
        i = i + 1;
    }
    if !found {
        return Err(ProtocolError::NoEntranceWitness);
    }
    append_range(&mut main, &out_buf, 0, out_buf.len());
    proof {
        assert(out_buf@.subrange(0, out_buf@.len() as int) =~= out_buf@);
        assert(main@ =~= spec_unsigned_data(dw, tx_hash@));
    }
    Ok(main)
}

/// Phases 1 and 2's digest: the chain's 256-bit hash of the canonical
/// unsigned message. This is the exact 32-byte value that is signed.
pub fn build_signing_digest(witnesses: &Vec<Vec<u8>>, tx_hash: &Vec<u8>) -> (r: Result<
    Vec<u8>,
    ProtocolError,
>)
    requires
        tx_hash@.len() == 32,
    ensures
        match r {
            Ok(d) => spec_phase1(witnesses.deep_view(), tx_hash@) is Ok && d@ == blake2b256_of(
                spec_phase1(witnesses.deep_view(), tx_hash@).unwrap(),
            ) && d@.len() == 32,
            Err(e) => spec_phase1(witnesses.deep_view(), tx_hash@) == Err::<Seq<u8>, ProtocolError>(
                e,
            ),
        },
{
    let message = match assemble_unsigned_data(witnesses, tx_hash) {
        Ok(m) => m,
        Err(e) => {
            return Err(e);
        },
    };
    Ok(blake2b256(&message))
}

/// `p` with the 65-byte `sig` written over its signature slice `[4, 69)`.
pub open spec fn embed_payload(p: Seq<u8>, sig: Seq<u8>) -> Seq<u8>
    recommends
        p.len() >= 69,
        sig.len() == 65,
{
    p.take(4) + sig + p.skip(69)
}

/// The entrance envelope with `sig` embedded into whichever auxiliary field
/// it originally used; the primary field and the other auxiliary field are
/// preserved unchanged.
pub open spec fn embedded_envelope(e: WitnessEnvelopeView, sig: Seq<u8>) -> WitnessEnvelopeView
    recommends
        entrance_payload(e) is Some,
{
    let p = entrance_payload(e).unwrap();
    if e.input_side is Some {
        WitnessEnvelopeView {
            primary: e.primary,
            input_side: Option::Some(embed_payload(p, sig)),
            output_side: e.output_side,
        }
    } else {
        WitnessEnvelopeView {
            primary: e.primary,
            input_side: e.input_side,
            output_side: Option::Some(embed_payload(p, sig)),
        }
    }
}

/// Phase 3 as a function of the original entrance witness and the signature:
/// the re-encoded envelope whose entrance payload carries `sig` at `[4, 69)`.
pub open spec fn spec_embed(w0: Seq<u8>, sig: Seq<u8>) -> Result<Seq<u8>, ProtocolError> {
    match spec_decode_envelope(w0) {
        Err(_) => Err(ProtocolError::InvalidWitness(0)),
        Ok(e) => match entrance_payload(e) {
            Option::None => Err(ProtocolError::NoEntranceWitness),
            Option::Some(p) => if p.len() < 69 {
                Err(ProtocolError::InvalidWitness(0))
            } else {
                Ok(spec_encode_envelope(embedded_envelope(e, sig)))
            },
        },
    }
}

/// Returns `p` with `sig` written over bytes `[4, 69)`.
fn splice_signature(p: &Vec<u8>, sig: &Vec<u8>) -> (r: Vec<u8>)
    requires
        p@.len() >= 69,
        sig@.len() == 65,
    ensures
        r@ == embed_payload(p@, sig@),
        r@.len() == p@.len(),
{
    let mut r: Vec<u8> = Vec::new();
    append_range(&mut r, p, 0, 4);
    append_range(&mut r, sig, 0, sig.len());
    append_range(&mut r, p, 69, p.len());
    proof {
        assert(p@.subrange(0, 4) =~= p@.take(4));
        assert(sig@.subrange(0, sig@.len() as int) =~= sig@);
        assert(p@.subrange(69, p@.len() as int) =~= p@.skip(69));
        assert(r@ =~= embed_payload(p@, sig@));
    }
    r
}

/// Phase 3: rebuilds the entrance witness from its original, unzeroed bytes,
/// with the 65-byte signature written over the slice `[4, 69)` of the payload
/// it originally carried, in whichever auxiliary field held it. The primary
/// field and the other auxiliary field are preserved byte for byte.
///
/// Returns exactly what [`spec_embed`] gives on the witness and the
/// signature.
pub fn embed_signature(witness: &Vec<u8>, signature: &Vec<u8>) -> (r: Result<Vec<u8>, ProtocolError>)
    requires
        signature@.len() == 65,
    ensures
        match r {
            Ok(w) => spec_embed(witness@, signature@) == Ok::<Seq<u8>, ProtocolError>(w@),
            Err(e) => spec_embed(witness@, signature@) == Err::<Seq<u8>, ProtocolError>(e),
        },
{
    let env = match WitnessEnvelope::decode(witness) {
        Ok(env) => env,
        Err(_) => {
            return Err(ProtocolError::InvalidWitness(0));
        },
    };
    let ghost ev = env@;
    let WitnessEnvelope { primary, input_side, output_side } = env;
    match input_side {
        Option::Some(p) => {
            if p.len() < 69 {
                return Err(ProtocolError::InvalidWitness(0));
            }
            let spliced = splice_signature(&p, signature);
            let rebuilt = WitnessEnvelope {
                primary,
                input_side: Option::Some(spliced),
                output_side,
            };
            proof {
                assert(rebuilt@ =~= embedded_envelope(ev, signature@));
            }
            Ok(rebuilt.encode())
        },
        Option::None => {
            match output_side {
                Option::Some(p) => {
                    if p.len() < 69 {
                        return Err(ProtocolError::InvalidWitness(0));
                    }
                    let spliced = splice_signature(&p, signature);
                    let rebuilt = WitnessEnvelope {
                        primary,
                        input_side: Option::None,
                        output_side: Option::Some(spliced),
                    };
                    proof {
                        assert(rebuilt@ =~= embedded_envelope(ev, signature@));
                    }
                    Ok(rebuilt.encode())
                },
                Option::None => Err(ProtocolError::NoEntranceWitness),
            }
        },
    }
}

/// When phase 1 accepted the witnesses, phase 3 cannot fail: the entrance
/// witness decodes and its payload is long enough for any 65-byte signature.
pub proof fn lemma_phase1_ok_embed_ok(ws: Seq<Seq<u8>>, h: Seq<u8>, sig: Seq<u8>)
    requires
        spec_phase1(ws, h) is Ok,
        sig.len() == 65,
    ensures
        ws.len() > 0,
        spec_embed(ws[0], sig) is Ok,
{
    assert(has_entrance(ws));
    if first_bad_before(ws, 1) is Some {
        lemma_first_bad_extend(ws, 1, ws.len() as int);
    }
    assert(witness_ok(ws[0], 0));
}

/// No payload-bearing envelope at index 0 means `NoEntranceWitness`; with the
/// scan clean, an entrance witness is accepted and the message is built.
pub proof fn lemma_single_entrance(ws: Seq<Seq<u8>>, h: Seq<u8>)
    requires
        first_bad_before(ws, ws.len() as int) is None,
    ensures
        !has_entrance(ws) ==> spec_phase1(ws, h) == Err::<Seq<u8>, ProtocolError>(
            ProtocolError::NoEntranceWitness,
        ),
        has_entrance(ws) ==> spec_phase1(ws, h) == Ok::<Seq<u8>, ProtocolError>(
            spec_unsigned_data(ws, h),
        ),
{
}

/// Runs the whole protocol over a receipt: builds the digest from the current
/// witnesses, signs it with the given 32-byte secret key, and replaces
/// witness 0 with the re-embedded entrance envelope. On any failure the
/// receipt is left untouched; on success exactly witness 0 changes.
pub fn sign_receipt(receipt: &mut TransactionReceipt, privkey: &Vec<u8>) -> (r: Result<
    (),
    ProtocolError,
>)
    requires
        old(receipt).well_formed(),
        privkey@.len() == 32,
    ensures
        final(receipt).tx_hash@ == old(receipt).tx_hash@,
        final(receipt).well_formed(),
        match r {
            Ok(()) => {
                let ws = old(receipt).witnesses.deep_view();
                let h = old(receipt).tx_hash@;
                let sig = recoverable_signature_of(
                    blake2b256_of(spec_phase1(ws, h).unwrap()),
                    privkey@,
                );
                &&& spec_phase1(ws, h) is Ok
                &&& is_valid_secret_key(privkey@)
                &&& spec_embed(ws[0], sig) is Ok
                &&& final(receipt).witnesses.deep_view() == ws.update(
                    0,
                    spec_embed(ws[0], sig).unwrap(),
                )
            },
            Err(e) => {
                let ws = old(receipt).witnesses.deep_view();
                let h = old(receipt).tx_hash@;
                &&& final(receipt).witnesses.deep_view() == ws
                &&& match spec_phase1(ws, h) {
                    Err(pe) => e == pe,
                    Ok(_) => e == ProtocolError::SignFailed && !is_valid_secret_key(privkey@),
                }
            },
        },
{
    let ghost ws = receipt.witnesses.deep_view();
    let ghost h = receipt.tx_hash@;
    let digest = match build_signing_digest(&receipt.witnesses, &receipt.tx_hash) {
        Ok(d) => d,
        Err(e) => {
            return Err(e);
        },
    };
    let sig = match sign_digest(&digest, privkey) {
        Ok(s) => s,
        Err(e) => {
            return Err(e);
        },
    };
    proof {
        lemma_phase1_ok_embed_ok(ws, h, sig@);
        assert(ws[0] =~= receipt.witnesses@[0]@);
    }
    let new_entrance = match embed_signature(&receipt.witnesses[0], &sig) {
        Ok(w) => w,
        Err(_) => {
            proof {
                assert(false);
            }
            return Err(ProtocolError::SignFailed);
        },
    };
    receipt.witnesses.set(0, new_entrance);
    proof {
        assert(receipt.witnesses.deep_view() =~~= ws.update(
            0,
            spec_embed(ws[0], recoverable_signature_of(blake2b256_of(spec_phase1(ws, h).unwrap()), privkey@)).unwrap(),
        ));
    }
    Ok(())
}

/// Re-running phase 3 on its own output with the same signature changes
/// nothing: embedding a signature is idempotent.
pub proof fn lemma_embed_idempotent(w0: Seq<u8>, sig: Seq<u8>)
    requires
        sig.len() == 65,
        spec_embed(w0, sig) is Ok,
    ensures
        spec_embed(spec_embed(w0, sig).unwrap(), sig) == spec_embed(w0, sig),
{
    let e = spec_decode_envelope(w0).unwrap();
    let p = entrance_payload(e).unwrap();
    let e2 = embedded_envelope(e, sig);
    crate::envelope::lemma_decode_envelope_wf(w0);
    assert(embed_payload(p, sig).len() == p.len());
    assert(e2.well_formed());
    crate::envelope::lemma_envelope_round_trip(e2);
    let p2 = entrance_payload(e2).unwrap();
    assert(p2 == embed_payload(p, sig));
    assert(embed_payload(p2, sig) =~= p2);
    assert(embedded_envelope(e2, sig) =~= e2);
}

/// Pointwise-equal scans agree: when two witness lists are valid at the same
/// indices and contribute the same bytes index by index, they stop at the
/// same place and build the same buckets.
proof fn lemma_scan_congruent(ws1: Seq<Seq<u8>>, ws2: Seq<Seq<u8>>, n: int)
    requires
        0 <= n <= ws1.len(),
        ws1.len() == ws2.len(),
        forall|i: int| 0 <= i < n ==> #[trigger] witness_ok(ws1[i], i) == witness_ok(ws2[i], i),
        forall|i: int| 0 <= i < n ==> #[trigger] in_contrib(ws1, i) == in_contrib(ws2, i),
        forall|i: int| 0 <= i < n ==> #[trigger] out_contrib(ws1, i) == out_contrib(ws2, i),
    ensures
        first_bad_before(ws1, n) == first_bad_before(ws2, n),
        in_concat(ws1, n) == in_concat(ws2, n),
        out_concat(ws1, n) == out_concat(ws2, n),
    decreases n,
{
    if n > 0 {
        lemma_scan_congruent(ws1, ws2, n - 1);
    }
}

/// The envelope of an entrance witness slot whose used auxiliary field holds
/// a length-prefixed encoded `WitnessData` body.
pub open spec fn entrance_envelope_of(
    w: WitnessDataView,
    primary: Option<Seq<u8>>,
    other: Option<Seq<u8>>,
    use_input: bool,
) -> WitnessEnvelopeView {
    let body = spec_witness_data_bytes(w);
    let payload = u32_le(body.len() as u32) + body;
    if use_input {
        WitnessEnvelopeView {
            primary,
            input_side: Option::Some(payload),
            output_side: other,
        }
    } else {
        WitnessEnvelopeView {
            primary,
            input_side: Option::None,
            output_side: Option::Some(payload),
        }
    }
}

/// The unsigned message never depends on the signature: two receipts whose
/// entrance witnesses carry `WitnessData` values that differ only in their
/// signature field, everything else equal, yield the same phase-1 result.
pub proof fn lemma_message_independent_of_signature(
    w1: WitnessDataView,
    w2: WitnessDataView,
    primary: Option<Seq<u8>>,
    other: Option<Seq<u8>>,
    use_input: bool,
    rest: Seq<Seq<u8>>,
    h: Seq<u8>,
)
    requires
        w1.well_formed(),
        w2.well_formed(),
        w1.program == w2.program,
        entrance_envelope_of(w1, primary, other, use_input).well_formed(),
    ensures
        spec_phase1(
            seq![spec_encode_envelope(entrance_envelope_of(w1, primary, other, use_input))] + rest,
            h,
        ) == spec_phase1(
            seq![spec_encode_envelope(entrance_envelope_of(w2, primary, other, use_input))] + rest,
            h,
        ),
{
    let e1 = entrance_envelope_of(w1, primary, other, use_input);
    let e2 = entrance_envelope_of(w2, primary, other, use_input);
    let body1 = spec_witness_data_bytes(w1);
    let body2 = spec_witness_data_bytes(w2);
    lemma_signature_offset_stable(w1, w2);
    assert(body1.len() == body2.len());
    assert(e2.well_formed());
    crate::envelope::lemma_envelope_round_trip(e1);
    crate::envelope::lemma_envelope_round_trip(e2);
    let ws1 = seq![spec_encode_envelope(e1)] + rest;
    let ws2 = seq![spec_encode_envelope(e2)] + rest;
    assert(ws1.len() == ws2.len());
    assert(ws1[0] == spec_encode_envelope(e1));
    assert(ws2[0] == spec_encode_envelope(e2));
    let payload1 = u32_le(body1.len() as u32) + body1;
    let payload2 = u32_le(body2.len() as u32) + body2;
    assert(zero_signature(payload1) == zero_signature(payload2)) by {
        assert(payload1.take(4) =~= u32_le(body1.len() as u32));
        assert(payload2.take(4) =~= u32_le(body2.len() as u32));
        assert(payload1.skip(69) =~= body1.skip(65));
        assert(payload2.skip(69) =~= body2.skip(65));
        assert(zero_signature(payload1) =~= zero_signature(payload2));
    }
    assert(witness_ok(ws1[0], 0) == witness_ok(ws2[0], 0));
    assert(in_contrib(ws1, 0) == in_contrib(ws2, 0));
    assert(out_contrib(ws1, 0) == out_contrib(ws2, 0));
    assert forall|i: int| 0 < i < ws1.len() implies ws1[i] == ws2[i] by {
        assert(ws1[i] == rest[i - 1]);
        assert(ws2[i] == rest[i - 1]);
    }
    assert(forall|i: int| 0 <= i < ws1.len() ==> #[trigger] witness_ok(ws1[i], i) == witness_ok(
        ws2[i],
        i,
    ));
    assert(forall|i: int| 0 <= i < ws1.len() ==> #[trigger] in_contrib(ws1, i) == in_contrib(
        ws2,
        i,
    ));
    assert(forall|i: int| 0 <= i < ws1.len() ==> #[trigger] out_contrib(ws1, i) == out_contrib(
        ws2,
        i,
    ));
    lemma_scan_congruent(ws1, ws2, ws1.len() as int);
    assert(has_entrance(ws1) == has_entrance(ws2));
}

/// The length-prefixed raw witnesses of the rest of an input group:
/// `len(w) as u64 || w` for each index in `idxs[1..k)`, in order.
pub open spec fn spec_group_extra(ws: Seq<Seq<u8>>, idxs: Seq<usize>, k: int) -> Seq<u8>
    decreases k,
{
    if k <= 1 {
        Seq::empty()
    } else {
        spec_group_extra(ws, idxs, k - 1) + u64_le(ws[idxs[k - 1] as int].len() as u64) + ws[idxs[k
            - 1] as int]
    }
}

/// The initial witness of an input group as an envelope: the default, empty
/// envelope when the raw witness is empty, its decoding otherwise.
pub open spec fn spec_init_envelope(w: Seq<u8>) -> Result<WitnessEnvelopeView, ProtocolError> {
    if w.len() == 0 {
        Ok(
            WitnessEnvelopeView {
                primary: Option::None,
                input_side: Option::None,
                output_side: Option::None,
            },
        )
    } else {
        match spec_decode_envelope(w) {
            Ok(e) => Ok(e),
            Err(_) => Err(ProtocolError::InvalidWitness(0)),
        }
    }
}

/// The unsigned message of an input group: the transaction hash, then the
/// initial witness re-encoded with 65 zero bytes in its primary field and
/// prefixed by its u64 length, then each further witness of the group
/// prefixed by its u64 length.
pub open spec fn spec_group_message(ws: Seq<Seq<u8>>, idxs: Seq<usize>, h: Seq<u8>) -> Result<
    Seq<u8>,
    ProtocolError,
>
    recommends
        idxs.len() > 0,
{
    match spec_init_envelope(ws[idxs[0] as int]) {
        Err(_) => Err(ProtocolError::InvalidWitness(idxs[0])),
        Ok(e) => {
            let masked = WitnessEnvelopeView {
                primary: Option::Some(Seq::new(65, |i: int| 0u8)),
                input_side: e.input_side,
                output_side: e.output_side,
            };
            let body = spec_encode_envelope(masked);
            Ok(h + u64_le(body.len() as u64) + body + spec_group_extra(ws, idxs, idxs.len() as int))
        },
    }
}

/// Builds the standard one-signature-per-input-group witness signature: the
/// initial witness of the group has its primary field replaced by 65 zero
/// bytes, the group's message is hashed, and the digest is signed with the
/// 32-byte secret key. Returns the 65-byte recoverable signature.
///
/// Fails with `InvalidWitness` on a group whose initial witness does not
/// decode, and with `SignFailed` exactly when the key is invalid.
pub fn build_signature(
    tx_hash: &Vec<u8>,
    input_group_idxs: &Vec<usize>,
    witnesses: &Vec<Vec<u8>>,
    privkey: &Vec<u8>,
) -> (r: Result<Vec<u8>, ProtocolError>)
    requires
        tx_hash@.len() == 32,
        privkey@.len() == 32,
        input_group_idxs@.len() > 0,
        forall|k: int| 0 <= k < input_group_idxs@.len() ==> (#[trigger] input_group_idxs@[k])
            < witnesses@.len(),
        witnesses.deep_view()[input_group_idxs@[0] as int].len() + 69 <= u32::MAX,
    ensures
        match r {
            Ok(sig) => {
                let msg = spec_group_message(
                    witnesses.deep_view(),
                    input_group_idxs@,
                    tx_hash@,
                );
                &&& msg is Ok
                &&& is_valid_secret_key(privkey@)
                &&& sig@ == recoverable_signature_of(blake2b256_of(msg.unwrap()), privkey@)
                &&& sig@.len() == 65
            },
            Err(e) => match spec_group_message(
                witnesses.deep_view(),
                input_group_idxs@,
                tx_hash@,
            ) {
                Err(ge) => e == ge,
                Ok(_) => e == ProtocolError::SignFailed && !is_valid_secret_key(privkey@),
            },
        },
{
    let ghost dw = witnesses.deep_view();
    let ghost idxs = input_group_idxs@;
    let g0 = input_group_idxs[0];
    let w0 = &witnesses[g0];
    proof {
        assert(dw[g0 as int] =~= w0@);
    }
    let env = if w0.len() == 0 {
        WitnessEnvelope { primary: Option::None, input_side: Option::None, output_side: Option::None }
    } else {
        match WitnessEnvelope::decode(w0) {
            Ok(e) => e,
            Err(_) => {
                return Err(ProtocolError::InvalidWitness(g0));
            },
        }
    };
    let masked = WitnessEnvelope {
        primary: Option::Some(zeros(65)),
        input_side: env.input_side,
        output_side: env.output_side,
    };
    proof {
        assert(masked@.well_formed());
    }
    let body = masked.encode();
    let mut msg: Vec<u8> = Vec::new();
    append_range(&mut msg, tx_hash, 0, tx_hash.len());
    push_u64_le(&mut msg, body.len() as u64);
    append_range(&mut msg, &body, 0, body.len());
    let ghost head = tx_hash@ + u64_le(body@.len() as u64) + body@;
    proof {
        assert(tx_hash@.subrange(0, tx_hash@.len() as int) =~= tx_hash@);
        assert(body@.subrange(0, body@.len() as int) =~= body@);
        assert(msg@ =~= head + spec_group_extra(dw, idxs, 1));
    }
    let n = input_group_idxs.len();
    let mut k: usize = 1;
    while k < n
        invariant
            1 <= k <= n,
            n == idxs.len(),
            idxs == input_group_idxs@,
            dw == witnesses.deep_view(),
            dw.len() == witnesses@.len(),
            forall|j: int| 0 <= j < idxs.len() ==> (#[trigger] idxs[j]) < witnesses@.len(),
            msg@ == head + spec_group_extra(dw, idxs, k as int),
        decreases n - k,
    {
        let idx = input_group_idxs[k];
        let w = &witnesses[idx];
        proof {
            assert(dw[idx as int] =~= w@);
        }
        push_u64_le(&mut msg, w.len() as u64);
        append_range(&mut msg, w, 0, w.len());
        k = k + 1;
        proof {
            assert(w@.subrange(0, w@.len() as int) =~= w@);
            assert(msg@ =~= head + spec_group_extra(dw, idxs, k as int));
        }
    }
    let digest = blake2b256(&msg);
    proof {
        assert(msg@ =~= spec_group_message(dw, idxs, tx_hash@).unwrap());
    }
    sign_digest(&digest, privkey)
}

} // verus!
