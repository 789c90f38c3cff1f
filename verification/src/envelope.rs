//! The generic witness container of the target chain: one primary byte-string
//! field and two optional auxiliary fields, one used on the input side and one
//! on the output side of a transaction.
//!
//! On the wire the container is a three-field table: a 4-byte little-endian
//! full size, three 4-byte little-endian offsets (one per field, the first
//! always 16), then the field payloads laid out back to back. An absent field
//! occupies zero bytes; a present field is its 4-byte little-endian length
//! followed by its bytes.

use vstd::prelude::*;
use crate::bytesutil::{
    append_range, copy_range, lemma_u32_le_canonical, lemma_u32_le_roundtrip, push_u32_le,
    read_u32_le, u32_from_le, u32_le,
};
use crate::errors::DecodeError;

verus! {

/// One witness slot: a primary field and two optional auxiliary fields.
#[derive(Clone, Debug, PartialEq, Eq, Default)]
pub struct WitnessEnvelope {
    /// The primary field; not touched by the signing protocol.
    pub primary: Option<Vec<u8>>,
    /// Auxiliary data carried on the input side.
    pub input_side: Option<Vec<u8>>,
    /// Auxiliary data carried on the output side.
    pub output_side: Option<Vec<u8>>,
}

/// Mathematical image of a [`WitnessEnvelope`].
#[verifier::ext_equal]
pub ghost struct WitnessEnvelopeView {
    pub primary: Option<Seq<u8>>,
    pub input_side: Option<Seq<u8>>,
    pub output_side: Option<Seq<u8>>,
}

/// View of one optional field.
pub open spec fn field_view(f: Option<Vec<u8>>) -> Option<Seq<u8>> {
    match f {
        Option::None => Option::None,
        Option::Some(b) => Option::Some(b@),
    }
}

impl View for WitnessEnvelope {
    type V = WitnessEnvelopeView;

    open spec fn view(&self) -> WitnessEnvelopeView {
        WitnessEnvelopeView {
            primary: field_view(self.primary),
            input_side: field_view(self.input_side),
            output_side: field_view(self.output_side),
        }
    }
}

/// Length of one encoded field: zero when absent, prefix plus bytes when
/// present.
pub open spec fn spec_field_len(f: Option<Seq<u8>>) -> int {
    match f {
        Option::None => 0,
        Option::Some(b) => 4 + b.len() as int,
    }
}

/// Encoding of one field payload.
pub open spec fn spec_field_bytes(f: Option<Seq<u8>>) -> Seq<u8> {
    match f {
        Option::None => Seq::empty(),
        Option::Some(b) => u32_le(b.len() as u32) + b,
    }
}

impl WitnessEnvelopeView {
    /// Each field and the whole table fit their 32-bit size fields.
    pub open spec fn well_formed(self) -> bool {
        &&& (self.primary is Some ==> self.primary.unwrap().len() <= u32::MAX)
        &&& (self.input_side is Some ==> self.input_side.unwrap().len() <= u32::MAX)
        &&& (self.output_side is Some ==> self.output_side.unwrap().len() <= u32::MAX)
        &&& self.total_len() <= u32::MAX
    }

    /// Length of the whole encoding.
    pub open spec fn total_len(self) -> int {
        16 + spec_field_len(self.primary) + spec_field_len(self.input_side) + spec_field_len(
            self.output_side,
        )
    }
}

/// The encoded envelope: full size, three offsets, then the field payloads.
pub open spec fn spec_encode_envelope(e: WitnessEnvelopeView) -> Seq<u8> {
    let p0 = spec_field_bytes(e.primary);
    let p1 = spec_field_bytes(e.input_side);
    let p2 = spec_field_bytes(e.output_side);
    u32_le(e.total_len() as u32) + u32_le(16) + u32_le((16 + p0.len()) as u32) + u32_le(
        (16 + p0.len() + p1.len()) as u32,
    ) + p0 + p1 + p2
}

/// Reads one field region: empty means absent; otherwise the region must be
/// its own length prefix followed by exactly that many bytes.
pub open spec fn spec_parse_field(s: Seq<u8>) -> Option<Option<Seq<u8>>> {
    if s.len() == 0 {
        Option::Some(Option::None)
    } else if s.len() < 4 {
        Option::None
    } else if u32_from_le(s.subrange(0, 4)) as int != s.len() - 4 {
        Option::None
    } else {
        Option::Some(Option::Some(s.skip(4)))
    }
}

/// The envelope decoder, as a function of the whole buffer.
///
/// `Malformed` unless the buffer is a three-field table whose full size equals
/// the buffer length, whose offsets are 16 and then non-decreasing within the
/// buffer, and whose field regions each parse.
pub open spec fn spec_decode_envelope(b: Seq<u8>) -> Result<WitnessEnvelopeView, DecodeError> {
    if b.len() < 16 {
        Err(DecodeError::Malformed)
    } else if u32_from_le(b.subrange(0, 4)) as int != b.len() {
        Err(DecodeError::Malformed)
    } else {
        let o1 = u32_from_le(b.subrange(4, 8)) as int;
        let o2 = u32_from_le(b.subrange(8, 12)) as int;
        let o3 = u32_from_le(b.subrange(12, 16)) as int;
        if o1 != 16 || !(16 <= o2 <= o3 <= b.len()) {
            Err(DecodeError::Malformed)
        } else {
            let r0 = spec_parse_field(b.subrange(16, o2));
            let r1 = spec_parse_field(b.subrange(o2, o3));
            let r2 = spec_parse_field(b.subrange(o3, b.len() as int));
            if r0 is Some && r1 is Some && r2 is Some {
                Ok(
                    WitnessEnvelopeView {
                        primary: r0.unwrap(),
                        input_side: r1.unwrap(),
                        output_side: r2.unwrap(),
                    },
                )
            } else {
                Err(DecodeError::Malformed)
            }
        }
    }
}

/// Appends one encoded field payload.
fn push_field(out: &mut Vec<u8>, f: &Option<Vec<u8>>)
    requires
        f is Some ==> f.unwrap()@.len() <= u32::MAX,
    ensures
        final(out)@ == old(out)@ + spec_field_bytes(field_view(*f)),
{
    match f {
        Option::None => {},
        Option::Some(b) => {
            push_u32_le(out, b.len() as u32);
            append_range(out, b, 0, b.len());
            proof {
                assert(b@.subrange(0, b@.len() as int) =~= b@);
                assert(out@ =~= old(out)@ + spec_field_bytes(field_view(*f)));
            }
        },
    }
}

/// Reads one field region `b[start..end)`.
fn parse_field(b: &Vec<u8>, start: usize, end: usize) -> (r: Result<Option<Vec<u8>>, DecodeError>)
    requires
        start <= end <= b@.len(),
    ensures
        match r {
            Ok(f) => spec_parse_field(b@.subrange(start as int, end as int)) == Option::Some(
                field_view(f),
            ),
            Err(e) => spec_parse_field(b@.subrange(start as int, end as int)) is None && e
                == DecodeError::Malformed,
        },
{
    let ghost s = b@.subrange(start as int, end as int);
    if end - start == 0 {
        return Ok(None);
    }
    if end - start < 4 {
        return Err(DecodeError::Malformed);
    }
    let declared = read_u32_le(b, start);
    proof {
        assert(s.subrange(0, 4) =~= b@.subrange(start as int, start as int + 4));
    }
    if declared as usize != end - start - 4 {
        return Err(DecodeError::Malformed);
    }
    let body = copy_range(b, start + 4, end);
    proof {
        assert(body@ =~= s.skip(4));
    }
    Ok(Some(body))
}

impl WitnessEnvelope {
    /// Encodes the envelope in the three-field table layout.
    pub fn encode(&self) -> (r: Vec<u8>)
        requires
            self@.well_formed(),
        ensures
            r@ == spec_encode_envelope(self@),
            r@.len() == self@.total_len(),
    {
        let len0: usize = match &self.primary {
            Option::None => 0,
            Option::Some(b) => 4 + b.len(),
        };
        let len1: usize = match &self.input_side {
            Option::None => 0,
            Option::Some(b) => 4 + b.len(),
        };
        let len2: usize = match &self.output_side {
            Option::None => 0,
            Option::Some(b) => 4 + b.len(),
        };
        let mut out: Vec<u8> = Vec::new();
        push_u32_le(&mut out, (16 + len0 + len1 + len2) as u32);
        push_u32_le(&mut out, 16);
        push_u32_le(&mut out, (16 + len0) as u32);
        push_u32_le(&mut out, (16 + len0 + len1) as u32);
        push_field(&mut out, &self.primary);
        push_field(&mut out, &self.input_side);
        push_field(&mut out, &self.output_side);
        proof {
            assert(out@ =~= spec_encode_envelope(self@));
        }
        out
    }

    /// Decodes an envelope from its wire form.
    ///
    /// The result is exactly what [`spec_decode_envelope`] gives on the
    /// buffer, and a decoded envelope is always well formed.
    pub fn decode(b: &Vec<u8>) -> (r: Result<WitnessEnvelope, DecodeError>)
        ensures
            match r {
                Ok(e) => spec_decode_envelope(b@) == Ok::<WitnessEnvelopeView, DecodeError>(e@)
                    && e@.well_formed() && e@.total_len() == b@.len(),
                Err(err) => spec_decode_envelope(b@) == Err::<WitnessEnvelopeView, DecodeError>(
                    err,
                ),
            },
    {
        let n = b.len();
        if n < 16 {
            return Err(DecodeError::Malformed);
        }
        let full = read_u32_le(b, 0);
        if full as usize != n {
            return Err(DecodeError::Malformed);
        }
        let o1 = read_u32_le(b, 4) as usize;
        let o2 = read_u32_le(b, 8) as usize;
        let o3 = read_u32_le(b, 12) as usize;
        if o1 != 16 || o2 < 16 || o2 > o3 || o3 > n {
            return Err(DecodeError::Malformed);
        }
        let primary = match parse_field(b, 16, o2) {
            Ok(f) => f,
            Err(e) => {
                return Err(e);
            },
        };
        let input_side = match parse_field(b, o2, o3) {
            Ok(f) => f,
            Err(e) => {
                return Err(e);
            },
        };
        let output_side = match parse_field(b, o3, n) {
            Ok(f) => f,
            Err(e) => {
                return Err(e);
            },
        };
        let e = WitnessEnvelope { primary, input_side, output_side };
        proof {
            assert(spec_decode_envelope(b@) == Ok::<WitnessEnvelopeView, DecodeError>(e@));
        }
        Ok(e)
    }

    /// Returns the envelope with the input-side field set to `data`, the
    /// other fields untouched.
    pub fn with_input_side(self, data: Vec<u8>) -> (r: WitnessEnvelope)
        ensures
            r@.primary == self@.primary,
            r@.output_side == self@.output_side,
            r@.input_side == Option::Some(data@),
    {
        WitnessEnvelope { input_side: Some(data), ..self }
    }

    /// Returns the envelope with the output-side field set to `data`, the
    /// other fields untouched.
    pub fn with_output_side(self, data: Vec<u8>) -> (r: WitnessEnvelope)
        ensures
            r@.primary == self@.primary,
            r@.input_side == self@.input_side,
            r@.output_side == Option::Some(data@),
    {
        WitnessEnvelope { output_side: Some(data), ..self }
    }
}

/// Every well-formed envelope decodes back from its own encoding.
pub proof fn lemma_envelope_round_trip(e: WitnessEnvelopeView)
    requires
        e.well_formed(),
    ensures
        spec_decode_envelope(spec_encode_envelope(e)) == Ok::<WitnessEnvelopeView, DecodeError>(e),
{
    let b = spec_encode_envelope(e);
    let p0 = spec_field_bytes(e.primary);
    let p1 = spec_field_bytes(e.input_side);
    let p2 = spec_field_bytes(e.output_side);
    assert(b.len() == e.total_len());
    lemma_u32_le_roundtrip(e.total_len() as u32);
    lemma_u32_le_roundtrip(16u32);
    lemma_u32_le_roundtrip((16 + p0.len()) as u32);
    lemma_u32_le_roundtrip((16 + p0.len() + p1.len()) as u32);
    assert(b.subrange(0, 4) =~= u32_le(e.total_len() as u32));
    assert(b.subrange(4, 8) =~= u32_le(16u32));
    assert(b.subrange(8, 12) =~= u32_le((16 + p0.len()) as u32));
    assert(b.subrange(12, 16) =~= u32_le((16 + p0.len() + p1.len()) as u32));
    let o2 = 16 + p0.len() as int;
    let o3 = 16 + p0.len() as int + p1.len() as int;
    assert(b.subrange(16, o2) =~= p0);
    assert(b.subrange(o2, o3) =~= p1);
    assert(b.subrange(o3, b.len() as int) =~= p2);
    lemma_parse_field_bytes(e.primary);
    lemma_parse_field_bytes(e.input_side);
    lemma_parse_field_bytes(e.output_side);
    assert(spec_decode_envelope(b).unwrap() =~= e);
}

/// One encoded field parses back to itself.
proof fn lemma_parse_field_bytes(f: Option<Seq<u8>>)
    requires
        f is Some ==> f.unwrap().len() <= u32::MAX,
    ensures
        spec_parse_field(spec_field_bytes(f)) == Option::Some(f),
{
    match f {
        Option::None => {},
        Option::Some(inner) => {
            let s = spec_field_bytes(f);
            lemma_u32_le_roundtrip(inner.len() as u32);
            assert(s.subrange(0, 4) =~= u32_le(inner.len() as u32));
            assert(s.skip(4) =~= inner);
        },
    }
}

/// A decoded envelope is well formed, and its encoding is as long as the
/// buffer it came from.
pub proof fn lemma_decode_envelope_wf(b: Seq<u8>)
    requires
        spec_decode_envelope(b) is Ok,
    ensures
        spec_decode_envelope(b).unwrap().well_formed(),
        spec_decode_envelope(b).unwrap().total_len() == b.len(),
{
    let o2 = u32_from_le(b.subrange(8, 12)) as int;
    let o3 = u32_from_le(b.subrange(12, 16)) as int;
    lemma_parse_field_exact(b.subrange(16, o2));
    lemma_parse_field_exact(b.subrange(o2, o3));
    lemma_parse_field_exact(b.subrange(o3, b.len() as int));
}

/// A region accepted by the field parser is the exact encoding of its result.
proof fn lemma_parse_field_exact(s: Seq<u8>)
    requires
        spec_parse_field(s) is Some,
    ensures
        spec_field_bytes(spec_parse_field(s).unwrap()) == s,
        spec_field_len(spec_parse_field(s).unwrap()) == s.len(),
{
    let f = spec_parse_field(s).unwrap();
    match f {
        Option::None => {
            assert(spec_field_bytes(f) =~= s);
        },
        Option::Some(inner) => {
            lemma_u32_le_canonical(s.subrange(0, 4));
            assert(spec_field_bytes(f) =~= s);
        },
    }
}

} // verus!
