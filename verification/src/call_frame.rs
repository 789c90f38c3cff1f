//! The call frame (`Program`) and its signed container (`WitnessData`), with
//! their fixed-layout binary codec.
//!
//! The byte layout of the body returned by [`WitnessData::program_data`] is an
//! external contract shared with the execution engine that consumes it:
//!
//! ```text
//! [0, 65)    signature: 64-byte compact value plus 1-byte recovery id,
//!            all zero before signing
//! [65]       call kind code: 0 for a plain call, 3 for a creation
//! [66, 70)   flags, little endian (bit 0: static call)
//! [70, 74)   call depth, little endian
//! [74, 94)   tx_origin
//! [94, 114)  sender
//! [114, 134) destination
//! [134, 138) code length, little endian, then the code bytes
//! then       input length, little endian, then the input bytes
//! ```
//!
//! Callers that place this body into a witness prepend a separate 4-byte
//! little-endian length, so the signature occupies bytes `[4, 69)` of the full
//! on-chain payload. The signing protocol relies on exactly that offset.

use vstd::prelude::*;
use crate::address::{ContractAddress, EoaAddress};
use crate::bytesutil::{
    append_range, copy_range, lemma_u32_le_roundtrip, push_u32_le, read_u32_le, u32_from_le,
    u32_le, zeros,
};
use crate::errors::DecodeError;

verus! {

/// Call kind code on the wire: a plain call.
pub const KIND_CALL_CODE: u8 = 0;

/// Call kind code on the wire: a contract creation.
pub const KIND_CREATE_CODE: u8 = 3;

/// Whether a frame runs existing code or creates a contract.
#[derive(Clone, Copy, Debug, PartialEq, Eq, Structural)]
pub enum CallKind {
    Create,
    Call,
}

/// The wire code of a call kind.
pub open spec fn kind_code(k: CallKind) -> u8 {
    match k {
        CallKind::Call => KIND_CALL_CODE,
        CallKind::Create => KIND_CREATE_CODE,
    }
}

/// One Ethereum-style call or contract-creation request.
#[derive(Clone, Debug, PartialEq, Eq)]
pub struct Program {
    /// Plain call or contract creation.
    pub kind: CallKind,
    /// Bit 0 marks a static call.
    pub flags: u32,
    /// Call depth; zero for a top-level call.
    pub depth: u32,
    /// The account that started the call chain.
    pub tx_origin: EoaAddress,
    /// The 20 raw bytes of the direct caller: an externally-owned account at
    /// depth zero, possibly a contract account deeper in the chain.
    pub sender: Vec<u8>,
    /// The account being called or created.
    pub destination: ContractAddress,
    /// The code to create or call the contract with.
    pub code: Vec<u8>,
    /// The input data handed to the frame.
    pub input: Vec<u8>,
}

/// Mathematical image of a [`Program`].
pub ghost struct ProgramView {
    pub kind: CallKind,
    pub flags: u32,
    pub depth: u32,
    pub tx_origin: Seq<u8>,
    pub sender: Seq<u8>,
    pub destination: Seq<u8>,
    pub code: Seq<u8>,
    pub input: Seq<u8>,
}

impl View for Program {
    type V = ProgramView;

    open spec fn view(&self) -> ProgramView {
        ProgramView {
            kind: self.kind,
            flags: self.flags,
            depth: self.depth,
            tx_origin: self.tx_origin@,
            sender: self.sender@,
            destination: self.destination@,
            code: self.code@,
            input: self.input@,
        }
    }
}

impl ProgramView {
    /// Addresses hold 20 bytes each; the variable fields fit their 32-bit
    /// length prefixes.
    pub open spec fn well_formed(self) -> bool {
        &&& self.tx_origin.len() == 20
        &&& self.sender.len() == 20
        &&& self.destination.len() == 20
        &&& self.code.len() <= u32::MAX
        &&& self.input.len() <= u32::MAX
    }
}

/// The encoded program fields, in the fixed layout.
pub open spec fn spec_program_bytes(p: ProgramView) -> Seq<u8> {
    seq![kind_code(p.kind)] + u32_le(p.flags) + u32_le(p.depth) + p.tx_origin + p.sender
        + p.destination + u32_le(p.code.len() as u32) + p.code + u32_le(p.input.len() as u32)
        + p.input
}

/// A program plus the signature slot over it.
#[derive(Clone, Debug, PartialEq, Eq)]
pub struct WitnessData {
    /// Exactly 65 bytes; all zero until a signature is embedded.
    pub signature: Vec<u8>,
    /// The call frame the signature covers.
    pub program: Program,
}

/// Mathematical image of a [`WitnessData`].
pub ghost struct WitnessDataView {
    pub signature: Seq<u8>,
    pub program: ProgramView,
}

impl View for WitnessData {
    type V = WitnessDataView;

    open spec fn view(&self) -> WitnessDataView {
        WitnessDataView { signature: self.signature@, program: self.program@ }
    }
}

impl WitnessDataView {
    /// The signature slot holds 65 bytes and the program is well formed.
    pub open spec fn well_formed(self) -> bool {
        self.signature.len() == 65 && self.program.well_formed()
    }
}

/// The encoded body: the signature, then the program fields.
pub open spec fn spec_witness_data_bytes(w: WitnessDataView) -> Seq<u8> {
    w.signature + spec_program_bytes(w.program)
}

/// The decoder, as a function of the whole buffer.
///
/// `Truncated` when the buffer ends inside the signature or a fixed-width
/// field; `Malformed` when the kind code is unknown, a declared length
/// exceeds the remaining bytes, or bytes are left over after the input field.
pub open spec fn spec_decode_witness_data(b: Seq<u8>) -> Result<WitnessDataView, DecodeError> {
    if b.len() < 65 {
        Err(DecodeError::Truncated)
    } else if b.len() < 138 {
        Err(DecodeError::Truncated)
    } else if b[65] != KIND_CALL_CODE && b[65] != KIND_CREATE_CODE {
        Err(DecodeError::Malformed)
    } else {
        let code_len = u32_from_le(b.subrange(134, 138)) as int;
        if 138 + code_len > b.len() {
            Err(DecodeError::Malformed)
        } else if 138 + code_len + 4 > b.len() {
            Err(DecodeError::Truncated)
        } else {
            let input_len = u32_from_le(b.subrange(138 + code_len, 142 + code_len)) as int;
            if 142 + code_len + input_len != b.len() {
                Err(DecodeError::Malformed)
            } else {
                Ok(
                    WitnessDataView {
                        signature: b.subrange(0, 65),
                        program: ProgramView {
                            kind: if b[65] == KIND_CALL_CODE {
                                CallKind::Call
                            } else {
                                CallKind::Create
                            },
                            flags: u32_from_le(b.subrange(66, 70)),
                            depth: u32_from_le(b.subrange(70, 74)),
                            tx_origin: b.subrange(74, 94),
                            sender: b.subrange(94, 114),
                            destination: b.subrange(114, 134),
                            code: b.subrange(138, 138 + code_len),
                            input: b.subrange(142 + code_len, b.len() as int),
                        },
                    },
                )
            }
        }
    }
}

impl WitnessData {
    /// Wraps a program with an all-zero signature slot.
    pub fn new(program: Program) -> (r: WitnessData)
        ensures
            r@.program == program@,
            r@.signature == Seq::new(65, |i: int| 0u8),
            program@.well_formed() ==> r@.well_formed(),
    {
        WitnessData { signature: zeros(65), program }
    }

    /// Encodes the body: the 65 signature bytes, then the program fields.
    ///
    /// Bytes `[0, 65)` of the result equal the signature field exactly, and
    /// the rest depends on the program alone.
    pub fn program_data(&self) -> (r: Vec<u8>)
        requires
            self@.well_formed(),
        ensures
            r@ == spec_witness_data_bytes(self@),
            r@.subrange(0, 65) == self@.signature,
            r@.len() == 142 + self@.program.code.len() + self@.program.input.len(),
    {
        let mut out: Vec<u8> = Vec::new();
        append_range(&mut out, &self.signature, 0, self.signature.len());
        out.push(match self.program.kind {
            CallKind::Call => KIND_CALL_CODE,
            CallKind::Create => KIND_CREATE_CODE,
        });
        push_u32_le(&mut out, self.program.flags);
        push_u32_le(&mut out, self.program.depth);
        append_range(&mut out, &self.program.tx_origin.0, 0, self.program.tx_origin.0.len());
        append_range(&mut out, &self.program.sender, 0, self.program.sender.len());
        append_range(&mut out, &self.program.destination.0, 0, self.program.destination.0.len());
        push_u32_le(&mut out, self.program.code.len() as u32);
        append_range(&mut out, &self.program.code, 0, self.program.code.len());
        push_u32_le(&mut out, self.program.input.len() as u32);
        append_range(&mut out, &self.program.input, 0, self.program.input.len());
        proof {
            assert(self.signature@.subrange(0, 65) =~= self.signature@);
            assert(self.program.tx_origin.0@.subrange(0, 20) =~= self.program.tx_origin@);
            assert(self.program.sender@.subrange(0, 20) =~= self.program.sender@);
            assert(self.program.destination.0@.subrange(0, 20) =~= self.program.destination@);
            assert(self.program.code@.subrange(0, self.program.code@.len() as int)
                =~= self.program.code@);
            assert(self.program.input@.subrange(0, self.program.input@.len() as int)
                =~= self.program.input@);
            assert(out@ =~= spec_witness_data_bytes(self@));
            assert(out@.subrange(0, 65) =~= self@.signature);
        }
        out
    }

    /// Decodes a body produced by [`WitnessData::program_data`].
    ///
    /// The result is exactly what [`spec_decode_witness_data`] gives on the
    /// buffer, and a decoded value is always well formed.
    pub fn decode(b: &Vec<u8>) -> (r: Result<WitnessData, DecodeError>)
        ensures
            match r {
                Ok(w) => spec_decode_witness_data(b@) == Ok::<WitnessDataView, DecodeError>(w@)
                    && w@.well_formed(),
                Err(e) => spec_decode_witness_data(b@) == Err::<WitnessDataView, DecodeError>(e),
            },
    {
        let n = b.len();
        if n < 65 {
            return Err(DecodeError::Truncated);
        }
        if n < 138 {
            return Err(DecodeError::Truncated);
        }
        let kind_byte = b[65];
        let kind = if kind_byte == KIND_CALL_CODE {
            CallKind::Call
        } else if kind_byte == KIND_CREATE_CODE {
            CallKind::Create
        } else {
            return Err(DecodeError::Malformed);
        };
        let code_len32 = read_u32_le(b, 134);
        let code_len = code_len32 as usize;
        if code_len > n - 138 {
            return Err(DecodeError::Malformed);
        }
        if n - 138 - code_len < 4 {
            return Err(DecodeError::Truncated);
        }
        let input_len32 = read_u32_le(b, 138 + code_len);
        let input_len = input_len32 as usize;
        if input_len != n - 142 - code_len {
            return Err(DecodeError::Malformed);
        }
        let w = WitnessData {
            signature: copy_range(b, 0, 65),
            program: Program {
                kind,
                flags: read_u32_le(b, 66),
                depth: read_u32_le(b, 70),
                tx_origin: EoaAddress(copy_range(b, 74, 94)),
                sender: copy_range(b, 94, 114),
                destination: ContractAddress(copy_range(b, 114, 134)),
                code: copy_range(b, 138, 138 + code_len),
                input: copy_range(b, 142 + code_len, n),
            },
        };
        Ok(w)
    }
}

/// Every well-formed container decodes back from its own encoding: the codec
/// round-trips, so nothing is lost between construction and signing.
pub proof fn lemma_witness_data_round_trip(w: WitnessDataView)
    requires
        w.well_formed(),
    ensures
        spec_decode_witness_data(spec_witness_data_bytes(w)) == Ok::<
            WitnessDataView,
            DecodeError,
        >(w),
{
    let b = spec_witness_data_bytes(w);
    let p = w.program;
    let cl = p.code.len() as int;
    let il = p.input.len() as int;
    assert(b.len() == 142 + cl + il);
    lemma_u32_le_roundtrip(p.flags);
    lemma_u32_le_roundtrip(p.depth);
    lemma_u32_le_roundtrip(p.code.len() as u32);
    lemma_u32_le_roundtrip(p.input.len() as u32);
    assert(b[65] == kind_code(p.kind));
    assert(kind_code(p.kind) != KIND_CALL_CODE ==> kind_code(p.kind) == KIND_CREATE_CODE);
    assert(b.subrange(134, 138) =~= u32_le(p.code.len() as u32));
    assert(u32_from_le(b.subrange(134, 138)) as int == cl);
    assert(b.subrange(138 + cl, 142 + cl) =~= u32_le(p.input.len() as u32));
    assert(u32_from_le(b.subrange(138 + cl, 142 + cl)) as int == il);
    assert(b.subrange(0, 65) =~= w.signature);
    assert(b.subrange(66, 70) =~= u32_le(p.flags));
    assert(b.subrange(70, 74) =~= u32_le(p.depth));
    assert(b.subrange(74, 94) =~= p.tx_origin);
    assert(b.subrange(94, 114) =~= p.sender);
    assert(b.subrange(114, 134) =~= p.destination);
    assert(b.subrange(138, 138 + cl) =~= p.code);
    assert(b.subrange(142 + cl, b.len() as int) =~= p.input);
    let d = spec_decode_witness_data(b);
    assert(d is Ok);
    assert(d.unwrap().program =~= p);
    assert(d.unwrap() =~= w);
}

/// Two containers over the same program encode identically past the signature
/// slot: overwriting only the signature never changes bytes `[65, len)`.
pub proof fn lemma_signature_offset_stable(w1: WitnessDataView, w2: WitnessDataView)
    requires
        w1.well_formed(),
        w2.well_formed(),
        w1.program == w2.program,
    ensures
        spec_witness_data_bytes(w1).subrange(0, 65) == w1.signature,
        spec_witness_data_bytes(w2).subrange(0, 65) == w2.signature,
        spec_witness_data_bytes(w1).skip(65) == spec_witness_data_bytes(w2).skip(65),
{
    assert(spec_witness_data_bytes(w1).subrange(0, 65) =~= w1.signature);
    assert(spec_witness_data_bytes(w2).subrange(0, 65) =~= w2.signature);
    assert(spec_witness_data_bytes(w1).skip(65) =~= spec_program_bytes(w1.program));
    assert(spec_witness_data_bytes(w2).skip(65) =~= spec_program_bytes(w2.program));
}

} // verus!
