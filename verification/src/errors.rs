//! Error taxonomy of the codecs and the signing protocol.

use vstd::prelude::*;

verus! {

/// Failure of a byte-level decoder.
#[derive(Clone, Copy, Debug, PartialEq, Eq, Structural)]
pub enum DecodeError {
    /// The buffer ends before a fixed-width region is complete.
    Truncated,
    /// The buffer is structurally invalid: a declared length does not fit the
    /// remaining bytes, a field holds an unknown value, or bytes are left over.
    Malformed,
}

/// Failure of a signing run. Every failure aborts the whole run; the receipt
/// is never partially mutated.
#[derive(Clone, Copy, Debug, PartialEq, Eq, Structural)]
pub enum ProtocolError {
    /// The witness at this index could not be decoded as an envelope, or the
    /// entrance witness carries a payload too short to hold the length prefix
    /// and the signature.
    InvalidWitness(usize),
    /// No payload-bearing envelope stands at index 0.
    NoEntranceWitness,
    /// The signer rejected the digest (for example, invalid key material).
    SignFailed,
}

} // verus!
