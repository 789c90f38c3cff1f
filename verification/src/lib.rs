//! Transaction-construction and co-signing core for an Ethereum-compatibility
//! layer on a UTXO-style chain.
//!
//! The crate provides:
//! - a fixed-layout binary codec for a call frame (`Program`) and its signed
//!   container (`WitnessData`), with the signature pinned at a fixed offset;
//! - a codec for the chain's generic witness envelope (one primary field and
//!   two optional auxiliary fields);
//! - the signing protocol that assembles the canonical unsigned message from a
//!   transaction's witnesses, signs its digest with a recoverable signature,
//!   and re-embeds the signature into the entrance witness.

pub mod bytesutil;
pub mod errors;
pub mod hexbytes;
pub mod address;
pub mod call_frame;
pub mod envelope;
pub mod crypto;
pub mod protocol;
