//! Byte-level proof codec: a compact binary format for proofs, keys and
//! witnesses, with its encoders and decoders proved against one
//! specification, and the input plumbing of the recursion layers.
pub mod error;
pub mod serialize;
pub mod primitives;
pub mod tuples;
pub mod maps;
pub mod field;
pub mod proof_types;
pub mod inputs;
pub mod witness;
pub mod recursion;
pub mod laws;
pub mod settings;
