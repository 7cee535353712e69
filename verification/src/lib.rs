//! Topic key schema derivation and canonical key-hash encoding.
//!
//! Given a structured data type whose schema marks some fields as key
//! fields, this crate derives the minimal key-holder schema (recursively
//! resolving nested structured key fields), classifies it as fixed- or
//! variable-length, and serializes the key portion of an instance into the
//! canonical big-endian plain CDR encoding used for key hashes.

pub mod schema;
pub mod holder;
pub mod value;
pub mod encode;
pub mod descriptor;
pub mod laws;
