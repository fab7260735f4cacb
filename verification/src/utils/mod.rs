//! Hashing, signatures, encodings and the binary codec.

pub mod crypto;
pub mod lists;
pub mod serialization;
