//! Parsing and validation of the RSA public exponent `e` from an untrusted
//! big-endian byte encoding.

pub mod cursor;
pub mod encoding;
pub mod error;
pub mod exponent;
