//! Classification of the reasons an exponent encoding can be rejected.

use vstd::prelude::*;

verus! {

/// Why a candidate public-exponent encoding was rejected.
///
/// Every rejection is terminal: malformed key material is never retried,
/// only classified and refused.
#[derive(Clone, Copy, Debug, PartialEq, Eq, Structural)]
pub enum RejectionKind {
    /// The encoding is longer than allowed, or the decoded value exceeds the
    /// absolute ceiling.
    TooLarge,
    /// The decoded value is zero or below the caller-supplied floor.
    TooSmall,
    /// The encoding is structurally wrong: empty input, a read past the end
    /// of input, or a leading zero byte.
    InvalidEncoding,
    /// The decoded value is structurally unusable as an RSA exponent: it is
    /// even.
    InvalidComponent,
}

} // verus!
