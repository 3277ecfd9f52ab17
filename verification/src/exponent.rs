//! The validated RSA public exponent `e`, and the decoder that is the only
//! way to obtain one from untrusted bytes.

use crate::cursor::{
    input_bytes, input_len, reader_at_end, reader_new, reader_peek, reader_read_byte, reader_rest,
};
use crate::encoding::{
    be_value, lemma_be_value_bound, lemma_min_be_bytes_len, lemma_min_be_bytes_no_leading_zero,
    lemma_min_be_bytes_value, lemma_pow256_small, min_be_bytes,
};
use crate::error::RejectionKind;
use vstd::arithmetic::div_mod::lemma_div_decreases;
use vstd::prelude::*;

verus! {

/// The absolute ceiling for a public exponent: 2^33 - 1. The bound keeps a
/// later exponentiation-by-squaring cheap enough to rule out resource
/// exhaustion through an absurdly large exponent, while staying above every
/// exponent in practical use.
pub const MAX_VALUE: u64 = 0x1_FFFF_FFFF;

/// The values a validated exponent may hold: nonzero, odd, and within
/// `[3, MAX_VALUE]`.
pub open spec fn valid_value(v: u64) -> bool {
    &&& v != 0
    &&& v % 2 == 1
    &&& 3 <= v
    &&& v <= MAX_VALUE
}

/// What decoding a big-endian exponent encoding yields under the floor
/// `min`: the decoded value on success, otherwise the first rejection in
/// the order the checks are made (length, leading zero byte, zero value,
/// floor, parity, ceiling).
pub open spec fn decode_spec(bytes: Seq<u8>, min: u64) -> Result<u64, RejectionKind> {
    if bytes.len() > 5 {
        Err(RejectionKind::TooLarge)
    } else if bytes.len() == 0 {
        Err(RejectionKind::InvalidEncoding)
    } else if bytes[0] == 0 {
        Err(RejectionKind::InvalidEncoding)
    } else if be_value(bytes) == 0 {
        Err(RejectionKind::TooSmall)
    } else if be_value(bytes) < min {
        Err(RejectionKind::TooSmall)
    } else if be_value(bytes) % 2 == 0 {
        Err(RejectionKind::InvalidComponent)
    } else if be_value(bytes) > MAX_VALUE {
        Err(RejectionKind::TooLarge)
    } else {
        Ok(be_value(bytes) as u64)
    }
}

/// The exponent `e` of an RSA public key.
///
/// A value of this type exists only through [`Exponent::from_be_bytes`] or
/// one of the named constants, so every live value is nonzero, odd, and
/// within `[3, MAX_VALUE]`.
#[derive(Clone, Copy, Debug)]
pub struct Exponent(u64);

impl View for Exponent {
    type V = u64;

    closed spec fn view(&self) -> u64 {
        self.0
    }
}

impl Exponent {
    #[verifier::type_invariant]
    spec fn inv(self) -> bool {
        valid_value(self.0)
    }

    /// The absolute permissive floor: 3, the smallest odd integer above 1.
    pub fn three() -> (r: Self)
        ensures
            r@ == 3,
    {
        Exponent(3)
    }

    /// The standards-mandated floor for strict contexts: 65537.
    pub fn f4() -> (r: Self)
        ensures
            r@ == 65537,
    {
        Exponent(65537)
    }

    /// The largest accepted exponent: 2^33 - 1.
    pub fn max() -> (r: Self)
        ensures
            r@ == MAX_VALUE,
    {
        Exponent(MAX_VALUE)
    }

    /// The numeric value of the exponent. Every live exponent is nonzero,
    /// odd, and within `[3, MAX_VALUE]`, so the value returned is too.
    pub fn value(&self) -> (r: u64)
        ensures
            r == self@,
            valid_value(r),
    {
        proof {
            use_type_invariant(&*self);
        }
        self.0
    }

    /// Decodes and validates a public exponent from its big-endian encoding.
    ///
    /// The encoding must be at most five bytes, must not start with a zero
    /// byte, and must denote an odd value within `[min_value, MAX_VALUE]`;
    /// any other input is rejected with the kind `decode_spec` gives it.
    pub fn from_be_bytes(input: untrusted::Input<'_>, min_value: Exponent) -> (r: Result<
        Exponent,
        RejectionKind,
    >)
        ensures
            ({
                let expected = decode_spec(input_bytes(input), min_value@);
                match r {
                    Ok(e) => expected == Ok::<u64, RejectionKind>(e@),
                    Err(k) => expected == Err::<u64, RejectionKind>(k),
                }
            }),
    {
        let ghost bytes = input_bytes(input);
        if input_len(&input) > 5 {
            return Err(RejectionKind::TooLarge);
        }
        let mut reader = reader_new(input);
        if reader_peek(&reader, 0) {
            return Err(RejectionKind::InvalidEncoding);
        }
        let mut value: u64 = 0;
        let ghost mut j: int = 0;
        proof {
            assert(bytes.skip(0) =~= bytes);
            assert(bytes.take(0) =~= Seq::<u8>::empty());
        }
        loop
            invariant
                bytes == input_bytes(input),
                bytes.len() <= 5,
                0 <= j <= bytes.len(),
                j < bytes.len() || bytes.len() == 0,
                reader_rest(reader) == bytes.skip(j),
                value == be_value(bytes.take(j)),
                bytes.len() > 0 ==> bytes[0] != 0,
            decreases bytes.len() - j,
        {
            let next = reader_read_byte(&mut reader);
            match next {
                None => {
                    // Unreachable for nonempty input: the loop leaves as soon
                    // as the reader is at the end.
                    return Err(RejectionKind::InvalidEncoding);
                },
                Some(byte) => {
                    proof {
                        assert(bytes.skip(j)[0] == bytes[j]);
                        lemma_be_value_bound(bytes.take(j));
                        assert(bytes.take(j).len() == j);
                        lemma_pow256_small();
                    }
                    value = value * 256 + (byte as u64);
                    proof {
                        assert(bytes.take(j + 1).drop_last() =~= bytes.take(j));
                        assert(bytes.take(j + 1).last() == bytes[j]);
                        assert(bytes.skip(j).skip(1) =~= bytes.skip(j + 1));
                        j = j + 1;
                    }
                    if reader_at_end(&reader) {
                        proof {
                            assert(bytes.take(j) =~= bytes);
                        }
                        if value == 0 {
                            return Err(RejectionKind::TooSmall);
                        }
                        if value < min_value.0 {
                            return Err(RejectionKind::TooSmall);
                        }
                        if value % 2 == 0 {
                            return Err(RejectionKind::InvalidComponent);
                        }
                        if value > MAX_VALUE {
                            return Err(RejectionKind::TooLarge);
                        }
                        proof {
                            use_type_invariant(min_value);
                        }
                        return Ok(Exponent(value));
                    }
                },
            }
        }
    }

    /// The minimal big-endian encoding of this exponent: the shortest byte
    /// string that `from_be_bytes` decodes back to it.
    pub fn to_be_bytes(&self) -> (r: Vec<u8>)
        ensures
            r@ == min_be_bytes(self@ as nat),
    {
        proof {
            use_type_invariant(*self);
        }
        min_be_vec(self.0)
    }
}

/// Any encoding longer than five bytes is rejected as too large, whatever
/// its content and whatever the floor.
pub proof fn lemma_decode_rejects_overlong(bytes: Seq<u8>, min: u64)
    requires
        bytes.len() > 5,
    ensures
        decode_spec(bytes, min) == Err::<u64, RejectionKind>(RejectionKind::TooLarge),
{
}

/// Any nonempty encoding within the five-byte cap whose first byte is zero
/// is rejected as an invalid encoding. (A longer one falls under the length
/// check first and is rejected as too large.)
pub proof fn lemma_decode_rejects_leading_zero(bytes: Seq<u8>, min: u64)
    requires
        0 < bytes.len() <= 5,
        bytes[0] == 0,
    ensures
        decode_spec(bytes, min) == Err::<u64, RejectionKind>(RejectionKind::InvalidEncoding),
{
}

/// Round trip: the minimal big-endian encoding of any valid exponent value
/// decodes, under any floor at or below it, back to exactly that value.
pub proof fn lemma_decode_round_trip(v: u64, min: u64)
    requires
        valid_value(v),
        min <= v,
    ensures
        decode_spec(min_be_bytes(v as nat), min) == Ok::<u64, RejectionKind>(v),
{
    lemma_min_be_bytes_value(v as nat);
    lemma_min_be_bytes_no_leading_zero(v as nat);
    lemma_pow256_small();
    lemma_min_be_bytes_len(v as nat, 5);
}

/// Monotonicity: a decode that succeeds under a floor also succeeds under
/// any smaller floor, with the same value.
pub proof fn lemma_decode_monotonic(bytes: Seq<u8>, m1: u64, m2: u64)
    requires
        decode_spec(bytes, m1) is Ok,
        m2 <= m1,
    ensures
        decode_spec(bytes, m2) == decode_spec(bytes, m1),
{
}

/// The three named constant values are each odd and within `[3, MAX_VALUE]`.
pub proof fn lemma_constants_valid()
    ensures
        valid_value(3),
        valid_value(65537),
        valid_value(MAX_VALUE),
{
}

/// Builds the minimal big-endian encoding of `v`, low bytes produced by
/// recursion on `v / 256` exactly as `min_be_bytes` is defined.
fn min_be_vec(v: u64) -> (r: Vec<u8>)
    ensures
        r@ == min_be_bytes(v as nat),
    decreases v,
{
    if v == 0 {
        let r: Vec<u8> = Vec::new();
        proof {
            assert(r@ =~= min_be_bytes(0));
        }
        r
    } else {
        proof {
            lemma_div_decreases(v as int, 256);
        }
        let mut r = min_be_vec(v / 256);
        r.push((v % 256) as u8);
        proof {
            assert(r@ =~= min_be_bytes(v as nat));
        }
        r
    }
}

} // verus!
