//! Big-endian integer encodings: the value a byte string denotes, the
//! minimal (no leading zero) encoding of a value, and how the two relate.

use vstd::arithmetic::div_mod::{
    lemma_basic_div, lemma_div_decreases, lemma_fundamental_div_mod, lemma_small_mod,
};
use vstd::prelude::*;

verus! {

/// The unsigned integer a big-endian byte string denotes.
pub open spec fn be_value(bytes: Seq<u8>) -> nat
    decreases bytes.len(),
{
    if bytes.len() == 0 {
        0
    } else {
        (be_value(bytes.drop_last()) * 256 + bytes.last()) as nat
    }
}

/// 256 raised to `k`: the number of byte strings of length `k`.
pub open spec fn pow256(k: nat) -> nat
    decreases k,
{
    if k == 0 {
        1
    } else {
        256 * pow256((k - 1) as nat)
    }
}

/// The minimal big-endian encoding of `v`: no leading zero byte, so zero
/// encodes to the empty string.
pub open spec fn min_be_bytes(v: nat) -> Seq<u8>
    decreases v,
    when v >= 0 via min_be_bytes_decreases
{
    if v == 0 {
        Seq::empty()
    } else {
        min_be_bytes(v / 256).push((v % 256) as u8)
    }
}

#[via_fn]
proof fn min_be_bytes_decreases(v: nat) {
    if v > 0 {
        lemma_div_decreases(v as int, 256);
    }
}

/// The powers of 256 up to the longest encoding this crate handles.
pub proof fn lemma_pow256_small()
    ensures
        pow256(0) == 1,
        pow256(1) == 0x100,
        pow256(2) == 0x1_0000,
        pow256(3) == 0x100_0000,
        pow256(4) == 0x1_0000_0000,
        pow256(5) == 0x100_0000_0000,
{
    assert(pow256(0) == 1);
    assert(pow256(1) == 0x100);
    assert(pow256(2) == 0x1_0000);
    assert(pow256(3) == 0x100_0000);
    assert(pow256(4) == 0x1_0000_0000);
    assert(pow256(5) == 0x100_0000_0000);
}

/// A byte string of length `k` denotes a value below 256^k.
pub proof fn lemma_be_value_bound(bytes: Seq<u8>)
    ensures
        be_value(bytes) < pow256(bytes.len()),
    decreases bytes.len(),
{
    if bytes.len() == 0 {
    } else {
        lemma_be_value_bound(bytes.drop_last());
        let prefix = be_value(bytes.drop_last());
        let p = pow256((bytes.len() - 1) as nat);
        assert(prefix * 256 + 255 < p * 256) by (nonlinear_arith)
            requires
                prefix < p,
        ;
        assert(pow256(bytes.len()) == 256 * p);
    }
}

/// Decoding undoes the minimal encoding: the minimal encoding of `v`
/// denotes `v`.
pub proof fn lemma_min_be_bytes_value(v: nat)
    ensures
        be_value(min_be_bytes(v)) == v,
    decreases v,
{
    if v == 0 {
    } else {
        lemma_div_decreases(v as int, 256);
        lemma_min_be_bytes_value(v / 256);
        let s = min_be_bytes(v / 256);
        let b = (v % 256) as u8;
        assert(s.push(b).drop_last() =~= s);
        assert(s.push(b).last() == b);
        lemma_fundamental_div_mod(v as int, 256);
    }
}

/// The minimal encoding of a positive value is nonempty and carries no
/// leading zero byte.
pub proof fn lemma_min_be_bytes_no_leading_zero(v: nat)
    requires
        v > 0,
    ensures
        min_be_bytes(v).len() > 0,
        min_be_bytes(v)[0] != 0,
    decreases v,
{
    if v < 256 {
        lemma_basic_div(v as int, 256);
        lemma_small_mod(v, 256);
        assert(min_be_bytes(0) == Seq::<u8>::empty());
        assert(min_be_bytes(v)[0] == (v % 256) as u8);
    } else {
        lemma_fundamental_div_mod(v as int, 256);
        lemma_div_decreases(v as int, 256);
        lemma_min_be_bytes_no_leading_zero(v / 256);
        assert(min_be_bytes(v)[0] == min_be_bytes(v / 256)[0]);
    }
}

/// A value below 256^k has a minimal encoding of at most `k` bytes.
pub proof fn lemma_min_be_bytes_len(v: nat, k: nat)
    requires
        v < pow256(k),
    ensures
        min_be_bytes(v).len() <= k,
    decreases k,
{
    if v == 0 {
    } else {
        if k == 0 {
            assert(pow256(0) == 1);
        }
        lemma_fundamental_div_mod(v as int, 256);
        let q = v / 256;
        let p = pow256((k - 1) as nat);
        assert(pow256(k) == 256 * p);
        if q >= p {
            assert(256 * q >= 256 * p) by (nonlinear_arith)
                requires
                    q >= p,
            ;
        }
        lemma_min_be_bytes_len(q, (k - 1) as nat);
    }
}

} // verus!
