//! Trusted view of the byte cursor supplied by the `untrusted` crate.
//!
//! `untrusted::Input` wraps a byte slice and `untrusted::Reader` is a
//! forward-only cursor over it. The wrappers here state, over the two
//! uninterpreted content functions, what the crate's methods do; the decoder
//! is verified against these contracts.

use vstd::prelude::*;

verus! {

#[verifier::external_type_specification]
#[verifier::external_body]
pub struct ExInput<'a>(untrusted::Input<'a>);

#[verifier::external_type_specification]
#[verifier::external_body]
pub struct ExReader<'a>(untrusted::Reader<'a>);

/// The bytes an `untrusted::Input` wraps.
pub uninterp spec fn input_bytes(input: untrusted::Input) -> Seq<u8>;

/// The bytes a reader has not yet consumed, in the order it will yield them.
pub uninterp spec fn reader_rest(reader: untrusted::Reader) -> Seq<u8>;

/// Relies on `untrusted::Input::len`: the length of the wrapped slice.
#[verifier::external_body]
pub(crate) fn input_len(input: &untrusted::Input) -> (n: usize)
    ensures
        n == input_bytes(*input).len(),
{
    input.len()
}

/// Relies on `untrusted::Reader::new`: a fresh reader has consumed nothing,
/// so all of the input is still ahead of it.
#[verifier::external_body]
pub(crate) fn reader_new<'a>(input: untrusted::Input<'a>) -> (reader: untrusted::Reader<'a>)
    ensures
        reader_rest(reader) == input_bytes(input),
{
    untrusted::Reader::new(input)
}

/// Relies on `untrusted::Reader::peek`: true exactly when at least one byte
/// remains and the next byte equals `b`; the reader does not advance.
#[verifier::external_body]
pub(crate) fn reader_peek(reader: &untrusted::Reader, b: u8) -> (r: bool)
    ensures
        r == (reader_rest(*reader).len() > 0 && reader_rest(*reader)[0] == b),
{
    reader.peek(b)
}

/// Relies on `untrusted::Reader::read_byte`: consumes and returns the next
/// byte, or signals end of input (mapped to `None`) and leaves the reader
/// unchanged.
#[verifier::external_body]
pub(crate) fn reader_read_byte(reader: &mut untrusted::Reader) -> (r: Option<u8>)
    ensures
        reader_rest(*old(reader)).len() > 0 ==> r == Some(reader_rest(*old(reader))[0])
            && reader_rest(*final(reader)) == reader_rest(*old(reader)).skip(1),
        reader_rest(*old(reader)).len() == 0 ==> r is None && reader_rest(*final(reader))
            == reader_rest(*old(reader)),
{
    reader.read_byte().ok()
}

/// Relies on `untrusted::Reader::at_end`: true exactly when every byte of the
/// input has been consumed.
#[verifier::external_body]
pub(crate) fn reader_at_end(reader: &untrusted::Reader) -> (r: bool)
    ensures
        r == (reader_rest(*reader).len() == 0),
{
    reader.at_end()
}

} // verus!
