//! Chunks of stream data, held in reference-counted buffers.

use bytes::Bytes;
use vstd::prelude::*;

verus! {

#[verifier::external_type_specification]
#[verifier::external_body]
pub struct ExBytes(Bytes);

/// The bytes that a `bytes::Bytes` holds.
pub uninterp spec fn held(chunk: Bytes) -> Seq<u8>;

/// `Bytes::len` gives the number of bytes held.
pub assume_specification[ Bytes::len ](b: &Bytes) -> (n: usize)
    ensures
        n == held(*b).len(),
;

/// `Bytes::is_empty` says whether no bytes are held.
pub assume_specification[ Bytes::is_empty ](b: &Bytes) -> (r: bool)
    ensures
        r == (held(*b).len() == 0),
;

/// `Bytes::clone` gives a handle to the same bytes.
pub assume_specification[ <Bytes as Clone>::clone ](b: &Bytes) -> (r: Bytes)
    ensures
        held(r) == held(*b),
;

/// `Bytes::slice`, from a position to the end, gives the bytes from there on.
#[verifier::external_body]
pub(crate) fn tail_from(chunk: &Bytes, from: usize) -> (r: Bytes)
    requires
        from <= held(*chunk).len(),
    ensures
        held(r) == held(*chunk).skip(from as int),
{
    chunk.slice(from..)
}

/// `Bytes::from`, of a vector, takes the vector's bytes over.
#[verifier::external_body]
pub(crate) fn to_chunk(bytes: Vec<u8>) -> (r: Bytes)
    ensures
        held(r) == bytes@,
{
    Bytes::from(bytes)
}

} // verus!
