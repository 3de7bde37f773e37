//! Byte strings, held as `bytes::Bytes`.

use bytes::Bytes;
use vstd::prelude::*;
use vstd::string::*;
use vstd::utf8::encode_utf8;

verus! {

/// `bytes::Bytes`, taken as it is: what it holds is spoken of through [`bytes_view`].
#[verifier::external_type_specification]
#[verifier::external_body]
pub struct ExBytes(bytes::Bytes);

/// The bytes that a byte string holds, in order.
pub uninterp spec fn bytes_view(b: Bytes) -> Seq<u8>;

/// The views of a list of byte strings.
pub open spec fn bytes_views(list: Seq<Bytes>) -> Seq<Seq<u8>> {
    list.map_values(|b: Bytes| bytes_view(b))
}

/// `Bytes::from` on a vector: the byte string holds the bytes of the vector.
#[verifier::external_body]
pub(crate) fn bytes_from_vec(v: Vec<u8>) -> (r: Bytes)
    ensures
        bytes_view(r) == v@,
{
    Bytes::from(v)
}

/// The bytes of a byte string as a vector, by `Bytes`'s `Deref` to a slice of its bytes.
#[verifier::external_body]
pub(crate) fn bytes_to_vec(b: &Bytes) -> (r: Vec<u8>)
    ensures
        r@ == bytes_view(*b),
{
    b.to_vec()
}

/// `Bytes::clone`: another handle on the same bytes.
#[verifier::external_body]
pub(crate) fn bytes_clone(b: &Bytes) -> (r: Bytes)
    ensures
        bytes_view(r) == bytes_view(*b),
{
    b.clone()
}

/// The byte string of the UTF-8 encoding of `s`.
pub fn bytes_from_str(s: &str) -> (r: Bytes)
    ensures
        bytes_view(r) == encode_utf8(s@),
{
    bytes_from_vec(s.as_bytes_vec())
}

/// The empty byte string.
pub fn empty_bytes() -> (r: Bytes)
    ensures
        bytes_view(r) == Seq::<u8>::empty(),
{
    bytes_from_vec(Vec::new())
}

} // verus!
