//! Trusted declarations for the outside byte-buffer and UUID crates.
//!
//! `bytes::Bytes` carries message payloads and binary values through the
//! engine; `uuid::Uuid` is one of the polymorphic AMQP values.  Both are
//! opaque here: what a buffer holds is named by [`bytes_content`], and every
//! contract about payloads goes through that name.

use vstd::prelude::*;

verus! {

#[verifier::external_type_specification]
#[verifier::external_body]
pub struct ExBytes(bytes::Bytes);

#[verifier::external_type_specification]
#[verifier::external_body]
pub struct ExUuid(uuid::Uuid);

/// The octets a `bytes::Bytes` buffer holds.
pub uninterp spec fn bytes_content(b: bytes::Bytes) -> Seq<u8>;

/// Relies on `Bytes::copy_from_slice`: the new buffer holds a copy of the
/// slice.
#[verifier::external_body]
pub fn bytes_copy_from_slice(data: &[u8]) -> (r: bytes::Bytes)
    ensures
        bytes_content(r) == data@,
{
    bytes::Bytes::copy_from_slice(data)
}

/// Relies on `<Bytes as AsRef<[u8]>>::as_ref`: the slice is the buffer's
/// contents.
#[verifier::external_body]
pub fn bytes_as_slice(b: &bytes::Bytes) -> (r: &[u8])
    ensures
        r@ == bytes_content(*b),
{
    b.as_ref()
}

/// Relies on `Bytes::len`: the number of octets held.
#[verifier::external_body]
pub fn bytes_len(b: &bytes::Bytes) -> (r: usize)
    ensures
        r == bytes_content(*b).len(),
{
    b.len()
}

/// Relies on `<Bytes as PartialEq>::eq`: buffers compare by their contents.
#[verifier::external_body]
pub fn bytes_eq(a: &bytes::Bytes, b: &bytes::Bytes) -> (r: bool)
    ensures
        r == (bytes_content(*a) == bytes_content(*b)),
{
    a == b
}

/// The sixteen octets of a UUID.
pub uninterp spec fn uuid_content(u: uuid::Uuid) -> Seq<u8>;

/// Relies on `Uuid::from_bytes`: the UUID holds exactly the given octets.
#[verifier::external_body]
pub fn uuid_from_bytes(data: [u8; 16]) -> (r: uuid::Uuid)
    ensures
        uuid_content(r) == data@,
{
    uuid::Uuid::from_bytes(data)
}

} // verus!
