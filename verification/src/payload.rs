//! Payloads as the surrounding service holds them: `bytes::Bytes`.
//!
//! Verus does not look inside a `Bytes`. What the functions below say of one
//! is taken on trust from the `bytes` crate.

use vstd::prelude::*;

verus! {

/// Makes `bytes::Bytes` known to the verifier, as a type without fields.
#[verifier::external_type_specification]
#[verifier::external_body]
pub struct ExBytes(bytes::Bytes);

/// The bytes that a `Bytes` holds, in order.
pub uninterp spec fn bytes_seq(b: bytes::Bytes) -> Seq<u8>;

/// The text that `Bytes` prints for these bytes with `{:?}`.
pub uninterp spec fn bytes_debug_text(bytes: Seq<u8>) -> Seq<char>;

/// Calls `Bytes::from(Vec<u8>)`, which takes over the vector's buffer: the
/// result is trusted to hold the vector's bytes, unchanged and in order.
#[verifier::external_body]
pub(crate) fn bytes_from_vec(v: Vec<u8>) -> (b: bytes::Bytes)
    ensures
        bytes_seq(b) == v@,
{
    bytes::Bytes::from(v)
}

/// Calls `Bytes::as_ref`, the `AsRef<[u8]>` of `Bytes`: the slice is trusted
/// to be the bytes that the `Bytes` holds.
#[verifier::external_body]
pub(crate) fn bytes_as_slice(b: &bytes::Bytes) -> (s: &[u8])
    ensures
        s@ == bytes_seq(*b),
{
    b.as_ref()
}

/// Formats a `Bytes` with `{:?}`, which calls the `Debug` of `Bytes`: the
/// text is trusted to depend on the bytes alone.
#[verifier::external_body]
pub(crate) fn bytes_debug(b: &bytes::Bytes) -> (s: String)
    ensures
        s@ == bytes_debug_text(bytes_seq(*b)),
{
    format!("{:?}", b)
}

} // verus!
