//! Packet payloads are `bytes::Bytes` buffers; this module declares that type
//! to the verifier and gives the calls the library makes into it.

use vstd::prelude::*;
use bytes::Bytes;

verus! {

/// The `bytes::Bytes` buffer type.
#[verifier::external_type_specification]
#[verifier::external_body]
pub struct ExBytes(Bytes);

/// The bytes a `Bytes` buffer holds.
pub uninterp spec fn bytes_content(b: Bytes) -> Seq<u8>;

/// Calls `<Bytes as From<Vec<u8>>>::from`, which takes over the vector's
/// storage: the buffer holds exactly the vector's bytes.
#[verifier::external_body]
pub(crate) fn bytes_from_vec(v: Vec<u8>) -> (b: Bytes)
    ensures
        bytes_content(b) == v@,
{
    Bytes::from(v)
}

/// Calls `<Bytes as AsRef<[u8]>>::as_ref`: the slice shows the buffer's bytes.
#[verifier::external_body]
pub(crate) fn bytes_as_slice(b: &Bytes) -> (s: &[u8])
    ensures
        s@ == bytes_content(*b),
{
    b.as_ref()
}

} // verus!
