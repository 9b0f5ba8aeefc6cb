//! Trusted interface to the `bytes` crate's `Bytes` container, in which
//! verification requests carry deployed and creation bytecode.

use vstd::prelude::*;

verus! {

#[verifier::external_type_specification]
#[verifier::external_body]
pub struct ExBytes(bytes::Bytes);

/// The byte sequence a `bytes::Bytes` value holds.
pub uninterp spec fn bytes_model(b: bytes::Bytes) -> Seq<u8>;

/// Relies on `Bytes` dereferencing to the slice of bytes it holds, and on
/// `[u8]::to_vec` copying that slice.
#[verifier::external_body]
pub fn bytes_to_vec(b: &bytes::Bytes) -> (v: Vec<u8>)
    ensures
        v@ == bytes_model(*b),
{
    b.as_ref().to_vec()
}

} // verus!
