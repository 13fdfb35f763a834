//! Reference-counted file contents, shared between the filesystems and the loaders.

use vstd::prelude::*;
use arc_slice::ArcSlice;

verus! {

/// File contents held in an `arc_slice::ArcSlice<[u8]>`, so that handing a file
/// to several readers never copies it.
#[verifier::external_body]
pub struct SharedBytes {
    inner: ArcSlice<[u8]>,
}

/// The bytes that a `SharedBytes` holds.
pub uninterp spec fn shared_bytes(b: SharedBytes) -> Seq<u8>;

impl SharedBytes {
    /// Copies a byte slice into a new shared buffer (`ArcSlice::from`).
    /// Trusted: the buffer holds exactly the bytes of `data`.
    #[verifier::external_body]
    pub fn from_slice(data: &[u8]) -> (r: SharedBytes)
        ensures
            shared_bytes(r) == data@,
    {
        SharedBytes { inner: ArcSlice::from(data) }
    }

    /// Another handle on the same buffer (`ArcSlice::clone`).
    /// Trusted: the clone holds the same bytes.
    #[verifier::external_body]
    pub fn share(&self) -> (r: SharedBytes)
        ensures
            shared_bytes(r) == shared_bytes(*self),
    {
        SharedBytes { inner: self.inner.clone() }
    }

    /// Copies the bytes out (`<[u8]>::to_vec` on the slice the `ArcSlice` dereferences to).
    /// Trusted: the vector holds exactly the buffer's bytes.
    #[verifier::external_body]
    pub fn to_vec(&self) -> (r: Vec<u8>)
        ensures
            r@ == shared_bytes(*self),
    {
        self.inner.to_vec()
    }
}

} // verus!
