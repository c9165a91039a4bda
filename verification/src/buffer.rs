//! The byte vector that backs every channel: `minivec::MiniVec<u8>`, a vector
//! that is one pointer wide. The vector itself is not verified; this module
//! states what the rest of the crate relies on.

use vstd::prelude::*;

verus! {

/// `minivec::MiniVec`: nothing is known of its inside; `channel_bytes` says
/// what a vector of bytes holds.
#[verifier::external_type_specification]
#[verifier::external_body]
#[verifier::reject_recursive_types(T)]
pub struct ExMiniVec<T>(minivec::MiniVec<T>);

/// The bytes a channel vector holds, first to last.
pub uninterp spec fn channel_bytes(v: minivec::MiniVec<u8>) -> Seq<u8>;

/// `MiniVec::new`: a vector that holds nothing.
#[verifier::external_body]
pub(crate) fn channel_new() -> (v: minivec::MiniVec<u8>)
    ensures
        channel_bytes(v) == Seq::<u8>::empty(),
{
    minivec::MiniVec::new()
}

/// `MiniVec::push`: the value is appended behind the bytes already held,
/// which stay as they were.
#[verifier::external_body]
pub(crate) fn channel_push(v: &mut minivec::MiniVec<u8>, value: u8)
    ensures
        channel_bytes(*final(v)) == channel_bytes(*old(v)).push(value),
{
    v.push(value);
}

/// `MiniVec::as_slice`: a borrowed slice of exactly the bytes held.
#[verifier::external_body]
pub(crate) fn channel_slice(v: &minivec::MiniVec<u8>) -> (s: &[u8])
    ensures
        s@ == channel_bytes(*v),
{
    v.as_slice()
}

} // verus!
