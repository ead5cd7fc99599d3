//! Fixed-capacity byte vectors of the heapless crate, as the library uses them.

use vstd::prelude::*;

verus! {

#[verifier::external_type_specification]
#[verifier::external_body]
#[verifier::reject_recursive_types(T)]
pub struct ExBoundedVec<T, const N: usize>(heapless::Vec<T, N>);

/// The bytes held by a bounded vector of reply capacity, in order.
pub uninterp spec fn reply_buf_items(v: heapless::Vec<u8, 64>) -> Seq<u8>;

/// Relies on heapless::Vec::new: a new vector is empty.
#[verifier::external_body]
pub(crate) fn reply_buf_new() -> (r: heapless::Vec<u8, 64>)
    ensures
        reply_buf_items(r) == Seq::<u8>::empty(),
{
    heapless::Vec::new()
}

/// Relies on heapless::Vec::push: below capacity the byte is appended and
/// `Ok` returned; at capacity the vector is left as it was and the byte
/// handed back.
#[verifier::external_body]
pub(crate) fn reply_buf_push(v: &mut heapless::Vec<u8, 64>, b: u8) -> (r: Result<(), u8>)
    ensures
        r is Ok <==> reply_buf_items(*old(v)).len() < 64,
        r is Ok ==> reply_buf_items(*final(v)) == reply_buf_items(*old(v)).push(b),
        r is Err ==> r->Err_0 == b && reply_buf_items(*final(v)) == reply_buf_items(*old(v)),
{
    v.push(b)
}

/// Relies on heapless::Vec::clear: the vector is left empty.
#[verifier::external_body]
pub(crate) fn reply_buf_clear(v: &mut heapless::Vec<u8, 64>)
    ensures
        reply_buf_items(*final(v)) == Seq::<u8>::empty(),
{
    v.clear()
}

/// Relies on heapless::Vec::as_slice: the slice holds the items in order.
#[verifier::external_body]
pub(crate) fn reply_buf_as_slice(v: &heapless::Vec<u8, 64>) -> (r: &[u8])
    ensures
        r@ == reply_buf_items(*v),
{
    v.as_slice()
}

/// The bytes held by a frame-sized bounded vector, in order.
pub uninterp spec fn frame_buf_items(v: heapless::Vec<u8, 256>) -> Seq<u8>;

/// Relies on heapless::Vec::new: a new vector is empty.
#[verifier::external_body]
pub(crate) fn frame_buf_new() -> (r: heapless::Vec<u8, 256>)
    ensures
        frame_buf_items(r) == Seq::<u8>::empty(),
{
    heapless::Vec::new()
}

/// Relies on heapless::Vec::push: below capacity the byte is appended and
/// `Ok` returned; at capacity the vector is left as it was and the byte
/// handed back.
#[verifier::external_body]
pub(crate) fn frame_buf_push(v: &mut heapless::Vec<u8, 256>, b: u8) -> (r: Result<(), u8>)
    ensures
        r is Ok <==> frame_buf_items(*old(v)).len() < 256,
        r is Ok ==> frame_buf_items(*final(v)) == frame_buf_items(*old(v)).push(b),
        r is Err ==> r->Err_0 == b && frame_buf_items(*final(v)) == frame_buf_items(*old(v)),
{
    v.push(b)
}

/// Relies on heapless::Vec::as_slice: the slice holds the items in order.
#[verifier::external_body]
pub(crate) fn frame_buf_as_slice(v: &heapless::Vec<u8, 256>) -> (r: &[u8])
    ensures
        r@ == frame_buf_items(*v),
{
    v.as_slice()
}

/// Relies on heapless::Vec::into_array: with exactly 16 items they come
/// back as an array in order; otherwise the vector comes back unchanged.
#[verifier::external_body]
pub(crate) fn frame_buf_into_array(v: heapless::Vec<u8, 256>) -> (r: Result<
    [u8; 16],
    heapless::Vec<u8, 256>,
>)
    ensures
        r is Ok <==> frame_buf_items(v).len() == 16,
        r is Ok ==> r->Ok_0@ == frame_buf_items(v),
        r is Err ==> frame_buf_items(r->Err_0) == frame_buf_items(v),
{
    v.into_array()
}

} // verus!
