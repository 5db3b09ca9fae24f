//! Fixed-capacity byte vectors, and the names for the bytes that they hold.
use vstd::prelude::*;

verus! {

/// The most bytes that one debug message carries. A frame is never split over messages.
pub const MAX_DEBUG_FRAME_SIZE: usize = 1024;

/// The most bytes that the staging buffer holds.
pub const STAGING_CAPACITY: usize = 16384;

/// `heapless::Vec`, of which the contracts see the bytes that the names below give.
#[verifier::external_type_specification]
#[verifier::external_body]
#[verifier::reject_recursive_types(T)]
pub struct ExHeaplessVec<T, const N: usize>(heapless::Vec<T, N>);

/// The bytes in the vector of a debug message, first to last.
pub uninterp spec fn frame_bytes(data: heapless::Vec<u8, MAX_DEBUG_FRAME_SIZE>) -> Seq<u8>;

/// The bytes in a staging vector, first to last.
pub uninterp spec fn staging_bytes(data: heapless::Vec<u8, STAGING_CAPACITY>) -> Seq<u8>;

/// `heapless::Vec::new` for the vector of a message: it holds nothing.
#[verifier::external_body]
pub(crate) fn frame_new() -> (data: heapless::Vec<u8, MAX_DEBUG_FRAME_SIZE>)
    ensures
        frame_bytes(data) == Seq::<u8>::empty(),
{
    heapless::Vec::new()
}

/// `heapless::Vec::extend_from_slice` for the vector of a message: the bytes go behind those
/// that are there when all of them fit, and otherwise nothing changes. The result says which.
#[verifier::external_body]
pub(crate) fn frame_extend_from_slice(
    data: &mut heapless::Vec<u8, MAX_DEBUG_FRAME_SIZE>,
    other: &[u8],
) -> (fitted: bool)
    ensures
        fitted <==> frame_bytes(*old(data)).len() + other@.len() <= MAX_DEBUG_FRAME_SIZE,
        fitted ==> frame_bytes(*final(data)) == frame_bytes(*old(data)) + other@,
        !fitted ==> frame_bytes(*final(data)) == frame_bytes(*old(data)),
{
    data.extend_from_slice(other).is_ok()
}

/// `heapless::Vec::as_slice` for the vector of a message: its bytes, of which there are never
/// more than its capacity.
#[verifier::external_body]
pub(crate) fn frame_as_slice(data: &heapless::Vec<u8, MAX_DEBUG_FRAME_SIZE>) -> (bytes: &[u8])
    ensures
        bytes@ == frame_bytes(*data),
        bytes@.len() <= MAX_DEBUG_FRAME_SIZE,
{
    data.as_slice()
}

/// `Clone::clone` of `heapless::Vec` for the vector of a message: the copy holds the same bytes.
#[verifier::external_body]
pub(crate) fn frame_clone(
    data: &heapless::Vec<u8, MAX_DEBUG_FRAME_SIZE>,
) -> (copy: heapless::Vec<u8, MAX_DEBUG_FRAME_SIZE>)
    ensures
        frame_bytes(copy) == frame_bytes(*data),
{
    data.clone()
}

/// `heapless::Vec::new` for the staging vector: it holds nothing.
#[verifier::external_body]
pub(crate) fn staging_new() -> (data: heapless::Vec<u8, STAGING_CAPACITY>)
    ensures
        staging_bytes(data) == Seq::<u8>::empty(),
{
    heapless::Vec::new()
}

/// `heapless::Vec::extend_from_slice` for the staging vector: the bytes go behind those that
/// are there when all of them fit, and otherwise nothing changes. The result says which.
#[verifier::external_body]
pub(crate) fn staging_extend_from_slice(
    data: &mut heapless::Vec<u8, STAGING_CAPACITY>,
    other: &[u8],
) -> (fitted: bool)
    ensures
        fitted <==> staging_bytes(*old(data)).len() + other@.len() <= STAGING_CAPACITY,
        fitted ==> staging_bytes(*final(data)) == staging_bytes(*old(data)) + other@,
        !fitted ==> staging_bytes(*final(data)) == staging_bytes(*old(data)),
{
    data.extend_from_slice(other).is_ok()
}

/// `heapless::Vec::clear` for the staging vector: nothing is left in it.
#[verifier::external_body]
pub(crate) fn staging_clear(data: &mut heapless::Vec<u8, STAGING_CAPACITY>)
    ensures
        staging_bytes(*final(data)) == Seq::<u8>::empty(),
{
    data.clear()
}

/// The length of a `heapless::Vec` for the staging vector: how many bytes it holds, which is
/// never more than its capacity.
#[verifier::external_body]
pub(crate) fn staging_len(data: &heapless::Vec<u8, STAGING_CAPACITY>) -> (len: usize)
    ensures
        len == staging_bytes(*data).len(),
        len <= STAGING_CAPACITY,
{
    data.len()
}

/// `heapless::Vec::capacity` for the staging vector: the capacity in its type.
#[verifier::external_body]
pub(crate) fn staging_capacity(data: &heapless::Vec<u8, STAGING_CAPACITY>) -> (capacity: usize)
    ensures
        capacity == STAGING_CAPACITY,
{
    data.capacity()
}

} // verus!
