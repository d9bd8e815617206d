//! The fixed-capacity buffers of a chunk: `arrayvec`'s `ArrayString` and `ArrayVec`, with
//! what the chunk needs of them.

use vstd::prelude::*;
use arrayvec::{ArrayString, ArrayVec};
use core::ops::Range;
use crate::segmentation::utf8_len;

verus! {

#[verifier::external_type_specification]
#[verifier::external_body]
pub struct ExArrayString<const CAP: usize>(ArrayString<CAP>);

#[verifier::external_type_specification]
#[verifier::external_body]
#[verifier::reject_recursive_types(T)]
pub struct ExArrayVec<T, const CAP: usize>(ArrayVec<T, CAP>);

/// The characters held by a chunk's string buffer.
pub uninterp spec fn text_buffer_chars(buffer: ArrayString<256>) -> Seq<char>;

/// The ranges held by a chunk's range buffer.
pub uninterp spec fn range_buffer_items(buffer: ArrayVec<Range<usize>, 256>) -> Seq<Range<usize>>;

/// The indices held by a chunk's index buffer.
pub uninterp spec fn index_buffer_items(buffer: ArrayVec<usize, 256>) -> Seq<usize>;

/// `ArrayString::new_const`: an empty buffer.
#[verifier::external_body]
pub(crate) fn text_buffer_new() -> (res: ArrayString<256>)
    ensures
        text_buffer_chars(res) == Seq::<char>::empty(),
{
    ArrayString::new_const()
}

/// `ArrayString::as_str`: the characters held.
#[verifier::external_body]
pub(crate) fn text_buffer_as_str(buffer: &ArrayString<256>) -> (res: &str)
    ensures
        res@ == text_buffer_chars(*buffer),
{
    buffer.as_str()
}

/// `ArrayString::len`: the number of bytes held.
#[verifier::external_body]
pub(crate) fn text_buffer_len(buffer: &ArrayString<256>) -> (res: usize)
    ensures
        res == utf8_len(text_buffer_chars(*buffer)),
{
    buffer.len()
}

/// `ArrayString::try_push_str`: appends `text` when its bytes fit in the 256 bytes of the
/// buffer, and otherwise leaves the buffer as it was and hands `text` back.
#[verifier::external_body]
pub(crate) fn text_buffer_try_push_str<'a>(buffer: &mut ArrayString<256>, text: &'a str) -> (res: Result<(), &'a str>)
    ensures
        utf8_len(text_buffer_chars(*old(buffer))) + utf8_len(text@) <= 256 ==> {
            &&& res is Ok
            &&& text_buffer_chars(*final(buffer)) == text_buffer_chars(*old(buffer)) + text@
        },
        utf8_len(text_buffer_chars(*old(buffer))) + utf8_len(text@) > 256 ==> {
            &&& res == Err::<(), &str>(text)
            &&& text_buffer_chars(*final(buffer)) == text_buffer_chars(*old(buffer))
        },
{
    match buffer.try_push_str(text) {
        Ok(()) => Ok(()),
        Err(error) => Err(error.element()),
    }
}

/// `ArrayString::clone`: a buffer holding the same characters.
#[verifier::external_body]
pub(crate) fn text_buffer_clone(buffer: &ArrayString<256>) -> (res: ArrayString<256>)
    ensures
        text_buffer_chars(res) == text_buffer_chars(*buffer),
{
    buffer.clone()
}

/// `ArrayVec::new_const`: an empty buffer.
#[verifier::external_body]
pub(crate) fn range_buffer_new() -> (res: ArrayVec<Range<usize>, 256>)
    ensures
        range_buffer_items(res) == Seq::<Range<usize>>::empty(),
{
    ArrayVec::new_const()
}

/// `ArrayVec::push`, which panics on a full buffer: appends `range`.
#[verifier::external_body]
pub(crate) fn range_buffer_push(buffer: &mut ArrayVec<Range<usize>, 256>, range: Range<usize>)
    requires
        range_buffer_items(*old(buffer)).len() < 256,
    ensures
        range_buffer_items(*final(buffer)) == range_buffer_items(*old(buffer)).push(range),
{
    buffer.push(range)
}

/// `ArrayVec::as_slice`: the ranges held.
#[verifier::external_body]
pub(crate) fn range_buffer_as_slice(buffer: &ArrayVec<Range<usize>, 256>) -> (res: &[Range<usize>])
    ensures
        res@ == range_buffer_items(*buffer),
{
    buffer.as_slice()
}

/// `ArrayVec::clone`: a buffer holding the same ranges.
#[verifier::external_body]
pub(crate) fn range_buffer_clone(buffer: &ArrayVec<Range<usize>, 256>) -> (res: ArrayVec<Range<usize>, 256>)
    ensures
        range_buffer_items(res) == range_buffer_items(*buffer),
{
    buffer.clone()
}

/// `ArrayVec::new_const`: an empty buffer.
#[verifier::external_body]
pub(crate) fn index_buffer_new() -> (res: ArrayVec<usize, 256>)
    ensures
        index_buffer_items(res) == Seq::<usize>::empty(),
{
    ArrayVec::new_const()
}

/// `ArrayVec::push`, which panics on a full buffer: appends `index`.
#[verifier::external_body]
pub(crate) fn index_buffer_push(buffer: &mut ArrayVec<usize, 256>, index: usize)
    requires
        index_buffer_items(*old(buffer)).len() < 256,
    ensures
        index_buffer_items(*final(buffer)) == index_buffer_items(*old(buffer)).push(index),
{
    buffer.push(index)
}

/// `ArrayVec::as_slice`: the indices held.
#[verifier::external_body]
pub(crate) fn index_buffer_as_slice(buffer: &ArrayVec<usize, 256>) -> (res: &[usize])
    ensures
        res@ == index_buffer_items(*buffer),
{
    buffer.as_slice()
}

/// `ArrayVec::clone`: a buffer holding the same indices.
#[verifier::external_body]
pub(crate) fn index_buffer_clone(buffer: &ArrayVec<usize, 256>) -> (res: ArrayVec<usize, 256>)
    ensures
        index_buffer_items(res) == index_buffer_items(*buffer),
{
    buffer.clone()
}

} // verus!
