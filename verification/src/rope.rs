//! The rope that holds a document's text, and what this library relies on of it.
//!
//! The rope is that of the `ropey` crate. Nothing here is proved of it: each
//! function below makes one call into the crate and states what the crate's
//! documentation says of that call, over the text that the rope holds. Lines are
//! counted as the crate counts them with its default features: a line ends with
//! LF, VT, FF, CR, NEL, LS or PS, and CR LF is one line break.
use vstd::prelude::*;

use crate::encoding::OffsetEncoding;
use crate::text::{breaks_before, line_count, line_start, scalar_of_unit, units_len};

verus! {

/// Makes `ropey::Rope` a type that contracts can speak of. Nothing is known of
/// what is inside a rope but what `rope_text` names.
#[verifier::external_type_specification]
#[verifier::external_body]
pub struct ExRope(ropey::Rope);

/// The text that a rope holds, as a sequence of Unicode scalar values.
pub uninterp spec fn rope_text(r: ropey::Rope) -> Seq<char>;

/// `Rope::from_str`: the rope holds exactly the scalar values of `text`.
#[verifier::external_body]
pub(crate) fn rope_from_str(text: &str) -> (r: ropey::Rope)
    ensures
        rope_text(r) == text@,
{
    ropey::Rope::from_str(text)
}

/// `Rope::len_chars`: the number of scalar values in the rope.
#[verifier::external_body]
pub(crate) fn rope_len_chars(r: &ropey::Rope) -> (n: usize)
    ensures
        n == rope_text(*r).len(),
{
    r.len_chars()
}

/// Brings to mind that a rope holds no more scalar values than a `usize` counts:
/// it reads the length and lets it go.
pub(crate) fn recall_length_fits(r: &ropey::Rope)
    ensures
        rope_text(*r).len() <= usize::MAX,
{
    let _ = rope_len_chars(r);
}

/// `Rope::len_lines`: one more than the number of line breaks in the rope.
#[verifier::external_body]
pub(crate) fn rope_len_lines(r: &ropey::Rope) -> (n: usize)
    ensures
        n == line_count(rope_text(*r)),
{
    r.len_lines()
}

/// `Rope::line_to_char`: the index of the first scalar value of a line; for the
/// line one past the last, the length of the text. It panics on a greater line.
#[verifier::external_body]
pub(crate) fn rope_line_to_char(r: &ropey::Rope, line: usize) -> (n: usize)
    requires
        line <= line_count(rope_text(*r)),
    ensures
        n == line_start(rope_text(*r), line as nat),
{
    r.line_to_char(line)
}

/// `Rope::char`: the scalar value at an index. It panics on an index that is not
/// below the length.
#[verifier::external_body]
pub(crate) fn rope_char(r: &ropey::Rope, idx: usize) -> (c: char)
    requires
        idx < rope_text(*r).len(),
    ensures
        c == rope_text(*r)[idx as int],
{
    r.char(idx)
}

/// `Rope::char_to_byte`: the number of UTF-8 bytes before the scalar value at an
/// index. It panics on an index past the length.
#[verifier::external_body]
pub(crate) fn rope_char_to_byte(r: &ropey::Rope, idx: usize) -> (n: usize)
    requires
        idx <= rope_text(*r).len(),
    ensures
        n == units_len(rope_text(*r).take(idx as int), OffsetEncoding::Utf8),
{
    r.char_to_byte(idx)
}

/// `Rope::byte_to_char`: the index of the scalar value to which a byte belongs, or
/// the length of the text for the offset one past the last byte. It panics on a
/// greater offset.
#[verifier::external_body]
pub(crate) fn rope_byte_to_char(r: &ropey::Rope, byte_idx: usize) -> (n: usize)
    requires
        byte_idx <= units_len(rope_text(*r), OffsetEncoding::Utf8),
    ensures
        n == scalar_of_unit(rope_text(*r), byte_idx as nat, OffsetEncoding::Utf8),
{
    r.byte_to_char(byte_idx)
}

/// `Rope::char_to_utf16_cu`: the number of UTF-16 code units before the scalar
/// value at an index. It panics on an index past the length.
#[verifier::external_body]
pub(crate) fn rope_char_to_utf16_cu(r: &ropey::Rope, idx: usize) -> (n: usize)
    requires
        idx <= rope_text(*r).len(),
    ensures
        n == units_len(rope_text(*r).take(idx as int), OffsetEncoding::Utf16),
{
    r.char_to_utf16_cu(idx)
}

/// `Rope::utf16_cu_to_char`: the index of the scalar value to which a UTF-16 code
/// unit belongs, or the length of the text for the offset one past the last code
/// unit. It panics on a greater offset.
#[verifier::external_body]
pub(crate) fn rope_utf16_cu_to_char(r: &ropey::Rope, cu_idx: usize) -> (n: usize)
    requires
        cu_idx <= units_len(rope_text(*r), OffsetEncoding::Utf16),
    ensures
        n == scalar_of_unit(rope_text(*r), cu_idx as nat, OffsetEncoding::Utf16),
{
    r.utf16_cu_to_char(cu_idx)
}

/// `Rope::remove`: the scalar values in `start..end` leave the rope. It panics
/// where `start > end` or `end` is past the length.
#[verifier::external_body]
pub(crate) fn rope_remove(r: &mut ropey::Rope, start: usize, end: usize)
    requires
        start <= end <= rope_text(*old(r)).len(),
    ensures
        rope_text(*final(r)) == rope_text(*old(r)).subrange(0, start as int) + rope_text(
            *old(r),
        ).subrange(end as int, rope_text(*old(r)).len() as int),
{
    r.remove(start..end)
}

/// `Rope::insert`: `text` enters the rope before the scalar value at `idx`. It
/// panics on an index past the length.
#[verifier::external_body]
pub(crate) fn rope_insert(r: &mut ropey::Rope, idx: usize, text: &str)
    requires
        idx <= rope_text(*old(r)).len(),
    ensures
        rope_text(*final(r)) == rope_text(*old(r)).subrange(0, idx as int) + text@ + rope_text(
            *old(r),
        ).subrange(idx as int, rope_text(*old(r)).len() as int),
{
    r.insert(idx, text)
}

/// `Rope::slice` and the conversion of the slice into a `String`: the scalar values
/// in `start..end`. The slice panics where `start > end` or `end` is past the
/// length.
#[verifier::external_body]
pub(crate) fn rope_slice_to_string(r: &ropey::Rope, start: usize, end: usize) -> (s: String)
    requires
        start <= end <= rope_text(*r).len(),
    ensures
        s@ == rope_text(*r).subrange(start as int, end as int),
{
    String::from(r.slice(start..end))
}

/// `Rope::clone`: a rope that holds the same text.
#[verifier::external_body]
pub(crate) fn rope_clone(r: &ropey::Rope) -> (c: ropey::Rope)
    ensures
        rope_text(c) == rope_text(*r),
{
    r.clone()
}

/// `Rope::char_to_line`: the index of the line of the scalar value at an index,
/// which is the number of line breaks that end before it; for the index one past
/// the last, the index of the last line. It panics on a greater index.
#[verifier::external_body]
pub(crate) fn rope_char_to_line(r: &ropey::Rope, idx: usize) -> (line: usize)
    requires
        idx <= rope_text(*r).len(),
    ensures
        line == breaks_before(rope_text(*r), idx as int),
{
    r.char_to_line(idx)
}

} // verus!
