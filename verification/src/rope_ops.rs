//! Trusted boundary to `ropey::Rope`, the rope that stores document content.
//!
//! The crate is built with none of ropey's optional features, so exactly the
//! byte `0x0A` (`'\n'`) separates lines. Each wrapper states, over
//! [`rope_text`] and the measures of [`crate::text_model`], what the ropey
//! documentation promises of the one call its body makes.

use vstd::prelude::*;

use crate::text_model::byte_floor_at;
use crate::text_model::byte_of;
use crate::text_model::cu_floor_at;
use crate::text_model::cu_of;
use crate::text_model::is_line_start;
use crate::text_model::lines_of;
use crate::text_model::newlines;
use crate::text_model::text_bytes;
use crate::text_model::text_cus;

verus! {

#[verifier::external_type_specification]
#[verifier::external_body]
pub struct ExRope(ropey::Rope);

/// The text a rope holds, as a sequence of Unicode scalar values.
pub uninterp spec fn rope_text(rope: ropey::Rope) -> Seq<char>;

/// Relies on `ropey::Rope::from_str`: builds a rope holding exactly `text`.
#[verifier::external_body]
pub(crate) fn rope_from_str(text: &str) -> (r: ropey::Rope)
    ensures
        rope_text(r) == text@,
{
    ropey::Rope::from_str(text)
}

/// Relies on ropey's `impl From<&Rope> for String`: writes out the whole text.
#[verifier::external_body]
pub(crate) fn rope_to_string(rope: &ropey::Rope) -> (r: String)
    ensures
        r@ == rope_text(*rope),
{
    String::from(rope)
}

/// Relies on `ropey::Rope::clone`: a clone holds the same text.
#[verifier::external_body]
pub(crate) fn rope_clone(rope: &ropey::Rope) -> (r: ropey::Rope)
    ensures
        rope_text(r) == rope_text(*rope),
{
    rope.clone()
}

/// Relies on `ropey::Rope::len_chars`: the total number of scalar values.
#[verifier::external_body]
pub(crate) fn rope_len_chars(rope: &ropey::Rope) -> (r: usize)
    ensures
        r as nat == rope_text(*rope).len(),
{
    rope.len_chars()
}

/// Relies on `ropey::Rope::len_lines`: one more than the number of line
/// breaks.
#[verifier::external_body]
pub(crate) fn rope_len_lines(rope: &ropey::Rope) -> (r: usize)
    ensures
        r as nat == newlines(rope_text(*rope)) + 1,
{
    rope.len_lines()
}

/// Relies on `ropey::Rope::line_to_char`: the index of the first scalar of
/// the given line.
#[verifier::external_body]
pub(crate) fn rope_line_to_char(rope: &ropey::Rope, line: usize) -> (r: usize)
    requires
        line as nat <= newlines(rope_text(*rope)),
    ensures
        is_line_start(rope_text(*rope), line as nat, r as nat),
{
    rope.line_to_char(line)
}

/// Relies on `ropey::Rope::char_to_line`: the number of line breaks before
/// the given scalar.
#[verifier::external_body]
pub(crate) fn rope_char_to_line(rope: &ropey::Rope, char_idx: usize) -> (r: usize)
    requires
        char_idx as nat <= rope_text(*rope).len(),
    ensures
        r as nat == lines_of(rope_text(*rope), char_idx as nat),
{
    rope.char_to_line(char_idx)
}

/// Relies on `ropey::Rope::char_to_byte`: the UTF-8 length of the prefix
/// before the given scalar.
#[verifier::external_body]
pub(crate) fn rope_char_to_byte(rope: &ropey::Rope, char_idx: usize) -> (r: usize)
    requires
        char_idx as nat <= rope_text(*rope).len(),
    ensures
        r as nat == byte_of(rope_text(*rope), char_idx as nat),
{
    rope.char_to_byte(char_idx)
}

/// Relies on `ropey::Rope::byte_to_char`: the scalar that the given byte
/// belongs to (one past the end for the end offset).
#[verifier::external_body]
pub(crate) fn rope_byte_to_char(rope: &ropey::Rope, byte_idx: usize) -> (r: usize)
    requires
        byte_idx as nat <= text_bytes(rope_text(*rope)),
    ensures
        byte_floor_at(rope_text(*rope), byte_idx as nat, r as nat),
{
    rope.byte_to_char(byte_idx)
}

/// Relies on `ropey::Rope::char_to_utf16_cu`: the UTF-16 length of the
/// prefix before the given scalar.
#[verifier::external_body]
pub(crate) fn rope_char_to_utf16(rope: &ropey::Rope, char_idx: usize) -> (r: usize)
    requires
        char_idx as nat <= rope_text(*rope).len(),
    ensures
        r as nat == cu_of(rope_text(*rope), char_idx as nat),
{
    rope.char_to_utf16_cu(char_idx)
}

/// Relies on `ropey::Rope::utf16_cu_to_char`: the scalar that the given
/// UTF-16 code unit belongs to (one past the end for the end offset).
#[verifier::external_body]
pub(crate) fn rope_utf16_to_char(rope: &ropey::Rope, cu_idx: usize) -> (r: usize)
    requires
        cu_idx as nat <= text_cus(rope_text(*rope)),
    ensures
        cu_floor_at(rope_text(*rope), cu_idx as nat, r as nat),
{
    rope.utf16_cu_to_char(cu_idx)
}

/// Relies on `ropey::Rope::insert`: splices `text` in at the given scalar
/// index.
#[verifier::external_body]
pub(crate) fn rope_insert(rope: &mut ropey::Rope, char_idx: usize, text: &str)
    requires
        char_idx as nat <= rope_text(*old(rope)).len(),
    ensures
        rope_text(*final(rope)) == rope_text(*old(rope)).take(char_idx as int) + text@
            + rope_text(*old(rope)).skip(char_idx as int),
{
    rope.insert(char_idx, text)
}

/// Relies on `ropey::Rope::remove`: removes the scalars in `[start, end)`.
#[verifier::external_body]
pub(crate) fn rope_remove(rope: &mut ropey::Rope, start: usize, end: usize)
    requires
        start <= end,
        end as nat <= rope_text(*old(rope)).len(),
    ensures
        rope_text(*final(rope)) == rope_text(*old(rope)).take(start as int) + rope_text(
            *old(rope),
        ).skip(end as int),
{
    rope.remove(start..end)
}

/// Relies on `ropey::Rope::slice` and ropey's `impl From<RopeSlice> for
/// String`: copies out the scalars in `[start, end)`.
#[verifier::external_body]
pub(crate) fn rope_slice_to_string(rope: &ropey::Rope, start: usize, end: usize) -> (r: String)
    requires
        start <= end,
        end as nat <= rope_text(*rope).len(),
    ensures
        r@ == rope_text(*rope).subrange(start as int, end as int),
{
    String::from(rope.slice(start..end))
}

} // verus!
