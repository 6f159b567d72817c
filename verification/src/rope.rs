//! Trusted boundary around `ropey::Rope`, the document container.
//!
//! The rope is modelled by `rope_chars`, the sequence of `char`s it holds.
//! The crate is built with ropey's default features off, so the only line
//! break it recognizes is `'\n'`; the line-oriented contracts below are
//! stated over the `'\n'`-based spec functions of `crate::text`, matching
//! `str_indices::lines_lf`, which ropey delegates to in that configuration.
//! Each wrapper's contract restates what ropey's documentation and source
//! say about the wrapped method, including its panic conditions, which the
//! `requires` clauses rule out.

use vstd::prelude::*;
use crate::text::{line_count_of, line_of, line_start};

verus! {

#[verifier::external_type_specification]
#[verifier::external_body]
pub struct ExRope(ropey::Rope);

/// The sequence of characters a rope holds.
pub uninterp spec fn rope_chars(r: ropey::Rope) -> Seq<char>;

/// Relies on ropey::Rope::new: creates an empty rope.
#[verifier::external_body]
pub(crate) fn rope_new() -> (r: ropey::Rope)
    ensures
        rope_chars(r) == Seq::<char>::empty(),
{
    ropey::Rope::new()
}

/// Relies on ropey::Rope::from_str: creates a rope holding exactly the
/// given text.
#[verifier::external_body]
pub(crate) fn rope_from_str(text: &str) -> (r: ropey::Rope)
    ensures
        rope_chars(r) == text@,
{
    ropey::Rope::from_str(text)
}

/// Relies on ropey::Rope::len_chars: the total number of chars.
#[verifier::external_body]
pub(crate) fn rope_len_chars(r: &ropey::Rope) -> (n: usize)
    ensures
        n == rope_chars(*r).len(),
{
    r.len_chars()
}

/// Relies on ropey::Rope::len_lines: one more than the number of line
/// breaks.
#[verifier::external_body]
pub(crate) fn rope_len_lines(r: &ropey::Rope) -> (n: usize)
    ensures
        n == line_count_of(rope_chars(*r)),
{
    r.len_lines()
}

/// Relies on ropey::Rope::insert: splices `text` in at char index
/// `char_idx`; panics beyond the end, which the `requires` rules out.
#[verifier::external_body]
pub(crate) fn rope_insert(r: &mut ropey::Rope, char_idx: usize, text: &str)
    requires
        char_idx <= rope_chars(*old(r)).len(),
    ensures
        rope_chars(*final(r)) == rope_chars(*old(r)).take(char_idx as int) + text@ + rope_chars(
            *old(r),
        ).skip(char_idx as int),
{
    r.insert(char_idx, text)
}

/// Relies on ropey::Rope::remove: removes the char range `[start, end)`;
/// panics on an inverted or out-of-bounds range, which the `requires`
/// rules out.
#[verifier::external_body]
pub(crate) fn rope_remove(r: &mut ropey::Rope, start: usize, end: usize)
    requires
        start <= end <= rope_chars(*old(r)).len(),
    ensures
        rope_chars(*final(r)) == rope_chars(*old(r)).take(start as int) + rope_chars(
            *old(r),
        ).skip(end as int),
{
    r.remove(start..end)
}

/// Relies on ropey::Rope::slice and ropey::RopeSlice::to_string: copies
/// the char range `[start, end)` out as a `String`; `slice` panics on an
/// inverted or out-of-bounds range, which the `requires` rules out.
#[verifier::external_body]
pub(crate) fn rope_slice_string(r: &ropey::Rope, start: usize, end: usize) -> (s: String)
    requires
        start <= end <= rope_chars(*r).len(),
    ensures
        s@ == rope_chars(*r).subrange(start as int, end as int),
{
    r.slice(start..end).to_string()
}

/// Relies on ropey::Rope::char_to_line: the number of line breaks before
/// the given char index, which may be one past the end; panics further
/// out, which the `requires` rules out.
#[verifier::external_body]
pub(crate) fn rope_char_to_line(r: &ropey::Rope, char_idx: usize) -> (l: usize)
    requires
        char_idx <= rope_chars(*r).len(),
    ensures
        l == line_of(rope_chars(*r), char_idx as int),
{
    r.char_to_line(char_idx)
}

/// Relies on ropey::Rope::line_to_char: the char index where the given
/// line starts, with the one-past-the-end line mapping to the end of the
/// text; panics further out, which the `requires` rules out.
#[verifier::external_body]
pub(crate) fn rope_line_to_char(r: &ropey::Rope, line_idx: usize) -> (c: usize)
    requires
        line_idx <= line_count_of(rope_chars(*r)),
    ensures
        c == line_start(rope_chars(*r), line_idx as int),
{
    r.line_to_char(line_idx)
}

} // verus!
