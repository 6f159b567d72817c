//! The document buffer: a rope-backed character sequence with an undo/redo
//! history and a mutation version counter.
//!
//! Every public operation is specified against `BufferView`, the
//! mathematical state of a buffer: its text, its two stacks of change
//! records, and its version.  The transition functions (`insert_op`,
//! `delete_op`, `undo_op`, `redo_op`) say exactly what each operation does,
//! and the lemmas at the end prove the history laws: a run of edits
//! followed by as many undos restores the original text, and a redo right
//! after an undo restores the state the undo started from.

use vstd::prelude::*;
use crate::rope::{
    rope_char_to_line, rope_chars, rope_from_str, rope_insert, rope_len_chars, rope_len_lines,
    rope_line_to_char, rope_new, rope_remove, rope_slice_string,
};
use crate::text::{
    col_of, lemma_line_start_bounds, lemma_line_start_count, lemma_line_start_mono,
    lemma_locate_offset, line_count_of, line_len_of, line_of, line_start, offset_of_pos,
};
use core::ops::Range;

verus! {

/// A self-contained record of one edit: an insertion when `start == end`
/// (`text` is what was inserted there), otherwise a deletion of
/// `[start, end)` (`text` is what was removed).
#[derive(Debug, Clone)]
pub struct Change {
    pub start: usize,
    pub end: usize,
    pub text: String,
}

/// Ghost form of a change record.
#[verifier::ext_equal]
pub struct ChangeView {
    pub start: int,
    pub end: int,
    pub text: Seq<char>,
}

impl View for Change {
    type V = ChangeView;

    open spec fn view(&self) -> ChangeView {
        ChangeView { start: self.start as int, end: self.end as int, text: self.text@ }
    }
}

/// Ghost view of a change stack.
pub open spec fn changes_view(s: Seq<Change>) -> Seq<ChangeView> {
    s.map_values(|c: Change| c@)
}

/// Ghost state of a buffer.
#[verifier::ext_equal]
pub struct BufferView {
    pub text: Seq<char>,
    pub undo: Seq<ChangeView>,
    pub redo: Seq<ChangeView>,
    pub version: usize,
}

/// Splice `ins` into `t` at `pos`.
pub open spec fn seq_insert(t: Seq<char>, pos: int, ins: Seq<char>) -> Seq<char> {
    t.take(pos) + ins + t.skip(pos)
}

/// Remove `[start, end)` from `t`.
pub open spec fn seq_remove(t: Seq<char>, start: int, end: int) -> Seq<char> {
    t.take(start) + t.skip(end)
}

/// A change record is internally consistent: its range is ordered and, for
/// a deletion, the recorded text has the range's length.
pub open spec fn change_wf(c: ChangeView) -> bool {
    0 <= c.start <= c.end && (c.start == c.end || c.text.len() == c.end - c.start)
}

/// The record can be inverted against text `t`: an insertion record still
/// has its inserted text in place, a deletion record still fits.
pub open spec fn undo_enabled(t: Seq<char>, c: ChangeView) -> bool {
    change_wf(c) && if c.start == c.end {
        c.start + c.text.len() <= t.len() && t.subrange(c.start, c.start + c.text.len()) == c.text
    } else {
        c.start <= t.len()
    }
}

/// Invert the record: take an insertion back out, put a deletion back in.
pub open spec fn undo_app(t: Seq<char>, c: ChangeView) -> Seq<char> {
    if c.start == c.end {
        seq_remove(t, c.start, c.start + c.text.len())
    } else {
        seq_insert(t, c.start, c.text)
    }
}

/// The record can be replayed against text `t` as originally recorded.
pub open spec fn redo_enabled(t: Seq<char>, c: ChangeView) -> bool {
    change_wf(c) && if c.start == c.end {
        c.start <= t.len()
    } else {
        c.end <= t.len() && t.subrange(c.start, c.end) == c.text
    }
}

/// Replay the record: an insertion inserts again, a deletion deletes again.
pub open spec fn redo_app(t: Seq<char>, c: ChangeView) -> Seq<char> {
    if c.start == c.end {
        seq_insert(t, c.start, c.text)
    } else {
        seq_remove(t, c.start, c.end)
    }
}

/// Every record on the undo stack can be inverted, in order from the top,
/// against the text its inversion will see.
pub open spec fn undo_stack_ok(t: Seq<char>, s: Seq<ChangeView>) -> bool
    decreases s.len(),
{
    s.len() == 0 || (undo_enabled(t, s.last()) && undo_stack_ok(undo_app(t, s.last()), s.drop_last()))
}

/// Every record on the redo stack can be replayed, in order from the top.
pub open spec fn redo_stack_ok(t: Seq<char>, s: Seq<ChangeView>) -> bool
    decreases s.len(),
{
    s.len() == 0 || (redo_enabled(t, s.last()) && redo_stack_ok(redo_app(t, s.last()), s.drop_last()))
}

impl BufferView {
    /// Both history stacks replay cleanly against the current text.
    pub open spec fn wf(self) -> bool {
        undo_stack_ok(self.text, self.undo) && redo_stack_ok(self.text, self.redo)
    }
}

/// The version counter after one successful mutation.
pub open spec fn next_version(v: usize) -> usize {
    if v < usize::MAX {
        (v + 1) as usize
    } else {
        usize::MAX
    }
}

/// State after `insert_text(pos, ins)`: a no-op past the end; otherwise
/// the text is spliced, a fresh insertion record is pushed, the redo stack
/// is cleared, and the version moves.
pub open spec fn insert_op(v: BufferView, pos: int, ins: Seq<char>) -> BufferView {
    if 0 <= pos <= v.text.len() {
        BufferView {
            text: seq_insert(v.text, pos, ins),
            undo: v.undo.push(ChangeView { start: pos, end: pos, text: ins }),
            redo: Seq::empty(),
            version: next_version(v.version),
        }
    } else {
        v
    }
}

/// State after `delete_range(start..end)`: a no-op for an inverted or
/// out-of-bounds range; otherwise the range is removed, a deletion record
/// holding the removed text is pushed, the redo stack is cleared, and the
/// version moves.
pub open spec fn delete_op(v: BufferView, start: int, end: int) -> BufferView {
    if 0 <= start <= end <= v.text.len() {
        BufferView {
            text: seq_remove(v.text, start, end),
            undo: v.undo.push(ChangeView { start, end, text: v.text.subrange(start, end) }),
            redo: Seq::empty(),
            version: next_version(v.version),
        }
    } else {
        v
    }
}

/// State after `undo()`: a no-op on an empty undo stack; otherwise the top
/// record is popped, inverted against the text, and moved to the redo
/// stack.
pub open spec fn undo_op(v: BufferView) -> BufferView {
    if v.undo.len() == 0 {
        v
    } else {
        BufferView {
            text: undo_app(v.text, v.undo.last()),
            undo: v.undo.drop_last(),
            redo: v.redo.push(v.undo.last()),
            version: next_version(v.version),
        }
    }
}

/// State after `redo()`: a no-op on an empty redo stack; otherwise the top
/// record is popped, replayed as recorded, and moved back to the undo
/// stack.
pub open spec fn redo_op(v: BufferView) -> BufferView {
    if v.redo.len() == 0 {
        v
    } else {
        BufferView {
            text: redo_app(v.text, v.redo.last()),
            undo: v.undo.push(v.redo.last()),
            redo: v.redo.drop_last(),
            version: next_version(v.version),
        }
    }
}

/// Inverting a record that can be inverted yields a state where it can be
/// replayed, and replaying it restores the text exactly.
pub proof fn lemma_undo_roundtrip(t: Seq<char>, c: ChangeView)
    requires
        undo_enabled(t, c),
    ensures
        redo_enabled(undo_app(t, c), c),
        redo_app(undo_app(t, c), c) == t,
{
    let t2 = undo_app(t, c);
    if c.start == c.end {
        let n = c.text.len() as int;
        assert(t2 =~= t.take(c.start) + t.skip(c.start + n));
        assert(redo_app(t2, c) =~= t);
    } else {
        assert(t2 =~= t.take(c.start) + c.text + t.skip(c.start));
        assert(t2.subrange(c.start, c.end) =~= c.text);
        assert(redo_app(t2, c) =~= t);
    }
}

/// Replaying a record that can be replayed yields a state where it can be
/// inverted, and inverting it restores the text exactly.
pub proof fn lemma_redo_roundtrip(t: Seq<char>, c: ChangeView)
    requires
        redo_enabled(t, c),
    ensures
        undo_enabled(redo_app(t, c), c),
        undo_app(redo_app(t, c), c) == t,
{
    let t2 = redo_app(t, c);
    if c.start == c.end {
        assert(t2 =~= t.take(c.start) + c.text + t.skip(c.start));
        assert(t2.subrange(c.start, c.start + c.text.len()) =~= c.text);
        assert(undo_app(t2, c) =~= t);
    } else {
        assert(t2 =~= t.take(c.start) + t.skip(c.end));
        assert(undo_app(t2, c) =~= t);
    }
}

/// `undo_op` preserves well-formedness.
pub proof fn lemma_undo_op_wf(v: BufferView)
    requires
        v.wf(),
    ensures
        undo_op(v).wf(),
{
    if v.undo.len() > 0 {
        let c = v.undo.last();
        let t2 = undo_app(v.text, c);
        lemma_undo_roundtrip(v.text, c);
        assert(v.redo.push(c).drop_last() =~= v.redo);
        assert(redo_stack_ok(t2, v.redo.push(c)));
    }
}

/// `redo_op` preserves well-formedness.
pub proof fn lemma_redo_op_wf(v: BufferView)
    requires
        v.wf(),
    ensures
        redo_op(v).wf(),
{
    if v.redo.len() > 0 {
        let c = v.redo.last();
        let t2 = redo_app(v.text, c);
        lemma_redo_roundtrip(v.text, c);
        assert(v.undo.push(c).drop_last() =~= v.undo);
        assert(undo_stack_ok(t2, v.undo.push(c)));
    }
}

/// An in-bounds insertion preserves well-formedness, and undoing it right
/// away restores the text and the undo stack.
pub proof fn lemma_insert_op_wf(v: BufferView, pos: int, ins: Seq<char>)
    requires
        v.wf(),
        0 <= pos <= v.text.len(),
    ensures
        insert_op(v, pos, ins).wf(),
        undo_op(insert_op(v, pos, ins)).text == v.text,
        undo_op(insert_op(v, pos, ins)).undo == v.undo,
{
    let c = ChangeView { start: pos, end: pos, text: ins };
    let t2 = seq_insert(v.text, pos, ins);
    assert(t2.subrange(pos, pos + ins.len()) =~= ins);
    assert(undo_app(t2, c) =~= v.text);
    assert(v.undo.push(c).drop_last() =~= v.undo);
    assert(undo_stack_ok(t2, v.undo.push(c)));
    assert(redo_stack_ok(t2, Seq::empty()));
}

/// An in-bounds deletion preserves well-formedness, and undoing it right
/// away restores the text and the undo stack.
pub proof fn lemma_delete_op_wf(v: BufferView, start: int, end: int)
    requires
        v.wf(),
        0 <= start <= end <= v.text.len(),
    ensures
        delete_op(v, start, end).wf(),
        undo_op(delete_op(v, start, end)).text == v.text,
        undo_op(delete_op(v, start, end)).undo == v.undo,
{
    let c = ChangeView { start, end, text: v.text.subrange(start, end) };
    let t2 = seq_remove(v.text, start, end);
    if start == end {
        // An empty deletion is recorded as an insertion of empty text.
        assert(c.text.len() == 0);
        assert(t2.subrange(start, start + c.text.len()) =~= c.text);
    }
    assert(undo_app(t2, c) =~= v.text);
    assert(undo_enabled(t2, c));
    assert(v.undo.push(c).drop_last() =~= v.undo);
    assert(undo_stack_ok(t2, v.undo.push(c)));
    assert(redo_stack_ok(t2, Seq::empty()));
}

/// The text buffer: rope-backed content, undo and redo stacks, and a
/// version counter that moves on every successful mutation.
pub struct Buffer {
    rope: ropey::Rope,
    version: usize,
    undo_stack: Vec<Change>,
    redo_stack: Vec<Change>,
}

impl View for Buffer {
    type V = BufferView;

    closed spec fn view(&self) -> BufferView {
        BufferView {
            text: rope_chars(self.rope),
            undo: changes_view(self.undo_stack@),
            redo: changes_view(self.redo_stack@),
            version: self.version,
        }
    }
}

impl Buffer {
    /// Create a new empty buffer.
    pub fn new() -> (r: Self)
        ensures
            r@.text == Seq::<char>::empty(),
            r@.undo == Seq::<ChangeView>::empty(),
            r@.redo == Seq::<ChangeView>::empty(),
            r@.version == 0,
            r@.wf(),
    {
        let r = Buffer {
            rope: rope_new(),
            version: 0,
            undo_stack: Vec::new(),
            redo_stack: Vec::new(),
        };
        proof {
            assert(r@.undo =~= Seq::<ChangeView>::empty());
            assert(r@.redo =~= Seq::<ChangeView>::empty());
        }
        r
    }

    /// Create a buffer holding `text`, with an empty history.
    pub fn from_text(text: &str) -> (r: Self)
        ensures
            r@.text == text@,
            r@.undo == Seq::<ChangeView>::empty(),
            r@.redo == Seq::<ChangeView>::empty(),
            r@.version == 0,
            r@.wf(),
    {
        let r = Buffer {
            rope: rope_from_str(text),
            version: 0,
            undo_stack: Vec::new(),
            redo_stack: Vec::new(),
        };
        proof {
            assert(r@.undo =~= Seq::<ChangeView>::empty());
            assert(r@.redo =~= Seq::<ChangeView>::empty());
        }
        r
    }

    /// Buffer length in characters.
    pub fn len(&self) -> (n: usize)
        ensures
            n == self@.text.len(),
    {
        rope_len_chars(&self.rope)
    }

    /// Whether the buffer holds no text.
    pub fn is_empty(&self) -> (r: bool)
        ensures
            r == (self@.text.len() == 0),
    {
        self.len() == 0
    }

    /// Number of lines; an empty buffer has one (empty) line.
    pub fn line_count(&self) -> (n: usize)
        ensures
            n == line_count_of(self@.text),
    {
        rope_len_lines(&self.rope)
    }

    /// The whole text as a `String`.
    pub fn text(&self) -> (s: String)
        ensures
            s@ == self@.text,
    {
        let n = self.len();
        let s = rope_slice_string(&self.rope, 0, n);
        proof {
            assert(self@.text.subrange(0, self@.text.len() as int) =~= self@.text);
        }
        s
    }

    /// The text in `range`, with both ends clamped into the buffer.
    pub fn text_range(&self, range: Range<usize>) -> (s: String)
        ensures
            s@ == self@.text.subrange(
                clamp_range_start(self@.text.len() as int, range.start as int, range.end as int),
                clamp_range_end(self@.text.len() as int, range.end as int),
            ),
    {
        let n = self.len();
        let end = if range.end > n {
            n
        } else {
            range.end
        };
        let start = if range.start > end {
            end
        } else {
            range.start
        };
        rope_slice_string(&self.rope, start, end)
    }

    /// Content of line `line_idx` including its trailing line break;
    /// an out-of-range index yields the empty string.
    pub fn line(&self, line_idx: usize) -> (s: String)
        ensures
            s@ == line_seq(self@.text, line_idx as int),
    {
        let lc = self.line_count();
        if line_idx >= lc {
            return String::new();
        }
        let start = rope_line_to_char(&self.rope, line_idx);
        let end = rope_line_to_char(&self.rope, line_idx + 1);
        proof {
            lemma_line_start_count(self@.text, line_idx as int);
            lemma_line_start_mono(self@.text, line_idx as int);
            lemma_line_start_bounds(self@.text, line_idx + 1);
        }
        rope_slice_string(&self.rope, start, end)
    }

    /// Length in characters of line `line_idx`, including its trailing
    /// line break; 0 for an out-of-range index.
    pub fn line_len(&self, line_idx: usize) -> (n: usize)
        ensures
            n == if 0 <= line_idx < line_count_of(self@.text) {
                line_len_of(self@.text, line_idx as int)
            } else {
                0
            },
    {
        let lc = self.line_count();
        if line_idx >= lc {
            return 0;
        }
        let start = rope_line_to_char(&self.rope, line_idx);
        let end = rope_line_to_char(&self.rope, line_idx + 1);
        proof {
            lemma_line_start_count(self@.text, line_idx as int);
            lemma_line_start_mono(self@.text, line_idx as int);
        }
        end - start
    }

    /// Insert `text` at char offset `pos`.  An offset past the end is a
    /// defensive no-op; on success a fresh insertion record is pushed, the
    /// redo stack is cleared, and the version moves.
    pub fn insert_text(&mut self, pos: usize, text: &str)
        requires
            old(self)@.wf(),
        ensures
            final(self)@ == insert_op(old(self)@, pos as int, text@),
            final(self)@.wf(),
    {
        let n = self.len();
        if pos > n {
            return;
        }
        let change = Change { start: pos, end: pos, text: text.to_owned() };
        self.undo_stack.push(change);
        self.redo_stack.clear();
        rope_insert(&mut self.rope, pos, text);
        self.version = self.version.saturating_add(1);
        proof {
            lemma_insert_op_wf(old(self)@, pos as int, text@);
            assert(self@.undo =~= old(self)@.undo.push(
                ChangeView { start: pos as int, end: pos as int, text: text@ },
            ));
            assert(self@.redo =~= Seq::<ChangeView>::empty());
            assert(self@ =~= insert_op(old(self)@, pos as int, text@));
        }
    }

    /// Delete the char range `[range.start, range.end)`.  An inverted or
    /// out-of-bounds range is a defensive no-op; on success a deletion
    /// record holding the removed text is pushed, the redo stack is
    /// cleared, and the version moves.
    pub fn delete_range(&mut self, range: Range<usize>)
        requires
            old(self)@.wf(),
        ensures
            final(self)@ == delete_op(old(self)@, range.start as int, range.end as int),
            final(self)@.wf(),
    {
        let n = self.len();
        if range.end > n || range.start > range.end {
            return;
        }
        let deleted_text = rope_slice_string(&self.rope, range.start, range.end);
        let change = Change { start: range.start, end: range.end, text: deleted_text };
        self.undo_stack.push(change);
        self.redo_stack.clear();
        rope_remove(&mut self.rope, range.start, range.end);
        self.version = self.version.saturating_add(1);
        proof {
            lemma_delete_op_wf(old(self)@, range.start as int, range.end as int);
            assert(self@.undo =~= old(self)@.undo.push(
                ChangeView {
                    start: range.start as int,
                    end: range.end as int,
                    text: old(self)@.text.subrange(range.start as int, range.end as int),
                },
            ));
            assert(self@.redo =~= Seq::<ChangeView>::empty());
            assert(self@ =~= delete_op(old(self)@, range.start as int, range.end as int));
        }
    }

    /// Undo the most recent change.  Returns `false` on an empty undo
    /// stack; otherwise the popped record is inverted against the text and
    /// moved to the redo stack, and the version moves.
    pub fn undo(&mut self) -> (r: bool)
        requires
            old(self)@.wf(),
        ensures
            final(self)@ == undo_op(old(self)@),
            final(self)@.wf(),
            r == (old(self)@.undo.len() > 0),
    {
        proof {
            lemma_undo_op_wf(old(self)@);
        }
        if let Some(change) = self.undo_stack.pop() {
            proof {
                assert(old(self)@.undo.last() == change@);
                assert(changes_view(self.undo_stack@) =~= old(self)@.undo.drop_last());
                assert(undo_enabled(old(self)@.text, change@));
            }
            if change.start == change.end {
                let total = self.len();
                let n = change.text.as_str().unicode_len();
                proof {
                    assert(change@.start + change@.text.len() <= total);
                }
                rope_remove(&mut self.rope, change.start, change.start + n);
            } else {
                rope_insert(&mut self.rope, change.start, change.text.as_str());
            }
            self.redo_stack.push(change);
            self.version = self.version.saturating_add(1);
            proof {
                assert(self@.redo =~= old(self)@.redo.push(old(self)@.undo.last()));
                assert(self@ =~= undo_op(old(self)@));
            }
            true
        } else {
            proof {
                assert(self@ =~= old(self)@);
            }
            false
        }
    }

    /// Redo the most recently undone change.  Returns `false` on an empty
    /// redo stack; otherwise the popped record is replayed as recorded and
    /// moved back to the undo stack, and the version moves.
    pub fn redo(&mut self) -> (r: bool)
        requires
            old(self)@.wf(),
        ensures
            final(self)@ == redo_op(old(self)@),
            final(self)@.wf(),
            r == (old(self)@.redo.len() > 0),
    {
        proof {
            lemma_redo_op_wf(old(self)@);
        }
        if let Some(change) = self.redo_stack.pop() {
            proof {
                assert(old(self)@.redo.last() == change@);
                assert(changes_view(self.redo_stack@) =~= old(self)@.redo.drop_last());
                assert(redo_enabled(old(self)@.text, change@));
            }
            if change.start == change.end {
                rope_insert(&mut self.rope, change.start, change.text.as_str());
            } else {
                rope_remove(&mut self.rope, change.start, change.end);
            }
            self.undo_stack.push(change);
            self.version = self.version.saturating_add(1);
            proof {
                assert(self@.undo =~= old(self)@.undo.push(old(self)@.redo.last()));
                assert(self@ =~= redo_op(old(self)@));
            }
            true
        } else {
            proof {
                assert(self@ =~= old(self)@);
            }
            false
        }
    }

    /// The version counter, for cheap staleness checks.
    pub fn version(&self) -> (v: usize)
        ensures
            v == self@.version,
    {
        self.version
    }

    /// Line and column of a valid char offset.
    pub fn offset_to_position(&self, offset: usize) -> (r: (usize, usize))
        requires
            offset <= self@.text.len(),
        ensures
            r.0 == line_of(self@.text, offset as int),
            r.1 == col_of(self@.text, offset as int),
    {
        proof {
            lemma_locate_offset(self@.text, offset as int);
        }
        let line = rope_char_to_line(&self.rope, offset);
        let line_start_off = rope_line_to_char(&self.rope, line);
        (line, offset - line_start_off)
    }

    /// Char offset of a (line, column) position, with the line clamped
    /// into the document and the column clamped into the line; the result
    /// never exceeds the buffer length.
    pub fn position_to_offset(&self, line: usize, col: usize) -> (r: usize)
        ensures
            r == offset_of_pos(self@.text, line as int, col as int),
            r <= self@.text.len(),
    {
        let lc = self.line_count();
        if line >= lc {
            return self.len();
        }
        let start = rope_line_to_char(&self.rope, line);
        let next = rope_line_to_char(&self.rope, line + 1);
        proof {
            lemma_line_start_count(self@.text, line as int);
            lemma_line_start_mono(self@.text, line as int);
            lemma_line_start_bounds(self@.text, line + 1);
        }
        let line_length = next - start;
        if col < line_length {
            start + col
        } else {
            start + line_length
        }
    }
}

impl Default for Buffer {
    /// Same as `Buffer::new`.
    fn default() -> (r: Self)
        ensures
            r@.text == Seq::<char>::empty(),
            r@.undo == Seq::<ChangeView>::empty(),
            r@.redo == Seq::<ChangeView>::empty(),
            r@.version == 0,
            r@.wf(),
    {
        Buffer::new()
    }
}

/// Clamped end used by `Buffer::text_range`.
pub open spec fn clamp_range_end(len: int, end: int) -> int {
    if end > len {
        len
    } else {
        end
    }
}

/// Clamped start used by `Buffer::text_range`.
pub open spec fn clamp_range_start(len: int, start: int, end: int) -> int {
    let e = clamp_range_end(len, end);
    if start > e {
        e
    } else {
        start
    }
}

/// Content of line `l` of `s`, including its trailing line break; empty
/// for an out-of-range index.
pub open spec fn line_seq(s: Seq<char>, l: int) -> Seq<char> {
    if 0 <= l < line_count_of(s) {
        s.subrange(line_start(s, l), line_start(s, l + 1))
    } else {
        Seq::empty()
    }
}

/// One edit against a document: an insertion at an offset or the deletion
/// of a range.
pub enum EditOp {
    Insert { pos: int, text: Seq<char> },
    Delete { start: int, end: int },
}

/// The edit addresses positions inside the document, so it will not be
/// clamped away.
pub open spec fn op_valid(t: Seq<char>, op: EditOp) -> bool {
    match op {
        EditOp::Insert { pos, text } => 0 <= pos <= t.len(),
        EditOp::Delete { start, end } => 0 <= start <= end <= t.len(),
    }
}

/// Apply one edit to a buffer state.
pub open spec fn apply_edit(v: BufferView, op: EditOp) -> BufferView {
    match op {
        EditOp::Insert { pos, text } => insert_op(v, pos, text),
        EditOp::Delete { start, end } => delete_op(v, start, end),
    }
}

/// Every edit in the sequence is valid for the state it meets.
pub open spec fn ops_valid(v: BufferView, ops: Seq<EditOp>) -> bool
    decreases ops.len(),
{
    ops.len() == 0 || (op_valid(v.text, ops[0]) && ops_valid(apply_edit(v, ops[0]), ops.skip(1)))
}

/// Apply a sequence of edits, first to last.
pub open spec fn apply_edits(v: BufferView, ops: Seq<EditOp>) -> BufferView
    decreases ops.len(),
{
    if ops.len() == 0 {
        v
    } else {
        apply_edits(apply_edit(v, ops[0]), ops.skip(1))
    }
}

/// Apply `undo_op` `n` times.
pub open spec fn undo_n(v: BufferView, n: int) -> BufferView
    decreases n,
{
    if n <= 0 {
        v
    } else {
        undo_op(undo_n(v, n - 1))
    }
}

/// A valid edit preserves well-formedness, and undoing it right away
/// restores the text and the undo stack.
pub proof fn lemma_apply_edit_wf(v: BufferView, op: EditOp)
    requires
        v.wf(),
        op_valid(v.text, op),
    ensures
        apply_edit(v, op).wf(),
        undo_op(apply_edit(v, op)).text == v.text,
        undo_op(apply_edit(v, op)).undo == v.undo,
{
    match op {
        EditOp::Insert { pos, text } => lemma_insert_op_wf(v, pos, text),
        EditOp::Delete { start, end } => lemma_delete_op_wf(v, start, end),
    }
}

/// Round trip of the history: any sequence of valid inserts and deletes,
/// followed by as many undos, restores the text (and the undo stack) the
/// buffer started with.
pub proof fn lemma_edits_then_undos_round_trip(v: BufferView, ops: Seq<EditOp>)
    requires
        v.wf(),
        ops_valid(v, ops),
    ensures
        apply_edits(v, ops).wf(),
        undo_n(apply_edits(v, ops), ops.len() as int).text == v.text,
        undo_n(apply_edits(v, ops), ops.len() as int).undo == v.undo,
    decreases ops.len(),
{
    if ops.len() > 0 {
        let v1 = apply_edit(v, ops[0]);
        lemma_apply_edit_wf(v, ops[0]);
        lemma_edits_then_undos_round_trip(v1, ops.skip(1));
        let w = apply_edits(v, ops);
        let k = ops.len() - 1;
        assert(w == apply_edits(v1, ops.skip(1)));
        let s = undo_n(w, k);
        assert(s.text == v1.text && s.undo == v1.undo);
        assert(undo_n(w, k + 1) == undo_op(s));
        assert(undo_op(s).text == undo_op(v1).text && undo_op(s).undo == undo_op(v1).undo);
    }
}

/// Redo symmetry: a redo immediately after an undo restores the text and
/// both history stacks the buffer had before the undo.
pub proof fn lemma_undo_then_redo(v: BufferView)
    requires
        v.wf(),
        v.undo.len() > 0,
    ensures
        redo_op(undo_op(v)).text == v.text,
        redo_op(undo_op(v)).undo == v.undo,
        redo_op(undo_op(v)).redo == v.redo,
{
    let c = v.undo.last();
    lemma_undo_roundtrip(v.text, c);
    assert(v.redo.push(c).drop_last() =~= v.redo);
    assert(v.undo.drop_last().push(c) =~= v.undo);
}

} // verus!
