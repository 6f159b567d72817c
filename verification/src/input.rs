//! Editing input: what each key or typed string does to the buffer and
//! the cursor.
//!
//! The decisions are specified as transition functions from the current
//! (buffer, cursor) state to the next one: `key_step` for a single key,
//! `text_input_step` for typed text, `sel_delete_step` for deleting the
//! selection.  The handlers are proved to implement those functions
//! exactly.

use vstd::prelude::*;
use crate::buffer::{delete_op, insert_op, Buffer, BufferView};
use crate::cursor::{move_left_pos, move_right_pos, pos_le, Cursor, Position};
use crate::strutil::chars_of;
use crate::text::{line_count_of, line_len_of, offset_of_pos};
use vstd::std_specs::cmp::PartialOrdSpec;

verus! {

/// The editing keys the core reacts to.
#[derive(Debug, Clone, Copy, PartialEq, Eq, Structural)]
pub enum EditorKey {
    ArrowLeft,
    ArrowRight,
    ArrowUp,
    ArrowDown,
    Backspace,
    Delete,
    Enter,
    Tab,
}

/// Translates editing keys and typed text into buffer and cursor updates.
pub struct InputHandler {}

/// `line` increased by one, saturating.
pub open spec fn line_down(line: usize) -> usize {
    if line < usize::MAX {
        (line + 1) as usize
    } else {
        usize::MAX
    }
}

/// `col` increased by `k`, saturating.
pub open spec fn col_ahead(col: usize, k: int) -> usize {
    if col + k <= usize::MAX {
        (col + k) as usize
    } else {
        usize::MAX
    }
}

/// State after deleting the selection: its endpoints are resolved to
/// offsets, ordered, and the range between them is deleted; the cursor
/// collapses to the lexicographically earlier endpoint and the selection
/// is dropped.  Without a selection nothing changes.
pub open spec fn sel_delete_step(v: BufferView, c: Cursor) -> (BufferView, Cursor) {
    match c.selection {
        Option::None => (v, c),
        Option::Some(r) => {
            let so = offset_of_pos(v.text, r.start.line as int, r.start.column as int);
            let eo = offset_of_pos(v.text, r.end.line as int, r.end.column as int);
            let lo = if so <= eo {
                so
            } else {
                eo
            };
            let hi = if so <= eo {
                eo
            } else {
                so
            };
            let p = if pos_le(r.start, r.end) {
                r.start
            } else {
                r.end
            };
            (
                delete_op(v, lo, hi),
                Cursor {
                    position: p,
                    selection: None,
                    blink_state: c.blink_state,
                    blink_timer: c.blink_timer,
                },
            )
        },
    }
}

/// Position of the cursor after typing one character: a line break moves
/// to the start of the next line, anything else advances one column.
pub open spec fn char_step(p: Position, ch: char) -> Position {
    if ch == '\n' {
        Position { line: line_down(p.line), column: 0 }
    } else {
        Position { line: p.line, column: col_ahead(p.column, 1) }
    }
}

/// Position of the cursor after typing a string, character by character.
pub open spec fn advance_pos(p: Position, s: Seq<char>) -> Position
    decreases s.len(),
{
    if s.len() == 0 {
        p
    } else {
        advance_pos(char_step(p, s[0]), s.skip(1))
    }
}

/// State after typing `text`: the selection (if any) is deleted first,
/// the text is inserted at the cursor's offset, and the cursor advances
/// over what was typed with the selection dropped.
pub open spec fn text_input_step(v: BufferView, c: Cursor, text: Seq<char>) -> (
    BufferView,
    Cursor,
) {
    let step = if c.selection is Some {
        sel_delete_step(v, c)
    } else {
        (v, c)
    };
    let v1 = step.0;
    let c1 = step.1;
    let pos = offset_of_pos(v1.text, c1.position.line as int, c1.position.column as int);
    (
        insert_op(v1, pos, text),
        Cursor {
            position: advance_pos(c1.position, text),
            selection: None,
            blink_state: c1.blink_state,
            blink_timer: c1.blink_timer,
        },
    )
}

/// The four spaces a tab key inserts.
pub open spec fn tab_spaces() -> Seq<char> {
    seq![' ', ' ', ' ', ' ']
}

/// `c` with its selection dropped and its blink reset (cursor shown).
pub open spec fn moved_cursor(c: Cursor, p: Position) -> Cursor {
    Cursor { position: p, selection: None, blink_state: true, blink_timer: 0 }
}

/// State after one editing key, as a function of the current state.
pub open spec fn key_step(key: EditorKey, v: BufferView, c: Cursor) -> (BufferView, Cursor) {
    match key {
        EditorKey::ArrowLeft => (v, moved_cursor(c, move_left_pos(c.position))),
        EditorKey::ArrowRight => {
            let max_col = if c.position.line < line_count_of(v.text) {
                line_len_of(v.text, c.position.line as int)
            } else {
                0
            };
            (v, moved_cursor(c, move_right_pos(c.position, max_col)))
        },
        EditorKey::ArrowUp => {
            let line = if c.position.line > 0 {
                (c.position.line - 1) as usize
            } else {
                0usize
            };
            (v, moved_cursor(c, Position { line, column: c.position.column }))
        },
        EditorKey::ArrowDown => (
            v,
            moved_cursor(c, Position { line: line_down(c.position.line), column: c.position.column }),
        ),
        EditorKey::Backspace => backspace_step(v, c),
        EditorKey::Delete => {
            if c.selection is Some {
                sel_delete_step(v, c)
            } else {
                let pos = offset_of_pos(v.text, c.position.line as int, c.position.column as int);
                if pos < v.text.len() {
                    (delete_op(v, pos, pos + 1), c)
                } else {
                    (v, c)
                }
            }
        },
        EditorKey::Enter => {
            let step = if c.selection is Some {
                sel_delete_step(v, c)
            } else {
                (v, c)
            };
            let v1 = step.0;
            let c1 = step.1;
            let pos = offset_of_pos(v1.text, c1.position.line as int, c1.position.column as int);
            (
                insert_op(v1, pos, seq!['\n']),
                Cursor {
                    position: Position { line: line_down(c1.position.line), column: 0 },
                    selection: None,
                    blink_state: c1.blink_state,
                    blink_timer: c1.blink_timer,
                },
            )
        },
        EditorKey::Tab => {
            let step = if c.selection is Some {
                sel_delete_step(v, c)
            } else {
                (v, c)
            };
            let v1 = step.0;
            let c1 = step.1;
            let pos = offset_of_pos(v1.text, c1.position.line as int, c1.position.column as int);
            (
                insert_op(v1, pos, tab_spaces()),
                Cursor {
                    position: Position {
                        line: c1.position.line,
                        column: col_ahead(c1.position.column, 4),
                    },
                    selection: None,
                    blink_state: c1.blink_state,
                    blink_timer: c1.blink_timer,
                },
            )
        },
    }
}

/// State after backspace: delete the selection if there is one; otherwise
/// delete the character before the cursor and step left; at the start of
/// a line, delete the preceding line break and park the cursor at the end
/// of the merged line.
pub open spec fn backspace_step(v: BufferView, c: Cursor) -> (BufferView, Cursor) {
    if c.selection is Some {
        sel_delete_step(v, c)
    } else {
        let pos = offset_of_pos(v.text, c.position.line as int, c.position.column as int);
        if c.position.column > 0 {
            if pos > 0 {
                (delete_op(v, pos - 1, pos), moved_cursor(c, move_left_pos(c.position)))
            } else {
                (v, c)
            }
        } else if c.position.line > 0 {
            if pos > 0 {
                let v2 = delete_op(v, pos - 1, pos);
                let line = (c.position.line - 1) as usize;
                let col = if line < line_count_of(v2.text) {
                    line_len_of(v2.text, line as int)
                } else {
                    0
                };
                (v2, moved_cursor(c, Position { line, column: col as usize }))
            } else {
                (v, c)
            }
        } else {
            (v, c)
        }
    }
}

impl InputHandler {
    pub fn new() -> (r: Self) {
        InputHandler {  }
    }

    /// Apply one editing key to the buffer and cursor, exactly as
    /// `key_step` describes.
    pub fn handle_key_event(&self, key: EditorKey, buffer: &mut Buffer, cursor: &mut Cursor)
        requires
            old(buffer)@.wf(),
        ensures
            final(buffer)@ == key_step(key, old(buffer)@, *old(cursor)).0,
            *final(cursor) == key_step(key, old(buffer)@, *old(cursor)).1,
            final(buffer)@.wf(),
    {
        match key {
            EditorKey::ArrowLeft => {
                cursor.clear_selection();
                cursor.move_left();
            },
            EditorKey::ArrowRight => {
                let line = cursor.position.line;
                let max_col = if line < buffer.line_count() {
                    buffer.line_len(line)
                } else {
                    0
                };
                cursor.clear_selection();
                cursor.move_right(max_col);
            },
            EditorKey::ArrowUp => {
                cursor.clear_selection();
                cursor.move_up();
            },
            EditorKey::ArrowDown => {
                cursor.clear_selection();
                cursor.move_down();
            },
            EditorKey::Backspace => {
                if cursor.has_selection() {
                    self.delete_selection(buffer, cursor);
                } else if cursor.position.column > 0 {
                    let pos = self.cursor_to_byte_offset(buffer, cursor);
                    if pos > 0 {
                        buffer.delete_range(pos - 1..pos);
                        cursor.move_left();
                    }
                } else if cursor.position.line > 0 {
                    let pos = self.cursor_to_byte_offset(buffer, cursor);
                    if pos > 0 {
                        buffer.delete_range(pos - 1..pos);
                        cursor.move_up();
                        let prev_line_len = buffer.line_len(cursor.position.line);
                        cursor.position.column = prev_line_len;
                    }
                }
            },
            EditorKey::Delete => {
                if cursor.has_selection() {
                    self.delete_selection(buffer, cursor);
                } else {
                    let pos = self.cursor_to_byte_offset(buffer, cursor);
                    if pos < buffer.len() {
                        buffer.delete_range(pos..pos + 1);
                    }
                }
            },
            EditorKey::Enter => {
                if cursor.has_selection() {
                    self.delete_selection(buffer, cursor);
                }
                let pos = self.cursor_to_byte_offset(buffer, cursor);
                buffer.insert_text(pos, "\n");
                cursor.position.line = cursor.position.line.saturating_add(1);
                cursor.position.column = 0;
                cursor.clear_selection();
                proof {
                    reveal_strlit("\n");
                    assert("\n"@ =~= seq!['\n']);
                }
            },
            EditorKey::Tab => {
                if cursor.has_selection() {
                    self.delete_selection(buffer, cursor);
                }
                let pos = self.cursor_to_byte_offset(buffer, cursor);
                buffer.insert_text(pos, "    ");
                cursor.position.column = cursor.position.column.saturating_add(4);
                cursor.clear_selection();
                proof {
                    reveal_strlit("    ");
                    assert("    "@ =~= tab_spaces());
                }
            },
        }
    }

    /// Type `text` at the cursor, exactly as `text_input_step` describes.
    pub fn handle_text_input(&self, text: &str, buffer: &mut Buffer, cursor: &mut Cursor)
        requires
            old(buffer)@.wf(),
        ensures
            final(buffer)@ == text_input_step(old(buffer)@, *old(cursor), text@).0,
            *final(cursor) == text_input_step(old(buffer)@, *old(cursor), text@).1,
            final(buffer)@.wf(),
    {
        if cursor.has_selection() {
            self.delete_selection(buffer, cursor);
        }
        let pos = self.cursor_to_byte_offset(buffer, cursor);
        buffer.insert_text(pos, text);
        let ghost c1 = *cursor;
        let chars = chars_of(text);
        let n = chars.len();
        let mut i: usize = 0;
        proof {
            assert(text@.skip(0) =~= text@);
        }
        while i < n
            invariant
                n == chars@.len(),
                chars@ == text@,
                i <= n,
                advance_pos(c1.position, text@) == advance_pos(cursor.position, text@.skip(i as int)),
                cursor.selection == c1.selection,
                cursor.blink_state == c1.blink_state,
                cursor.blink_timer == c1.blink_timer,
            decreases n - i,
        {
            let ghost pos_before = cursor.position;
            let ch = chars[i];
            if ch == '\n' {
                cursor.position.line = cursor.position.line.saturating_add(1);
                cursor.position.column = 0;
            } else {
                cursor.position.column = cursor.position.column.saturating_add(1);
            }
            proof {
                assert(cursor.position == char_step(pos_before, text@[i as int]));
                assert(text@.skip(i as int)[0] == text@[i as int]);
                assert(text@.skip(i as int).skip(1) =~= text@.skip(i + 1));
            }
            i = i + 1;
        }
        proof {
            assert(text@.skip(n as int) =~= Seq::<char>::empty());
        }
        cursor.clear_selection();
    }

    /// Delete the selection, exactly as `sel_delete_step` describes.
    fn delete_selection(&self, buffer: &mut Buffer, cursor: &mut Cursor)
        requires
            old(buffer)@.wf(),
        ensures
            final(buffer)@ == sel_delete_step(old(buffer)@, *old(cursor)).0,
            *final(cursor) == sel_delete_step(old(buffer)@, *old(cursor)).1,
            final(buffer)@.wf(),
    {
        let (sp, ep) = match &cursor.selection {
            Some(sel) => (sel.start, sel.end),
            None => {
                return ;
            },
        };
        let start = self.position_to_byte_offset(buffer, &sp);
        let end = self.position_to_byte_offset(buffer, &ep);
        let (lo, hi) = if start <= end {
            (start, end)
        } else {
            (end, start)
        };
        buffer.delete_range(lo..hi);
        cursor.position = if sp <= ep {
            sp
        } else {
            ep
        };
        cursor.clear_selection();
        proof {
            assert(pos_le(sp, ep) == (sp.partial_cmp_spec(&ep) matches Some(
                core::cmp::Ordering::Less
                | core::cmp::Ordering::Equal,
            )));
        }
    }

    /// Offset of the cursor's position in the buffer.
    fn cursor_to_byte_offset(&self, buffer: &Buffer, cursor: &Cursor) -> (r: usize)
        ensures
            r == offset_of_pos(
                buffer@.text,
                cursor.position.line as int,
                cursor.position.column as int,
            ),
            r <= buffer@.text.len(),
    {
        self.position_to_byte_offset(buffer, &cursor.position)
    }

    /// Offset of a position in the buffer.
    fn position_to_byte_offset(&self, buffer: &Buffer, pos: &Position) -> (r: usize)
        ensures
            r == offset_of_pos(buffer@.text, pos.line as int, pos.column as int),
            r <= buffer@.text.len(),
    {
        buffer.position_to_offset(pos.line, pos.column)
    }
}

impl Default for InputHandler {
    fn default() -> (r: Self) {
        InputHandler::new()
    }
}

} // verus!
