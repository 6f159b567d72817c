//! Cursor state: a (line, column) position, an optional selection range,
//! and the blink timer that drives cursor visibility.
//!
//! Positions are ordered lexicographically (line first, then column).  The
//! blink timer is advanced with externally supplied elapsed milliseconds
//! and flips the visibility flag each time it reaches the blink interval;
//! any movement resets it and forces the cursor visible.

use vstd::prelude::*;
use core::cmp::Ordering;
use core::ops::Range;

verus! {

/// A (line, column) coordinate into a document, both zero-based.
#[derive(Debug, Clone, Copy, PartialEq, Eq, Structural, Ord)]
pub struct Position {
    pub line: usize,
    pub column: usize,
}

/// Lexicographic order on positions: line first, then column.
pub open spec fn pos_le(a: Position, b: Position) -> bool {
    a.line < b.line || (a.line == b.line && a.column <= b.column)
}

impl Position {
    pub fn new(line: usize, column: usize) -> (r: Self)
        ensures
            r.line == line,
            r.column == column,
    {
        Position { line, column }
    }

    pub fn zero() -> (r: Self)
        ensures
            r.line == 0,
            r.column == 0,
    {
        Position { line: 0, column: 0 }
    }
}

impl PartialOrd for Position {
    fn partial_cmp(&self, other: &Self) -> (r: Option<Ordering>) {
        if self.line < other.line {
            Some(Ordering::Less)
        } else if self.line > other.line {
            Some(Ordering::Greater)
        } else if self.column < other.column {
            Some(Ordering::Less)
        } else if self.column > other.column {
            Some(Ordering::Greater)
        } else {
            Some(Ordering::Equal)
        }
    }
}

impl vstd::std_specs::cmp::PartialOrdSpecImpl for Position {
    open spec fn obeys_partial_cmp_spec() -> bool {
        true
    }

    open spec fn partial_cmp_spec(&self, other: &Self) -> Option<Ordering> {
        if self.line < other.line {
            Some(Ordering::Less)
        } else if self.line > other.line {
            Some(Ordering::Greater)
        } else if self.column < other.column {
            Some(Ordering::Less)
        } else if self.column > other.column {
            Some(Ordering::Greater)
        } else {
            Some(Ordering::Equal)
        }
    }
}

/// Elapsed milliseconds after which the cursor visibility flips.
pub const BLINK_INTERVAL_MS: u64 = 500;

/// Position of `p` after one step left: back one column, or to the start
/// of the previous line when already at column zero.
pub open spec fn move_left_pos(p: Position) -> Position {
    if p.column > 0 {
        Position { line: p.line, column: (p.column - 1) as usize }
    } else if p.line > 0 {
        Position { line: (p.line - 1) as usize, column: 0 }
    } else {
        p
    }
}

/// Position of `p` after one step right on a line of length `max_column`:
/// forward one column, or to the start of the next line when the column
/// would pass `max_column`.
pub open spec fn move_right_pos(p: Position, max_column: int) -> Position {
    if p.column < max_column {
        Position { line: p.line, column: (p.column + 1) as usize }
    } else {
        Position {
            line: if p.line < usize::MAX {
                (p.line + 1) as usize
            } else {
                usize::MAX
            },
            column: 0,
        }
    }
}

/// An editing cursor: its position, an optional selection range whose
/// endpoints need not be ordered, and blink state for presentation.
#[derive(Debug, Clone)]
pub struct Cursor {
    pub position: Position,
    pub selection: Option<Range<Position>>,
    pub blink_state: bool,
    pub blink_timer: u64,
}

impl Cursor {
    pub fn new() -> (r: Self)
        ensures
            r.position == (Position { line: 0usize, column: 0usize }),
            (r.selection is None),
            r.blink_state,
            r.blink_timer == 0,
    {
        Cursor { position: Position::zero(), selection: None, blink_state: true, blink_timer: 0 }
    }

    /// Jump to `position`, resetting the blink so the cursor shows.
    pub fn move_to(&mut self, position: Position)
        ensures
            final(self).position == position,
            final(self).selection == old(self).selection,
            final(self).blink_state,
            final(self).blink_timer == 0,
    {
        self.position = position;
        self.reset_blink();
    }

    /// Step left, clamped at the start of the document.
    pub fn move_left(&mut self)
        ensures
            final(self).position == move_left_pos(old(self).position),
            final(self).selection == old(self).selection,
            final(self).blink_state,
            final(self).blink_timer == 0,
    {
        if self.position.column > 0 {
            self.position.column = self.position.column - 1;
        } else if self.position.line > 0 {
            self.position.line = self.position.line - 1;
            self.position.column = 0;
        }
        self.reset_blink();
    }

    /// Step right, wrapping to the start of the next line past
    /// `max_column`.
    pub fn move_right(&mut self, max_column: usize)
        ensures
            final(self).position == move_right_pos(old(self).position, max_column as int),
            final(self).selection == old(self).selection,
            final(self).blink_state,
            final(self).blink_timer == 0,
    {
        if self.position.column < max_column {
            self.position.column = self.position.column + 1;
        } else {
            self.position.column = 0;
            self.position.line = self.position.line.saturating_add(1);
        }
        self.reset_blink();
    }

    /// Step up one line, clamped at the first line; the column is kept.
    pub fn move_up(&mut self)
        ensures
            final(self).position.line == if old(self).position.line > 0 {
                old(self).position.line - 1
            } else {
                0int
            },
            final(self).position.column == old(self).position.column,
            final(self).selection == old(self).selection,
            final(self).blink_state,
            final(self).blink_timer == 0,
    {
        if self.position.line > 0 {
            self.position.line = self.position.line - 1;
        }
        self.reset_blink();
    }

    /// Step down one line; the column is kept.
    pub fn move_down(&mut self)
        ensures
            final(self).position.line == if old(self).position.line < usize::MAX {
                old(self).position.line + 1
            } else {
                usize::MAX as int
            },
            final(self).position.column == old(self).position.column,
            final(self).selection == old(self).selection,
            final(self).blink_state,
            final(self).blink_timer == 0,
    {
        self.position.line = self.position.line.saturating_add(1);
        self.reset_blink();
    }

    /// Anchor a selection at the current position.
    pub fn start_selection(&mut self)
        ensures
            (final(self).selection matches Some(r) && r.start == old(self).position && r.end
                == old(self).position),
            final(self).position == old(self).position,
            final(self).blink_state == old(self).blink_state,
            final(self).blink_timer == old(self).blink_timer,
    {
        self.selection = Some(self.position..self.position);
    }

    /// Drop the selection.
    pub fn clear_selection(&mut self)
        ensures
            (final(self).selection is None),
            final(self).position == old(self).position,
            final(self).blink_state == old(self).blink_state,
            final(self).blink_timer == old(self).blink_timer,
    {
        self.selection = None;
    }

    /// Extend the selection's end to `position`, leaving the anchor fixed;
    /// a no-op without a selection.
    pub fn update_selection(&mut self, position: Position)
        ensures
            match old(self).selection {
                Option::None => (final(self).selection is None),
                Option::Some(r) => (final(self).selection matches Some(r2) && r2.start == r.start
                    && r2.end == position),
            },
            final(self).position == old(self).position,
            final(self).blink_state == old(self).blink_state,
            final(self).blink_timer == old(self).blink_timer,
    {
        match &mut self.selection {
            Some(selection) => {
                selection.end = position;
            },
            None => {},
        }
    }

    pub fn has_selection(&self) -> (r: bool)
        ensures
            r == (self.selection is Some),
    {
        self.selection.is_some()
    }

    /// Accumulate elapsed time; each time the total reaches the blink
    /// interval the visibility flips and the timer restarts.
    pub fn update_blink(&mut self, delta_ms: u64)
        ensures
            ({
                let t = if old(self).blink_timer + delta_ms <= u64::MAX {
                    old(self).blink_timer + delta_ms
                } else {
                    u64::MAX as int
                };
                if t >= BLINK_INTERVAL_MS {
                    final(self).blink_state == !old(self).blink_state && final(self).blink_timer
                        == 0
                } else {
                    final(self).blink_state == old(self).blink_state && final(self).blink_timer
                        == t
                }
            }),
            final(self).position == old(self).position,
            final(self).selection == old(self).selection,
    {
        self.blink_timer = self.blink_timer.saturating_add(delta_ms);
        if self.blink_timer >= BLINK_INTERVAL_MS {
            self.blink_state = !self.blink_state;
            self.blink_timer = 0;
        }
    }

    /// Force the cursor visible and restart the blink timer.
    pub fn reset_blink(&mut self)
        ensures
            final(self).blink_state,
            final(self).blink_timer == 0,
            final(self).position == old(self).position,
            final(self).selection == old(self).selection,
    {
        self.blink_state = true;
        self.blink_timer = 0;
    }

    pub fn should_draw(&self) -> (r: bool)
        ensures
            r == self.blink_state,
    {
        self.blink_state
    }
}

impl Default for Cursor {
    /// Same as `Cursor::new`.
    fn default() -> (r: Self)
        ensures
            r.position == (Position { line: 0usize, column: 0usize }),
            (r.selection is None),
            r.blink_state,
            r.blink_timer == 0,
    {
        Cursor::new()
    }
}

} // verus!
