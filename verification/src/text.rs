//! Mathematical model of line-indexed text.
//!
//! A document is a sequence of `char`s; lines are separated by `'\n'`.
//! These spec functions define line counting, the starting offset of each
//! line, and the line/column coordinates of an offset.  The lemmas culminate
//! in the round-trip law: converting a valid offset to a (line, column)
//! position and back yields the same offset.

use vstd::prelude::*;

verus! {

/// Number of `'\n'` characters in `s`.
pub open spec fn count_newlines(s: Seq<char>) -> int
    decreases s.len(),
{
    if s.len() == 0 {
        0
    } else {
        count_newlines(s.drop_last()) + if s.last() == '\n' {
            1int
        } else {
            0int
        }
    }
}

/// Number of lines in `s`: one more than the number of line breaks.
pub open spec fn line_count_of(s: Seq<char>) -> int {
    count_newlines(s) + 1
}

/// Index of the first `'\n'` at or after `i`, or `s.len()` if there is none.
pub open spec fn end_of_line(s: Seq<char>, i: int) -> int
    decreases s.len() - i,
{
    if i < 0 || i >= s.len() {
        s.len() as int
    } else if s[i] == '\n' {
        i
    } else {
        end_of_line(s, i + 1)
    }
}

/// Offset of the first character of line `l` (clamped to `s.len()` for
/// lines past the end).
pub open spec fn line_start(s: Seq<char>, l: int) -> int
    decreases l,
{
    if l <= 0 {
        0
    } else {
        let e = end_of_line(s, line_start(s, l - 1));
        if e < s.len() {
            e + 1
        } else {
            s.len() as int
        }
    }
}

/// Line index containing offset `o`: the number of line breaks before it.
pub open spec fn line_of(s: Seq<char>, o: int) -> int {
    count_newlines(s.take(o))
}

/// Column of offset `o`: its distance from the start of its line.
pub open spec fn col_of(s: Seq<char>, o: int) -> int {
    o - line_start(s, line_of(s, o))
}

/// Length of line `l` including its trailing line break, if any.
pub open spec fn line_len_of(s: Seq<char>, l: int) -> int {
    line_start(s, l + 1) - line_start(s, l)
}

/// Offset addressed by a (line, column) position, with both coordinates
/// clamped: a line past the end maps to `s.len()`, a column past the line's
/// length maps to the end of the line.
pub open spec fn offset_of_pos(s: Seq<char>, line: int, col: int) -> int {
    if line < 0 || line >= line_count_of(s) {
        s.len() as int
    } else {
        let ls = line_start(s, line);
        let ll = line_len_of(s, line);
        if col <= ll {
            if col < 0 {
                ls
            } else {
                ls + col
            }
        } else {
            ls + ll
        }
    }
}

/// Extending a prefix by one character adds its line break, if it is one.
pub proof fn lemma_count_newlines_step(s: Seq<char>, i: int)
    requires
        0 <= i < s.len(),
    ensures
        count_newlines(s.take(i + 1)) == count_newlines(s.take(i)) + if s[i] == '\n' {
            1int
        } else {
            0int
        },
{
    assert(s.take(i + 1).drop_last() =~= s.take(i));
    assert(s.take(i + 1).last() == s[i]);
}

/// Line break counts grow with the prefix.
pub proof fn lemma_count_newlines_mono(s: Seq<char>, i: int, j: int)
    requires
        0 <= i <= j <= s.len(),
    ensures
        count_newlines(s.take(i)) <= count_newlines(s.take(j)),
    decreases j - i,
{
    if i < j {
        lemma_count_newlines_step(s, j - 1);
        lemma_count_newlines_mono(s, i, j - 1);
    }
}

/// The whole sequence is its own prefix.
pub proof fn lemma_count_newlines_take_all(s: Seq<char>)
    ensures
        count_newlines(s.take(s.len() as int)) == count_newlines(s),
{
    assert(s.take(s.len() as int) =~= s);
}

/// A stretch without line breaks does not change the count.
pub proof fn lemma_count_newlines_flat(s: Seq<char>, i: int, j: int)
    requires
        0 <= i <= j <= s.len(),
        forall|k: int| i <= k < j ==> s[k] != '\n',
    ensures
        count_newlines(s.take(j)) == count_newlines(s.take(i)),
    decreases j - i,
{
    if i < j {
        lemma_count_newlines_step(s, j - 1);
        lemma_count_newlines_flat(s, i, j - 1);
    }
}

/// `end_of_line` lands on the next line break (or the end) and skips
/// nothing but non-break characters.
pub proof fn lemma_end_of_line(s: Seq<char>, i: int)
    requires
        0 <= i <= s.len(),
    ensures
        i <= end_of_line(s, i) <= s.len(),
        forall|k: int| i <= k < end_of_line(s, i) ==> s[k] != '\n',
        end_of_line(s, i) < s.len() ==> s[end_of_line(s, i)] == '\n',
    decreases s.len() - i,
{
    if i < s.len() && s[i] != '\n' {
        lemma_end_of_line(s, i + 1);
    }
}

/// `line_start` always stays within the document.
pub proof fn lemma_line_start_bounds(s: Seq<char>, l: int)
    ensures
        0 <= line_start(s, l) <= s.len(),
    decreases l,
{
    if l > 0 {
        lemma_line_start_bounds(s, l - 1);
        lemma_end_of_line(s, line_start(s, l - 1));
    }
}

/// Consecutive line starts never move backwards.
pub proof fn lemma_line_start_mono(s: Seq<char>, l: int)
    ensures
        line_start(s, l) <= line_start(s, l + 1),
{
    lemma_line_start_bounds(s, l);
    lemma_end_of_line(s, line_start(s, l));
    if l + 1 > 0 && l <= 0 {
        lemma_line_start_bounds(s, l + 1);
    }
}

/// The start of a real line `l` sits just after the `l`-th line break, and
/// exactly `l` breaks precede it.
pub proof fn lemma_line_start_count(s: Seq<char>, l: int)
    requires
        0 <= l <= count_newlines(s),
    ensures
        0 <= line_start(s, l) <= s.len(),
        count_newlines(s.take(line_start(s, l))) == l,
        l > 0 ==> line_start(s, l) > 0 && s[line_start(s, l) - 1] == '\n',
    decreases l,
{
    lemma_line_start_bounds(s, l);
    if l == 0 {
        assert(s.take(0) =~= Seq::<char>::empty());
    } else {
        lemma_line_start_count(s, l - 1);
        let p = line_start(s, l - 1);
        let e = end_of_line(s, p);
        lemma_end_of_line(s, p);
        lemma_count_newlines_flat(s, p, e);
        if e < s.len() {
            lemma_count_newlines_step(s, e);
        } else {
            // A break for line `l` must exist: otherwise the document would
            // hold only `l - 1` breaks.
            lemma_count_newlines_take_all(s);
            assert(false);
        }
    }
}

/// Locating an offset: its line index is at most the break count, its
/// line's start is at or before it, and the next break is at or after it.
pub proof fn lemma_locate_offset(s: Seq<char>, o: int)
    requires
        0 <= o <= s.len(),
    ensures
        0 <= line_of(s, o) <= count_newlines(s),
        line_start(s, line_of(s, o)) <= o,
        o <= end_of_line(s, line_start(s, line_of(s, o))),
{
    let l = line_of(s, o);
    assert(s.take(0) =~= Seq::<char>::empty());
    lemma_count_newlines_mono(s, 0, o);
    lemma_count_newlines_mono(s, o, s.len() as int);
    lemma_count_newlines_take_all(s);
    lemma_line_start_count(s, l);
    let p = line_start(s, l);
    // line_start(s, l) <= o: otherwise the prefix up to o would hold fewer
    // than l breaks.
    if p > o {
        assert(l > 0);
        lemma_count_newlines_step(s, p - 1);
        lemma_count_newlines_mono(s, o, p - 1);
        assert(false);
    }
    // o <= end_of_line: otherwise the prefix up to o would hold more than
    // l breaks.
    let e = end_of_line(s, p);
    lemma_end_of_line(s, p);
    if o > e {
        lemma_count_newlines_flat(s, p, e);
        lemma_count_newlines_step(s, e);
        lemma_count_newlines_mono(s, e + 1, o);
        assert(false);
    }
}

/// Round trip: converting a valid offset to (line, column) coordinates and
/// back yields the offset unchanged.
pub proof fn lemma_offset_position_round_trip(s: Seq<char>, o: int)
    requires
        0 <= o <= s.len(),
    ensures
        offset_of_pos(s, line_of(s, o), col_of(s, o)) == o,
{
    let l = line_of(s, o);
    let p = line_start(s, l);
    let e = end_of_line(s, p);
    lemma_locate_offset(s, o);
    lemma_line_start_count(s, l);
    lemma_end_of_line(s, p);
    if l < count_newlines(s) {
        // Not the last line: its break exists, so the next line starts at
        // `e + 1` and the column never exceeds the line length.
        if e >= s.len() {
            lemma_count_newlines_flat(s, p, e);
            lemma_count_newlines_take_all(s);
            assert(false);
        }
        assert(line_start(s, l + 1) == e + 1);
    } else {
        // Last line: the next line start clamps to the end of the document.
        if e < s.len() {
            lemma_count_newlines_flat(s, p, e);
            lemma_count_newlines_step(s, e);
            lemma_count_newlines_mono(s, e + 1, s.len() as int);
            lemma_count_newlines_take_all(s);
            assert(false);
        }
        assert(line_start(s, l + 1) == s.len());
    }
}

} // verus!
