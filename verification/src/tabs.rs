//! Tabs: one open document per tab (buffer, cursor, file path, title),
//! and the manager that keeps at least one tab open and tracks which one
//! is active.

use vstd::prelude::*;
use crate::buffer::{insert_op, Buffer, BufferView, ChangeView};
use crate::cursor::Cursor;
use crate::strutil::{file_tail, file_tail_of};

verus! {

/// One open document: its buffer, cursor, optional backing file path,
/// modified flag, and display title.
pub struct Tab {
    pub buffer: Buffer,
    pub cursor: Cursor,
    pub file_path: Option<String>,
    pub is_modified: bool,
    pub title: String,
}

/// A freshly made cursor: origin, no selection, shown.
pub open spec fn fresh_cursor(c: Cursor) -> bool {
    c.position.line == 0 && c.position.column == 0 && c.selection is None && c.blink_state
        && c.blink_timer == 0
}

/// The ghost state of an empty buffer.
pub open spec fn empty_buffer() -> BufferView {
    BufferView {
        text: Seq::empty(),
        undo: Seq::empty(),
        redo: Seq::empty(),
        version: 0,
    }
}

/// The title a path gets: what follows its last separator, or a default
/// for an empty tail.
pub open spec fn title_of_path(p: Seq<char>) -> Seq<char> {
    if file_tail(p).len() > 0 {
        file_tail(p)
    } else {
        "Untitled"@
    }
}

impl Tab {
    /// A tab with `title`, holding an empty buffer and no backing file.
    pub fn new(title: String) -> (r: Self)
        ensures
            r.buffer@ == empty_buffer(),
            r.buffer@.wf(),
            fresh_cursor(r.cursor),
            (r.file_path is None),
            !r.is_modified,
            r.title@ == title@,
    {
        let r = Tab {
            buffer: Buffer::new(),
            cursor: Cursor::new(),
            file_path: None,
            is_modified: false,
            title,
        };
        proof {
            assert(r.buffer@ =~= empty_buffer());
        }
        r
    }

    /// A tab for a file: the content is typed into a fresh buffer (so it
    /// is one undo step), the path is kept, and the title is the path's
    /// final component.
    pub fn from_file(path: String, content: String) -> (r: Self)
        ensures
            r.buffer@ == insert_op(empty_buffer(), 0, content@),
            r.buffer@.wf(),
            fresh_cursor(r.cursor),
            r.file_path matches Some(p) && p@ == path@,
            !r.is_modified,
            r.title@ == title_of_path(path@),
    {
        let mut buffer = Buffer::new();
        proof {
            assert(buffer@ =~= empty_buffer());
        }
        buffer.insert_text(0, content.as_str());
        let tail = file_tail_of(path.as_str());
        let title = if tail.as_str().is_empty() {
            "Untitled".to_owned()
        } else {
            tail
        };
        Tab {
            buffer,
            cursor: Cursor::new(),
            file_path: Some(path),
            is_modified: false,
            title,
        }
    }

    /// The title, with a trailing marker when the tab has unsaved
    /// changes.
    pub fn display_title(&self) -> (r: String)
        ensures
            r@ == if self.is_modified {
                self.title@ + "*"@
            } else {
                self.title@
            },
    {
        if self.is_modified {
            let t = self.title.clone();
            t.concat("*")
        } else {
            self.title.clone()
        }
    }

    /// The tab's buffer history is well formed.
    pub open spec fn wf(&self) -> bool {
        self.buffer@.wf()
    }
}

/// The open tabs and the index of the active one.  There is always at
/// least one tab, and the active index always points at one.
pub struct TabManager {
    tabs: Vec<Tab>,
    active_index: usize,
}

impl TabManager {
    /// The open tabs.
    pub closed spec fn tabs_spec(&self) -> Seq<Tab> {
        self.tabs@
    }

    /// Index of the active tab.
    pub closed spec fn active_spec(&self) -> int {
        self.active_index as int
    }

    /// At least one tab, the active index in range, and every tab's
    /// buffer history well formed.
    pub open spec fn wf(&self) -> bool {
        self.tabs_spec().len() >= 1 && 0 <= self.active_spec() < self.tabs_spec().len() && forall|
            i: int,
        | 0 <= i < self.tabs_spec().len() ==> (#[trigger] self.tabs_spec()[i]).wf()
    }

    /// Starts with a single untitled tab.
    pub fn new() -> (r: Self)
        ensures
            r.wf(),
            r.tabs_spec().len() == 1,
            r.active_spec() == 0,
            r.tabs_spec()[0].buffer@ == empty_buffer(),
            fresh_cursor(r.tabs_spec()[0].cursor),
            (r.tabs_spec()[0].file_path is None),
            !r.tabs_spec()[0].is_modified,
            r.tabs_spec()[0].title@ == "Untitled"@,
    {
        let mut tabs: Vec<Tab> = Vec::new();
        tabs.push(Tab::new("Untitled".to_owned()));
        TabManager { tabs, active_index: 0 }
    }

    /// Append a tab and make it active.
    pub fn add_tab(&mut self, tab: Tab)
        requires
            old(self).wf(),
            tab.wf(),
        ensures
            final(self).wf(),
            final(self).tabs_spec() == old(self).tabs_spec().push(tab),
            final(self).active_spec() == old(self).tabs_spec().len(),
    {
        self.tabs.push(tab);
        self.active_index = self.tabs.len() - 1;
    }

    /// Close the tab at `index`.  Refuses (returning `false`) to close
    /// the last remaining tab or an index out of range; otherwise the tab
    /// is removed and the active index is pulled back into range.
    pub fn close_tab(&mut self, index: usize) -> (r: bool)
        requires
            old(self).wf(),
        ensures
            final(self).wf(),
            r == (old(self).tabs_spec().len() > 1 && index < old(self).tabs_spec().len()),
            r ==> final(self).tabs_spec() == old(self).tabs_spec().remove(index as int),
            r ==> final(self).active_spec() == adjust_active(
                old(self).active_spec(),
                index as int,
                old(self).tabs_spec().len() - 1,
            ),
            !r ==> *final(self) == *old(self),
    {
        if self.tabs.len() <= 1 {
            return false;
        }
        if index < self.tabs.len() {
            self.tabs.remove(index);
            if self.active_index >= self.tabs.len() {
                self.active_index = self.tabs.len() - 1;
            } else if self.active_index > index {
                self.active_index = self.active_index - 1;
            }
            proof {
                assert forall|i: int| 0 <= i < self.tabs_spec().len() implies (
                #[trigger] self.tabs_spec()[i]).wf() by {
                    assert(self.tabs_spec()[i] == if i < index {
                        old(self).tabs_spec()[i]
                    } else {
                        old(self).tabs_spec()[i + 1]
                    });
                }
            }
            true
        } else {
            false
        }
    }

    /// Close the active tab (same refusals as `close_tab`).
    pub fn close_active_tab(&mut self) -> (r: bool)
        requires
            old(self).wf(),
        ensures
            final(self).wf(),
            r == (old(self).tabs_spec().len() > 1),
            r ==> final(self).tabs_spec() == old(self).tabs_spec().remove(old(self).active_spec()),
            r ==> final(self).active_spec() == adjust_active(
                old(self).active_spec(),
                old(self).active_spec(),
                old(self).tabs_spec().len() - 1,
            ),
            !r ==> *final(self) == *old(self),
    {
        let idx = self.active_index;
        self.close_tab(idx)
    }

    /// Make the tab at `index` active; out of range is a no-op.
    pub fn switch_to_tab(&mut self, index: usize)
        requires
            old(self).wf(),
        ensures
            final(self).wf(),
            final(self).tabs_spec() == old(self).tabs_spec(),
            final(self).active_spec() == if index < old(self).tabs_spec().len() {
                index as int
            } else {
                old(self).active_spec()
            },
    {
        if index < self.tabs.len() {
            self.active_index = index;
        }
    }

    /// Cycle to the next tab, wrapping at the end.
    pub fn next_tab(&mut self)
        requires
            old(self).wf(),
        ensures
            final(self).wf(),
            final(self).tabs_spec() == old(self).tabs_spec(),
            final(self).active_spec() == (old(self).active_spec() + 1) % old(
                self,
            ).tabs_spec().len() as int,
    {
        let len = self.tabs.len();
        self.active_index = (self.active_index + 1) % len;
    }

    /// Cycle to the previous tab, wrapping at the start.
    pub fn previous_tab(&mut self)
        requires
            old(self).wf(),
        ensures
            final(self).wf(),
            final(self).tabs_spec() == old(self).tabs_spec(),
            final(self).active_spec() == if old(self).active_spec() == 0 {
                old(self).tabs_spec().len() - 1
            } else {
                old(self).active_spec() - 1
            },
    {
        if self.active_index == 0 {
            self.active_index = self.tabs.len() - 1;
        } else {
            self.active_index = self.active_index - 1;
        }
    }

    /// The active tab.
    pub fn active_tab(&self) -> (r: &Tab)
        requires
            self.wf(),
        ensures
            *r == self.tabs_spec()[self.active_spec()],
    {
        &self.tabs[self.active_index]
    }

    /// The active tab, for editing.  The manager's shape (tab count and
    /// active index) is unchanged; the caller's writes land in the active
    /// slot, and the manager stays well formed as long as the tab's
    /// buffer history does.
    pub fn active_tab_mut(&mut self) -> (r: &mut Tab)
        requires
            old(self).wf(),
        ensures
            *r == old(self).tabs_spec()[old(self).active_spec()],
            final(self).tabs_spec() == old(self).tabs_spec().update(
                old(self).active_spec(),
                *final(r),
            ),
            final(self).active_spec() == old(self).active_spec(),
    {
        let idx = self.active_index;
        &mut self.tabs[idx]
    }

    /// All open tabs, in order.
    pub fn tabs(&self) -> (r: &[Tab])
        ensures
            r@ == self.tabs_spec(),
    {
        self.tabs.as_slice()
    }

    /// Index of the active tab.
    pub fn active_index(&self) -> (r: usize)
        ensures
            r == self.active_spec(),
    {
        self.active_index
    }

    /// Number of open tabs.
    pub fn tab_count(&self) -> (r: usize)
        ensures
            r == self.tabs_spec().len(),
    {
        self.tabs.len()
    }
}

/// Writing a well-formed tab back into a well-formed sequence of tabs
/// keeps every tab well formed: what a caller of `active_tab_mut` needs
/// to restore the manager's invariant after editing the active tab.
pub proof fn lemma_update_tab_wf(s: Seq<Tab>, i: int, t: Tab)
    requires
        forall|j: int| 0 <= j < s.len() ==> (#[trigger] s[j]).wf(),
        t.wf(),
        0 <= i < s.len(),
    ensures
        forall|j: int| 0 <= j < s.update(i, t).len() ==> (#[trigger] s.update(i, t)[j]).wf(),
{
    assert forall|j: int| 0 <= j < s.update(i, t).len() implies (#[trigger] s.update(i, t)[j]).wf()
        by {
        if j != i {
            assert(s.update(i, t)[j] == s[j]);
        }
    }
}

/// Where the active index lands after removing the tab at `index` from a
/// manager that then holds `new_len` tabs.
pub open spec fn adjust_active(active: int, index: int, new_len: int) -> int {
    if active >= new_len {
        new_len - 1
    } else if active > index {
        active - 1
    } else {
        active
    }
}

impl Default for TabManager {
    /// Same as `TabManager::new`.
    fn default() -> (r: Self)
        ensures
            r.wf(),
            r.tabs_spec().len() == 1,
            r.active_spec() == 0,
    {
        TabManager::new()
    }
}

} // verus!
