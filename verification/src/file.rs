//! Bookkeeping for the file behind a buffer: which path is open and
//! whether the buffer has unsaved changes.
//!
//! Reading and writing the file itself is the embedding application's
//! job; it hands the loaded content in and records a completed save here.

use vstd::prelude::*;
use crate::buffer::{Buffer, ChangeView};
use crate::strutil::{file_tail, file_tail_of};

verus! {

/// Tracks the currently open file path and the modified flag.
pub struct FileManager {
    current_file: Option<String>,
    is_modified: bool,
}

impl FileManager {
    /// The open path, as the ghost sequence of its characters.
    pub closed spec fn current_file_spec(&self) -> Option<Seq<char>> {
        match self.current_file {
            Option::Some(p) => Some(p@),
            Option::None => None,
        }
    }

    /// The modified flag.
    pub closed spec fn is_modified_spec(&self) -> bool {
        self.is_modified
    }

    /// No file open, nothing modified.
    pub fn new() -> (r: Self)
        ensures
            (r.current_file_spec() is None),
            !r.is_modified_spec(),
    {
        FileManager { current_file: None, is_modified: false }
    }

    /// Record an opened file: the buffer is replaced wholesale with
    /// `content` (fresh history, version zero), the path is remembered,
    /// and the modified flag is cleared.  The application reads the file
    /// and passes its content in.
    pub fn open(&mut self, path: String, content: &str, buffer: &mut Buffer)
        ensures
            final(buffer)@.text == content@,
            final(buffer)@.undo == Seq::<ChangeView>::empty(),
            final(buffer)@.redo == Seq::<ChangeView>::empty(),
            final(buffer)@.version == 0,
            final(buffer)@.wf(),
            final(self).current_file_spec() == Some(path@),
            !final(self).is_modified_spec(),
    {
        *buffer = Buffer::from_text(content);
        self.current_file = Some(path);
        self.is_modified = false;
    }

    /// Record a completed save to `path`: the path is remembered and the
    /// modified flag is cleared.  The application writes the buffer out
    /// and then calls this.
    pub fn record_save(&mut self, path: String)
        ensures
            final(self).current_file_spec() == Some(path@),
            !final(self).is_modified_spec(),
    {
        self.current_file = Some(path);
        self.is_modified = false;
    }

    /// Whether the buffer has unsaved changes.
    pub fn is_modified(&self) -> (r: bool)
        ensures
            r == self.is_modified_spec(),
    {
        self.is_modified
    }

    /// Set the modified flag.
    pub fn set_modified(&mut self, modified: bool)
        ensures
            final(self).is_modified_spec() == modified,
            final(self).current_file_spec() == old(self).current_file_spec(),
    {
        self.is_modified = modified;
    }

    /// The currently open path, if any.
    pub fn current_file(&self) -> (r: Option<&String>)
        ensures
            match self.current_file_spec() {
                Option::Some(p) => r matches Some(s) && s@ == p,
                Option::None => (r is None),
            },
    {
        self.current_file.as_ref()
    }

    /// The final component of the open path: what follows its last
    /// separator, or nothing if there is no open file or the path ends in
    /// a separator.
    pub fn current_file_name(&self) -> (r: Option<String>)
        ensures
            match self.current_file_spec() {
                Option::Some(p) => if file_tail(p).len() > 0 {
                    r matches Some(s) && s@ == file_tail(p)
                } else {
                    r is None
                },
                Option::None => (r is None),
            },
    {
        match &self.current_file {
            Some(path) => {
                let tail = file_tail_of(path.as_str());
                if tail.as_str().is_empty() {
                    None
                } else {
                    Some(tail)
                }
            },
            None => None,
        }
    }

    /// Forget the open file and clear the modified flag.
    pub fn close(&mut self)
        ensures
            (final(self).current_file_spec() is None),
            !final(self).is_modified_spec(),
    {
        self.current_file = None;
        self.is_modified = false;
    }

    /// Replace the buffer with a fresh empty one and forget the open
    /// file.
    pub fn new_file(&mut self, buffer: &mut Buffer)
        ensures
            final(buffer)@.text == Seq::<char>::empty(),
            final(buffer)@.undo == Seq::<ChangeView>::empty(),
            final(buffer)@.redo == Seq::<ChangeView>::empty(),
            final(buffer)@.version == 0,
            final(buffer)@.wf(),
            (final(self).current_file_spec() is None),
            !final(self).is_modified_spec(),
    {
        *buffer = Buffer::new();
        self.current_file = None;
        self.is_modified = false;
    }
}

impl Default for FileManager {
    /// Same as `FileManager::new`.
    fn default() -> (r: Self)
        ensures
            (r.current_file_spec() is None),
            !r.is_modified_spec(),
    {
        FileManager::new()
    }
}

} // verus!
