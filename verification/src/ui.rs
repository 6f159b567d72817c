//! Chrome-level state of the editor window: which panels are open and
//! which tab is frontmost.

use vstd::prelude::*;

verus! {

/// Visibility of the main UI panels plus the index of the active tab.
pub struct UiState {
    pub file_explorer_open: bool,
    pub command_palette_open: bool,
    pub active_tab: usize,
}

impl Default for UiState {
    /// The editor starts with the file explorer shown and no palette.
    fn default() -> (r: Self)
        ensures
            r.file_explorer_open,
            !r.command_palette_open,
            r.active_tab == 0,
    {
        UiState { file_explorer_open: true, command_palette_open: false, active_tab: 0 }
    }
}

impl UiState {
    pub fn new() -> (r: Self)
        ensures
            r.file_explorer_open,
            !r.command_palette_open,
            r.active_tab == 0,
    {
        Self::default()
    }

    pub fn toggle_file_explorer(&mut self)
        ensures
            final(self).file_explorer_open == !old(self).file_explorer_open,
            final(self).command_palette_open == old(self).command_palette_open,
            final(self).active_tab == old(self).active_tab,
    {
        self.file_explorer_open = !self.file_explorer_open;
    }

    pub fn toggle_command_palette(&mut self)
        ensures
            final(self).command_palette_open == !old(self).command_palette_open,
            final(self).file_explorer_open == old(self).file_explorer_open,
            final(self).active_tab == old(self).active_tab,
    {
        self.command_palette_open = !self.command_palette_open;
    }

    pub fn set_active_tab(&mut self, index: usize)
        ensures
            final(self).active_tab == index,
            final(self).file_explorer_open == old(self).file_explorer_open,
            final(self).command_palette_open == old(self).command_palette_open,
    {
        self.active_tab = index;
    }
}

} // verus!
