//! The file-explorer panel: a flat list of scanned directory entries with
//! a selection, visibility, and a plain-text rendering.
//!
//! Scanning the file system is the embedding application's job: it walks
//! the directories, filters names with `is_ignored`, and hands the
//! resulting nodes to `refresh`.  Everything the panel then does with
//! them — selection movement, expand toggling, rendering — is specified
//! here.

use vstd::prelude::*;
use vstd::string::StrSliceExecFns;
use crate::strutil::str_eq;

verus! {

/// One entry of the scanned tree: its path, display name, kind, expansion
/// state, and indentation depth.
#[derive(Debug, Clone)]
pub struct FileTreeNode {
    pub path: String,
    pub name: String,
    pub is_dir: bool,
    pub is_expanded: bool,
    pub depth: usize,
}

/// The file-explorer state: scanned nodes, the selected row, visibility,
/// and the root the application scans from.
pub struct FileTree {
    pub nodes: Vec<FileTreeNode>,
    pub selected_index: usize,
    pub is_visible: bool,
    pub root_path: String,
}

/// Names the scan skips: hidden entries and the usual build/dependency
/// directories.
pub open spec fn ignored_name(s: Seq<char>) -> bool {
    (s.len() > 0 && s[0] == '.') || s == "target"@ || s == "node_modules"@
}

/// `n` with its expansion state flipped.
pub open spec fn toggled_node(n: FileTreeNode) -> FileTreeNode {
    FileTreeNode {
        path: n.path,
        name: n.name,
        is_dir: n.is_dir,
        is_expanded: !n.is_expanded,
        depth: n.depth,
    }
}

/// Index of the first node at or after `i` whose path is `path`, if any.
pub open spec fn find_path_from(nodes: Seq<FileTreeNode>, path: Seq<char>, i: int) -> Option<int>
    decreases nodes.len() - i,
{
    if i < 0 || i >= nodes.len() {
        None
    } else if nodes[i].path@ == path {
        Some(i)
    } else {
        find_path_from(nodes, path, i + 1)
    }
}

/// `s` concatenated `n` times.
pub open spec fn repeat_seq(s: Seq<char>, n: int) -> Seq<char>
    decreases n,
{
    if n <= 0 {
        Seq::empty()
    } else {
        repeat_seq(s, n - 1) + s
    }
}

/// The icon a node is rendered with.
pub open spec fn node_icon(n: FileTreeNode) -> Seq<char> {
    if n.is_dir {
        if n.is_expanded {
            "📂"@
        } else {
            "📁"@
        }
    } else {
        "📄"@
    }
}

/// One rendered row: selection marker, indentation, icon, and name.
pub open spec fn node_line(n: FileTreeNode, selected: bool) -> Seq<char> {
    (if selected {
        ">"@
    } else {
        " "@
    }) + " "@ + repeat_seq("  "@, n.depth as int) + node_icon(n) + " "@ + n.name@ + "\n"@
}

/// The first `i` rendered rows, in order.
pub open spec fn rendered_rows(nodes: Seq<FileTreeNode>, selected: int, i: int) -> Seq<char>
    decreases i,
{
    if i <= 0 {
        Seq::empty()
    } else {
        rendered_rows(nodes, selected, i - 1) + node_line(nodes[i - 1], i - 1 == selected)
    }
}

/// The panel header: a title line and a rule.
pub open spec fn render_header() -> Seq<char> {
    "File Explorer\n"@ + repeat_seq("─"@, 30) + "\n"@
}

/// The whole rendered panel.
pub open spec fn rendered_tree(nodes: Seq<FileTreeNode>, selected: int) -> Seq<char> {
    render_header() + rendered_rows(nodes, selected, nodes.len() as int)
}

/// Whether the scan skips `name`: hidden entries (a leading dot) and the
/// usual build and dependency directories.
pub fn is_ignored(name: &str) -> (r: bool)
    ensures
        r == ignored_name(name@),
{
    if name.unicode_len() > 0 && name.get_char(0) == '.' {
        true
    } else {
        str_eq(name, "target") || str_eq(name, "node_modules")
    }
}

impl FileTree {
    /// An empty, hidden tree rooted at `root_path`; the application fills
    /// it with `refresh` after scanning.
    pub fn new(root_path: String) -> (r: Self)
        ensures
            r.nodes@ == Seq::<FileTreeNode>::empty(),
            r.selected_index == 0,
            !r.is_visible,
            r.root_path@ == root_path@,
    {
        let r = FileTree { nodes: Vec::new(), selected_index: 0, is_visible: false, root_path };
        proof {
            assert(r.nodes@ =~= Seq::<FileTreeNode>::empty());
        }
        r
    }

    /// Replace the nodes with a fresh scan's result.
    pub fn refresh(&mut self, nodes: Vec<FileTreeNode>)
        ensures
            final(self).nodes@ == nodes@,
            final(self).selected_index == old(self).selected_index,
            final(self).is_visible == old(self).is_visible,
            final(self).root_path@ == old(self).root_path@,
    {
        self.nodes = nodes;
    }

    /// Show or hide the panel.
    pub fn toggle_visibility(&mut self)
        ensures
            final(self).is_visible == !old(self).is_visible,
            final(self).nodes@ == old(self).nodes@,
            final(self).selected_index == old(self).selected_index,
            final(self).root_path@ == old(self).root_path@,
    {
        self.is_visible = !self.is_visible;
    }

    /// Move the selection up one row, stopping at the top.
    pub fn move_selection_up(&mut self)
        ensures
            final(self).selected_index == if old(self).selected_index > 0 {
                old(self).selected_index - 1
            } else {
                0int
            },
            final(self).nodes@ == old(self).nodes@,
            final(self).is_visible == old(self).is_visible,
            final(self).root_path@ == old(self).root_path@,
    {
        if self.selected_index > 0 {
            self.selected_index = self.selected_index - 1;
        }
    }

    /// Move the selection down one row, stopping at the last row.
    pub fn move_selection_down(&mut self)
        ensures
            final(self).selected_index == if old(self).selected_index + 1 < old(
                self,
            ).nodes@.len() {
                old(self).selected_index + 1
            } else {
                old(self).selected_index as int
            },
            final(self).nodes@ == old(self).nodes@,
            final(self).is_visible == old(self).is_visible,
            final(self).root_path@ == old(self).root_path@,
    {
        if self.selected_index < self.nodes.len().saturating_sub(1) {
            self.selected_index = self.selected_index + 1;
        }
    }

    /// Flip the expansion state of the selected node if it is a
    /// directory; the application rescans afterwards to show or hide its
    /// children.
    pub fn toggle_selected_expand(&mut self)
        ensures
            ({
                let sel = old(self).selected_index as int;
                if sel < old(self).nodes@.len() && old(self).nodes@[sel].is_dir {
                    final(self).nodes@ == old(self).nodes@.update(
                        sel,
                        toggled_node(old(self).nodes@[sel]),
                    )
                } else {
                    final(self).nodes@ == old(self).nodes@
                }
            }),
            final(self).selected_index == old(self).selected_index,
            final(self).is_visible == old(self).is_visible,
            final(self).root_path@ == old(self).root_path@,
    {
        let idx = self.selected_index;
        if idx < self.nodes.len() {
            let node = &mut self.nodes[idx];
            if node.is_dir {
                node.is_expanded = !node.is_expanded;
            }
            proof {
                if !old(self).nodes@[idx as int].is_dir {
                    assert(final(self).nodes@ =~= old(self).nodes@);
                }
            }
        }
    }

    /// Select the first node whose path is `path`, if one exists;
    /// otherwise keep the selection.  Used to restore the selection after
    /// a rescan.
    pub fn select_path(&mut self, path: &str)
        ensures
            final(self).selected_index == match find_path_from(old(self).nodes@, path@, 0) {
                Option::Some(i) => i,
                Option::None => old(self).selected_index as int,
            },
            final(self).nodes@ == old(self).nodes@,
            final(self).is_visible == old(self).is_visible,
            final(self).root_path@ == old(self).root_path@,
    {
        let n = self.nodes.len();
        let mut i: usize = 0;
        while i < n
            invariant
                n == self.nodes@.len(),
                i <= n,
                *self == *old(self),
                find_path_from(self.nodes@, path@, 0) == find_path_from(
                    self.nodes@,
                    path@,
                    i as int,
                ),
            decreases n - i,
        {
            if str_eq(self.nodes[i].path.as_str(), path) {
                self.selected_index = i;
                return ;
            }
            i = i + 1;
        }
    }

    /// The path of the selected node, if the selection is in range.
    pub fn get_selected_path(&self) -> (r: Option<String>)
        ensures
            if self.selected_index < self.nodes@.len() {
                r matches Some(p) && p@ == self.nodes@[self.selected_index as int].path@
            } else {
                r is None
            },
    {
        if self.selected_index < self.nodes.len() {
            Some(clone_string(&self.nodes[self.selected_index].path))
        } else {
            None
        }
    }

    /// The selected node, if the selection is in range.
    pub fn get_selected_node(&self) -> (r: Option<&FileTreeNode>)
        ensures
            if self.selected_index < self.nodes@.len() {
                r matches Some(node) && *node == self.nodes@[self.selected_index as int]
            } else {
                r is None
            },
    {
        if self.selected_index < self.nodes.len() {
            Some(&self.nodes[self.selected_index])
        } else {
            None
        }
    }

    /// Render the panel as plain text: a header, then one row per node
    /// with the selection marker, indentation, icon, and name.
    #[verifier::rlimit(30)]
    pub fn render_text(&self) -> (r: String)
        ensures
            r@ == rendered_tree(self.nodes@, self.selected_index as int),
    {
        let mut text = String::new();
        text.append("File Explorer\n");
        let mut k: usize = 0;
        while k < 30
            invariant
                text@ == "File Explorer\n"@ + repeat_seq("─"@, k as int),
                k <= 30,
            decreases 30 - k,
        {
            text.append("─");
            k = k + 1;
        }
        text.append("\n");
        let n = self.nodes.len();
        let mut idx: usize = 0;
        while idx < n
            invariant
                n == self.nodes@.len(),
                idx <= n,
                text@ == render_header() + rendered_rows(
                    self.nodes@,
                    self.selected_index as int,
                    idx as int,
                ),
            decreases n - idx,
        {
            if idx == self.selected_index {
                text.append(">");
            } else {
                text.append(" ");
            }
            text.append(" ");
            let depth = self.nodes[idx].depth;
            let ghost mid = text@;
            let mut d: usize = 0;
            while d < depth
                invariant
                    text@ == mid + repeat_seq("  "@, d as int),
                    d <= depth,
                decreases depth - d,
            {
                text.append("  ");
                d = d + 1;
            }
            if self.nodes[idx].is_dir {
                if self.nodes[idx].is_expanded {
                    text.append("📂");
                } else {
                    text.append("📁");
                }
            } else {
                text.append("📄");
            }
            text.append(" ");
            text.append(self.nodes[idx].name.as_str());
            text.append("\n");
            proof {
                let nodes = self.nodes@;
                let sel = self.selected_index as int;
                assert(rendered_rows(nodes, sel, idx + 1) == rendered_rows(nodes, sel, idx as int)
                    + node_line(nodes[idx as int], idx == sel));
                assert(text@ =~= render_header() + rendered_rows(nodes, sel, idx + 1));
            }
            idx = idx + 1;
        }
        text
    }
}

/// A copy of `s` with the same characters.
fn clone_string(s: &String) -> (r: String)
    ensures
        r@ == s@,
{
    s.as_str().to_owned()
}

} // verus!
