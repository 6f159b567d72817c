use nexus_core::file_tree::{is_ignored, FileTree, FileTreeNode};

fn node(path: &str, name: &str, is_dir: bool, depth: usize) -> FileTreeNode {
    FileTreeNode {
        path: path.to_string(),
        name: name.to_string(),
        is_dir,
        is_expanded: depth == 0,
        depth,
    }
}

#[test]
fn test_ignored_names() {
    assert!(is_ignored(".git"));
    assert!(is_ignored(".hidden"));
    assert!(is_ignored("target"));
    assert!(is_ignored("node_modules"));
    assert!(!is_ignored("src"));
    assert!(!is_ignored("targets"));
    assert!(!is_ignored(""));
}

#[test]
fn test_new_tree_is_empty_and_hidden() {
    let tree = FileTree::new("/repo".to_string());
    assert_eq!(tree.nodes.len(), 0);
    assert_eq!(tree.selected_index, 0);
    assert!(!tree.is_visible);
    assert_eq!(tree.root_path, "/repo");
}

#[test]
fn test_toggle_visibility() {
    let mut tree = FileTree::new("/repo".to_string());
    tree.toggle_visibility();
    assert!(tree.is_visible);
    tree.toggle_visibility();
    assert!(!tree.is_visible);
}

#[test]
fn test_selection_moves_clamp() {
    let mut tree = FileTree::new("/repo".to_string());
    tree.refresh(vec![
        node("/repo/a", "a", false, 0),
        node("/repo/b", "b", false, 0),
        node("/repo/c", "c", false, 0),
    ]);
    tree.move_selection_up();
    assert_eq!(tree.selected_index, 0);
    tree.move_selection_down();
    tree.move_selection_down();
    assert_eq!(tree.selected_index, 2);
    tree.move_selection_down();
    assert_eq!(tree.selected_index, 2);
    tree.move_selection_up();
    assert_eq!(tree.selected_index, 1);
}

#[test]
fn test_toggle_selected_expand_only_dirs() {
    let mut tree = FileTree::new("/repo".to_string());
    tree.refresh(vec![node("/repo/src", "src", true, 0), node("/repo/x.rs", "x.rs", false, 0)]);
    assert!(tree.nodes[0].is_expanded);
    tree.toggle_selected_expand();
    assert!(!tree.nodes[0].is_expanded);
    tree.move_selection_down();
    tree.toggle_selected_expand();
    assert_eq!(tree.nodes[1].is_expanded, true);
    assert_eq!(tree.nodes[1].is_dir, false);
}

#[test]
fn test_select_path_restores_selection() {
    let mut tree = FileTree::new("/repo".to_string());
    tree.refresh(vec![
        node("/repo/a", "a", false, 0),
        node("/repo/b", "b", false, 0),
        node("/repo/c", "c", false, 0),
    ]);
    tree.select_path("/repo/c");
    assert_eq!(tree.selected_index, 2);
    tree.select_path("/repo/missing");
    assert_eq!(tree.selected_index, 2);
    tree.select_path("/repo/a");
    assert_eq!(tree.selected_index, 0);
}

#[test]
fn test_selected_path_and_node() {
    let mut tree = FileTree::new("/repo".to_string());
    assert!(tree.get_selected_path().is_none());
    assert!(tree.get_selected_node().is_none());
    tree.refresh(vec![node("/repo/a", "a", true, 0)]);
    assert_eq!(tree.get_selected_path(), Some("/repo/a".to_string()));
    assert_eq!(tree.get_selected_node().unwrap().name, "a");
}

#[test]
fn test_render_text_layout() {
    let mut tree = FileTree::new("/repo".to_string());
    tree.refresh(vec![
        node("/repo/src", "src", true, 0),
        node("/repo/src/main.rs", "main.rs", false, 1),
    ]);
    let text = tree.render_text();
    let mut expected = String::from("File Explorer\n");
    expected.push_str(&"\u{2500}".repeat(30));
    expected.push('\n');
    expected.push_str("> \u{1F4C2} src\n");
    expected.push_str("    \u{1F4C4} main.rs\n");
    assert_eq!(text, expected);
}
