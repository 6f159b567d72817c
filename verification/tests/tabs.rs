use nexus_core::tabs::{Tab, TabManager};

#[test]
fn test_new_manager_has_untitled_tab() {
    let manager = TabManager::new();
    assert_eq!(manager.tab_count(), 1);
    assert_eq!(manager.active_index(), 0);
    assert_eq!(manager.active_tab().title, "Untitled");
    assert!(manager.active_tab().buffer.is_empty());
}

#[test]
fn test_add_tab_becomes_active() {
    let mut manager = TabManager::new();
    manager.add_tab(Tab::new("Second".to_string()));
    assert_eq!(manager.tab_count(), 2);
    assert_eq!(manager.active_index(), 1);
    assert_eq!(manager.active_tab().title, "Second");
}

#[test]
fn test_from_file_takes_title_from_path() {
    let tab = Tab::from_file("src/main.rs".to_string(), "fn main() {}".to_string());
    assert_eq!(tab.title, "main.rs");
    assert_eq!(tab.buffer.text(), "fn main() {}");
    assert_eq!(tab.file_path, Some("src/main.rs".to_string()));
    assert!(!tab.is_modified);
    let odd = Tab::from_file("dir/".to_string(), String::new());
    assert_eq!(odd.title, "Untitled");
}

#[test]
fn test_display_title_marks_modified() {
    let mut tab = Tab::new("notes.txt".to_string());
    assert_eq!(tab.display_title(), "notes.txt");
    tab.is_modified = true;
    assert_eq!(tab.display_title(), "notes.txt*");
}

#[test]
fn test_close_tab_adjusts_active() {
    let mut manager = TabManager::new();
    manager.add_tab(Tab::new("b".to_string()));
    manager.add_tab(Tab::new("c".to_string()));
    assert_eq!(manager.active_index(), 2);
    assert!(manager.close_tab(0));
    assert_eq!(manager.tab_count(), 2);
    assert_eq!(manager.active_index(), 1);
    assert_eq!(manager.active_tab().title, "c");
    assert!(manager.close_tab(1));
    assert_eq!(manager.active_index(), 0);
}

#[test]
fn test_last_tab_cannot_close() {
    let mut manager = TabManager::new();
    assert!(!manager.close_tab(0));
    assert!(!manager.close_active_tab());
    assert_eq!(manager.tab_count(), 1);
}

#[test]
fn test_close_tab_out_of_range() {
    let mut manager = TabManager::new();
    manager.add_tab(Tab::new("b".to_string()));
    assert!(!manager.close_tab(5));
    assert_eq!(manager.tab_count(), 2);
}

#[test]
fn test_switch_and_cycle() {
    let mut manager = TabManager::new();
    manager.add_tab(Tab::new("b".to_string()));
    manager.add_tab(Tab::new("c".to_string()));
    manager.switch_to_tab(0);
    assert_eq!(manager.active_index(), 0);
    manager.switch_to_tab(9);
    assert_eq!(manager.active_index(), 0);
    manager.next_tab();
    assert_eq!(manager.active_index(), 1);
    manager.next_tab();
    manager.next_tab();
    assert_eq!(manager.active_index(), 0);
    manager.previous_tab();
    assert_eq!(manager.active_index(), 2);
    manager.previous_tab();
    assert_eq!(manager.active_index(), 1);
}

#[test]
fn test_active_tab_mut_edits_in_place() {
    let mut manager = TabManager::new();
    manager.active_tab_mut().buffer.insert_text(0, "hello");
    assert_eq!(manager.active_tab().buffer.text(), "hello");
    assert_eq!(manager.tabs().len(), 1);
}
