use nexus_core::buffer::Buffer;
use nexus_core::file::FileManager;

#[test]
fn test_modified_flag() {
    let mut file_manager = FileManager::new();
    assert!(!file_manager.is_modified());

    file_manager.set_modified(true);
    assert!(file_manager.is_modified());

    file_manager.set_modified(false);
    assert!(!file_manager.is_modified());
}

#[test]
fn test_open_replaces_buffer() {
    let mut file_manager = FileManager::new();
    let mut buffer = Buffer::from_text("old");
    buffer.insert_text(0, "x");
    file_manager.open("notes/todo.txt".to_string(), "fresh content", &mut buffer);
    assert_eq!(buffer.text(), "fresh content");
    assert_eq!(buffer.version(), 0);
    assert!(!buffer.undo());
    assert_eq!(file_manager.current_file(), Some(&"notes/todo.txt".to_string()));
    assert!(!file_manager.is_modified());
}

#[test]
fn test_current_file_name() {
    let mut file_manager = FileManager::new();
    assert_eq!(file_manager.current_file_name(), None);
    file_manager.record_save("a/b/nexus_test.txt".to_string());
    assert_eq!(file_manager.current_file_name(), Some("nexus_test.txt".to_string()));
    file_manager.record_save("plain.rs".to_string());
    assert_eq!(file_manager.current_file_name(), Some("plain.rs".to_string()));
    file_manager.record_save("dir/".to_string());
    assert_eq!(file_manager.current_file_name(), None);
}

#[test]
fn test_record_save_clears_modified() {
    let mut file_manager = FileManager::new();
    file_manager.set_modified(true);
    file_manager.record_save("out.txt".to_string());
    assert!(!file_manager.is_modified());
    assert_eq!(file_manager.current_file(), Some(&"out.txt".to_string()));
}

#[test]
fn test_close_forgets_file() {
    let mut file_manager = FileManager::new();
    file_manager.record_save("out.txt".to_string());
    file_manager.set_modified(true);
    file_manager.close();
    assert_eq!(file_manager.current_file(), None);
    assert!(!file_manager.is_modified());
}

#[test]
fn test_new_file_resets_buffer() {
    let mut file_manager = FileManager::new();
    let mut buffer = Buffer::from_text("content");
    file_manager.record_save("out.txt".to_string());
    file_manager.new_file(&mut buffer);
    assert_eq!(buffer.text(), "");
    assert_eq!(file_manager.current_file(), None);
    assert!(!file_manager.is_modified());
}
