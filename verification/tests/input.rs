use nexus_core::buffer::Buffer;
use nexus_core::cursor::{Cursor, Position};
use nexus_core::input::{EditorKey, InputHandler};

#[test]
fn test_text_input_inserts_and_advances() {
    let handler = InputHandler::new();
    let mut buffer = Buffer::new();
    let mut cursor = Cursor::new();
    handler.handle_text_input("hi", &mut buffer, &mut cursor);
    assert_eq!(buffer.text(), "hi");
    assert_eq!(cursor.position, Position::new(0, 2));
    handler.handle_text_input("!\nok", &mut buffer, &mut cursor);
    assert_eq!(buffer.text(), "hi!\nok");
    assert_eq!(cursor.position, Position::new(1, 2));
}

#[test]
fn test_text_input_replaces_selection() {
    let handler = InputHandler::new();
    let mut buffer = Buffer::from_text("hello world");
    let mut cursor = Cursor::new();
    cursor.move_to(Position::new(0, 0));
    cursor.start_selection();
    cursor.update_selection(Position::new(0, 5));
    handler.handle_text_input("bye", &mut buffer, &mut cursor);
    assert_eq!(buffer.text(), "bye world");
    assert!(cursor.selection.is_none());
    assert_eq!(cursor.position, Position::new(0, 3));
}

#[test]
fn test_backspace_deletes_before_cursor() {
    let handler = InputHandler::new();
    let mut buffer = Buffer::from_text("Hello");
    let mut cursor = Cursor::new();
    cursor.move_to(Position::new(0, 5));
    handler.handle_key_event(EditorKey::Backspace, &mut buffer, &mut cursor);
    assert_eq!(buffer.text(), "Hell");
    assert_eq!(cursor.position, Position::new(0, 4));
}

#[test]
fn test_backspace_joins_lines() {
    let handler = InputHandler::new();
    let mut buffer = Buffer::from_text("ab\ncd");
    let mut cursor = Cursor::new();
    cursor.move_to(Position::new(1, 0));
    handler.handle_key_event(EditorKey::Backspace, &mut buffer, &mut cursor);
    assert_eq!(buffer.text(), "abcd");
    assert_eq!(cursor.position.line, 0);
    assert_eq!(cursor.position.column, 4);
}

#[test]
fn test_backspace_at_origin_is_noop() {
    let handler = InputHandler::new();
    let mut buffer = Buffer::from_text("ab");
    let mut cursor = Cursor::new();
    handler.handle_key_event(EditorKey::Backspace, &mut buffer, &mut cursor);
    assert_eq!(buffer.text(), "ab");
    assert_eq!(cursor.position, Position::zero());
}

#[test]
fn test_delete_key_removes_at_cursor() {
    let handler = InputHandler::new();
    let mut buffer = Buffer::from_text("abc");
    let mut cursor = Cursor::new();
    cursor.move_to(Position::new(0, 1));
    handler.handle_key_event(EditorKey::Delete, &mut buffer, &mut cursor);
    assert_eq!(buffer.text(), "ac");
    assert_eq!(cursor.position, Position::new(0, 1));
    cursor.move_to(Position::new(0, 2));
    handler.handle_key_event(EditorKey::Delete, &mut buffer, &mut cursor);
    assert_eq!(buffer.text(), "ac");
}

#[test]
fn test_delete_key_removes_selection() {
    let handler = InputHandler::new();
    let mut buffer = Buffer::from_text("hello world");
    let mut cursor = Cursor::new();
    cursor.move_to(Position::new(0, 5));
    cursor.start_selection();
    cursor.update_selection(Position::new(0, 0));
    handler.handle_key_event(EditorKey::Delete, &mut buffer, &mut cursor);
    assert_eq!(buffer.text(), " world");
    // Collapses to the lexicographically earlier endpoint.
    assert_eq!(cursor.position, Position::new(0, 0));
    assert!(cursor.selection.is_none());
}

#[test]
fn test_enter_splits_line() {
    let handler = InputHandler::new();
    let mut buffer = Buffer::from_text("ab");
    let mut cursor = Cursor::new();
    cursor.move_to(Position::new(0, 1));
    handler.handle_key_event(EditorKey::Enter, &mut buffer, &mut cursor);
    assert_eq!(buffer.text(), "a\nb");
    assert_eq!(cursor.position, Position::new(1, 0));
}

#[test]
fn test_tab_inserts_four_spaces() {
    let handler = InputHandler::new();
    let mut buffer = Buffer::from_text("ab");
    let mut cursor = Cursor::new();
    cursor.move_to(Position::new(0, 1));
    handler.handle_key_event(EditorKey::Tab, &mut buffer, &mut cursor);
    assert_eq!(buffer.text(), "a    b");
    assert_eq!(cursor.position, Position::new(0, 5));
}

#[test]
fn test_arrow_keys_move_and_clear_selection() {
    let handler = InputHandler::new();
    let mut buffer = Buffer::from_text("ab\ncd");
    let mut cursor = Cursor::new();
    cursor.start_selection();
    handler.handle_key_event(EditorKey::ArrowDown, &mut buffer, &mut cursor);
    assert!(cursor.selection.is_none());
    assert_eq!(cursor.position, Position::new(1, 0));
    handler.handle_key_event(EditorKey::ArrowRight, &mut buffer, &mut cursor);
    assert_eq!(cursor.position, Position::new(1, 1));
    handler.handle_key_event(EditorKey::ArrowUp, &mut buffer, &mut cursor);
    assert_eq!(cursor.position, Position::new(0, 1));
    handler.handle_key_event(EditorKey::ArrowLeft, &mut buffer, &mut cursor);
    assert_eq!(cursor.position, Position::new(0, 0));
}

#[test]
fn test_arrow_right_wraps_to_next_line() {
    let handler = InputHandler::new();
    let mut buffer = Buffer::from_text("ab\ncd");
    let mut cursor = Cursor::new();
    // Line 0 is "ab\n": three characters including the break.
    cursor.move_to(Position::new(0, 3));
    handler.handle_key_event(EditorKey::ArrowRight, &mut buffer, &mut cursor);
    assert_eq!(cursor.position, Position::new(1, 0));
}
