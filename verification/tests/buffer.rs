use nexus_core::buffer::Buffer;

#[test]
fn test_buffer_creation() {
    let buffer = Buffer::new();
    assert_eq!(buffer.len(), 0);
    assert!(buffer.is_empty());
}

#[test]
fn test_insert_text() {
    let mut buffer = Buffer::new();
    buffer.insert_text(0, "Hello, World!");
    assert_eq!(buffer.text(), "Hello, World!");
    assert_eq!(buffer.len(), 13);
}

#[test]
fn test_delete_range() {
    let mut buffer = Buffer::from_text("Hello, World!");
    buffer.delete_range(7..12);
    assert_eq!(buffer.text(), "Hello, !");
}

#[test]
fn test_undo_redo() {
    let mut buffer = Buffer::new();
    buffer.insert_text(0, "Hello");
    buffer.insert_text(5, " World");

    assert_eq!(buffer.text(), "Hello World");

    buffer.undo();
    assert_eq!(buffer.text(), "Hello");

    buffer.redo();
    assert_eq!(buffer.text(), "Hello World");
}

#[test]
fn test_line_operations() {
    let buffer = Buffer::from_text("Line 1\nLine 2\nLine 3");
    assert_eq!(buffer.line_count(), 3);
    assert_eq!(buffer.line(0), "Line 1\n");
    assert_eq!(buffer.line(1), "Line 2\n");
    assert_eq!(buffer.line(2), "Line 3");
}

#[test]
fn test_edits_then_undos_restore_everything() {
    let mut buffer = Buffer::new();
    buffer.insert_text(0, "Hello");
    buffer.insert_text(5, " World");
    assert_eq!(buffer.text(), "Hello World");
    assert!(buffer.undo());
    assert!(buffer.undo());
    assert_eq!(buffer.text(), "");
    assert!(!buffer.undo());
}

#[test]
fn test_mixed_edits_round_trip() {
    let mut buffer = Buffer::from_text("abcdef");
    buffer.insert_text(3, "XYZ");
    buffer.delete_range(0..2);
    buffer.insert_text(0, "Q");
    buffer.delete_range(1..4);
    assert!(buffer.undo());
    assert!(buffer.undo());
    assert!(buffer.undo());
    assert!(buffer.undo());
    assert_eq!(buffer.text(), "abcdef");
}

#[test]
fn test_undo_then_redo_restores_state() {
    let mut buffer = Buffer::from_text("Hello");
    buffer.delete_range(1..3);
    assert_eq!(buffer.text(), "Hlo");
    assert!(buffer.undo());
    assert_eq!(buffer.text(), "Hello");
    assert!(buffer.redo());
    assert_eq!(buffer.text(), "Hlo");
    assert!(buffer.undo());
    assert_eq!(buffer.text(), "Hello");
}

#[test]
fn test_fresh_edit_clears_redo() {
    let mut buffer = Buffer::new();
    buffer.insert_text(0, "Hello");
    assert!(buffer.undo());
    assert_eq!(buffer.text(), "");
    buffer.insert_text(0, "World");
    assert!(!buffer.redo());
    assert_eq!(buffer.text(), "World");
}

#[test]
fn test_insert_past_end_is_noop() {
    let mut buffer = Buffer::from_text("abc");
    let v = buffer.version();
    buffer.insert_text(4, "x");
    assert_eq!(buffer.text(), "abc");
    assert_eq!(buffer.version(), v);
    assert!(!buffer.undo());
}

#[test]
fn test_delete_past_end_is_noop() {
    let mut buffer = Buffer::from_text("abc");
    let v = buffer.version();
    buffer.delete_range(1..7);
    assert_eq!(buffer.text(), "abc");
    assert_eq!(buffer.version(), v);
    buffer.delete_range(2..1);
    assert_eq!(buffer.text(), "abc");
}

#[test]
fn test_version_counts_mutations() {
    let mut buffer = Buffer::new();
    assert_eq!(buffer.version(), 0);
    buffer.insert_text(0, "ab");
    assert_eq!(buffer.version(), 1);
    buffer.delete_range(0..1);
    assert_eq!(buffer.version(), 2);
    buffer.undo();
    assert_eq!(buffer.version(), 3);
    buffer.redo();
    assert_eq!(buffer.version(), 4);
    assert!(!buffer.redo());
    assert_eq!(buffer.version(), 4);
}

#[test]
fn test_offset_position_round_trip() {
    let buffer = Buffer::from_text("Line 1\nLine 2\nLine 3");
    let (line, col) = buffer.offset_to_position(9);
    assert_eq!((line, col), (1, 2));
    assert_eq!(buffer.position_to_offset(line, col), 9);
    for offset in 0..=buffer.len() {
        let (l, c) = buffer.offset_to_position(offset);
        assert_eq!(buffer.position_to_offset(l, c), offset);
    }
}

#[test]
fn test_position_to_offset_clamps() {
    let buffer = Buffer::from_text("Line 1\nLine 2\nLine 3");
    // A column past the line's length clamps to the line end.
    assert_eq!(buffer.position_to_offset(0, 999), 7);
    // A line past the document clamps to the document length.
    assert_eq!(buffer.position_to_offset(99, 0), buffer.len());
    assert!(buffer.position_to_offset(2, 999) <= buffer.len());
}

#[test]
fn test_text_range_and_clamp() {
    let buffer = Buffer::from_text("Hello, World!");
    assert_eq!(buffer.text_range(7..12), "World");
    assert_eq!(buffer.text_range(7..100), "World!");
    assert_eq!(buffer.text_range(5..2), "");
}

#[test]
fn test_line_out_of_range_is_empty() {
    let buffer = Buffer::from_text("one\ntwo");
    assert_eq!(buffer.line(2), "");
    assert_eq!(buffer.line_len(0), 4);
    assert_eq!(buffer.line_len(1), 3);
    assert_eq!(buffer.line_len(9), 0);
}

#[test]
fn test_empty_buffer_has_one_line() {
    let buffer = Buffer::new();
    assert_eq!(buffer.line_count(), 1);
    assert_eq!(buffer.position_to_offset(0, 0), 0);
    let (l, c) = buffer.offset_to_position(0);
    assert_eq!((l, c), (0, 0));
}
