use nexus_core::cursor::{Cursor, Position};

#[test]
fn test_new_cursor_at_origin() {
    let cursor = Cursor::new();
    assert_eq!(cursor.position, Position::zero());
    assert!(cursor.selection.is_none());
    assert!(cursor.should_draw());
    assert_eq!(cursor.blink_timer, 0);
}

#[test]
fn test_position_ordering() {
    assert!(Position::new(0, 5) < Position::new(1, 0));
    assert!(Position::new(1, 2) < Position::new(1, 3));
    assert!(Position::new(2, 0) > Position::new(1, 9));
    assert!(Position::new(1, 1) <= Position::new(1, 1));
}

#[test]
fn test_move_left_clamps_at_origin() {
    let mut cursor = Cursor::new();
    cursor.move_left();
    assert_eq!(cursor.position, Position::zero());
    cursor.move_to(Position::new(1, 0));
    cursor.move_left();
    assert_eq!(cursor.position, Position::new(0, 0));
    cursor.move_to(Position::new(0, 3));
    cursor.move_left();
    assert_eq!(cursor.position, Position::new(0, 2));
}

#[test]
fn test_move_right_wraps_past_line_end() {
    let mut cursor = Cursor::new();
    cursor.move_right(2);
    assert_eq!(cursor.position, Position::new(0, 1));
    cursor.move_right(2);
    assert_eq!(cursor.position, Position::new(0, 2));
    cursor.move_right(2);
    assert_eq!(cursor.position, Position::new(1, 0));
}

#[test]
fn test_move_up_and_down() {
    let mut cursor = Cursor::new();
    cursor.move_down();
    cursor.move_down();
    assert_eq!(cursor.position, Position::new(2, 0));
    cursor.move_to(Position::new(2, 4));
    cursor.move_up();
    assert_eq!(cursor.position, Position::new(1, 4));
    cursor.move_up();
    cursor.move_up();
    assert_eq!(cursor.position, Position::new(0, 4));
}

#[test]
fn test_selection_anchor_and_update() {
    let mut cursor = Cursor::new();
    assert!(!cursor.has_selection());
    cursor.move_to(Position::new(1, 2));
    cursor.start_selection();
    assert!(cursor.has_selection());
    let sel = cursor.selection.clone().unwrap();
    assert_eq!(sel.start, Position::new(1, 2));
    assert_eq!(sel.end, Position::new(1, 2));
    cursor.update_selection(Position::new(0, 7));
    let sel = cursor.selection.clone().unwrap();
    assert_eq!(sel.start, Position::new(1, 2));
    assert_eq!(sel.end, Position::new(0, 7));
    cursor.clear_selection();
    assert!(!cursor.has_selection());
}

#[test]
fn test_update_selection_without_anchor_is_noop() {
    let mut cursor = Cursor::new();
    cursor.update_selection(Position::new(3, 3));
    assert!(cursor.selection.is_none());
}

#[test]
fn test_blink_toggles_at_interval() {
    let mut cursor = Cursor::new();
    assert!(cursor.should_draw());
    cursor.update_blink(200);
    assert!(cursor.should_draw());
    assert_eq!(cursor.blink_timer, 200);
    cursor.update_blink(300);
    assert!(!cursor.should_draw());
    assert_eq!(cursor.blink_timer, 0);
    cursor.update_blink(500);
    assert!(cursor.should_draw());
}

#[test]
fn test_movement_resets_blink() {
    let mut cursor = Cursor::new();
    cursor.update_blink(500);
    assert!(!cursor.should_draw());
    cursor.move_down();
    assert!(cursor.should_draw());
    assert_eq!(cursor.blink_timer, 0);
}
