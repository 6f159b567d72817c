use nexus_core::buffer::Buffer;
use nexus_core::cursor::Cursor;
use nexus_core::search::SearchState;

#[test]
fn test_non_overlapping_matches() {
    let buffer = Buffer::from_text("aaaa");
    let mut search = SearchState::new();
    search.update_query("aa".to_string(), &buffer);
    assert_eq!(search.match_count(), 2);
    assert_eq!(search.matches[0].start_offset, 0);
    assert_eq!(search.matches[0].end_offset, 2);
    assert_eq!(search.matches[1].start_offset, 2);
    assert_eq!(search.matches[1].end_offset, 4);
    assert_eq!(search.current_match_index, Some(0));
}

#[test]
fn test_replace_all_reverse_order() {
    let mut buffer = Buffer::from_text("banana");
    let mut search = SearchState::new();
    search.update_query("a".to_string(), &buffer);
    assert_eq!(search.match_count(), 3);
    assert_eq!(search.matches[0].start_offset, 1);
    assert_eq!(search.matches[1].start_offset, 3);
    assert_eq!(search.matches[2].start_offset, 5);
    search.replace_text = "bb".to_string();
    let n = search.replace_all(&mut buffer);
    assert_eq!(n, 3);
    // Applied highest offset first, so earlier offsets stayed valid.
    assert_eq!(buffer.text(), "bbbnbbnbb");
}

#[test]
fn test_case_insensitive_by_default() {
    let buffer = Buffer::from_text("Hello World");
    let mut search = SearchState::new();
    search.update_query("world".to_string(), &buffer);
    assert_eq!(search.match_count(), 1);
    assert_eq!(search.matches[0].start_offset, 6);
    assert_eq!(search.matches[0].end_offset, 11);
}

#[test]
fn test_case_sensitive_search() {
    let buffer = Buffer::from_text("Hello hello");
    let mut search = SearchState::new();
    search.case_sensitive = true;
    search.update_query("hello".to_string(), &buffer);
    assert_eq!(search.match_count(), 1);
    assert_eq!(search.matches[0].start_offset, 6);
}

#[test]
fn test_empty_query_has_no_matches() {
    let buffer = Buffer::from_text("anything");
    let mut search = SearchState::new();
    search.update_query(String::new(), &buffer);
    assert_eq!(search.match_count(), 0);
    assert_eq!(search.current_match_index, None);
    assert!(search.current_match().is_none());
}

#[test]
fn test_match_positions() {
    let buffer = Buffer::from_text("one\ntwo\nthree");
    let mut search = SearchState::new();
    search.update_query("two".to_string(), &buffer);
    assert_eq!(search.match_count(), 1);
    let m = search.current_match().unwrap();
    assert_eq!(m.start_line, 1);
    assert_eq!(m.start_column, 0);
    assert_eq!(m.end_line, 1);
    assert_eq!(m.end_column, 3);
    assert_eq!(m.start_offset, 4);
    assert_eq!(m.end_offset, 7);
}

#[test]
fn test_find_next_and_previous_wrap() {
    let buffer = Buffer::from_text("ababab");
    let mut search = SearchState::new();
    search.update_query("ab".to_string(), &buffer);
    assert_eq!(search.match_count(), 3);
    assert_eq!(search.current_match_index, Some(0));
    search.find_next();
    assert_eq!(search.current_match_index, Some(1));
    search.find_next();
    assert_eq!(search.current_match_index, Some(2));
    search.find_next();
    assert_eq!(search.current_match_index, Some(0));
    search.find_previous();
    assert_eq!(search.current_match_index, Some(2));
    search.find_previous();
    assert_eq!(search.current_match_index, Some(1));
}

#[test]
fn test_find_on_empty_match_list_is_noop() {
    let mut search = SearchState::new();
    search.find_next();
    assert_eq!(search.current_match_index, None);
    search.find_previous();
    assert_eq!(search.current_match_index, None);
}

#[test]
fn test_replace_current() {
    let mut buffer = Buffer::from_text("aaaa");
    let mut cursor = Cursor::new();
    let mut search = SearchState::new();
    search.update_query("aa".to_string(), &buffer);
    search.replace_text = "X".to_string();
    assert!(search.replace_current(&mut buffer, &mut cursor));
    assert_eq!(buffer.text(), "Xaa");
    // The edit cursor parks at the start of the insertion.
    assert_eq!(cursor.position.line, 0);
    assert_eq!(cursor.position.column, 0);
    assert!(cursor.selection.is_none());
    // Matches were recomputed against the new text.
    assert_eq!(search.match_count(), 1);
    assert_eq!(search.matches[0].start_offset, 1);
    assert_eq!(search.current_match_index, Some(0));
}

#[test]
fn test_replace_current_without_match() {
    let mut buffer = Buffer::from_text("abc");
    let mut cursor = Cursor::new();
    let mut search = SearchState::new();
    search.update_query("zz".to_string(), &buffer);
    assert!(!search.replace_current(&mut buffer, &mut cursor));
    assert_eq!(buffer.text(), "abc");
}

#[test]
fn test_activate_and_deactivate_clear_state() {
    let buffer = Buffer::from_text("abc abc");
    let mut search = SearchState::new();
    search.update_query("abc".to_string(), &buffer);
    assert_eq!(search.match_count(), 2);
    search.activate();
    assert!(search.is_active);
    assert_eq!(search.query, "");
    assert_eq!(search.match_count(), 0);
    assert_eq!(search.current_match_index, None);
    search.update_query("abc".to_string(), &buffer);
    search.deactivate();
    assert!(!search.is_active);
    assert_eq!(search.match_count(), 0);
}

#[test]
fn test_toggle_replace_mode() {
    let mut search = SearchState::new();
    assert!(!search.is_replace_mode);
    search.toggle_replace_mode();
    assert!(search.is_replace_mode);
    search.toggle_replace_mode();
    assert!(!search.is_replace_mode);
}

#[test]
fn test_mutation_invalidation_by_recompute() {
    let mut buffer = Buffer::from_text("abc abc");
    let mut search = SearchState::new();
    search.update_query("abc".to_string(), &buffer);
    assert_eq!(search.match_count(), 2);
    buffer.delete_range(0..4);
    search.find_all_matches(&buffer);
    assert_eq!(search.match_count(), 1);
    assert_eq!(search.matches[0].start_offset, 0);
}
