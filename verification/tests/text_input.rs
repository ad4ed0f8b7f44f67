use concord_tui::text_input::TextInputState;

#[test]
fn input_edits_at_utf8_cursor_boundaries() {
    let mut input = TextInputState::default();
    input.insert_str("가🇰🇷나");
    input.move_left();
    input.delete_previous_grapheme();

    assert_eq!(input.value(), "가나");
    assert_eq!(input.cursor_byte_index(), "가".len());
}

#[test]
fn vertical_movement_moves_across_lines() {
    let mut input = TextInputState::default();
    input.set_value("hello\nworld".to_owned());

    // Cursor starts at the end of "world" (column 5).
    input.move_up();
    assert_eq!(input.cursor_byte_index(), "hello".len());
    input.move_down();
    assert_eq!(input.cursor_byte_index(), "hello\nworld".len());

    // No line above the first one, so up is a no-op there.
    input.move_up();
    input.move_up();
    assert_eq!(input.cursor_byte_index(), "hello".len());
}

#[test]
fn replace_rejects_invalid_boundaries() {
    let mut input = TextInputState::default();
    input.insert_str("가나");

    assert!(!input.replace_range(1..2, "x"));
    assert_eq!(input.value(), "가나");
}

#[test]
fn replace_range_rewrites_valid_byte_range() {
    let mut input = TextInputState::default();
    input.insert_str("abc가d");
    assert!(input.replace_range(1..6, "XY"));
    assert_eq!(input.value(), "aXYd");
    assert_eq!(input.cursor_byte_index(), 3);
}

#[test]
fn word_movement_and_deletion() {
    let mut input = TextInputState::default();
    input.insert_str("hello big  world");
    input.move_word_left();
    assert_eq!(input.cursor_byte_index(), "hello big  ".len());
    input.move_word_left();
    assert_eq!(input.cursor_byte_index(), "hello ".len());
    input.move_word_right();
    assert_eq!(input.cursor_byte_index(), "hello big".len());
    input.move_end();
    assert!(input.delete_previous_word());
    assert_eq!(input.value(), "hello big  ");
    input.move_home();
    assert!(!input.delete_previous_word());
    assert_eq!(input.cursor_byte_index(), 0);
}

#[test]
fn insert_char_and_clear() {
    let mut input = TextInputState::default();
    input.insert_char('a');
    input.insert_char('é');
    input.move_left();
    input.insert_char('b');
    assert_eq!(input.value(), "abé");
    assert_eq!(input.cursor_byte_index(), 2);
    input.move_right();
    assert_eq!(input.cursor_byte_index(), 4);
    input.clear();
    assert_eq!(input.value(), "");
}

#[test]
fn grapheme_step_right_then_left_returns() {
    let mut input = TextInputState::new();
    input.set_value("ae\u{301}👍🏽z".to_owned());
    input.move_home();
    input.move_right();
    assert_eq!(input.cursor_byte_index(), 1);
    input.move_right();
    assert_eq!(input.cursor_byte_index(), 1 + "e\u{301}".len());
    let at = input.cursor_byte_index();
    input.move_right();
    assert_eq!(input.cursor_byte_index(), at + "👍🏽".len());
    input.move_left();
    assert_eq!(input.cursor_byte_index(), at);
    input.move_left();
    input.move_right();
    assert_eq!(input.cursor_byte_index(), at);
}
