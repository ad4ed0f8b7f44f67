use concord_tui::selection::{visible_item_range, ListState, ScrollState, SelectionState};

#[test]
fn selection_moves_and_clamps() {
    let mut s = SelectionState::new();
    s.move_down(3);
    s.move_down(3);
    s.move_down(3);
    assert_eq!(s.selected(), 2);
    s.move_up();
    assert_eq!(s.selected(), 1);
    s.move_down(3);
    s.move_up();
    assert_eq!(s.selected(), 1);
    s.select(10);
    assert_eq!(s.selected_for_len(4), 3);
    assert_eq!(s.selected_for_len(0), 0);
    s.move_down(0);
    assert_eq!(s.selected(), 0);
}

#[test]
fn scroll_stays_within_the_content() {
    let mut s = ScrollState::new();
    s.set_view_height(3);
    s.set_total_lines(5);
    assert_eq!(s.max_scroll(), 2);
    s.scroll_down();
    s.scroll_down();
    s.scroll_down();
    assert_eq!(s.scroll(), 2);
    s.scroll_up();
    assert_eq!(s.scroll(), 1);
    s.scroll_down();
    s.scroll_up();
    assert_eq!(s.scroll(), 1);
    s.set_total_lines(2);
    assert_eq!(s.scroll(), 0);
}

#[test]
fn list_keeps_the_selection_visible() {
    let mut l = ListState::new();
    l.view_height = 3;
    l.selected = 7;
    l.keep_selection_visible();
    assert_eq!(l.scroll, 5);
    l.selected = 2;
    l.keep_selection_visible();
    assert_eq!(l.scroll, 2);
    l.reset_selection_and_scroll();
    assert_eq!((l.selected, l.scroll), (0, 0));
}

#[test]
fn visible_range_follows_the_selection() {
    assert_eq!(visible_item_range(20, 0, 10), 0..10);
    assert_eq!(visible_item_range(20, 12, 10), 3..13);
    assert_eq!(visible_item_range(20, 19, 10), 10..20);
    assert_eq!(visible_item_range(5, 3, 10), 0..5);
    assert_eq!(visible_item_range(5, 3, 0), 4..4);
}
