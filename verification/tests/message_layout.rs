use concord_tui::message_layout::{
    standalone_message_rendered_height, MessageLayoutFacts, MessageRowContentMetrics,
    MessageRowContentMetricsCache, MessageRowMetrics, MessageViewportPlan,
};
use concord_tui::state::{DashboardState, MessageState};

fn message(id: u64, author_id: u64) -> MessageState {
    MessageState {
        id,
        channel_id: 1,
        guild_id: None,
        author_id,
        attachments: vec![],
        reactions: vec![],
        poll: None,
    }
}

fn facts(content_rows: usize, starts_new_day: bool, created_unix_millis: u64) -> MessageLayoutFacts {
    MessageLayoutFacts {
        content: MessageRowContentMetrics { content_rows, reaction_rows: 0, preview_rows: 0 },
        starts_new_day,
        unread_divider: false,
        created_unix_millis,
    }
}

fn state_with(messages: Vec<MessageState>) -> DashboardState {
    let mut state = DashboardState::new();
    state.messages.messages = messages;
    state
}

#[test]
fn row_metrics_sum_their_parts_and_saturate() {
    let metrics = MessageRowMetrics {
        top_rows: 1,
        header_rows: 1,
        content_rows: 2,
        reaction_rows: 1,
        preview_rows: 3,
        selected_extra_top_rows: 0,
        selected_extra_bottom_rows: 1,
        bottom_gap_rows: 1,
    };
    assert_eq!(metrics.total_rows(), 10);
    assert_eq!(metrics.body_rows(), 3);
    assert_eq!(metrics.body_top_offset(), 1);
    assert_eq!(metrics.reaction_top_offset(), 7);
    assert_eq!(metrics.visible_rows_after_scroll(4), 6);
    assert_eq!(metrics.visible_rows_after_scroll(40), 0);
    let huge = MessageRowMetrics { content_rows: usize::MAX, ..metrics };
    assert_eq!(huge.total_rows(), usize::MAX);
}

#[test]
fn standalone_height_counts_header_and_gap() {
    assert_eq!(standalone_message_rendered_height(2, 1, 3), 8);
}

#[test]
fn messages_of_one_author_group_together() {
    let state = state_with(vec![message(1, 7), message(2, 7), message(3, 8)]);
    let f = vec![facts(1, true, 0), facts(1, false, 1_000), facts(1, false, 2_000)];
    assert!(state.message_starts_author_group_at(0, &f));
    assert!(!state.message_starts_author_group_at(1, &f));
    assert!(state.message_starts_author_group_at(2, &f));
    assert!(!state.message_starts_author_group_at(3, &f));
    assert!(!state.message_has_bottom_gap_after(0, &f));
    assert!(state.message_has_bottom_gap_after(1, &f));
    assert!(state.message_has_bottom_gap_after(2, &f));
}

#[test]
fn a_long_pause_starts_a_new_group() {
    let state = state_with(vec![message(1, 7), message(2, 7)]);
    let f = vec![facts(1, false, 0), facts(1, false, 300_000)];
    assert!(state.message_starts_author_group_at(1, &f));
    let f = vec![facts(1, false, 0), facts(1, false, 299_999)];
    assert!(!state.message_starts_author_group_at(1, &f));
}

#[test]
fn a_date_separator_starts_a_new_group() {
    let state = state_with(vec![message(1, 7), message(2, 7)]);
    let f = vec![facts(1, false, 0), facts(1, true, 10)];
    assert_eq!(state.message_extra_top_lines(1, &f), 1);
    assert!(state.message_starts_author_group_at(1, &f));
    assert!(state.message_starts_new_day_at(5, &f));
}

#[test]
fn heights_add_up_to_the_total() {
    let mut state = state_with(vec![message(1, 7), message(2, 7), message(3, 8)]);
    state.messages.selected_message = 1;
    let f = vec![facts(2, true, 0), facts(1, false, 1_000), facts(3, false, 2_000)];
    // Day separator, header, two content rows; the group continues below.
    assert_eq!(state.message_rendered_height_at(0, &f), 4);
    // Selected continuation: an extra top row, one content row, then the group gap.
    assert_eq!(state.message_rendered_height_at(1, &f), 3);
    // New author: header, three content rows, final gap.
    assert_eq!(state.message_rendered_height_at(2, &f), 5);
    assert_eq!(state.message_rendered_height_at(3, &f), 0);
    assert_eq!(state.message_total_rendered_rows(&f, None), 12);
    assert_eq!(state.selected_message_rendered_height(&f), 3);
    assert_eq!(state.following_message_rendered_rows(&f, 5), 5);
}

#[test]
fn scroll_position_sums_rows_above_the_first_shown_message() {
    let mut state = state_with(vec![message(1, 7), message(2, 8), message(3, 9)]);
    let f = vec![facts(1, false, 0), facts(1, false, 0), facts(1, false, 0)];
    state.messages.message_scroll = 2;
    state.messages.message_line_scroll = 1;
    state.messages.selected_message = 2;
    assert_eq!(state.message_scroll_row_position(&f, None), 7);
    assert_eq!(state.selected_message_rendered_row(&f), 0);
    let cards = [4usize, 5, 6];
    assert_eq!(state.message_scroll_row_position(&f, Some(&cards)), 9);
    assert_eq!(state.message_total_rendered_rows(&f, Some(&cards)), 15);
}

#[test]
fn viewport_plan_places_each_visible_message() {
    let mut state = state_with(vec![message(1, 1), message(2, 1), message(3, 2)]);
    state.messages.selected_message = 1;
    state.messages.message_scroll = 0;
    state.messages.message_line_scroll = 1;
    let layout = vec![facts(2, true, 0), facts(1, false, 1_000), facts(3, false, 2_000)];
    let contents: Vec<MessageRowContentMetrics> = layout.iter().map(|f| f.content).collect();
    let visible: Vec<&MessageState> = state.messages.messages.iter().collect();
    let plan = MessageViewportPlan::new(&visible, &contents, Some(1), &state, &layout);
    let rows = plan.rows();
    assert_eq!(rows.len(), 3);

    assert_eq!(rows[0].global_index, 0);
    assert!(rows[0].starts_new_day && rows[0].show_header && !rows[0].bottom_gap);
    assert_eq!(rows[0].metrics.total_rows(), 4);
    assert_eq!((rows[0].message_top, rows[0].body_top, rows[0].reaction_top), (-1, 0, 3));
    assert_eq!((rows[0].line_offset, rows[0].body_skip, rows[0].item_line_offset), (1, 0, 0));

    assert!(rows[1].selected && !rows[1].show_header && rows[1].bottom_gap);
    assert_eq!(rows[1].metrics.selected_extra_top_rows, 1);
    assert_eq!((rows[1].message_top, rows[1].body_top, rows[1].reaction_top), (3, 4, 5));

    assert!(rows[2].show_header && rows[2].bottom_gap && !rows[2].selected);
    assert_eq!((rows[2].message_top, rows[2].body_top, rows[2].reaction_top), (6, 6, 10));
    assert_eq!(rows[2].message.id, 3);
    assert_eq!(plan.row(2).map(|r| r.global_index), Some(2));
    assert!(plan.row(3).is_none());
}

#[test]
fn viewport_plan_treats_unloaded_messages_as_standalone() {
    let state = state_with(vec![message(1, 1)]);
    let layout = vec![facts(2, true, 0)];
    let other = message(99, 5);
    let visible = vec![&other];
    let contents = vec![MessageRowContentMetrics { content_rows: 1, reaction_rows: 0, preview_rows: 0 }];
    let plan = MessageViewportPlan::new(&visible, &contents, None, &state, &layout);
    let row = plan.row(0).unwrap();
    assert!(row.show_header && row.bottom_gap);
    assert!(!row.starts_new_day && !row.shows_unread_divider);
    assert_eq!(row.message.id, 99);
}

#[test]
fn content_metrics_are_measured_once_per_loaded_message() {
    let state = state_with(vec![message(10, 1), message(11, 1)]);
    let mut cache = MessageRowContentMetricsCache::new();
    let measured = std::cell::Cell::new(0);
    let compute = |rows: usize| {
        measured.set(measured.get() + 1);
        MessageRowContentMetrics { content_rows: rows, reaction_rows: 0, preview_rows: 0 }
    };
    let first = state.message_row_content_metrics(&mut cache, 0, &message(10, 1), 80, 20, 10, true, || compute(3));
    assert_eq!(first.content_rows, 3);
    // The cached measurement is used again for the same key.
    let again = state.message_row_content_metrics(&mut cache, 0, &message(10, 1), 80, 20, 10, true, || compute(7));
    assert_eq!(again.content_rows, 3);
    assert_eq!(measured.get(), 1);
    // Another width is another key.
    let wider = state.message_row_content_metrics(&mut cache, 0, &message(10, 1), 100, 20, 10, true, || compute(2));
    assert_eq!(wider.content_rows, 2);
    // A message that is not the loaded one at that index is measured and not kept.
    let other = state.message_row_content_metrics(&mut cache, 1, &message(12, 1), 80, 20, 10, true, || compute(5));
    assert_eq!(other.content_rows, 5);
    let other_again = state.message_row_content_metrics(&mut cache, 1, &message(12, 1), 80, 20, 10, true, || compute(6));
    assert_eq!(other_again.content_rows, 6);
    assert_eq!(measured.get(), 4);
}
