use concord_tui::channel_tree::{
    channel_category_ids, child_branch, preceding_category_id, sort_thread_channels,
    sorted_category_children, sorted_channel_tree_roots, sorted_child_threads, ChannelBranch,
    ChannelPaneEntry,
};
use concord_tui::state::ChannelState;

fn channel(id: u64, parent_id: Option<u64>, position: i64, is_category: bool, is_thread: bool) -> ChannelState {
    ChannelState {
        id,
        guild_id: Some(1),
        parent_id,
        position,
        is_category,
        is_thread,
        is_voice: false,
        viewable: true,
    }
}

fn ids(channels: &[&ChannelState]) -> Vec<u64> {
    channels.iter().map(|c| c.id).collect()
}

#[test]
fn last_child_closes_the_branch() {
    assert_eq!(child_branch(2, 3), ChannelBranch::Last);
    assert_eq!(child_branch(0, 3), ChannelBranch::Middle);
    assert_eq!(child_branch(0, 0), ChannelBranch::Last);
}

#[test]
fn preceding_category_looks_above_the_selection() {
    let entries = [
        ChannelPaneEntry::CategoryHeader { category_id: 10 },
        ChannelPaneEntry::Channel { channel_id: 11 },
        ChannelPaneEntry::CategoryHeader { category_id: 20 },
        ChannelPaneEntry::Channel { channel_id: 21 },
    ];
    assert_eq!(preceding_category_id(&entries, 2), Some(10));
    assert_eq!(preceding_category_id(&entries, 4), Some(20));
    assert_eq!(preceding_category_id(&entries, 0), None);
    assert_eq!(preceding_category_id(&entries, 5), None);
}

#[test]
fn tree_roots_are_categories_and_orphans_in_sidebar_order() {
    let general = channel(1, Some(100), 0, false, false);
    let category = channel(100, None, 1, true, false);
    let orphan = channel(2, None, 0, false, false);
    let lost = channel(3, Some(999), 2, false, false);
    let thread = channel(4, None, 0, false, true);
    let all = [&general, &category, &orphan, &lost, &thread];
    assert_eq!(ids(&sorted_channel_tree_roots(&all)), vec![2, 100, 3]);
    assert_eq!(channel_category_ids(&all), vec![100]);
}

#[test]
fn category_children_skip_threads_and_other_categories() {
    let a = channel(5, Some(100), 2, false, false);
    let b = channel(6, Some(100), 1, false, false);
    let c = channel(7, Some(100), 1, false, true);
    let d = channel(8, Some(200), 0, false, false);
    let all = [&a, &b, &c, &d];
    assert_eq!(ids(&sorted_category_children(&all, 100)), vec![6, 5]);
}

#[test]
fn child_threads_come_newest_first() {
    let t1 = channel(30, Some(5), 0, false, true);
    let t2 = channel(40, Some(5), 0, false, true);
    let t3 = channel(35, Some(6), 0, false, true);
    let all = [&t1, &t2, &t3];
    assert_eq!(ids(&sorted_child_threads(&all, 5)), vec![40, 30]);
    let mut threads = vec![&t1, &t3, &t2];
    sort_thread_channels(&mut threads);
    assert_eq!(ids(&threads), vec![40, 35, 30]);
}
