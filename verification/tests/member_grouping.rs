use concord_tui::member_grouping::{
    guild_member_groups, primary_hoisted_role_rank, ChannelRecipientState, GuildMemberState,
    HoistedRole, MemberEntry, PresenceStatus,
};

fn member(username: Option<&str>, display_name: &str, role_ids: Vec<u64>) -> GuildMemberState {
    GuildMemberState {
        user_id: 42,
        display_name: display_name.to_owned(),
        username: username.map(|u| u.to_owned()),
        is_bot: false,
        status: PresenceStatus::Idle,
        role_ids,
    }
}

#[test]
fn entries_read_through_to_their_member() {
    let m = member(Some("ferris"), "Ferris", vec![]);
    let entry = MemberEntry::Guild(&m);
    assert_eq!(entry.user_id(), 42);
    assert_eq!(entry.display_name(), "Ferris");
    assert_eq!(entry.username().as_deref(), Some("ferris"));
    assert!(!entry.is_bot());
    assert_eq!(entry.status(), PresenceStatus::Idle);
    assert!(!entry.has_fallback_identity());

    let r = ChannelRecipientState {
        user_id: 7,
        display_name: "unknown".to_owned(),
        username: None,
        is_bot: true,
        status: PresenceStatus::Offline,
    };
    let entry = MemberEntry::Recipient(&r);
    assert_eq!(entry.user_id(), 7);
    assert!(entry.is_bot());
    assert!(entry.has_fallback_identity());
}

#[test]
fn fallback_identity_needs_both_missing() {
    let named = member(Some("x"), "unknown", vec![]);
    assert!(!MemberEntry::Guild(&named).has_fallback_identity());
    let nameless = member(None, "Unknown", vec![]);
    assert!(!MemberEntry::Guild(&nameless).has_fallback_identity());
}

#[test]
fn primary_role_is_the_best_ranked_hoisted_role() {
    let hoisted = vec![30, 10, 20];
    assert_eq!(primary_hoisted_role_rank(&vec![20, 10], &hoisted), Some(1));
    assert_eq!(primary_hoisted_role_rank(&vec![20], &hoisted), Some(2));
    assert_eq!(primary_hoisted_role_rank(&vec![5, 6], &hoisted), None);
    assert_eq!(primary_hoisted_role_rank(&vec![], &hoisted), None);
}

fn with(user_id: u64, status: PresenceStatus, role_ids: Vec<u64>) -> GuildMemberState {
    GuildMemberState {
        user_id,
        display_name: format!("user{user_id}"),
        username: None,
        is_bot: false,
        status,
        role_ids,
    }
}

#[test]
fn members_group_by_hoisted_role_then_online_then_offline() {
    let admin = with(1, PresenceStatus::Offline, vec![7, 9]);
    let moderator = with(2, PresenceStatus::Online, vec![9]);
    let plain_online = with(3, PresenceStatus::Idle, vec![5]);
    let plain_offline = with(4, PresenceStatus::Offline, vec![]);
    let second_admin = with(5, PresenceStatus::Online, vec![7]);
    let hoisted = vec![
        HoistedRole { id: 7, name: "Admins".to_owned(), color: Some(0xff0000) },
        HoistedRole { id: 8, name: "Empty".to_owned(), color: None },
        HoistedRole { id: 9, name: "Mods".to_owned(), color: Some(0x00ff00) },
    ];
    let online = vec![PresenceStatus::Online, PresenceStatus::Idle, PresenceStatus::DoNotDisturb];
    let groups = guild_member_groups(
        vec![&admin, &moderator, &plain_online, &plain_offline, &second_admin],
        &hoisted,
        &online,
    );
    let summary: Vec<(String, Option<u32>, Vec<u64>)> = groups
        .iter()
        .map(|g| (g.label.clone(), g.color, g.entries.iter().map(|e| e.user_id()).collect()))
        .collect();
    assert_eq!(
        summary,
        vec![
            ("Admins".to_owned(), Some(0xff0000), vec![1, 5]),
            ("Mods".to_owned(), Some(0x00ff00), vec![2]),
            ("Online".to_owned(), None, vec![3]),
            ("Offline".to_owned(), None, vec![4]),
        ]
    );
}
