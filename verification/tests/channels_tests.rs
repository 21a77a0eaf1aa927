use wow_ui_glue::channels::{
    apply_player_verb, build_channel_info, channel_index, channel_list, channel_shortcut, channel_type,
    ensure_channel, find_channel, general_channel_local_id, join_channel, leave_channel, swap_channels,
    ChatChannel, PlayerVerb,
};

fn names(chs: &Vec<ChatChannel>) -> Vec<String> {
    chs.iter().map(|c| c.name.clone()).collect()
}

fn joined(list: &[&str]) -> Vec<ChatChannel> {
    let mut chs = Vec::new();
    for n in list {
        join_channel(&mut chs, n);
    }
    chs
}

#[test]
fn join_appends_new_channels_in_order() {
    let chs = joined(&["General", "Trade", "Custom"]);
    assert_eq!(names(&chs), vec!["General", "Trade", "Custom"]);
    assert!(chs[2].members.is_empty());
}

#[test]
fn join_is_idempotent_and_ignores_empty_names() {
    let mut chs = joined(&["General"]);
    join_channel(&mut chs, "General");
    join_channel(&mut chs, "");
    assert_eq!(names(&chs), vec!["General"]);
}

#[test]
fn leave_removes_the_named_channel_only() {
    let mut chs = joined(&["General", "Trade", "Custom"]);
    leave_channel(&mut chs, "Trade");
    assert_eq!(names(&chs), vec!["General", "Custom"]);
    assert_eq!(channel_index(&chs, "Trade"), None);
    leave_channel(&mut chs, "");
    assert_eq!(names(&chs), vec!["General", "Custom"]);
}

#[test]
fn channel_index_is_zero_based_position() {
    let chs = joined(&["General", "Trade"]);
    assert_eq!(channel_index(&chs, "Trade"), Some(1));
    assert_eq!(channel_index(&chs, "trade"), None);
}

#[test]
fn find_channel_by_number_and_by_name() {
    let chs = joined(&["General", "Trade"]);
    let (id, c) = find_channel(&chs, "2").unwrap();
    assert_eq!((id, c.name.as_str()), (2, "Trade"));
    let (id, c) = find_channel(&chs, "General").unwrap();
    assert_eq!((id, c.name.as_str()), (1, "General"));
    assert!(find_channel(&chs, "3").is_none());
    assert!(find_channel(&chs, "Missing").is_none());
    let (id, _) = find_channel(&chs, "+1").unwrap();
    assert_eq!(id, 1);
}

#[test]
fn find_channel_number_zero_falls_back_to_name() {
    let chs = joined(&["0"]);
    let (id, c) = find_channel(&chs, "0").unwrap();
    assert_eq!((id, c.name.as_str()), (1, "0"));
}

#[test]
fn find_channel_local_id_round_trip() {
    let chs = joined(&["A", "B", "C", "D", "E", "F", "G", "H", "I", "J", "K"]);
    for i in 0..chs.len() {
        let (id, c) = find_channel(&chs, &(i + 1).to_string()).unwrap();
        assert_eq!(id, i + 1);
        assert_eq!(c.name, chs[i].name);
    }
}

#[test]
fn ban_removes_member_and_blocks_invite() {
    let mut chs = joined(&["Custom"]);
    apply_player_verb(&mut chs, "Custom", "Bob", PlayerVerb::Invite);
    apply_player_verb(&mut chs, "Custom", "Bob", PlayerVerb::Moderator);
    assert!(chs[0].members.contains(&"Bob".to_string()));
    assert!(chs[0].moderators.contains(&"Bob".to_string()));
    apply_player_verb(&mut chs, "Custom", "Bob", PlayerVerb::Ban);
    assert!(!chs[0].members.contains(&"Bob".to_string()));
    assert!(!chs[0].moderators.contains(&"Bob".to_string()));
    assert!(chs[0].banned.contains(&"Bob".to_string()));
    apply_player_verb(&mut chs, "Custom", "Bob", PlayerVerb::Invite);
    assert!(!chs[0].members.contains(&"Bob".to_string()));
}

#[test]
fn moderator_requires_membership_and_kick_drops_it() {
    let mut chs = joined(&["Custom"]);
    apply_player_verb(&mut chs, "Custom", "Ann", PlayerVerb::Moderator);
    assert!(chs[0].moderators.is_empty());
    apply_player_verb(&mut chs, "Custom", "Ann", PlayerVerb::Invite);
    apply_player_verb(&mut chs, "Custom", "Ann", PlayerVerb::Invite);
    assert_eq!(chs[0].members, vec!["Ann".to_string()]);
    apply_player_verb(&mut chs, "Custom", "Ann", PlayerVerb::Moderator);
    apply_player_verb(&mut chs, "Custom", "Ann", PlayerVerb::Unmoderator);
    assert!(chs[0].moderators.is_empty());
    apply_player_verb(&mut chs, "Custom", "Ann", PlayerVerb::Moderator);
    apply_player_verb(&mut chs, "Custom", "Ann", PlayerVerb::Kick);
    assert!(chs[0].members.is_empty());
    assert!(chs[0].moderators.is_empty());
    assert!(chs[0].banned.is_empty());
}

#[test]
fn verbs_on_missing_channel_or_empty_names_do_nothing() {
    let mut chs = joined(&["Custom"]);
    apply_player_verb(&mut chs, "Other", "Bob", PlayerVerb::Invite);
    apply_player_verb(&mut chs, "Custom", "", PlayerVerb::Invite);
    apply_player_verb(&mut chs, "", "Bob", PlayerVerb::Invite);
    assert!(chs[0].members.is_empty());
}

#[test]
fn swap_twice_restores_order() {
    let mut chs = joined(&["A", "B", "C"]);
    swap_channels(&mut chs, 1, 3);
    assert_eq!(names(&chs), vec!["C", "B", "A"]);
    swap_channels(&mut chs, 1, 3);
    assert_eq!(names(&chs), vec!["A", "B", "C"]);
}

#[test]
fn swap_out_of_range_is_a_no_op() {
    let mut chs = joined(&["A", "B"]);
    swap_channels(&mut chs, 0, 1);
    swap_channels(&mut chs, 1, 3);
    swap_channels(&mut chs, -5, 2);
    assert_eq!(names(&chs), vec!["A", "B"]);
}

#[test]
fn ensure_channel_changes_in_place() {
    let mut chs = joined(&["A", "B"]);
    if let Some(c) = ensure_channel(&mut chs, "B") {
        c.members.push("Zed".to_string());
    }
    assert_eq!(chs[1].members, vec!["Zed".to_string()]);
    assert!(ensure_channel(&mut chs, "C").is_none());
}

#[test]
fn channel_types_and_info() {
    assert_eq!(channel_type("General"), 1);
    assert_eq!(channel_type("LookingForGroup"), 1);
    assert_eq!(channel_type("Custom"), 3);
    let chs = joined(&["Trade"]);
    let info = build_channel_info(7, &chs[0]);
    assert_eq!(info.name, "Trade");
    assert_eq!(info.shortcut, "7");
    assert_eq!(info.local_id, 7);
    assert_eq!(info.instance_id, 0);
    assert_eq!(info.zone_channel_id, 7);
    assert_eq!(info.channel_type, 1);
}

#[test]
fn channel_list_and_general_id() {
    let chs = joined(&["Trade", "General"]);
    let list = channel_list(&chs);
    assert_eq!(list, vec![(1, "Trade".to_string()), (2, "General".to_string())]);
    assert_eq!(general_channel_local_id(&chs), Some(2));
    assert_eq!(general_channel_local_id(&joined(&["Trade"])), None);
    assert_eq!(channel_shortcut(-3), "-3");
    assert_eq!(channel_shortcut(12), "12");
}

#[test]
fn leave_undoes_join() {
    let mut chs = joined(&["General", "Trade"]);
    join_channel(&mut chs, "Custom");
    leave_channel(&mut chs, "Custom");
    assert_eq!(names(&chs), vec!["General", "Trade"]);
}
