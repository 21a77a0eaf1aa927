use wow_ui_glue::auras::{
    aura_by_index, aura_by_instance_id, aura_by_spell_id, aura_by_spell_name, aura_slots, buff_by_index,
    visible_player_buffs, Aura, BlockedAuras,
};
use wow_ui_glue::chat_info::{chat_type_index, chat_window_name, chat_window_shown, join_tabs, write_console_line};
use wow_ui_glue::chat_windows::ChatWindows;
use wow_ui_glue::delves::{tier_description, DelveEntrance};
use wow_ui_glue::lfg::activity_info;
use wow_ui_glue::loss_of_control::{
    loss_of_control_count_for_unit, loss_of_control_data_shown, loss_of_control_duration_shown,
};
use wow_ui_glue::macros::{all_seeded_macros, lookup_macro_by_id, lookup_macro_by_name, macro_index_by_name, num_macros};
use wow_ui_glue::ping::{default_ping_options, ping_texture_kit};

fn buffs() -> Vec<Aura> {
    vec![
        Aura { aura_instance_id: 1, spell_id: 100, name: "Fortitude".to_string() },
        Aura { aura_instance_id: 2, spell_id: 200, name: "Intellect".to_string() },
        Aura { aura_instance_id: 3, spell_id: 300, name: "Kings".to_string() },
    ]
}

#[test]
fn aura_slots_skip_blocked_and_match_index() {
    let b = buffs();
    let mut blocked = BlockedAuras::new();
    assert_eq!(aura_slots(Some("player"), None, None, &b, &blocked), Some(vec![1, 2, 3]));
    blocked.add_blocked_aura("player", 2);
    blocked.add_blocked_aura("target", 3);
    let slots = aura_slots(Some("player"), Some("HELPFUL"), None, &b, &blocked).unwrap();
    assert_eq!(slots, vec![1, 3]);
    for (n, id) in slots.iter().enumerate() {
        let k = aura_by_index("player", (n + 1) as i32, None, &b, &blocked).unwrap();
        assert_eq!(b[k].aura_instance_id, *id);
    }
    assert_eq!(visible_player_buffs(&b, &blocked), vec![0, 2]);
    blocked.clear_blocked_auras("player");
    assert_eq!(aura_slots(Some("player"), None, None, &b, &blocked), Some(vec![1, 2, 3]));
}

#[test]
fn aura_queries_refuse_other_units_and_filters() {
    let b = buffs();
    let blocked = BlockedAuras::new();
    assert_eq!(aura_slots(Some("target"), None, None, &b, &blocked), None);
    assert_eq!(aura_slots(None, None, None, &b, &blocked), None);
    assert_eq!(aura_slots(Some("player"), Some("HARMFUL|RAID"), None, &b, &blocked), None);
    assert_eq!(aura_slots(Some("player"), None, Some(5), &b, &blocked), None);
    assert_eq!(aura_by_index("player", 1, Some("MAW"), &b, &blocked), None);
    assert_eq!(aura_by_index("player", 0, None, &b, &blocked), None);
    assert_eq!(aura_by_index("player", 4, None, &b, &blocked), None);
    assert_eq!(buff_by_index("player", 3, &b, &blocked), Some(2));
    assert_eq!(buff_by_index("focus", 1, &b, &blocked), None);
}

#[test]
fn aura_lookups_by_id_spell_and_name() {
    let b = buffs();
    assert_eq!(aura_by_instance_id("player", 2, &b), Some(1));
    assert_eq!(aura_by_instance_id("target", 2, &b), None);
    assert_eq!(aura_by_instance_id("player", 9, &b), None);
    assert_eq!(aura_by_spell_id(300, &b), Some(2));
    assert_eq!(aura_by_spell_name("player", "Kings", &b), Some(2));
    assert_eq!(aura_by_spell_name("player", "kings", &b), None);
    let mut blocked = BlockedAuras::new();
    blocked.add_blocked_aura("player", 7);
    assert!(blocked.is_blocked("player", 7));
    assert!(!blocked.is_blocked("target", 7));
}

#[test]
fn chat_type_index_is_a_rolling_hash() {
    assert_eq!(chat_type_index("SAY"), 18);
    assert_eq!(chat_type_index("GUILD"), 4);
    assert_eq!(chat_type_index(""), 1);
    assert_eq!(chat_type_index("WHISPER"), 29);
    assert_eq!(chat_type_index("é"), 15);
    assert_eq!(chat_type_index("CHANNEL"), 42);
}

#[test]
fn chat_window_info_and_console() {
    assert_eq!(chat_window_name(3), "ChatFrame3");
    assert_eq!(chat_window_name(-2), "ChatFrame-2");
    assert!(chat_window_shown(1));
    assert!(!chat_window_shown(2));
    let mut console = vec!["a".to_string()];
    write_console_line(&mut console, "b".to_string());
    assert_eq!(console, vec!["a".to_string(), "b".to_string()]);
    assert_eq!(join_tabs(&vec!["nil".to_string(), "true".to_string(), "x".to_string()]), "nil\ttrue\tx");
    assert_eq!(join_tabs(&vec![]), "");
    assert_eq!(join_tabs(&vec!["only".to_string()]), "only");
}

#[test]
fn chat_window_subscriptions() {
    let mut w = ChatWindows::new();
    assert!(w.channels(1).is_empty());
    w.add_channel(1, "General");
    w.add_channel(1, "Trade");
    w.add_channel(1, "General");
    w.add_channel(1, "");
    assert_eq!(w.channels(1), vec!["General".to_string(), "Trade".to_string()]);
    w.add_messages(2, "SAY");
    w.add_messages(2, "YELL");
    w.add_messages(2, "SAY");
    assert_eq!(w.messages(2), vec!["SAY".to_string(), "YELL".to_string()]);
    w.remove_messages(2, "SAY");
    assert_eq!(w.messages(2), vec!["YELL".to_string()]);
    w.set_locked(2, true);
    w.set_uninteractable(3, true);
    w.touch(4);
    assert_eq!(w.messages(2), vec!["YELL".to_string()]);
    assert!(w.messages(4).is_empty());
}

#[test]
fn delve_tiers() {
    let mut d = DelveEntrance::new();
    assert_eq!(d.selected_tier, 4);
    assert_eq!(d.active_tier.tier, 4);
    assert_eq!(d.is_tier_enabled(2), (true, None));
    assert_eq!(d.is_tier_enabled(5), (false, Some("Complete Tier 4 to unlock this delve tier.")));
    assert_eq!(d.is_tier_enabled(9), (false, Some("Unknown tier")));
    d.select_tier(2);
    assert_eq!((d.selected_tier, d.active_tier.tier), (2, 2));
    d.select_tier(9);
    assert_eq!((d.selected_tier, d.active_tier.tier), (9, 2));
    assert_eq!(tier_description(5), "Tier 5");
}

#[test]
fn lfg_activity_info() {
    let a = activity_info(1234);
    assert_eq!(a.full_name, "Activity 1234");
    assert_eq!(a.short_name, "Act1234");
    assert!(a.is_mythic_plus_activity);
    assert_eq!((a.category_id, a.max_players, a.min_level, a.max_level), (2, 5, 70, 80));
    assert!(!activity_info(1000).is_mythic_plus_activity);
}

#[test]
fn loss_of_control_per_unit() {
    assert_eq!(loss_of_control_count_for_unit(None, false), 1);
    assert_eq!(loss_of_control_count_for_unit(Some("player"), false), 1);
    assert_eq!(loss_of_control_count_for_unit(Some("target"), false), 0);
    assert_eq!(loss_of_control_count_for_unit(Some("target"), true), 1);
    assert_eq!(loss_of_control_count_for_unit(Some("focus"), true), 0);
    assert!(loss_of_control_data_shown(None, 1, false));
    assert!(!loss_of_control_data_shown(None, 2, false));
    assert!(loss_of_control_duration_shown("player", 1, false));
    assert!(!loss_of_control_duration_shown("target", 1, false));
}

#[test]
fn seeded_macros() {
    assert_eq!(num_macros(), (2, 1));
    assert_eq!(all_seeded_macros().iter().map(|m| m.id).collect::<Vec<_>>(), vec![1, 2, 121]);
    assert_eq!(lookup_macro_by_id(121).map(|m| m.name), Some("Crusader"));
    assert!(lookup_macro_by_id(3).is_none());
    assert_eq!(lookup_macro_by_name("pull timer").map(|m| m.body), Some("/pull 10"));
    assert_eq!(macro_index_by_name("RAID BEACON"), 1);
    assert_eq!(macro_index_by_name("nothing"), 0);
}

#[test]
fn ping_kits() {
    assert_eq!(ping_texture_kit(0), Some("Attack"));
    assert_eq!(ping_texture_kit(5), Some("NonThreat"));
    assert_eq!(ping_texture_kit(6), None);
    assert_eq!(ping_texture_kit(-1), None);
    let opts = default_ping_options();
    let got: Vec<(i32, &str)> = opts.iter().map(|o| (o.order_index, o.texture_kit)).collect();
    assert_eq!(got, vec![(0, "Attack"), (1, "Warning"), (2, "Assist"), (3, "OnMyWay")]);
}

#[test]
fn chat_window_add_then_remove_messages_restores_list() {
    let mut w = ChatWindows::new();
    w.add_messages(3, "SAY");
    w.add_messages(3, "GUILD");
    let before = w.messages(3);
    w.add_messages(3, "WHISPER");
    assert_eq!(w.messages(3), vec!["SAY".to_string(), "GUILD".to_string(), "WHISPER".to_string()]);
    w.remove_messages(3, "WHISPER");
    assert_eq!(w.messages(3), before);
}
