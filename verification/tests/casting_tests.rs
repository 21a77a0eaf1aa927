use wow_ui_glue::casting::{
    action_button_name, cast_spell_by_name, combat_rating_for, execute_spell_by_id, resolve_spell_id_by_name,
    spell_icon, spell_name, use_action, CastState, CombatRatings, SpellOutcome, SpellRecord, AUTO_ATTACK_NAME,
    DEFAULT_ICON,
};
use wow_ui_glue::file_paths::{file_id_from_path, file_path_stem, get_path_to_file_id, normalize_file_path};
use wow_ui_glue::lua_sources::event_callback_lua_src;

fn spells() -> Vec<SpellRecord> {
    vec![
        SpellRecord { spell_id: 133, name: "Fireball".to_string(), icon_path: Some("Interface/Icons/Fire".to_string()), cast_time_ms: 2500 },
        SpellRecord { spell_id: 2061, name: "Flash Heal".to_string(), icon_path: None, cast_time_ms: 0 },
    ]
}

#[test]
fn spell_names_and_icons() {
    let s = spells();
    assert_eq!(spell_name(&s, 133), "Fireball");
    assert_eq!(spell_name(&s, 42), "Spell 42");
    assert_eq!(spell_icon(&s, 133), "Interface/Icons/Fire");
    assert_eq!(spell_icon(&s, 2061), DEFAULT_ICON);
    assert_eq!(spell_icon(&s, 42), "Interface/Icons/INV_Misc_QuestionMark");
    let book = vec![("Fireball".to_string(), 133u32)];
    assert_eq!(resolve_spell_id_by_name(&book, "Fireball"), Some(133));
    assert_eq!(resolve_spell_id_by_name(&book, "Frostbolt"), None);
}

#[test]
fn casting_a_timed_spell_blocks_the_next() {
    let s = spells();
    let mut st = CastState::new();
    assert!(matches!(execute_spell_by_id(&mut st, &s, 133), SpellOutcome::CastStarted));
    let c = st.casting.as_ref().unwrap();
    assert_eq!((c.spell_id, c.spell_name.as_str(), c.duration_ms, c.cast_id), (133, "Fireball", Some(2500), 0));
    assert_eq!(st.next_cast_id, 1);
    assert!(matches!(execute_spell_by_id(&mut st, &s, 2061), SpellOutcome::Busy));
    assert_eq!(st.casting.as_ref().unwrap().spell_id, 133);
}

#[test]
fn instant_spells_apply_without_a_cast() {
    let s = spells();
    let mut st = CastState::new();
    assert!(matches!(execute_spell_by_id(&mut st, &s, 2061), SpellOutcome::ApplyInstant));
    assert!(st.casting.is_none());
    assert!(matches!(execute_spell_by_id(&mut st, &s, 999), SpellOutcome::ApplyInstant));
}

#[test]
fn auto_attack_toggles() {
    let mut st = CastState::new();
    st.attack_target();
    assert_eq!(st.casting.as_ref().unwrap().spell_name, AUTO_ATTACK_NAME);
    assert_eq!(st.casting.as_ref().unwrap().duration_ms, None);
    st.stop_attack();
    assert!(st.casting.is_none());
    st.click_special_ability(2);
    assert_eq!(st.casting.as_ref().unwrap().spell_name, "Extra Attack");
    assert_eq!(st.casting.as_ref().unwrap().cast_id, 1);
    st.stop_attack();
    assert!(st.casting.is_some());
    st.click_special_ability(7);
    assert_eq!(st.next_cast_id, 2);
}

#[test]
fn cast_ids_wrap_around() {
    let mut st = CastState { casting: None, next_cast_id: u32::MAX };
    st.start_cast(1, "A", "i", Some(10));
    assert_eq!(st.casting.as_ref().unwrap().cast_id, u32::MAX);
    assert_eq!(st.next_cast_id, 0);
}

#[test]
fn cast_by_name_and_action_bar() {
    let s = spells();
    let book = vec![("Fireball".to_string(), 133u32)];
    let mut st = CastState::new();
    assert!(cast_spell_by_name(&mut st, &s, &book, "").is_none());
    assert!(st.casting.is_none());
    assert!(cast_spell_by_name(&mut st, &s, &book, "Mystery").is_none());
    let c = st.casting.as_ref().unwrap();
    assert_eq!((c.spell_id, c.spell_name.as_str(), c.duration_ms), (0, "Mystery", Some(1500)));
    let mut st = CastState::new();
    assert!(matches!(cast_spell_by_name(&mut st, &s, &book, "Fireball"), Some(SpellOutcome::CastStarted)));
    let mut st = CastState::new();
    let bars = vec![(1u32, 2061u32), (2, 133)];
    assert!(matches!(use_action(&mut st, &s, &bars, 2), Some(SpellOutcome::CastStarted)));
    assert!(use_action(&mut st, &s, &bars, 9).is_none());
    assert_eq!(action_button_name(12), "ActionButton12");
}

#[test]
fn combat_ratings() {
    let r = CombatRatings { crit_rating: 1, haste_rating: 2, mastery_rating: 3, versatility_rating: 4 };
    assert_eq!(combat_rating_for(&r, 9), 1);
    assert_eq!(combat_rating_for(&r, 6), 2);
    assert_eq!(combat_rating_for(&r, 26), 3);
    assert_eq!(combat_rating_for(&r, 14), 4);
    assert_eq!(combat_rating_for(&r, 1), 0);
}

#[test]
fn file_path_normalisation() {
    assert_eq!(file_path_stem("Interface\\Icons\\Foo.blp"), "Icons/Foo");
    assert_eq!(file_path_stem("INTERFACE/AddOns/x.tga"), "AddOns/x");
    assert_eq!(file_path_stem("World/a.b/c"), "World/a.b/c");
    assert_eq!(file_path_stem("World/a.b/c.m2"), "World/a.b/c");
    assert_eq!(normalize_file_path("Interface/Foo.Bar/Baz"), "FOO.BAR/BAZ");
    assert_eq!(file_path_stem("noext"), "noext");
    assert_eq!(normalize_file_path("Interface\\Icons\\Foo.blp"), "ICONS/FOO");
    assert_eq!(normalize_file_path("interface/icons/straße.blp"), "ICONS/STRASSE");
}

#[test]
fn file_id_lookup_last_entry_wins() {
    let manifest = vec![(10u32, "Icons/Foo".to_string()), (11, "icons/bar".to_string()), (12, "ICONS/FOO".to_string())];
    let table = get_path_to_file_id(&manifest);
    assert_eq!(table[1], ("ICONS/BAR".to_string(), 11));
    assert_eq!(file_id_from_path(&table, "Interface\\Icons\\Foo.blp"), Some(12));
    assert_eq!(file_id_from_path(&table, "Interface/Icons/bar.tga"), Some(11));
    assert_eq!(file_id_from_path(&table, "Interface/Icons/baz.tga"), None);
}

#[test]
fn event_callback_chunk() {
    let src = event_callback_lua_src();
    assert!(src.starts_with("local callback_events, restricted_events = ...\n"));
    assert!(src.contains("RegisterEventCallback = debug.newsecurefunction(RegisterEventCallback)"));
    assert!(src.contains("'\\nLua Taint: '"));
}

#[test]
fn slash_style_does_not_change_the_key() {
    assert_eq!(file_path_stem("Interface\\AddOns\\Foo\\bar.lua"), file_path_stem("Interface/AddOns/Foo/bar.lua"));
    assert!(!file_path_stem("a\\b\\c").contains('\\'));
}
