use wow_ui_glue::glue::{
    character_name_validity, character_race_name, choice_id_for_index, current_choice_index,
    default_choice_id_for_option, default_class_id, default_race_id, default_sex_id, faction_for_race,
    faction_group_for_name, find_glue_class, find_glue_race, find_glue_race_by_name, glue_character,
    glue_character_by_guid, glue_character_count, glue_character_guid, glue_class_data, glue_race_data,
    glue_selected_character, is_race_class_valid, name_for_race, race_id_from_name, racial_ability_descriptions,
    set_glue_selected_character, should_dispatch_selection, valid_races_for_class,
};
use wow_ui_glue::glue_create::{apply_selected_character, basic_character_info, has_service_character_info, GlueCreateState, PlayerIdentity};

#[test]
fn character_list() {
    assert_eq!(character_race_name(1), Some("Human"));
    assert_eq!(character_race_name(2), Some("Orc"));
    assert_eq!(character_race_name(0), None);
    assert_eq!(character_race_name(3), None);
    assert_eq!(glue_character_count(true), 2);
    assert_eq!(glue_character_count(false), 0);
    assert_eq!(glue_character_guid(true, 2), Some("Player-1-00000002"));
    assert_eq!(glue_character_guid(false, 2), None);
    assert_eq!(glue_character(1).map(|c| c.name), Some("Player"));
    assert_eq!(glue_character_by_guid("Player-1-00000002").map(|c| c.name), Some("Secondhero"));
    assert!(glue_character_by_guid("nobody").is_none());
}

#[test]
fn selection_is_clamped_and_read_back() {
    assert_eq!(set_glue_selected_character(5, 2), 2);
    assert_eq!(set_glue_selected_character(-1, 2), 1);
    assert_eq!(set_glue_selected_character(1, 0), 0);
    for i in -3..5 {
        let stored = set_glue_selected_character(i, 2);
        assert_eq!(glue_selected_character(Some(stored), 2), stored);
    }
    assert_eq!(glue_selected_character(Some(7), 2), 0);
    assert_eq!(glue_selected_character(None, 2), 0);
    assert!(should_dispatch_selection(1, false));
    assert!(!should_dispatch_selection(1, true));
    assert!(!should_dispatch_selection(0, false));
}

#[test]
fn race_and_class_lookups() {
    assert_eq!(find_glue_race(22).map(|r| r.name), Some("Worgen"));
    assert!(find_glue_race(99).is_none());
    assert_eq!(find_glue_race_by_name("night elf").map(|r| r.race_id), Some(4));
    assert_eq!(find_glue_class(13).map(|c| c.name), Some("Evoker"));
    assert_eq!(default_race_id(), 1);
    assert_eq!(default_class_id(), 1);
    assert_eq!(default_sex_id(), 0);
    assert_eq!(glue_race_data(99).name, "Human");
    assert_eq!(glue_class_data(8).name, "Mage");
    assert!(is_race_class_valid(2, 8));
    assert!(!is_race_class_valid(2, 99));
    assert_eq!(faction_for_race(2), "Horde");
    assert_eq!(faction_for_race(99), "Alliance");
    assert_eq!(name_for_race(5), "Undead");
    assert_eq!(race_id_from_name("ORC"), 2);
    assert_eq!(race_id_from_name("Murloc"), 1);
    assert_eq!(valid_races_for_class(1).len(), 12);
    assert!(valid_races_for_class(0).is_empty());
    assert_eq!(faction_group_for_name("Alliance"), 1);
    assert_eq!(faction_group_for_name("Horde"), 0);
    assert_eq!(faction_group_for_name("Neutral"), -1);
}

#[test]
fn customization_choices() {
    assert_eq!(choice_id_for_index(100, 1), 1002);
    assert_eq!(choice_id_for_index(100, 9), 1001);
    assert_eq!(choice_id_for_index(9999, 0), 0);
    assert_eq!(default_choice_id_for_option(100, 1, 0), 1003);
    assert_eq!(default_choice_id_for_option(200, 1, 0), 2001);
    assert_eq!(current_choice_index(100, 1002), 2);
    assert_eq!(current_choice_index(100, 5), 1);
}

#[test]
fn name_validity() {
    assert_eq!(character_name_validity("Thrall"), (true, None));
    assert_eq!(character_name_validity("  Jaina  "), (true, None));
    assert_eq!(character_name_validity(""), (false, Some("ERR_NAME_TOO_SHORT")));
    assert_eq!(character_name_validity("Abcdefghijklm"), (false, Some("ERR_NAME_TOO_LONG2")));
    assert_eq!(character_name_validity("Bob1"), (false, Some("ERR_NAME_TOO_SHORT")));
    assert_eq!(character_name_validity("éééééé"), (false, Some("ERR_NAME_TOO_SHORT")));
    assert_eq!(character_name_validity("ééééééé"), (false, Some("ERR_NAME_TOO_LONG2")));
}

#[test]
fn racial_abilities_text() {
    let (a, b) = racial_ability_descriptions("Orc");
    assert_eq!(a, "Orc heritage is represented in the character create flow.");
    assert_eq!(b, "Orc can pair with every simulator class option.");
}

#[test]
fn create_state_selection_read_back() {
    let mut s = GlueCreateState::new();
    assert_eq!(s.selected_race_id(), 1);
    s.set_selected_race(22);
    assert_eq!(s.selected_race_id(), 22);
    s.set_selected_race(99);
    assert_eq!(s.selected_race_id(), 1);
    s.set_selected_class(8);
    assert_eq!(s.selected_class_id(), 8);
    s.set_selected_sex(5);
    assert_eq!(s.selected_sex_id(), 1);
    s.set_selected_sex(-5);
    assert_eq!(s.selected_sex_id(), 0);
}

#[test]
fn create_state_zoom_is_clamped() {
    let mut s = GlueCreateState::new();
    s.set_camera_zoom_level(150);
    assert_eq!(s.camera_zoom, 100);
    s.zoom_camera(-30);
    assert_eq!(s.camera_zoom, 70);
    s.zoom_camera(-500);
    assert_eq!(s.camera_zoom, 0);
}

#[test]
fn create_state_choices_and_previews() {
    let mut s = GlueCreateState::new();
    assert_eq!(s.selected_choice_id(100), 1003);
    s.preview_customization_choice(100, 1001);
    assert_eq!(s.selected_choice_id(100), 1001);
    s.set_customization_choice(100, 1002);
    assert_eq!(s.selected_choice_id(100), 1002);
    s.preview_customization_choice(100, 1003);
    s.clear_preview_choices();
    assert_eq!(s.selected_choice_id(100), 1002);
    s.reset();
    assert_eq!(s.selected_choice_id(100), 1003);
}

#[test]
fn randomize_commits_every_option() {
    let mut s = GlueCreateState::new();
    s.randomize_customization();
    for opt in wow_ui_glue::glue_create::all_customization_options() {
        let choice = s.selected_choice_id(opt.id);
        assert_ne!(choice, 0);
    }
    assert_eq!(s.selected_choice_id(100), default_choice_id_for_option(100, 2, 1));
}

#[test]
fn random_name_from_race_class_and_sex() {
    let mut s = GlueCreateState::new();
    assert_eq!(s.random_name(), "HumaWarar");
    s.set_selected_race(4);
    s.set_selected_class(12);
    s.set_selected_sex(1);
    assert_eq!(s.random_name(), "NighDemia");
}

#[test]
fn create_character_writes_the_player() {
    let mut s = GlueCreateState::new();
    s.set_selected_race(22);
    s.set_selected_class(11);
    s.set_selected_sex(1);
    let mut p = PlayerIdentity { name: "Old".to_string(), class_index: 1, sex: 2, race_index: 0 };
    apply_selected_character(&s, Some("  Malfurion "), &mut p, 20);
    assert_eq!((p.name.as_str(), p.class_index, p.sex, p.race_index), ("Malfurion", 11, 3, 11));
    apply_selected_character(&s, Some("   "), &mut p, 5);
    assert_eq!((p.name.as_str(), p.race_index), ("Malfurion", 4));
    s.set_selected_sex(0);
    apply_selected_character(&s, None, &mut p, 0);
    assert_eq!((p.sex, p.race_index), (2, 0));
}

#[test]
fn basic_info_only_on_character_select() {
    let info = basic_character_info("Player-1-00000002", true, None).unwrap();
    assert_eq!((info.name.as_str(), info.race_name, info.faction), ("Secondhero", "Orc", "Horde"));
    assert!(basic_character_info("Player-1-00000002", false, None).is_none());
    assert!(basic_character_info("nobody", true, None).is_none());
    assert!(has_service_character_info("Player-1-00000001", true));
    assert!(!has_service_character_info("Player-1-00000001", false));
}

#[test]
fn unknown_class_reads_back_the_default() {
    let mut s = GlueCreateState::new();
    s.set_selected_class(99);
    assert_eq!(s.selected_class_id(), 1);
    s.set_selected_class(s.selected_class_id());
    assert_eq!(s.selected_class_id(), 1);
}

#[test]
fn create_state_flags_and_create_type() {
    let mut s = GlueCreateState::new();
    assert_eq!(s.character_create_type(), 0);
    assert!(!s.is_viewing_altered_form());
    s.set_create_type(2);
    s.set_viewing_altered_form(true);
    s.set_blur_enabled(true);
    s.set_model_dress_state(false);
    s.set_player_model_hidden_state(true);
    s.set_camera_zoom_level(40);
    assert_eq!(s.character_create_type(), 2);
    assert!(s.is_viewing_altered_form());
    assert!(s.blur_enabled);
    assert!(!s.model_dressed);
    assert!(s.model_hidden);
    s.set_selected_race(22);
    s.set_customization_choice(100, 1002);
    s.randomize_customization();
    assert_eq!(s.camera_zoom, 40);
    assert_eq!(s.character_create_type(), 2);
    assert!(s.is_viewing_altered_form() && s.blur_enabled && !s.model_dressed && s.model_hidden);
    s.reset();
    assert_eq!(s.character_create_type(), 2);
    assert!(!s.is_viewing_altered_form());
    assert!(!s.blur_enabled && s.model_dressed && !s.model_hidden);
    assert_eq!(s.camera_zoom, 0);
}
