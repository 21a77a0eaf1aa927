use wow_ui_glue::account::{
    save_account_data, set_saved_account_name, was_screen_first_displayed, AccountSaveState, LoginAccountState,
    ACCOUNT_EXPORT_RESULT_ALREADY_IN_PROGRESS, ACCOUNT_EXPORT_RESULT_SUCCESS, ACCOUNT_EXPORT_RESULT_UNAVAILABLE,
};
use wow_ui_glue::frames::{close_frame, next_child, CloseVerb, OpenFrames};
use wow_ui_glue::reports::ReportState;
use wow_ui_glue::transmog::{pending_sheathe_category_key, sheathe_category_info, TransmogOutfitState};

#[test]
fn save_account_data_outcomes() {
    let mut s = AccountSaveState { save_enabled: false, save_in_progress: false, locked_post_save: false };
    assert_eq!(save_account_data(&mut s), (false, ACCOUNT_EXPORT_RESULT_UNAVAILABLE));
    assert!(!s.locked_post_save);
    let mut s = AccountSaveState { save_enabled: true, save_in_progress: true, locked_post_save: false };
    assert_eq!(save_account_data(&mut s), (false, ACCOUNT_EXPORT_RESULT_ALREADY_IN_PROGRESS));
    assert!(!s.locked_post_save);
    let mut s = AccountSaveState { save_enabled: true, save_in_progress: false, locked_post_save: false };
    assert_eq!(save_account_data(&mut s), (true, ACCOUNT_EXPORT_RESULT_SUCCESS));
    assert!(s.locked_post_save && !s.save_in_progress);
    assert_eq!(save_account_data(&mut s), (true, 0));
    assert_eq!((ACCOUNT_EXPORT_RESULT_UNAVAILABLE, ACCOUNT_EXPORT_RESULT_ALREADY_IN_PROGRESS), (10, 11));
}

#[test]
fn saved_account_name_seeds_the_list_once() {
    let mut s = LoginAccountState {
        saved_account_name: String::new(),
        saved_account_list: String::new(),
        uses_token: false,
        screen_first_displayed: false,
    };
    set_saved_account_name(&mut s, "");
    assert_eq!(s.saved_account_list, "");
    set_saved_account_name(&mut s, "first@example");
    assert_eq!(s.saved_account_list, "first@example");
    set_saved_account_name(&mut s, "second@example");
    assert_eq!(s.saved_account_name, "second@example");
    assert_eq!(s.saved_account_list, "first@example");
    assert!(was_screen_first_displayed(&s, true));
    assert!(!was_screen_first_displayed(&s, false));
}

#[test]
fn close_frames_clear_flags_and_name_events() {
    let mut f = OpenFrames {
        bank_frame_open: true,
        guild_bank_frame_open: true,
        merchant_frame_open: true,
        tabard_frame_open: true,
        trainer_frame_open: true,
        socket_frame_open: true,
        loot_frame_open: true,
        guild_registrar_open: true,
        pet_stables_open: true,
    };
    assert_eq!(close_frame(&mut f, CloseVerb::Merchant), "MERCHANT_CLOSED");
    assert!(!f.merchant_frame_open && f.bank_frame_open);
    assert_eq!(close_frame(&mut f, CloseVerb::Merchant), "MERCHANT_CLOSED");
    assert_eq!(close_frame(&mut f, CloseVerb::TabardCreation), "TABARD_CANCELED");
    assert_eq!(close_frame(&mut f, CloseVerb::SocketInfo), "SOCKET_INFO_CLOSE");
    assert_eq!(close_frame(&mut f, CloseVerb::GuildRegistrar), "PETITION_CLOSED");
    assert_eq!(close_frame(&mut f, CloseVerb::PetStables), "PET_STABLE_CLOSED");
    assert!(!f.pet_stables_open && f.loot_frame_open);
}

#[test]
fn frame_children_iteration() {
    let kids = vec![11u64, 12, 13];
    assert_eq!(next_child(&kids, 0), Some((1, 11)));
    assert_eq!(next_child(&kids, 2), Some((3, 13)));
    assert_eq!(next_child(&kids, 3), None);
    assert_eq!(next_child(&kids, -7), None);
}

#[test]
fn report_tokens_are_used_once() {
    let mut r = ReportState::new(1);
    let a = r.initiate_report_player("spam");
    let b = r.initiate_report_player("cheating");
    assert_eq!((a, b), (1, 2));
    assert_eq!(r.send_report_player(b), Some("cheating".to_string()));
    assert_eq!(r.send_report_player(b), None);
    assert_eq!(r.send_report_player(a), Some("spam".to_string()));
    assert_eq!(r.send_report_player(99), None);
}

#[test]
fn transmog_outfit_toggle_and_pending_categories() {
    let mut t = TransmogOutfitState::new();
    t.change_to_outfit(3, true);
    assert_eq!((t.active_outfit_id(), t.currently_viewed_outfit_id()), (3, 3));
    t.set_pending_sheathe_category(16, 1, 2);
    t.set_pending_sheathe_category(16, 2, 3);
    assert_eq!(t.pending_sheathe_category(16, 1), Some(2));
    assert_eq!(t.pending_sheathe_category(16, 2), Some(3));
    t.set_pending_sheathe_category(16, 1, 1);
    assert_eq!(t.pending_sheathe_category(16, 1), Some(1));
    t.change_to_outfit(4, false);
    assert_eq!(t.active_outfit_id(), 4);
    assert_eq!(t.pending_sheathe_category(16, 2), Some(3));
    t.change_to_outfit(4, true);
    assert_eq!((t.active_outfit_id(), t.currently_viewed_outfit_id()), (0, 0));
    assert_eq!(t.pending_sheathe_category(16, 2), None);
    t.change_to_outfit(0, true);
    assert_eq!(t.active_outfit_id(), 0);
}

#[test]
fn transmog_keys_and_categories() {
    assert_eq!(pending_sheathe_category_key(16, 2), "16:2");
    assert_eq!(pending_sheathe_category_key(-1, 0), "-1:0");
    assert_ne!(pending_sheathe_category_key(1, 12), pending_sheathe_category_key(11, 2));
    assert!(sheathe_category_info(0).is_none());
    let cats = sheathe_category_info(5).unwrap();
    let got: Vec<(i32, &str)> = cats.iter().map(|c| (c.sheathe_category, c.category_name)).collect();
    assert_eq!(got, vec![(0, "Default"), (1, "Back"), (2, "Side"), (3, "Hide")]);
}
