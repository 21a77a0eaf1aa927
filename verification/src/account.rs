//! `C_AccountServices`: exporting the account's data, and the saved account
//! name of the login screen.

use vstd::prelude::*;

verus! {

/// The export succeeded.
pub const ACCOUNT_EXPORT_RESULT_SUCCESS: i32 = 0;

/// Account saving is switched off.
pub const ACCOUNT_EXPORT_RESULT_UNAVAILABLE: i32 = 10;

/// An export is already running.
pub const ACCOUNT_EXPORT_RESULT_ALREADY_IN_PROGRESS: i32 = 11;

/// The account-save flags of the simulated client.
pub struct AccountSaveState {
    pub save_enabled: bool,
    pub save_in_progress: bool,
    pub locked_post_save: bool,
}

/// What `SaveAccountData()` answers, and the state it leaves.
pub open spec fn spec_save_account_data(s: AccountSaveState) -> (AccountSaveState, (bool, i32)) {
    if !s.save_enabled {
        (s, (false, ACCOUNT_EXPORT_RESULT_UNAVAILABLE))
    } else if s.save_in_progress {
        (s, (false, ACCOUNT_EXPORT_RESULT_ALREADY_IN_PROGRESS))
    } else {
        (
            AccountSaveState { save_enabled: true, save_in_progress: false, locked_post_save: true },
            (true, ACCOUNT_EXPORT_RESULT_SUCCESS),
        )
    }
}

/// `C_AccountServices.SaveAccountData()`: refused while saving is off or
/// already running; otherwise the export runs to completion and locks the
/// account.
pub fn save_account_data(state: &mut AccountSaveState) -> (r: (bool, i32))
    ensures
        (*final(state), r) == spec_save_account_data(*old(state)),
{
    if !state.save_enabled {
        return (false, ACCOUNT_EXPORT_RESULT_UNAVAILABLE);
    }
    if state.save_in_progress {
        return (false, ACCOUNT_EXPORT_RESULT_ALREADY_IN_PROGRESS);
    }
    state.save_in_progress = true;
    state.locked_post_save = true;
    state.save_in_progress = false;
    (true, ACCOUNT_EXPORT_RESULT_SUCCESS)
}

/// A refused save changes nothing, and a successful one leaves no save
/// running, so saving again succeeds again.
pub proof fn law_save_account_data_repeatable(s: AccountSaveState)
    ensures
        !spec_save_account_data(s).1.0 ==> spec_save_account_data(s).0 == s,
        spec_save_account_data(s).1.0 ==> {
            let t = spec_save_account_data(s).0;
            &&& t.locked_post_save
            &&& !t.save_in_progress
            &&& spec_save_account_data(t) == (t, (true, ACCOUNT_EXPORT_RESULT_SUCCESS))
        },
        spec_save_account_data(s).1.0 <==> (s.save_enabled && !s.save_in_progress),
{
}

/// The saved account name and account list of the login screen.
pub struct LoginAccountState {
    pub saved_account_name: String,
    pub saved_account_list: String,
    pub uses_token: bool,
    pub screen_first_displayed: bool,
}

/// `SetSavedAccountName(name)`: stores the name, and makes it the account
/// list too when it is non-empty and no list is stored yet.
pub fn set_saved_account_name(state: &mut LoginAccountState, account_name: &str)
    ensures
        final(state).saved_account_name@ == account_name@,
        final(state).saved_account_list@ == (if account_name@.len() > 0 && old(
            state,
        ).saved_account_list@.len() == 0 {
            account_name@
        } else {
            old(state).saved_account_list@
        }),
        final(state).uses_token == old(state).uses_token,
        final(state).screen_first_displayed == old(state).screen_first_displayed,
{
    state.saved_account_name = String::from_str(account_name);
    if account_name.unicode_len() > 0 && state.saved_account_list.as_str().unicode_len() == 0 {
        state.saved_account_list = String::from_str(account_name);
    }
}

/// `WasScreenFirstDisplayed()`: true once the screen was shown, and always
/// on a glue screen.
pub fn was_screen_first_displayed(state: &LoginAccountState, screen_is_glue: bool) -> (r: bool)
    ensures
        r == (state.screen_first_displayed || screen_is_glue),
{
    state.screen_first_displayed || screen_is_glue
}

} // verus!
