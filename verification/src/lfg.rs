//! `C_LFGList` activity info, synthesised from an activity id.

use vstd::prelude::*;
use crate::text::{format_u64, spec_decimal};

verus! {

/// What `GetActivityInfoTable(activityID)` reports.
pub struct ActivityInfo {
    pub activity_id: u32,
    pub full_name: String,
    pub short_name: String,
    pub category_id: i32,
    pub group_finder_activity_group_id: i32,
    pub max_players: i32,
    pub min_level: i32,
    pub max_level: i32,
    pub is_mythic_plus_activity: bool,
}

/// `Activity {id}` / `Act{id}`, a five-player category-2 activity for
/// levels 70 to 80; ids above 1000 are Mythic+ activities.
pub fn activity_info(activity_id: u32) -> (r: ActivityInfo)
    ensures
        r.activity_id == activity_id,
        r.full_name@ == "Activity "@ + spec_decimal(activity_id as nat),
        r.short_name@ == "Act"@ + spec_decimal(activity_id as nat),
        r.category_id == 2,
        r.group_finder_activity_group_id == 0,
        r.max_players == 5,
        r.min_level == 70,
        r.max_level == 80,
        r.is_mythic_plus_activity == (activity_id > 1000),
{
    let digits = format_u64(activity_id as u64);
    let mut full_name = String::from_str("Activity ");
    full_name.append(digits.as_str());
    let mut short_name = String::from_str("Act");
    short_name.append(digits.as_str());
    ActivityInfo {
        activity_id,
        full_name,
        short_name,
        category_id: 2,
        group_finder_activity_group_id: 0,
        max_players: 5,
        min_level: 70,
        max_level: 80,
        is_mythic_plus_activity: activity_id > 1000,
    }
}

} // verus!
