//! `C_LossOfControl`: the one seeded loss-of-control effect, shown for the
//! player, for the target when there is one, and for the unit-less query.

use vstd::prelude::*;
use crate::text::str_eq;

verus! {

/// How many loss-of-control effects a unit has: one for no unit, for the
/// player, and for the target while a target exists; none otherwise.
pub open spec fn spec_loss_of_control_count(unit_token: Option<Seq<char>>, has_target: bool) -> i32 {
    match unit_token {
        None => 1,
        Some(u) => if u == "player"@ || (u == "target"@ && has_target) {
            1
        } else {
            0
        },
    }
}

pub fn loss_of_control_count_for_unit(unit_token: Option<&str>, has_target: bool) -> (r: i32)
    ensures
        r == spec_loss_of_control_count(
            match unit_token {
                Some(u) => Some(u@),
                None => None,
            },
            has_target,
        ),
{
    match unit_token {
        None => 1,
        Some(u) => {
            if str_eq(u, "player") || (str_eq(u, "target") && has_target) {
                1
            } else {
                0
            }
        },
    }
}

/// `GetActiveLossOfControlData(index)` / `...ByUnit(unit, index)` report
/// the seeded effect only at index 1 and only for a unit that has one.
pub fn loss_of_control_data_shown(unit_token: Option<&str>, index: i32, has_target: bool) -> (r: bool)
    ensures
        r == (index == 1 && spec_loss_of_control_count(
            match unit_token {
                Some(u) => Some(u@),
                None => None,
            },
            has_target,
        ) != 0),
{
    index == 1 && loss_of_control_count_for_unit(unit_token, has_target) != 0
}

/// `GetActiveLossOfControlDuration(unit, index)` reports the seeded
/// duration only at index 1 for a unit with exactly one effect.
pub fn loss_of_control_duration_shown(unit_token: &str, index: i32, has_target: bool) -> (r: bool)
    ensures
        r == (spec_loss_of_control_count(Some(unit_token@), has_target) == 1 && index == 1),
{
    loss_of_control_count_for_unit(Some(unit_token), has_target) == 1 && index == 1
}

} // verus!
