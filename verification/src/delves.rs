//! `C_DelvesUI` entrance state: the seeded tiers, which tier is selected
//! and which is active, and whether a tier can be entered.

use vstd::prelude::*;
use crate::search::{find_first, lemma_find_first_end, lemma_find_first_start, lemma_find_first_step};
use crate::text::{format_i64, spec_decimal_int};

verus! {

/// A delve entrance tier. Its description is `Tier {tier}`.
#[derive(Clone, Copy)]
pub struct DelveTier {
    pub tier: i32,
    pub unlocked: bool,
    pub modifier_widget_set_id: i32,
    pub suggested_item_level: i32,
    pub locked_reason: Option<&'static str>,
}

/// The seeded tiers: 1 to 4 unlocked, 5 locked until tier 4 is done.
pub open spec fn spec_delve_tiers() -> Seq<DelveTier> {
    seq![
        DelveTier { tier: 1, unlocked: true, modifier_widget_set_id: 4401, suggested_item_level: 571, locked_reason: None },
        DelveTier { tier: 2, unlocked: true, modifier_widget_set_id: 4402, suggested_item_level: 584, locked_reason: None },
        DelveTier { tier: 3, unlocked: true, modifier_widget_set_id: 4403, suggested_item_level: 597, locked_reason: None },
        DelveTier { tier: 4, unlocked: true, modifier_widget_set_id: 4404, suggested_item_level: 603, locked_reason: None },
        DelveTier {
            tier: 5,
            unlocked: false,
            modifier_widget_set_id: 4405,
            suggested_item_level: 610,
            locked_reason: Some("Complete Tier 4 to unlock this delve tier."),
        },
    ]
}

pub fn delve_entrance_tiers() -> (r: Vec<DelveTier>)
    ensures
        r@ == spec_delve_tiers(),
{
    let r = vec![
        DelveTier { tier: 1, unlocked: true, modifier_widget_set_id: 4401, suggested_item_level: 571, locked_reason: None },
        DelveTier { tier: 2, unlocked: true, modifier_widget_set_id: 4402, suggested_item_level: 584, locked_reason: None },
        DelveTier { tier: 3, unlocked: true, modifier_widget_set_id: 4403, suggested_item_level: 597, locked_reason: None },
        DelveTier { tier: 4, unlocked: true, modifier_widget_set_id: 4404, suggested_item_level: 603, locked_reason: None },
        DelveTier {
            tier: 5,
            unlocked: false,
            modifier_widget_set_id: 4405,
            suggested_item_level: 610,
            locked_reason: Some("Complete Tier 4 to unlock this delve tier."),
        },
    ];
    assert(r@ =~= spec_delve_tiers());
    r
}

/// `Tier {tier}`.
pub fn tier_description(tier: i32) -> (r: String)
    ensures
        r@ == "Tier "@ + spec_decimal_int(tier as int),
{
    let mut out = String::from_str("Tier ");
    let digits = format_i64(tier as i64);
    out.append(digits.as_str());
    out
}

pub open spec fn tier_is(tier: i32) -> spec_fn(DelveTier) -> bool {
    |t: DelveTier| t.tier == tier
}

fn find_tier(tiers: &Vec<DelveTier>, tier: i32) -> (r: Option<DelveTier>)
    ensures
        r == find_first(tiers@, tier_is(tier)),
{
    let ghost p = tier_is(tier);
    proof {
        lemma_find_first_start(tiers@);
    }
    let mut i: usize = 0;
    while i < tiers.len()
        invariant
            i <= tiers@.len(),
            p == tier_is(tier),
            find_first(tiers@, p) == find_first(tiers@.subrange(i as int, tiers@.len() as int), p),
        decreases tiers.len() - i,
    {
        proof {
            lemma_find_first_step(tiers@, p, i as int);
        }
        if tiers[i].tier == tier {
            return Some(tiers[i]);
        }
        i = i + 1;
    }
    proof {
        lemma_find_first_end(tiers@, p);
    }
    None
}

/// The entrance state: the tiers, the selected tier and the active one.
pub struct DelveEntrance {
    pub tiers: Vec<DelveTier>,
    pub selected_tier: i32,
    pub active_tier: DelveTier,
}

/// `IsDelveEntranceTierEnabled(tier)`: whether the tier is unlocked and,
/// when it is not, why; an unknown tier is not enabled.
pub open spec fn spec_tier_enabled(tiers: Seq<DelveTier>, tier: i32) -> (bool, Option<&'static str>) {
    match find_first(tiers, tier_is(tier)) {
        Some(t) => (t.unlocked, if t.unlocked { None } else { t.locked_reason }),
        None => (false, Some("Unknown tier")),
    }
}

impl DelveEntrance {
    /// The seeded entrance: tier 4 selected and active.
    pub fn new() -> (r: DelveEntrance)
        ensures
            r.tiers@ == spec_delve_tiers(),
            r.selected_tier == 4,
            r.active_tier == spec_delve_tiers()[3],
    {
        let tiers = delve_entrance_tiers();
        let active = tiers[3];
        DelveEntrance { tiers, selected_tier: 4, active_tier: active }
    }

    pub fn is_tier_enabled(&self, tier: i32) -> (r: (bool, Option<&'static str>))
        ensures
            r == spec_tier_enabled(self.tiers@, tier),
    {
        match find_tier(&self.tiers, tier) {
            Some(t) => (t.unlocked, if t.unlocked { None } else { t.locked_reason }),
            None => (false, Some("Unknown tier")),
        }
    }

    /// `SelectDelveEntranceTier(tier)`: records the selection, and makes
    /// the tier active when it is one of the entrance's tiers.
    pub fn select_tier(&mut self, tier: i32)
        ensures
            final(self).tiers@ == old(self).tiers@,
            final(self).selected_tier == tier,
            final(self).active_tier == (match find_first(old(self).tiers@, tier_is(tier)) {
                Some(t) => t,
                None => old(self).active_tier,
            }),
    {
        self.selected_tier = tier;
        match find_tier(&self.tiers, tier) {
            Some(t) => {
                self.active_tier = t;
            },
            None => {},
        }
    }
}

/// Selecting a seeded tier makes exactly that tier active, and its
/// enabled state is what the seed says.
pub proof fn law_select_seeded_tier(tier: i32)
    requires
        1 <= tier <= 5,
    ensures
        find_first(spec_delve_tiers(), tier_is(tier)) == Some(spec_delve_tiers()[tier - 1]),
        spec_tier_enabled(spec_delve_tiers(), tier).0 == (tier != 5),
{
    let s = spec_delve_tiers();
    reveal_with_fuel(find_first, 6);
    assert(s.drop_first() =~= seq![s[1], s[2], s[3], s[4]]);
    assert(s.drop_first().drop_first() =~= seq![s[2], s[3], s[4]]);
    assert(s.drop_first().drop_first().drop_first() =~= seq![s[3], s[4]]);
    assert(s.drop_first().drop_first().drop_first().drop_first() =~= seq![s[4]]);
}

} // verus!
