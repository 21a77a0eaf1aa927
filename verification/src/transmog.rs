//! `C_TransmogOutfitInfo`: the active and viewed outfit, and the pending
//! sheathe categories keyed by slot and weapon option.

use vstd::prelude::*;
use crate::str_map::StrMap;
use crate::text::{
    format_i64, lemma_decimal_int_chars, lemma_decimal_int_injective,
    spec_decimal_int, spec_is_digit,
};

verus! {

/// The key under which a pending sheathe category is stored:
/// `"{slot}:{weapon_option}"`.
pub open spec fn spec_sheathe_key(slot: int, weapon_option: int) -> Seq<char> {
    spec_decimal_int(slot) + seq![':'] + spec_decimal_int(weapon_option)
}

pub fn pending_sheathe_category_key(slot: i32, weapon_option: i32) -> (r: String)
    ensures
        r@ == spec_sheathe_key(slot as int, weapon_option as int),
{
    let mut out = format_i64(slot as i64);
    out.append(":");
    let w = format_i64(weapon_option as i64);
    out.append(w.as_str());
    proof {
        reveal_strlit(":");
    }
    out
}

proof fn lemma_no_colon(n: int)
    ensures
        forall|i: int| 0 <= i < spec_decimal_int(n).len() ==> #[trigger] spec_decimal_int(n)[i] != ':',
{
    lemma_decimal_int_chars(n);
    assert forall|i: int| 0 <= i < spec_decimal_int(n).len() implies #[trigger] spec_decimal_int(n)[i] != ':' by {
        if spec_is_digit(spec_decimal_int(n)[i]) {
        }
    }
}

/// Distinct (slot, weapon option) pairs get distinct keys, so a pending
/// category set for one pair never overwrites another's.
pub proof fn law_sheathe_key_injective(a: int, b: int, c: int, d: int)
    requires
        spec_sheathe_key(a, b) == spec_sheathe_key(c, d),
    ensures
        a == c,
        b == d,
{
    let x = spec_decimal_int(a);
    let y = spec_decimal_int(c);
    let k = spec_sheathe_key(a, b);
    lemma_no_colon(a);
    lemma_no_colon(c);
    if x.len() < y.len() {
        assert(k[x.len() as int] == ':');
        assert(k[x.len() as int] == y[x.len() as int]);
    } else if y.len() < x.len() {
        assert(k[y.len() as int] == ':');
        assert(k[y.len() as int] == x[y.len() as int]);
    }
    assert(x =~= k.subrange(0, x.len() as int));
    assert(y =~= k.subrange(0, y.len() as int));
    lemma_decimal_int_injective(a, c);
    assert(spec_decimal_int(b) =~= k.subrange(x.len() as int + 1, k.len() as int));
    assert(spec_decimal_int(d) =~= k.subrange(y.len() as int + 1, k.len() as int));
    lemma_decimal_int_injective(b, d);
}

/// The outfit state of `C_TransmogOutfitInfo`.
pub struct TransmogOutfitState {
    pub active_outfit_id: i32,
    pub viewed_outfit_id: i32,
    pub pending_sheathe_categories: StrMap,
}

/// What the outfit state holds.
pub struct OutfitView {
    pub active_outfit_id: i32,
    pub viewed_outfit_id: i32,
    pub pending: Map<Seq<char>, i32>,
}

impl View for TransmogOutfitState {
    type V = OutfitView;

    open spec fn view(&self) -> OutfitView {
        OutfitView {
            active_outfit_id: self.active_outfit_id,
            viewed_outfit_id: self.viewed_outfit_id,
            pending: self.pending_sheathe_categories@,
        }
    }
}

/// The state with no outfit active or viewed and nothing pending.
pub open spec fn spec_cleared_outfit() -> OutfitView {
    OutfitView { active_outfit_id: 0, viewed_outfit_id: 0, pending: Map::empty() }
}

/// What `ChangeToOutfit(index, allowRemoveOutfit)` makes of a state.
pub open spec fn spec_change_to_outfit(v: OutfitView, outfit_index: i32, allow_remove_outfit: bool) -> OutfitView {
    if allow_remove_outfit && v.active_outfit_id == outfit_index {
        spec_cleared_outfit()
    } else {
        OutfitView { active_outfit_id: outfit_index, viewed_outfit_id: outfit_index, ..v }
    }
}

impl TransmogOutfitState {
    pub open spec fn wf(&self) -> bool {
        self.pending_sheathe_categories.wf()
    }

    /// No outfit active or viewed, nothing pending.
    pub open spec fn is_cleared(&self) -> bool {
        self@ == spec_cleared_outfit()
    }

    pub fn new() -> (r: TransmogOutfitState)
        ensures
            r.wf(),
            r.is_cleared(),
    {
        TransmogOutfitState { active_outfit_id: 0, viewed_outfit_id: 0, pending_sheathe_categories: StrMap::new() }
    }

    /// `GetActiveOutfitID()`.
    pub fn active_outfit_id(&self) -> (r: i32)
        ensures
            r == self.active_outfit_id,
    {
        self.active_outfit_id
    }

    /// `GetCurrentlyViewedOutfitID()`.
    pub fn currently_viewed_outfit_id(&self) -> (r: i32)
        ensures
            r == self.viewed_outfit_id,
    {
        self.viewed_outfit_id
    }

    /// `SetPendingTransmogSheatheCategory(slot, weaponOption, category)`.
    pub fn set_pending_sheathe_category(&mut self, slot: i32, weapon_option: i32, sheathe_category: i32)
        requires
            old(self).wf(),
        ensures
            final(self).wf(),
            final(self).active_outfit_id == old(self).active_outfit_id,
            final(self).viewed_outfit_id == old(self).viewed_outfit_id,
            final(self).pending_sheathe_categories@ == old(self).pending_sheathe_categories@.insert(
                spec_sheathe_key(slot as int, weapon_option as int),
                sheathe_category,
            ),
    {
        let key = pending_sheathe_category_key(slot, weapon_option);
        self.pending_sheathe_categories.insert(key, sheathe_category);
    }

    /// The category pending for a slot and weapon option, if any.
    pub fn pending_sheathe_category(&self, slot: i32, weapon_option: i32) -> (r: Option<i32>)
        requires
            self.wf(),
        ensures
            r == (if self.pending_sheathe_categories@.dom().contains(
                spec_sheathe_key(slot as int, weapon_option as int),
            ) {
                Some(self.pending_sheathe_categories@[spec_sheathe_key(slot as int, weapon_option as int)])
            } else {
                None::<i32>
            }),
    {
        let key = pending_sheathe_category_key(slot, weapon_option);
        self.pending_sheathe_categories.get(key.as_str())
    }

    /// `ClearOutfit()`: no outfit active or viewed, nothing pending.
    pub fn clear_outfit(&mut self)
        ensures
            final(self).wf(),
            final(self).is_cleared(),
    {
        self.active_outfit_id = 0;
        self.viewed_outfit_id = 0;
        self.pending_sheathe_categories = StrMap::new();
    }

    /// `ChangeToOutfit(index, allowRemoveOutfit)`: choosing the active
    /// outfit again with removal allowed clears it; otherwise the outfit
    /// becomes active and viewed, and the pending categories stay.
    pub fn change_to_outfit(&mut self, outfit_index: i32, allow_remove_outfit: bool)
        requires
            old(self).wf(),
        ensures
            final(self).wf(),
            final(self)@ == spec_change_to_outfit(old(self)@, outfit_index, allow_remove_outfit),
    {
        if allow_remove_outfit && self.active_outfit_id == outfit_index {
            self.clear_outfit();
        } else {
            self.active_outfit_id = outfit_index;
            self.viewed_outfit_id = outfit_index;
        }
    }
}

/// A sheathe category and its display name.
pub struct SheatheCategoryInfo {
    pub sheathe_category: i32,
    pub category_name: &'static str,
}

pub open spec fn spec_sheathe_categories() -> Seq<(i32, &'static str)> {
    seq![(0i32, "Default"), (1i32, "Back"), (2i32, "Side"), (3i32, "Hide")]
}

/// `GetAllTransmogOutfitOptionSheatheCategoryInfo(imaID)`: the four
/// sheathe categories for a positive appearance id, nothing otherwise.
pub fn sheathe_category_info(ima_id: i32) -> (r: Option<Vec<SheatheCategoryInfo>>)
    ensures
        ima_id <= 0 ==> r is None,
        ima_id > 0 ==> (r matches Some(v) && v@.len() == spec_sheathe_categories().len() && forall|i: int|
            0 <= i < v@.len() ==> (#[trigger] v@[i]).sheathe_category == spec_sheathe_categories()[i].0
                && v@[i].category_name == spec_sheathe_categories()[i].1),
{
    if ima_id <= 0 {
        return None;
    }
    let v = vec![
        SheatheCategoryInfo { sheathe_category: 0, category_name: "Default" },
        SheatheCategoryInfo { sheathe_category: 1, category_name: "Back" },
        SheatheCategoryInfo { sheathe_category: 2, category_name: "Side" },
        SheatheCategoryInfo { sheathe_category: 3, category_name: "Hide" },
    ];
    Some(v)
}

/// Choosing an outfit and then choosing it again with removal allowed
/// takes it off: nothing is active, viewed or pending afterwards.
pub proof fn law_change_to_outfit_toggles(v: OutfitView, outfit_index: i32)
    ensures
        spec_change_to_outfit(spec_change_to_outfit(v, outfit_index, false), outfit_index, true)
            == spec_cleared_outfit(),
{
}

/// Choosing an outfit without removal makes it active and viewed, whatever
/// was active before.
pub proof fn law_change_to_outfit_selects(v: OutfitView, outfit_index: i32)
    ensures
        spec_change_to_outfit(v, outfit_index, false).active_outfit_id == outfit_index,
        spec_change_to_outfit(v, outfit_index, false).viewed_outfit_id == outfit_index,
        spec_change_to_outfit(v, outfit_index, false).pending == v.pending,
{
}

/// A pending category set for one slot and weapon option is read back for
/// that pair and leaves every other pair's category as it was.
pub proof fn law_pending_category_read_back(
    pending: Map<Seq<char>, i32>,
    slot: int,
    weapon_option: int,
    category: i32,
    other_slot: int,
    other_weapon_option: int,
)
    ensures
        pending.insert(spec_sheathe_key(slot, weapon_option), category)[spec_sheathe_key(slot, weapon_option)]
            == category,
        (other_slot != slot || other_weapon_option != weapon_option) ==> pending.insert(
            spec_sheathe_key(slot, weapon_option),
            category,
        ).dom().contains(spec_sheathe_key(other_slot, other_weapon_option)) == pending.dom().contains(
            spec_sheathe_key(other_slot, other_weapon_option),
        ) && pending.insert(spec_sheathe_key(slot, weapon_option), category)[spec_sheathe_key(
            other_slot,
            other_weapon_option,
        )] == pending[spec_sheathe_key(other_slot, other_weapon_option)],
{
    if other_slot != slot || other_weapon_option != weapon_option {
        if spec_sheathe_key(slot, weapon_option) == spec_sheathe_key(other_slot, other_weapon_option) {
            law_sheathe_key_injective(slot, weapon_option, other_slot, other_weapon_option);
        }
    }
}

/// Changing to an outfit other than the active one selects it whatever
/// `allowRemoveOutfit` says: it becomes active and viewed and the pending
/// categories stay. Only changing to the active outfit with removal
/// allowed clears the state.
pub proof fn law_change_to_other_outfit_selects(v: OutfitView, outfit_index: i32, allow_remove_outfit: bool)
    ensures
        v.active_outfit_id != outfit_index ==> spec_change_to_outfit(v, outfit_index, allow_remove_outfit)
            == spec_change_to_outfit(v, outfit_index, false),
        v.active_outfit_id != outfit_index ==> spec_change_to_outfit(
            v,
            outfit_index,
            allow_remove_outfit,
        ).active_outfit_id == outfit_index && spec_change_to_outfit(v, outfit_index, allow_remove_outfit).viewed_outfit_id
            == outfit_index && spec_change_to_outfit(v, outfit_index, allow_remove_outfit).pending == v.pending,
{
}

} // verus!
