//! The cast state behind the combat and cast verbs (`CastSpellByID`,
//! `CastSpellByName`, `UseAction`, `AttackTarget`, `StopAttack`,
//! `ClickSpecialAbility`) and the combat-rating lookup.

use vstd::prelude::*;
use crate::search::{find_first, lemma_find_first_end, lemma_find_first_start, lemma_find_first_step};
use crate::text::{format_u64, spec_decimal, str_eq};

verus! {

/// Name of the auto-attack marker cast.
pub const AUTO_ATTACK_NAME: &'static str = "Auto Attack";

/// Name of the extra-attack marker cast.
pub const EXTRA_ATTACK_NAME: &'static str = "Extra Attack";

/// Icon of a spell without one.
pub const DEFAULT_ICON: &'static str = "Interface/Icons/INV_Misc_QuestionMark";

/// How long a cast without a known cast time lasts, in milliseconds.
pub const DEFAULT_CAST_DURATION_MS: u32 = 1500;

/// What the cast logic reads of a spell record: its name, its icon's
/// texture path when the manifest has one, and its cast time.
pub struct SpellRecord {
    pub spell_id: u32,
    pub name: String,
    pub icon_path: Option<String>,
    pub cast_time_ms: i32,
}

pub open spec fn spell_has_id(spell_id: u32) -> spec_fn(SpellRecord) -> bool {
    |s: SpellRecord| s.spell_id == spell_id
}

/// The record of a spell, the first with that id.
pub open spec fn spec_spell(spells: Seq<SpellRecord>, spell_id: u32) -> Option<SpellRecord> {
    find_first(spells, spell_has_id(spell_id))
}

fn find_spell(spells: &Vec<SpellRecord>, spell_id: u32) -> (r: Option<usize>)
    ensures
        match spec_spell(spells@, spell_id) {
            None => r is None,
            Some(s) => r matches Some(k) && k < spells@.len() && spells@[k as int] == s,
        },
{
    let ghost p = spell_has_id(spell_id);
    proof {
        lemma_find_first_start(spells@);
    }
    let mut i: usize = 0;
    while i < spells.len()
        invariant
            i <= spells@.len(),
            p == spell_has_id(spell_id),
            find_first(spells@, p) == find_first(spells@.subrange(i as int, spells@.len() as int), p),
        decreases spells.len() - i,
    {
        proof {
            lemma_find_first_step(spells@, p, i as int);
        }
        if spells[i].spell_id == spell_id {
            return Some(i);
        }
        i = i + 1;
    }
    proof {
        lemma_find_first_end(spells@, p);
    }
    None
}

/// The display name of a spell: its record's name, else `Spell {id}`.
pub open spec fn spec_spell_name(spells: Seq<SpellRecord>, spell_id: u32) -> Seq<char> {
    match spec_spell(spells, spell_id) {
        Some(s) => s.name@,
        None => "Spell "@ + spec_decimal(spell_id as nat),
    }
}

pub fn spell_name(spells: &Vec<SpellRecord>, spell_id: u32) -> (r: String)
    ensures
        r@ == spec_spell_name(spells@, spell_id),
{
    match find_spell(spells, spell_id) {
        Some(k) => spells[k].name.clone(),
        None => {
            let mut out = String::from_str("Spell ");
            let digits = format_u64(spell_id as u64);
            out.append(digits.as_str());
            out
        },
    }
}

/// The icon of a spell: its texture path, else the question-mark icon.
pub open spec fn spec_spell_icon(spells: Seq<SpellRecord>, spell_id: u32) -> Seq<char> {
    match spec_spell(spells, spell_id) {
        Some(s) => match s.icon_path {
            Some(p) => p@,
            None => DEFAULT_ICON@,
        },
        None => DEFAULT_ICON@,
    }
}

pub fn spell_icon(spells: &Vec<SpellRecord>, spell_id: u32) -> (r: String)
    ensures
        r@ == spec_spell_icon(spells@, spell_id),
{
    match find_spell(spells, spell_id) {
        Some(k) => match &spells[k].icon_path {
            Some(p) => p.clone(),
            None => String::from_str(DEFAULT_ICON),
        },
        None => String::from_str(DEFAULT_ICON),
    }
}

pub open spec fn spellbook_entry_named(name: Seq<char>) -> spec_fn((String, u32)) -> bool {
    |e: (String, u32)| e.0@ == name
}

/// The spell id the spellbook lists under a name (its first such entry).
pub open spec fn spec_spellbook_lookup(spellbook: Seq<(String, u32)>, name: Seq<char>) -> Option<u32> {
    match find_first(spellbook, spellbook_entry_named(name)) {
        Some(e) => Some(e.1),
        None => None,
    }
}

pub fn resolve_spell_id_by_name(spellbook: &Vec<(String, u32)>, name: &str) -> (r: Option<u32>)
    ensures
        r == spec_spellbook_lookup(spellbook@, name@),
{
    let ghost p = spellbook_entry_named(name@);
    proof {
        lemma_find_first_start(spellbook@);
    }
    let mut i: usize = 0;
    while i < spellbook.len()
        invariant
            i <= spellbook@.len(),
            p == spellbook_entry_named(name@),
            find_first(spellbook@, p) == find_first(spellbook@.subrange(i as int, spellbook@.len() as int), p),
        decreases spellbook.len() - i,
    {
        proof {
            lemma_find_first_step(spellbook@, p, i as int);
        }
        if str_eq(spellbook[i].0.as_str(), name) {
            return Some(spellbook[i].1);
        }
        i = i + 1;
    }
    proof {
        lemma_find_first_end(spellbook@, p);
    }
    None
}

/// A cast in flight. `duration_ms` is `None` for a cast that never ends
/// (the auto-attack marker).
pub struct Cast {
    pub spell_id: u32,
    pub spell_name: String,
    pub icon_path: String,
    pub duration_ms: Option<u32>,
    pub cast_id: u32,
}

/// The player's cast state: the cast in flight, and the id the next cast
/// gets.
pub struct CastState {
    pub casting: Option<Cast>,
    pub next_cast_id: u32,
}

/// What a cast holds, by value.
pub struct CastView {
    pub spell_id: u32,
    pub spell_name: Seq<char>,
    pub icon_path: Seq<char>,
    pub duration_ms: Option<u32>,
    pub cast_id: u32,
}

impl View for Cast {
    type V = CastView;

    open spec fn view(&self) -> CastView {
        CastView {
            spell_id: self.spell_id,
            spell_name: self.spell_name@,
            icon_path: self.icon_path@,
            duration_ms: self.duration_ms,
            cast_id: self.cast_id,
        }
    }
}

/// The cast state by value.
pub struct CastStateView {
    pub casting: Option<CastView>,
    pub next_cast_id: u32,
}

impl View for CastState {
    type V = CastStateView;

    open spec fn view(&self) -> CastStateView {
        CastStateView {
            casting: match self.casting {
                Some(c) => Some(c@),
                None => None,
            },
            next_cast_id: self.next_cast_id,
        }
    }
}

/// Starting a cast: it takes the next cast id, and the id after it (with
/// wrap-around) is kept for the cast that follows.
pub open spec fn spec_start_cast(
    s: CastStateView,
    spell_id: u32,
    spell_name: Seq<char>,
    icon_path: Seq<char>,
    duration_ms: Option<u32>,
) -> CastStateView {
    CastStateView {
        casting: Some(
            CastView { spell_id, spell_name, icon_path, duration_ms, cast_id: s.next_cast_id },
        ),
        next_cast_id: (if s.next_cast_id == u32::MAX { 0 } else { s.next_cast_id + 1 }) as u32,
    }
}

impl CastState {
    pub fn new() -> (r: CastState)
        ensures
            r@.casting is None,
            r@.next_cast_id == 0,
    {
        CastState { casting: None, next_cast_id: 0 }
    }

    pub fn start_cast(&mut self, spell_id: u32, spell_name: &str, icon_path: &str, duration_ms: Option<u32>)
        ensures
            final(self)@ == spec_start_cast(old(self)@, spell_id, spell_name@, icon_path@, duration_ms),
    {
        let cast_id = self.next_cast_id;
        self.next_cast_id = self.next_cast_id.wrapping_add(1);
        self.casting = Some(
            Cast {
                spell_id,
                spell_name: String::from_str(spell_name),
                icon_path: String::from_str(icon_path),
                duration_ms,
                cast_id,
            },
        );
    }

    /// Ends the cast in flight when it has the given name.
    pub fn clear_cast_if_named(&mut self, expected_name: &str)
        ensures
            final(self)@ == (if old(self)@.casting matches Some(c) && c.spell_name == expected_name@ {
                CastStateView { casting: None, ..old(self)@ }
            } else {
                old(self)@
            }),
    {
        let matches = match &self.casting {
            Some(c) => str_eq(c.spell_name.as_str(), expected_name),
            None => false,
        };
        if matches {
            self.casting = None;
        }
    }

    /// `AttackTarget()`: the auto-attack marker, a cast that never ends.
    pub fn attack_target(&mut self)
        ensures
            final(self)@ == spec_start_cast(old(self)@, 0, AUTO_ATTACK_NAME@, DEFAULT_ICON@, None),
    {
        self.start_cast(0, AUTO_ATTACK_NAME, DEFAULT_ICON, None);
    }

    /// `StopAttack()`: drops the auto-attack marker.
    pub fn stop_attack(&mut self)
        ensures
            final(self)@ == (if old(self)@.casting matches Some(c) && c.spell_name == AUTO_ATTACK_NAME@ {
                CastStateView { casting: None, ..old(self)@ }
            } else {
                old(self)@
            }),
    {
        self.clear_cast_if_named(AUTO_ATTACK_NAME);
    }

    /// `ClickSpecialAbility(index)`: 1 starts the auto-attack marker, 2 the
    /// extra-attack marker; other indices do nothing.
    pub fn click_special_ability(&mut self, index: u32)
        ensures
            final(self)@ == (if index == 1 {
                spec_start_cast(old(self)@, 0, AUTO_ATTACK_NAME@, DEFAULT_ICON@, None)
            } else if index == 2 {
                spec_start_cast(old(self)@, 0, EXTRA_ATTACK_NAME@, DEFAULT_ICON@, Some(DEFAULT_CAST_DURATION_MS))
            } else {
                old(self)@
            }),
    {
        if index == 1 {
            self.start_cast(0, AUTO_ATTACK_NAME, DEFAULT_ICON, None);
        } else if index == 2 {
            self.start_cast(0, EXTRA_ATTACK_NAME, DEFAULT_ICON, Some(DEFAULT_CAST_DURATION_MS));
        }
    }
}

/// What executing a spell asks of the caller.
pub enum SpellOutcome {
    /// A cast was already in flight; nothing happened.
    Busy,
    /// A timed cast started; `UNIT_SPELLCAST_START` is owed for the player.
    CastStarted,
    /// An instant spell: its effect is applied to the target now.
    ApplyInstant,
}

/// `CastSpellByID(id)` / `UseAction(slot)`: nothing while a cast is in
/// flight; a spell with a cast time starts a cast of that length; an
/// instant spell is applied at once.
pub open spec fn spec_execute_spell(s: CastStateView, spells: Seq<SpellRecord>, spell_id: u32) -> (CastStateView, SpellOutcome) {
    if s.casting is Some {
        (s, SpellOutcome::Busy)
    } else {
        match spec_spell(spells, spell_id) {
            Some(rec) if rec.cast_time_ms > 0 => (
                spec_start_cast(
                    s,
                    spell_id,
                    spec_spell_name(spells, spell_id),
                    spec_spell_icon(spells, spell_id),
                    Some(rec.cast_time_ms as u32),
                ),
                SpellOutcome::CastStarted,
            ),
            _ => (s, SpellOutcome::ApplyInstant),
        }
    }
}

pub fn execute_spell_by_id(state: &mut CastState, spells: &Vec<SpellRecord>, spell_id: u32) -> (r: SpellOutcome)
    ensures
        (final(state)@, r) == spec_execute_spell(old(state)@, spells@, spell_id),
{
    if state.casting.is_some() {
        return SpellOutcome::Busy;
    }
    let name = spell_name(spells, spell_id);
    let icon = spell_icon(spells, spell_id);
    let cast_time_ms = match find_spell(spells, spell_id) {
        Some(k) => spells[k].cast_time_ms,
        None => 0,
    };
    if cast_time_ms > 0 {
        state.start_cast(spell_id, name.as_str(), icon.as_str(), Some(cast_time_ms as u32));
        SpellOutcome::CastStarted
    } else {
        SpellOutcome::ApplyInstant
    }
}

/// `CastSpellByName(name)`: nothing for an empty name; a name the
/// spellbook knows executes that spell; any other name starts a cast of
/// that name with the default icon and duration.
pub fn cast_spell_by_name(
    state: &mut CastState,
    spells: &Vec<SpellRecord>,
    spellbook: &Vec<(String, u32)>,
    name: &str,
) -> (r: Option<SpellOutcome>)
    ensures
        name@.len() == 0 ==> r is None && final(state)@ == old(state)@,
        name@.len() > 0 ==> match spec_spellbook_lookup(spellbook@, name@) {
            Some(id) => r matches Some(o) && (final(state)@, o) == spec_execute_spell(old(state)@, spells@, id),
            None => r is None && final(state)@ == spec_start_cast(
                old(state)@,
                0,
                name@,
                DEFAULT_ICON@,
                Some(DEFAULT_CAST_DURATION_MS),
            ),
        },
{
    if name.unicode_len() == 0 {
        return None;
    }
    match resolve_spell_id_by_name(spellbook, name) {
        Some(id) => Some(execute_spell_by_id(state, spells, id)),
        None => {
            state.start_cast(0, name, DEFAULT_ICON, Some(DEFAULT_CAST_DURATION_MS));
            None
        },
    }
}

/// The spell bound to an action-bar slot (the first binding of the slot).
pub open spec fn spec_action_spell(bars: Seq<(u32, u32)>, slot: u32) -> Option<u32>
    decreases bars.len(),
{
    if bars.len() == 0 {
        None
    } else if bars[0].0 == slot {
        Some(bars[0].1)
    } else {
        spec_action_spell(bars.drop_first(), slot)
    }
}

/// `UseAction(slot)`: executes the spell bound to the slot, if any.
pub fn use_action(
    state: &mut CastState,
    spells: &Vec<SpellRecord>,
    action_bars: &Vec<(u32, u32)>,
    slot: u32,
) -> (r: Option<SpellOutcome>)
    ensures
        match spec_action_spell(action_bars@, slot) {
            Some(id) => r matches Some(o) && (final(state)@, o) == spec_execute_spell(old(state)@, spells@, id),
            None => r is None && final(state)@ == old(state)@,
        },
{
    let mut i: usize = 0;
    assert(action_bars@.subrange(0, action_bars@.len() as int) =~= action_bars@);
    while i < action_bars.len()
        invariant
            i <= action_bars@.len(),
            state@ == old(state)@,
            spec_action_spell(action_bars@, slot) == spec_action_spell(action_bars@.subrange(i as int, action_bars@.len() as int), slot),
        decreases action_bars.len() - i,
    {
        proof {
            let t = action_bars@.subrange(i as int, action_bars@.len() as int);
            assert(t[0] == action_bars@[i as int]);
            assert(t.drop_first() =~= action_bars@.subrange(i + 1, action_bars@.len() as int));
        }
        if action_bars[i].0 == slot {
            let id = action_bars[i].1;
            return Some(execute_spell_by_id(state, spells, id));
        }
        i = i + 1;
    }
    assert(action_bars@.subrange(i as int, action_bars@.len() as int).len() == 0);
    None
}

/// The frame name of an action button: `ActionButton{slot}`.
pub fn action_button_name(slot: u32) -> (r: String)
    ensures
        r@ == "ActionButton"@ + spec_decimal(slot as nat),
{
    let mut out = String::from_str("ActionButton");
    let digits = format_u64(slot as u64);
    out.append(digits.as_str());
    out
}

/// The player's combat ratings.
pub struct CombatRatings {
    pub crit_rating: i32,
    pub haste_rating: i32,
    pub mastery_rating: i32,
    pub versatility_rating: i32,
}

/// `GetCombatRating(index)`: crit (9), haste (6), mastery (26) and
/// versatility (14); 0 for any other index.
pub fn combat_rating_for(stats: &CombatRatings, rating_index: i32) -> (r: i32)
    ensures
        r == (if rating_index == 9 {
            stats.crit_rating
        } else if rating_index == 6 {
            stats.haste_rating
        } else if rating_index == 26 {
            stats.mastery_rating
        } else if rating_index == 14 {
            stats.versatility_rating
        } else {
            0
        }),
{
    if rating_index == 9 {
        stats.crit_rating
    } else if rating_index == 6 {
        stats.haste_rating
    } else if rating_index == 26 {
        stats.mastery_rating
    } else if rating_index == 14 {
        stats.versatility_rating
    } else {
        0
    }
}

/// Starting a cast always records the id it took and moves the counter on
/// by one (wrapping), so consecutive casts get distinct ids until the
/// counter wraps.
pub proof fn law_cast_ids_advance(
    s: CastStateView,
    a: u32,
    na: Seq<char>,
    ia: Seq<char>,
    da: Option<u32>,
    b: u32,
    nb: Seq<char>,
    ib: Seq<char>,
    db: Option<u32>,
)
    ensures
        spec_start_cast(s, a, na, ia, da).casting.unwrap().cast_id == s.next_cast_id,
        spec_start_cast(spec_start_cast(s, a, na, ia, da), b, nb, ib, db).casting.unwrap().cast_id
            != s.next_cast_id,
{
}

/// While a cast is in flight, executing another spell changes nothing.
pub proof fn law_busy_cast_blocks(s: CastStateView, spells: Seq<SpellRecord>, spell_id: u32)
    requires
        s.casting is Some,
    ensures
        spec_execute_spell(s, spells, spell_id) == (s, SpellOutcome::Busy),
{
}

/// Executing a known spell that has a cast time, while no cast is in
/// flight, starts a cast of that very spell: its id, its record's name, its
/// record's icon (the question mark only when the record has none), its
/// cast time, and the next cast id.
pub proof fn law_execute_starts_cast_of_record(s: CastStateView, spells: Seq<SpellRecord>, k: int)
    requires
        s.casting is None,
        0 <= k < spells.len(),
        forall|j: int| 0 <= j < k ==> (#[trigger] spells[j]).spell_id != spells[k].spell_id,
        spells[k].cast_time_ms > 0,
    ensures
        spec_execute_spell(s, spells, spells[k].spell_id).1 is CastStarted,
        spec_execute_spell(s, spells, spells[k].spell_id).0.casting == Some(
            CastView {
                spell_id: spells[k].spell_id,
                spell_name: spells[k].name@,
                icon_path: match spells[k].icon_path {
                    Some(p) => p@,
                    None => DEFAULT_ICON@,
                },
                duration_ms: Some(spells[k].cast_time_ms as u32),
                cast_id: s.next_cast_id,
            },
        ),
{
    let p = spell_has_id(spells[k].spell_id);
    crate::search::lemma_find_first_meaning(spells, p);
    match crate::search::position_first(spells, p) {
        Some(m) => {
            if m < k {
                assert(!p(spells[m]));
            } else if m > k {
                assert(!p(spells[k]));
            }
        },
        None => {
            assert(!p(spells[k]));
        },
    }
}

/// Executing a spell, while no cast is in flight, that is unknown or whose
/// first record has no cast time starts nothing: the state stays and the
/// spell is applied at once.
pub proof fn law_execute_instant_or_unknown(s: CastStateView, spells: Seq<SpellRecord>, spell_id: u32)
    requires
        s.casting is None,
        forall|k: int|
            0 <= k < spells.len() && (#[trigger] spells[k]).spell_id == spell_id ==> spells[k].cast_time_ms <= 0
                || exists|j: int| 0 <= j < k && spells[j].spell_id == spell_id,
    ensures
        spec_execute_spell(s, spells, spell_id) == (s, SpellOutcome::ApplyInstant),
{
    let p = spell_has_id(spell_id);
    crate::search::lemma_find_first_meaning(spells, p);
    match crate::search::position_first(spells, p) {
        Some(m) => {
            if spells[m].cast_time_ms > 0 {
                let j = choose|j: int| 0 <= j < m && spells[j].spell_id == spell_id;
                assert(!p(spells[j]));
            }
        },
        None => {},
    }
}

} // verus!
