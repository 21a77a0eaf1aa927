//! Character-select and character-create lookups over the seeded glue data.

use vstd::prelude::*;
use crate::glue_data::{
    glue_characters, glue_classes, glue_races, option_choices, spec_glue_characters,
    spec_glue_classes, spec_glue_races, spec_option_choices, GlueCharacterDef, GlueClassDef,
    GlueCustomizationChoiceDef, GlueRaceDef,
};
use crate::search::{find_first, lemma_find_first_end, lemma_find_first_start, lemma_find_first_step};
use crate::text::{
    eq_ignore_ascii_case, spec_is_ascii_alphabetic, spec_utf8_len, str_eq,
    str_eq_ignore_ascii_case, trim, trim_bounds, utf8_len_exceeds, is_ascii_alphabetic,
};

verus! {

pub open spec fn race_has_id(race_id: i32) -> spec_fn(GlueRaceDef) -> bool {
    |r: GlueRaceDef| r.race_id == race_id
}

pub open spec fn class_has_id(class_id: i32) -> spec_fn(GlueClassDef) -> bool {
    |c: GlueClassDef| c.class_id == class_id
}

pub open spec fn character_has_guid(guid: Seq<char>) -> spec_fn(GlueCharacterDef) -> bool {
    |c: GlueCharacterDef| c.guid@ == guid
}

/// A race answers to `name` when its display name, client file string or
/// file name equals `name` ignoring ASCII case.
pub open spec fn race_answers_to(name: Seq<char>) -> spec_fn(GlueRaceDef) -> bool {
    |r: GlueRaceDef|
        eq_ignore_ascii_case(r.name@, name) || eq_ignore_ascii_case(r.client_file_string@, name)
            || eq_ignore_ascii_case(r.file_name@, name)
}

/// The first race with the given id.
pub fn find_glue_race(race_id: i32) -> (r: Option<GlueRaceDef>)
    ensures
        r == find_first(spec_glue_races(), race_has_id(race_id)),
{
    let races = glue_races();
    let ghost p = race_has_id(race_id);
    proof {
        lemma_find_first_start(races@);
    }
    let mut i: usize = 0;
    while i < races.len()
        invariant
            i <= races@.len(),
            races@ == spec_glue_races(),
            p == race_has_id(race_id),
            find_first(races@, p) == find_first(races@.subrange(i as int, races@.len() as int), p),
        decreases races.len() - i,
    {
        proof {
            lemma_find_first_step(races@, p, i as int);
        }
        if races[i].race_id == race_id {
            return Some(races[i]);
        }
        i = i + 1;
    }
    proof {
        lemma_find_first_end(races@, p);
    }
    None
}

/// The first race whose name, client file string or file name equals
/// `name` ignoring ASCII case.
pub fn find_glue_race_by_name(name: &str) -> (r: Option<GlueRaceDef>)
    ensures
        r == find_first(spec_glue_races(), race_answers_to(name@)),
{
    let races = glue_races();
    let ghost p = race_answers_to(name@);
    proof {
        lemma_find_first_start(races@);
    }
    let mut i: usize = 0;
    while i < races.len()
        invariant
            i <= races@.len(),
            races@ == spec_glue_races(),
            p == race_answers_to(name@),
            find_first(races@, p) == find_first(races@.subrange(i as int, races@.len() as int), p),
        decreases races.len() - i,
    {
        proof {
            lemma_find_first_step(races@, p, i as int);
        }
        let race = races[i];
        if str_eq_ignore_ascii_case(race.name, name) || str_eq_ignore_ascii_case(
            race.client_file_string,
            name,
        ) || str_eq_ignore_ascii_case(race.file_name, name) {
            return Some(race);
        }
        i = i + 1;
    }
    proof {
        lemma_find_first_end(races@, p);
    }
    None
}

/// The first class with the given id.
pub fn find_glue_class(class_id: i32) -> (r: Option<GlueClassDef>)
    ensures
        r == find_first(spec_glue_classes(), class_has_id(class_id)),
{
    let classes = glue_classes();
    let ghost p = class_has_id(class_id);
    proof {
        lemma_find_first_start(classes@);
    }
    let mut i: usize = 0;
    while i < classes.len()
        invariant
            i <= classes@.len(),
            classes@ == spec_glue_classes(),
            p == class_has_id(class_id),
            find_first(classes@, p) == find_first(
                classes@.subrange(i as int, classes@.len() as int),
                p,
            ),
        decreases classes.len() - i,
    {
        proof {
            lemma_find_first_step(classes@, p, i as int);
        }
        if classes[i].class_id == class_id {
            return Some(classes[i]);
        }
        i = i + 1;
    }
    proof {
        lemma_find_first_end(classes@, p);
    }
    None
}

/// The faction group number of a faction name: 1 for Alliance, 0 for
/// Horde, -1 for anything else.
pub open spec fn spec_faction_group(faction: Seq<char>) -> i32 {
    if faction == "Alliance"@ {
        1
    } else if faction == "Horde"@ {
        0
    } else {
        -1i32
    }
}

pub fn faction_group_for_name(faction: &str) -> (r: i32)
    ensures
        r == spec_faction_group(faction@),
{
    if str_eq(faction, "Alliance") {
        1
    } else if str_eq(faction, "Horde") {
        0
    } else {
        -1
    }
}

/// The race selected when nothing valid is: the first race of the table.
pub open spec fn spec_default_race_id() -> i32 {
    spec_glue_races()[0].race_id
}

/// The class selected when nothing valid is: the first class of the table.
pub open spec fn spec_default_class_id() -> i32 {
    spec_glue_classes()[0].class_id
}

pub fn default_race_id() -> (r: i32)
    ensures
        r == spec_default_race_id(),
{
    let races = glue_races();
    if races.len() > 0 {
        races[0].race_id
    } else {
        1
    }
}

pub fn default_class_id() -> (r: i32)
    ensures
        r == spec_default_class_id(),
{
    let classes = glue_classes();
    if classes.len() > 0 {
        classes[0].class_id
    } else {
        1
    }
}

pub fn default_sex_id() -> (r: i32)
    ensures
        r == 0,
{
    0
}

/// The character at a 1-based list index.
pub open spec fn spec_glue_character(index: int) -> Option<GlueCharacterDef> {
    if 1 <= index <= spec_glue_characters().len() {
        Some(spec_glue_characters()[index - 1])
    } else {
        None
    }
}

pub fn glue_character(index: i32) -> (r: Option<GlueCharacterDef>)
    ensures
        r == spec_glue_character(index as int),
{
    if index < 1 {
        return None;
    }
    let characters = glue_characters();
    let slot = (index - 1) as usize;
    if slot < characters.len() {
        Some(characters[slot])
    } else {
        None
    }
}

/// The first character with the given GUID.
pub fn glue_character_by_guid(guid: &str) -> (r: Option<GlueCharacterDef>)
    ensures
        r == find_first(spec_glue_characters(), character_has_guid(guid@)),
{
    let characters = glue_characters();
    let ghost p = character_has_guid(guid@);
    proof {
        lemma_find_first_start(characters@);
    }
    let mut i: usize = 0;
    while i < characters.len()
        invariant
            i <= characters@.len(),
            characters@ == spec_glue_characters(),
            p == character_has_guid(guid@),
            find_first(characters@, p) == find_first(
                characters@.subrange(i as int, characters@.len() as int),
                p,
            ),
        decreases characters.len() - i,
    {
        proof {
            lemma_find_first_step(characters@, p, i as int);
        }
        if str_eq(characters[i].guid, guid) {
            return Some(characters[i]);
        }
        i = i + 1;
    }
    proof {
        lemma_find_first_end(characters@, p);
    }
    None
}

/// The race name of the character at a 1-based list index.
pub fn character_race_name(index: i32) -> (r: Option<&'static str>)
    ensures
        r == (match spec_glue_character(index as int) {
            Some(c) => Some(c.race_name),
            None => None,
        }),
{
    match glue_character(index) {
        Some(character) => Some(character.race_name),
        None => None,
    }
}


/// How many characters the character-select screen lists: all of them on
/// that screen, none elsewhere.
pub fn glue_character_count(on_character_select: bool) -> (r: i32)
    ensures
        r == (if on_character_select {
            spec_glue_characters().len() as i32
        } else {
            0i32
        }),
{
    if on_character_select {
        glue_characters().len() as i32
    } else {
        0
    }
}

/// The GUID of the character at a 1-based list index, on the
/// character-select screen only.
pub fn glue_character_guid(on_character_select: bool, index: i32) -> (r: Option<&'static str>)
    ensures
        r == (if on_character_select {
            match spec_glue_character(index as int) {
                Some(c) => Some(c.guid),
                None => None,
            }
        } else {
            None::<&'static str>
        }),
{
    if !on_character_select {
        return None;
    }
    match glue_character(index) {
        Some(character) => Some(character.guid),
        None => None,
    }
}

/// The selected character index as read back: a stored index within
/// `0..=count`, else 0.
pub open spec fn spec_selected_character(stored: Option<i32>, count: i32) -> i32 {
    match stored {
        Some(index) => if 0 <= index && index <= count {
            index
        } else {
            0
        },
        None => 0,
    }
}

pub fn glue_selected_character(stored: Option<i32>, count: i32) -> (r: i32)
    ensures
        r == spec_selected_character(stored, count),
{
    match stored {
        Some(index) => if index >= 0 && index <= count {
            index
        } else {
            0
        },
        None => 0,
    }
}

/// The index stored when a character is selected: 0 with no characters,
/// else the request clamped into `1..=count`.
pub open spec fn spec_selection_to_store(index: i32, count: i32) -> i32 {
    if count <= 0 {
        0
    } else if index < 1 {
        1
    } else if index > count {
        count
    } else {
        index
    }
}

pub fn set_glue_selected_character(index: i32, count: i32) -> (r: i32)
    requires
        count >= 0,
    ensures
        r == spec_selection_to_store(index, count),
{
    if count == 0 {
        0
    } else if index < 1 {
        1
    } else if index > count {
        count
    } else {
        index
    }
}

/// Whether selecting a character fires `UPDATE_SELECTED_CHARACTER`: a
/// character ended up selected and no such dispatch is already running.
pub fn should_dispatch_selection(new_selection: i32, is_dispatching: bool) -> (r: bool)
    ensures
        r == (new_selection > 0 && !is_dispatching),
{
    new_selection > 0 && !is_dispatching
}

/// The race data shown for a race id: that race, else the first race.
pub open spec fn spec_race_data(race_id: i32) -> GlueRaceDef {
    match find_first(spec_glue_races(), race_has_id(race_id)) {
        Some(r) => r,
        None => spec_glue_races()[0],
    }
}

pub fn glue_race_data(race_id: i32) -> (r: GlueRaceDef)
    ensures
        r == spec_race_data(race_id),
{
    match find_glue_race(race_id) {
        Some(race) => race,
        None => glue_races()[0],
    }
}

/// The class data shown for a class id: that class, else the first class.
pub open spec fn spec_class_data(class_id: i32) -> GlueClassDef {
    match find_first(spec_glue_classes(), class_has_id(class_id)) {
        Some(c) => c,
        None => spec_glue_classes()[0],
    }
}

pub fn glue_class_data(class_id: i32) -> (r: GlueClassDef)
    ensures
        r == spec_class_data(class_id),
{
    match find_glue_class(class_id) {
        Some(class_info) => class_info,
        None => glue_classes()[0],
    }
}

/// `C_CharacterCreation.IsRaceClassValid`: both ids are known.
pub fn is_race_class_valid(race_id: i32, class_id: i32) -> (r: bool)
    ensures
        r == (find_first(spec_glue_races(), race_has_id(race_id)) is Some && find_first(
            spec_glue_classes(),
            class_has_id(class_id),
        ) is Some),
{
    find_glue_race(race_id).is_some() && find_glue_class(class_id).is_some()
}

/// `C_CharacterCreation.GetFactionForRace`: the race's faction, Alliance for
/// an unknown race.
pub fn faction_for_race(race_id: i32) -> (r: &'static str)
    ensures
        r == (match find_first(spec_glue_races(), race_has_id(race_id)) {
            Some(race) => race.faction_internal_name,
            None => "Alliance",
        }),
{
    match find_glue_race(race_id) {
        Some(race) => race.faction_internal_name,
        None => "Alliance",
    }
}

/// `C_CharacterCreation.GetNameForRace`: the race's name, the first race's
/// name for an unknown race.
pub fn name_for_race(race_id: i32) -> (r: &'static str)
    ensures
        r == spec_race_data(race_id).name,
{
    glue_race_data(race_id).name
}

/// `C_CharacterCreation.GetRaceIDFromName`: the id of the race answering to
/// `name`, the default race otherwise.
pub fn race_id_from_name(name: &str) -> (r: i32)
    ensures
        r == (match find_first(spec_glue_races(), race_answers_to(name@)) {
            Some(race) => race.race_id,
            None => spec_default_race_id(),
        }),
{
    match find_glue_race_by_name(name) {
        Some(race) => race.race_id,
        None => default_race_id(),
    }
}

/// `C_CharacterCreation.GetValidRacesForClass`: every race for a known
/// class, none for an unknown one.
pub fn valid_races_for_class(class_id: i32) -> (r: Vec<GlueRaceDef>)
    ensures
        r@ == (if find_first(spec_glue_classes(), class_has_id(class_id)) is Some {
            spec_glue_races()
        } else {
            Seq::<GlueRaceDef>::empty()
        }),
{
    if find_glue_class(class_id).is_some() {
        glue_races()
    } else {
        Vec::new()
    }
}

/// The choice id at a position of an option's choice list, falling back to
/// the first choice, and to 0 for an option without choices.
pub open spec fn spec_choice_id_for_index(option_id: i32, choice_index: int) -> i32 {
    let choices = spec_option_choices(option_id);
    if 0 <= choice_index < choices.len() {
        choices[choice_index].id
    } else if choices.len() > 0 {
        choices[0].id
    } else {
        0
    }
}

pub fn choice_id_for_index(option_id: i32, choice_index: usize) -> (r: i32)
    ensures
        r == spec_choice_id_for_index(option_id, choice_index as int),
{
    let choices = option_choices(option_id);
    if choice_index < choices.len() {
        choices[choice_index].id
    } else if choices.len() > 0 {
        choices[0].id
    } else {
        0
    }
}

/// The choice an option starts on for a race and sex: the choice at
/// position `(race + sex + option) mod #choices`, 0 without choices.
pub open spec fn spec_default_choice_id(option_id: i32, race_id: i32, sex_id: i32) -> i32 {
    let n = spec_option_choices(option_id).len();
    if n == 0 {
        0
    } else {
        spec_choice_id_for_index(option_id, (race_id + sex_id + option_id) % (n as int))
    }
}

pub fn default_choice_id_for_option(option_id: i32, race_id: i32, sex_id: i32) -> (r: i32)
    requires
        0 <= race_id,
        0 <= sex_id,
    ensures
        r == spec_default_choice_id(option_id, race_id, sex_id),
{
    let n = option_choices(option_id).len();
    if n == 0 {
        return 0;
    }
    assert(0 <= option_id);
    let base = ((race_id as u64 + sex_id as u64 + option_id as u64) % (n as u64)) as usize;
    choice_id_for_index(option_id, base)
}

/// The 1-based position of the last choice whose id is `selected`, 1 when
/// none has it.
pub open spec fn spec_current_choice_index(choices: Seq<GlueCustomizationChoiceDef>, selected: i32) -> int
    decreases choices.len(),
{
    if choices.len() == 0 {
        1
    } else if choices.last().id == selected {
        choices.len() as int
    } else {
        spec_current_choice_index(choices.drop_last(), selected)
    }
}

pub fn current_choice_index(option_id: i32, selected_choice_id: i32) -> (r: i32)
    ensures
        r == spec_current_choice_index(spec_option_choices(option_id), selected_choice_id),
{
    let choices = option_choices(option_id);
    let mut current: i32 = 1;
    let mut i: usize = 0;
    proof {
        assert(choices@.subrange(0, 0) =~= Seq::<GlueCustomizationChoiceDef>::empty());
    }
    while i < choices.len()
        invariant
            choices@ == spec_option_choices(option_id),
            choices@.len() < 100,
            i <= choices@.len(),
            current == spec_current_choice_index(choices@.subrange(0, i as int), selected_choice_id),
        decreases choices.len() - i,
    {
        proof {
            let next = choices@.subrange(0, i + 1);
            assert(next.drop_last() =~= choices@.subrange(0, i as int));
        }
        if choices[i].id == selected_choice_id {
            current = (i + 1) as i32;
        }
        i = i + 1;
    }
    assert(choices@.subrange(0, choices@.len() as int) =~= choices@);
    current
}

/// What `IsCharacterNameValid` answers: a trimmed name is valid when it is
/// non-empty, takes at most 12 bytes and has only ASCII letters; an invalid
/// one is reported too short unless it is over 12 bytes.
pub open spec fn spec_name_validity(name: Seq<char>) -> (bool, Option<&'static str>) {
    let t = trim(name);
    let all_letters = forall|i: int| 0 <= i < t.len() ==> spec_is_ascii_alphabetic(#[trigger] t[i]);
    if t.len() > 0 && spec_utf8_len(t) <= 12 && all_letters {
        (true, None)
    } else if t.len() == 0 {
        (false, Some("ERR_NAME_TOO_SHORT"))
    } else if spec_utf8_len(t) > 12 {
        (false, Some("ERR_NAME_TOO_LONG2"))
    } else {
        (false, Some("ERR_NAME_TOO_SHORT"))
    }
}

pub fn character_name_validity(name: &str) -> (r: (bool, Option<&'static str>))
    ensures
        r == spec_name_validity(name@),
{
    let (start, end) = trim_bounds(name);
    let ghost t = name@.subrange(start as int, end as int);
    if start == end {
        return (false, Some("ERR_NAME_TOO_SHORT"));
    }
    if utf8_len_exceeds(name, start, end, 12) {
        return (false, Some("ERR_NAME_TOO_LONG2"));
    }
    let mut k: usize = start;
    while k < end
        invariant
            start <= k <= end <= name@.len(),
            t == name@.subrange(start as int, end as int),
            t == trim(name@),
            spec_utf8_len(t) <= 12,
            forall|i: int| 0 <= i < k - start ==> spec_is_ascii_alphabetic(#[trigger] t[i]),
        decreases end - k,
    {
        if !is_ascii_alphabetic(name.get_char(k)) {
            assert(!spec_is_ascii_alphabetic(t[k - start]));
            return (false, Some("ERR_NAME_TOO_SHORT"));
        }
        k = k + 1;
    }
    (true, None)
}


/// The two racial-ability descriptions shown for a race.
pub fn racial_ability_descriptions(race_name: &str) -> (r: (String, String))
    ensures
        r.0@ == race_name@ + " heritage is represented in the character create flow."@,
        r.1@ == race_name@ + " can pair with every simulator class option."@,
{
    let mut first = String::from_str(race_name);
    first.append(" heritage is represented in the character create flow.");
    let mut second = String::from_str(race_name);
    second.append(" can pair with every simulator class option.");
    (first, second)
}

/// Selecting a character and reading the selection back agree: the stored
/// index is read back unchanged.
pub proof fn law_selection_read_back(index: i32, count: i32)
    requires
        count >= 0,
    ensures
        spec_selected_character(Some(spec_selection_to_store(index, count)), count) == spec_selection_to_store(
            index,
            count,
        ),
        count > 0 ==> 1 <= spec_selection_to_store(index, count) <= count,
{
}

/// Every race is found under each of its names, whatever their ASCII case:
/// a string equal, ignoring ASCII case, to a race's display name, client
/// file string or file name leads to a race (that race, or one listed
/// before it that answers to the same string), so it never falls back to
/// the default.
pub proof fn law_race_found_by_each_name(k: int, name: Seq<char>)
    requires
        0 <= k < spec_glue_races().len(),
        eq_ignore_ascii_case(name, spec_glue_races()[k].name@) || eq_ignore_ascii_case(
            name,
            spec_glue_races()[k].client_file_string@,
        ) || eq_ignore_ascii_case(name, spec_glue_races()[k].file_name@),
    ensures
        find_first(spec_glue_races(), race_answers_to(name)) matches Some(x) && exists|j: int|
            0 <= j <= k && spec_glue_races()[j] == x,
{
    let r = spec_glue_races()[k];
    assert(race_answers_to(name)(r)) by {
        if eq_ignore_ascii_case(name, r.name@) {
            assert(eq_ignore_ascii_case(r.name@, name));
        } else if eq_ignore_ascii_case(name, r.client_file_string@) {
            assert(eq_ignore_ascii_case(r.client_file_string@, name));
        } else {
            assert(eq_ignore_ascii_case(r.file_name@, name));
        }
    }
    lemma_found_no_later(spec_glue_races(), race_answers_to(name), k);
}

proof fn lemma_found_no_later(races: Seq<GlueRaceDef>, p: spec_fn(GlueRaceDef) -> bool, k: int)
    requires
        0 <= k < races.len(),
        p(races[k]),
    ensures
        find_first(races, p) matches Some(x) && exists|j: int| 0 <= j <= k && races[j] == x,
{
    crate::search::lemma_find_first_meaning(races, p);
    match crate::search::position_first(races, p) {
        Some(m) => {
            assert(m <= k);
            assert(races[m] == find_first(races, p).unwrap());
        },
        None => {
            assert(!p(races[k]));
        },
    }
}

} // verus!
