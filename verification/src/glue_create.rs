//! The character-create screen's selection state and what it answers.

use vstd::prelude::*;
use crate::glue::{
    class_has_id, default_choice_id_for_option, default_class_id, default_race_id, find_glue_class,
    find_glue_race, glue_class_data, glue_race_data, race_has_id, spec_class_data,
    spec_default_choice_id, spec_default_class_id, spec_default_race_id, spec_race_data,
};
use crate::glue_data::{
    category_options, customization_categories, spec_category_options,
    spec_customization_categories, spec_glue_classes, spec_glue_races,
    GlueCustomizationOptionDef,
};
use std::collections::HashMap;
use crate::glue::{character_has_guid, glue_character_by_guid};
use crate::glue_data::{glue_races, spec_glue_characters};
use crate::search::{
    find_first, lemma_find_first_end, lemma_find_first_start, lemma_find_first_step,
    position_first,
};
use crate::text::{ascii_letters, push_ascii_letters, string_from_chars, take_at_most, trim, trim_bounds};

verus! {

broadcast use vstd::std_specs::hash::group_hash_axioms;

/// The selections of the character-create screen.
pub struct GlueCreateState {
    pub create_type: i32,
    pub race_id: i32,
    pub class_id: i32,
    pub sex_id: i32,
    pub camera_zoom: i32,
    pub viewing_altered_form: bool,
    pub model_dressed: bool,
    pub model_hidden: bool,
    pub blur_enabled: bool,
    /// Committed customization choice per option id.
    pub customization_choices: HashMap<i32, i32>,
    /// Previewed (not yet committed) customization choice per option id.
    pub preview_choices: HashMap<i32, i32>,
}

/// A stored race id as read back: that race if it exists, else the default.
pub open spec fn spec_selected_race(race_id: i32) -> i32 {
    match find_first(spec_glue_races(), race_has_id(race_id)) {
        Some(r) => r.race_id,
        None => spec_default_race_id(),
    }
}

/// A stored class id as read back: that class if it exists, else the default.
pub open spec fn spec_selected_class(class_id: i32) -> i32 {
    match find_first(spec_glue_classes(), class_has_id(class_id)) {
        Some(c) => c.class_id,
        None => spec_default_class_id(),
    }
}

/// A stored sex id as read back: clamped into `0..=1`.
pub open spec fn spec_selected_sex(sex_id: i32) -> i32 {
    if sex_id < 0 {
        0
    } else if sex_id > 1 {
        1
    } else {
        sex_id
    }
}

/// The camera zoom kept for a requested level: clamped into `0..=100`.
pub open spec fn spec_clamp_zoom(level: int) -> i32 {
    if level < 0 {
        0
    } else if level > 100 {
        100
    } else {
        level as i32
    }
}

/// The choice an option shows: the previewed choice, else the committed
/// one, else the option's default for the selected race and sex.
pub open spec fn spec_selected_choice(
    choices: Map<i32, i32>,
    preview: Map<i32, i32>,
    option_id: i32,
    race_id: i32,
    sex_id: i32,
) -> i32 {
    if preview.dom().contains(option_id) {
        preview[option_id]
    } else if choices.dom().contains(option_id) {
        choices[option_id]
    } else {
        spec_default_choice_id(option_id, spec_selected_race(race_id), spec_selected_sex(sex_id))
    }
}

/// Every customization option of every category, in display order.
pub open spec fn spec_all_options_from(cats: Seq<crate::glue_data::GlueCustomizationCategoryDef>) -> Seq<
    GlueCustomizationOptionDef,
>
    decreases cats.len(),
{
    if cats.len() == 0 {
        Seq::empty()
    } else {
        spec_all_options_from(cats.drop_last()) + spec_category_options(cats.last().id)
    }
}

pub open spec fn spec_all_options() -> Seq<GlueCustomizationOptionDef> {
    spec_all_options_from(spec_customization_categories())
}

/// The committed choices after randomizing: each option, in order, set to
/// its default for `race_id` and `sex_id`.
pub open spec fn spec_apply_defaults(
    m: Map<i32, i32>,
    options: Seq<GlueCustomizationOptionDef>,
    race_id: i32,
    sex_id: i32,
) -> Map<i32, i32>
    decreases options.len(),
{
    if options.len() == 0 {
        m
    } else {
        spec_apply_defaults(m, options.drop_last(), race_id, sex_id).insert(
            options.last().id,
            spec_default_choice_id(options.last().id, race_id, sex_id),
        )
    }
}

/// The name `GenerateRandomName` proposes: up to four ASCII letters of the
/// race's name, up to three of the class's name, then "ar" (sex 0) or "ia".
pub open spec fn spec_random_name(race_id: i32, class_id: i32, sex_id: i32) -> Seq<char> {
    let race = spec_race_data(spec_selected_race(race_id));
    let class_info = spec_class_data(spec_selected_class(class_id));
    let suffix = if spec_selected_sex(sex_id) == 0 {
        seq!['a', 'r']
    } else {
        seq!['i', 'a']
    };
    take_at_most(ascii_letters(race.name@), 4) + take_at_most(ascii_letters(class_info.name@), 3)
        + suffix
}

/// All customization options, in display order.
pub fn all_customization_options() -> (r: Vec<GlueCustomizationOptionDef>)
    ensures
        r@ == spec_all_options(),
{
    let cats = customization_categories();
    let mut out: Vec<GlueCustomizationOptionDef> = Vec::new();
    let mut i: usize = 0;
    assert(cats@.subrange(0, 0) =~= Seq::<crate::glue_data::GlueCustomizationCategoryDef>::empty());
    while i < cats.len()
        invariant
            cats@ == spec_customization_categories(),
            i <= cats@.len(),
            out@ == spec_all_options_from(cats@.subrange(0, i as int)),
        decreases cats.len() - i,
    {
        let mut opts = category_options(cats[i].id);
        proof {
            let next = cats@.subrange(0, i + 1);
            assert(next.drop_last() =~= cats@.subrange(0, i as int));
        }
        out.append(&mut opts);
        i = i + 1;
    }
    assert(cats@.subrange(0, cats@.len() as int) =~= cats@);
    out
}

impl GlueCreateState {
    /// The fresh state: create type 0 and every selection at its default.
    pub open spec fn is_reset(&self) -> bool {
        &&& self.race_id == spec_default_race_id()
        &&& self.class_id == spec_default_class_id()
        &&& self.sex_id == 0
        &&& self.camera_zoom == 0
        &&& !self.viewing_altered_form
        &&& self.model_dressed
        &&& !self.model_hidden
        &&& !self.blur_enabled
        &&& self.customization_choices@ == Map::<i32, i32>::empty()
        &&& self.preview_choices@ == Map::<i32, i32>::empty()
    }

    /// The state the screen starts in.
    pub fn new() -> (r: GlueCreateState)
        ensures
            r.is_reset(),
            r.create_type == 0,
    {
        GlueCreateState {
            create_type: 0,
            race_id: default_race_id(),
            class_id: default_class_id(),
            sex_id: 0,
            camera_zoom: 0,
            viewing_altered_form: false,
            model_dressed: true,
            model_hidden: false,
            blur_enabled: false,
            customization_choices: HashMap::new(),
            preview_choices: HashMap::new(),
        }
    }

    /// `ResetCharCustomize`: every selection back to its default; the
    /// create type is kept.
    pub fn reset(&mut self)
        ensures
            final(self).is_reset(),
            final(self).create_type == old(self).create_type,
    {
        self.race_id = default_race_id();
        self.class_id = default_class_id();
        self.sex_id = 0;
        self.camera_zoom = 0;
        self.viewing_altered_form = false;
        self.model_dressed = true;
        self.model_hidden = false;
        self.blur_enabled = false;
        self.customization_choices.clear();
        self.preview_choices.clear();
    }

    pub fn selected_race_id(&self) -> (r: i32)
        ensures
            r == spec_selected_race(self.race_id),
    {
        match find_glue_race(self.race_id) {
            Some(race) => race.race_id,
            None => default_race_id(),
        }
    }

    pub fn selected_class_id(&self) -> (r: i32)
        ensures
            r == spec_selected_class(self.class_id),
    {
        match find_glue_class(self.class_id) {
            Some(class_info) => class_info.class_id,
            None => default_class_id(),
        }
    }

    pub fn selected_sex_id(&self) -> (r: i32)
        ensures
            r == spec_selected_sex(self.sex_id),
    {
        if self.sex_id < 0 {
            0
        } else if self.sex_id > 1 {
            1
        } else {
            self.sex_id
        }
    }

    /// `SetSelectedRace`: stores the race if it exists, the default otherwise.
    pub fn set_selected_race(&mut self, race_id: i32)
        ensures
            final(self).race_id == spec_selected_race(race_id),
            final(self).class_id == old(self).class_id,
            final(self).sex_id == old(self).sex_id,
            final(self).customization_choices@ == old(self).customization_choices@,
            final(self).preview_choices@ == old(self).preview_choices@,
            final(self).camera_zoom == old(self).camera_zoom,
            final(self).create_type == old(self).create_type,
            final(self).viewing_altered_form == old(self).viewing_altered_form,
            final(self).model_dressed == old(self).model_dressed,
            final(self).model_hidden == old(self).model_hidden,
            final(self).blur_enabled == old(self).blur_enabled,
    {
        self.race_id = match find_glue_race(race_id) {
            Some(race) => race.race_id,
            None => default_race_id(),
        };
    }

    /// `SetSelectedClass`: stores the class if it exists, the default otherwise.
    pub fn set_selected_class(&mut self, class_id: i32)
        ensures
            final(self).class_id == spec_selected_class(class_id),
            final(self).race_id == old(self).race_id,
            final(self).sex_id == old(self).sex_id,
            final(self).customization_choices@ == old(self).customization_choices@,
            final(self).preview_choices@ == old(self).preview_choices@,
            final(self).camera_zoom == old(self).camera_zoom,
            final(self).create_type == old(self).create_type,
            final(self).viewing_altered_form == old(self).viewing_altered_form,
            final(self).model_dressed == old(self).model_dressed,
            final(self).model_hidden == old(self).model_hidden,
            final(self).blur_enabled == old(self).blur_enabled,
    {
        self.class_id = match find_glue_class(class_id) {
            Some(class_info) => class_info.class_id,
            None => default_class_id(),
        };
    }

    /// `SetSelectedSex`: stores the sex id clamped into `0..=1`.
    pub fn set_selected_sex(&mut self, sex_id: i32)
        ensures
            final(self).sex_id == spec_selected_sex(sex_id),
            final(self).race_id == old(self).race_id,
            final(self).class_id == old(self).class_id,
            final(self).customization_choices@ == old(self).customization_choices@,
            final(self).preview_choices@ == old(self).preview_choices@,
            final(self).camera_zoom == old(self).camera_zoom,
            final(self).create_type == old(self).create_type,
            final(self).viewing_altered_form == old(self).viewing_altered_form,
            final(self).model_dressed == old(self).model_dressed,
            final(self).model_hidden == old(self).model_hidden,
            final(self).blur_enabled == old(self).blur_enabled,
    {
        self.sex_id = if sex_id < 0 {
            0
        } else if sex_id > 1 {
            1
        } else {
            sex_id
        };
    }

    /// `SetCameraZoomLevel`: stores the level clamped into `0..=100`.
    pub fn set_camera_zoom_level(&mut self, level: i32)
        ensures
            final(self).camera_zoom == spec_clamp_zoom(level as int),
            final(self).race_id == old(self).race_id,
            final(self).class_id == old(self).class_id,
            final(self).sex_id == old(self).sex_id,
            final(self).customization_choices@ == old(self).customization_choices@,
            final(self).preview_choices@ == old(self).preview_choices@,
            final(self).create_type == old(self).create_type,
            final(self).viewing_altered_form == old(self).viewing_altered_form,
            final(self).model_dressed == old(self).model_dressed,
            final(self).model_hidden == old(self).model_hidden,
            final(self).blur_enabled == old(self).blur_enabled,
    {
        self.camera_zoom = if level < 0 {
            0
        } else if level > 100 {
            100
        } else {
            level
        };
    }

    /// `ZoomCamera`: moves the zoom by `amount`, clamped into `0..=100`.
    pub fn zoom_camera(&mut self, amount: i32)
        requires
            i32::MIN <= old(self).camera_zoom + amount <= i32::MAX,
        ensures
            final(self).camera_zoom == spec_clamp_zoom(old(self).camera_zoom + amount),
            final(self).race_id == old(self).race_id,
            final(self).class_id == old(self).class_id,
            final(self).sex_id == old(self).sex_id,
            final(self).customization_choices@ == old(self).customization_choices@,
            final(self).preview_choices@ == old(self).preview_choices@,
            final(self).create_type == old(self).create_type,
            final(self).viewing_altered_form == old(self).viewing_altered_form,
            final(self).model_dressed == old(self).model_dressed,
            final(self).model_hidden == old(self).model_hidden,
            final(self).blur_enabled == old(self).blur_enabled,
    {
        let level = self.camera_zoom + amount;
        self.set_camera_zoom_level(level);
    }

    /// `SetCustomizationChoice`: commits a choice and drops its preview.
    pub fn set_customization_choice(&mut self, option_id: i32, choice_id: i32)
        ensures
            final(self).customization_choices@ == old(self).customization_choices@.insert(
                option_id,
                choice_id,
            ),
            final(self).preview_choices@ == old(self).preview_choices@.remove(option_id),
            final(self).race_id == old(self).race_id,
            final(self).class_id == old(self).class_id,
            final(self).sex_id == old(self).sex_id,
            final(self).camera_zoom == old(self).camera_zoom,
            final(self).create_type == old(self).create_type,
            final(self).viewing_altered_form == old(self).viewing_altered_form,
            final(self).model_dressed == old(self).model_dressed,
            final(self).model_hidden == old(self).model_hidden,
            final(self).blur_enabled == old(self).blur_enabled,
    {
        self.customization_choices.insert(option_id, choice_id);
        self.preview_choices.remove(&option_id);
    }

    /// `PreviewCustomizationChoice`: previews a choice without committing it.
    pub fn preview_customization_choice(&mut self, option_id: i32, choice_id: i32)
        ensures
            final(self).customization_choices@ == old(self).customization_choices@,
            final(self).preview_choices@ == old(self).preview_choices@.insert(option_id, choice_id),
            final(self).race_id == old(self).race_id,
            final(self).class_id == old(self).class_id,
            final(self).sex_id == old(self).sex_id,
            final(self).camera_zoom == old(self).camera_zoom,
            final(self).create_type == old(self).create_type,
            final(self).viewing_altered_form == old(self).viewing_altered_form,
            final(self).model_dressed == old(self).model_dressed,
            final(self).model_hidden == old(self).model_hidden,
            final(self).blur_enabled == old(self).blur_enabled,
    {
        self.preview_choices.insert(option_id, choice_id);
    }

    /// `ClearPreviewChoices`: drops every preview.
    pub fn clear_preview_choices(&mut self)
        ensures
            final(self).customization_choices@ == old(self).customization_choices@,
            final(self).preview_choices@ == Map::<i32, i32>::empty(),
            final(self).race_id == old(self).race_id,
            final(self).class_id == old(self).class_id,
            final(self).sex_id == old(self).sex_id,
            final(self).camera_zoom == old(self).camera_zoom,
            final(self).create_type == old(self).create_type,
            final(self).viewing_altered_form == old(self).viewing_altered_form,
            final(self).model_dressed == old(self).model_dressed,
            final(self).model_hidden == old(self).model_hidden,
            final(self).blur_enabled == old(self).blur_enabled,
    {
        self.preview_choices.clear();
    }

    /// `SetCharacterCreateType`: stores the create type; nothing else changes.
    pub fn set_create_type(&mut self, create_type: i32)
        ensures
            *final(self) == (GlueCreateState { create_type, ..*old(self) }),
    {
        self.create_type = create_type;
    }

    /// `GetCharacterCreateType`.
    pub fn character_create_type(&self) -> (r: i32)
        ensures
            r == self.create_type,
    {
        self.create_type
    }

    /// `SetViewingAlteredForm`: stores the flag; nothing else changes.
    pub fn set_viewing_altered_form(&mut self, viewing_altered_form: bool)
        ensures
            *final(self) == (GlueCreateState { viewing_altered_form, ..*old(self) }),
    {
        self.viewing_altered_form = viewing_altered_form;
    }

    /// `IsViewingAlteredForm`.
    pub fn is_viewing_altered_form(&self) -> (r: bool)
        ensures
            r == self.viewing_altered_form,
    {
        self.viewing_altered_form
    }

    /// `SetBlurEnabled`: stores the flag; nothing else changes.
    pub fn set_blur_enabled(&mut self, blur_enabled: bool)
        ensures
            *final(self) == (GlueCreateState { blur_enabled, ..*old(self) }),
    {
        self.blur_enabled = blur_enabled;
    }

    /// `SetModelDressState`: stores whether the model is dressed; nothing
    /// else changes.
    pub fn set_model_dress_state(&mut self, dressed: bool)
        ensures
            *final(self) == (GlueCreateState { model_dressed: dressed, ..*old(self) }),
    {
        self.model_dressed = dressed;
    }

    /// `SetPlayerModelHiddenState`: stores whether the model is hidden;
    /// nothing else changes.
    pub fn set_player_model_hidden_state(&mut self, hidden: bool)
        ensures
            *final(self) == (GlueCreateState { model_hidden: hidden, ..*old(self) }),
    {
        self.model_hidden = hidden;
    }

    /// The choice an option currently shows.
    pub fn selected_choice_id(&self, option_id: i32) -> (r: i32)
        ensures
            r == spec_selected_choice(
                self.customization_choices@,
                self.preview_choices@,
                option_id,
                self.race_id,
                self.sex_id,
            ),
    {
        if let Some(choice_id) = self.preview_choices.get(&option_id) {
            return *choice_id;
        }
        if let Some(choice_id) = self.customization_choices.get(&option_id) {
            return *choice_id;
        }
        let race_id = self.selected_race_id();
        let sex_id = self.selected_sex_id();
        proof {
            lemma_selected_race_positive(self.race_id);
        }
        default_choice_id_for_option(option_id, race_id, sex_id)
    }

    /// `RandomizeCharCustomization`: commits, for every option, its default
    /// for the selected race and sex each shifted by one, and drops every
    /// preview.
    pub fn randomize_customization(&mut self)
        ensures
            final(self).customization_choices@ == spec_apply_defaults(
                old(self).customization_choices@,
                spec_all_options(),
                (spec_selected_race(old(self).race_id) + 1) as i32,
                (spec_selected_sex(old(self).sex_id) + 1) as i32,
            ),
            final(self).preview_choices@ == Map::<i32, i32>::empty(),
            final(self).race_id == old(self).race_id,
            final(self).class_id == old(self).class_id,
            final(self).sex_id == old(self).sex_id,
            final(self).camera_zoom == old(self).camera_zoom,
            final(self).create_type == old(self).create_type,
            final(self).viewing_altered_form == old(self).viewing_altered_form,
            final(self).model_dressed == old(self).model_dressed,
            final(self).model_hidden == old(self).model_hidden,
            final(self).blur_enabled == old(self).blur_enabled,
    {
        let race_id = self.selected_race_id();
        let sex_id = self.selected_sex_id();
        proof {
            lemma_selected_race_positive(self.race_id);
        }
        let options = all_customization_options();
        proof {
            lemma_option_ids_nonnegative();
        }
        let ghost start = self.customization_choices@;
        let mut i: usize = 0;
        assert(options@.subrange(0, 0) =~= Seq::<GlueCustomizationOptionDef>::empty());
        while i < options.len()
            invariant
                options@ == spec_all_options(),
                i <= options@.len(),
                0 < race_id < 100,
                0 <= sex_id <= 1,
                race_id == spec_selected_race(self.race_id),
                sex_id == spec_selected_sex(self.sex_id),
                forall|k: int| 0 <= k < options@.len() ==> 0 <= #[trigger] options@[k].id,
                self.race_id == old(self).race_id,
                self.class_id == old(self).class_id,
                self.sex_id == old(self).sex_id,
                self.camera_zoom == old(self).camera_zoom,
                self.create_type == old(self).create_type,
                self.viewing_altered_form == old(self).viewing_altered_form,
                self.model_dressed == old(self).model_dressed,
                self.model_hidden == old(self).model_hidden,
                self.blur_enabled == old(self).blur_enabled,
                start == old(self).customization_choices@,
                self.customization_choices@ == spec_apply_defaults(
                    start,
                    options@.subrange(0, i as int),
                    (race_id + 1) as i32,
                    (sex_id + 1) as i32,
                ),
            decreases options.len() - i,
        {
            let option = options[i];
            let choice_id = default_choice_id_for_option(option.id, race_id + 1, sex_id + 1);
            proof {
                let next = options@.subrange(0, i + 1);
                assert(next.drop_last() =~= options@.subrange(0, i as int));
            }
            self.customization_choices.insert(option.id, choice_id);
            i = i + 1;
        }
        assert(options@.subrange(0, options@.len() as int) =~= options@);
        self.preview_choices.clear();
    }

    /// `GenerateRandomName`.
    pub fn random_name(&self) -> (r: String)
        ensures
            r@ == spec_random_name(self.race_id, self.class_id, self.sex_id),
    {
        let race = glue_race_data(self.selected_race_id());
        let class_info = glue_class_data(self.selected_class_id());
        let mut chars: Vec<char> = Vec::new();
        push_ascii_letters(&mut chars, race.name, 4);
        push_ascii_letters(&mut chars, class_info.name, 3);
        if self.selected_sex_id() == 0 {
            chars.push('a');
            chars.push('r');
        } else {
            chars.push('i');
            chars.push('a');
        }
        let ghost first = take_at_most(ascii_letters(race.name@), 4) + take_at_most(
            ascii_letters(class_info.name@),
            3,
        );
        proof {
            if spec_selected_sex(self.sex_id) == 0 {
                assert(chars@ =~= first + seq!['a', 'r']);
            } else {
                assert(chars@ =~= first + seq!['i', 'a']);
            }
        }
        string_from_chars(&chars)
    }
}

/// The player fields that character creation writes.
pub struct PlayerIdentity {
    pub name: String,
    pub class_index: i32,
    pub sex: i32,
    pub race_index: usize,
}

/// The player's sex code for a selected sex id: 3 for 1, 2 otherwise.
pub open spec fn spec_player_sex(sex_id: i32) -> i32 {
    if sex_id == 1 {
        3
    } else {
        2
    }
}

/// The race-table slot written for the selected race: its position in the
/// glue race list (0 when absent), capped at the last slot of a race table
/// of `race_table_len` entries.
pub open spec fn spec_player_race_index(race_id: i32, race_table_len: nat) -> nat {
    let pos: nat = match position_first(spec_glue_races(), race_has_id(spec_selected_race(race_id))) {
        Some(k) => k as nat,
        None => 0,
    };
    let last: nat = if race_table_len == 0 {
        0
    } else {
        (race_table_len - 1) as nat
    };
    if pos < last {
        pos
    } else {
        last
    }
}

/// Position of the first race with the given id.
pub fn position_of_race(race_id: i32) -> (r: Option<usize>)
    ensures
        r matches Some(k) ==> position_first(spec_glue_races(), race_has_id(race_id)) == Some(
            k as int,
        ),
        r is None ==> position_first(spec_glue_races(), race_has_id(race_id)) is None,
{
    let races = glue_races();
    let ghost p = race_has_id(race_id);
    proof {
        lemma_find_first_start(races@);
    }
    let mut i: usize = 0;
    while i < races.len()
        invariant
            i <= races@.len(),
            races@ == spec_glue_races(),
            p == race_has_id(race_id),
            position_first(races@, p) == (match position_first(
                races@.subrange(i as int, races@.len() as int),
                p,
            ) {
                Some(k) => Some(k + i),
                None => None,
            }),
        decreases races.len() - i,
    {
        proof {
            lemma_find_first_step(races@, p, i as int);
        }
        if races[i].race_id == race_id {
            return Some(i);
        }
        i = i + 1;
    }
    proof {
        lemma_find_first_end(races@, p);
    }
    None
}

/// `C_CharacterCreation.CreateCharacter` writes the created character into
/// the player: the trimmed name when it is not blank, and the selected
/// class, sex and race.
pub fn apply_selected_character(
    state: &GlueCreateState,
    name: Option<&str>,
    player: &mut PlayerIdentity,
    race_table_len: usize,
)
    ensures
        final(player).name@ == (match name {
            Some(n) => if trim(n@).len() > 0 {
                trim(n@)
            } else {
                old(player).name@
            },
            None => old(player).name@,
        }),
        final(player).class_index == spec_selected_class(state.class_id),
        final(player).sex == spec_player_sex(spec_selected_sex(state.sex_id)),
        final(player).race_index as nat == spec_player_race_index(state.race_id, race_table_len as nat),
{
    if let Some(n) = name {
        let (start, end) = trim_bounds(n);
        if start < end {
            let trimmed = n.substring_char(start, end);
            player.name = String::from_str(trimmed);
        }
    }
    player.class_index = state.selected_class_id();
    player.sex = if state.selected_sex_id() == 1 {
        3
    } else {
        2
    };
    let pos = match position_of_race(state.selected_race_id()) {
        Some(k) => k,
        None => 0,
    };
    let last = if race_table_len == 0 {
        0
    } else {
        race_table_len - 1
    };
    player.race_index = if pos < last {
        pos
    } else {
        last
    };
}

/// The live player shown in place of the first seeded character.
pub struct LivePlayer {
    pub name: String,
    pub class_index: i32,
    pub level: i32,
    pub zone_name: String,
}

/// `GetBasicCharacterInfo` fields that vary by character.
pub struct BasicCharacterInfo {
    pub guid: String,
    pub name: String,
    pub class_name: &'static str,
    pub class_filename: &'static str,
    pub experience_level: i32,
    pub area_name: String,
    pub faction: &'static str,
    pub realm_name: &'static str,
    pub realm_address: i32,
    pub last_active_time: i64,
    pub race_name: &'static str,
}

/// `GetBasicCharacterInfo(guid)`: nothing unless the GUID names a seeded
/// character and the character-select screen is up; the first character
/// shows the live player (name, class, level, zone) when there is one.
pub fn basic_character_info(guid: &str, on_character_select: bool, live: Option<&LivePlayer>) -> (r:
    Option<BasicCharacterInfo>)
    ensures
        match find_first(spec_glue_characters(), character_has_guid(guid@)) {
            None => r is None,
            Some(c) => if !on_character_select {
                r is None
            } else {
                r matches Some(info) && {
                    &&& info.guid@ == guid@
                    &&& info.faction == c.faction
                    &&& info.realm_name == c.realm_name
                    &&& info.realm_address == c.realm_address
                    &&& info.last_active_time == c.last_active_time
                    &&& info.race_name == c.race_name
                    &&& match live {
                        Some(p) if c.guid@ == spec_glue_characters()[0].guid@ => {
                            &&& info.name@ == p.name@
                            &&& info.class_name == spec_class_data(p.class_index).name
                            &&& info.class_filename == spec_class_data(p.class_index).file_name
                            &&& info.experience_level == p.level
                            &&& info.area_name@ == p.zone_name@
                        },
                        _ => {
                            &&& info.name@ == c.name@
                            &&& info.class_name == c.class_name
                            &&& info.class_filename == c.class_filename
                            &&& info.experience_level == c.experience_level
                            &&& info.area_name@ == c.area_name@
                        },
                    }
                }
            },
        },
{
    let character = match glue_character_by_guid(guid) {
        Some(c) => c,
        None => return None,
    };
    if !on_character_select {
        return None;
    }
    let first = crate::glue_data::glue_characters()[0];
    let (name, class_name, class_filename, experience_level, area_name) = match live {
        Some(p) if crate::text::str_eq(character.guid, first.guid) => {
            let class_info = glue_class_data(p.class_index);
            (p.name.clone(), class_info.name, class_info.file_name, p.level, p.zone_name.clone())
        },
        _ => (
            String::from_str(character.name),
            character.class_name,
            character.class_filename,
            character.experience_level,
            String::from_str(character.area_name),
        ),
    };
    Some(
        BasicCharacterInfo {
            guid: String::from_str(guid),
            name,
            class_name,
            class_filename,
            experience_level,
            area_name,
            faction: character.faction,
            realm_name: character.realm_name,
            realm_address: character.realm_address,
            last_active_time: character.last_active_time,
            race_name: character.race_name,
        },
    )
}

/// `GetServiceCharacterInfo(guid)` answers only for a seeded character on
/// the character-select screen.
pub fn has_service_character_info(guid: &str, on_character_select: bool) -> (r: bool)
    ensures
        r == (find_first(spec_glue_characters(), character_has_guid(guid@)) is Some
            && on_character_select),
{
    glue_character_by_guid(guid).is_some() && on_character_select
}

proof fn lemma_selected_race_positive(race_id: i32)
    ensures
        0 < spec_selected_race(race_id) < 100,
{
    reveal_with_fuel(find_first, 13);
}

proof fn lemma_option_ids_nonnegative()
    ensures
        forall|k: int| 0 <= k < spec_all_options().len() ==> 0 <= #[trigger] spec_all_options()[k].id,
{
    reveal_with_fuel(spec_all_options_from, 4);
    assert(spec_customization_categories().len() == 3);
}

/// A committed choice is what the option shows once committed: committing
/// drops the option's preview, so the new choice is read back.
pub proof fn law_choice_read_back(
    choices: Map<i32, i32>,
    preview: Map<i32, i32>,
    option_id: i32,
    choice_id: i32,
    race_id: i32,
    sex_id: i32,
)
    ensures
        spec_selected_choice(choices.insert(option_id, choice_id), preview.remove(option_id), option_id, race_id, sex_id)
            == choice_id,
{
}

/// A preview shows over the committed choice, and clearing the previews
/// brings the committed (or default) choice back.
pub proof fn law_preview_then_clear(
    choices: Map<i32, i32>,
    preview: Map<i32, i32>,
    option_id: i32,
    choice_id: i32,
    race_id: i32,
    sex_id: i32,
)
    ensures
        spec_selected_choice(choices, preview.insert(option_id, choice_id), option_id, race_id, sex_id) == choice_id,
        spec_selected_choice(choices, Map::empty(), option_id, race_id, sex_id) == (if choices.dom().contains(
            option_id,
        ) {
            choices[option_id]
        } else {
            spec_default_choice_id(option_id, spec_selected_race(race_id), spec_selected_sex(sex_id))
        }),
{
}

/// The camera zoom always lies in `0..=100`, and clamping a kept level
/// changes nothing.
pub proof fn law_zoom_in_range(level: int)
    ensures
        0 <= spec_clamp_zoom(level) <= 100,
        spec_clamp_zoom(spec_clamp_zoom(level) as int) == spec_clamp_zoom(level),
{
}

/// The sex read back is 0 or 1, and storing it again keeps it.
pub proof fn law_sex_in_range(sex_id: i32)
    ensures
        0 <= spec_selected_sex(sex_id) <= 1,
        spec_selected_sex(spec_selected_sex(sex_id)) == spec_selected_sex(sex_id),
{
}

/// Whatever id is stored, the race read back is a race of the table, and
/// storing it again reads back the same race.
pub proof fn law_selected_race_exists(race_id: i32)
    ensures
        find_first(spec_glue_races(), race_has_id(spec_selected_race(race_id))) is Some,
        spec_selected_race(spec_selected_race(race_id)) == spec_selected_race(race_id),
{
    crate::search::lemma_find_first_meaning(spec_glue_races(), race_has_id(race_id));
    let races = spec_glue_races();
    let d = spec_default_race_id();
    crate::search::lemma_find_first_meaning(races, race_has_id(d));
    assert(race_has_id(d)(races[0]));
    let x = spec_selected_race(race_id);
    crate::search::lemma_find_first_meaning(races, race_has_id(x));
    match crate::search::position_first(races, race_has_id(race_id)) {
        Some(k) => {
            assert(race_has_id(x)(races[k]));
        },
        None => {},
    }
    match crate::search::position_first(races, race_has_id(x)) {
        Some(k) => {
            assert(races[k].race_id == x);
        },
        None => {},
    }
}

/// The class read back is a class of the table, and storing it again reads
/// back the same class.
pub proof fn law_selected_class_exists(class_id: i32)
    ensures
        find_first(spec_glue_classes(), class_has_id(spec_selected_class(class_id))) is Some,
        spec_selected_class(spec_selected_class(class_id)) == spec_selected_class(class_id),
{
    let classes = spec_glue_classes();
    crate::search::lemma_find_first_meaning(classes, class_has_id(class_id));
    let d = spec_default_class_id();
    crate::search::lemma_find_first_meaning(classes, class_has_id(d));
    assert(class_has_id(d)(classes[0]));
    let x = spec_selected_class(class_id);
    crate::search::lemma_find_first_meaning(classes, class_has_id(x));
    match crate::search::position_first(classes, class_has_id(class_id)) {
        Some(k) => {
            assert(class_has_id(x)(classes[k]));
        },
        None => {},
    }
    match crate::search::position_first(classes, class_has_id(x)) {
        Some(k) => {
            assert(classes[k].class_id == x);
        },
        None => {},
    }
}

/// After randomizing, every customization option has a committed choice.
pub proof fn law_randomize_covers_every_option(
    m: Map<i32, i32>,
    options: Seq<GlueCustomizationOptionDef>,
    race_id: i32,
    sex_id: i32,
    k: int,
)
    requires
        0 <= k < options.len(),
    ensures
        spec_apply_defaults(m, options, race_id, sex_id).dom().contains(options[k].id),
    decreases options.len(),
{
    if k < options.len() - 1 {
        law_randomize_covers_every_option(m, options.drop_last(), race_id, sex_id, k);
        assert(options.drop_last()[k] == options[k]);
    }
}

} // verus!
