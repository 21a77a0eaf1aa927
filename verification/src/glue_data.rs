//! Seeded data of the character-select and character-create screens.

use vstd::prelude::*;

verus! {

/// A character shown on the character-select screen.
#[derive(Clone, Copy)]
pub struct GlueCharacterDef {
    pub guid: &'static str,
    pub name: &'static str,
    pub class_name: &'static str,
    pub class_filename: &'static str,
    pub experience_level: i32,
    pub area_name: &'static str,
    pub faction: &'static str,
    pub realm_name: &'static str,
    pub realm_address: i32,
    pub race_name: &'static str,
    pub last_active_time: i64,
}

/// The alternate form a race can be viewed in during character creation.
#[derive(Clone, Copy)]
pub struct GlueAlternateFormDef {
    pub name: &'static str,
    pub create_screen_icon_atlas: &'static str,
}

/// A race offered by character creation.
#[derive(Clone, Copy)]
pub struct GlueRaceDef {
    pub race_id: i32,
    pub name: &'static str,
    pub client_file_string: &'static str,
    pub file_name: &'static str,
    pub faction_internal_name: &'static str,
    pub create_screen_icon_atlas: &'static str,
    pub lore_description: &'static str,
    pub is_allied_race: bool,
    pub is_neutral_race: bool,
    pub has_heritage_armor: bool,
    pub alternate_form: Option<GlueAlternateFormDef>,
}

/// A class offered by character creation.
#[derive(Clone, Copy)]
pub struct GlueClassDef {
    pub class_id: i32,
    pub name: &'static str,
    pub file_name: &'static str,
    pub description: &'static str,
    pub role_info: &'static str,
}

/// A customization category (its camera distance offset is always zero and
/// is supplied by the Lua side).
#[derive(Clone, Copy)]
pub struct GlueCustomizationCategoryDef {
    pub id: i32,
    pub name: &'static str,
    pub icon: &'static str,
    pub selected_icon: &'static str,
    pub order_index: i32,
    pub camera_zoom_level: i32,
}

/// A customization option of a category.
#[derive(Clone, Copy)]
pub struct GlueCustomizationOptionDef {
    pub id: i32,
    pub name: &'static str,
    pub option_type: i32,
    pub order_index: i32,
}

/// One choice of a customization option.
#[derive(Clone, Copy)]
pub struct GlueCustomizationChoiceDef {
    pub id: i32,
    pub name: &'static str,
}

/// The characters listed on the character-select screen, in list order.
pub open spec fn spec_glue_characters() -> Seq<GlueCharacterDef> {
    seq![
        GlueCharacterDef {
            guid: "Player-1-00000001",
            name: "Player",
            class_name: "Warrior",
            class_filename: "WARRIOR",
            experience_level: 70,
            area_name: "Stormwind City",
            faction: "Alliance",
            realm_name: "Burning Blade",
            realm_address: 1,
            race_name: "Human",
            last_active_time: 2,
        },
        GlueCharacterDef {
            guid: "Player-1-00000002",
            name: "Secondhero",
            class_name: "Mage",
            class_filename: "MAGE",
            experience_level: 70,
            area_name: "Orgrimmar",
            faction: "Horde",
            realm_name: "Burning Blade",
            realm_address: 1,
            race_name: "Orc",
            last_active_time: 1,
        },
    ]
}

/// The characters listed on the character-select screen, in list order.
pub fn glue_characters() -> (r: Vec<GlueCharacterDef>)
    ensures
        r@ == spec_glue_characters(),
{
    vec![
        GlueCharacterDef {
            guid: "Player-1-00000001",
            name: "Player",
            class_name: "Warrior",
            class_filename: "WARRIOR",
            experience_level: 70,
            area_name: "Stormwind City",
            faction: "Alliance",
            realm_name: "Burning Blade",
            realm_address: 1,
            race_name: "Human",
            last_active_time: 2,
        },
        GlueCharacterDef {
            guid: "Player-1-00000002",
            name: "Secondhero",
            class_name: "Mage",
            class_filename: "MAGE",
            experience_level: 70,
            area_name: "Orgrimmar",
            faction: "Horde",
            realm_name: "Burning Blade",
            realm_address: 1,
            race_name: "Orc",
            last_active_time: 1,
        },
    ]
}

/// The races offered by character creation, in display order.
pub open spec fn spec_glue_races() -> Seq<GlueRaceDef> {
    seq![
        GlueRaceDef {
            race_id: 1,
            name: "Human",
            client_file_string: "Human",
            file_name: "Human",
            faction_internal_name: "Alliance",
            create_screen_icon_atlas: "raceicon128-human-male",
            lore_description: "Versatile and resilient survivors of the Eastern Kingdoms.",
            is_allied_race: false,
            is_neutral_race: false,
            has_heritage_armor: true,
            alternate_form: None,
        },
        GlueRaceDef {
            race_id: 2,
            name: "Orc",
            client_file_string: "Orc",
            file_name: "Orc",
            faction_internal_name: "Horde",
            create_screen_icon_atlas: "raceicon128-orc-male",
            lore_description: "Fierce warriors who forged a new destiny on Azeroth.",
            is_allied_race: false,
            is_neutral_race: false,
            has_heritage_armor: true,
            alternate_form: None,
        },
        GlueRaceDef {
            race_id: 3,
            name: "Dwarf",
            client_file_string: "Dwarf",
            file_name: "Dwarf",
            faction_internal_name: "Alliance",
            create_screen_icon_atlas: "raceicon128-dwarf-male",
            lore_description: "Stout defenders with ancient titan-forged roots.",
            is_allied_race: false,
            is_neutral_race: false,
            has_heritage_armor: true,
            alternate_form: None,
        },
        GlueRaceDef {
            race_id: 4,
            name: "Night Elf",
            client_file_string: "NightElf",
            file_name: "NightElf",
            faction_internal_name: "Alliance",
            create_screen_icon_atlas: "raceicon128-nightelf-male",
            lore_description: "Ancient guardians of nature and the kaldorei legacy.",
            is_allied_race: false,
            is_neutral_race: false,
            has_heritage_armor: true,
            alternate_form: None,
        },
        GlueRaceDef {
            race_id: 5,
            name: "Undead",
            client_file_string: "Scourge",
            file_name: "Scourge",
            faction_internal_name: "Horde",
            create_screen_icon_atlas: "raceicon128-scourge-male",
            lore_description: "Forsaken who seized free will from the Lich King.",
            is_allied_race: false,
            is_neutral_race: false,
            has_heritage_armor: true,
            alternate_form: None,
        },
        GlueRaceDef {
            race_id: 6,
            name: "Tauren",
            client_file_string: "Tauren",
            file_name: "Tauren",
            faction_internal_name: "Horde",
            create_screen_icon_atlas: "raceicon128-tauren-male",
            lore_description: "Honorable nomads guided by the Earth Mother.",
            is_allied_race: false,
            is_neutral_race: false,
            has_heritage_armor: true,
            alternate_form: None,
        },
        GlueRaceDef {
            race_id: 7,
            name: "Gnome",
            client_file_string: "Gnome",
            file_name: "Gnome",
            faction_internal_name: "Alliance",
            create_screen_icon_atlas: "raceicon128-gnome-male",
            lore_description: "Inventive tinkerers fueled by curiosity and wit.",
            is_allied_race: false,
            is_neutral_race: false,
            has_heritage_armor: true,
            alternate_form: None,
        },
        GlueRaceDef {
            race_id: 8,
            name: "Troll",
            client_file_string: "Troll",
            file_name: "Troll",
            faction_internal_name: "Horde",
            create_screen_icon_atlas: "raceicon128-troll-male",
            lore_description: "Ancient hunters and mystics who stand with the Horde.",
            is_allied_race: false,
            is_neutral_race: false,
            has_heritage_armor: true,
            alternate_form: None,
        },
        GlueRaceDef {
            race_id: 9,
            name: "Goblin",
            client_file_string: "Goblin",
            file_name: "Goblin",
            faction_internal_name: "Horde",
            create_screen_icon_atlas: "raceicon128-goblin-male",
            lore_description: "Cunning dealmakers with explosive ideas.",
            is_allied_race: false,
            is_neutral_race: false,
            has_heritage_armor: true,
            alternate_form: None,
        },
        GlueRaceDef {
            race_id: 10,
            name: "Blood Elf",
            client_file_string: "BloodElf",
            file_name: "BloodElf",
            faction_internal_name: "Horde",
            create_screen_icon_atlas: "raceicon128-bloodelf-male",
            lore_description: "Arcane devotees seeking to preserve their radiant legacy.",
            is_allied_race: false,
            is_neutral_race: false,
            has_heritage_armor: true,
            alternate_form: None,
        },
        GlueRaceDef {
            race_id: 11,
            name: "Draenei",
            client_file_string: "Draenei",
            file_name: "Draenei",
            faction_internal_name: "Alliance",
            create_screen_icon_atlas: "raceicon128-draenei-male",
            lore_description: "Exiled heroes empowered by the Light and the naaru.",
            is_allied_race: false,
            is_neutral_race: false,
            has_heritage_armor: true,
            alternate_form: None,
        },
        GlueRaceDef {
            race_id: 22,
            name: "Worgen",
            client_file_string: "Worgen",
            file_name: "Worgen",
            faction_internal_name: "Alliance",
            create_screen_icon_atlas: "raceicon128-worgen-male",
            lore_description: "Cursed Gilneans balancing humanity and savagery.",
            is_allied_race: false,
            is_neutral_race: false,
            has_heritage_armor: true,
            alternate_form: Some(GlueAlternateFormDef { name: "Human", create_screen_icon_atlas: "raceicon128-human-male" }),
        },
    ]
}

/// The races offered by character creation, in display order.
pub fn glue_races() -> (r: Vec<GlueRaceDef>)
    ensures
        r@ == spec_glue_races(),
{
    vec![
        GlueRaceDef {
            race_id: 1,
            name: "Human",
            client_file_string: "Human",
            file_name: "Human",
            faction_internal_name: "Alliance",
            create_screen_icon_atlas: "raceicon128-human-male",
            lore_description: "Versatile and resilient survivors of the Eastern Kingdoms.",
            is_allied_race: false,
            is_neutral_race: false,
            has_heritage_armor: true,
            alternate_form: None,
        },
        GlueRaceDef {
            race_id: 2,
            name: "Orc",
            client_file_string: "Orc",
            file_name: "Orc",
            faction_internal_name: "Horde",
            create_screen_icon_atlas: "raceicon128-orc-male",
            lore_description: "Fierce warriors who forged a new destiny on Azeroth.",
            is_allied_race: false,
            is_neutral_race: false,
            has_heritage_armor: true,
            alternate_form: None,
        },
        GlueRaceDef {
            race_id: 3,
            name: "Dwarf",
            client_file_string: "Dwarf",
            file_name: "Dwarf",
            faction_internal_name: "Alliance",
            create_screen_icon_atlas: "raceicon128-dwarf-male",
            lore_description: "Stout defenders with ancient titan-forged roots.",
            is_allied_race: false,
            is_neutral_race: false,
            has_heritage_armor: true,
            alternate_form: None,
        },
        GlueRaceDef {
            race_id: 4,
            name: "Night Elf",
            client_file_string: "NightElf",
            file_name: "NightElf",
            faction_internal_name: "Alliance",
            create_screen_icon_atlas: "raceicon128-nightelf-male",
            lore_description: "Ancient guardians of nature and the kaldorei legacy.",
            is_allied_race: false,
            is_neutral_race: false,
            has_heritage_armor: true,
            alternate_form: None,
        },
        GlueRaceDef {
            race_id: 5,
            name: "Undead",
            client_file_string: "Scourge",
            file_name: "Scourge",
            faction_internal_name: "Horde",
            create_screen_icon_atlas: "raceicon128-scourge-male",
            lore_description: "Forsaken who seized free will from the Lich King.",
            is_allied_race: false,
            is_neutral_race: false,
            has_heritage_armor: true,
            alternate_form: None,
        },
        GlueRaceDef {
            race_id: 6,
            name: "Tauren",
            client_file_string: "Tauren",
            file_name: "Tauren",
            faction_internal_name: "Horde",
            create_screen_icon_atlas: "raceicon128-tauren-male",
            lore_description: "Honorable nomads guided by the Earth Mother.",
            is_allied_race: false,
            is_neutral_race: false,
            has_heritage_armor: true,
            alternate_form: None,
        },
        GlueRaceDef {
            race_id: 7,
            name: "Gnome",
            client_file_string: "Gnome",
            file_name: "Gnome",
            faction_internal_name: "Alliance",
            create_screen_icon_atlas: "raceicon128-gnome-male",
            lore_description: "Inventive tinkerers fueled by curiosity and wit.",
            is_allied_race: false,
            is_neutral_race: false,
            has_heritage_armor: true,
            alternate_form: None,
        },
        GlueRaceDef {
            race_id: 8,
            name: "Troll",
            client_file_string: "Troll",
            file_name: "Troll",
            faction_internal_name: "Horde",
            create_screen_icon_atlas: "raceicon128-troll-male",
            lore_description: "Ancient hunters and mystics who stand with the Horde.",
            is_allied_race: false,
            is_neutral_race: false,
            has_heritage_armor: true,
            alternate_form: None,
        },
        GlueRaceDef {
            race_id: 9,
            name: "Goblin",
            client_file_string: "Goblin",
            file_name: "Goblin",
            faction_internal_name: "Horde",
            create_screen_icon_atlas: "raceicon128-goblin-male",
            lore_description: "Cunning dealmakers with explosive ideas.",
            is_allied_race: false,
            is_neutral_race: false,
            has_heritage_armor: true,
            alternate_form: None,
        },
        GlueRaceDef {
            race_id: 10,
            name: "Blood Elf",
            client_file_string: "BloodElf",
            file_name: "BloodElf",
            faction_internal_name: "Horde",
            create_screen_icon_atlas: "raceicon128-bloodelf-male",
            lore_description: "Arcane devotees seeking to preserve their radiant legacy.",
            is_allied_race: false,
            is_neutral_race: false,
            has_heritage_armor: true,
            alternate_form: None,
        },
        GlueRaceDef {
            race_id: 11,
            name: "Draenei",
            client_file_string: "Draenei",
            file_name: "Draenei",
            faction_internal_name: "Alliance",
            create_screen_icon_atlas: "raceicon128-draenei-male",
            lore_description: "Exiled heroes empowered by the Light and the naaru.",
            is_allied_race: false,
            is_neutral_race: false,
            has_heritage_armor: true,
            alternate_form: None,
        },
        GlueRaceDef {
            race_id: 22,
            name: "Worgen",
            client_file_string: "Worgen",
            file_name: "Worgen",
            faction_internal_name: "Alliance",
            create_screen_icon_atlas: "raceicon128-worgen-male",
            lore_description: "Cursed Gilneans balancing humanity and savagery.",
            is_allied_race: false,
            is_neutral_race: false,
            has_heritage_armor: true,
            alternate_form: Some(GlueAlternateFormDef { name: "Human", create_screen_icon_atlas: "raceicon128-human-male" }),
        },
    ]
}

/// The classes offered by character creation, in display order.
pub open spec fn spec_glue_classes() -> Seq<GlueClassDef> {
    seq![
        GlueClassDef {
            class_id: 1,
            name: "Warrior",
            file_name: "WARRIOR",
            description: "Weapon masters who thrive on the front lines.",
            role_info: "Tanks or melee damage dealers.",
        },
        GlueClassDef {
            class_id: 2,
            name: "Paladin",
            file_name: "PALADIN",
            description: "Champions of the Light with holy magic and heavy armor.",
            role_info: "Tank, healer, or melee damage dealer.",
        },
        GlueClassDef {
            class_id: 3,
            name: "Hunter",
            file_name: "HUNTER",
            description: "Ranged survivalists bonded with loyal companions.",
            role_info: "Ranged or melee damage dealer.",
        },
        GlueClassDef {
            class_id: 4,
            name: "Rogue",
            file_name: "ROGUE",
            description: "Stealthy opportunists who strike from the shadows.",
            role_info: "Melee damage dealer.",
        },
        GlueClassDef {
            class_id: 5,
            name: "Priest",
            file_name: "PRIEST",
            description: "Faithful spellcasters wielding holy and shadow magic.",
            role_info: "Healer or ranged damage dealer.",
        },
        GlueClassDef {
            class_id: 6,
            name: "Death Knight",
            file_name: "DEATHKNIGHT",
            description: "Former heroes raised to command runeblades and undeath.",
            role_info: "Tank or melee damage dealer.",
        },
        GlueClassDef {
            class_id: 7,
            name: "Shaman",
            file_name: "SHAMAN",
            description: "Spiritual guides channeling the elements.",
            role_info: "Healer, melee, or ranged damage dealer.",
        },
        GlueClassDef {
            class_id: 8,
            name: "Mage",
            file_name: "MAGE",
            description: "Arcane scholars mastering fire, frost, and sorcery.",
            role_info: "Ranged damage dealer.",
        },
        GlueClassDef {
            class_id: 9,
            name: "Warlock",
            file_name: "WARLOCK",
            description: "Fel casters commanding curses and demons.",
            role_info: "Ranged damage dealer.",
        },
        GlueClassDef {
            class_id: 10,
            name: "Monk",
            file_name: "MONK",
            description: "Agile martial artists powered by chi.",
            role_info: "Tank, healer, or melee damage dealer.",
        },
        GlueClassDef {
            class_id: 11,
            name: "Druid",
            file_name: "DRUID",
            description: "Shapeshifters empowered by nature and the Emerald Dream.",
            role_info: "Tank, healer, melee, or ranged damage dealer.",
        },
        GlueClassDef {
            class_id: 12,
            name: "Demon Hunter",
            file_name: "DEMONHUNTER",
            description: "Illidari wielding fel power and spectral sight.",
            role_info: "Tank or melee damage dealer.",
        },
        GlueClassDef {
            class_id: 13,
            name: "Evoker",
            file_name: "EVOKER",
            description: "Dracthyr spellcasters empowered by dragonflights.",
            role_info: "Healer or ranged damage dealer.",
        },
    ]
}

/// The classes offered by character creation, in display order.
pub fn glue_classes() -> (r: Vec<GlueClassDef>)
    ensures
        r@ == spec_glue_classes(),
{
    vec![
        GlueClassDef {
            class_id: 1,
            name: "Warrior",
            file_name: "WARRIOR",
            description: "Weapon masters who thrive on the front lines.",
            role_info: "Tanks or melee damage dealers.",
        },
        GlueClassDef {
            class_id: 2,
            name: "Paladin",
            file_name: "PALADIN",
            description: "Champions of the Light with holy magic and heavy armor.",
            role_info: "Tank, healer, or melee damage dealer.",
        },
        GlueClassDef {
            class_id: 3,
            name: "Hunter",
            file_name: "HUNTER",
            description: "Ranged survivalists bonded with loyal companions.",
            role_info: "Ranged or melee damage dealer.",
        },
        GlueClassDef {
            class_id: 4,
            name: "Rogue",
            file_name: "ROGUE",
            description: "Stealthy opportunists who strike from the shadows.",
            role_info: "Melee damage dealer.",
        },
        GlueClassDef {
            class_id: 5,
            name: "Priest",
            file_name: "PRIEST",
            description: "Faithful spellcasters wielding holy and shadow magic.",
            role_info: "Healer or ranged damage dealer.",
        },
        GlueClassDef {
            class_id: 6,
            name: "Death Knight",
            file_name: "DEATHKNIGHT",
            description: "Former heroes raised to command runeblades and undeath.",
            role_info: "Tank or melee damage dealer.",
        },
        GlueClassDef {
            class_id: 7,
            name: "Shaman",
            file_name: "SHAMAN",
            description: "Spiritual guides channeling the elements.",
            role_info: "Healer, melee, or ranged damage dealer.",
        },
        GlueClassDef {
            class_id: 8,
            name: "Mage",
            file_name: "MAGE",
            description: "Arcane scholars mastering fire, frost, and sorcery.",
            role_info: "Ranged damage dealer.",
        },
        GlueClassDef {
            class_id: 9,
            name: "Warlock",
            file_name: "WARLOCK",
            description: "Fel casters commanding curses and demons.",
            role_info: "Ranged damage dealer.",
        },
        GlueClassDef {
            class_id: 10,
            name: "Monk",
            file_name: "MONK",
            description: "Agile martial artists powered by chi.",
            role_info: "Tank, healer, or melee damage dealer.",
        },
        GlueClassDef {
            class_id: 11,
            name: "Druid",
            file_name: "DRUID",
            description: "Shapeshifters empowered by nature and the Emerald Dream.",
            role_info: "Tank, healer, melee, or ranged damage dealer.",
        },
        GlueClassDef {
            class_id: 12,
            name: "Demon Hunter",
            file_name: "DEMONHUNTER",
            description: "Illidari wielding fel power and spectral sight.",
            role_info: "Tank or melee damage dealer.",
        },
        GlueClassDef {
            class_id: 13,
            name: "Evoker",
            file_name: "EVOKER",
            description: "Dracthyr spellcasters empowered by dragonflights.",
            role_info: "Healer or ranged damage dealer.",
        },
    ]
}

/// The customization categories of character creation, in display order.
pub open spec fn spec_customization_categories() -> Seq<GlueCustomizationCategoryDef> {
    seq![
        GlueCustomizationCategoryDef {
            id: 1,
            name: "Body",
            icon: "classicon-warrior",
            selected_icon: "classicon-warrior",
            order_index: 1,
            camera_zoom_level: 15,
        },
        GlueCustomizationCategoryDef {
            id: 2,
            name: "Hair",
            icon: "classicon-mage",
            selected_icon: "classicon-mage",
            order_index: 2,
            camera_zoom_level: 35,
        },
        GlueCustomizationCategoryDef {
            id: 3,
            name: "Features",
            icon: "classicon-priest",
            selected_icon: "classicon-priest",
            order_index: 3,
            camera_zoom_level: 50,
        },
    ]
}

/// The customization categories of character creation, in display order.
pub fn customization_categories() -> (r: Vec<GlueCustomizationCategoryDef>)
    ensures
        r@ == spec_customization_categories(),
{
    vec![
        GlueCustomizationCategoryDef {
            id: 1,
            name: "Body",
            icon: "classicon-warrior",
            selected_icon: "classicon-warrior",
            order_index: 1,
            camera_zoom_level: 15,
        },
        GlueCustomizationCategoryDef {
            id: 2,
            name: "Hair",
            icon: "classicon-mage",
            selected_icon: "classicon-mage",
            order_index: 2,
            camera_zoom_level: 35,
        },
        GlueCustomizationCategoryDef {
            id: 3,
            name: "Features",
            icon: "classicon-priest",
            selected_icon: "classicon-priest",
            order_index: 3,
            camera_zoom_level: 50,
        },
    ]
}

/// The options of a customization category, in display order; none for an unknown category.
pub open spec fn spec_category_options(category_id: i32) -> Seq<GlueCustomizationOptionDef> {
    match category_id {
        1 => seq![
            GlueCustomizationOptionDef {
                id: 100,
                name: "Face",
                option_type: 0,
                order_index: 1,
            },
            GlueCustomizationOptionDef {
                id: 101,
                name: "Skin Color",
                option_type: 0,
                order_index: 2,
            },
        ],
        2 => seq![
            GlueCustomizationOptionDef {
                id: 200,
                name: "Hair Style",
                option_type: 0,
                order_index: 1,
            },
            GlueCustomizationOptionDef {
                id: 201,
                name: "Hair Color",
                option_type: 0,
                order_index: 2,
            },
        ],
        3 => seq![
            GlueCustomizationOptionDef {
                id: 300,
                name: "Facial Hair",
                option_type: 1,
                order_index: 1,
            },
            GlueCustomizationOptionDef {
                id: 301,
                name: "Scars",
                option_type: 1,
                order_index: 2,
            },
            GlueCustomizationOptionDef {
                id: 302,
                name: "Horn Style",
                option_type: 0,
                order_index: 3,
            },
        ],
        _ => Seq::empty(),
    }
}

/// The options of a customization category, in display order; none for an unknown category.
pub fn category_options(category_id: i32) -> (r: Vec<GlueCustomizationOptionDef>)
    ensures
        r@ == spec_category_options(category_id),
{
    match category_id {
        1 => vec![
            GlueCustomizationOptionDef {
                id: 100,
                name: "Face",
                option_type: 0,
                order_index: 1,
            },
            GlueCustomizationOptionDef {
                id: 101,
                name: "Skin Color",
                option_type: 0,
                order_index: 2,
            },
        ],
        2 => vec![
            GlueCustomizationOptionDef {
                id: 200,
                name: "Hair Style",
                option_type: 0,
                order_index: 1,
            },
            GlueCustomizationOptionDef {
                id: 201,
                name: "Hair Color",
                option_type: 0,
                order_index: 2,
            },
        ],
        3 => vec![
            GlueCustomizationOptionDef {
                id: 300,
                name: "Facial Hair",
                option_type: 1,
                order_index: 1,
            },
            GlueCustomizationOptionDef {
                id: 301,
                name: "Scars",
                option_type: 1,
                order_index: 2,
            },
            GlueCustomizationOptionDef {
                id: 302,
                name: "Horn Style",
                option_type: 0,
                order_index: 3,
            },
        ],
        _ => Vec::new(),
    }
}

/// The choices of a customization option, in display order; none for an unknown option.
pub open spec fn spec_option_choices(option_id: i32) -> Seq<GlueCustomizationChoiceDef> {
    match option_id {
        100 => seq![
            GlueCustomizationChoiceDef {
                id: 1001,
                name: "Face 1",
            },
            GlueCustomizationChoiceDef {
                id: 1002,
                name: "Face 2",
            },
            GlueCustomizationChoiceDef {
                id: 1003,
                name: "Face 3",
            },
        ],
        101 => seq![
            GlueCustomizationChoiceDef {
                id: 1101,
                name: "Skin Tone 1",
            },
            GlueCustomizationChoiceDef {
                id: 1102,
                name: "Skin Tone 2",
            },
            GlueCustomizationChoiceDef {
                id: 1103,
                name: "Skin Tone 3",
            },
        ],
        200 => seq![
            GlueCustomizationChoiceDef {
                id: 2001,
                name: "Style 1",
            },
            GlueCustomizationChoiceDef {
                id: 2002,
                name: "Style 2",
            },
            GlueCustomizationChoiceDef {
                id: 2003,
                name: "Style 3",
            },
        ],
        201 => seq![
            GlueCustomizationChoiceDef {
                id: 2101,
                name: "Brown",
            },
            GlueCustomizationChoiceDef {
                id: 2102,
                name: "Black",
            },
            GlueCustomizationChoiceDef {
                id: 2103,
                name: "Blonde",
            },
        ],
        300 => seq![
            GlueCustomizationChoiceDef {
                id: 3001,
                name: "Style 1",
            },
            GlueCustomizationChoiceDef {
                id: 3002,
                name: "Style 2",
            },
            GlueCustomizationChoiceDef {
                id: 3003,
                name: "Style 3",
            },
        ],
        301 => seq![
            GlueCustomizationChoiceDef {
                id: 3101,
                name: "None",
            },
            GlueCustomizationChoiceDef {
                id: 3102,
                name: "Scar 1",
            },
            GlueCustomizationChoiceDef {
                id: 3103,
                name: "Scar 2",
            },
        ],
        302 => seq![
            GlueCustomizationChoiceDef {
                id: 3201,
                name: "Horn Style 1",
            },
            GlueCustomizationChoiceDef {
                id: 3202,
                name: "Horn Style 2",
            },
            GlueCustomizationChoiceDef {
                id: 3203,
                name: "Horn Style 3",
            },
        ],
        _ => Seq::empty(),
    }
}

/// The choices of a customization option, in display order; none for an unknown option.
pub fn option_choices(option_id: i32) -> (r: Vec<GlueCustomizationChoiceDef>)
    ensures
        r@ == spec_option_choices(option_id),
{
    match option_id {
        100 => vec![
            GlueCustomizationChoiceDef {
                id: 1001,
                name: "Face 1",
            },
            GlueCustomizationChoiceDef {
                id: 1002,
                name: "Face 2",
            },
            GlueCustomizationChoiceDef {
                id: 1003,
                name: "Face 3",
            },
        ],
        101 => vec![
            GlueCustomizationChoiceDef {
                id: 1101,
                name: "Skin Tone 1",
            },
            GlueCustomizationChoiceDef {
                id: 1102,
                name: "Skin Tone 2",
            },
            GlueCustomizationChoiceDef {
                id: 1103,
                name: "Skin Tone 3",
            },
        ],
        200 => vec![
            GlueCustomizationChoiceDef {
                id: 2001,
                name: "Style 1",
            },
            GlueCustomizationChoiceDef {
                id: 2002,
                name: "Style 2",
            },
            GlueCustomizationChoiceDef {
                id: 2003,
                name: "Style 3",
            },
        ],
        201 => vec![
            GlueCustomizationChoiceDef {
                id: 2101,
                name: "Brown",
            },
            GlueCustomizationChoiceDef {
                id: 2102,
                name: "Black",
            },
            GlueCustomizationChoiceDef {
                id: 2103,
                name: "Blonde",
            },
        ],
        300 => vec![
            GlueCustomizationChoiceDef {
                id: 3001,
                name: "Style 1",
            },
            GlueCustomizationChoiceDef {
                id: 3002,
                name: "Style 2",
            },
            GlueCustomizationChoiceDef {
                id: 3003,
                name: "Style 3",
            },
        ],
        301 => vec![
            GlueCustomizationChoiceDef {
                id: 3101,
                name: "None",
            },
            GlueCustomizationChoiceDef {
                id: 3102,
                name: "Scar 1",
            },
            GlueCustomizationChoiceDef {
                id: 3103,
                name: "Scar 2",
            },
        ],
        302 => vec![
            GlueCustomizationChoiceDef {
                id: 3201,
                name: "Horn Style 1",
            },
            GlueCustomizationChoiceDef {
                id: 3202,
                name: "Horn Style 2",
            },
            GlueCustomizationChoiceDef {
                id: 3203,
                name: "Horn Style 3",
            },
        ],
        _ => Vec::new(),
    }
}

} // verus!
