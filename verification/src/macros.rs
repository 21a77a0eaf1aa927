//! The seeded account and character macros behind `C_Macro` and the macro
//! globals.

use vstd::prelude::*;
use crate::search::{find_first, lemma_find_first_end, lemma_find_first_start, lemma_find_first_step};
use crate::text::{eq_ignore_ascii_case, str_eq_ignore_ascii_case};

verus! {

/// A macro the simulated account or character starts with.
#[derive(Clone, Copy)]
pub struct SeededMacro {
    pub id: i32,
    pub name: &'static str,
    pub icon: &'static str,
    pub body: &'static str,
}

/// The account-wide macros.
pub open spec fn spec_account_macros() -> Seq<SeededMacro> {
    seq![
        SeededMacro {
            id: 1,
            name: "Raid Beacon",
            icon: "Interface\\Icons\\INV_Misc_QuestionMark",
            body: "/rw Stack on star",
        },
        SeededMacro {
            id: 2,
            name: "Pull Timer",
            icon: "Interface\\Icons\\INV_Misc_PocketWatch_01",
            body: "/pull 10",
        },
    ]
}

/// The character-specific macros.
pub open spec fn spec_character_macros() -> Seq<SeededMacro> {
    seq![
        SeededMacro {
            id: 121,
            name: "Crusader",
            icon: "Interface\\Icons\\Spell_Holy_CrusaderAura",
            body: "/cast Crusader Aura",
        },
    ]
}

/// Every seeded macro: the account macros, then the character macros.
pub open spec fn spec_seeded_macros() -> Seq<SeededMacro> {
    spec_account_macros() + spec_character_macros()
}

pub open spec fn macro_has_id(macro_id: i32) -> spec_fn(SeededMacro) -> bool {
    |m: SeededMacro| m.id == macro_id
}

pub open spec fn macro_named(name: Seq<char>) -> spec_fn(SeededMacro) -> bool {
    |m: SeededMacro| eq_ignore_ascii_case(m.name@, name)
}

pub fn account_macros() -> (r: Vec<SeededMacro>)
    ensures
        r@ == spec_account_macros(),
{
    let r = vec![
        SeededMacro {
            id: 1,
            name: "Raid Beacon",
            icon: "Interface\\Icons\\INV_Misc_QuestionMark",
            body: "/rw Stack on star",
        },
        SeededMacro {
            id: 2,
            name: "Pull Timer",
            icon: "Interface\\Icons\\INV_Misc_PocketWatch_01",
            body: "/pull 10",
        },
    ];
    assert(r@ =~= spec_account_macros());
    r
}

pub fn character_macros() -> (r: Vec<SeededMacro>)
    ensures
        r@ == spec_character_macros(),
{
    let r = vec![
        SeededMacro {
            id: 121,
            name: "Crusader",
            icon: "Interface\\Icons\\Spell_Holy_CrusaderAura",
            body: "/cast Crusader Aura",
        },
    ];
    assert(r@ =~= spec_character_macros());
    r
}

/// The account macros followed by the character macros.
pub fn all_seeded_macros() -> (r: Vec<SeededMacro>)
    ensures
        r@ == spec_seeded_macros(),
{
    let mut r = account_macros();
    let mut c = character_macros();
    r.append(&mut c);
    r
}

/// `GetNumMacros()`: how many account and how many character macros exist.
pub fn num_macros() -> (r: (i32, i32))
    ensures
        r.0 == spec_account_macros().len(),
        r.1 == spec_character_macros().len(),
{
    let a = account_macros();
    let c = character_macros();
    (a.len() as i32, c.len() as i32)
}

/// The first seeded macro with the given id.
pub fn lookup_macro_by_id(macro_id: i32) -> (r: Option<SeededMacro>)
    ensures
        r == find_first(spec_seeded_macros(), macro_has_id(macro_id)),
{
    let all = all_seeded_macros();
    let ghost p = macro_has_id(macro_id);
    proof {
        lemma_find_first_start(all@);
    }
    let mut i: usize = 0;
    while i < all.len()
        invariant
            i <= all@.len(),
            all@ == spec_seeded_macros(),
            p == macro_has_id(macro_id),
            find_first(all@, p) == find_first(all@.subrange(i as int, all@.len() as int), p),
        decreases all.len() - i,
    {
        proof {
            lemma_find_first_step(all@, p, i as int);
        }
        if all[i].id == macro_id {
            return Some(all[i]);
        }
        i = i + 1;
    }
    proof {
        lemma_find_first_end(all@, p);
    }
    None
}

/// The first seeded macro whose name equals `name` ignoring ASCII case.
pub fn lookup_macro_by_name(name: &str) -> (r: Option<SeededMacro>)
    ensures
        r == find_first(spec_seeded_macros(), macro_named(name@)),
{
    let all = all_seeded_macros();
    let ghost p = macro_named(name@);
    proof {
        lemma_find_first_start(all@);
    }
    let mut i: usize = 0;
    while i < all.len()
        invariant
            i <= all@.len(),
            all@ == spec_seeded_macros(),
            p == macro_named(name@),
            find_first(all@, p) == find_first(all@.subrange(i as int, all@.len() as int), p),
        decreases all.len() - i,
    {
        proof {
            lemma_find_first_step(all@, p, i as int);
        }
        if str_eq_ignore_ascii_case(all[i].name, name) {
            return Some(all[i]);
        }
        i = i + 1;
    }
    proof {
        lemma_find_first_end(all@, p);
    }
    None
}

/// `GetMacroIndexByName(name)`: the id of the macro of that name (ASCII
/// case ignored), 0 when there is none.
pub fn macro_index_by_name(name: &str) -> (r: i32)
    ensures
        r == match find_first(spec_seeded_macros(), macro_named(name@)) {
            Some(m) => m.id,
            None => 0,
        },
{
    match lookup_macro_by_name(name) {
        Some(m) => m.id,
        None => 0,
    }
}

} // verus!
