//! `C_UnitAuras` over the player's buffs: which buffs are visible once the
//! blocked auras of a unit are taken out, and the lookups by slot, index,
//! spell and name.

use vstd::prelude::*;
use crate::search::{lemma_find_first_end, lemma_find_first_start, lemma_find_first_step};
use crate::text::{spec_contains, str_contains, str_eq};

verus! {

/// What the aura logic reads of one of the player's buffs.
pub struct Aura {
    pub aura_instance_id: i32,
    pub spell_id: i32,
    pub name: String,
}

/// The auras blocked per unit, as (unit, aura instance id) pairs.
pub struct BlockedAuras {
    pairs: Vec<(String, i32)>,
}

pub open spec fn pair_view(p: (String, i32)) -> (Seq<char>, i32) {
    (p.0@, p.1)
}

impl View for BlockedAuras {
    type V = Set<(Seq<char>, i32)>;

    closed spec fn view(&self) -> Set<(Seq<char>, i32)> {
        Set::new(|q: (Seq<char>, i32)| exists|i: int| 0 <= i < self.pairs@.len() && pair_view(#[trigger] self.pairs@[i]) == q)
    }
}

/// The auras blocked for `unit`.
pub open spec fn blocked_ids(b: Set<(Seq<char>, i32)>, unit: Seq<char>) -> Set<i32> {
    Set::new(|id: i32| b.contains((unit, id)))
}

impl BlockedAuras {
    pub fn new() -> (r: BlockedAuras)
        ensures
            r@ == Set::<(Seq<char>, i32)>::empty(),
    {
        let r = BlockedAuras { pairs: Vec::new() };
        assert(r@ =~= Set::<(Seq<char>, i32)>::empty());
        r
    }

    /// `C_UnitAuras.AddBlockedAura(unit, auraInstanceID)`.
    pub fn add_blocked_aura(&mut self, unit: &str, aura_instance_id: i32)
        ensures
            final(self)@ == old(self)@.insert((unit@, aura_instance_id)),
    {
        let ghost s = self.pairs@;
        self.pairs.push((String::from_str(unit), aura_instance_id));
        proof {
            let t = self.pairs@;
            assert forall|q: (Seq<char>, i32)| self@.contains(q) == old(self)@.insert((unit@, aura_instance_id)).contains(q) by {
                if self@.contains(q) {
                    let i = choose|i: int| 0 <= i < t.len() && pair_view(#[trigger] t[i]) == q;
                    if i < s.len() {
                        assert(t[i] == s[i]);
                    }
                }
                if old(self)@.contains(q) {
                    let i = choose|i: int| 0 <= i < s.len() && pair_view(#[trigger] s[i]) == q;
                    assert(t[i] == s[i]);
                }
                if q == (unit@, aura_instance_id) {
                    assert(pair_view(t[s.len() as int]) == q);
                }
            }
            assert(self@ =~= old(self)@.insert((unit@, aura_instance_id)));
        }
    }

    /// `C_UnitAuras.ClearBlockedAuras(unit)`: nothing stays blocked for it.
    pub fn clear_blocked_auras(&mut self, unit: &str)
        ensures
            final(self)@ == old(self)@.filter(|q: (Seq<char>, i32)| q.0 != unit@),
    {
        let ghost s = self.pairs@;
        let mut kept: Vec<(String, i32)> = Vec::new();
        let mut i: usize = 0;
        while i < self.pairs.len()
            invariant
                i <= s.len(),
                self.pairs@ == s,
                forall|j: int| 0 <= j < kept@.len() ==> (#[trigger] kept@[j]).0@ != unit@,
                forall|j: int| 0 <= j < kept@.len() ==> exists|k: int| 0 <= k < i && pair_view(#[trigger] s[k]) == pair_view(#[trigger] kept@[j]),
                forall|k: int| 0 <= k < i && (#[trigger] s[k]).0@ != unit@ ==> exists|j: int| 0 <= j < kept@.len() && pair_view(#[trigger] kept@[j]) == pair_view(s[k]),
            decreases s.len() - i,
        {
            if !str_eq(self.pairs[i].0.as_str(), unit) {
                let p = (self.pairs[i].0.clone(), self.pairs[i].1);
                let ghost prev = kept@;
                kept.push(p);
                proof {
                    let n = kept@.len() - 1;
                    assert(pair_view(kept@[n]) == pair_view(s[i as int]));
                    assert forall|j: int| 0 <= j < kept@.len() implies exists|k: int| 0 <= k < i + 1 && pair_view(#[trigger] s[k]) == pair_view(#[trigger] kept@[j]) by {
                        if j < n {
                            assert(kept@[j] == prev[j]);
                            let k = choose|k: int| 0 <= k < i && pair_view(#[trigger] s[k]) == pair_view(prev[j]);
                            assert(0 <= k < i + 1);
                        } else {
                            assert(pair_view(s[i as int]) == pair_view(kept@[j]));
                        }
                    }
                    assert forall|k: int| 0 <= k < i + 1 && (#[trigger] s[k]).0@ != unit@ implies exists|j: int| 0 <= j < kept@.len() && pair_view(#[trigger] kept@[j]) == pair_view(s[k]) by {
                        if k < i {
                            let j = choose|j: int| 0 <= j < prev.len() && pair_view(#[trigger] prev[j]) == pair_view(s[k]);
                            assert(kept@[j] == prev[j]);
                        } else {
                            assert(pair_view(kept@[n]) == pair_view(s[k]));
                        }
                    }
                }
            }
            i = i + 1;
        }
        proof {
            let f = old(self)@.filter(|q: (Seq<char>, i32)| q.0 != unit@);
            let kv = Set::new(|q: (Seq<char>, i32)| exists|i: int| 0 <= i < kept@.len() && pair_view(#[trigger] kept@[i]) == q);
            assert forall|q: (Seq<char>, i32)| kv.contains(q) == f.contains(q) by {
                if kv.contains(q) {
                    let j = choose|j: int| 0 <= j < kept@.len() && pair_view(#[trigger] kept@[j]) == q;
                    let k = choose|k: int| 0 <= k < s.len() && pair_view(#[trigger] s[k]) == pair_view(kept@[j]);
                    assert(old(self)@.contains(q));
                }
                if f.contains(q) {
                    let k = choose|k: int| 0 <= k < s.len() && pair_view(#[trigger] s[k]) == q;
                    assert(s[k].0@ != unit@);
                }
            }
            assert(kv =~= f);
        }
        self.pairs = kept;
    }

    /// Whether `aura_instance_id` is blocked for `unit`.
    pub fn is_blocked(&self, unit: &str, aura_instance_id: i32) -> (r: bool)
        ensures
            r == self@.contains((unit@, aura_instance_id)),
    {
        let mut i: usize = 0;
        while i < self.pairs.len()
            invariant
                i <= self.pairs@.len(),
                forall|j: int| 0 <= j < i ==> pair_view(#[trigger] self.pairs@[j]) != (unit@, aura_instance_id),
            decreases self.pairs.len() - i,
        {
            if self.pairs[i].1 == aura_instance_id && str_eq(self.pairs[i].0.as_str(), unit) {
                assert(pair_view(self.pairs@[i as int]) == (unit@, aura_instance_id));
                return true;
            }
            i = i + 1;
        }
        false
    }
}

/// Positions of the buffs that are not blocked, in buff order.
pub open spec fn spec_visible(buffs: Seq<Aura>, blocked: Set<i32>) -> Seq<int>
    decreases buffs.len(),
{
    if buffs.len() == 0 {
        Seq::empty()
    } else if blocked.contains(buffs.last().aura_instance_id) {
        spec_visible(buffs.drop_last(), blocked)
    } else {
        spec_visible(buffs.drop_last(), blocked).push(buffs.len() - 1)
    }
}

/// Every visible position is a buff that is not blocked, and positions
/// rise strictly.
pub proof fn lemma_visible_positions(buffs: Seq<Aura>, blocked: Set<i32>)
    ensures
        forall|j: int|
            0 <= j < spec_visible(buffs, blocked).len() ==> 0 <= #[trigger] spec_visible(buffs, blocked)[j]
                < buffs.len() && !blocked.contains(buffs[spec_visible(buffs, blocked)[j]].aura_instance_id),
        forall|a: int, b: int|
            0 <= a < b < spec_visible(buffs, blocked).len() ==> #[trigger] spec_visible(buffs, blocked)[a]
                < #[trigger] spec_visible(buffs, blocked)[b],
    decreases buffs.len(),
{
    if buffs.len() > 0 {
        lemma_visible_positions(buffs.drop_last(), blocked);
        let v = spec_visible(buffs, blocked);
        let w = spec_visible(buffs.drop_last(), blocked);
        assert forall|j: int| 0 <= j < v.len() implies 0 <= #[trigger] v[j] < buffs.len() && !blocked.contains(
            buffs[v[j]].aura_instance_id,
        ) by {
            if j < w.len() {
                assert(v[j] == w[j]);
                assert(buffs.drop_last()[w[j]] == buffs[w[j]]);
            }
        }
        assert forall|a: int, b: int| 0 <= a < b < v.len() implies #[trigger] v[a] < #[trigger] v[b] by {
            if b < w.len() {
                assert(v[a] == w[a] && v[b] == w[b]);
            } else {
                assert(v[a] == w[a]);
            }
        }
    }
}

/// The player's buffs that are not blocked for the player, by position.
pub fn visible_player_buffs(buffs: &Vec<Aura>, blocked: &BlockedAuras) -> (r: Vec<usize>)
    ensures
        r@.map_values(|i: usize| i as int) == spec_visible(buffs@, blocked_ids(blocked@, "player"@)),
{
    let mut r: Vec<usize> = Vec::new();
    let mut i: usize = 0;
    while i < buffs.len()
        invariant
            i <= buffs@.len(),
            r@.map_values(|k: usize| k as int) == spec_visible(buffs@.subrange(0, i as int), blocked_ids(blocked@, "player"@)),
        decreases buffs.len() - i,
    {
        proof {
            let t = buffs@.subrange(0, i + 1);
            assert(t.drop_last() =~= buffs@.subrange(0, i as int));
            assert(t.last() == buffs@[i as int]);
        }
        if !blocked.is_blocked("player", buffs[i].aura_instance_id) {
            r.push(i);
            proof {
                assert(r@.map_values(|k: usize| k as int) =~= spec_visible(buffs@.subrange(0, i as int), blocked_ids(blocked@, "player"@)).push(i as int));
            }
        }
        i = i + 1;
    }
    assert(buffs@.subrange(0, buffs@.len() as int) =~= buffs@);
    r
}

/// The aura instance ids of the visible buffs, in order.
pub open spec fn spec_visible_ids(buffs: Seq<Aura>, blocked: Set<i32>) -> Seq<i32> {
    spec_visible(buffs, blocked).map_values(|k: int| buffs[k].aura_instance_id)
}

/// `GetAuraSlots(unit, filter, maxSlots, token)`: the slots of the player's
/// visible buffs in one batch; nothing for a continuation token, another
/// unit, or a harmful filter.
pub open spec fn spec_aura_slots(
    unit: Option<Seq<char>>,
    filter: Option<Seq<char>>,
    token: Option<i32>,
    buffs: Seq<Aura>,
    blocked: Set<(Seq<char>, i32)>,
) -> Option<Seq<i32>> {
    if token is Some || unit != Some("player"@) {
        None
    } else if filter matches Some(f) && spec_contains(f, "HARMFUL"@) {
        None
    } else {
        Some(spec_visible_ids(buffs, blocked_ids(blocked, "player"@)))
    }
}

fn unit_is_player(unit: &str) -> (r: bool)
    ensures
        r == (unit@ == "player"@),
{
    str_eq(unit, "player")
}

pub fn aura_slots(
    unit: Option<&str>,
    filter: Option<&str>,
    token: Option<i32>,
    buffs: &Vec<Aura>,
    blocked: &BlockedAuras,
) -> (r: Option<Vec<i32>>)
    ensures
        match spec_aura_slots(
            match unit {
                Some(u) => Some(u@),
                None => None,
            },
            match filter {
                Some(f) => Some(f@),
                None => None,
            },
            token,
            buffs@,
            blocked@,
        ) {
            None => r is None,
            Some(ids) => r matches Some(v) && v@ == ids,
        },
{
    if token.is_some() {
        return None;
    }
    match unit {
        None => {
            return None;
        },
        Some(u) => {
            if !unit_is_player(u) {
                return None;
            }
        },
    }
    match filter {
        Some(f) => {
            if str_contains(f, "HARMFUL") {
                return None;
            }
        },
        None => {},
    }
    let vis = visible_player_buffs(buffs, blocked);
    let ghost vs = spec_visible(buffs@, blocked_ids(blocked@, "player"@));
    assert(vis@.len() == vs.len());
    proof {
        lemma_visible_positions(buffs@, blocked_ids(blocked@, "player"@));
    }
    let ghost want = spec_visible_ids(buffs@, blocked_ids(blocked@, "player"@));
    assert(want.len() == vs.len());
    let mut ids: Vec<i32> = Vec::new();
    let mut i: usize = 0;
    while i < vis.len()
        invariant
            i <= vis@.len(),
            vis@.map_values(|k: usize| k as int) == vs,
            vis@.len() == vs.len(),
            vs == spec_visible(buffs@, blocked_ids(blocked@, "player"@)),
            want == spec_visible_ids(buffs@, blocked_ids(blocked@, "player"@)),
            want.len() == vs.len(),
            forall|j: int| 0 <= j < vs.len() ==> 0 <= #[trigger] vs[j] < buffs@.len(),
            ids@ == want.subrange(0, i as int),
        decreases vis.len() - i,
    {
        assert(vs[i as int] == vis@[i as int] as int);
        ids.push(buffs[vis[i]].aura_instance_id);
        proof {
            assert(want[i as int] == buffs@[vs[i as int]].aura_instance_id);
            assert(ids@ =~= want.subrange(0, i + 1));
        }
        i = i + 1;
    }
    proof {
        assert(ids@ =~= want);
    }
    Some(ids)
}

/// `GetAuraDataByIndex(unit, index, filter)`: the `index`-th visible buff
/// of the player (1-based); nothing for another unit, an index below 1, or
/// a harmful or maw filter.
pub open spec fn spec_aura_by_index(
    unit: Seq<char>,
    index: i32,
    filter: Option<Seq<char>>,
    buffs: Seq<Aura>,
    blocked: Set<(Seq<char>, i32)>,
) -> Option<int> {
    if unit != "player"@ || index < 1 {
        None
    } else if filter matches Some(f) && (spec_contains(f, "HARMFUL"@) || spec_contains(f, "MAW"@)) {
        None
    } else {
        spec_buff_by_index(unit, index, buffs, blocked)
    }
}

/// `GetBuffDataByIndex(unit, index, filter)`: as by index, whatever the
/// filter.
pub open spec fn spec_buff_by_index(unit: Seq<char>, index: i32, buffs: Seq<Aura>, blocked: Set<(Seq<char>, i32)>) -> Option<int> {
    let vis = spec_visible(buffs, blocked_ids(blocked, "player"@));
    if unit != "player"@ || index < 1 || index > vis.len() {
        None
    } else {
        Some(vis[index - 1])
    }
}

pub fn buff_by_index(unit: &str, index: i32, buffs: &Vec<Aura>, blocked: &BlockedAuras) -> (r: Option<usize>)
    ensures
        match spec_buff_by_index(unit@, index, buffs@, blocked@) {
            None => r is None,
            Some(k) => r == Some(k as usize),
        },
{
    if !unit_is_player(unit) || index < 1 {
        return None;
    }
    let vis = visible_player_buffs(buffs, blocked);
    let ghost vs = spec_visible(buffs@, blocked_ids(blocked@, "player"@));
    assert(vis@.len() == vs.len());
    let k = (index - 1) as usize;
    if k < vis.len() {
        assert(vs[k as int] == vis@[k as int] as int);
        Some(vis[k])
    } else {
        None
    }
}

pub fn aura_by_index(
    unit: &str,
    index: i32,
    filter: Option<&str>,
    buffs: &Vec<Aura>,
    blocked: &BlockedAuras,
) -> (r: Option<usize>)
    ensures
        match spec_aura_by_index(
            unit@,
            index,
            match filter {
                Some(f) => Some(f@),
                None => None,
            },
            buffs@,
            blocked@,
        ) {
            None => r is None,
            Some(k) => r == Some(k as usize),
        },
{
    if !unit_is_player(unit) || index < 1 {
        return None;
    }
    match filter {
        Some(f) => {
            if str_contains(f, "HARMFUL") || str_contains(f, "MAW") {
                return None;
            }
        },
        None => {},
    }
    buff_by_index(unit, index, buffs, blocked)
}

pub open spec fn aura_has_instance_id(id: i32) -> spec_fn(Aura) -> bool {
    |a: Aura| a.aura_instance_id == id
}

pub open spec fn aura_has_spell_id(spell_id: i32) -> spec_fn(Aura) -> bool {
    |a: Aura| a.spell_id == spell_id
}

pub open spec fn aura_named(name: Seq<char>) -> spec_fn(Aura) -> bool {
    |a: Aura| a.name@ == name
}

/// The first buff satisfying `p`, by position.
pub open spec fn spec_first_aura(buffs: Seq<Aura>, p: spec_fn(Aura) -> bool) -> Option<int> {
    crate::search::position_first(buffs, p)
}

/// `GetAuraDataByAuraInstanceID(unit, id)` and `GetAuraDataBySlot(unit,
/// slot)`: the player's first buff with that instance id.
pub fn aura_by_instance_id(unit: &str, aura_instance_id: i32, buffs: &Vec<Aura>) -> (r: Option<usize>)
    ensures
        match (if unit@ == "player"@ { spec_first_aura(buffs@, aura_has_instance_id(aura_instance_id)) } else { None }) {
            None => r is None,
            Some(k) => r == Some(k as usize),
        },
{
    if !unit_is_player(unit) {
        return None;
    }
    let ghost p = aura_has_instance_id(aura_instance_id);
    proof {
        lemma_find_first_start(buffs@);
    }
    let mut i: usize = 0;
    while i < buffs.len()
        invariant
            i <= buffs@.len(),
            p == aura_has_instance_id(aura_instance_id),
            unit@ == "player"@,
            crate::search::position_first(buffs@, p) == (match crate::search::position_first(
                buffs@.subrange(i as int, buffs@.len() as int),
                p,
            ) {
                Some(k) => Some(k + i),
                None => None,
            }),
        decreases buffs.len() - i,
    {
        proof {
            lemma_find_first_step(buffs@, p, i as int);
        }
        if buffs[i].aura_instance_id == aura_instance_id {
            return Some(i);
        }
        i = i + 1;
    }
    proof {
        lemma_find_first_end(buffs@, p);
    }
    None
}

/// `GetPlayerAuraBySpellID(spellID)`: the first buff of that spell.
pub fn aura_by_spell_id(spell_id: i32, buffs: &Vec<Aura>) -> (r: Option<usize>)
    ensures
        match spec_first_aura(buffs@, aura_has_spell_id(spell_id)) {
            None => r is None,
            Some(k) => r == Some(k as usize),
        },
{
    let ghost p = aura_has_spell_id(spell_id);
    proof {
        lemma_find_first_start(buffs@);
    }
    let mut i: usize = 0;
    while i < buffs.len()
        invariant
            i <= buffs@.len(),
            p == aura_has_spell_id(spell_id),
            crate::search::position_first(buffs@, p) == (match crate::search::position_first(
                buffs@.subrange(i as int, buffs@.len() as int),
                p,
            ) {
                Some(k) => Some(k + i),
                None => None,
            }),
        decreases buffs.len() - i,
    {
        proof {
            lemma_find_first_step(buffs@, p, i as int);
        }
        if buffs[i].spell_id == spell_id {
            return Some(i);
        }
        i = i + 1;
    }
    proof {
        lemma_find_first_end(buffs@, p);
    }
    None
}

/// `GetAuraDataBySpellName(unit, name, filter)`: the player's first buff
/// with that name.
pub fn aura_by_spell_name(unit: &str, name: &str, buffs: &Vec<Aura>) -> (r: Option<usize>)
    ensures
        match (if unit@ == "player"@ { spec_first_aura(buffs@, aura_named(name@)) } else { None }) {
            None => r is None,
            Some(k) => r == Some(k as usize),
        },
{
    if !unit_is_player(unit) {
        return None;
    }
    let ghost p = aura_named(name@);
    proof {
        lemma_find_first_start(buffs@);
    }
    let mut i: usize = 0;
    while i < buffs.len()
        invariant
            i <= buffs@.len(),
            p == aura_named(name@),
            unit@ == "player"@,
            crate::search::position_first(buffs@, p) == (match crate::search::position_first(
                buffs@.subrange(i as int, buffs@.len() as int),
                p,
            ) {
                Some(k) => Some(k + i),
                None => None,
            }),
        decreases buffs.len() - i,
    {
        proof {
            lemma_find_first_step(buffs@, p, i as int);
        }
        if str_eq(buffs[i].name.as_str(), name) {
            return Some(i);
        }
        i = i + 1;
    }
    proof {
        lemma_find_first_end(buffs@, p);
    }
    None
}

/// The slots `GetAuraSlots` lists and the buffs `GetAuraDataByIndex`
/// reads agree: the `n`-th slot is the instance id of the `n`-th buff by
/// index, and no blocked aura is among them.
pub proof fn law_slots_match_index(
    filter: Option<Seq<char>>,
    buffs: Seq<Aura>,
    blocked: Set<(Seq<char>, i32)>,
    n: i32,
)
    requires
        spec_aura_slots(Some("player"@), filter, None, buffs, blocked) is Some,
        1 <= n <= spec_aura_slots(Some("player"@), filter, None, buffs, blocked).unwrap().len(),
    ensures
        spec_buff_by_index("player"@, n, buffs, blocked) matches Some(k) && 0 <= k < buffs.len()
            && buffs[k].aura_instance_id == spec_aura_slots(Some("player"@), filter, None, buffs, blocked).unwrap()[n - 1]
            && !blocked.contains(("player"@, buffs[k].aura_instance_id)),
{
    lemma_visible_positions(buffs, blocked_ids(blocked, "player"@));
}

/// An aura blocked for the player is no longer among the visible buffs,
/// and clearing the player's blocked auras makes every buff visible again.
pub proof fn law_block_hides_clear_shows(
    buffs: Seq<Aura>,
    blocked: Set<(Seq<char>, i32)>,
    aura_instance_id: i32,
)
    ensures
        forall|j: int|
            0 <= j < spec_visible_ids(buffs, blocked_ids(blocked.insert(("player"@, aura_instance_id)), "player"@)).len()
                ==> #[trigger] spec_visible_ids(buffs, blocked_ids(blocked.insert(("player"@, aura_instance_id)), "player"@))[j]
                != aura_instance_id,
        spec_visible(buffs, blocked_ids(blocked.filter(|q: (Seq<char>, i32)| q.0 != "player"@), "player"@))
            == Seq::new(buffs.len(), |k: int| k),
{
    let b1 = blocked_ids(blocked.insert(("player"@, aura_instance_id)), "player"@);
    lemma_visible_positions(buffs, b1);
    let b2 = blocked_ids(blocked.filter(|q: (Seq<char>, i32)| q.0 != "player"@), "player"@);
    assert(b2 =~= Set::<i32>::empty());
    lemma_visible_all(buffs);
}

proof fn lemma_visible_all(buffs: Seq<Aura>)
    ensures
        spec_visible(buffs, Set::<i32>::empty()) == Seq::new(buffs.len(), |k: int| k),
    decreases buffs.len(),
{
    if buffs.len() > 0 {
        lemma_visible_all(buffs.drop_last());
        assert(Seq::new((buffs.len() - 1) as nat, |k: int| k).push(buffs.len() - 1) =~= Seq::new(
            buffs.len(),
            |k: int| k,
        ));
    } else {
        assert(spec_visible(buffs, Set::<i32>::empty()) =~= Seq::new(buffs.len(), |k: int| k));
    }
}

/// A filter that names neither harmful nor maw auras does not narrow
/// `GetAuraDataByIndex`: it finds the same buff as `GetBuffDataByIndex`,
/// whatever else the filter says (`HELPFUL` among it); a harmful or maw
/// filter finds nothing.
pub proof fn law_aura_by_index_filters(
    unit: Seq<char>,
    index: i32,
    filter: Option<Seq<char>>,
    buffs: Seq<Aura>,
    blocked: Set<(Seq<char>, i32)>,
)
    ensures
        (filter matches Some(f) ==> !spec_contains(f, "HARMFUL"@) && !spec_contains(f, "MAW"@))
            ==> spec_aura_by_index(unit, index, filter, buffs, blocked) == spec_buff_by_index(
            unit,
            index,
            buffs,
            blocked,
        ),
        (filter matches Some(f) && (spec_contains(f, "HARMFUL"@) || spec_contains(f, "MAW"@)))
            ==> spec_aura_by_index(unit, index, filter, buffs, blocked) is None,
        unit == "player"@ && 1 <= index <= spec_visible(buffs, blocked_ids(blocked, "player"@)).len() ==> (
        spec_buff_by_index(unit, index, buffs, blocked) matches Some(k) && 0 <= k < buffs.len()
            && !blocked.contains(("player"@, buffs[k].aura_instance_id)) && spec_visible(
            buffs.subrange(0, k),
            blocked_ids(blocked, "player"@),
        ).len() == index - 1),
{
    let b = blocked_ids(blocked, "player"@);
    lemma_visible_positions(buffs, b);
    if unit == "player"@ && 1 <= index <= spec_visible(buffs, b).len() {
        lemma_visible_rank(buffs, b, index - 1);
    }
}

/// The `j`-th visible buff has exactly `j` visible buffs before it.
proof fn lemma_visible_rank(buffs: Seq<Aura>, blocked: Set<i32>, j: int)
    requires
        0 <= j < spec_visible(buffs, blocked).len(),
    ensures
        0 <= spec_visible(buffs, blocked)[j] < buffs.len(),
        spec_visible(buffs.subrange(0, spec_visible(buffs, blocked)[j]), blocked).len() == j,
    decreases buffs.len(),
{
    lemma_visible_positions(buffs, blocked);
    let v = spec_visible(buffs, blocked);
    let t = buffs.drop_last();
    let w = spec_visible(t, blocked);
    lemma_visible_positions(t, blocked);
    if j < w.len() {
        assert(v[j] == w[j]);
        lemma_visible_rank(t, blocked, j);
        assert(t.subrange(0, w[j]) =~= buffs.subrange(0, w[j]));
    } else {
        assert(v[j] == buffs.len() - 1);
        assert(buffs.subrange(0, buffs.len() - 1) =~= t);
    }
}

} // verus!
