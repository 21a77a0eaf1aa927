//! The player's joined chat channels and the channel verbs that change them.
//!
//! Channel numbers are 1-based positions in the joined list.

use vstd::prelude::*;
use crate::name_set::{contains_name, insert_name, name_set, names_distinct, remove_name};
use crate::search::{lemma_find_first_end, lemma_find_first_start, lemma_find_first_step, position_first};
use crate::text::{format_i64, format_u64, parse_usize, spec_decimal, spec_decimal_int, spec_parse_usize, str_eq};

verus! {

/// A joined chat channel.
pub struct ChatChannel {
    pub name: String,
    pub members: Vec<String>,
    pub banned: Vec<String>,
    pub moderators: Vec<String>,
}

/// What a channel holds: its name and three sets of player names.
pub struct ChannelView {
    pub name: Seq<char>,
    pub members: Set<Seq<char>>,
    pub banned: Set<Seq<char>>,
    pub moderators: Set<Seq<char>>,
}

impl View for ChatChannel {
    type V = ChannelView;

    open spec fn view(&self) -> ChannelView {
        ChannelView {
            name: self.name@,
            members: name_set(self.members@),
            banned: name_set(self.banned@),
            moderators: name_set(self.moderators@),
        }
    }
}

impl ChatChannel {
    /// No player is listed twice in any of the channel's lists.
    pub open spec fn wf(&self) -> bool {
        names_distinct(self.members@) && names_distinct(self.banned@) && names_distinct(
            self.moderators@,
        )
    }

    /// A fresh channel: a name and nobody in it.
    pub fn new(name: String) -> (r: ChatChannel)
        ensures
            r.wf(),
            r@.name == name@,
            r@.members == Set::<Seq<char>>::empty(),
            r@.banned == Set::<Seq<char>>::empty(),
            r@.moderators == Set::<Seq<char>>::empty(),
    {
        let r = ChatChannel { name, members: Vec::new(), banned: Vec::new(), moderators: Vec::new() };
        assert(name_set(r.members@) =~= Set::<Seq<char>>::empty());
        assert(name_set(r.banned@) =~= Set::<Seq<char>>::empty());
        assert(name_set(r.moderators@) =~= Set::<Seq<char>>::empty());
        r
    }
}

/// Every channel of the list is well formed.
pub open spec fn channels_wf(chs: Seq<ChatChannel>) -> bool {
    forall|i: int| 0 <= i < chs.len() ==> (#[trigger] chs[i]).wf()
}

/// A channel is consistent when every moderator is a member and no banned
/// player is a member.
pub open spec fn channel_consistent(c: ChannelView) -> bool {
    &&& c.moderators.subset_of(c.members)
    &&& c.members.disjoint(c.banned)
}

pub open spec fn channels_consistent(chs: Seq<ChatChannel>) -> bool {
    forall|i: int| 0 <= i < chs.len() ==> channel_consistent((#[trigger] chs[i])@)
}

pub open spec fn channel_named(name: Seq<char>) -> spec_fn(ChatChannel) -> bool {
    |c: ChatChannel| c.name@ == name
}

/// Position of the first channel with the given name.
pub open spec fn spec_channel_index(chs: Seq<ChatChannel>, name: Seq<char>) -> Option<int> {
    position_first(chs, channel_named(name))
}

pub fn channel_index(chs: &Vec<ChatChannel>, name: &str) -> (r: Option<usize>)
    ensures
        r matches Some(k) ==> spec_channel_index(chs@, name@) == Some(k as int),
        r is None ==> spec_channel_index(chs@, name@) is None,
{
    let ghost p = channel_named(name@);
    proof {
        lemma_find_first_start(chs@);
    }
    let mut i: usize = 0;
    while i < chs.len()
        invariant
            i <= chs@.len(),
            p == channel_named(name@),
            position_first(chs@, p) == (match position_first(
                chs@.subrange(i as int, chs@.len() as int),
                p,
            ) {
                Some(k) => Some(k + i),
                None => None,
            }),
        decreases chs.len() - i,
    {
        proof {
            lemma_find_first_step(chs@, p, i as int);
        }
        if str_eq(chs[i].name.as_str(), name) {
            return Some(i);
        }
        i = i + 1;
    }
    proof {
        lemma_find_first_end(chs@, p);
    }
    None
}

/// The list after channel `k` was replaced by `c`, every other unchanged.
pub open spec fn replaced_at(old_chs: Seq<ChatChannel>, new_chs: Seq<ChatChannel>, k: int, c: ChannelView) -> bool {
    &&& new_chs.len() == old_chs.len()
    &&& new_chs[k]@ == c
    &&& new_chs[k].wf()
    &&& forall|j: int| 0 <= j < old_chs.len() && j != k ==> new_chs[j] == old_chs[j]
}

/// `after` is `before` once `name` was joined: unchanged when the name is
/// empty or already joined, else with a fresh, empty channel of that name
/// appended.
pub open spec fn spec_joined(before: Seq<ChatChannel>, after: Seq<ChatChannel>, name: Seq<char>) -> bool {
    if name.len() == 0 || spec_channel_index(before, name) is Some {
        after == before
    } else {
        &&& after.len() == before.len() + 1
        &&& after.subrange(0, before.len() as int) == before
        &&& after.last()@ == ChannelView {
            name: name,
            members: Set::empty(),
            banned: Set::empty(),
            moderators: Set::empty(),
        }
    }
}

/// `JoinChannelByName(name)` / `JoinTemporaryChannel(name)`: appends a new
/// channel unless the name is empty or already joined.
pub fn join_channel(chs: &mut Vec<ChatChannel>, name: &str)
    requires
        channels_wf(old(chs)@),
    ensures
        channels_wf(final(chs)@),
        channels_consistent(old(chs)@) ==> channels_consistent(final(chs)@),
        spec_joined(old(chs)@, final(chs)@, name@),
{
    if name.unicode_len() == 0 {
        return;
    }
    if channel_index(chs, name).is_some() {
        return;
    }
    let ghost s = chs@;
    let c = ChatChannel::new(String::from_str(name));
    chs.push(c);
    proof {
        assert(chs@.subrange(0, s.len() as int) =~= s);
        assert forall|i: int| 0 <= i < chs@.len() implies (#[trigger] chs@[i]).wf() by {
            if i < s.len() {
                assert(chs@[i] == s[i]);
            }
        }
        if channels_consistent(s) {
            assert forall|i: int| 0 <= i < chs@.len() implies channel_consistent((#[trigger] chs@[i])@) by {
                if i < s.len() {
                    assert(chs@[i] == s[i]);
                }
            }
        }
    }
}

/// `ChannelLeave(name)`: drops every channel with that name; nothing for an
/// empty name.
pub open spec fn spec_without_channel(chs: Seq<ChatChannel>, name: Seq<char>) -> Seq<ChatChannel>
    decreases chs.len(),
{
    if chs.len() == 0 {
        Seq::empty()
    } else if chs.last().name@ == name {
        spec_without_channel(chs.drop_last(), name)
    } else {
        spec_without_channel(chs.drop_last(), name).push(chs.last())
    }
}

proof fn lemma_without_channel_members(chs: Seq<ChatChannel>, name: Seq<char>)
    ensures
        forall|i: int| 0 <= i < spec_without_channel(chs, name).len() ==> exists|j: int|
            0 <= j < chs.len() && chs[j] == #[trigger] spec_without_channel(chs, name)[i],
    decreases chs.len(),
{
    if chs.len() > 0 {
        lemma_without_channel_members(chs.drop_last(), name);
        let rest = spec_without_channel(chs.drop_last(), name);
        assert forall|i: int| 0 <= i < spec_without_channel(chs, name).len() implies exists|j: int|
            0 <= j < chs.len() && chs[j] == #[trigger] spec_without_channel(chs, name)[i] by {
            if i < rest.len() {
                let j = choose|j: int| 0 <= j < chs.drop_last().len() && chs.drop_last()[j] == rest[i];
                assert(chs[j] == rest[i]);
            } else {
                assert(chs[chs.len() - 1] == chs.last());
            }
        }
    }
}

pub fn leave_channel(chs: &mut Vec<ChatChannel>, name: &str)
    requires
        channels_wf(old(chs)@),
    ensures
        channels_wf(final(chs)@),
        channels_consistent(old(chs)@) ==> channels_consistent(final(chs)@),
        final(chs)@ == (if name@.len() == 0 {
            old(chs)@
        } else {
            spec_without_channel(old(chs)@, name@)
        }),
{
    if name.unicode_len() == 0 {
        return;
    }
    let ghost s = chs@;
    let mut kept: Vec<ChatChannel> = Vec::new();
    let mut taken: usize = 0;
    let total = chs.len();
    assert(s.subrange(0, 0) =~= Seq::<ChatChannel>::empty());
    assert(s.subrange(0, s.len() as int) =~= s);
    while chs.len() > 0
        invariant
            total == s.len(),
            taken <= s.len(),
            chs@ == s.subrange(taken as int, s.len() as int),
            kept@ == spec_without_channel(s.subrange(0, taken as int), name@),
        decreases chs.len(),
    {
        let c = chs.remove(0);
        proof {
            assert(c == s[taken as int]);
            let next = s.subrange(0, taken + 1);
            assert(next.drop_last() =~= s.subrange(0, taken as int));
            assert(next.last() == c);
            assert(chs@ =~= s.subrange(taken + 1, s.len() as int));
        }
        if !str_eq(c.name.as_str(), name) {
            kept.push(c);
        }
        taken = taken + 1;
    }
    assert(s.subrange(0, taken as int) =~= s);
    proof {
        lemma_without_channel_members(s, name@);
        assert forall|i: int| 0 <= i < kept@.len() implies (#[trigger] kept@[i]).wf() by {
            let j = choose|j: int| 0 <= j < s.len() && s[j] == kept@[i];
        }
        if channels_consistent(s) {
            assert forall|i: int| 0 <= i < kept@.len() implies channel_consistent((#[trigger] kept@[i])@) by {
                let j = choose|j: int| 0 <= j < s.len() && s[j] == kept@[i];
            }
        }
    }
    *chs = kept;
}


proof fn lemma_replace_keeps(s: Seq<ChatChannel>, k: int, c: ChatChannel)
    requires
        0 <= k < s.len(),
        channels_wf(s),
        c.wf(),
    ensures
        channels_wf(s.update(k, c)),
        channels_consistent(s) && channel_consistent(c@) ==> channels_consistent(s.update(k, c)),
        replaced_at(s, s.update(k, c), k, c@),
{
    let t = s.update(k, c);
    assert forall|i: int| 0 <= i < t.len() implies (#[trigger] t[i]).wf() by {
        if i != k {
            assert(t[i] == s[i]);
        }
    }
    if channels_consistent(s) && channel_consistent(c@) {
        assert forall|i: int| 0 <= i < t.len() implies channel_consistent((#[trigger] t[i])@) by {
            if i != k {
                assert(t[i] == s[i]);
            }
        }
    }
}

/// The player verbs that change one channel's lists.
pub enum PlayerVerb {
    /// `ChannelBan`: banned, and no longer a member or moderator.
    Ban,
    /// `ChannelInvite`: made a member unless banned.
    Invite,
    /// `ChannelKick`: no longer a member or moderator (not banned).
    Kick,
    /// `ChannelModerator`: made a moderator if a member.
    Moderator,
    /// `ChannelUnmoderator`: no longer a moderator.
    Unmoderator,
}

/// What a player verb makes of a channel.
pub open spec fn spec_apply_verb(c: ChannelView, verb: PlayerVerb, player: Seq<char>) -> ChannelView {
    match verb {
        PlayerVerb::Ban => ChannelView {
            banned: c.banned.insert(player),
            members: c.members.remove(player),
            moderators: c.moderators.remove(player),
            ..c
        },
        PlayerVerb::Invite => if c.banned.contains(player) {
            c
        } else {
            ChannelView { members: c.members.insert(player), ..c }
        },
        PlayerVerb::Kick => ChannelView {
            members: c.members.remove(player),
            moderators: c.moderators.remove(player),
            ..c
        },
        PlayerVerb::Moderator => if c.members.contains(player) {
            ChannelView { moderators: c.moderators.insert(player), ..c }
        } else {
            c
        },
        PlayerVerb::Unmoderator => ChannelView { moderators: c.moderators.remove(player), ..c },
    }
}

/// Applies a player verb to the first channel with the given name; nothing
/// happens when either name is empty or no such channel is joined.
pub fn apply_player_verb(chs: &mut Vec<ChatChannel>, channel: &str, player: &str, verb: PlayerVerb)
    requires
        channels_wf(old(chs)@),
    ensures
        channels_wf(final(chs)@),
        channels_consistent(old(chs)@) ==> channels_consistent(final(chs)@),
        if channel@.len() == 0 || player@.len() == 0 {
            final(chs)@ == old(chs)@
        } else {
            match spec_channel_index(old(chs)@, channel@) {
                None => final(chs)@ == old(chs)@,
                Some(k) => replaced_at(
                    old(chs)@,
                    final(chs)@,
                    k,
                    spec_apply_verb(old(chs)@[k]@, verb, player@),
                ),
            }
        },
{
    if channel.unicode_len() == 0 || player.unicode_len() == 0 {
        return;
    }
    let k = match channel_index(chs, channel) {
        Some(k) => k,
        None => return,
    };
    proof {
        crate::search::lemma_find_first_meaning(chs@, channel_named(channel@));
    }
    let ghost s = chs@;
    let mut c = chs.remove(k);
    assert(c == s[k as int]);
    assert(c.wf());
    let ghost before = c@;
    match verb {
        PlayerVerb::Ban => {
            insert_name(&mut c.banned, player);
            remove_name(&mut c.members, player);
            remove_name(&mut c.moderators, player);
        },
        PlayerVerb::Invite => {
            if !contains_name(&c.banned, player) {
                insert_name(&mut c.members, player);
            }
        },
        PlayerVerb::Kick => {
            remove_name(&mut c.members, player);
            remove_name(&mut c.moderators, player);
        },
        PlayerVerb::Moderator => {
            if contains_name(&c.members, player) {
                insert_name(&mut c.moderators, player);
            }
        },
        PlayerVerb::Unmoderator => {
            remove_name(&mut c.moderators, player);
        },
    }
    assert(c@ == spec_apply_verb(before, verb, player@));
    proof {
        if channel_consistent(before) {
            let a = spec_apply_verb(before, verb, player@);
            assert(a.moderators.subset_of(a.members));
            assert(a.members.disjoint(a.banned));
        }
    }
    chs.insert(k, c);
    proof {
        assert(chs@ =~= s.update(k as int, c));
        lemma_replace_keeps(s, k as int, c);
    }
}

/// The list with the channels at 1-based positions `a` and `b` swapped, or
/// unchanged when either is out of range.
pub open spec fn spec_swap(chs: Seq<ChatChannel>, a: int, b: int) -> Seq<ChatChannel> {
    if 1 <= a <= chs.len() && 1 <= b <= chs.len() {
        chs.update(a - 1, chs[b - 1]).update(b - 1, chs[a - 1])
    } else {
        chs
    }
}

/// `SwapChatChannelLinks(a, b)`: swaps the channels at 1-based positions
/// `a` and `b`; nothing happens when either is out of range.
#[verifier::spinoff_prover]
#[verifier::rlimit(30)]
pub fn swap_channels(chs: &mut Vec<ChatChannel>, a: i32, b: i32)
    requires
        channels_wf(old(chs)@),
    ensures
        channels_wf(final(chs)@),
        channels_consistent(old(chs)@) ==> channels_consistent(final(chs)@),
        final(chs)@ == spec_swap(old(chs)@, a as int, b as int),
{
    if a < 1 || b < 1 {
        return;
    }
    let a0 = (a - 1) as usize;
    let b0 = (b - 1) as usize;
    let len = chs.len();
    if a0 < len && b0 < len {
        let ghost s = chs@;
        if a0 != b0 {
            let (lo, hi) = if a0 < b0 {
                (a0, b0)
            } else {
                (b0, a0)
            };
            let x = chs.remove(hi);
            let y = chs.remove(lo);
            chs.insert(lo, x);
            chs.insert(hi, y);
            assert(chs@ =~= s.update(a0 as int, s[b0 as int]).update(b0 as int, s[a0 as int]));
        } else {
            assert(chs@ =~= s.update(a0 as int, s[b0 as int]).update(b0 as int, s[a0 as int]));
        }
        proof {
            let t = chs@;
            assert forall|i: int| 0 <= i < t.len() implies (#[trigger] t[i]).wf() by {
                if i == a0 {
                    assert(t[i] == s[b0 as int]);
                } else if i == b0 {
                    assert(t[i] == s[a0 as int]);
                } else {
                    assert(t[i] == s[i]);
                }
            }
            if channels_consistent(s) {
                assert forall|i: int| 0 <= i < t.len() implies channel_consistent((#[trigger] t[i])@) by {
                    if i == a0 {
                        assert(t[i] == s[b0 as int]);
                    } else if i == b0 {
                        assert(t[i] == s[a0 as int]);
                    } else {
                        assert(t[i] == s[i]);
                    }
                }
            }
        }
    }
}

/// A copy of a channel with the same name and lists.
impl Clone for ChatChannel {
    fn clone(&self) -> (r: ChatChannel)
        ensures
            r.name@ == self.name@,
            r.members@ == self.members@,
            r.banned@ == self.banned@,
            r.moderators@ == self.moderators@,
    {
        let r = ChatChannel {
            name: self.name.clone(),
            members: self.members.clone(),
            banned: self.banned.clone(),
            moderators: self.moderators.clone(),
        };
        assert(r.members@ =~= self.members@);
        assert(r.banned@ =~= self.banned@);
        assert(r.moderators@ =~= self.moderators@);
        r
    }
}

/// The channel that an identifier names, as a 1-based local id: a positive
/// number is a position in the list (no name lookup then, even when out of
/// range); anything else is looked up as a name.
pub open spec fn spec_find_channel(chs: Seq<ChatChannel>, identifier: Seq<char>) -> Option<int> {
    match spec_parse_usize(identifier) {
        Some(n) if n > 0 => if n <= chs.len() {
            Some(n as int)
        } else {
            None
        },
        _ => match spec_channel_index(chs, identifier) {
            Some(k) => Some(k + 1),
            None => None,
        },
    }
}

/// `GetChannelName` / `C_ChatInfo.GetChannelInfoFromIdentifier` lookup:
/// the local id and a copy of the channel.
pub fn find_channel(chs: &Vec<ChatChannel>, identifier: &str) -> (r: Option<(usize, ChatChannel)>)
    ensures
        match spec_find_channel(chs@, identifier@) {
            None => r is None,
            Some(id) => r matches Some((local_id, c)) && local_id == id && c.name@ == chs@[id
                - 1].name@ && c.members@ == chs@[id - 1].members@ && c.banned@ == chs@[id
                - 1].banned@ && c.moderators@ == chs@[id - 1].moderators@,
        },
{
    match parse_usize(identifier) {
        Some(n) => {
            if n > 0 {
                if n <= chs.len() {
                    return Some((n, chs[n - 1].clone()));
                } else {
                    return None;
                }
            }
        },
        None => {},
    }
    match channel_index(chs, identifier) {
        Some(k) => {
            proof {
                crate::search::lemma_find_first_meaning(chs@, channel_named(identifier@));
            }
            assert(k < chs.len());
            Some((k + 1, chs[k].clone()))
        },
        None => None,
    }
}

/// The first channel with the given name, to be changed in place.
pub fn ensure_channel<'a>(chs: &'a mut Vec<ChatChannel>, name: &str) -> (r: Option<&'a mut ChatChannel>)
    ensures
        match spec_channel_index(old(chs)@, name@) {
            None => r is None && final(chs)@ == old(chs)@,
            Some(k) => r matches Some(c) && *c == old(chs)@[k] && final(chs)@ == old(chs)@.update(
                k,
                *final(c),
            ),
        },
{
    match channel_index(chs, name) {
        Some(k) => {
            proof {
                crate::search::lemma_find_first_meaning(chs@, channel_named(name@));
            }
            Some(&mut chs[k])
        },
        None => None,
    }
}

/// Zone channels (`General`, `Trade`, `LocalDefense`, `LookingForGroup`)
/// have channel type 1; every other channel is custom, type 3.
pub open spec fn spec_channel_type(name: Seq<char>) -> i32 {
    if name == "General"@ || name == "Trade"@ || name == "LocalDefense"@ || name
        == "LookingForGroup"@ {
        1
    } else {
        3
    }
}

pub fn channel_type(name: &str) -> (r: i32)
    ensures
        r == spec_channel_type(name@),
{
    if str_eq(name, "General") || str_eq(name, "Trade") || str_eq(name, "LocalDefense") || str_eq(
        name,
        "LookingForGroup",
    ) {
        1
    } else {
        3
    }
}

/// What `C_ChatInfo.GetChannelInfoFromIdentifier` reports of a channel.
pub struct ChannelInfo {
    pub name: String,
    pub shortcut: String,
    pub local_id: usize,
    pub instance_id: usize,
    pub zone_channel_id: usize,
    pub channel_type: i32,
}

pub fn build_channel_info(local_id: usize, channel: &ChatChannel) -> (r: ChannelInfo)
    ensures
        r.name@ == channel.name@,
        r.shortcut@ == spec_decimal(local_id as nat),
        r.local_id == local_id,
        r.instance_id == 0,
        r.zone_channel_id == local_id,
        r.channel_type == spec_channel_type(channel.name@),
{
    ChannelInfo {
        name: channel.name.clone(),
        shortcut: format_u64(local_id as u64),
        local_id,
        instance_id: 0,
        zone_channel_id: local_id,
        channel_type: channel_type(channel.name.as_str()),
    }
}

/// `GetChannelList()`: each joined channel's local id and name, in order.
pub fn channel_list(chs: &Vec<ChatChannel>) -> (r: Vec<(usize, String)>)
    ensures
        r@.len() == chs@.len(),
        forall|i: int| 0 <= i < chs@.len() ==> (#[trigger] r@[i]).0 == i + 1 && r@[i].1@ == chs@[i].name@,
{
    let mut r: Vec<(usize, String)> = Vec::new();
    let mut i: usize = 0;
    while i < chs.len()
        invariant
            i <= chs@.len(),
            r@.len() == i,
            forall|j: int| 0 <= j < i ==> (#[trigger] r@[j]).0 == j + 1 && r@[j].1@ == chs@[j].name@,
        decreases chs.len() - i,
    {
        r.push((i + 1, chs[i].name.clone()));
        i = i + 1;
    }
    r
}

/// `C_ChatInfo.GetGeneralChannelLocalID()`: the local id of `General`.
pub fn general_channel_local_id(chs: &Vec<ChatChannel>) -> (r: Option<usize>)
    ensures
        match spec_channel_index(chs@, "General"@) {
            Some(k) => r == Some((k + 1) as usize),
            None => r is None,
        },
{
    match channel_index(chs, "General") {
        Some(k) => {
            proof {
                crate::search::lemma_find_first_meaning(chs@, channel_named("General"@));
            }
            assert(k < chs.len());
            Some(k + 1)
        },
        None => None,
    }
}

/// `C_ChatInfo.GetChannelShortcut(id)`: the id in decimal.
pub fn channel_shortcut(channel_id: i32) -> (r: String)
    ensures
        r@ == spec_decimal_int(channel_id as int),
{
    format_i64(channel_id as i64)
}

proof fn lemma_named_is_found(chs: Seq<ChatChannel>, name: Seq<char>, i: int)
    requires
        0 <= i < chs.len(),
        chs[i].name@ == name,
    ensures
        spec_channel_index(chs, name) is Some,
{
    crate::search::lemma_find_first_meaning(chs, channel_named(name));
    if spec_channel_index(chs, name) is None {
        assert(!channel_named(name)(chs[i]));
    }
}

/// Joining is idempotent: joining the same name a second time changes
/// nothing.
pub proof fn law_join_idempotent(
    a: Seq<ChatChannel>,
    b: Seq<ChatChannel>,
    c: Seq<ChatChannel>,
    name: Seq<char>,
)
    requires
        spec_joined(a, b, name),
        spec_joined(b, c, name),
    ensures
        c == b,
{
    if name.len() > 0 && spec_channel_index(a, name) is None {
        lemma_named_is_found(b, name, b.len() - 1);
    }
}

/// After joining a non-empty name, a channel of that name is joined.
pub proof fn law_join_then_found(a: Seq<ChatChannel>, b: Seq<ChatChannel>, name: Seq<char>)
    requires
        spec_joined(a, b, name),
        name.len() > 0,
    ensures
        spec_channel_index(b, name) is Some,
{
    if spec_channel_index(a, name) is None {
        lemma_named_is_found(b, name, b.len() - 1);
    }
}

proof fn lemma_without_channel_names(chs: Seq<ChatChannel>, name: Seq<char>)
    ensures
        forall|i: int| 0 <= i < spec_without_channel(chs, name).len() ==> (#[trigger] spec_without_channel(chs, name)[i]).name@ != name,
    decreases chs.len(),
{
    if chs.len() > 0 {
        lemma_without_channel_names(chs.drop_last(), name);
        let rest = spec_without_channel(chs.drop_last(), name);
        let t = spec_without_channel(chs, name);
        assert forall|i: int| 0 <= i < t.len() implies (#[trigger] t[i]).name@ != name by {
            if chs.last().name@ != name && i == rest.len() {
                assert(t[i] == chs.last());
            } else {
                assert(t[i] == rest[i]);
            }
        }
    }
}

/// After leaving a channel, no channel of that name is left.
pub proof fn law_leave_then_absent(chs: Seq<ChatChannel>, name: Seq<char>)
    ensures
        spec_channel_index(spec_without_channel(chs, name), name) is None,
{
    let t = spec_without_channel(chs, name);
    lemma_without_channel_names(chs, name);
    crate::search::lemma_find_first_meaning(t, channel_named(name));
}

/// Swapping the same two positions twice restores the list.
pub proof fn law_swap_twice(chs: Seq<ChatChannel>, a: int, b: int)
    ensures
        spec_swap(spec_swap(chs, a, b), a, b) == chs,
{
    assert(spec_swap(spec_swap(chs, a, b), a, b) =~= chs);
}

/// A banned player is neither a member nor a moderator, and an invitation
/// does not bring them back.
pub proof fn law_ban_excludes(c: ChannelView, player: Seq<char>)
    ensures
        spec_apply_verb(c, PlayerVerb::Ban, player).banned.contains(player),
        !spec_apply_verb(c, PlayerVerb::Ban, player).members.contains(player),
        !spec_apply_verb(c, PlayerVerb::Ban, player).moderators.contains(player),
        spec_apply_verb(spec_apply_verb(c, PlayerVerb::Ban, player), PlayerVerb::Invite, player)
            == spec_apply_verb(c, PlayerVerb::Ban, player),
{
}

/// Every player verb keeps a channel consistent: moderators stay members
/// and no banned player is a member.
pub proof fn law_verbs_keep_consistent(c: ChannelView, verb: PlayerVerb, player: Seq<char>)
    requires
        channel_consistent(c),
    ensures
        channel_consistent(spec_apply_verb(c, verb, player)),
{
}

/// A channel's local id, written in decimal, finds that channel again.
pub proof fn law_find_channel_by_local_id(chs: Seq<ChatChannel>, i: int)
    requires
        0 <= i < chs.len(),
        chs.len() <= usize::MAX,
    ensures
        spec_find_channel(chs, spec_decimal((i + 1) as nat)) == Some(i + 1),
{
    crate::text::law_parse_formatted_usize((i + 1) as nat);
}

/// Every player verb is idempotent: applying it twice is applying it once.
pub proof fn law_verbs_idempotent(c: ChannelView, verb: PlayerVerb, player: Seq<char>)
    ensures
        spec_apply_verb(spec_apply_verb(c, verb, player), verb, player) == spec_apply_verb(c, verb, player),
{
    let once = spec_apply_verb(c, verb, player);
    let twice = spec_apply_verb(once, verb, player);
    assert(twice.members =~= once.members);
    assert(twice.banned =~= once.banned);
    assert(twice.moderators =~= once.moderators);
}

proof fn lemma_without_absent(chs: Seq<ChatChannel>, name: Seq<char>)
    requires
        spec_channel_index(chs, name) is None,
    ensures
        spec_without_channel(chs, name) == chs,
    decreases chs.len(),
{
    crate::search::lemma_find_first_meaning(chs, channel_named(name));
    if chs.len() > 0 {
        let rest = chs.drop_last();
        crate::search::lemma_find_first_meaning(rest, channel_named(name));
        if spec_channel_index(rest, name) is Some {
            let k = spec_channel_index(rest, name).unwrap();
            assert(chs[k] == rest[k]);
            assert(!channel_named(name)(chs[k]));
        }
        lemma_without_absent(rest, name);
        assert(!channel_named(name)(chs[chs.len() - 1]));
        assert(rest.push(chs.last()) =~= chs);
    }
}

/// Leaving a channel that was just joined restores the list as it was.
pub proof fn law_leave_undoes_join(a: Seq<ChatChannel>, b: Seq<ChatChannel>, name: Seq<char>)
    requires
        spec_joined(a, b, name),
        name.len() > 0,
        spec_channel_index(a, name) is None,
    ensures
        spec_without_channel(b, name) == a,
{
    assert(b.drop_last() =~= a);
    lemma_without_absent(a, name);
}

/// What each player verb does to one channel, player by player: no other
/// player's standing changes, and for the named player `ChannelBan` bans
/// and evicts, `ChannelInvite` admits unless banned, `ChannelKick` evicts
/// without a ban, `ChannelModerator` promotes a member, and
/// `ChannelUnmoderator` only revokes moderation: membership and bans stay.
pub proof fn law_player_verb_effects(c: ChannelView, verb: PlayerVerb, player: Seq<char>)
    ensures
        ({
            let r = spec_apply_verb(c, verb, player);
            &&& r.name == c.name
            &&& forall|q: Seq<char>| q != player ==> (#[trigger] r.members.contains(q)) == c.members.contains(q)
            &&& forall|q: Seq<char>| q != player ==> (#[trigger] r.banned.contains(q)) == c.banned.contains(q)
            &&& forall|q: Seq<char>| q != player ==> (#[trigger] r.moderators.contains(q)) == c.moderators.contains(q)
            &&& match verb {
                PlayerVerb::Ban => r.banned.contains(player) && !r.members.contains(player)
                    && !r.moderators.contains(player),
                PlayerVerb::Invite => r.banned == c.banned && r.moderators == c.moderators
                    && r.members.contains(player) == (c.members.contains(player) || !c.banned.contains(player)),
                PlayerVerb::Kick => r.banned == c.banned && !r.members.contains(player)
                    && !r.moderators.contains(player),
                PlayerVerb::Moderator => r.members == c.members && r.banned == c.banned
                    && r.moderators.contains(player) == (c.moderators.contains(player) || c.members.contains(player)),
                PlayerVerb::Unmoderator => r.members == c.members && r.banned == c.banned
                    && !r.moderators.contains(player),
            }
        }),
{
}

} // verus!
