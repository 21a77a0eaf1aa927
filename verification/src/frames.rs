//! The frame-close verbs: each clears its frame's open flag and names the
//! event to fire. Flags are cleared every time and the event always fires.

use vstd::prelude::*;

verus! {

/// Which interaction frames are open.
#[derive(Clone, Copy)]
pub struct OpenFrames {
    pub bank_frame_open: bool,
    pub guild_bank_frame_open: bool,
    pub merchant_frame_open: bool,
    pub tabard_frame_open: bool,
    pub trainer_frame_open: bool,
    pub socket_frame_open: bool,
    pub loot_frame_open: bool,
    pub guild_registrar_open: bool,
    pub pet_stables_open: bool,
}

/// The close verbs.
#[derive(Clone, Copy)]
pub enum CloseVerb {
    /// `CloseBankFrame`
    BankFrame,
    /// `CloseGuildBankFrame`
    GuildBankFrame,
    /// `CloseMerchant`
    Merchant,
    /// `CloseTabardCreation`
    TabardCreation,
    /// `CloseTrainerFrame`
    TrainerFrame,
    /// `CloseSocketInfo`
    SocketInfo,
    /// `CloseLoot`
    Loot,
    /// `CloseGuildRegistrar`
    GuildRegistrar,
    /// `ClosePetStables`
    PetStables,
}

/// The event a close verb fires.
pub open spec fn spec_close_event(verb: CloseVerb) -> &'static str {
    match verb {
        CloseVerb::BankFrame => "BANKFRAME_CLOSED",
        CloseVerb::GuildBankFrame => "GUILDBANKFRAME_CLOSED",
        CloseVerb::Merchant => "MERCHANT_CLOSED",
        CloseVerb::TabardCreation => "TABARD_CANCELED",
        CloseVerb::TrainerFrame => "TRAINER_CLOSED",
        CloseVerb::SocketInfo => "SOCKET_INFO_CLOSE",
        CloseVerb::Loot => "LOOT_CLOSED",
        CloseVerb::GuildRegistrar => "PETITION_CLOSED",
        CloseVerb::PetStables => "PET_STABLE_CLOSED",
    }
}

/// The flags after a close verb: its frame's flag cleared, the rest kept.
pub open spec fn spec_close(f: OpenFrames, verb: CloseVerb) -> OpenFrames {
    match verb {
        CloseVerb::BankFrame => OpenFrames { bank_frame_open: false, ..f },
        CloseVerb::GuildBankFrame => OpenFrames { guild_bank_frame_open: false, ..f },
        CloseVerb::Merchant => OpenFrames { merchant_frame_open: false, ..f },
        CloseVerb::TabardCreation => OpenFrames { tabard_frame_open: false, ..f },
        CloseVerb::TrainerFrame => OpenFrames { trainer_frame_open: false, ..f },
        CloseVerb::SocketInfo => OpenFrames { socket_frame_open: false, ..f },
        CloseVerb::Loot => OpenFrames { loot_frame_open: false, ..f },
        CloseVerb::GuildRegistrar => OpenFrames { guild_registrar_open: false, ..f },
        CloseVerb::PetStables => OpenFrames { pet_stables_open: false, ..f },
    }
}

/// Runs a close verb and returns the event it fires.
pub fn close_frame(frames: &mut OpenFrames, verb: CloseVerb) -> (event: &'static str)
    ensures
        *final(frames) == spec_close(*old(frames), verb),
        event == spec_close_event(verb),
{
    match verb {
        CloseVerb::BankFrame => {
            frames.bank_frame_open = false;
            "BANKFRAME_CLOSED"
        },
        CloseVerb::GuildBankFrame => {
            frames.guild_bank_frame_open = false;
            "GUILDBANKFRAME_CLOSED"
        },
        CloseVerb::Merchant => {
            frames.merchant_frame_open = false;
            "MERCHANT_CLOSED"
        },
        CloseVerb::TabardCreation => {
            frames.tabard_frame_open = false;
            "TABARD_CANCELED"
        },
        CloseVerb::TrainerFrame => {
            frames.trainer_frame_open = false;
            "TRAINER_CLOSED"
        },
        CloseVerb::SocketInfo => {
            frames.socket_frame_open = false;
            "SOCKET_INFO_CLOSE"
        },
        CloseVerb::Loot => {
            frames.loot_frame_open = false;
            "LOOT_CLOSED"
        },
        CloseVerb::GuildRegistrar => {
            frames.guild_registrar_open = false;
            "PETITION_CLOSED"
        },
        CloseVerb::PetStables => {
            frames.pet_stables_open = false;
            "PET_STABLE_CLOSED"
        },
    }
}

/// Closing is idempotent: closing the same frame twice leaves the flags as
/// closing it once, and the second close fires the same event again.
pub proof fn law_close_idempotent(f: OpenFrames, verb: CloseVerb)
    ensures
        spec_close(spec_close(f, verb), verb) == spec_close(f, verb),
{
}

/// One step of the frame-children iterator: after position `prev_index`
/// (0 to start), the next 1-based position and the child there, or nothing
/// past the last child or for a position before the start.
pub open spec fn spec_next_child(children: Seq<u64>, prev_index: i64) -> Option<(usize, u64)> {
    if 0 <= prev_index < children.len() {
        Some(((prev_index + 1) as usize, children[prev_index as int]))
    } else {
        None
    }
}

pub fn next_child(children: &Vec<u64>, prev_index: i64) -> (r: Option<(usize, u64)>)
    requires
        prev_index != -1,
        prev_index != i64::MAX,
    ensures
        r == spec_next_child(children@, prev_index),
{
    if prev_index < 0 {
        return None;
    }
    let k = prev_index as u64;
    if k < children.len() as u64 {
        let i = k as usize;
        Some((i + 1, children[i]))
    } else {
        None
    }
}

} // verus!
