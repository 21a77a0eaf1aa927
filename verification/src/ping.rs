//! `C_Ping`: the ping options and the texture kit of each ping type.

use vstd::prelude::*;

verus! {

/// The texture kit of a ping type: Attack, Warning, Assist, OnMyWay,
/// Threat and NonThreat for types 0 to 5, none for any other.
pub open spec fn spec_ping_texture_kit(ping_type: i64) -> Option<&'static str> {
    if ping_type == 0 {
        Some("Attack")
    } else if ping_type == 1 {
        Some("Warning")
    } else if ping_type == 2 {
        Some("Assist")
    } else if ping_type == 3 {
        Some("OnMyWay")
    } else if ping_type == 4 {
        Some("Threat")
    } else if ping_type == 5 {
        Some("NonThreat")
    } else {
        None
    }
}

/// `C_Ping.GetTextureKitForType(pingType)`.
pub fn ping_texture_kit(ping_type: i64) -> (r: Option<&'static str>)
    ensures
        r == spec_ping_texture_kit(ping_type),
{
    if ping_type == 0 {
        Some("Attack")
    } else if ping_type == 1 {
        Some("Warning")
    } else if ping_type == 2 {
        Some("Assist")
    } else if ping_type == 3 {
        Some("OnMyWay")
    } else if ping_type == 4 {
        Some("Threat")
    } else if ping_type == 5 {
        Some("NonThreat")
    } else {
        None
    }
}

/// A default ping option: its order index (also its type) and texture kit.
pub struct PingOption {
    pub order_index: i32,
    pub texture_kit: &'static str,
}

/// `C_Ping.GetDefaultPingOptions()`: the first four ping types, in order,
/// each with the texture kit of its type.
pub fn default_ping_options() -> (r: Vec<PingOption>)
    ensures
        r@.len() == 4,
        forall|i: int|
            0 <= i < 4 ==> (#[trigger] r@[i]).order_index == i && spec_ping_texture_kit(i as i64) == Some(
                r@[i].texture_kit,
            ),
{
    let mut r: Vec<PingOption> = Vec::new();
    let mut i: i32 = 0;
    while i < 4
        invariant
            0 <= i <= 4,
            r@.len() == i,
            forall|j: int|
                0 <= j < i ==> (#[trigger] r@[j]).order_index == j && spec_ping_texture_kit(j as i64) == Some(
                    r@[j].texture_kit,
                ),
        decreases 4 - i,
    {
        let kit = match ping_texture_kit(i as i64) {
            Some(k) => k,
            None => "",
        };
        r.push(PingOption { order_index: i, texture_kit: kit });
        i = i + 1;
    }
    r
}

} // verus!
