//! Chat-frame facts the chat UI asks for: the numeric index of a chat type,
//! the default chat window info, and the console line log.

use vstd::prelude::*;
use crate::text::{format_i64, spec_decimal_int};
use vstd::utf8::encode_utf8;

verus! {

/// The 32-bit rolling hash of a byte string: each byte added to 31 times
/// the hash so far, wrapping at 2^32.
pub open spec fn spec_chat_type_hash(bytes: Seq<u8>) -> u32
    decreases bytes.len(),
{
    if bytes.len() == 0 {
        0
    } else {
        ((spec_chat_type_hash(bytes.drop_last()) as nat * 31 + bytes.last() as nat) % 0x1_0000_0000) as u32
    }
}

/// `GetChatTypeIndex(name)`: the hash of the name's UTF-8 bytes, folded to
/// 1..=50.
pub open spec fn spec_chat_type_index(name: Seq<char>) -> i32 {
    (spec_chat_type_hash(encode_utf8(name)) % 50 + 1) as i32
}

pub fn chat_type_index(name: &str) -> (r: i32)
    ensures
        r == spec_chat_type_index(name@),
        1 <= r <= 50,
{
    let bytes = name.as_bytes();
    let mut hash: u32 = 0;
    let mut i: usize = 0;
    while i < bytes.len()
        invariant
            i <= bytes@.len(),
            bytes@ == encode_utf8(name@),
            hash == spec_chat_type_hash(bytes@.subrange(0, i as int)),
        decreases bytes.len() - i,
    {
        let b = bytes[i];
        proof {
            let t = bytes@.subrange(0, i + 1);
            assert(t.drop_last() =~= bytes@.subrange(0, i as int));
            assert(t.last() == b);
            assert((hash as nat * 31) % 0x1_0000_0000 + (b as nat) < 0x2_0000_0000);
            assert(((((hash as nat * 31) % 0x1_0000_0000) + b as nat) % 0x1_0000_0000) == ((hash as nat * 31 + b as nat) % 0x1_0000_0000)) by (nonlinear_arith);
        }
        hash = hash.wrapping_mul(31).wrapping_add(b as u32);
        i = i + 1;
    }
    assert(bytes@.subrange(0, bytes@.len() as int) =~= bytes@);
    (hash % 50 + 1) as i32
}

/// The name `GetChatWindowInfo(id)` reports: `ChatFrame{id}`.
pub fn chat_window_name(id: i32) -> (r: String)
    ensures
        r@ == "ChatFrame"@ + spec_decimal_int(id as int),
{
    let mut out = String::from_str("ChatFrame");
    let digits = format_i64(id as i64);
    out.append(digits.as_str());
    out
}

/// Only the first chat window is shown by default.
pub fn chat_window_shown(id: i32) -> (r: bool)
    ensures
        r == (id == 1),
{
    id == 1
}

/// Appends a line to the console log that `print` writes to.
pub fn write_console_line(console: &mut Vec<String>, line: String)
    ensures
        final(console)@ == old(console)@.push(line),
{
    console.push(line);
}

/// The rendered arguments of `print` or a debug-window call, separated by
/// tabs.
pub open spec fn spec_join_tabs(parts: Seq<Seq<char>>) -> Seq<char>
    decreases parts.len(),
{
    if parts.len() == 0 {
        Seq::empty()
    } else if parts.len() == 1 {
        parts[0]
    } else {
        spec_join_tabs(parts.drop_last()) + seq!['\t'] + parts.last()
    }
}

pub fn join_tabs(parts: &Vec<String>) -> (r: String)
    ensures
        r@ == spec_join_tabs(parts@.map_values(|p: String| p@)),
{
    let mut out = String::new();
    let mut i: usize = 0;
    let ghost views = parts@.map_values(|p: String| p@);
    while i < parts.len()
        invariant
            i <= parts@.len(),
            views == parts@.map_values(|p: String| p@),
            out@ == spec_join_tabs(views.subrange(0, i as int)),
        decreases parts.len() - i,
    {
        proof {
            let t = views.subrange(0, i + 1);
            assert(t.drop_last() =~= views.subrange(0, i as int));
            assert(t.last() == parts@[i as int]@);
        }
        if i > 0 {
            out.append("\t");
            proof {
                reveal_strlit("\t");
            }
        } else {
            proof {
                assert(views.subrange(0, 1)[0] == parts@[0]@);
            }
        }
        out.append(parts[i].as_str());
        i = i + 1;
    }
    assert(views.subrange(0, parts@.len() as int) =~= views);
    out
}

} // verus!
