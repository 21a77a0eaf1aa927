//! `GetFileIDFromPath`: normalising a client file path to the key of the
//! interface-file manifest, and looking it up.

use vstd::prelude::*;
use crate::text::{eq_ignore_ascii_case, str_eq, str_eq_ignore_ascii_case, string_from_chars};

verus! {

/// What `str::to_uppercase` makes of a string (full Unicode case mapping).
pub uninterp spec fn unicode_upper(s: Seq<char>) -> Seq<char>;

/// Calls `str::to_uppercase`; the result is `unicode_upper` of the input,
/// a function of the characters alone. Nothing more is stated of it.
#[verifier::external_body]
fn to_uppercase(s: &str) -> (r: String)
    ensures
        r@ == unicode_upper(s@),
{
    s.to_uppercase()
}

/// Every backslash turned into a forward slash.
pub open spec fn spec_forward_slashes(s: Seq<char>) -> Seq<char> {
    s.map_values(|c: char| if c == '\\' { '/' } else { c })
}

/// The path without a leading `interface/`, matched ignoring ASCII case
/// (which is what comparing the lower-cased path with `interface/` amounts
/// to: no other character lower-cases to one of those ASCII characters).
pub open spec fn spec_strip_interface(s: Seq<char>) -> Seq<char> {
    if s.len() >= 10 && eq_ignore_ascii_case(s.subrange(0, 10), "interface/"@) {
        s.subrange(10, s.len() as int)
    } else {
        s
    }
}

/// Position of the last `.` in the last component of `s` (what follows
/// its last `/`), if that component has one.
pub open spec fn spec_last_dot(s: Seq<char>) -> Option<int>
    decreases s.len(),
{
    if s.len() == 0 {
        None
    } else if s.last() == '.' {
        Some(s.len() - 1)
    } else if s.last() == '/' {
        None
    } else {
        spec_last_dot(s.drop_last())
    }
}

/// The path without its file extension: cut before the last `.` of its
/// last component, when that component has one; a `.` in a directory
/// name stays.
pub open spec fn spec_strip_extension(s: Seq<char>) -> Seq<char> {
    match spec_last_dot(s) {
        Some(i) => s.subrange(0, i),
        None => s,
    }
}

/// The manifest key of a path before it is upper-cased.
pub open spec fn spec_file_path_stem(raw: Seq<char>) -> Seq<char> {
    spec_strip_extension(spec_strip_interface(spec_forward_slashes(raw)))
}

/// Forward slashes, no `interface/` prefix, no file extension.
pub fn file_path_stem(raw: &str) -> (r: String)
    ensures
        r@ == spec_file_path_stem(raw@),
{
    let n = raw.unicode_len();
    let mut chars: Vec<char> = Vec::new();
    let mut i: usize = 0;
    while i < n
        invariant
            n == raw@.len(),
            i <= n,
            chars@ == spec_forward_slashes(raw@).subrange(0, i as int),
        decreases n - i,
    {
        let c = raw.get_char(i);
        let d = if c == '\\' {
            '/'
        } else {
            c
        };
        chars.push(d);
        proof {
            assert(chars@ =~= spec_forward_slashes(raw@).subrange(0, i + 1));
        }
        i = i + 1;
    }
    let ghost slashed = spec_forward_slashes(raw@);
    assert(chars@ =~= slashed);
    let mut start: usize = 0;
    if n >= 10 {
        let mut head: Vec<char> = Vec::new();
        let mut j: usize = 0;
        while j < 10
            invariant
                j <= 10,
                chars@ == slashed,
                slashed.len() == n,
                n >= 10,
                head@ == slashed.subrange(0, j as int),
            decreases 10 - j,
        {
            head.push(chars[j]);
            proof {
                assert(head@ =~= slashed.subrange(0, j + 1));
            }
            j = j + 1;
        }
        let head_str = string_from_chars(&head);
        if str_eq_ignore_ascii_case(head_str.as_str(), "interface/") {
            start = 10;
        }
    }
    let ghost stripped = spec_strip_interface(slashed);
    assert(stripped =~= slashed.subrange(start as int, n as int));
    let mut end: usize = n;
    let mut k: usize = n;
    let mut found = false;
    while k > start && !found
        invariant
            start <= k <= n,
            n == slashed.len(),
            chars@ == slashed,
            stripped == slashed.subrange(start as int, n as int),
            !found ==> end == n && spec_last_dot(stripped) == spec_last_dot(
                slashed.subrange(start as int, k as int),
            ),
            found ==> start <= end < n && spec_last_dot(stripped) == Some(end - start),
        decreases k - start + if found { 0int } else { 1int },
    {
        proof {
            let t = slashed.subrange(start as int, k as int);
            assert(t.last() == slashed[k - 1]);
            assert(t.drop_last() =~= slashed.subrange(start as int, k - 1));
        }
        if chars[k - 1] == '.' {
            end = k - 1;
            found = true;
        } else if chars[k - 1] == '/' {
            k = start;
        } else {
            k = k - 1;
        }
    }
    let mut out: Vec<char> = Vec::new();
    let mut m: usize = start;
    while m < end
        invariant
            start <= m <= end <= n,
            n == slashed.len(),
            chars@ == slashed,
            out@ == slashed.subrange(start as int, m as int),
        decreases end - m,
    {
        out.push(chars[m]);
        proof {
            assert(out@ =~= slashed.subrange(start as int, m + 1));
        }
        m = m + 1;
    }
    proof {
        if !found {
            assert(spec_last_dot(slashed.subrange(start as int, start as int)) is None);
        }
        assert(out@ =~= spec_strip_extension(stripped));
    }
    string_from_chars(&out)
}

/// The manifest key for a client file path: forward slashes, no
/// `interface/` prefix, no extension, upper-cased.
pub fn normalize_file_path(raw: &str) -> (r: String)
    ensures
        r@ == unicode_upper(spec_file_path_stem(raw@)),
{
    let stem = file_path_stem(raw);
    to_uppercase(stem.as_str())
}

/// The lookup table built from the manifest: each path upper-cased, with
/// its file id, in manifest order.
pub fn get_path_to_file_id(manifest: &Vec<(u32, String)>) -> (r: Vec<(String, u32)>)
    ensures
        r@.len() == manifest@.len(),
        forall|i: int|
            0 <= i < manifest@.len() ==> (#[trigger] r@[i]).0@ == unicode_upper(manifest@[i].1@)
                && r@[i].1 == manifest@[i].0,
{
    let mut r: Vec<(String, u32)> = Vec::new();
    let mut i: usize = 0;
    while i < manifest.len()
        invariant
            i <= manifest@.len(),
            r@.len() == i,
            forall|j: int|
                0 <= j < i ==> (#[trigger] r@[j]).0@ == unicode_upper(manifest@[j].1@) && r@[j].1
                    == manifest@[j].0,
        decreases manifest.len() - i,
    {
        let key = to_uppercase(manifest[i].1.as_str());
        r.push((key, manifest[i].0));
        i = i + 1;
    }
    r
}

/// The id stored under a key; when a key occurs more than once the last
/// entry wins, as it does when the table is collected into a map.
pub open spec fn spec_last_id(table: Seq<(String, u32)>, key: Seq<char>) -> Option<u32>
    decreases table.len(),
{
    if table.len() == 0 {
        None
    } else if table.last().0@ == key {
        Some(table.last().1)
    } else {
        spec_last_id(table.drop_last(), key)
    }
}

/// `GetFileIDFromPath(path)`: the file id stored under the path's key.
pub fn file_id_from_path(table: &Vec<(String, u32)>, path: &str) -> (r: Option<u32>)
    ensures
        r == spec_last_id(table@, unicode_upper(spec_file_path_stem(path@))),
{
    let key = normalize_file_path(path);
    let mut k: usize = table.len();
    assert(table@.subrange(0, k as int) =~= table@);
    while k > 0
        invariant
            k <= table@.len(),
            key@ == unicode_upper(spec_file_path_stem(path@)),
            spec_last_id(table@, key@) == spec_last_id(table@.subrange(0, k as int), key@),
        decreases k,
    {
        proof {
            let t = table@.subrange(0, k as int);
            assert(t.last() == table@[k - 1]);
            assert(t.drop_last() =~= table@.subrange(0, k - 1));
        }
        if str_eq(table[k - 1].0.as_str(), key.as_str()) {
            return Some(table[k - 1].1);
        }
        k = k - 1;
    }
    None
}

/// Backslashes and forward slashes are the same to the lookup: a path
/// and its forward-slash form have the same key, and no key holds a
/// backslash.
pub proof fn law_stem_ignores_slash_style(raw: Seq<char>)
    ensures
        spec_file_path_stem(spec_forward_slashes(raw)) == spec_file_path_stem(raw),
        forall|i: int| 0 <= i < spec_file_path_stem(raw).len() ==> #[trigger] spec_file_path_stem(raw)[i] != '\\',
{
    assert(spec_forward_slashes(spec_forward_slashes(raw)) =~= spec_forward_slashes(raw));
    let slashed = spec_forward_slashes(raw);
    let stripped = spec_strip_interface(slashed);
    let stem = spec_file_path_stem(raw);
    assert forall|i: int| 0 <= i < stem.len() implies #[trigger] stem[i] != '\\' by {
        let off = if slashed.len() >= 10 && eq_ignore_ascii_case(slashed.subrange(0, 10), "interface/"@) {
            10int
        } else {
            0int
        };
        assert(stripped =~= slashed.subrange(off, slashed.len() as int));
        match spec_last_dot(stripped) {
            Some(d) => {
                lemma_last_dot_in_range(stripped);
                assert(stem[i] == stripped[i]);
            },
            None => {
                assert(stem[i] == stripped[i]);
            },
        }
        assert(stem[i] == slashed[i + off]);
    }
}

proof fn lemma_last_dot_in_range(s: Seq<char>)
    ensures
        spec_last_dot(s) matches Some(i) ==> 0 <= i < s.len() && s[i] == '.',
    decreases s.len(),
{
    if s.len() > 0 && s.last() != '.' && s.last() != '/' {
        lemma_last_dot_in_range(s.drop_last());
    }
}

} // verus!
