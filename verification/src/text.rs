//! Character-level text helpers with exact specifications.

use vstd::prelude::*;

verus! {

/// ASCII lower-casing of one character; every other character is unchanged.
pub open spec fn spec_ascii_lower(c: char) -> char {
    if 'A' <= c && c <= 'Z' {
        ((c as u32) + 32) as char
    } else {
        c
    }
}

/// Two character sequences are equal once ASCII letters are lower-cased.
pub open spec fn eq_ignore_ascii_case(a: Seq<char>, b: Seq<char>) -> bool {
    &&& a.len() == b.len()
    &&& forall|i: int| 0 <= i < a.len() ==> spec_ascii_lower(#[trigger] a[i]) == spec_ascii_lower(b[i])
}

pub fn ascii_lower(c: char) -> (r: char)
    ensures
        r == spec_ascii_lower(c),
{
    if 'A' <= c && c <= 'Z' {
        ((c as u8) + 32) as char
    } else {
        c
    }
}

/// Exact equality of two string slices.
pub fn str_eq(a: &str, b: &str) -> (r: bool)
    ensures
        r == (a@ == b@),
{
    let n = a.unicode_len();
    let m = b.unicode_len();
    if n != m {
        return false;
    }
    let mut i: usize = 0;
    while i < n
        invariant
            n == a@.len(),
            m == b@.len(),
            n == m,
            i <= n,
            forall|k: int| 0 <= k < i ==> a@[k] == b@[k],
        decreases n - i,
    {
        if a.get_char(i) != b.get_char(i) {
            return false;
        }
        i = i + 1;
    }
    assert(a@ =~= b@);
    true
}


/// Case-insensitive (ASCII only) equality of two string slices, as
/// `str::eq_ignore_ascii_case` compares them.
pub fn str_eq_ignore_ascii_case(a: &str, b: &str) -> (r: bool)
    ensures
        r == eq_ignore_ascii_case(a@, b@),
{
    let n = a.unicode_len();
    let m = b.unicode_len();
    if n != m {
        return false;
    }
    let mut i: usize = 0;
    while i < n
        invariant
            n == a@.len(),
            m == b@.len(),
            n == m,
            i <= n,
            forall|k: int| 0 <= k < i ==> spec_ascii_lower(#[trigger] a@[k]) == spec_ascii_lower(b@[k]),
        decreases n - i,
    {
        if ascii_lower(a.get_char(i)) != ascii_lower(b.get_char(i)) {
            return false;
        }
        i = i + 1;
    }
    true
}

pub open spec fn spec_is_ascii_alphabetic(c: char) -> bool {
    ('A' <= c && c <= 'Z') || ('a' <= c && c <= 'z')
}

pub fn is_ascii_alphabetic(c: char) -> (r: bool)
    ensures
        r == spec_is_ascii_alphabetic(c),
{
    ('A' <= c && c <= 'Z') || ('a' <= c && c <= 'z')
}

/// The Unicode `White_Space` property, the set that `char::is_whitespace` tests.
pub open spec fn spec_is_whitespace(c: char) -> bool {
    ||| ('\u{9}' <= c && c <= '\u{d}')
    ||| c == ' '
    ||| c == '\u{85}'
    ||| c == '\u{a0}'
    ||| c == '\u{1680}'
    ||| ('\u{2000}' <= c && c <= '\u{200a}')
    ||| c == '\u{2028}'
    ||| c == '\u{2029}'
    ||| c == '\u{202f}'
    ||| c == '\u{205f}'
    ||| c == '\u{3000}'
}

pub fn is_whitespace(c: char) -> (r: bool)
    ensures
        r == spec_is_whitespace(c),
{
    ('\u{9}' <= c && c <= '\u{d}') || c == ' ' || c == '\u{85}' || c == '\u{a0}' || c
        == '\u{1680}' || ('\u{2000}' <= c && c <= '\u{200a}') || c == '\u{2028}' || c
        == '\u{2029}' || c == '\u{202f}' || c == '\u{205f}' || c == '\u{3000}'
}

/// Leading whitespace removed.
pub open spec fn trim_start(s: Seq<char>) -> Seq<char>
    decreases s.len(),
{
    if s.len() > 0 && spec_is_whitespace(s[0]) {
        trim_start(s.drop_first())
    } else {
        s
    }
}

/// Trailing whitespace removed.
pub open spec fn trim_end(s: Seq<char>) -> Seq<char>
    decreases s.len(),
{
    if s.len() > 0 && spec_is_whitespace(s.last()) {
        trim_end(s.drop_last())
    } else {
        s
    }
}

/// What `str::trim` gives back: leading and trailing whitespace removed.
pub open spec fn trim(s: Seq<char>) -> Seq<char> {
    trim_end(trim_start(s))
}

proof fn lemma_trim_start_skip(s: Seq<char>, i: int)
    requires
        0 <= i <= s.len(),
        forall|k: int| 0 <= k < i ==> spec_is_whitespace(#[trigger] s[k]),
    ensures
        trim_start(s) == trim_start(s.subrange(i, s.len() as int)),
    decreases i,
{
    if i > 0 {
        assert(s.drop_first() =~= s.subrange(1, s.len() as int));
        lemma_trim_start_skip(s.drop_first(), i - 1);
        assert(s.drop_first().subrange(i - 1, s.drop_first().len() as int) =~= s.subrange(
            i,
            s.len() as int,
        ));
    } else {
        assert(s.subrange(0, s.len() as int) =~= s);
    }
}

proof fn lemma_trim_end_drop(s: Seq<char>, j: int)
    requires
        0 <= j <= s.len(),
        forall|k: int| j <= k < s.len() ==> spec_is_whitespace(#[trigger] s[k]),
    ensures
        trim_end(s) == trim_end(s.subrange(0, j)),
    decreases s.len() - j,
{
    if j < s.len() {
        assert(s.drop_last() =~= s.subrange(0, s.len() - 1));
        lemma_trim_end_drop(s.drop_last(), j);
        assert(s.drop_last().subrange(0, j) =~= s.subrange(0, j));
    } else {
        assert(s.subrange(0, j) =~= s);
    }
}

/// Character positions `(start, end)` of the trimmed part of `s`.
pub fn trim_bounds(s: &str) -> (r: (usize, usize))
    ensures
        r.0 <= r.1 <= s@.len(),
        s@.subrange(r.0 as int, r.1 as int) == trim(s@),
{
    let n = s.unicode_len();
    let mut i: usize = 0;
    while i < n && is_whitespace(s.get_char(i))
        invariant
            n == s@.len(),
            i <= n,
            forall|k: int| 0 <= k < i ==> spec_is_whitespace(#[trigger] s@[k]),
        decreases n - i,
    {
        i = i + 1;
    }
    proof {
        lemma_trim_start_skip(s@, i as int);
    }
    let ghost rest = s@.subrange(i as int, n as int);
    assert(trim_start(s@) == rest) by {
        if rest.len() > 0 {
            assert(rest[0] == s@[i as int]);
        }
    }
    let mut j: usize = n;
    while j > i && is_whitespace(s.get_char(j - 1))
        invariant
            n == s@.len(),
            i <= j <= n,
            forall|k: int| j <= k < n ==> spec_is_whitespace(#[trigger] s@[k]),
        decreases j,
    {
        j = j - 1;
    }
    proof {
        let ri = (j - i) as int;
        assert forall|k: int| ri <= k < rest.len() implies spec_is_whitespace(#[trigger] rest[k]) by {
            assert(rest[k] == s@[k + i]);
        }
        lemma_trim_end_drop(rest, ri);
        let short = rest.subrange(0, ri);
        assert(short =~= s@.subrange(i as int, j as int));
        if short.len() > 0 {
            assert(short.last() == s@[j - 1]);
        }
        assert(trim_end(short) == short);
    }
    (i, j)
}

/// Number of bytes that UTF-8 takes for one character.
pub open spec fn spec_utf8_char_len(c: char) -> nat {
    if (c as u32) < 0x80 {
        1
    } else if (c as u32) < 0x800 {
        2
    } else if (c as u32) < 0x10000 {
        3
    } else {
        4
    }
}

/// Number of bytes that UTF-8 takes for a character sequence.
pub open spec fn spec_utf8_len(s: Seq<char>) -> nat
    decreases s.len(),
{
    if s.len() == 0 {
        0
    } else {
        spec_utf8_len(s.drop_last()) + spec_utf8_char_len(s.last())
    }
}

pub fn utf8_char_len(c: char) -> (r: usize)
    ensures
        r == spec_utf8_char_len(c),
{
    let v = c as u32;
    if v < 0x80 {
        1
    } else if v < 0x800 {
        2
    } else if v < 0x10000 {
        3
    } else {
        4
    }
}

proof fn lemma_utf8_len_prefix(s: Seq<char>, k: int)
    requires
        0 <= k <= s.len(),
    ensures
        spec_utf8_len(s.subrange(0, k)) <= spec_utf8_len(s),
    decreases s.len() - k,
{
    if k < s.len() {
        lemma_utf8_len_prefix(s.drop_last(), k);
        assert(s.drop_last().subrange(0, k) =~= s.subrange(0, k));
    } else {
        assert(s.subrange(0, k) =~= s);
    }
}

/// Whether the characters `start..end` of `s` take more than `limit` bytes
/// in UTF-8 (what `str::len` of that part compares against `limit`).
pub fn utf8_len_exceeds(s: &str, start: usize, end: usize, limit: usize) -> (r: bool)
    requires
        start <= end <= s@.len(),
        limit <= 1024,
    ensures
        r == (spec_utf8_len(s@.subrange(start as int, end as int)) > limit),
{
    let mut total: usize = 0;
    let mut k: usize = start;
    while k < end
        invariant
            start <= k <= end <= s@.len(),
            limit <= 1024,
            total <= limit,
            total == spec_utf8_len(s@.subrange(start as int, k as int)),
        decreases end - k,
    {
        let c = s.get_char(k);
        let w = utf8_char_len(c);
        proof {
            let next = s@.subrange(start as int, k + 1);
            assert(next.drop_last() =~= s@.subrange(start as int, k as int));
            assert(next.last() == c);
        }
        total = total + w;
        k = k + 1;
        if total > limit {
            proof {
                let whole = s@.subrange(start as int, end as int);
                lemma_utf8_len_prefix(whole, (k - start) as int);
                assert(whole.subrange(0, (k - start) as int) =~= s@.subrange(start as int, k as int));
            }
            return true;
        }
    }
    false
}

/// Calls `String::push`. The contract claims what its documentation
/// states: the character is appended to the end of the string, the
/// characters before it unchanged.
#[verifier::external_body]
pub(crate) fn string_push(s: &mut String, c: char)
    ensures
        final(s)@ == old(s)@.push(c),
{
    s.push(c);
}

/// A `String` holding exactly the given characters.
pub fn string_from_chars(chars: &Vec<char>) -> (r: String)
    ensures
        r@ == chars@,
{
    let mut out = String::new();
    let mut i: usize = 0;
    while i < chars.len()
        invariant
            i <= chars.len(),
            out@ == chars@.subrange(0, i as int),
        decreases chars.len() - i,
    {
        string_push(&mut out, chars[i]);
        proof {
            assert(chars@.subrange(0, i + 1) =~= chars@.subrange(0, i as int).push(chars@[i as int]));
        }
        i = i + 1;
    }
    assert(chars@.subrange(0, chars.len() as int) =~= chars@);
    out
}

/// The decimal digit character for `d < 10`.
pub open spec fn spec_digit_char(d: nat) -> char {
    ((d + 48) as u32) as char
}

/// Decimal digits of a natural number, most significant first, no leading zeros.
pub open spec fn spec_decimal(n: nat) -> Seq<char>
    decreases n,
{
    if n < 10 {
        seq![spec_digit_char(n)]
    } else {
        spec_decimal(n / 10).push(spec_digit_char(n % 10))
    }
}

/// Decimal rendering of an integer, with a leading `-` for negative values,
/// as `to_string` / `format!("{}")` renders integers.
pub open spec fn spec_decimal_int(n: int) -> Seq<char> {
    if n < 0 {
        seq!['-'] + spec_decimal((-n) as nat)
    } else {
        spec_decimal(n as nat)
    }
}

fn digit_char(d: u64) -> (c: char)
    requires
        d < 10,
    ensures
        c == spec_digit_char(d as nat),
{
    ((d as u8) + 48) as char
}

/// The decimal digits of `n` as characters.
pub fn decimal_chars(n: u64) -> (r: Vec<char>)
    ensures
        r@ == spec_decimal(n as nat),
{
    let mut rest: u64 = n;
    let mut suffix: Vec<char> = Vec::new();
    while rest >= 10
        invariant
            spec_decimal(n as nat) == spec_decimal(rest as nat) + suffix@,
        decreases rest,
    {
        let d = digit_char(rest % 10);
        proof {
            assert(spec_decimal(rest as nat) == spec_decimal((rest / 10) as nat).push(d));
            assert(spec_decimal((rest / 10) as nat).push(d) + suffix@ =~= spec_decimal(
                (rest / 10) as nat,
            ) + seq![d].add(suffix@));
        }
        suffix.insert(0, d);
        rest = rest / 10;
    }
    let d = digit_char(rest);
    suffix.insert(0, d);
    assert(spec_decimal(rest as nat) =~= seq![d]);
    assert(suffix@ =~= spec_decimal(rest as nat) + suffix@.drop_first());
    suffix
}

/// Decimal rendering of an unsigned integer.
pub fn format_u64(n: u64) -> (r: String)
    ensures
        r@ == spec_decimal(n as nat),
{
    let digits = decimal_chars(n);
    string_from_chars(&digits)
}

/// Decimal rendering of a signed integer.
pub fn format_i64(n: i64) -> (r: String)
    ensures
        r@ == spec_decimal_int(n as int),
{
    if n < 0 {
        let magnitude: u64 = (-(n as i128)) as u64;
        let digits = decimal_chars(magnitude);
        let mut all: Vec<char> = Vec::new();
        all.push('-');
        let mut i: usize = 0;
        while i < digits.len()
            invariant
                i <= digits.len(),
                all@ == seq!['-'] + digits@.subrange(0, i as int),
            decreases digits.len() - i,
        {
            all.push(digits[i]);
            proof {
                assert(digits@.subrange(0, i + 1) =~= digits@.subrange(0, i as int).push(
                    digits@[i as int],
                ));
                assert(seq!['-'] + digits@.subrange(0, i + 1) =~= (seq!['-'] + digits@.subrange(
                    0,
                    i as int,
                )).push(digits@[i as int]));
            }
            i = i + 1;
        }
        assert(digits@.subrange(0, digits.len() as int) =~= digits@);
        string_from_chars(&all)
    } else {
        format_u64(n as u64)
    }
}

pub open spec fn spec_is_digit(c: char) -> bool {
    '0' <= c && c <= '9'
}

/// Value of a sequence of decimal digits.
pub open spec fn spec_digits_value(s: Seq<char>) -> nat
    decreases s.len(),
{
    if s.len() == 0 {
        0
    } else {
        spec_digits_value(s.drop_last()) * 10 + ((s.last() as u32) - 48) as nat
    }
}

/// The part of a number literal after an optional leading `+`.
pub open spec fn unsigned_digits_part(s: Seq<char>) -> Seq<char> {
    if s.len() > 0 && s[0] == '+' {
        s.drop_first()
    } else {
        s
    }
}

pub open spec fn all_digits(s: Seq<char>) -> bool {
    forall|i: int| 0 <= i < s.len() ==> spec_is_digit(#[trigger] s[i])
}

/// What `str::parse::<usize>` accepts and gives back: an optional `+`, then
/// one or more decimal digits whose value fits in `usize`.
pub open spec fn spec_parse_usize(s: Seq<char>) -> Option<nat> {
    let digits = unsigned_digits_part(s);
    if digits.len() == 0 || !all_digits(digits) {
        None
    } else if spec_digits_value(digits) > usize::MAX {
        None
    } else {
        Some(spec_digits_value(digits))
    }
}

proof fn lemma_digits_value_monotone(s: Seq<char>, k: int)
    requires
        0 <= k <= s.len(),
        forall|i: int| 0 <= i < s.len() ==> spec_is_digit(#[trigger] s[i]),
    ensures
        spec_digits_value(s.subrange(0, k)) <= spec_digits_value(s),
    decreases s.len() - k,
{
    if k < s.len() {
        lemma_digits_value_monotone(s.drop_last(), k);
        assert(s.drop_last().subrange(0, k) =~= s.subrange(0, k));
        assert(s.subrange(0, s.len() as int) =~= s);
    } else {
        assert(s.subrange(0, k) =~= s);
    }
}

proof fn lemma_decimal_digits(n: nat)
    ensures
        spec_decimal(n).len() > 0,
        all_digits(spec_decimal(n)),
        spec_digits_value(spec_decimal(n)) == n,
    decreases n,
{
    if n < 10 {
        let d = spec_decimal(n);
        assert(d.drop_last() =~= Seq::<char>::empty());
        assert(spec_digit_char(n) as u32 == n + 48);
        assert(d.last() == spec_digit_char(n));
        assert(spec_digits_value(d) == spec_digits_value(d.drop_last()) * 10 + ((d.last() as u32) - 48) as nat);
    } else {
        lemma_decimal_digits(n / 10);
        let d = spec_decimal(n);
        let m = spec_decimal(n / 10);
        assert(d.drop_last() =~= m);
        assert(spec_digit_char(n % 10) as u32 == n % 10 + 48);
        assert(d.last() == spec_digit_char(n % 10));
        assert(spec_digits_value(d) == spec_digits_value(m) * 10 + ((d.last() as u32) - 48) as nat);
        assert((n / 10) * 10 + n % 10 == n) by (nonlinear_arith);
        assert forall|i: int| 0 <= i < d.len() implies spec_is_digit(#[trigger] d[i]) by {
            if i < m.len() {
                assert(d[i] == m[i]);
            }
        }
    }
}

/// A rendered integer is non-empty and made of decimal digits, with a
/// leading `-` exactly when it is negative.
pub proof fn lemma_decimal_int_chars(n: int)
    ensures
        spec_decimal_int(n).len() > 0,
        (spec_decimal_int(n)[0] == '-') == (n < 0),
        forall|i: int|
            0 <= i < spec_decimal_int(n).len() ==> spec_is_digit(#[trigger] spec_decimal_int(n)[i])
                || (i == 0 && n < 0 && spec_decimal_int(n)[i] == '-'),
{
    if n < 0 {
        lemma_decimal_digits((-n) as nat);
        let d = spec_decimal((-n) as nat);
        let t = spec_decimal_int(n);
        assert forall|i: int| 0 <= i < t.len() implies spec_is_digit(#[trigger] t[i]) || (i == 0
            && n < 0 && t[i] == '-') by {
            if i > 0 {
                assert(t[i] == d[i - 1]);
            }
        }
    } else {
        lemma_decimal_digits(n as nat);
        assert(spec_is_digit(spec_decimal_int(n)[0]));
    }
}

/// Distinct integers render differently.
pub proof fn lemma_decimal_int_injective(a: int, b: int)
    requires
        spec_decimal_int(a) == spec_decimal_int(b),
    ensures
        a == b,
{
    lemma_decimal_int_chars(a);
    lemma_decimal_int_chars(b);
    if a < 0 {
        let x = spec_decimal((-a) as nat);
        let y = spec_decimal((-b) as nat);
        assert(x =~= spec_decimal_int(a).drop_first());
        assert(y =~= spec_decimal_int(b).drop_first());
        lemma_decimal_digits((-a) as nat);
        lemma_decimal_digits((-b) as nat);
    } else {
        lemma_decimal_digits(a as nat);
        lemma_decimal_digits(b as nat);
    }
}

/// Reading back a rendered number: `n.to_string().parse::<usize>()` gives
/// `n` for every `n` that fits in `usize`.
pub proof fn law_parse_formatted_usize(n: nat)
    requires
        n <= usize::MAX,
    ensures
        spec_parse_usize(spec_decimal(n)) == Some(n),
{
    lemma_decimal_digits(n);
    let d = spec_decimal(n);
    assert(spec_is_digit(d[0]));
    assert(unsigned_digits_part(d) == d);
}

/// Parses a decimal `usize` the way `str::parse::<usize>` does.
pub fn parse_usize(s: &str) -> (r: Option<usize>)
    ensures
        r matches Some(v) ==> spec_parse_usize(s@) == Some(v as nat),
        r is None ==> spec_parse_usize(s@) is None,
{
    let n = s.unicode_len();
    let mut start: usize = 0;
    if n > 0 && s.get_char(0) == '+' {
        start = 1;
    }
    let ghost digits = unsigned_digits_part(s@);
    assert(digits =~= s@.subrange(start as int, n as int));
    if start == n {
        return None;
    }
    let mut value: usize = 0;
    let mut k: usize = start;
    while k < n
        invariant
            n == s@.len(),
            start <= k <= n,
            digits =~= s@.subrange(start as int, n as int),
            digits == unsigned_digits_part(s@),
            forall|i: int| start <= i < k ==> spec_is_digit(#[trigger] s@[i]),
            value == spec_digits_value(s@.subrange(start as int, k as int)),
        decreases n - k,
    {
        let c = s.get_char(k);
        if !('0' <= c && c <= '9') {
            assert(!spec_is_digit(digits[k - start]));
            assert(!all_digits(digits));
            return None;
        }
        let d: usize = ((c as u32) - 48) as usize;
        proof {
            let next = s@.subrange(start as int, k + 1);
            assert(next.drop_last() =~= s@.subrange(start as int, k as int));
            assert(next.last() == c);
        }
        if value > (usize::MAX - d) / 10 {
            proof {
                assert(spec_digits_value(s@.subrange(start as int, k + 1)) > usize::MAX)
                    by (nonlinear_arith)
                    requires
                        value > (usize::MAX - d) / 10,
                        spec_digits_value(s@.subrange(start as int, k + 1)) == value * 10 + d,
                        d < 10,
                ;
                if all_digits(digits) {
                    lemma_digits_value_monotone(digits, (k + 1 - start) as int);
                    assert(digits.subrange(0, (k + 1 - start) as int) =~= s@.subrange(
                        start as int,
                        k + 1,
                    ));
                }
            }
            return None;
        }
        value = value * 10 + d;
        k = k + 1;
    }
    assert(s@.subrange(start as int, n as int) =~= digits);
    Some(value)
}


/// `needle` occurs in `hay` starting at character position `i`.
pub open spec fn occurs_at(hay: Seq<char>, needle: Seq<char>, i: int) -> bool {
    0 <= i && i + needle.len() <= hay.len() && hay.subrange(i, i + needle.len()) == needle
}

/// `needle` occurs somewhere in `hay`, as `str::contains` tests.
pub open spec fn spec_contains(hay: Seq<char>, needle: Seq<char>) -> bool {
    exists|i: int| occurs_at(hay, needle, i)
}

/// Substring test, as `str::contains` with a string pattern.
pub fn str_contains(hay: &str, needle: &str) -> (r: bool)
    ensures
        r == spec_contains(hay@, needle@),
{
    let n = hay.unicode_len();
    let m = needle.unicode_len();
    if m > n {
        assert forall|i: int| !occurs_at(hay@, needle@, i) by {}
        return false;
    }
    let mut i: usize = 0;
    while i <= n - m
        invariant
            n == hay@.len(),
            m == needle@.len(),
            m <= n,
            i <= n - m + 1,
            forall|k: int| 0 <= k < i ==> !occurs_at(hay@, needle@, k),
        decreases n - m + 1 - i,
    {
        let mut j: usize = 0;
        while j < m && hay.get_char(i + j) == needle.get_char(j)
            invariant
                n == hay@.len(),
                m == needle@.len(),
                i + m <= n,
                j <= m,
                forall|t: int| 0 <= t < j ==> hay@[i + t] == needle@[t],
            decreases m - j,
        {
            j = j + 1;
        }
        if j == m {
            assert(hay@.subrange(i as int, i + m) =~= needle@);
            assert(occurs_at(hay@, needle@, i as int));
            return true;
        }
        assert(hay@.subrange(i as int, i + m)[j as int] != needle@[j as int]);
        i = i + 1;
    }
    assert forall|k: int| !occurs_at(hay@, needle@, k) by {
        if 0 <= k && k + m <= n {
            assert(k < i);
        }
    }
    false
}


/// The ASCII letters of `s`, in order.
pub open spec fn ascii_letters(s: Seq<char>) -> Seq<char>
    decreases s.len(),
{
    if s.len() == 0 {
        Seq::empty()
    } else if spec_is_ascii_alphabetic(s.last()) {
        ascii_letters(s.drop_last()).push(s.last())
    } else {
        ascii_letters(s.drop_last())
    }
}

/// At most the first `n` elements of `s`, as `Iterator::take` yields them.
pub open spec fn take_at_most(s: Seq<char>, n: nat) -> Seq<char> {
    if s.len() <= n {
        s
    } else {
        s.take(n as int)
    }
}

/// Appends to `out` the first `n` ASCII letters of `s`, as
/// `s.chars().filter(char::is_ascii_alphabetic).take(n)` yields them.
pub fn push_ascii_letters(out: &mut Vec<char>, s: &str, n: usize)
    ensures
        final(out)@ == old(out)@ + take_at_most(ascii_letters(s@), n as nat),
{
    let len = s.unicode_len();
    let ghost base = out@;
    let mut taken: usize = 0;
    let mut i: usize = 0;
    assert(s@.subrange(0, 0) =~= Seq::<char>::empty());
    while i < len
        invariant
            len == s@.len(),
            i <= len,
            taken <= n,
            out@ == base + take_at_most(ascii_letters(s@.subrange(0, i as int)), n as nat),
            taken == take_at_most(ascii_letters(s@.subrange(0, i as int)), n as nat).len(),
        decreases len - i,
    {
        let c = s.get_char(i);
        let ghost prev = ascii_letters(s@.subrange(0, i as int));
        proof {
            let next = s@.subrange(0, i + 1);
            assert(next.drop_last() =~= s@.subrange(0, i as int));
            assert(next.last() == c);
        }
        if is_ascii_alphabetic(c) && taken < n {
            proof {
                assert(prev.len() < n);
                assert(take_at_most(prev.push(c), n as nat) =~= take_at_most(prev, n as nat).push(c));
            }
            out.push(c);
            taken = taken + 1;
        } else if is_ascii_alphabetic(c) {
            proof {
                assert(take_at_most(prev.push(c), n as nat) =~= take_at_most(prev, n as nat));
            }
        }
        i = i + 1;
    }
    assert(s@.subrange(0, len as int) =~= s@);
}

} // verus!
