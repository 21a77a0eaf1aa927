//! First-match search over sequences, the shape of `Iterator::find` and
//! `Iterator::position`.

use vstd::prelude::*;

verus! {

/// The first element of `s` that satisfies `p`.
pub open spec fn find_first<T>(s: Seq<T>, p: spec_fn(T) -> bool) -> Option<T>
    decreases s.len(),
{
    if s.len() == 0 {
        None
    } else if p(s[0]) {
        Some(s[0])
    } else {
        find_first(s.drop_first(), p)
    }
}

/// The position of the first element of `s` that satisfies `p`.
pub open spec fn position_first<T>(s: Seq<T>, p: spec_fn(T) -> bool) -> Option<int>
    decreases s.len(),
{
    if s.len() == 0 {
        None
    } else if p(s[0]) {
        Some(0)
    } else {
        match position_first(s.drop_first(), p) {
            Some(k) => Some(k + 1),
            None => None,
        }
    }
}

/// One step of a left-to-right scan.
pub proof fn lemma_find_first_step<T>(s: Seq<T>, p: spec_fn(T) -> bool, i: int)
    requires
        0 <= i < s.len(),
    ensures
        find_first(s.subrange(i, s.len() as int), p) == (if p(s[i]) {
            Some(s[i])
        } else {
            find_first(s.subrange(i + 1, s.len() as int), p)
        }),
        position_first(s.subrange(i, s.len() as int), p) == (if p(s[i]) {
            Some(0int)
        } else {
            match position_first(s.subrange(i + 1, s.len() as int), p) {
                Some(k) => Some(k + 1),
                None => None,
            }
        }),
{
    let t = s.subrange(i, s.len() as int);
    assert(t[0] == s[i]);
    assert(t.drop_first() =~= s.subrange(i + 1, s.len() as int));
}

/// A scan that reached the end found nothing.
pub proof fn lemma_find_first_end<T>(s: Seq<T>, p: spec_fn(T) -> bool)
    ensures
        find_first(s.subrange(s.len() as int, s.len() as int), p) is None,
        position_first(s.subrange(s.len() as int, s.len() as int), p) is None,
{
    assert(s.subrange(s.len() as int, s.len() as int).len() == 0);
}

/// A scan starts with the whole sequence.
pub proof fn lemma_find_first_start<T>(s: Seq<T>)
    ensures
        s.subrange(0, s.len() as int) == s,
{
    assert(s.subrange(0, s.len() as int) =~= s);
}

/// What a first-match search means, element by element.
pub proof fn lemma_find_first_meaning<T>(s: Seq<T>, p: spec_fn(T) -> bool)
    ensures
        match position_first(s, p) {
            Some(k) => 0 <= k < s.len() && p(s[k]) && find_first(s, p) == Some(s[k]) && (forall|
                j: int,
            | 0 <= j < k ==> !p(#[trigger] s[j])),
            None => find_first(s, p) is None && (forall|j: int| 0 <= j < s.len() ==> !p(#[trigger] s[j])),
        },
    decreases s.len(),
{
    if s.len() > 0 {
        lemma_find_first_meaning(s.drop_first(), p);
        if !p(s[0]) {
            match position_first(s.drop_first(), p) {
                Some(k) => {
                    assert forall|j: int| 0 <= j < k + 1 implies !p(#[trigger] s[j]) by {
                        if j > 0 {
                            assert(s[j] == s.drop_first()[j - 1]);
                        }
                    }
                },
                None => {
                    assert forall|j: int| 0 <= j < s.len() implies !p(#[trigger] s[j]) by {
                        if j > 0 {
                            assert(s[j] == s.drop_first()[j - 1]);
                        }
                    }
                },
            }
        }
    }
}

} // verus!
