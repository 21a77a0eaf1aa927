//! A set of names kept as a list of `String`s without repeats.

use vstd::prelude::*;
use crate::text::str_eq;

verus! {

/// The names a list holds, as a set of character sequences.
pub open spec fn name_set(v: Seq<String>) -> Set<Seq<char>> {
    Set::new(|s: Seq<char>| exists|i: int| 0 <= i < v.len() && (#[trigger] v[i])@ == s)
}

/// No name is listed twice.
pub open spec fn names_distinct(v: Seq<String>) -> bool {
    forall|i: int, j: int| 0 <= i < v.len() && 0 <= j < v.len() && i != j ==> (#[trigger] v[i])@ != (#[trigger] v[j])@
}

/// Whether `name` is listed.
pub fn contains_name(v: &Vec<String>, name: &str) -> (r: bool)
    ensures
        r == name_set(v@).contains(name@),
{
    let mut i: usize = 0;
    while i < v.len()
        invariant
            i <= v@.len(),
            forall|k: int| 0 <= k < i ==> (#[trigger] v@[k])@ != name@,
        decreases v.len() - i,
    {
        if str_eq(v[i].as_str(), name) {
            assert(name_set(v@).contains(name@)) by {
                assert(v@[i as int]@ == name@);
            }
            return true;
        }
        i = i + 1;
    }
    false
}

/// Adds `name` unless it is already listed (a set insert).
pub fn insert_name(v: &mut Vec<String>, name: &str)
    requires
        names_distinct(old(v)@),
    ensures
        names_distinct(final(v)@),
        name_set(final(v)@) == name_set(old(v)@).insert(name@),
{
    if contains_name(v, name) {
        assert(name_set(v@) =~= name_set(v@).insert(name@));
        return;
    }
    let ghost s = v@;
    v.push(String::from_str(name));
    assert(v@ =~= s.push(v@[s.len() as int]));
    assert forall|x: Seq<char>| name_set(v@).contains(x) == name_set(s).insert(name@).contains(x) by {
        if name_set(s).contains(x) {
            let i = choose|i: int| 0 <= i < s.len() && (#[trigger] s[i])@ == x;
            assert(v@[i] == s[i]);
        }
        if x == name@ {
            assert(v@[s.len() as int]@ == name@);
        }
        if name_set(v@).contains(x) {
            let i = choose|i: int| 0 <= i < v@.len() && (#[trigger] v@[i])@ == x;
            if i < s.len() {
                assert(v@[i] == s[i]);
            }
        }
    }
    assert(name_set(v@) =~= name_set(s).insert(name@));
}

/// Drops `name` from the list (a set remove).
pub fn remove_name(v: &mut Vec<String>, name: &str)
    requires
        names_distinct(old(v)@),
    ensures
        names_distinct(final(v)@),
        name_set(final(v)@) == name_set(old(v)@).remove(name@),
{
    let ghost s = v@;
    let mut i: usize = 0;
    while i < v.len()
        invariant
            i <= v@.len(),
            names_distinct(s),
            s == old(v)@,
            v@ == s,
            forall|k: int| 0 <= k < i ==> (#[trigger] v@[k])@ != name@,
        decreases v.len() - i,
    {
        if str_eq(v[i].as_str(), name) {
            v.remove(i);
            let ghost t = v@;
            assert(t =~= s.remove(i as int));
            assert forall|a: int, b: int| 0 <= a < t.len() && 0 <= b < t.len() && a != b implies (#[trigger] t[a])@
                != (#[trigger] t[b])@ by {
                let sa = if a < i { a } else { a + 1 };
                let sb = if b < i { b } else { b + 1 };
                assert(t[a] == s[sa] && t[b] == s[sb]);
            }
            assert forall|x: Seq<char>| name_set(t).contains(x) == name_set(s).remove(name@).contains(x) by {
                if name_set(t).contains(x) {
                    let j = choose|j: int| 0 <= j < t.len() && (#[trigger] t[j])@ == x;
                    let sj = if j < i { j } else { j + 1 };
                    assert(t[j] == s[sj]);
                    assert(sj != i);
                    assert(s[i as int]@ == name@);
                }
                if name_set(s).contains(x) && x != name@ {
                    let j = choose|j: int| 0 <= j < s.len() && (#[trigger] s[j])@ == x;
                    assert(j != i);
                    let tj = if j < i { j } else { j - 1 };
                    assert(t[tj] == s[j]);
                }
            }
            assert(name_set(t) =~= name_set(s).remove(name@));
            return;
        }
        i = i + 1;
    }
    assert forall|x: Seq<char>| name_set(s).contains(x) implies x != name@ by {
        let j = choose|j: int| 0 <= j < s.len() && (#[trigger] s[j])@ == x;
    }
    assert(name_set(s) =~= name_set(s).remove(name@));
}

} // verus!
