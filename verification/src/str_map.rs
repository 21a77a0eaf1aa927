//! A small map from string keys to `i32` values, kept as a list of entries
//! with distinct keys, the shape of a Lua table keyed by strings. (vstd's
//! `HashMap` specification holds only for key types with a hash model, and
//! `String` has none, so a `HashMap<String, i32>` here would prove nothing
//! of what it stores.)

use vstd::prelude::*;
use crate::text::str_eq;

verus! {

pub struct StrMap {
    entries: Vec<(String, i32)>,
}

pub open spec fn has_str_key(s: Seq<(String, i32)>, k: Seq<char>) -> bool {
    exists|i: int| 0 <= i < s.len() && (#[trigger] s[i]).0@ == k
}

pub open spec fn str_keys_distinct(s: Seq<(String, i32)>) -> bool {
    forall|i: int, j: int|
        0 <= i < s.len() && 0 <= j < s.len() && i != j ==> (#[trigger] s[i]).0@ != (#[trigger] s[j]).0@
}

pub open spec fn str_entries_view(s: Seq<(String, i32)>) -> Map<Seq<char>, i32> {
    Map::new(
        |k: Seq<char>| has_str_key(s, k),
        |k: Seq<char>| s[choose|i: int| 0 <= i < s.len() && (#[trigger] s[i]).0@ == k].1,
    )
}

proof fn lemma_str_view_at(s: Seq<(String, i32)>, i: int)
    requires
        str_keys_distinct(s),
        0 <= i < s.len(),
    ensures
        str_entries_view(s).dom().contains(s[i].0@),
        str_entries_view(s)[s[i].0@] == s[i].1,
{
    let k = s[i].0@;
    assert(has_str_key(s, k));
    let j = choose|j: int| 0 <= j < s.len() && (#[trigger] s[j]).0@ == k;
    assert(j == i);
}

impl View for StrMap {
    type V = Map<Seq<char>, i32>;

    closed spec fn view(&self) -> Map<Seq<char>, i32> {
        str_entries_view(self.entries@)
    }
}

impl StrMap {
    /// Well-formedness: no key occurs twice.
    pub closed spec fn wf(&self) -> bool {
        str_keys_distinct(self.entries@)
    }

    pub fn new() -> (r: StrMap)
        ensures
            r.wf(),
            r@ == Map::<Seq<char>, i32>::empty(),
    {
        let r = StrMap { entries: Vec::new() };
        assert(r@ =~= Map::<Seq<char>, i32>::empty());
        r
    }

    fn position(&self, k: &str) -> (r: Option<usize>)
        requires
            self.wf(),
        ensures
            r matches Some(i) ==> i < self.entries@.len() && self.entries@[i as int].0@ == k@,
            r is None ==> !has_str_key(self.entries@, k@),
    {
        let mut i: usize = 0;
        while i < self.entries.len()
            invariant
                i <= self.entries@.len(),
                forall|j: int| 0 <= j < i ==> (#[trigger] self.entries@[j]).0@ != k@,
            decreases self.entries.len() - i,
        {
            if str_eq(self.entries[i].0.as_str(), k) {
                return Some(i);
            }
            i = i + 1;
        }
        None
    }

    /// The value stored under `k`, if any.
    pub fn get(&self, k: &str) -> (r: Option<i32>)
        requires
            self.wf(),
        ensures
            r == (if self@.dom().contains(k@) {
                Some(self@[k@])
            } else {
                None::<i32>
            }),
    {
        match self.position(k) {
            Some(i) => {
                proof {
                    lemma_str_view_at(self.entries@, i as int);
                }
                Some(self.entries[i].1)
            },
            None => None,
        }
    }

    /// Stores `v` under `k`, replacing any earlier value.
    pub fn insert(&mut self, k: String, v: i32)
        requires
            old(self).wf(),
        ensures
            final(self).wf(),
            final(self)@ == old(self)@.insert(k@, v),
    {
        let ghost s = self.entries@;
        let ghost kv = k@;
        match self.position(k.as_str()) {
            Some(i) => {
                self.entries.set(i, (k, v));
                let ghost t = self.entries@;
                assert(t[i as int].0@ == kv);
                assert forall|a: int, b: int|
                    0 <= a < t.len() && 0 <= b < t.len() && a != b implies (#[trigger] t[a]).0@
                    != (#[trigger] t[b]).0@ by {
                    if a != i && b != i {
                        assert(t[a] == s[a] && t[b] == s[b]);
                    } else if a == i {
                        assert(t[b] == s[b]);
                        assert(s[i as int].0@ == kv);
                    } else {
                        assert(t[a] == s[a]);
                        assert(s[i as int].0@ == kv);
                    }
                }
                assert forall|key: Seq<char>| #[trigger] has_str_key(t, key) == (key == kv || has_str_key(s, key)) by {
                    if has_str_key(s, key) {
                        let j = choose|j: int| 0 <= j < s.len() && (#[trigger] s[j]).0@ == key;
                        if j != i {
                            assert(t[j] == s[j]);
                            assert(t[j].0@ == key);
                        } else {
                            assert(t[i as int].0@ == key);
                        }
                    }
                    if has_str_key(t, key) {
                        let j = choose|j: int| 0 <= j < t.len() && (#[trigger] t[j]).0@ == key;
                        if j != i {
                            assert(t[j] == s[j]);
                            assert(s[j].0@ == key);
                        }
                    }
                    if key == kv {
                        assert(t[i as int].0@ == kv);
                    }
                }
                assert forall|key: Seq<char>| #[trigger] str_entries_view(t).dom().contains(key) implies str_entries_view(
                    t,
                )[key] == str_entries_view(s).insert(kv, v)[key] by {
                    let j = choose|j: int| 0 <= j < t.len() && (#[trigger] t[j]).0@ == key;
                    lemma_str_view_at(t, j);
                    if j != i {
                        assert(t[j] == s[j]);
                        lemma_str_view_at(s, j);
                    }
                }
                assert(str_entries_view(t) =~= str_entries_view(s).insert(kv, v));
            },
            None => {
                self.entries.push((k, v));
                let ghost t = self.entries@;
                assert(t[s.len() as int].0@ == kv);
                assert forall|a: int, b: int|
                    0 <= a < t.len() && 0 <= b < t.len() && a != b implies (#[trigger] t[a]).0@
                    != (#[trigger] t[b]).0@ by {
                    if a < s.len() && b < s.len() {
                        assert(t[a] == s[a] && t[b] == s[b]);
                    } else if a < s.len() {
                        assert(t[a] == s[a]);
                        assert(!has_str_key(s, kv));
                        assert(s[a].0@ != kv);
                    } else {
                        assert(t[b] == s[b]);
                        assert(s[b].0@ != kv);
                    }
                }
                assert forall|key: Seq<char>| #[trigger] has_str_key(t, key) == (key == kv || has_str_key(s, key)) by {
                    if has_str_key(s, key) {
                        let j = choose|j: int| 0 <= j < s.len() && (#[trigger] s[j]).0@ == key;
                        assert(t[j] == s[j]);
                        assert(t[j].0@ == key);
                    }
                    if has_str_key(t, key) {
                        let j = choose|j: int| 0 <= j < t.len() && (#[trigger] t[j]).0@ == key;
                        if j < s.len() {
                            assert(t[j] == s[j]);
                            assert(s[j].0@ == key);
                        }
                    }
                }
                assert forall|key: Seq<char>| #[trigger] str_entries_view(t).dom().contains(key) implies str_entries_view(
                    t,
                )[key] == str_entries_view(s).insert(kv, v)[key] by {
                    let j = choose|j: int| 0 <= j < t.len() && (#[trigger] t[j]).0@ == key;
                    lemma_str_view_at(t, j);
                    if j < s.len() {
                        assert(t[j] == s[j]);
                        lemma_str_view_at(s, j);
                    }
                }
                assert(str_entries_view(t) =~= str_entries_view(s).insert(kv, v));
            },
        }
    }
}

} // verus!
