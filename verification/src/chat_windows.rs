//! Chat windows and their subscriptions, keyed by 1-based chat-frame
//! index. A window is created, with default settings, on first touch.
//! (Its alpha, size and colour are floating-point settings kept beside
//! these by the caller.)

use vstd::prelude::*;
use crate::text::str_eq;

verus! {

/// A chat window's flags and subscriptions.
pub struct ChatWindow {
    pub locked: bool,
    pub uninteractable: bool,
    pub channels: Vec<String>,
    pub messages: Vec<String>,
}

/// A chat window by value.
pub struct WindowView {
    pub locked: bool,
    pub uninteractable: bool,
    pub channels: Seq<Seq<char>>,
    pub messages: Seq<Seq<char>>,
}

pub open spec fn strings_view(v: Seq<String>) -> Seq<Seq<char>> {
    v.map_values(|s: String| s@)
}

impl View for ChatWindow {
    type V = WindowView;

    open spec fn view(&self) -> WindowView {
        WindowView {
            locked: self.locked,
            uninteractable: self.uninteractable,
            channels: strings_view(self.channels@),
            messages: strings_view(self.messages@),
        }
    }
}

/// A window as first touched: unlocked, interactable, no subscriptions.
pub open spec fn default_window() -> WindowView {
    WindowView { locked: false, uninteractable: false, channels: Seq::empty(), messages: Seq::empty() }
}

/// All chat windows.
pub struct ChatWindows {
    windows: Vec<(i32, ChatWindow)>,
}

pub open spec fn window_keys_distinct(s: Seq<(i32, ChatWindow)>) -> bool {
    forall|i: int, j: int| 0 <= i < j < s.len() ==> (#[trigger] s[i]).0 != (#[trigger] s[j]).0
}

pub open spec fn windows_view(s: Seq<(i32, ChatWindow)>) -> Map<i32, WindowView> {
    Map::new(
        |k: i32| exists|i: int| 0 <= i < s.len() && (#[trigger] s[i]).0 == k,
        |k: i32| s[choose|i: int| 0 <= i < s.len() && (#[trigger] s[i]).0 == k].1@,
    )
}

/// The window under `index`, or a fresh one.
pub open spec fn window_or_default(m: Map<i32, WindowView>, index: i32) -> WindowView {
    if m.dom().contains(index) {
        m[index]
    } else {
        default_window()
    }
}

/// `add` appended unless already present.
pub open spec fn add_once(s: Seq<Seq<char>>, x: Seq<char>) -> Seq<Seq<char>> {
    if s.contains(x) {
        s
    } else {
        s.push(x)
    }
}

impl View for ChatWindows {
    type V = Map<i32, WindowView>;

    closed spec fn view(&self) -> Map<i32, WindowView> {
        windows_view(self.windows@)
    }
}

fn push_once(v: &mut Vec<String>, x: &str)
    ensures
        strings_view(final(v)@) == add_once(strings_view(old(v)@), x@),
{
    let ghost s = strings_view(v@);
    let mut i: usize = 0;
    while i < v.len()
        invariant
            i <= v@.len(),
            s == strings_view(v@),
            forall|j: int| 0 <= j < i ==> (#[trigger] v@[j])@ != x@,
        decreases v.len() - i,
    {
        if str_eq(v[i].as_str(), x) {
            assert(s[i as int] == x@);
            return;
        }
        i = i + 1;
    }
    assert(!s.contains(x@)) by {
        if s.contains(x@) {
            let j = choose|j: int| 0 <= j < s.len() && s[j] == x@;
            assert(v@[j]@ == s[j]);
        }
    }
    v.push(String::from_str(x));
    assert(strings_view(v@) =~= s.push(x@));
}

fn remove_all(v: &mut Vec<String>, x: &str)
    ensures
        strings_view(final(v)@) == strings_view(old(v)@).filter(|y: Seq<char>| y != x@),
{
    let ghost s = strings_view(v@);
    let mut kept: Vec<String> = Vec::new();
    let mut i: usize = 0;
    while i < v.len()
        invariant
            i <= v@.len(),
            s == strings_view(v@),
            strings_view(kept@) == s.subrange(0, i as int).filter(|y: Seq<char>| y != x@),
        decreases v.len() - i,
    {
        proof {
            let t = s.subrange(0, i + 1);
            assert(t.drop_last() =~= s.subrange(0, i as int));
            assert(t.last() == v@[i as int]@);
            assert(t.filter(|y: Seq<char>| y != x@) == t.drop_last().filter(|y: Seq<char>| y != x@) + (if t.last() != x@ {
                seq![t.last()]
            } else {
                Seq::empty()
            })) by {
                t.drop_last().lemma_filter_push(t.last(), |y: Seq<char>| y != x@);
                assert(t.drop_last().push(t.last()) =~= t);
            }
        }
        if !str_eq(v[i].as_str(), x) {
            let ghost before = strings_view(kept@);
            kept.push(v[i].clone());
            assert(strings_view(kept@) =~= before + seq![v@[i as int]@]);
        } else {
            assert(s.subrange(0, i + 1).filter(|y: Seq<char>| y != x@) =~= s.subrange(0, i as int).filter(|y: Seq<char>| y != x@));
        }
        i = i + 1;
    }
    assert(s.subrange(0, v@.len() as int) =~= s);
    *v = kept;
}

impl ChatWindows {
    pub closed spec fn wf(&self) -> bool {
        window_keys_distinct(self.windows@)
    }

    pub fn new() -> (r: ChatWindows)
        ensures
            r.wf(),
            r@ == Map::<i32, WindowView>::empty(),
    {
        let r = ChatWindows { windows: Vec::new() };
        assert(r@ =~= Map::<i32, WindowView>::empty());
        r
    }

    /// Takes the window under `index` out (a fresh one when there is none).
    fn take(&mut self, index: i32) -> (r: ChatWindow)
        requires
            old(self).wf(),
        ensures
            final(self).wf(),
            final(self)@ == old(self)@.remove(index),
            r@ == window_or_default(old(self)@, index),
    {
        let ghost s = self.windows@;
        let mut i: usize = 0;
        while i < self.windows.len()
            invariant
                i <= s.len(),
                self.windows@ == s,
                s == old(self).windows@,
                window_keys_distinct(s),
                forall|j: int| 0 <= j < i ==> (#[trigger] s[j]).0 != index,
            decreases s.len() - i,
        {
            if self.windows[i].0 == index {
                let (_, w) = self.windows.remove(i);
                proof {
                    let t = self.windows@;
                    assert(t =~= s.remove(i as int));
                    assert(windows_view(s).dom().contains(index));
                    let c = choose|c: int| 0 <= c < s.len() && (#[trigger] s[c]).0 == index;
                    assert(c == i);
                    assert forall|a: int, b: int| 0 <= a < b < t.len() implies (#[trigger] t[a]).0 != (#[trigger] t[b]).0 by {
                        let sa = if a < i { a } else { a + 1 };
                        let sb = if b < i { b } else { b + 1 };
                        assert(t[a] == s[sa] && t[b] == s[sb]);
                    }
                    assert forall|k: i32| #[trigger] windows_view(t).dom().contains(k) == windows_view(s).remove(index).dom().contains(k) by {
                        if windows_view(s).dom().contains(k) && k != index {
                            let a = choose|a: int| 0 <= a < s.len() && (#[trigger] s[a]).0 == k;
                            let b = if a < i { a } else { a - 1 };
                            assert(t[b] == s[a]);
                        }
                        if windows_view(t).dom().contains(k) {
                            let a = choose|a: int| 0 <= a < t.len() && (#[trigger] t[a]).0 == k;
                            let b = if a < i { a } else { a + 1 };
                            assert(t[a] == s[b]);
                        }
                    }
                    assert forall|k: i32| #[trigger] windows_view(t).dom().contains(k) implies windows_view(t)[k] == windows_view(s).remove(index)[k] by {
                        let a = choose|a: int| 0 <= a < t.len() && (#[trigger] t[a]).0 == k;
                        let b = if a < i { a } else { a + 1 };
                        assert(t[a] == s[b]);
                        let c2 = choose|c2: int| 0 <= c2 < s.len() && (#[trigger] s[c2]).0 == k;
                        assert(c2 == b);
                    }
                    assert(windows_view(t) =~= windows_view(s).remove(index));
                }
                return w;
            }
            i = i + 1;
        }
        proof {
            if windows_view(s).dom().contains(index) {
                let c = choose|c: int| 0 <= c < s.len() && (#[trigger] s[c]).0 == index;
            }
            assert(windows_view(s) =~= windows_view(s).remove(index));
        }
        let w = ChatWindow { locked: false, uninteractable: false, channels: Vec::new(), messages: Vec::new() };
        assert(w@.channels =~= Seq::<Seq<char>>::empty());
        assert(w@.messages =~= Seq::<Seq<char>>::empty());
        w
    }

    /// Puts a window under an index that has none.
    fn put(&mut self, index: i32, w: ChatWindow)
        requires
            old(self).wf(),
            !old(self)@.dom().contains(index),
        ensures
            final(self).wf(),
            final(self)@ == old(self)@.insert(index, w@),
    {
        let ghost s = self.windows@;
        let ghost wv = w@;
        self.windows.push((index, w));
        proof {
            let t = self.windows@;
            assert(t[s.len() as int].0 == index);
            assert(t[s.len() as int].1@ == wv);
            assert forall|a: int, b: int| 0 <= a < b < t.len() implies (#[trigger] t[a]).0 != (#[trigger] t[b]).0 by {
                if b < s.len() {
                    assert(t[a] == s[a] && t[b] == s[b]);
                } else {
                    assert(t[a] == s[a]);
                    if s[a].0 == index {
                        assert(windows_view(s).dom().contains(index));
                    }
                }
            }
            assert forall|k: i32| #[trigger] windows_view(t).dom().contains(k) == windows_view(s).insert(index, wv).dom().contains(k) by {
                if windows_view(s).dom().contains(k) {
                    let a = choose|a: int| 0 <= a < s.len() && (#[trigger] s[a]).0 == k;
                    assert(t[a] == s[a]);
                }
                if windows_view(t).dom().contains(k) {
                    let a = choose|a: int| 0 <= a < t.len() && (#[trigger] t[a]).0 == k;
                    if a < s.len() {
                        assert(t[a] == s[a]);
                    }
                }
            }
            assert forall|k: i32| #[trigger] windows_view(t).dom().contains(k) implies windows_view(t)[k] == windows_view(s).insert(index, wv)[k] by {
                let a = choose|a: int| 0 <= a < t.len() && (#[trigger] t[a]).0 == k;
                if a < s.len() {
                    assert(t[a] == s[a]);
                    assert(k != index) by {
                        if k == index {
                            assert(windows_view(s).dom().contains(index));
                        }
                    }
                    let c = choose|c: int| 0 <= c < s.len() && (#[trigger] s[c]).0 == k;
                    assert(c == a);
                } else {
                    assert(k == index);
                }
            }
            assert(windows_view(t) =~= windows_view(s).insert(index, wv));
        }
    }

    /// Creates the window under `index` if it does not exist yet.
    pub fn touch(&mut self, index: i32)
        requires
            old(self).wf(),
        ensures
            final(self).wf(),
            final(self)@ == old(self)@.insert(index, window_or_default(old(self)@, index)),
    {
        let w = self.take(index);
        self.put(index, w);
    }

    /// `SetChatWindowLocked(index, locked)`.
    pub fn set_locked(&mut self, index: i32, locked: bool)
        requires
            old(self).wf(),
        ensures
            final(self).wf(),
            final(self)@ == old(self)@.insert(index, WindowView { locked, ..window_or_default(old(self)@, index) }),
    {
        let mut w = self.take(index);
        w.locked = locked;
        self.put(index, w);
    }

    /// `SetChatWindowUninteractable(index, uninteractable)`.
    pub fn set_uninteractable(&mut self, index: i32, uninteractable: bool)
        requires
            old(self).wf(),
        ensures
            final(self).wf(),
            final(self)@ == old(self)@.insert(
                index,
                WindowView { uninteractable, ..window_or_default(old(self)@, index) },
            ),
    {
        let mut w = self.take(index);
        w.uninteractable = uninteractable;
        self.put(index, w);
    }

    /// `AddChatWindowChannel(index, channel)`: subscribes once; nothing for
    /// an empty channel name.
    pub fn add_channel(&mut self, index: i32, channel: &str)
        requires
            old(self).wf(),
        ensures
            final(self).wf(),
            channel@.len() == 0 ==> final(self)@ == old(self)@,
            channel@.len() > 0 ==> final(self)@ == old(self)@.insert(
                index,
                WindowView {
                    channels: add_once(window_or_default(old(self)@, index).channels, channel@),
                    ..window_or_default(old(self)@, index)
                },
            ),
    {
        if channel.unicode_len() == 0 {
            return;
        }
        let mut w = self.take(index);
        push_once(&mut w.channels, channel);
        self.put(index, w);
    }

    /// `AddChatWindowMessages(index, group)`: subscribes once; nothing for
    /// an empty group.
    pub fn add_messages(&mut self, index: i32, group: &str)
        requires
            old(self).wf(),
        ensures
            final(self).wf(),
            group@.len() == 0 ==> final(self)@ == old(self)@,
            group@.len() > 0 ==> final(self)@ == old(self)@.insert(
                index,
                WindowView {
                    messages: add_once(window_or_default(old(self)@, index).messages, group@),
                    ..window_or_default(old(self)@, index)
                },
            ),
    {
        if group.unicode_len() == 0 {
            return;
        }
        let mut w = self.take(index);
        push_once(&mut w.messages, group);
        self.put(index, w);
    }

    /// `RemoveChatWindowMessages(index, group)`: unsubscribes; nothing for
    /// an empty group.
    pub fn remove_messages(&mut self, index: i32, group: &str)
        requires
            old(self).wf(),
        ensures
            final(self).wf(),
            group@.len() == 0 ==> final(self)@ == old(self)@,
            group@.len() > 0 ==> final(self)@ == old(self)@.insert(
                index,
                WindowView {
                    messages: window_or_default(old(self)@, index).messages.filter(|y: Seq<char>| y != group@),
                    ..window_or_default(old(self)@, index)
                },
            ),
    {
        if group.unicode_len() == 0 {
            return;
        }
        let mut w = self.take(index);
        remove_all(&mut w.messages, group);
        self.put(index, w);
    }

    fn find(&self, index: i32) -> (r: Option<usize>)
        requires
            self.wf(),
        ensures
            match r {
                Some(i) => i < self.windows@.len() && self.windows@[i as int].0 == index && self@.dom().contains(index)
                    && self@[index] == self.windows@[i as int].1@,
                None => !self@.dom().contains(index),
            },
    {
        let mut i: usize = 0;
        while i < self.windows.len()
            invariant
                i <= self.windows@.len(),
                window_keys_distinct(self.windows@),
                forall|j: int| 0 <= j < i ==> (#[trigger] self.windows@[j]).0 != index,
            decreases self.windows.len() - i,
        {
            if self.windows[i].0 == index {
                proof {
                    let s = self.windows@;
                    assert(windows_view(s).dom().contains(index));
                    let c = choose|c: int| 0 <= c < s.len() && (#[trigger] s[c]).0 == index;
                    assert(c == i);
                }
                return Some(i);
            }
            i = i + 1;
        }
        proof {
            let s = self.windows@;
            if windows_view(s).dom().contains(index) {
                let c = choose|c: int| 0 <= c < s.len() && (#[trigger] s[c]).0 == index;
            }
        }
        None
    }

    /// `GetChatWindowChannels(index)`: the window's channels in the order
    /// they were added; none for a window never touched.
    pub fn channels(&self, index: i32) -> (r: Vec<String>)
        requires
            self.wf(),
        ensures
            strings_view(r@) == window_or_default(self@, index).channels,
    {
        match self.find(index) {
            Some(i) => {
                let r = self.windows[i].1.channels.clone();
                assert(strings_view(r@) =~= strings_view(self.windows@[i as int].1.channels@));
                r
            },
            None => {
                let r: Vec<String> = Vec::new();
                assert(strings_view(r@) =~= Seq::<Seq<char>>::empty());
                r
            },
        }
    }

    /// `GetChatWindowMessages(index)`: the window's message groups.
    pub fn messages(&self, index: i32) -> (r: Vec<String>)
        requires
            self.wf(),
        ensures
            strings_view(r@) == window_or_default(self@, index).messages,
    {
        match self.find(index) {
            Some(i) => {
                let r = self.windows[i].1.messages.clone();
                assert(strings_view(r@) =~= strings_view(self.windows@[i as int].1.messages@));
                r
            },
            None => {
                let r: Vec<String> = Vec::new();
                assert(strings_view(r@) =~= Seq::<Seq<char>>::empty());
                r
            },
        }
    }
}

/// Subscribing twice is subscribing once, and a removed message group is
/// gone afterwards.
pub proof fn law_subscriptions(s: Seq<Seq<char>>, x: Seq<char>)
    ensures
        add_once(add_once(s, x), x) == add_once(s, x),
        add_once(s, x).contains(x),
        !add_once(s, x).filter(|y: Seq<char>| y != x).contains(x),
{
    if !s.contains(x) {
        assert(s.push(x)[s.len() as int] == x);
    }
    let f = add_once(s, x).filter(|y: Seq<char>| y != x);
    if f.contains(x) {
        let i = choose|i: int| 0 <= i < f.len() && f[i] == x;
        add_once(s, x).filter_lemma(|y: Seq<char>| y != x);
        assert(f[i] != x);
    }
}

/// Adding a message group that a window did not have and then removing it
/// gives the window back the message list it had before.
pub proof fn law_add_then_remove_messages(s: Seq<Seq<char>>, x: Seq<char>)
    requires
        !s.contains(x),
    ensures
        add_once(s, x).filter(|y: Seq<char>| y != x) == s,
{
    lemma_filter_absent(s, x);
    s.lemma_filter_push(x, |y: Seq<char>| y != x);
}

proof fn lemma_filter_absent(s: Seq<Seq<char>>, x: Seq<char>)
    requires
        !s.contains(x),
    ensures
        s.filter(|y: Seq<char>| y != x) == s,
    decreases s.len(),
{
    if s.len() > 0 {
        let t = s.drop_last();
        assert(!t.contains(x)) by {
            if t.contains(x) {
                let i = choose|i: int| 0 <= i < t.len() && t[i] == x;
                assert(s[i] == x);
            }
        }
        lemma_filter_absent(t, x);
        assert(s.last() != x) by {
            assert(s[s.len() - 1] == s.last());
        }
        t.lemma_filter_push(s.last(), |y: Seq<char>| y != x);
        assert(t.push(s.last()) =~= s);
    }
}

} // verus!
