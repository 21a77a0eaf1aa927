//! `C_ReportSystem`: player reports are opened with a token and sent once.

use vstd::prelude::*;

verus! {

/// An opened report: its token and report type.
pub struct PendingReport {
    pub token: i64,
    pub report_type: String,
}

/// The tokens handed out so far and the reports not yet sent.
pub struct ReportState {
    next_report_token: i64,
    pending: Vec<PendingReport>,
}

/// The pending reports by token.
pub open spec fn pending_view(s: Seq<PendingReport>) -> Map<i64, Seq<char>> {
    Map::new(
        |t: i64| exists|i: int| 0 <= i < s.len() && (#[trigger] s[i]).token == t,
        |t: i64| s[choose|i: int| 0 <= i < s.len() && (#[trigger] s[i]).token == t].report_type@,
    )
}

impl ReportState {
    /// Every pending token was handed out already (it is below the next
    /// one), and no token is pending twice.
    pub closed spec fn wf(&self) -> bool {
        &&& forall|i: int| 0 <= i < self.pending@.len() ==> (#[trigger] self.pending@[i]).token < self.next_report_token
        &&& forall|i: int, j: int|
            0 <= i < j < self.pending@.len() ==> (#[trigger] self.pending@[i]).token != (#[trigger] self.pending@[j]).token
    }

    pub closed spec fn next_token(&self) -> i64 {
        self.next_report_token
    }

    pub closed spec fn pending_reports(&self) -> Map<i64, Seq<char>> {
        pending_view(self.pending@)
    }

    /// Tokens start at `first_token`.
    pub fn new(first_token: i64) -> (r: ReportState)
        ensures
            r.wf(),
            r.next_token() == first_token,
            r.pending_reports() == Map::<i64, Seq<char>>::empty(),
    {
        let r = ReportState { next_report_token: first_token, pending: Vec::new() };
        assert(r.pending_reports() =~= Map::<i64, Seq<char>>::empty());
        r
    }

    /// The token the next report will get.
    pub fn next_report_token(&self) -> (r: i64)
        ensures
            r == self.next_token(),
    {
        self.next_report_token
    }

    /// `InitiateReportPlayer(reportType)`: opens a report under the next
    /// token and returns that token.
    pub fn initiate_report_player(&mut self, report_type: &str) -> (token: i64)
        requires
            old(self).wf(),
            old(self).next_token() < i64::MAX,
        ensures
            final(self).wf(),
            token == old(self).next_token(),
            final(self).next_token() == old(self).next_token() + 1,
            !old(self).pending_reports().dom().contains(token),
            final(self).pending_reports() == old(self).pending_reports().insert(token, report_type@),
    {
        let token = self.next_report_token;
        let ghost s = self.pending@;
        self.next_report_token = self.next_report_token + 1;
        self.pending.push(PendingReport { token, report_type: String::from_str(report_type) });
        proof {
            let t = self.pending@;
            assert(t[s.len() as int].token == token);
            assert forall|k: i64| #[trigger] pending_view(t).dom().contains(k) == pending_view(s).insert(token, report_type@).dom().contains(k) by {
                if pending_view(s).dom().contains(k) {
                    let i = choose|i: int| 0 <= i < s.len() && (#[trigger] s[i]).token == k;
                    assert(t[i] == s[i]);
                }
                if pending_view(t).dom().contains(k) {
                    let i = choose|i: int| 0 <= i < t.len() && (#[trigger] t[i]).token == k;
                    if i < s.len() {
                        assert(t[i] == s[i]);
                    }
                }
            }
            assert forall|k: i64| #[trigger] pending_view(t).dom().contains(k) implies pending_view(t)[k] == pending_view(s).insert(token, report_type@)[k] by {
                let i = choose|i: int| 0 <= i < t.len() && (#[trigger] t[i]).token == k;
                if i < s.len() {
                    assert(t[i] == s[i]);
                    assert(k != token);
                    let j = choose|j: int| 0 <= j < s.len() && (#[trigger] s[j]).token == k;
                    assert(i == j);
                } else {
                    assert(k == token);
                }
            }
            assert(pending_view(t) =~= pending_view(s).insert(token, report_type@));
            if pending_view(s).dom().contains(token) {
                let i = choose|i: int| 0 <= i < s.len() && (#[trigger] s[i]).token == token;
            }
        }
        token
    }

    /// `SendReportPlayer(token, comment)`: sends and forgets the report
    /// opened under `token`, returning its type (the `REPORT_PLAYER_RESULT`
    /// event carries it); nothing for a token that is not pending.
    pub fn send_report_player(&mut self, token: i64) -> (r: Option<String>)
        requires
            old(self).wf(),
        ensures
            final(self).wf(),
            final(self).next_token() == old(self).next_token(),
            match r {
                Some(t) => old(self).pending_reports().dom().contains(token) && t@ == old(
                    self,
                ).pending_reports()[token],
                None => !old(self).pending_reports().dom().contains(token),
            },
            final(self).pending_reports() == old(self).pending_reports().remove(token),
    {
        let ghost s = self.pending@;
        let mut i: usize = 0;
        while i < self.pending.len()
            invariant
                i <= s.len(),
                self.pending@ == s,
                s == old(self).pending@,
                self.next_report_token == old(self).next_report_token,
                self.wf(),
                forall|j: int| 0 <= j < i ==> (#[trigger] s[j]).token != token,
            decreases s.len() - i,
        {
            if self.pending[i].token == token {
                let rep = self.pending.remove(i);
                proof {
                    let t = self.pending@;
                    assert(t =~= s.remove(i as int));
                    assert(pending_view(s).dom().contains(token));
                    let j = choose|j: int| 0 <= j < s.len() && (#[trigger] s[j]).token == token;
                    assert(j == i);
                    assert forall|k: i64| #[trigger] pending_view(t).dom().contains(k) == pending_view(s).remove(token).dom().contains(k) by {
                        if pending_view(s).dom().contains(k) && k != token {
                            let a = choose|a: int| 0 <= a < s.len() && (#[trigger] s[a]).token == k;
                            let b = if a < i { a } else { a - 1 };
                            assert(t[b] == s[a]);
                        }
                        if pending_view(t).dom().contains(k) {
                            let a = choose|a: int| 0 <= a < t.len() && (#[trigger] t[a]).token == k;
                            let b = if a < i { a } else { a + 1 };
                            assert(t[a] == s[b]);
                        }
                    }
                    assert forall|k: i64| #[trigger] pending_view(t).dom().contains(k) implies pending_view(t)[k] == pending_view(s).remove(token)[k] by {
                        let a = choose|a: int| 0 <= a < t.len() && (#[trigger] t[a]).token == k;
                        let b = if a < i { a } else { a + 1 };
                        assert(t[a] == s[b]);
                        let c = choose|c: int| 0 <= c < s.len() && (#[trigger] s[c]).token == k;
                        assert(c == b);
                    }
                    assert(pending_view(t) =~= pending_view(s).remove(token));
                    assert forall|a: int, b: int| 0 <= a < b < t.len() implies (#[trigger] t[a]).token != (#[trigger] t[b]).token by {
                        let sa = if a < i { a } else { a + 1 };
                        let sb = if b < i { b } else { b + 1 };
                        assert(t[a] == s[sa] && t[b] == s[sb]);
                    }
                    assert forall|a: int| 0 <= a < t.len() implies (#[trigger] t[a]).token < self.next_report_token by {
                        let sa = if a < i { a } else { a + 1 };
                        assert(t[a] == s[sa]);
                    }
                }
                return Some(rep.report_type);
            }
            i = i + 1;
        }
        proof {
            if pending_view(s).dom().contains(token) {
                let j = choose|j: int| 0 <= j < s.len() && (#[trigger] s[j]).token == token;
            }
            assert(pending_view(s) =~= pending_view(s).remove(token));
        }
        None
    }
}

/// A report is sent at most once: sending the token that
/// `InitiateReportPlayer` returned gives back its type, and sending it
/// again finds nothing.
pub proof fn law_report_sent_once(pending: Map<i64, Seq<char>>, token: i64, report_type: Seq<char>)
    requires
        !pending.dom().contains(token),
    ensures
        pending.insert(token, report_type).dom().contains(token),
        pending.insert(token, report_type)[token] == report_type,
        !pending.insert(token, report_type).remove(token).dom().contains(token),
        pending.insert(token, report_type).remove(token) == pending,
{
    assert(pending.insert(token, report_type).remove(token) =~= pending);
}

} // verus!
