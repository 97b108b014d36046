//! The account's sessions page as a state machine: revoking another device
//! removes it from the list; revoking this browser signs it out and leaves
//! the page.

use vstd::prelude::*;

use crate::contracts::{AccountSessionSummary, SessionRevokeRequest};
use crate::labels::{server_error_spec, server_error_text};
use crate::text::{decimal, opt_is, owned, push_decimal, str_eq};

verus! {

/// The state of the sessions page.
pub struct SessionsPage {
    pub rows: Vec<AccountSessionSummary>,
    /// The session being revoked.
    pub pending_id: Option<String>,
    pub pending_is_current: bool,
    pub status_message: Option<String>,
    pub error_message: Option<String>,
    /// This browser is being signed out; every button waits.
    pub signing_out: bool,
}

/// What a finished revocation asks of the application.
#[derive(Clone, Copy, Debug, PartialEq, Eq, Structural)]
pub enum RevokeOutcome {
    /// Stay on the page.
    Stay,
    /// This browser was signed out: go to the sign-in page.
    LeaveForLogin,
}

/// The fields of a listed session.
pub open spec fn session_row_view(s: AccountSessionSummary) -> (Seq<char>, bool, Seq<char>, u64) {
    (s.session_id@, s.current, s.assurance@, s.expires_at_ms)
}

pub open spec fn rows_view(v: Seq<AccountSessionSummary>) -> Seq<(Seq<char>, bool, Seq<char>, u64)> {
    v.map_values(|s: AccountSessionSummary| session_row_view(s))
}

/// The listed sessions other than `id`, in order.
pub open spec fn rows_without(v: Seq<(Seq<char>, bool, Seq<char>, u64)>, id: Seq<char>) -> Seq<
    (Seq<char>, bool, Seq<char>, u64),
>
    decreases v.len(),
{
    if v.len() == 0 {
        v
    } else if v.last().0 == id {
        rows_without(v.drop_last(), id)
    } else {
        rows_without(v.drop_last(), id).push(v.last())
    }
}

fn copy_row(s: &AccountSessionSummary) -> (r: AccountSessionSummary)
    ensures
        session_row_view(r) == session_row_view(*s),
{
    AccountSessionSummary {
        session_id: owned(s.session_id.as_str()),
        current: s.current,
        assurance: owned(s.assurance.as_str()),
        expires_at_ms: s.expires_at_ms,
    }
}

fn rows_other_than(v: &Vec<AccountSessionSummary>, id: &str) -> (r: Vec<AccountSessionSummary>)
    ensures
        rows_view(r@) == rows_without(rows_view(v@), id@),
{
    let mut r: Vec<AccountSessionSummary> = Vec::new();
    let mut i: usize = 0;
    while i < v.len()
        invariant
            i <= v@.len(),
            rows_view(r@) == rows_without(rows_view(v@.subrange(0, i as int)), id@),
        decreases v@.len() - i,
    {
        let ghost before = r@;
        proof {
            assert(rows_view(v@.subrange(0, i + 1)).drop_last() =~= rows_view(
                v@.subrange(0, i as int),
            ));
            assert(rows_view(v@.subrange(0, i + 1)).last() == session_row_view(v@[i as int]));
        }
        if !str_eq(v[i].session_id.as_str(), id) {
            r.push(copy_row(&v[i]));
            proof {
                assert(rows_view(r@) =~= rows_view(before).push(session_row_view(v@[i as int])));
            }
        }
        i += 1;
    }
    proof {
        assert(v@.subrange(0, v@.len() as int) =~= v@);
    }
    r
}

impl SessionsPage {
    pub fn new() -> (r: SessionsPage)
        ensures
            r.rows@.len() == 0,
            r.pending_id is None,
            !r.pending_is_current,
            r.status_message is None,
            r.error_message is None,
            !r.signing_out,
    {
        SessionsPage {
            rows: Vec::new(),
            pending_id: None,
            pending_is_current: false,
            status_message: None,
            error_message: None,
            signing_out: false,
        }
    }

    /// The list arrived.
    pub fn loaded(&mut self, rows: Vec<AccountSessionSummary>)
        ensures
            final(self).rows == rows,
            final(self).pending_id == old(self).pending_id,
            final(self).pending_is_current == old(self).pending_is_current,
            final(self).status_message == old(self).status_message,
            final(self).error_message == old(self).error_message,
            final(self).signing_out == old(self).signing_out,
    {
        self.rows = rows;
    }

    /// A revoke button: the request to send. Revoking this browser starts
    /// signing it out at once.
    pub fn revoke_clicked(&mut self, session_id: &str, is_current: bool) -> (r: SessionRevokeRequest)
        ensures
            r.session_id@ == session_id@,
            opt_is(final(self).pending_id, session_id@),
            final(self).pending_is_current == is_current,
            final(self).error_message is None,
            is_current ==> final(self).signing_out && opt_is(
                final(self).status_message,
                "Signing you out of this browser\u{2026}"@,
            ),
            !is_current ==> final(self).signing_out == old(self).signing_out
                && final(self).status_message is None,
            final(self).rows == old(self).rows,
    {
        self.error_message = None;
        self.status_message = None;
        self.pending_id = Some(owned(session_id));
        self.pending_is_current = is_current;
        if is_current {
            self.signing_out = true;
            self.status_message = Some(owned("Signing you out of this browser\u{2026}"));
        }
        SessionRevokeRequest { session_id: owned(session_id) }
    }

    /// The revocation went through. This browser's own session sends it to the
    /// sign-in page; another one leaves the list.
    pub fn revoke_succeeded(&mut self) -> (r: RevokeOutcome)
        ensures
            final(self).pending_id is None,
            final(self).error_message is None,
            old(self).pending_is_current ==> {
                &&& r == RevokeOutcome::LeaveForLogin
                &&& final(self).signing_out
                &&& opt_is(final(self).status_message, "Signing you out\u{2026}"@)
                &&& final(self).rows == old(self).rows
            },
            !old(self).pending_is_current ==> {
                &&& r == RevokeOutcome::Stay
                &&& final(self).signing_out == old(self).signing_out
                &&& opt_is(
                    final(self).status_message,
                    "Session revoked. That device is signed out immediately if online, or on its next request if offline."@,
                )
                &&& match old(self).pending_id {
                    Some(id) => rows_view(final(self).rows@) == rows_without(
                        rows_view(old(self).rows@),
                        id@,
                    ),
                    None => final(self).rows == old(self).rows,
                }
            },
            final(self).pending_is_current == old(self).pending_is_current,
    {
        let id = self.pending_id.take();
        self.error_message = None;
        if self.pending_is_current {
            self.signing_out = true;
            self.status_message = Some(owned("Signing you out\u{2026}"));
            return RevokeOutcome::LeaveForLogin;
        }
        match id {
            Some(id) => {
                let kept = rows_other_than(&self.rows, id.as_str());
                self.rows = kept;
            },
            None => {},
        }
        self.status_message = Some(
            owned(
                "Session revoked. That device is signed out immediately if online, or on its next request if offline.",
            ),
        );
        RevokeOutcome::Stay
    }

    /// The revocation failed: nothing is pending any more and the error is shown.
    pub fn revoke_failed(&mut self, error: &str)
        ensures
            final(self).pending_id is None,
            !final(self).pending_is_current,
            !final(self).signing_out,
            final(self).status_message is None,
            opt_is(final(self).error_message, server_error_spec(error@)),
            final(self).rows == old(self).rows,
    {
        self.pending_id = None;
        self.pending_is_current = false;
        self.signing_out = false;
        self.status_message = None;
        self.error_message = Some(server_error_text(error));
    }

    fn is_pending(&self, session_id: &str) -> (r: bool)
        ensures
            r == (self.pending_id matches Some(p) && p@ == session_id@),
    {
        match &self.pending_id {
            Some(p) => str_eq(p.as_str(), session_id),
            None => false,
        }
    }

    /// Whether a row's button is disabled: while any revocation runs, while
    /// this browser signs out, and while the row itself is pending.
    pub fn revoke_disabled(&self, session_id: &str, revoke_pending: bool) -> (r: bool)
        ensures
            r == (revoke_pending || self.signing_out || (self.pending_id matches Some(p) && p@
                == session_id@)),
    {
        revoke_pending || self.signing_out || self.is_pending(session_id)
    }

    /// A row's button label.
    pub fn revoke_label(&self, session_id: &str, is_current: bool, revoke_pending: bool) -> (r:
        &'static str)
        ensures
            r@ == if (self.pending_id matches Some(p) && p@ == session_id@) && (revoke_pending
                || self.signing_out) {
                if is_current {
                    "Signing out\u{2026}"@
                } else {
                    "Revoking\u{2026}"@
                }
            } else if is_current {
                "Sign out this browser"@
            } else {
                "Revoke access"@
            },
    {
        if self.is_pending(session_id) && (revoke_pending || self.signing_out) {
            if is_current {
                "Signing out\u{2026}"
            } else {
                "Revoking\u{2026}"
            }
        } else if is_current {
            "Sign out this browser"
        } else {
            "Revoke access"
        }
    }
}

/// The expiry line of a session card.
pub fn session_expiry_label(expires_at_ms: u64) -> (r: String)
    ensures
        r@ == "Expires at "@ + decimal(expires_at_ms as nat),
{
    let mut r = owned("Expires at ");
    push_decimal(&mut r, expires_at_ms);
    r
}

} // verus!
