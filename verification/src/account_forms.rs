//! The checks the small account forms make before they send anything: the
//! password change, the password reset, the verification mails and the
//! invitation link.

use vstd::prelude::*;

use crate::browser::{first_http_url_in_text, first_url_from};
use crate::contracts::{
    EmailVerificationCompleteRequest, EmailVerificationResendRequest, InvitationAcceptRequest,
    PasswordChangeRequest, PasswordResetCompleteRequest, PasswordResetStartRequest,
};
use crate::labels::{email_only_error, validate_email_only};
use crate::text::{chars_of, opt_is, opt_text, owned, push_str, str_eq, trim, trimmed_string};

verus! {

/// Where every completed account flow returns.
pub open spec fn dashboard_path() -> Seq<char> {
    "/dashboard"@
}

// ---------------------------------------------------------------------------
// Changing the password
// ---------------------------------------------------------------------------

/// The error of the password change form, if any: the new password must have
/// at least 15 characters, match its confirmation and differ from the current one.
pub open spec fn password_change_error(current: Seq<char>, next: Seq<char>, confirm: Seq<char>) -> Option<
    Seq<char>,
> {
    if next.len() < 15 {
        Some("New password must be at least 15 characters."@)
    } else if next != confirm {
        Some("New password and confirmation do not match."@)
    } else if next == current {
        Some("New password must be different from the current password."@)
    } else {
        None
    }
}

/// The request of the password change form, or the error it shows.
pub fn password_change_request(current: &str, next: &str, confirm: &str) -> (r: Result<
    PasswordChangeRequest,
    String,
>)
    ensures
        match password_change_error(current@, next@, confirm@) {
            Some(m) => r matches Err(e) && e@ == m,
            None => r matches Ok(q) && q.current_password@ == current@ && q.new_password@
                == next@,
        },
{
    if chars_of(next).len() < 15 {
        return Err(owned("New password must be at least 15 characters."));
    }
    if !str_eq(next, confirm) {
        return Err(owned("New password and confirmation do not match."));
    }
    if str_eq(next, current) {
        return Err(owned("New password must be different from the current password."));
    }
    Ok(PasswordChangeRequest { current_password: owned(current), new_password: owned(next) })
}

/// Whether the update button is enabled: nothing running, the current
/// password typed, and the new one passing the form's checks.
pub fn password_change_ready(pending: bool, current: &str, next: &str, confirm: &str) -> (r: bool)
    ensures
        r == (!pending && current@.len() > 0 && password_change_error(current@, next@, confirm@)
            is None),
{
    !pending && chars_of(current).len() > 0 && chars_of(next).len() >= 15 && str_eq(next, confirm)
        && !str_eq(next, current)
}

// ---------------------------------------------------------------------------
// Resetting a forgotten password
// ---------------------------------------------------------------------------

/// The request of the forgotten-password form: the trimmed email, when it
/// passes the email check.
pub fn password_reset_start_request(email: &str) -> (r: Result<PasswordResetStartRequest, String>)
    ensures
        match email_only_error(trim(email@)) {
            Some(m) => r matches Err(e) && e@ == m,
            None => r matches Ok(q) && q.email@ == trim(email@) && opt_is(
                q.redirect_url,
                dashboard_path(),
            ),
        },
{
    let e = trimmed_string(email);
    match validate_email_only(e.as_str()) {
        Err(m) => Err(m),
        Ok(()) => Ok(
            PasswordResetStartRequest { email: e, redirect_url: Some(owned("/dashboard")) },
        ),
    }
}

/// The error of the reset form, if any: the link's token must be present and
/// the password must have 15 to 128 characters.
pub open spec fn password_reset_error(token: Option<Seq<char>>, password: Seq<char>) -> Option<Seq<char>> {
    if token is None {
        Some("Reset token is missing."@)
    } else if !(15 <= password.len() <= 128) {
        Some("Password must contain 15 to 128 characters."@)
    } else {
        None
    }
}

/// The request of the reset form, or the error it shows.
pub fn password_reset_complete_request(token: Option<String>, password: &str) -> (r: Result<
    PasswordResetCompleteRequest,
    String,
>)
    ensures
        match password_reset_error(opt_text(token), password@) {
            Some(m) => r matches Err(e) && e@ == m,
            None => r matches Ok(q) && Some(q.token) == token && q.password@ == password@
                && opt_is(q.redirect_url, dashboard_path()),
        },
{
    let n = chars_of(password).len();
    match token {
        None => Err(owned("Reset token is missing.")),
        Some(t) => {
            if !(15 <= n && n <= 128) {
                return Err(owned("Password must contain 15 to 128 characters."));
            }
            Ok(
                PasswordResetCompleteRequest {
                    token: t,
                    password: owned(password),
                    redirect_url: Some(owned("/dashboard")),
                },
            )
        },
    }
}

// ---------------------------------------------------------------------------
// Verification mails and invitations
// ---------------------------------------------------------------------------

/// The verification page sends the link's token once, returning to the dashboard.
pub fn email_verification_request(token: Option<String>) -> (r: Option<
    EmailVerificationCompleteRequest,
>)
    ensures
        token is None ==> r is None,
        token matches Some(t) ==> (r matches Some(q) && q.token == t && opt_is(
            q.redirect_url,
            dashboard_path(),
        )),
{
    match token {
        Some(t) => Some(
            EmailVerificationCompleteRequest { token: t, redirect_url: Some(owned("/dashboard")) },
        ),
        None => None,
    }
}

/// The resend form sends the email as typed.
pub fn resend_verification_request(email: &str) -> (r: EmailVerificationResendRequest)
    ensures
        r.email@ == email@,
        opt_is(r.redirect_url, dashboard_path()),
{
    EmailVerificationResendRequest { email: owned(email), redirect_url: Some(owned("/dashboard")) }
}

/// Where a captured development mail leads: its action link when it has a
/// non-empty one, else the first link in its text.
pub open spec fn captured_mail_target_spec(action_url: Option<Seq<char>>, body_text: Seq<char>) -> Option<
    Seq<char>,
> {
    match action_url {
        Some(u) => if u.len() > 0 {
            Some(u)
        } else {
            first_url_from(body_text, 0)
        },
        None => first_url_from(body_text, 0),
    }
}

pub fn captured_mail_target(action_url: &Option<String>, body_text: &str) -> (r: Option<String>)
    ensures
        opt_text(r) == captured_mail_target_spec(
            opt_text(*action_url),
            body_text@,
        ),
{
    match action_url {
        Some(u) => {
            if chars_of(u.as_str()).len() > 0 {
                return Some(owned(u.as_str()));
            }
        },
        None => {},
    }
    first_http_url_in_text(body_text)
}

/// The invitation page sends the link's token; without one it explains where
/// to open the page from.
pub fn invitation_accept_request(token: Option<String>) -> (r: Result<InvitationAcceptRequest, String>)
    ensures
        token is None ==> (r matches Err(e) && e@
            == "Invitation token is missing. Open the one-time link from your email."@),
        token matches Some(t) ==> (r matches Ok(q) && q.token == t),
{
    match token {
        Some(t) => Ok(InvitationAcceptRequest { token: t }),
        None => Err(owned("Invitation token is missing. Open the one-time link from your email.")),
    }
}

/// The line shown once an invitation is accepted.
pub fn invitation_joined_text(organization_name: &str, role: &str) -> (r: String)
    ensures
        r@ == "You joined "@ + organization_name@ + ". Role: "@ + role@ + "."@,
{
    let mut r = owned("You joined ");
    push_str(&mut r, organization_name);
    push_str(&mut r, ". Role: ");
    push_str(&mut r, role);
    push_str(&mut r, ".");
    r
}

} // verus!
