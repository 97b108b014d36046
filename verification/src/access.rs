//! Access decisions: what a session may see and do, and how a route turns a
//! session, a verified token or a CSRF token into a permit or an error.

use vstd::prelude::*;

use crate::contracts::{SessionView, TokenVerifyResponse};
use crate::error::{error_view, fails_with, AuthStackError, AuthStackResult, ErrorView};
use crate::requests::string_views;
use crate::text::{
    chars_of, lower_seq, lowercase_range, owned, push_str, range_eq, range_starts_with,
    starts_with, str_eq, string_of_range, trim, trim_range,
};

verus! {

// ---------------------------------------------------------------------------
// Lists of permission names
// ---------------------------------------------------------------------------

/// Some entry of `list` is the text `t`.
pub open spec fn text_in(list: Seq<String>, t: Seq<char>) -> bool {
    exists|i: int| 0 <= i < list.len() && #[trigger] list[i]@ == t
}

/// Some entry of `list` starts with `p`.
pub open spec fn some_starts_with(list: Seq<String>, p: Seq<char>) -> bool {
    exists|i: int| 0 <= i < list.len() && starts_with(#[trigger] list[i]@, p)
}

/// Whether `list` holds the text `item`.
pub fn list_contains(list: &Vec<String>, item: &str) -> (r: bool)
    ensures
        r == text_in(list@, item@),
{
    let mut i: usize = 0;
    while i < list.len()
        invariant
            i <= list@.len(),
            forall|k: int| 0 <= k < i ==> #[trigger] list@[k]@ != item@,
        decreases list@.len() - i,
    {
        if str_eq(list[i].as_str(), item) {
            return true;
        }
        i += 1;
    }
    false
}

/// Whether `s` starts with `p`.
pub fn str_starts_with(s: &str, p: &str) -> (r: bool)
    ensures
        r == starts_with(s@, p@),
{
    let v = chars_of(s);
    let n = v.len();
    proof {
        assert(v@.subrange(0, n as int) == v@);
    }
    range_starts_with(&v, 0, n, p)
}

fn list_has_prefix(list: &Vec<String>, p: &str) -> (r: bool)
    ensures
        r == some_starts_with(list@, p@),
{
    let mut i: usize = 0;
    while i < list.len()
        invariant
            i <= list@.len(),
            forall|k: int| 0 <= k < i ==> !starts_with(#[trigger] list@[k]@, p@),
        decreases list@.len() - i,
    {
        if str_starts_with(list[i].as_str(), p) {
            return true;
        }
        i += 1;
    }
    false
}

// ---------------------------------------------------------------------------
// Session capabilities
// ---------------------------------------------------------------------------

/// The session is a system administrator who has stepped up to the second
/// assurance level.
pub open spec fn elevated_administrator(session: SessionView) -> bool {
    session.system_administrator && session.assurance@ == "aal2"@
}

/// Whether the session holds `permission`.
pub fn has_permission(session: &SessionView, permission: &str) -> (r: bool)
    ensures
        r == text_in(session.permissions@, permission@),
{
    list_contains(&session.permissions, permission)
}

/// Whether the system section of the navigation is shown: to stepped-up
/// administrators, and to holders of a `system.` or `auth:` permission.
pub fn can_view_system_navigation(session: &SessionView) -> (r: bool)
    ensures
        r == (elevated_administrator(*session) || some_starts_with(session.permissions@, "system."@)
            || some_starts_with(session.permissions@, "auth:"@)),
{
    (session.system_administrator && str_eq(session.assurance.as_str(), "aal2")) || list_has_prefix(
        &session.permissions,
        "system.",
    ) || list_has_prefix(&session.permissions, "auth:")
}

/// Permissions that only system administration grants.
pub open spec fn system_administration_permission(permission: Seq<char>) -> bool {
    starts_with(permission, "system."@) || starts_with(permission, "auth:"@) || starts_with(
        permission,
        "authz:"@,
    )
}

/// Whether a permission belongs to system administration.
pub fn is_system_administration_permission(permission: &str) -> (r: bool)
    ensures
        r == system_administration_permission(permission@),
{
    str_starts_with(permission, "system.") || str_starts_with(permission, "auth:")
        || str_starts_with(permission, "authz:")
}

/// Whether the session may use `permission` by virtue of being a stepped-up
/// system administrator.
pub fn system_administrator_may(permission: &str, session: &SessionView) -> (r: bool)
    ensures
        r == (elevated_administrator(*session) && system_administration_permission(permission@)),
{
    session.system_administrator && str_eq(session.assurance.as_str(), "aal2")
        && is_system_administration_permission(permission)
}

// ---------------------------------------------------------------------------
// Route guards
// ---------------------------------------------------------------------------

/// An authenticated session passes; any other is refused as unauthenticated.
pub fn require_authenticated(session: SessionView) -> (r: AuthStackResult<SessionView>)
    ensures
        session.authenticated ==> r == Ok::<SessionView, AuthStackError>(session),
        !session.authenticated ==> fails_with(r, Some(ErrorView::AuthRequired)),
{
    if session.authenticated {
        Ok(session)
    } else {
        Err(AuthStackError::AuthRequired)
    }
}

/// An authenticated session holding `permission` passes; an unauthenticated
/// one is refused as such, any other is forbidden.
pub fn require_authorized(session: SessionView, permission: &str) -> (r: AuthStackResult<
    SessionView,
>)
    ensures
        !session.authenticated ==> fails_with(r, Some(ErrorView::AuthRequired)),
        session.authenticated && text_in(session.permissions@, permission@) ==> r == Ok::<
            SessionView,
            AuthStackError,
        >(session),
        session.authenticated && !text_in(session.permissions@, permission@) ==> fails_with(
            r,
            Some(ErrorView::Forbidden),
        ),
{
    if !session.authenticated {
        return Err(AuthStackError::AuthRequired);
    }
    if has_permission(&session, permission) {
        Ok(session)
    } else {
        Err(AuthStackError::Forbidden)
    }
}

/// A session passes a step-up guard only at the second assurance level.
pub fn require_step_up(session: SessionView) -> (r: AuthStackResult<SessionView>)
    ensures
        session.assurance@ == "aal2"@ ==> r == Ok::<SessionView, AuthStackError>(session),
        session.assurance@ != "aal2"@ ==> fails_with(r, Some(ErrorView::Forbidden)),
{
    if str_eq(session.assurance.as_str(), "aal2") {
        Ok(session)
    } else {
        Err(AuthStackError::Forbidden)
    }
}

/// The session that a verified access token stands for.
pub open spec fn token_session_matches(s: SessionView, v: TokenVerifyResponse) -> bool {
    &&& s.authenticated
    &&& s.session_id == v.session_id
    &&& s.tenant_id == v.tenant_id
    &&& s.user_id == Some(v.subject)
    &&& s.primary_email is None
    &&& s.expires_at is None
    &&& s.permissions == v.scopes
    &&& s.assurance == v.assurance
    &&& s.system_administrator == v.system_administrator
    &&& s.issued_at_unix_seconds == Some(v.issued_at_unix_seconds)
    &&& s.expires_at_unix_seconds == Some(v.expires_at)
}

/// The session view of a verified access token: authenticated, with the
/// token's subject, tenant, scopes, assurance and lifetime.
pub fn session_from_token(verified: TokenVerifyResponse) -> (r: SessionView)
    ensures
        token_session_matches(r, verified),
{
    SessionView {
        authenticated: true,
        session_id: verified.session_id,
        tenant_id: verified.tenant_id,
        user_id: Some(verified.subject),
        primary_email: None,
        expires_at: None,
        permissions: verified.scopes,
        assurance: verified.assurance,
        system_administrator: verified.system_administrator,
        issued_at_unix_seconds: Some(verified.issued_at_unix_seconds),
        expires_at_unix_seconds: Some(verified.expires_at),
    }
}

/// A verified token passes a permission guard when one of its scopes is the
/// permission; it is forbidden otherwise.
pub fn require_token_scope(verified: TokenVerifyResponse, permission: &str) -> (r: AuthStackResult<
    SessionView,
>)
    ensures
        text_in(verified.scopes@, permission@) ==> r is Ok && token_session_matches(
            r->Ok_0,
            verified,
        ),
        !text_in(verified.scopes@, permission@) ==> fails_with(r, Some(ErrorView::Forbidden)),
{
    if list_contains(&verified.scopes, permission) {
        Ok(session_from_token(verified))
    } else {
        Err(AuthStackError::Forbidden)
    }
}

// ---------------------------------------------------------------------------
// Credentials presented with a request
// ---------------------------------------------------------------------------

/// A presented value counts when, trimmed, it is not empty.
pub open spec fn nonblank_spec(value: Option<Seq<char>>) -> Option<Seq<char>> {
    match value {
        Some(v) => if trim(v).len() > 0 {
            Some(trim(v))
        } else {
            None
        },
        None => None,
    }
}

pub open spec fn opt_str(value: Option<&str>) -> Option<Seq<char>> {
    match value {
        Some(v) => Some(v@),
        None => None,
    }
}

pub open spec fn opt_string(value: Option<String>) -> Option<Seq<char>> {
    match value {
        Some(v) => Some(v@),
        None => None,
    }
}

/// The trimmed value, when it is not blank.
pub fn nonblank(value: Option<&str>) -> (r: Option<String>)
    ensures
        opt_string(r) == nonblank_spec(opt_str(value)),
{
    match value {
        Some(v) => {
            let all = chars_of(v);
            let (a, b) = trim_range(&all, 0, all.len());
            proof {
                assert(all@.subrange(0, all@.len() as int) == all@);
            }
            if a < b {
                Some(string_of_range(&all, a, b))
            } else {
                None
            }
        },
        None => None,
    }
}

/// The outcome of a CSRF check: a missing or blank token is a validation
/// error, a token other than the session's is forbidden.
pub open spec fn csrf_error(expected: Seq<char>, candidate: Option<Seq<char>>) -> Option<ErrorView> {
    match nonblank_spec(candidate) {
        None => Some(ErrorView::Validation("x-csrf-token is required"@)),
        Some(c) => if c != expected {
            Some(ErrorView::Forbidden)
        } else {
            None
        },
    }
}

/// Checks the CSRF token presented with a browser mutation against the one
/// issued to the session.
pub fn check_csrf_token(expected: &str, candidate: Option<&str>) -> (r: AuthStackResult<()>)
    ensures
        fails_with(r, csrf_error(expected@, opt_str(candidate))),
{
    match nonblank(candidate) {
        None => Err(AuthStackError::validation("x-csrf-token is required")),
        Some(c) => {
            if str_eq(expected, c.as_str()) {
                Ok(())
            } else {
                Err(AuthStackError::Forbidden)
            }
        },
    }
}

/// The credential header that re-validates a request: a bearer token when
/// one is presented, else the session cookie, else none.
pub open spec fn credential_header_spec(
    access_token: Option<Seq<char>>,
    session_id: Option<Seq<char>>,
) -> Option<Seq<char>> {
    match nonblank_spec(access_token) {
        Some(t) => Some("Bearer "@ + t),
        None => match nonblank_spec(session_id) {
            Some(s) => Some("__Host-session="@ + s),
            None => None,
        },
    }
}

/// The credential header for re-validating a request (`None`: unauthenticated).
pub fn credential_header(access_token: Option<&str>, session_id: Option<&str>) -> (r: Option<String>)
    ensures
        opt_string(r) == credential_header_spec(opt_str(access_token), opt_str(session_id)),
{
    match nonblank(access_token) {
        Some(t) => {
            let mut h = owned("Bearer ");
            push_str(&mut h, t.as_str());
            Some(h)
        },
        None => match nonblank(session_id) {
            Some(s) => {
                let mut h = owned("__Host-session=");
                push_str(&mut h, s.as_str());
                Some(h)
            },
            None => None,
        },
    }
}

/// A route that needs a step-up refuses a context below the second
/// assurance level as unauthenticated.
pub fn check_context_assurance(step_up: bool, assurance_aal2: bool) -> (r: AuthStackResult<()>)
    ensures
        fails_with(
            r,
            if step_up && !assurance_aal2 {
                Some(ErrorView::AuthRequired)
            } else {
                None
            },
        ),
{
    if step_up && !assurance_aal2 {
        Err(AuthStackError::AuthRequired)
    } else {
        Ok(())
    }
}

// ---------------------------------------------------------------------------
// Organization scope
// ---------------------------------------------------------------------------

/// The organization whose audit trail is read: the requested one when not
/// blank, else the session's; never the default tenant.
pub open spec fn audit_scope_spec(requested: Option<Seq<char>>, context_org: Option<Seq<char>>) -> Option<
    Seq<char>,
> {
    let chosen = match requested {
        Some(r) => if trim(r).len() > 0 {
            Some(r)
        } else {
            context_org
        },
        None => context_org,
    };
    match chosen {
        Some(o) => if o == "tenant:default"@ {
            None
        } else {
            Some(o)
        },
        None => None,
    }
}

/// The organization an audit listing is scoped to; a session that is not a
/// stepped-up administrator must have one, or is forbidden.
pub fn audit_scope(requested: Option<&str>, context_org: Option<&str>, elevated: bool) -> (r:
    AuthStackResult<Option<String>>)
    ensures
        elevated ==> r is Ok && opt_string(r->Ok_0) == audit_scope_spec(
            opt_str(requested),
            opt_str(context_org),
        ),
        !elevated && audit_scope_spec(opt_str(requested), opt_str(context_org)) is None
            ==> fails_with(r, Some(ErrorView::Forbidden)),
        !elevated && audit_scope_spec(opt_str(requested), opt_str(context_org)) is Some ==> r is Ok
            && opt_string(r->Ok_0) == audit_scope_spec(opt_str(requested), opt_str(context_org)),
{
    let chosen: Option<String> = match requested {
        Some(r) => {
            if nonblank(Some(r)).is_some() {
                Some(owned(r))
            } else {
                match context_org {
                    Some(c) => Some(owned(c)),
                    None => None,
                }
            }
        },
        None => match context_org {
            Some(c) => Some(owned(c)),
            None => None,
        },
    };
    let scoped = match chosen {
        Some(o) => {
            if str_eq(o.as_str(), "tenant:default") {
                None
            } else {
                Some(o)
            }
        },
        None => None,
    };
    if !elevated && scoped.is_none() {
        return Err(AuthStackError::Forbidden);
    }
    Ok(scoped)
}

/// A permission held either by the session or through its membership in the
/// organization passes; otherwise the request is forbidden.
pub fn require_either_permission(
    session_permissions: &Vec<String>,
    organization_permissions: &Vec<String>,
    permission: &str,
) -> (r: AuthStackResult<()>)
    ensures
        fails_with(
            r,
            if text_in(session_permissions@, permission@) || text_in(
                organization_permissions@,
                permission@,
            ) {
                None
            } else {
                Some(ErrorView::Forbidden)
            },
        ),
{
    if list_contains(session_permissions, permission) || list_contains(
        organization_permissions,
        permission,
    ) {
        Ok(())
    } else {
        Err(AuthStackError::Forbidden)
    }
}

/// Membership permissions must include `permission`, or the request is
/// forbidden.
pub fn require_listed_permission(permissions: &Vec<String>, permission: &str) -> (r:
    AuthStackResult<()>)
    ensures
        fails_with(
            r,
            if text_in(permissions@, permission@) {
                None
            } else {
                Some(ErrorView::Forbidden)
            },
        ),
{
    if list_contains(permissions, permission) {
        Ok(())
    } else {
        Err(AuthStackError::Forbidden)
    }
}

/// The permissions an authorization check runs with: the session's, plus the
/// requested action itself for a stepped-up administrator.
pub fn effective_permissions(permissions: &Vec<String>, elevated: bool, requested_action: &str) -> (r:
    Vec<String>)
    ensures
        elevated ==> r@.len() == permissions@.len() + 1 && r@[permissions@.len() as int]@
            == requested_action@,
        !elevated ==> r@.len() == permissions@.len(),
        forall|i: int| 0 <= i < permissions@.len() ==> #[trigger] r@[i]@ == permissions@[i]@,
{
    let mut out: Vec<String> = Vec::new();
    let mut i: usize = 0;
    while i < permissions.len()
        invariant
            i <= permissions@.len(),
            out@.len() == i,
            forall|k: int| 0 <= k < i ==> #[trigger] out@[k]@ == permissions@[k]@,
        decreases permissions@.len() - i,
    {
        out.push(owned(permissions[i].as_str()));
        i += 1;
    }
    if elevated {
        out.push(owned(requested_action));
    }
    out
}

/// Whether a check allowed by the embedded policy is confirmed against the
/// relationship store: only when that store is on, the principal is not a
/// stepped-up administrator, and the request names an organization.
pub fn needs_membership_check(
    policy_allowed: bool,
    relationship_store_enabled: bool,
    elevated: bool,
    has_organization: bool,
) -> (r: bool)
    ensures
        r == (policy_allowed && relationship_store_enabled && !elevated && has_organization),
{
    policy_allowed && relationship_store_enabled && !elevated && has_organization
}

/// The name under which authorization capabilities are reported.
pub fn authorization_provider_name(relationship_store_enabled: bool) -> (r: &'static str)
    ensures
        r@ == (if relationship_store_enabled {
            "embedded-cedar+direct-spicedb"@
        } else {
            "embedded-cedar"@
        }),
{
    if relationship_store_enabled {
        "embedded-cedar+direct-spicedb"
    } else {
        "embedded-cedar"
    }
}

// ---------------------------------------------------------------------------
// Passkey registration
// ---------------------------------------------------------------------------

/// `a` and `b` agree up to ASCII case.
pub open spec fn eq_ignore_ascii_case(a: Seq<char>, b: Seq<char>) -> bool {
    lower_seq(a) == lower_seq(b)
}

/// A passkey is registered for the session's own address: a requested
/// address, when given, must match it (trimmed, ignoring ASCII case), or the
/// request is forbidden.
pub fn check_passkey_registration_email(requested: Option<&str>, session_email: &str) -> (r:
    AuthStackResult<()>)
    ensures
        fails_with(
            r,
            match requested {
                Some(e) => if eq_ignore_ascii_case(trim(e@), trim(session_email@)) {
                    None
                } else {
                    Some(ErrorView::Forbidden)
                },
                None => None,
            },
        ),
{
    match requested {
        Some(e) => {
            let a = chars_of(e);
            let (a0, a1) = trim_range(&a, 0, a.len());
            let b = chars_of(session_email);
            let (b0, b1) = trim_range(&b, 0, b.len());
            proof {
                assert(a@.subrange(0, a@.len() as int) == a@);
                assert(b@.subrange(0, b@.len() as int) == b@);
            }
            let la = lowercase_range(&a, a0, a1);
            let lb = lowercase_range(&b, b0, b1);
            let n = la.len();
            proof {
                assert(la@.subrange(0, n as int) == la@);
            }
            if la.len() == lb.len() && range_eq(&la, 0, n, &lb) {
                Ok(())
            } else {
                Err(AuthStackError::Forbidden)
            }
        },
        None => Ok(()),
    }
}


// ---------------------------------------------------------------------------
// Sessions behind a request
// ---------------------------------------------------------------------------

/// The session a verified access token stands for: the stored session it
/// names when that is still authenticated, else one built from the token.
pub fn session_for_token(verified: TokenVerifyResponse, stored: Option<SessionView>) -> (r: SessionView)
    ensures
        match stored {
            Some(s) => if s.authenticated {
                r == s
            } else {
                token_session_matches(r, verified)
            },
            None => token_session_matches(r, verified),
        },
{
    match stored {
        Some(s) => {
            if s.authenticated {
                s
            } else {
                session_from_token(verified)
            }
        },
        None => session_from_token(verified),
    }
}

/// What an authenticated session is rebuilt from for the policy engine.
#[derive(Debug)]
pub struct SessionParts {
    pub user_id: String,
    pub organization_id: Option<String>,
    pub session_id: Option<String>,
    pub assurance: String,
    pub system_administrator: bool,
    pub issued_at_unix_seconds: u64,
    pub expires_at_unix_seconds: u64,
    pub permissions: Vec<String>,
}

/// The parts of a session view: it needs a user and both lifetime bounds, or
/// the request is unauthenticated.
pub fn session_parts_from_view(session: SessionView) -> (r: AuthStackResult<SessionParts>)
    ensures
        session.user_id is Some && session.issued_at_unix_seconds is Some
            && session.expires_at_unix_seconds is Some ==> r is Ok && ({
            let p = r->Ok_0;
            &&& p.user_id == session.user_id->0
            &&& p.organization_id == session.tenant_id
            &&& p.session_id == session.session_id
            &&& p.assurance == session.assurance
            &&& p.system_administrator == session.system_administrator
            &&& p.issued_at_unix_seconds == session.issued_at_unix_seconds->0
            &&& p.expires_at_unix_seconds == session.expires_at_unix_seconds->0
            &&& p.permissions == session.permissions
        }),
        !(session.user_id is Some && session.issued_at_unix_seconds is Some
            && session.expires_at_unix_seconds is Some) ==> fails_with(
            r,
            Some(ErrorView::AuthRequired),
        ),
{
    let user_id = match session.user_id {
        Some(u) => u,
        None => {
            return Err(AuthStackError::AuthRequired);
        },
    };
    let issued = match session.issued_at_unix_seconds {
        Some(t) => t,
        None => {
            return Err(AuthStackError::AuthRequired);
        },
    };
    let expires = match session.expires_at_unix_seconds {
        Some(t) => t,
        None => {
            return Err(AuthStackError::AuthRequired);
        },
    };
    Ok(
        SessionParts {
            user_id,
            organization_id: session.tenant_id,
            session_id: session.session_id,
            assurance: session.assurance,
            system_administrator: session.system_administrator,
            issued_at_unix_seconds: issued,
            expires_at_unix_seconds: expires,
            permissions: session.permissions,
        },
    )
}

/// The parts of a verified access token.
pub fn session_parts_from_token(verified: TokenVerifyResponse) -> (r: SessionParts)
    ensures
        r.user_id == verified.subject,
        r.organization_id == verified.tenant_id,
        r.session_id == verified.session_id,
        r.assurance == verified.assurance,
        r.system_administrator == verified.system_administrator,
        r.issued_at_unix_seconds == verified.issued_at_unix_seconds,
        r.expires_at_unix_seconds == verified.expires_at,
        r.permissions == verified.scopes,
{
    SessionParts {
        user_id: verified.subject,
        organization_id: verified.tenant_id,
        session_id: verified.session_id,
        assurance: verified.assurance,
        system_administrator: verified.system_administrator,
        issued_at_unix_seconds: verified.issued_at_unix_seconds,
        expires_at_unix_seconds: verified.expires_at,
        permissions: verified.scopes,
    }
}

/// The session id the policy engine sees: the session's own, or
/// `session-<issued at>` for a token that names none.
pub fn session_id_or_default(parts: &SessionParts) -> (r: String)
    ensures
        r@ == (match parts.session_id {
            Some(s) => s@,
            None => "session-"@ + crate::text::decimal(parts.issued_at_unix_seconds as nat),
        }),
{
    match &parts.session_id {
        Some(s) => owned(s.as_str()),
        None => {
            let mut r = owned("session-");
            crate::text::push_decimal(&mut r, parts.issued_at_unix_seconds);
            r
        },
    }
}

/// Whether the session's assurance is the second level.
pub fn assurance_is_aal2(parts: &SessionParts) -> (r: bool)
    ensures
        r == (parts.assurance@ == "aal2"@),
{
    str_eq(parts.assurance.as_str(), "aal2")
}

/// Why the trusted ingress refused a request's credentials.
#[derive(Clone, Copy, Debug, PartialEq, Eq, Structural)]
pub enum IngressRejection {
    MissingCredentials,
    InsufficientAssurance,
    BodyTooLarge,
    InvalidContentLength,
    InvalidRequestId,
    InvalidCredentials,
    Csrf,
    Authenticator,
    InvalidContext,
    Other,
}

pub open spec fn ingress_error_spec(rejection: IngressRejection) -> ErrorView {
    match rejection {
        IngressRejection::MissingCredentials => ErrorView::AuthRequired,
        IngressRejection::InsufficientAssurance => ErrorView::Forbidden,
        IngressRejection::BodyTooLarge | IngressRejection::InvalidContentLength
        | IngressRejection::InvalidRequestId | IngressRejection::InvalidCredentials
        | IngressRejection::Csrf => ErrorView::Validation(
            "request failed trusted ingress validation"@,
        ),
        _ => ErrorView::AuthRequired,
    }
}

/// The error a refused request is answered with: missing credentials and
/// failed authentication need a sign-in, too low an assurance is forbidden,
/// a malformed request is a validation error.
pub fn ingress_error(rejection: IngressRejection) -> (r: AuthStackError)
    ensures
        error_view(r) == ingress_error_spec(rejection),
{
    match rejection {
        IngressRejection::MissingCredentials => AuthStackError::AuthRequired,
        IngressRejection::InsufficientAssurance => AuthStackError::Forbidden,
        IngressRejection::BodyTooLarge | IngressRejection::InvalidContentLength
        | IngressRejection::InvalidRequestId | IngressRejection::InvalidCredentials
        | IngressRejection::Csrf => AuthStackError::validation(
            "request failed trusted ingress validation",
        ),
        _ => AuthStackError::AuthRequired,
    }
}

/// The kind of credential a request presents.
#[derive(Clone, Copy, Debug, PartialEq, Eq, Structural)]
pub enum CredentialKind {
    Bearer,
    SessionCookie,
    Other,
}

/// How a presented credential is authenticated.
#[derive(Clone, Copy, Debug, PartialEq, Eq, Structural)]
pub enum CredentialRoute {
    VerifyAccessToken,
    LoadSession,
}

/// Bearer tokens are verified, session cookies are looked up, anything else
/// is an invalid token.
pub fn credential_route(kind: CredentialKind) -> (r: AuthStackResult<CredentialRoute>)
    ensures
        kind == CredentialKind::Bearer ==> r == Ok::<CredentialRoute, AuthStackError>(
            CredentialRoute::VerifyAccessToken,
        ),
        kind == CredentialKind::SessionCookie ==> r == Ok::<CredentialRoute, AuthStackError>(
            CredentialRoute::LoadSession,
        ),
        kind == CredentialKind::Other ==> fails_with(r, Some(ErrorView::InvalidToken)),
{
    match kind {
        CredentialKind::Bearer => Ok(CredentialRoute::VerifyAccessToken),
        CredentialKind::SessionCookie => Ok(CredentialRoute::LoadSession),
        CredentialKind::Other => Err(AuthStackError::InvalidToken),
    }
}

// ---------------------------------------------------------------------------
// The credentials of a request
// ---------------------------------------------------------------------------

/// What trusted ingress verified about a request, as plain values: its
/// session and request ids, whether the session reached the second assurance
/// level, and the permissions of its authorization snapshot.
pub struct VerifiedRequest {
    pub session_id: String,
    pub request_id: String,
    pub assurance_aal2: bool,
    pub permissions: Vec<String>,
}

/// What a request presents: a session cookie, an access token, a request id,
/// and what trusted ingress verified, when it ran.
pub struct RequestAuth {
    pub session_id: Option<String>,
    pub access_token: Option<String>,
    pub request_id: Option<String>,
    pub verified: Option<VerifiedRequest>,
}

impl RequestAuth {
    /// The credentials of a request that ingress has not verified yet.
    pub fn from_parts(
        session_id: Option<String>,
        access_token: Option<String>,
        request_id: Option<String>,
    ) -> (r: RequestAuth)
        ensures
            r.session_id == session_id,
            r.access_token == access_token,
            r.request_id == request_id,
            r.verified is None,
    {
        RequestAuth { session_id, access_token, request_id, verified: None }
    }

    /// The credentials of a request that ingress verified: its session and
    /// request ids, and what was verified.
    pub fn from_verified(context: VerifiedRequest) -> (r: RequestAuth)
        ensures
            opt_string(r.session_id) == Some(context.session_id@),
            r.access_token is None,
            opt_string(r.request_id) == Some(context.request_id@),
            r.verified == Some(context),
    {
        let session_id = owned(context.session_id.as_str());
        let request_id = owned(context.request_id.as_str());
        RequestAuth {
            session_id: Some(session_id),
            access_token: None,
            request_id: Some(request_id),
            verified: Some(context),
        }
    }

    /// The permissions of a request that ingress verified, refused when the
    /// route needs a step-up the session lacks; `None` when ingress has not
    /// verified the request, so that it must check the credentials first.
    pub fn verified_permissions(&self, step_up: bool) -> (r: Option<AuthStackResult<Vec<String>>>)
        ensures
            match self.verified {
                None => r is None,
                Some(v) => if step_up && !v.assurance_aal2 {
                    r matches Some(Err(e)) && error_view(e) == ErrorView::AuthRequired
                } else {
                    r matches Some(Ok(p)) && string_views(p@) == string_views(v.permissions@)
                },
            },
    {
        match &self.verified {
            None => None,
            Some(v) => {
                match check_context_assurance(step_up, v.assurance_aal2) {
                    Err(e) => Some(Err(e)),
                    Ok(()) => Some(Ok(copy_strings(&v.permissions))),
                }
            },
        }
    }

    /// The same credentials without the verified context, so that ingress
    /// checks them again.
    pub fn for_revalidation(&self) -> (r: RequestAuth)
        ensures
            opt_string(r.session_id) == opt_string(self.session_id),
            opt_string(r.access_token) == opt_string(self.access_token),
            opt_string(r.request_id) == opt_string(self.request_id),
            r.verified is None,
    {
        RequestAuth {
            session_id: copy_text(&self.session_id),
            access_token: copy_text(&self.access_token),
            request_id: copy_text(&self.request_id),
            verified: None,
        }
    }
}

fn copy_strings(v: &Vec<String>) -> (r: Vec<String>)
    ensures
        string_views(r@) == string_views(v@),
{
    let mut r: Vec<String> = Vec::new();
    let mut i: usize = 0;
    while i < v.len()
        invariant
            i <= v@.len(),
            string_views(r@) == string_views(v@.subrange(0, i as int)),
        decreases v@.len() - i,
    {
        r.push(owned(v[i].as_str()));
        proof {
            assert(string_views(v@.subrange(0, i + 1)) =~= string_views(
                v@.subrange(0, i as int),
            ).push(v@[i as int]@));
            assert(string_views(r@) =~= string_views(v@.subrange(0, i + 1)));
        }
        i += 1;
    }
    proof {
        assert(v@.subrange(0, v@.len() as int) =~= v@);
    }
    r
}

fn copy_text(value: &Option<String>) -> (r: Option<String>)
    ensures
        opt_string(r) == opt_string(*value),
{
    match value {
        Some(v) => Some(owned(v.as_str())),
        None => None,
    }
}

// ---------------------------------------------------------------------------
// Laws
// ---------------------------------------------------------------------------

/// A session id sent back in the cookie credential is read back as the
/// session id: for a session id that, trimmed, is non-empty and holds no
/// `;`, reading the re-validation header as a `Cookie` header yields the
/// trimmed id.
pub proof fn credential_cookie_round_trip(session_id: Seq<char>)
    requires
        trim(session_id).len() > 0,
        !trim(session_id).contains(';'),
    ensures
        credential_header_spec(None, Some(session_id)) is Some,
        crate::cookies::session_id_in_header(credential_header_spec(None, Some(session_id))->0)
            == Some(trim(session_id)),
{
    reveal_strlit("__Host-session=");
    reveal_strlit("__Host-session");
    let t = trim(session_id);
    let prefix = "__Host-session="@;
    let h = prefix + t;
    assert(credential_header_spec(None, Some(session_id)) == Some(h));
    crate::text::lemma_trim_shape(session_id);
    crate::text::lemma_trim_shape(crate::text::trim_start(session_id));
    crate::cookies::lemma_trim_identity(t);
    assert forall|k: int| 0 <= k < h.len() implies h[k] != ';' by {
        if k >= prefix.len() {
            assert(h[k] == t[k - prefix.len()]);
        }
    }
    crate::text::lemma_index_of_unique(h, ';', h.len() as int);
    assert(h.subrange(0, h.len() as int) == h);
    assert(h[0] == '_');
    assert(h.last() == t.last());
    crate::cookies::lemma_trim_identity(h);
    let name = "__Host-session"@;
    assert forall|k: int| 0 <= k < name.len() implies h[k] != '=' by {
        assert(h[k] == name[k]);
    }
    assert(h[name.len() as int] == '=');
    crate::text::lemma_index_of_unique(h, '=', name.len() as int);
    assert(h.subrange(0, name.len() as int) == name);
    assert(h.subrange(name.len() as int + 1, h.len() as int) == t);
}

/// The workspace the dashboard and vault calls act in: the session's, unless
/// it has none or only the default placeholder; the error names what to do.
pub fn selected_organization_id(tenant_id: Option<String>) -> (r: Result<String, String>)
    ensures
        match tenant_id {
            Some(t) => if t@ == "tenant:default"@ {
                r matches Err(e) && e@ == "select an organization first"@
            } else {
                r == Ok::<String, String>(t)
            },
            None => r matches Err(e) && e@ == "select an organization first"@,
        },
{
    match tenant_id {
        Some(t) => {
            if str_eq(t.as_str(), "tenant:default") {
                Err(owned("select an organization first"))
            } else {
                Ok(t)
            }
        },
        None => Err(owned("select an organization first")),
    }
}

} // verus!
