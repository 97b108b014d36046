//! The checks each endpoint makes on its input before it touches storage or
//! an identity provider: which inputs are refused, and with which error.

use vstd::prelude::*;

use crate::contracts::{
    InvitationCreateRequest, MembershipRemoveRequest, MembershipRoleRequest, OAuthCallbackRequest,
    OrganizationCreateRequest, OrganizationUpdateRequest, PasswordChangeRequest, RoleUpsertRequest,
};
use crate::error::{fails_with, outcome_is, validation_text, AuthStackError, AuthStackResult, ErrorView};
use crate::access::{nonblank, nonblank_spec, opt_str};
use crate::text::{chars_of, str_eq, trim, trimmed_chars};
use crate::validation::{
    display_name_error, first_error, identifier_error, opt_view, provider_id_error,
    required_email_error, safe_redirect_or_default, safe_redirect_or_default_spec, utf8_len,
    utf8_len_below, validate_display_name, validate_identifier, validate_provider_id,
    validate_required_email,
};

verus! {

/// A validation message as an error.
pub open spec fn as_validation(m: Option<Seq<char>>) -> Option<ErrorView> {
    match m {
        Some(t) => Some(ErrorView::Validation(t)),
        None => None,
    }
}

proof fn lemma_outcome_fails(r: AuthStackResult<()>, m: Option<Seq<char>>)
    requires
        outcome_is(r, m),
    ensures
        fails_with(r, as_validation(m)),
{
    if let Some(t) = m {
        let e = r->Err_0;
        assert(validation_text(e) == Some(t));
        assert(e is Validation);
    }
}

// ---------------------------------------------------------------------------
// Passwords and one-time codes
// ---------------------------------------------------------------------------

/// A password change names the current password, a new one of at least the
/// minimum UTF-8 length, and a new one that differs from the current.
pub open spec fn password_change_error(current: Seq<char>, new: Seq<char>, min_length: nat) -> Option<
    Seq<char>,
> {
    if current.len() == 0 {
        Some("current_password is required"@)
    } else if utf8_len(new) < min_length {
        Some("new password is too short"@)
    } else if current == new {
        Some("new password must be different"@)
    } else {
        None
    }
}

pub fn check_password_change(request: &PasswordChangeRequest, min_length: usize) -> (r:
    AuthStackResult<()>)
    ensures
        outcome_is(
            r,
            password_change_error(
                request.current_password@,
                request.new_password@,
                min_length as nat,
            ),
        ),
{
    let current = chars_of(request.current_password.as_str());
    if current.len() == 0 {
        return Err(AuthStackError::validation("current_password is required"));
    }
    let new = chars_of(request.new_password.as_str());
    if utf8_len_below(&new, min_length) {
        return Err(AuthStackError::validation("new password is too short"));
    }
    if str_eq(request.current_password.as_str(), request.new_password.as_str()) {
        return Err(AuthStackError::validation("new password must be different"));
    }
    Ok(())
}

/// A recovery code is 16 to 32 UTF-8 bytes long; its trimmed form counts for
/// the lower bound, the code as given for the upper.
pub open spec fn recovery_code_error(code: Seq<char>) -> Option<Seq<char>> {
    if utf8_len(trim(code)) < 16 || utf8_len(code) > 32 {
        Some("recovery code is invalid"@)
    } else {
        None
    }
}

pub fn check_recovery_code(code: &str) -> (r: AuthStackResult<()>)
    ensures
        outcome_is(r, recovery_code_error(code@)),
{
    let t = trimmed_chars(code);
    let all = chars_of(code);
    if utf8_len_below(&t, 16) || !utf8_len_below(&all, 33) {
        return Err(AuthStackError::validation("recovery code is invalid"));
    }
    Ok(())
}

/// A token verification needs a non-blank access token.
pub open spec fn access_token_error(token: Seq<char>) -> Option<Seq<char>> {
    if trim(token).len() == 0 {
        Some("access_token is required"@)
    } else {
        None
    }
}

pub fn check_access_token(token: &str) -> (r: AuthStackResult<()>)
    ensures
        outcome_is(r, access_token_error(token@)),
{
    if trimmed_chars(token).len() == 0 {
        return Err(AuthStackError::validation("access_token is required"));
    }
    Ok(())
}

/// An invitation is accepted with a non-blank token, which is used trimmed.
pub fn check_invitation_token(token: &str) -> (r: AuthStackResult<String>)
    ensures
        trim(token@).len() == 0 ==> fails_with(
            r,
            Some(ErrorView::Validation("invitation token is required"@)),
        ),
        trim(token@).len() > 0 ==> r is Ok && r->Ok_0@ == trim(token@),
{
    match nonblank(Some(token)) {
        Some(t) => Ok(t),
        None => Err(AuthStackError::validation("invitation token is required")),
    }
}

/// The kinds of mail the development mailbox can be asked for.
pub open spec fn mail_kind_known(kind: Seq<char>) -> bool {
    kind == "email-verification"@ || kind == "password-reset"@ || kind == "invitation"@
}

pub open spec fn captured_mail_error(recipient: Seq<char>, kind: Seq<char>) -> Option<Seq<char>> {
    first_error(
        required_email_error(recipient),
        if mail_kind_known(kind) {
            None
        } else {
            Some("message_kind is invalid"@)
        },
    )
}

pub fn check_captured_mail_request(recipient: &str, message_kind: &str) -> (r: AuthStackResult<()>)
    ensures
        outcome_is(r, captured_mail_error(recipient@, message_kind@)),
{
    validate_required_email(recipient)?;
    if !(str_eq(message_kind, "email-verification") || str_eq(message_kind, "password-reset")
        || str_eq(message_kind, "invitation")) {
        return Err(AuthStackError::validation("message_kind is invalid"));
    }
    Ok(())
}

// ---------------------------------------------------------------------------
// Organizations, members and roles
// ---------------------------------------------------------------------------

/// The most permissions a custom role may list.
pub const MAX_ROLE_PERMISSIONS: usize = 100;

pub open spec fn role_upsert_error(
    organization_id: Seq<char>,
    role_id: Seq<char>,
    name: Seq<char>,
    permission_count: nat,
) -> Option<Seq<char>> {
    first_error(
        identifier_error("organization_id"@, organization_id),
        first_error(
            identifier_error("role_id"@, role_id),
            first_error(
                display_name_error("role name"@, name, 80),
                if permission_count > MAX_ROLE_PERMISSIONS {
                    Some("role permission list is too large"@)
                } else {
                    None
                },
            ),
        ),
    )
}

pub fn check_role_upsert(request: &RoleUpsertRequest) -> (r: AuthStackResult<()>)
    ensures
        outcome_is(
            r,
            role_upsert_error(
                request.organization_id@,
                request.role_id@,
                request.name@,
                request.permissions@.len(),
            ),
        ),
{
    validate_identifier("organization_id", request.organization_id.as_str())?;
    validate_identifier("role_id", request.role_id.as_str())?;
    validate_display_name("role name", request.name.as_str(), 80)?;
    if request.permissions.len() > MAX_ROLE_PERMISSIONS {
        return Err(AuthStackError::validation("role permission list is too large"));
    }
    Ok(())
}

pub fn check_organization_create(request: &OrganizationCreateRequest) -> (r: AuthStackResult<()>)
    ensures
        outcome_is(r, display_name_error("organization name"@, request.name@, 120)),
{
    validate_display_name("organization name", request.name.as_str(), 120)
}

pub open spec fn organization_update_error(organization_id: Seq<char>, name: Seq<char>) -> Option<
    Seq<char>,
> {
    first_error(
        identifier_error("organization_id"@, organization_id),
        display_name_error("organization name"@, name, 120),
    )
}

pub fn check_organization_update(request: &OrganizationUpdateRequest) -> (r: AuthStackResult<()>)
    ensures
        outcome_is(r, organization_update_error(request.organization_id@, request.name@)),
{
    validate_identifier("organization_id", request.organization_id.as_str())?;
    validate_display_name("organization name", request.name.as_str(), 120)
}

pub open spec fn invitation_create_error(
    organization_id: Seq<char>,
    email: Seq<char>,
    role_id: Seq<char>,
) -> Option<Seq<char>> {
    first_error(
        identifier_error("organization_id"@, organization_id),
        first_error(required_email_error(email), identifier_error("role_id"@, role_id)),
    )
}

pub fn check_invitation_create(request: &InvitationCreateRequest) -> (r: AuthStackResult<()>)
    ensures
        outcome_is(
            r,
            invitation_create_error(request.organization_id@, request.email@, request.role_id@),
        ),
{
    validate_identifier("organization_id", request.organization_id.as_str())?;
    validate_required_email(request.email.as_str())?;
    validate_identifier("role_id", request.role_id.as_str())
}

pub open spec fn membership_role_error(
    organization_id: Seq<char>,
    user_id: Seq<char>,
    role_id: Seq<char>,
) -> Option<Seq<char>> {
    first_error(
        identifier_error("organization_id"@, organization_id),
        first_error(identifier_error("user_id"@, user_id), identifier_error("role_id"@, role_id)),
    )
}

pub fn check_membership_role(request: &MembershipRoleRequest) -> (r: AuthStackResult<()>)
    ensures
        outcome_is(
            r,
            membership_role_error(request.organization_id@, request.user_id@, request.role_id@),
        ),
{
    validate_identifier("organization_id", request.organization_id.as_str())?;
    validate_identifier("user_id", request.user_id.as_str())?;
    validate_identifier("role_id", request.role_id.as_str())
}

pub open spec fn membership_remove_error(organization_id: Seq<char>, user_id: Seq<char>) -> Option<
    Seq<char>,
> {
    first_error(
        identifier_error("organization_id"@, organization_id),
        identifier_error("user_id"@, user_id),
    )
}

pub fn check_membership_remove(request: &MembershipRemoveRequest) -> (r: AuthStackResult<()>)
    ensures
        outcome_is(r, membership_remove_error(request.organization_id@, request.user_id@)),
{
    validate_identifier("organization_id", request.organization_id.as_str())?;
    validate_identifier("user_id", request.user_id.as_str())
}

// ---------------------------------------------------------------------------
// OAuth and passkeys
// ---------------------------------------------------------------------------

pub open spec fn oauth_disabled_message() -> Seq<char> {
    "OAuth login is disabled; set AUTH_ENABLE_OAUTH=true and provider credentials to enable it"@
}

/// The outcome of starting an OAuth login: OAuth must be on and the provider
/// id well formed; the redirect target falls back to `/dashboard`.
pub open spec fn oauth_start_error(oauth_enabled: bool, provider_id: Seq<char>) -> Option<ErrorView> {
    if !oauth_enabled {
        Some(ErrorView::Configuration(oauth_disabled_message()))
    } else {
        as_validation(provider_id_error(provider_id))
    }
}

pub fn check_oauth_start(oauth_enabled: bool, provider_id: &str, redirect_url: Option<String>) -> (r:
    AuthStackResult<String>)
    ensures
        fails_with(r, oauth_start_error(oauth_enabled, provider_id@)),
        r is Ok ==> r->Ok_0@ == safe_redirect_or_default_spec(opt_view(redirect_url)),
{
    if !oauth_enabled {
        return Err(
            AuthStackError::configuration(
                "OAuth login is disabled; set AUTH_ENABLE_OAUTH=true and provider credentials to enable it",
            ),
        );
    }
    let checked = validate_provider_id(provider_id);
    proof {
        lemma_outcome_fails(checked, provider_id_error(provider_id@));
    }
    checked?;
    Ok(safe_redirect_or_default(redirect_url))
}

/// The outcome of an OAuth callback before the grant is consumed: OAuth must
/// be on, the provider id well formed, and the code and state present.
pub open spec fn oauth_callback_error(
    oauth_enabled: bool,
    provider_id: Seq<char>,
    code: Option<Seq<char>>,
    state: Option<Seq<char>>,
) -> Option<ErrorView> {
    if !oauth_enabled {
        Some(ErrorView::Configuration(oauth_disabled_message()))
    } else if provider_id_error(provider_id) is Some {
        as_validation(provider_id_error(provider_id))
    } else if nonblank_spec(code) is None {
        Some(ErrorView::Validation("OAuth callback code is required"@))
    } else if nonblank_spec(state) is None {
        Some(ErrorView::Validation("OAuth callback state is required"@))
    } else {
        None
    }
}

/// Checks an OAuth callback and gives its trimmed code and state.
pub fn check_oauth_callback(oauth_enabled: bool, request: &OAuthCallbackRequest) -> (r:
    AuthStackResult<(String, String)>)
    ensures
        fails_with(
            r,
            oauth_callback_error(
                oauth_enabled,
                request.provider_id@,
                opt_view(request.code),
                opt_view(request.state),
            ),
        ),
        r is Ok ==> Some(r->Ok_0.0@) == nonblank_spec(opt_view(request.code)) && Some(r->Ok_0.1@)
            == nonblank_spec(opt_view(request.state)),
{
    if !oauth_enabled {
        return Err(
            AuthStackError::configuration(
                "OAuth login is disabled; set AUTH_ENABLE_OAUTH=true and provider credentials to enable it",
            ),
        );
    }
    let checked = validate_provider_id(request.provider_id.as_str());
    proof {
        lemma_outcome_fails(checked, provider_id_error(request.provider_id@));
    }
    checked?;
    let code = match &request.code {
        Some(c) => nonblank(Some(c.as_str())),
        None => None,
    };
    let code = match code {
        Some(c) => c,
        None => {
            return Err(AuthStackError::validation("OAuth callback code is required"));
        },
    };
    let state = match &request.state {
        Some(s) => nonblank(Some(s.as_str())),
        None => None,
    };
    let state = match state {
        Some(s) => s,
        None => {
            return Err(AuthStackError::validation("OAuth callback state is required"));
        },
    };
    Ok((code, state))
}

/// The code that the development callback shortcut hands out.
pub fn check_development_oauth_code(code: &str) -> (r: AuthStackResult<()>)
    ensures
        outcome_is(
            r,
            if code@ == "development-oauth-code"@ {
                None
            } else {
                Some("OAuth development callback code is invalid"@)
            },
        ),
{
    if !str_eq(code, "development-oauth-code") {
        return Err(AuthStackError::validation("OAuth development callback code is invalid"));
    }
    Ok(())
}

pub open spec fn passkey_disabled_message(registration: bool) -> Seq<char> {
    if registration {
        "passkey registration is disabled; set AUTH_ENABLE_PASSKEYS=true to enable it"@
    } else {
        "passkey login is disabled; set AUTH_ENABLE_PASSKEYS=true to enable it"@
    }
}

/// Passkey endpoints refuse to run while passkeys are switched off.
pub fn check_passkeys_enabled(enabled: bool, registration: bool) -> (r: AuthStackResult<()>)
    ensures
        fails_with(
            r,
            if enabled {
                None
            } else {
                Some(ErrorView::Configuration(passkey_disabled_message(registration)))
            },
        ),
{
    if enabled {
        Ok(())
    } else if registration {
        Err(
            AuthStackError::configuration(
                "passkey registration is disabled; set AUTH_ENABLE_PASSKEYS=true to enable it",
            ),
        )
    } else {
        Err(
            AuthStackError::configuration(
                "passkey login is disabled; set AUTH_ENABLE_PASSKEYS=true to enable it",
            ),
        )
    }
}

// ---------------------------------------------------------------------------
// Administration
// ---------------------------------------------------------------------------

/// The largest policy or schema text that may be published, in bytes.
pub const MAX_POLICY_BYTES: usize = 1048576;

pub open spec fn policy_bundle_error(policy_text: Seq<char>, schema_text: Seq<char>) -> Option<
    Seq<char>,
> {
    if utf8_len(policy_text) > MAX_POLICY_BYTES || utf8_len(schema_text) > MAX_POLICY_BYTES {
        Some("policy bundle is too large"@)
    } else {
        None
    }
}

pub fn check_policy_bundle_size(policy_text: &str, schema_text: &str) -> (r: AuthStackResult<()>)
    ensures
        outcome_is(r, policy_bundle_error(policy_text@, schema_text@)),
{
    let p = chars_of(policy_text);
    let s = chars_of(schema_text);
    if !utf8_len_below(&p, MAX_POLICY_BYTES + 1) || !utf8_len_below(&s, MAX_POLICY_BYTES + 1) {
        return Err(AuthStackError::validation("policy bundle is too large"));
    }
    Ok(())
}

/// A browser mutation must come from the deployment's own origin.
pub open spec fn browser_origin_error(origin: Option<Seq<char>>, allowed: Seq<char>) -> Option<
    Seq<char>,
> {
    match origin {
        None => Some("browser mutation origin is required"@),
        Some(o) => if o != allowed {
            Some("browser mutation origin is not allowed"@)
        } else {
            None
        },
    }
}

pub fn validate_browser_origin(origin: Option<&str>, allowed: &str) -> (r: AuthStackResult<()>)
    ensures
        outcome_is(r, browser_origin_error(opt_str(origin), allowed@)),
{
    match origin {
        None => Err(AuthStackError::validation("browser mutation origin is required")),
        Some(o) => {
            if !str_eq(o, allowed) {
                return Err(AuthStackError::validation("browser mutation origin is not allowed"));
            }
            Ok(())
        },
    }
}


// ---------------------------------------------------------------------------
// Redirect allowlist
// ---------------------------------------------------------------------------

/// What `serde_json::from_str::<Vec<String>>` yields for a text: the list of
/// strings, or the error's text.
pub uninterp spec fn json_string_list(text: Seq<char>) -> Result<Seq<Seq<char>>, Seq<char>>;

pub open spec fn string_views(v: Seq<String>) -> Seq<Seq<char>> {
    v.map_values(|s: String| s@)
}

/// Calls `serde_json::from_str::<Vec<String>>`; an error is given as its
/// display text. The result is named by `json_string_list`.
#[verifier::external_body]
fn parse_string_list(text: &str) -> (r: Result<Vec<String>, String>)
    ensures
        match r {
            Ok(v) => json_string_list(text@) == Ok::<Seq<Seq<char>>, Seq<char>>(string_views(v@)),
            Err(e) => json_string_list(text@) == Err::<Seq<Seq<char>>, Seq<char>>(e@),
        },
{
    match serde_json::from_str::<Vec<String>>(text) {
        Ok(v) => Ok(v),
        Err(e) => Err(format!("{e}")),
    }
}

/// Every entry is a local path.
pub open spec fn all_local_paths(entries: Seq<Seq<char>>) -> bool {
    forall|i: int| 0 <= i < entries.len() ==> crate::validation::safe_redirect(#[trigger] entries[i])
}

/// The outcome of checking a parsed redirect allowlist: a parse failure is
/// reported with its text; every entry must be a local path.
pub open spec fn allowlist_error(parsed: Result<Seq<Seq<char>>, Seq<char>>) -> Option<Seq<char>> {
    match parsed {
        Err(e) => Some("invalid redirects_json: "@ + e),
        Ok(entries) => if all_local_paths(entries) {
            None
        } else {
            Some("redirect allowlist entries must be local paths"@)
        },
    }
}

pub open spec fn parsed_view(parsed: Result<Vec<String>, String>) -> Result<Seq<Seq<char>>, Seq<char>> {
    match parsed {
        Ok(v) => Ok(string_views(v@)),
        Err(e) => Err(e@),
    }
}

/// Checks a parsed redirect allowlist.
pub fn check_redirect_allowlist(parsed: Result<Vec<String>, String>) -> (r: AuthStackResult<()>)
    ensures
        outcome_is(r, allowlist_error(parsed_view(parsed))),
{
    let ghost pv = parsed_view(parsed);
    match parsed {
        Err(e) => {
            Err(AuthStackError::validation_labelled("invalid redirects_json: ", e.as_str()))
        },
        Ok(entries) => {
            let mut i: usize = 0;
            while i < entries.len()
                invariant
                    i <= entries@.len(),
                    pv == Ok::<Seq<Seq<char>>, Seq<char>>(string_views(entries@)),
                    pv == parsed_view(parsed),
                    forall|k: int|
                        0 <= k < i ==> crate::validation::safe_redirect(#[trigger] entries@[k]@),
                decreases entries@.len() - i,
            {
                if !crate::validation::is_safe_redirect(entries[i].as_str()) {
                    proof {
                        assert(string_views(entries@)[i as int] == entries@[i as int]@);
                        assert(!crate::validation::safe_redirect(string_views(entries@)[i as int]));
                        assert(!all_local_paths(string_views(entries@)));
                    }
                    return Err(
                        AuthStackError::validation(
                            "redirect allowlist entries must be local paths",
                        ),
                    );
                }
                i += 1;
            }
            proof {
                assert forall|k: int| 0 <= k < string_views(entries@).len() implies crate::validation::safe_redirect(
                    #[trigger] string_views(entries@)[k],
                ) by {
                    assert(string_views(entries@)[k] == entries@[k]@);
                }
                assert(all_local_paths(string_views(entries@)));
            }
            Ok(())
        },
    }
}

/// Validates the JSON text of a redirect allowlist before it is stored.
pub fn validate_redirect_allowlist(redirects_json: &str) -> (r: AuthStackResult<()>)
    ensures
        outcome_is(r, allowlist_error(json_string_list(redirects_json@))),
{
    let parsed = parse_string_list(redirects_json);
    check_redirect_allowlist(parsed)
}

} // verus!
