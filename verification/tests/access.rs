use fullstack_auth::access::{
    audit_scope, authorization_provider_name, can_view_system_navigation, check_context_assurance,
    check_csrf_token, check_passkey_registration_email, credential_header, effective_permissions,
    has_permission, is_system_administration_permission, needs_membership_check, nonblank,
    require_authenticated, require_authorized, require_either_permission,
    require_listed_permission, require_step_up, require_token_scope, selected_organization_id,
    session_from_token, system_administrator_may,
};
use fullstack_auth::contracts::{SessionView, TokenVerifyResponse};
use fullstack_auth::cookies::session_id_from_cookie_header;
use fullstack_auth::error::AuthStackError;

fn session(authenticated: bool, admin: bool, assurance: &str, permissions: &[&str]) -> SessionView {
    SessionView {
        authenticated,
        session_id: Some("s-1".to_string()),
        tenant_id: Some("org-1".to_string()),
        user_id: Some("u-1".to_string()),
        primary_email: Some("alice@example.com".to_string()),
        expires_at: None,
        permissions: permissions.iter().map(|p| p.to_string()).collect(),
        assurance: assurance.to_string(),
        system_administrator: admin,
        issued_at_unix_seconds: Some(1),
        expires_at_unix_seconds: Some(2),
    }
}

fn token(scopes: &[&str]) -> TokenVerifyResponse {
    TokenVerifyResponse {
        subject: "u-7".to_string(),
        session_id: None,
        tenant_id: Some("org-7".to_string()),
        scopes: scopes.iter().map(|p| p.to_string()).collect(),
        assurance: "aal1".to_string(),
        system_administrator: false,
        issued_at_unix_seconds: 100,
        expires_at: 200,
    }
}

#[test]
fn permissions_are_looked_up_exactly() {
    let s = session(true, false, "aal1", &["member.invite", "role.view"]);
    assert!(has_permission(&s, "role.view"));
    assert!(!has_permission(&s, "role"));
}

#[test]
fn system_navigation_needs_elevation_or_a_system_permission() {
    assert!(can_view_system_navigation(&session(true, true, "aal2", &[])));
    assert!(!can_view_system_navigation(&session(true, true, "aal1", &[])));
    assert!(can_view_system_navigation(&session(true, false, "aal1", &["auth:signing-key:admin"])));
    assert!(can_view_system_navigation(&session(true, false, "aal1", &["system.health.read"])));
    assert!(!can_view_system_navigation(&session(true, false, "aal1", &["member.invite"])));
}

#[test]
fn system_administration_permissions_need_an_elevated_administrator() {
    assert!(is_system_administration_permission("authz:check"));
    assert!(is_system_administration_permission("system.user.manage"));
    assert!(!is_system_administration_permission("role.view"));
    assert!(system_administrator_may("system.user.manage", &session(true, true, "aal2", &[])));
    assert!(!system_administrator_may("system.user.manage", &session(true, true, "aal1", &[])));
    assert!(!system_administrator_may("role.view", &session(true, true, "aal2", &[])));
}

#[test]
fn route_guards_refuse_with_the_right_error() {
    assert!(matches!(
        require_authenticated(session(false, false, "aal1", &[])),
        Err(AuthStackError::AuthRequired)
    ));
    assert!(require_authenticated(session(true, false, "aal1", &[])).is_ok());
    assert!(matches!(
        require_authorized(session(true, false, "aal1", &[]), "role.view"),
        Err(AuthStackError::Forbidden)
    ));
    assert!(matches!(
        require_authorized(session(false, false, "aal1", &["role.view"]), "role.view"),
        Err(AuthStackError::AuthRequired)
    ));
    assert!(require_authorized(session(true, false, "aal1", &["role.view"]), "role.view").is_ok());
    assert!(matches!(
        require_step_up(session(true, false, "aal1", &[])),
        Err(AuthStackError::Forbidden)
    ));
    assert!(require_step_up(session(true, false, "aal2", &[])).is_ok());
    assert!(matches!(check_context_assurance(true, false), Err(AuthStackError::AuthRequired)));
    assert!(check_context_assurance(false, false).is_ok());
}

#[test]
fn verified_tokens_become_sessions() {
    let view = session_from_token(token(&["document.read"]));
    assert!(view.authenticated);
    assert_eq!(view.user_id, Some("u-7".to_string()));
    assert_eq!(view.tenant_id, Some("org-7".to_string()));
    assert_eq!(view.issued_at_unix_seconds, Some(100));
    assert_eq!(view.expires_at_unix_seconds, Some(200));
    assert_eq!(view.primary_email, None);
    assert!(require_token_scope(token(&["document.read"]), "document.read").is_ok());
    assert!(matches!(
        require_token_scope(token(&["document.read"]), "document.write"),
        Err(AuthStackError::Forbidden)
    ));
}

#[test]
fn csrf_tokens_must_match_the_session() {
    assert_eq!(nonblank(Some("  x ")), Some("x".to_string()));
    assert_eq!(nonblank(Some("   ")), None);
    assert!(check_csrf_token("tok", Some(" tok ")).is_ok());
    match check_csrf_token("tok", None) {
        Err(AuthStackError::Validation(m)) => assert_eq!(m, "x-csrf-token is required"),
        other => panic!("unexpected {other:?}"),
    }
    assert!(matches!(check_csrf_token("tok", Some("other")), Err(AuthStackError::Forbidden)));
}

#[test]
fn credential_headers_prefer_the_bearer_token() {
    assert_eq!(credential_header(Some(" t "), Some("s")), Some("Bearer t".to_string()));
    assert_eq!(credential_header(Some("  "), Some(" s1 ")), Some("__Host-session=s1".to_string()));
    assert_eq!(credential_header(None, None), None);
    let header = credential_header(None, Some(" sess-9 ")).unwrap();
    assert_eq!(session_id_from_cookie_header(&header), Some("sess-9".to_string()));
}

#[test]
fn audit_scope_needs_an_organization_unless_elevated() {
    assert_eq!(audit_scope(Some("  "), Some("org-1"), false).unwrap(), Some("org-1".to_string()));
    assert_eq!(audit_scope(Some("org-2"), Some("org-1"), false).unwrap(), Some("org-2".to_string()));
    assert!(matches!(
        audit_scope(None, Some("tenant:default"), false),
        Err(AuthStackError::Forbidden)
    ));
    assert_eq!(audit_scope(None, None, true).unwrap(), None);
    let mine = vec!["audit.view".to_string()];
    let none: Vec<String> = Vec::new();
    assert!(require_either_permission(&none, &mine, "audit.view").is_ok());
    assert!(matches!(
        require_either_permission(&none, &none, "audit.view"),
        Err(AuthStackError::Forbidden)
    ));
    assert!(require_listed_permission(&mine, "audit.view").is_ok());
    assert!(matches!(require_listed_permission(&mine, "role.view"), Err(AuthStackError::Forbidden)));
}

#[test]
fn checks_run_with_the_effective_permissions() {
    let base = vec!["a".to_string()];
    assert_eq!(effective_permissions(&base, true, "x"), vec!["a".to_string(), "x".to_string()]);
    assert_eq!(effective_permissions(&base, false, "x"), vec!["a".to_string()]);
    assert!(needs_membership_check(true, true, false, true));
    assert!(!needs_membership_check(true, true, true, true));
    assert!(!needs_membership_check(false, true, false, true));
    assert_eq!(authorization_provider_name(true), "embedded-cedar+direct-spicedb");
    assert_eq!(authorization_provider_name(false), "embedded-cedar");
}

#[test]
fn passkeys_register_for_the_session_address() {
    assert!(check_passkey_registration_email(Some(" ALICE@example.com "), "alice@example.com").is_ok());
    assert!(check_passkey_registration_email(None, "alice@example.com").is_ok());
    assert!(matches!(
        check_passkey_registration_email(Some("bob@example.com"), "alice@example.com"),
        Err(AuthStackError::Forbidden)
    ));
}

use fullstack_auth::access::{
    assurance_is_aal2, credential_route, ingress_error, session_for_token, session_id_or_default,
    session_parts_from_token, session_parts_from_view, CredentialKind, CredentialRoute,
    IngressRejection,
};

#[test]
fn tokens_prefer_the_stored_session() {
    let stored = session(true, false, "aal2", &["x"]);
    let chosen = session_for_token(token(&["y"]), Some(stored));
    assert_eq!(chosen.user_id, Some("u-1".to_string()));
    let expired = session(false, false, "aal2", &["x"]);
    let chosen = session_for_token(token(&["y"]), Some(expired));
    assert_eq!(chosen.user_id, Some("u-7".to_string()));
    assert_eq!(chosen.permissions, vec!["y".to_string()]);
    assert_eq!(session_for_token(token(&[]), None).tenant_id, Some("org-7".to_string()));
}

#[test]
fn session_parts_need_a_user_and_lifetime() {
    let parts = session_parts_from_view(session(true, true, "aal2", &["p"])).unwrap();
    assert_eq!(parts.user_id, "u-1");
    assert_eq!(parts.organization_id, Some("org-1".to_string()));
    assert!(assurance_is_aal2(&parts));
    assert_eq!(session_id_or_default(&parts), "s-1");
    let mut anonymous = session(true, false, "aal1", &[]);
    anonymous.user_id = None;
    assert!(matches!(session_parts_from_view(anonymous), Err(AuthStackError::AuthRequired)));
    let mut open_ended = session(true, false, "aal1", &[]);
    open_ended.expires_at_unix_seconds = None;
    assert!(matches!(session_parts_from_view(open_ended), Err(AuthStackError::AuthRequired)));
    let parts = session_parts_from_token(token(&["scope"]));
    assert_eq!(parts.user_id, "u-7");
    assert!(!assurance_is_aal2(&parts));
    assert_eq!(session_id_or_default(&parts), "session-100");
}

#[test]
fn refused_requests_get_the_matching_error() {
    assert!(matches!(ingress_error(IngressRejection::MissingCredentials), AuthStackError::AuthRequired));
    assert!(matches!(ingress_error(IngressRejection::InsufficientAssurance), AuthStackError::Forbidden));
    match ingress_error(IngressRejection::Csrf) {
        AuthStackError::Validation(m) => assert_eq!(m, "request failed trusted ingress validation"),
        other => panic!("unexpected {other:?}"),
    }
    assert!(matches!(ingress_error(IngressRejection::InvalidContext), AuthStackError::AuthRequired));
    assert_eq!(credential_route(CredentialKind::Bearer).unwrap(), CredentialRoute::VerifyAccessToken);
    assert_eq!(credential_route(CredentialKind::SessionCookie).unwrap(), CredentialRoute::LoadSession);
    assert!(matches!(credential_route(CredentialKind::Other), Err(AuthStackError::InvalidToken)));
}

use fullstack_auth::access::{RequestAuth, VerifiedRequest};

#[test]
fn request_credentials_are_revalidated_without_the_verified_context() {
    let auth = RequestAuth::from_parts(Some("s-1".to_string()), None, Some("r-1".to_string()));
    assert!(auth.verified.is_none());
    let again = auth.for_revalidation();
    assert_eq!(again.session_id, Some("s-1".to_string()));
    assert_eq!(again.access_token, None);
    assert_eq!(again.request_id, Some("r-1".to_string()));
    assert!(again.verified.is_none());
}

#[test]
fn dashboard_calls_need_a_selected_workspace() {
    assert_eq!(selected_organization_id(Some("org-1".to_owned())), Ok("org-1".to_owned()));
    assert_eq!(
        selected_organization_id(Some("tenant:default".to_owned())),
        Err("select an organization first".to_owned())
    );
    assert_eq!(selected_organization_id(None), Err("select an organization first".to_owned()));
}

fn verified(aal2: bool) -> VerifiedRequest {
    VerifiedRequest {
        session_id: "sess-7".to_string(),
        request_id: "req-9".to_string(),
        assurance_aal2: aal2,
        permissions: vec!["member.view".to_string(), "audit.view".to_string()],
    }
}

#[test]
fn verified_requests_carry_their_ids_and_permissions() {
    let auth = RequestAuth::from_verified(verified(false));
    assert_eq!(auth.session_id.as_deref(), Some("sess-7"));
    assert_eq!(auth.request_id.as_deref(), Some("req-9"));
    assert_eq!(auth.access_token, None);
    assert_eq!(
        auth.verified_permissions(false).unwrap().unwrap(),
        vec!["member.view".to_string(), "audit.view".to_string()]
    );
    assert!(matches!(auth.verified_permissions(true), Some(Err(AuthStackError::AuthRequired))));
    assert!(RequestAuth::from_verified(verified(true)).verified_permissions(true).unwrap().is_ok());
    let unverified = RequestAuth::from_parts(Some("s-1".to_string()), None, None);
    assert!(unverified.verified_permissions(false).is_none());
    let again = auth.for_revalidation();
    assert!(again.verified.is_none());
    assert_eq!(again.session_id.as_deref(), Some("sess-7"));
}
