use fullstack_auth::contracts::{
    InvitationCreateRequest, MembershipRemoveRequest, MembershipRoleRequest, OAuthCallbackRequest,
    OrganizationCreateRequest, OrganizationUpdateRequest, PasswordChangeRequest, RoleUpsertRequest,
};
use fullstack_auth::error::{AuthStackError, AuthStackResult};
use fullstack_auth::requests::{
    check_access_token, check_captured_mail_request, check_development_oauth_code,
    check_invitation_create, check_invitation_token, check_membership_remove,
    check_membership_role, check_oauth_callback, check_oauth_start, check_organization_create,
    check_organization_update, check_passkeys_enabled, check_password_change,
    check_policy_bundle_size, check_recovery_code, check_redirect_allowlist, check_role_upsert,
    validate_browser_origin, validate_redirect_allowlist,
};

fn message<T: std::fmt::Debug>(result: AuthStackResult<T>) -> String {
    match result {
        Err(AuthStackError::Validation(m)) => m,
        other => panic!("expected a validation error, got {other:?}"),
    }
}

fn configuration<T: std::fmt::Debug>(result: AuthStackResult<T>) -> String {
    match result {
        Err(AuthStackError::Configuration(m)) => m,
        other => panic!("expected a configuration error, got {other:?}"),
    }
}

fn change(current: &str, new: &str) -> PasswordChangeRequest {
    PasswordChangeRequest { current_password: current.to_string(), new_password: new.to_string() }
}

#[test]
fn password_changes_are_checked() {
    assert_eq!(message(check_password_change(&change("", "x"), 15)), "current_password is required");
    assert_eq!(message(check_password_change(&change("old", "short"), 15)), "new password is too short");
    let same = "the same long passphrase";
    assert_eq!(message(check_password_change(&change(same, same), 15)), "new password must be different");
    assert!(check_password_change(&change("old", "a brand new passphrase"), 15).is_ok());
    assert!(check_password_change(&change("old", ""), 0).is_ok());
}

#[test]
fn one_time_codes_and_tokens_are_checked() {
    assert_eq!(message(check_recovery_code("abcd")), "recovery code is invalid");
    assert!(check_recovery_code(" abcdefghijklmnop ").is_ok());
    assert_eq!(message(check_recovery_code(&"x".repeat(33))), "recovery code is invalid");
    assert_eq!(message(check_access_token("  ")), "access_token is required");
    assert!(check_access_token("t").is_ok());
    assert_eq!(check_invitation_token(" tok ").unwrap(), "tok");
    assert_eq!(message(check_invitation_token(" ")), "invitation token is required");
}

#[test]
fn development_mail_needs_a_known_kind() {
    assert!(check_captured_mail_request("a@b.c", "invitation").is_ok());
    assert_eq!(message(check_captured_mail_request("a@b.c", "spam")), "message_kind is invalid");
    assert_eq!(message(check_captured_mail_request("", "invitation")), "email is required");
}

#[test]
fn workspace_requests_are_checked_in_order() {
    let role = RoleUpsertRequest {
        organization_id: "org-1".to_string(),
        role_id: "editor".to_string(),
        name: "Editor".to_string(),
        permissions: (0..101).map(|i| format!("p{i}")).collect(),
    };
    assert_eq!(message(check_role_upsert(&role)), "role permission list is too large");
    let role = RoleUpsertRequest { permissions: Vec::new(), ..role };
    assert!(check_role_upsert(&role).is_ok());
    let role = RoleUpsertRequest { role_id: "bad id".to_string(), ..role };
    assert_eq!(message(check_role_upsert(&role)), "role_id is invalid");
    let create = OrganizationCreateRequest { name: " Acme".to_string(), slug: "acme".to_string() };
    assert_eq!(message(check_organization_create(&create)), "organization name is invalid");
    let update = OrganizationUpdateRequest {
        organization_id: String::new(),
        name: "Acme".to_string(),
    };
    assert_eq!(message(check_organization_update(&update)), "organization_id is invalid");
    let invite = InvitationCreateRequest {
        organization_id: "org-1".to_string(),
        email: "nobody".to_string(),
        role_id: "member".to_string(),
    };
    assert_eq!(message(check_invitation_create(&invite)), "email must be a valid email address");
    let assign = MembershipRoleRequest {
        organization_id: "org-1".to_string(),
        user_id: "u 1".to_string(),
        role_id: "member".to_string(),
    };
    assert_eq!(message(check_membership_role(&assign)), "user_id is invalid");
    let remove = MembershipRemoveRequest {
        organization_id: "org-1".to_string(),
        user_id: "u-1".to_string(),
    };
    assert!(check_membership_remove(&remove).is_ok());
}

#[test]
fn oauth_start_needs_oauth_and_a_valid_provider() {
    assert_eq!(
        configuration(check_oauth_start(false, "google", None)),
        "OAuth login is disabled; set AUTH_ENABLE_OAUTH=true and provider credentials to enable it"
    );
    assert_eq!(
        message(check_oauth_start(true, "Google", None)),
        "provider_id must contain only lowercase letters, digits, hyphen, or underscore"
    );
    assert_eq!(check_oauth_start(true, "google", Some("//evil".to_string())).unwrap(), "/dashboard");
    assert_eq!(check_oauth_start(true, "google", Some("/account".to_string())).unwrap(), "/account");
}

fn callback(code: Option<&str>, state: Option<&str>) -> OAuthCallbackRequest {
    OAuthCallbackRequest {
        provider_id: "google".to_string(),
        code: code.map(str::to_string),
        state: state.map(str::to_string),
    }
}

#[test]
fn oauth_callbacks_need_code_and_state() {
    assert_eq!(message(check_oauth_callback(true, &callback(None, Some("s")))), "OAuth callback code is required");
    assert_eq!(
        message(check_oauth_callback(true, &callback(Some("c"), Some("  ")))),
        "OAuth callback state is required"
    );
    assert_eq!(
        check_oauth_callback(true, &callback(Some(" c "), Some(" s "))).unwrap(),
        ("c".to_string(), "s".to_string())
    );
    assert!(matches!(
        check_oauth_callback(false, &callback(Some("c"), Some("s"))),
        Err(AuthStackError::Configuration(_))
    ));
    assert!(check_development_oauth_code("development-oauth-code").is_ok());
    assert_eq!(
        message(check_development_oauth_code("other")),
        "OAuth development callback code is invalid"
    );
}

#[test]
fn passkeys_refuse_while_switched_off() {
    assert!(check_passkeys_enabled(true, true).is_ok());
    assert_eq!(
        configuration(check_passkeys_enabled(false, true)),
        "passkey registration is disabled; set AUTH_ENABLE_PASSKEYS=true to enable it"
    );
    assert_eq!(
        configuration(check_passkeys_enabled(false, false)),
        "passkey login is disabled; set AUTH_ENABLE_PASSKEYS=true to enable it"
    );
}

#[test]
fn administration_inputs_are_bounded() {
    assert!(check_policy_bundle_size("permit;", "{}").is_ok());
    let big = "a".repeat(1_048_577);
    assert_eq!(message(check_policy_bundle_size(&big, "{}")), "policy bundle is too large");
    assert!(check_policy_bundle_size(&"a".repeat(1_048_576), "{}").is_ok());
    assert!(validate_browser_origin(Some("https://auth.example"), "https://auth.example").is_ok());
    assert_eq!(message(validate_browser_origin(None, "x")), "browser mutation origin is required");
    assert_eq!(
        message(validate_browser_origin(Some("https://evil"), "https://auth.example")),
        "browser mutation origin is not allowed"
    );
}

#[test]
fn redirect_allowlists_hold_local_paths() {
    assert!(validate_redirect_allowlist(r#"["/a", "/b/c"]"#).is_ok());
    assert!(validate_redirect_allowlist("[]").is_ok());
    assert_eq!(
        message(validate_redirect_allowlist(r#"["/a", "https://x"]"#)),
        "redirect allowlist entries must be local paths"
    );
    assert_eq!(
        message(validate_redirect_allowlist(r#"["//x"]"#)),
        "redirect allowlist entries must be local paths"
    );
    let parse_error = message(validate_redirect_allowlist("not json"));
    assert!(parse_error.starts_with("invalid redirects_json: "));
    assert!(parse_error.len() > "invalid redirects_json: ".len());
    assert_eq!(
        message(check_redirect_allowlist(Err("bad".to_string()))),
        "invalid redirects_json: bad"
    );
    assert!(check_redirect_allowlist(Ok(vec!["/ok".to_string()])).is_ok());
}
