use fullstack_auth::contracts::{
    EmailPasswordLoginRequest, EmailPasswordRegisterRequest, PasskeyVerifyRequest,
    PasswordResetCompleteRequest, PasswordResetStartRequest,
};
use fullstack_auth::cookies::{
    expired_session_cookie_header_value, session_cookie_header_value,
    session_id_from_cookie_header,
};
use fullstack_auth::error::{AuthStackError, AuthStackResult};
use fullstack_auth::urls::{
    development_oauth_callback_url, hex_nibble, percent_decode_component,
    percent_encode_component, url_query_component,
};
use fullstack_auth::validation::{
    is_safe_redirect, safe_redirect_or_default, validate_display_name,
    validate_email_password_login, validate_email_password_register, validate_identifier,
    validate_mfa_code, validate_optional_email, validate_passkey_verify_request,
    validate_password_policy, validate_password_reset_complete, validate_password_reset_start,
    validate_provider_id, validate_required_email, validate_safe_redirect_option,
    validate_signing_key_id,
};

fn message(result: AuthStackResult<()>) -> String {
    match result {
        Err(AuthStackError::Validation(m)) => m,
        other => panic!("expected a validation error, got {other:?}"),
    }
}

#[test]
fn unsafe_redirect_falls_back_to_dashboard() {
    assert_eq!(
        safe_redirect_or_default(Some("https://example.com".to_string())),
        "/dashboard"
    );
}

#[test]
fn invalid_provider_id_is_rejected() {
    let error = validate_provider_id("../google").unwrap_err();

    assert_eq!(error.public_code(), "validation");
}

#[test]
fn development_oauth_callback_url_encodes_redirect_component() {
    let url = development_oauth_callback_url("google", "state_1", "/dashboard?tab=home");

    assert_eq!(
        url,
        "/api/auth/oauth/google/callback?code=development-oauth-code&state=state_1&next=%2Fdashboard%3Ftab%3Dhome"
    );
}

#[test]
fn session_cookie_header_value_adds_secure_when_enabled() {
    assert_eq!(
        session_cookie_header_value("session_1", Some(3600), true),
        "__Host-session=session_1; Path=/; HttpOnly; SameSite=Lax; Max-Age=3600; Secure"
    );
}

#[test]
fn session_cookie_header_value_omits_secure_when_disabled() {
    assert_eq!(
        session_cookie_header_value("session_1", None, false),
        "wasi_auth_dev_session=session_1; Path=/; HttpOnly; SameSite=Lax"
    );
}

#[test]
fn expired_cookie_clears_the_session() {
    assert_eq!(
        expired_session_cookie_header_value(false),
        "wasi_auth_dev_session=; Path=/; HttpOnly; SameSite=Lax; Max-Age=0"
    );
}

#[test]
fn session_id_is_read_back_from_the_cookie_it_set() {
    let header = session_cookie_header_value("sess-42", Some(60), true);
    assert_eq!(session_id_from_cookie_header(&header), Some("sess-42".to_string()));
    assert_eq!(
        session_id_from_cookie_header("theme=dark; wasi_auth_dev_session= abc ; x=1"),
        Some("abc".to_string())
    );
    assert_eq!(session_id_from_cookie_header("__Host-session=  ; other=1"), None);
    assert_eq!(session_id_from_cookie_header("theme=dark"), None);
}

#[test]
fn redirects_must_be_local_paths() {
    assert!(is_safe_redirect("/account"));
    assert!(!is_safe_redirect("//evil.example"));
    assert!(!is_safe_redirect("account"));
    assert_eq!(safe_redirect_or_default(Some("/account".to_string())), "/account");
    assert_eq!(safe_redirect_or_default(None), "/dashboard");
    assert_eq!(
        message(validate_safe_redirect_option(Some("https://x"))),
        "redirect_url must be a local path"
    );
    assert!(validate_safe_redirect_option(None).is_ok());
}

#[test]
fn identifiers_reject_whitespace_and_length() {
    assert!(validate_identifier("user_id", "user-1").is_ok());
    assert_eq!(message(validate_identifier("user_id", "")), "user_id is invalid");
    assert_eq!(message(validate_identifier("user_id", "a b")), "user_id is invalid");
    assert_eq!(message(validate_identifier("role_id", &"x".repeat(257))), "role_id is invalid");
    assert!(validate_identifier("role_id", &"x".repeat(256)).is_ok());
}

#[test]
fn totp_codes_are_six_to_eight_digits() {
    assert!(validate_mfa_code(" 123456 ").is_ok());
    assert!(validate_mfa_code("12345678").is_ok());
    assert_eq!(message(validate_mfa_code("12345")), "TOTP code is invalid");
    assert_eq!(message(validate_mfa_code("12a456")), "TOTP code is invalid");
}

#[test]
fn display_names_are_trimmed_and_bounded() {
    assert!(validate_display_name("organization name", "Acme", 120).is_ok());
    assert_eq!(
        message(validate_display_name("organization name", " Acme", 120)),
        "organization name is invalid"
    );
    assert_eq!(message(validate_display_name("role name", "abc", 2)), "role name is invalid");
    assert_eq!(message(validate_display_name("role name", "a\u{1}b", 20)), "role name is invalid");
}

#[test]
fn email_checks_give_their_messages() {
    assert_eq!(message(validate_required_email("  ")), "email is required");
    assert_eq!(
        message(validate_required_email("alice")),
        "email must be a valid email address"
    );
    assert!(validate_required_email(" alice@example.com ").is_ok());
    assert_eq!(
        message(validate_optional_email("alice")),
        "email must be empty or a valid email address"
    );
    assert!(validate_optional_email("a@b").is_ok());
}

#[test]
fn password_policy_bounds_and_blocks() {
    assert_eq!(
        message(validate_password_policy("short", 15)),
        "password must be at least 15 characters"
    );
    assert_eq!(
        message(validate_password_policy(&"x".repeat(129), 15)),
        "password must be at most 128 characters"
    );
    assert_eq!(
        message(validate_password_policy(" Password123 ", 8)),
        "password appears in the blocked common-password list"
    );
    assert!(validate_password_policy("correct horse battery", 15).is_ok());
}

#[test]
fn login_and_registration_requests_are_checked_in_order() {
    let login = EmailPasswordLoginRequest {
        email: "alice@example.com".to_string(),
        password: String::new(),
        redirect_url: None,
    };
    assert_eq!(message(validate_email_password_login(&login)), "password is required");
    let login = EmailPasswordLoginRequest {
        email: "alice@example.com".to_string(),
        password: "pw".to_string(),
        redirect_url: Some("//evil".to_string()),
    };
    assert_eq!(
        message(validate_email_password_login(&login)),
        "redirect_url must be a local path"
    );
    let register = EmailPasswordRegisterRequest {
        email: "nobody".to_string(),
        password: "short".to_string(),
        redirect_url: None,
    };
    assert_eq!(
        message(validate_email_password_register(&register, 15)),
        "email must be a valid email address"
    );
    let register = EmailPasswordRegisterRequest {
        email: "alice@example.com".to_string(),
        password: "a long enough passphrase".to_string(),
        redirect_url: Some("/welcome".to_string()),
    };
    assert!(validate_email_password_register(&register, 15).is_ok());
}

#[test]
fn password_reset_requests_are_checked() {
    let start = PasswordResetStartRequest { email: String::new(), redirect_url: None };
    assert_eq!(message(validate_password_reset_start(&start)), "email is required");
    let complete = PasswordResetCompleteRequest {
        token: "  ".to_string(),
        password: "a long enough passphrase".to_string(),
        redirect_url: None,
    };
    assert_eq!(
        message(validate_password_reset_complete(&complete, 15)),
        "reset token is required"
    );
}

#[test]
fn passkey_verification_needs_challenge_and_credential() {
    let request = PasskeyVerifyRequest {
        challenge_id: " ".to_string(),
        credential_json: "{}".to_string(),
        redirect_url: None,
    };
    assert_eq!(message(validate_passkey_verify_request(&request)), "challenge_id is required");
    let request = PasskeyVerifyRequest {
        challenge_id: "c1".to_string(),
        credential_json: "".to_string(),
        redirect_url: None,
    };
    assert_eq!(
        message(validate_passkey_verify_request(&request)),
        "credential_json is required"
    );
}

#[test]
fn provider_and_key_ids_are_checked() {
    assert!(validate_provider_id("google").is_ok());
    assert_eq!(message(validate_provider_id("  ")), "provider_id is required");
    assert_eq!(message(validate_signing_key_id("")), "kid is required");
    assert_eq!(message(validate_signing_key_id("a/b")), "kid is invalid");
    assert!(validate_signing_key_id(" key-2024 ").is_ok());
}

#[test]
fn query_components_round_trip() {
    assert_eq!(url_query_component("a b&c=d/é"), "a%20b%26c%3Dd%2F%C3%A9");
    assert_eq!(percent_encode_component("A-z_0.9~"), "A-z_0.9~");
    assert_eq!(percent_decode_component("a%20b+c%2"), "a b c%2");
    assert_eq!(percent_decode_component("%C3%A9"), "é");
    let text = "/dashboard?tab=home & more é";
    assert_eq!(percent_decode_component(&url_query_component(text)), text);
    assert_eq!(hex_nibble(b'f'), Some(15));
    assert_eq!(hex_nibble(b'G'), None);
}

#[test]
fn invalid_utf8_decodes_lossily() {
    assert_eq!(percent_decode_component("%FF"), "\u{FFFD}");
}

#[test]
fn error_codes_are_stable() {
    assert_eq!(AuthStackError::AuthRequired.public_code(), "auth_required");
    assert_eq!(AuthStackError::Forbidden.public_code(), "forbidden");
    assert_eq!(AuthStackError::InvalidToken.public_code(), "invalid_token");
    assert_eq!(AuthStackError::not_found("x").public_code(), "not_found");
    let configuration = AuthStackError::configuration("missing");
    assert_eq!(configuration.public_code(), "configuration");
    assert!(!configuration.is_client_error());
    assert!(AuthStackError::validation("bad").is_client_error());
}

use fullstack_auth::authz::cedar_provider;

#[test]
fn embedded_cedar_policy_passes_strict_validation() {
    assert!(cedar_provider().is_ok());
}

#[test]
fn the_embedded_engine_holds_the_embedded_bundle() {
    let engine = cedar_provider().unwrap();
    assert_eq!(engine.revision(), "embedded-v1");
    assert_eq!(engine.policy(), fullstack_auth::authz::EMBEDDED_CEDAR_POLICY);
}

#[test]
fn the_expiry_header_removes_the_cookie_the_sign_in_set() {
    for secure in [true, false] {
        let set = fullstack_auth::cookies::session_cookie_header_value("session_1", Some(3600), secure);
        let expired = fullstack_auth::cookies::expired_session_cookie_header_value(secure);
        assert_eq!(set.split('=').next(), expired.split('=').next());
        assert!(expired.contains("; Path=/;"));
        assert!(expired.contains("; Max-Age=0"));
        assert_eq!(expired.ends_with("; Secure"), set.ends_with("; Secure"));
        assert_eq!(set.ends_with("; Secure"), secure);
    }
}
