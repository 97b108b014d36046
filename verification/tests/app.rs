use fullstack_auth::contracts::LoginCompletionResponse;
use fullstack_auth::cookies::{browser_login_response, expired_session_cookie_header, session_cookie_header};

#[test]
fn browser_login_response_removes_browser_visible_tokens() {
    let response = LoginCompletionResponse {
        authenticated: true,
        redirect_url: "/dashboard".to_string(),
        session_id: Some("session_123".to_string()),
        access_token: Some("access-token".to_string()),
        refresh_token: Some("refresh-token".to_string()),
        expires_in_seconds: 3600,
    };

    let redacted = browser_login_response(response);

    assert!(redacted.authenticated);
    assert_eq!(redacted.redirect_url, "/dashboard");
    assert_eq!(redacted.expires_in_seconds, 3600);
    assert_eq!(redacted.session_id, None);
    assert_eq!(redacted.access_token, None);
    assert_eq!(redacted.refresh_token, None);
}

fn response_with(session_id: Option<&str>) -> LoginCompletionResponse {
    LoginCompletionResponse {
        authenticated: true,
        redirect_url: "/dashboard".to_string(),
        session_id: session_id.map(str::to_string),
        access_token: None,
        refresh_token: None,
        expires_in_seconds: 3600,
    }
}

#[test]
fn session_cookie_header_is_a_valid_header_value() {
    let header = session_cookie_header(&response_with(Some("session_1")), true).unwrap();
    assert_eq!(
        header,
        "__Host-session=session_1; Path=/; HttpOnly; SameSite=Lax; Max-Age=3600; Secure"
    );
    assert!(http::HeaderValue::from_str(&header).is_ok());
    assert!(session_cookie_header(&response_with(None), true).is_none());
    assert!(session_cookie_header(&response_with(Some("bad\nid")), false).is_none());
    let expired = expired_session_cookie_header(true).unwrap();
    assert_eq!(expired, "__Host-session=; Path=/; HttpOnly; SameSite=Lax; Max-Age=0; Secure");
    assert!(http::HeaderValue::from_str(&expired).is_ok());
    assert_eq!(
        expired_session_cookie_header(false).unwrap(),
        "wasi_auth_dev_session=; Path=/; HttpOnly; SameSite=Lax; Max-Age=0"
    );
}

use fullstack_auth::cookies::completed_login;

#[test]
fn completed_logins_carry_the_session_and_tokens() {
    let response = completed_login(
        "s-1".to_string(),
        "/dashboard".to_string(),
        "at".to_string(),
        "rt".to_string(),
        900,
    );
    assert!(response.authenticated);
    assert_eq!(response.session_id, Some("s-1".to_string()));
    assert_eq!(response.access_token, Some("at".to_string()));
    assert_eq!(response.refresh_token, Some("rt".to_string()));
    assert_eq!(response.expires_in_seconds, 900);
    let redacted = browser_login_response(response);
    assert_eq!(redacted.session_id, None);
    assert_eq!(redacted.redirect_url, "/dashboard");
}
