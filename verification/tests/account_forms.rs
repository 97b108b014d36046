use fullstack_auth::account_forms::{
    captured_mail_target, email_verification_request, invitation_accept_request,
    invitation_joined_text, password_change_ready, password_change_request,
    password_reset_complete_request, password_reset_start_request, resend_verification_request,
};

const LONG: &str = "a sufficiently long passphrase";

#[test]
fn password_changes_are_checked_before_sending() {
    let request = password_change_request("old password", LONG, LONG).unwrap();
    assert_eq!(request.current_password, "old password");
    assert_eq!(request.new_password, LONG);
    assert_eq!(
        password_change_request("old", "short", "short").unwrap_err(),
        "New password must be at least 15 characters."
    );
    assert_eq!(
        password_change_request("old", LONG, "something else entirely").unwrap_err(),
        "New password and confirmation do not match."
    );
    assert_eq!(
        password_change_request(LONG, LONG, LONG).unwrap_err(),
        "New password must be different from the current password."
    );
    assert!(password_change_ready(false, "old", LONG, LONG));
    assert!(!password_change_ready(true, "old", LONG, LONG));
    assert!(!password_change_ready(false, "", LONG, LONG));
    // Fifteen characters, counted as characters, not bytes.
    assert!(password_change_ready(false, "old", "ééééééééééééééé", "ééééééééééééééé"));
}

#[test]
fn reset_requests_need_an_email_or_a_token() {
    let start = password_reset_start_request("  ada@example.com ").unwrap();
    assert_eq!(start.email, "ada@example.com");
    assert_eq!(start.redirect_url.as_deref(), Some("/dashboard"));
    assert_eq!(password_reset_start_request(" ").unwrap_err(), "Email is required.");
    assert_eq!(
        password_reset_complete_request(None, LONG).unwrap_err(),
        "Reset token is missing."
    );
    assert_eq!(
        password_reset_complete_request(Some("tok".to_owned()), "short").unwrap_err(),
        "Password must contain 15 to 128 characters."
    );
    let complete = password_reset_complete_request(Some("tok".to_owned()), LONG).unwrap();
    assert_eq!(complete.token, "tok");
    assert_eq!(complete.password, LONG);
}

#[test]
fn verification_and_invitation_links_carry_their_token() {
    assert!(email_verification_request(None).is_none());
    let verify = email_verification_request(Some("t1".to_owned())).unwrap();
    assert_eq!(verify.token, "t1");
    assert_eq!(verify.redirect_url.as_deref(), Some("/dashboard"));
    assert_eq!(resend_verification_request("ada@example.com").email, "ada@example.com");
    assert_eq!(invitation_accept_request(Some("inv".to_owned())).unwrap().token, "inv");
    assert_eq!(
        invitation_accept_request(None).unwrap_err(),
        "Invitation token is missing. Open the one-time link from your email."
    );
    assert_eq!(invitation_joined_text("Acme", "admin"), "You joined Acme. Role: admin.");
}

#[test]
fn captured_mail_leads_to_its_link() {
    assert_eq!(
        captured_mail_target(&Some("https://app.test/verify?token=1".to_owned()), "ignored").as_deref(),
        Some("https://app.test/verify?token=1")
    );
    assert_eq!(
        captured_mail_target(&Some(String::new()), "Open http://localhost/v?t=2 now").as_deref(),
        Some("http://localhost/v?t=2")
    );
    assert_eq!(captured_mail_target(&None, "no link here"), None);
}
