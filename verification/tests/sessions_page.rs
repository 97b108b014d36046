use fullstack_auth::contracts::AccountSessionSummary;
use fullstack_auth::sessions_page::{session_expiry_label, RevokeOutcome, SessionsPage};

fn row(id: &str, current: bool) -> AccountSessionSummary {
    AccountSessionSummary {
        session_id: id.to_owned(),
        current,
        assurance: "aal1".to_owned(),
        expires_at_ms: 1_700_000_000_000,
    }
}

#[test]
fn revoking_another_device_removes_it() {
    let mut page = SessionsPage::new();
    page.loaded(vec![row("a", true), row("b", false), row("c", false)]);
    let request = page.revoke_clicked("b", false);
    assert_eq!(request.session_id, "b");
    assert!(page.revoke_disabled("b", false));
    assert!(!page.revoke_disabled("c", false));
    assert!(page.revoke_disabled("c", true));
    assert_eq!(page.revoke_label("b", false, true), "Revoking\u{2026}");
    assert_eq!(page.revoke_label("c", false, true), "Revoke access");
    assert_eq!(page.revoke_succeeded(), RevokeOutcome::Stay);
    let ids: Vec<&str> = page.rows.iter().map(|r| r.session_id.as_str()).collect();
    assert_eq!(ids, vec!["a", "c"]);
    assert!(page.pending_id.is_none());
    assert!(page.status_message.as_deref().unwrap().starts_with("Session revoked."));
}

#[test]
fn revoking_this_browser_leaves_for_the_login_page() {
    let mut page = SessionsPage::new();
    page.loaded(vec![row("a", true), row("b", false)]);
    page.revoke_clicked("a", true);
    assert!(page.signing_out);
    assert_eq!(page.status_message.as_deref(), Some("Signing you out of this browser\u{2026}"));
    assert_eq!(page.revoke_label("a", true, false), "Signing out\u{2026}");
    assert!(page.revoke_disabled("b", false));
    assert_eq!(page.revoke_succeeded(), RevokeOutcome::LeaveForLogin);
    assert_eq!(page.status_message.as_deref(), Some("Signing you out\u{2026}"));
    assert_eq!(page.rows.len(), 2);
}

#[test]
fn a_failed_revocation_is_reported() {
    let mut page = SessionsPage::new();
    page.loaded(vec![row("a", true)]);
    page.revoke_clicked("a", true);
    page.revoke_failed("error running server function: session store unavailable");
    assert!(!page.signing_out);
    assert!(page.pending_id.is_none());
    assert_eq!(page.error_message.as_deref(), Some("session store unavailable"));
    assert_eq!(page.revoke_label("a", true, false), "Sign out this browser");
    assert_eq!(session_expiry_label(1234), "Expires at 1234");
}
