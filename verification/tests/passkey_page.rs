use fullstack_auth::passkey_page::{
    ceremony_error_shown, ceremony_lede, ceremony_status, ceremony_title, passkey_account_label,
    passkey_badge, passkey_deployment_label, passkey_panel, passkey_registration_request,
    passkey_screen, PasskeyPanel, PasskeyProgress, PasskeyScreen,
};

fn idle() -> PasskeyProgress {
    PasskeyProgress {
        start_pending: false,
        verify_pending: false,
        start_ok: false,
        start_failed: false,
        verify_ok: false,
        verify_failed: false,
        client_error: None,
    }
}

#[test]
fn the_page_stays_on_the_ceremony_until_saved() {
    assert_eq!(passkey_screen(&idle()), PasskeyScreen::Overview);
    let running = PasskeyProgress { start_pending: true, ..idle() };
    assert_eq!(passkey_screen(&running), PasskeyScreen::Ceremony);
    assert_eq!(ceremony_status(&running), "Starting secure registration\u{2026}");
    assert_eq!(ceremony_title(&running), "Confirm with your device");
    let saving = PasskeyProgress { start_ok: true, verify_pending: true, ..idle() };
    assert_eq!(ceremony_status(&saving), "Saving passkey to your account\u{2026}");
    let failed = PasskeyProgress { verify_failed: true, ..idle() };
    assert_eq!(passkey_screen(&failed), PasskeyScreen::Ceremony);
    assert_eq!(ceremony_title(&failed), "Could not create passkey");
    let saved = PasskeyProgress { start_ok: true, verify_ok: true, ..idle() };
    assert_eq!(passkey_screen(&saved), PasskeyScreen::Registered);
}

#[test]
fn a_closed_prompt_is_explained_not_flagged() {
    let closed = PasskeyProgress {
        client_error: Some("The operation was canceled by the user".to_owned()),
        ..idle()
    };
    assert_eq!(ceremony_title(&closed), "Passkey not created");
    assert!(ceremony_lede(&closed).starts_with("You closed the browser prompt."));
    assert!(!ceremony_error_shown(&closed));
    let broken = PasskeyProgress { client_error: Some("Security error".to_owned()), ..idle() };
    assert!(ceremony_error_shown(&broken));
    assert!(ceremony_lede(&broken).starts_with("You can retry"));
}

#[test]
fn the_overview_reports_readiness() {
    assert_eq!(passkey_panel(false, true, true), PasskeyPanel::Loading);
    assert_eq!(passkey_panel(true, false, true), PasskeyPanel::Disabled);
    assert_eq!(passkey_panel(true, true, false), PasskeyPanel::Unsupported);
    assert_eq!(passkey_panel(true, true, true), PasskeyPanel::Ready);
    assert_eq!(passkey_badge(false, true, true), ("Loading", true));
    assert_eq!(passkey_badge(true, true, true), ("Available", true));
    assert_eq!(passkey_badge(true, true, false), ("Not ready", false));
    assert_eq!(passkey_deployment_label(false, false, false), "Checking\u{2026}");
    assert_eq!(passkey_deployment_label(true, true, false), "Error");
    assert_eq!(passkey_deployment_label(true, false, true), "Enabled");
    assert_eq!(passkey_deployment_label(true, false, false), "Disabled");
    assert_eq!(passkey_account_label(&None), "your account");
}

#[test]
fn registration_needs_an_email() {
    assert!(passkey_registration_request(&None).is_none());
    let request = passkey_registration_request(&Some("ada@example.com".to_owned())).unwrap();
    assert_eq!(request.email.as_deref(), Some("ada@example.com"));
    assert_eq!(request.redirect_url.as_deref(), Some("/account/passkeys"));
}
