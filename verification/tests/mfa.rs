use fullstack_auth::mfa::otpauth_qr_svg;
use fullstack_auth::mfa::{
    code_submit_enabled, finish_setup_reminder, mfa_screen, otp_code_input, recovery_codes_text,
    MfaScreen,
};

#[test]
fn enrollment_uri_renders_as_an_svg_qr_code() {
    let uri = "otpauth://totp/Example:alice@example.com?secret=JBSWY3DPEHPK3PXP&issuer=Example";
    let svg = otpauth_qr_svg(uri);
    assert!(svg.contains("<svg"));
    assert!(svg.contains("#0d0d0d"));
    assert!(svg.contains("#ffffff"));
    assert_ne!(svg, uri);
}

#[test]
fn oversized_data_renders_nothing() {
    let uri = "x".repeat(8000);
    assert_eq!(otpauth_qr_svg(&uri), "");
}

#[test]
fn the_authenticator_page_shows_one_screen() {
    assert_eq!(mfa_screen(true, true, true, true), MfaScreen::RecoveryCodes);
    assert_eq!(mfa_screen(false, true, true, true), MfaScreen::Preparing);
    assert_eq!(mfa_screen(false, false, true, true), MfaScreen::Scan);
    assert_eq!(mfa_screen(false, false, false, true), MfaScreen::Manage);
    assert_eq!(mfa_screen(false, false, false, false), MfaScreen::Overview);
}

#[test]
fn code_fields_keep_six_digits() {
    assert_eq!(otp_code_input("123 456"), "123456");
    assert_eq!(otp_code_input("12a3-4b56789"), "123456");
    assert_eq!(otp_code_input("１２3"), "3");
    assert!(code_submit_enabled(false, "123456"));
    assert!(!code_submit_enabled(true, "123456"));
    assert!(!code_submit_enabled(false, "12345"));
}

#[test]
fn recovery_codes_are_copied_one_per_line() {
    let codes = vec!["aaaa-1111".to_owned(), "bbbb-2222".to_owned(), "cccc-3333".to_owned()];
    assert_eq!(recovery_codes_text(&codes), "aaaa-1111\nbbbb-2222\ncccc-3333");
    assert_eq!(recovery_codes_text(&Vec::new()), "");
    assert_eq!(finish_setup_reminder(true), None);
    assert_eq!(
        finish_setup_reminder(false).as_deref(),
        Some("Check the box below after you store the codes.")
    );
}
