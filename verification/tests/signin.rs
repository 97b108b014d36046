use fullstack_auth::signin::{passkey_start_error_text, SignInAction, SignInForm};

#[test]
fn signing_in_takes_the_email_first_then_the_password() {
    let mut form = SignInForm::new(false);
    assert_eq!(form.title(), "Welcome back");
    assert_eq!(form.lede(), "Enter your email to continue.");
    assert_eq!(form.submit_label(false), "Continue");
    form.edit_email("  ada@example.com ".to_owned());
    assert!(matches!(form.submit_credentials("/dashboard".to_owned()), SignInAction::Nothing));
    assert!(form.password_step);
    assert_eq!(form.email, "ada@example.com");
    assert_eq!(form.submit_label(false), "Sign in");
    form.edit_password("correct horse battery staple".to_owned());
    match form.submit_credentials("/dashboard".to_owned()) {
        SignInAction::Login(request) => {
            assert_eq!(request.email, "ada@example.com");
            assert_eq!(request.password, "correct horse battery staple");
            assert_eq!(request.redirect_url.as_deref(), Some("/dashboard"));
        }
        _ => panic!("expected a login request"),
    }
    assert!(form.client_error.is_none());
}

#[test]
fn a_bad_email_stays_on_the_email_step() {
    let mut form = SignInForm::new(false);
    form.edit_email("not-an-email".to_owned());
    assert!(matches!(form.submit_credentials("/".to_owned()), SignInAction::Nothing));
    assert!(!form.password_step);
    assert_eq!(form.client_error.as_deref(), Some("Enter a valid email address."));
    form.edit_email("".to_owned());
    assert!(form.client_error.is_none());
    form.submit_credentials("/".to_owned());
    assert_eq!(form.client_error.as_deref(), Some("Email is required."));
}

#[test]
fn registration_checks_the_password_length() {
    let mut form = SignInForm::new(true);
    assert_eq!(form.title(), "Create your workspace");
    assert!(form.password_step);
    form.edit_email("ada@example.com".to_owned());
    form.edit_password("short".to_owned());
    assert!(matches!(form.submit_credentials("/".to_owned()), SignInAction::Nothing));
    assert_eq!(
        form.client_error.as_deref(),
        Some("Password must contain 15 to 128 characters.")
    );
    form.edit_password("a long enough passphrase".to_owned());
    match form.submit_credentials("/welcome".to_owned()) {
        SignInAction::Register(request) => assert_eq!(request.redirect_url.as_deref(), Some("/welcome")),
        _ => panic!("expected a registration request"),
    }
    assert_eq!(form.submit_label(true), "Creating workspace");
}

#[test]
fn switching_tabs_resets_the_steps() {
    let mut form = SignInForm::new(true);
    form.edit_password("secret".to_owned());
    form.choose_sign_in();
    assert!(!form.register_mode && !form.password_step);
    assert!(form.password.is_empty());
    form.choose_register();
    assert!(form.register_mode && form.password_step);
    form.choose_sign_in();
    form.edit_email("ada@example.com".to_owned());
    form.submit_credentials("/".to_owned());
    form.edit_password("pw".to_owned());
    form.use_different_email();
    assert!(!form.password_step);
    assert!(form.password.is_empty());
    assert_eq!(form.email, "ada@example.com");
}

#[test]
fn passkey_autofill_is_armed_once_per_email() {
    let mut form = SignInForm::new(false);
    form.edit_email("ada@example.com".to_owned());
    assert!(form.arm_conditional_passkey(true, "/".to_owned()).is_none());
    form.submit_credentials("/".to_owned());
    assert!(form.arm_conditional_passkey(false, "/".to_owned()).is_none());
    let request = form.arm_conditional_passkey(true, "/home".to_owned()).unwrap();
    assert_eq!(request.email.as_deref(), Some("ada@example.com"));
    assert!(form.arm_conditional_passkey(true, "/home".to_owned()).is_none());
    form.begin_conditional();
    form.passkey_start_failed("no passkey");
    form.passkey_verify_failed("bad signature");
    form.passkey_prompt_failed("NotAllowedError");
    assert!(form.client_error.is_none());
    form.edit_email("grace@example.com".to_owned());
    assert!(form.arm_conditional_passkey(true, "/home".to_owned()).is_some());
}

#[test]
fn a_passkey_click_needs_an_email() {
    let mut form = SignInForm::new(false);
    form.submit_credentials("/".to_owned());
    form.edit_email("ada@example.com".to_owned());
    form.submit_credentials("/".to_owned());
    form.edit_email("".to_owned());
    assert!(form.start_passkey_modal("/".to_owned()).is_none());
    assert!(!form.password_step);
    assert_eq!(form.client_error.as_deref(), Some("Email is required."));
    form.edit_email(" ada@example.com".to_owned());
    let request = form.start_passkey_modal("/next".to_owned()).unwrap();
    assert_eq!(request.email.as_deref(), Some("ada@example.com"));
    assert_eq!(request.redirect_url.as_deref(), Some("/next"));
    assert!(form.conditional_armed);
    form.passkey_start_failed("error running server function: Invalid credentials");
    assert_eq!(
        form.client_error.as_deref(),
        Some("No passkey is available for this email. Sign in with your password, then add a passkey in Account \u{2192} Passkeys.")
    );
    form.passkey_prompt_failed("The operation was cancelled");
    assert!(form.client_error.as_deref().unwrap().starts_with("No passkey"));
    form.passkey_prompt_failed("Device error");
    assert_eq!(form.client_error.as_deref(), Some("Device error"));
    form.passkey_verify_failed("error running server function: expired challenge");
    assert_eq!(form.client_error.as_deref(), Some("expired challenge"));
}

#[test]
fn passkey_start_errors_are_explained() {
    assert_eq!(passkey_start_error_text("rate limited"), "rate limited");
    assert!(passkey_start_error_text("Account NOT FOUND").starts_with("No passkey is available"));
    assert!(passkey_start_error_text("incorrect email").starts_with("No passkey is available"));
}

#[test]
fn the_error_line_prefers_the_form_error() {
    let mut form = SignInForm::new(false);
    assert_eq!(
        form.error_line(Some(Err("error running server function: Wrong password".to_owned())), None),
        Some("Wrong password".to_owned())
    );
    assert_eq!(form.error_line(None, Some(Err("taken".to_owned()))), None);
    form.submit_credentials("/".to_owned());
    assert_eq!(
        form.error_line(Some(Err("x".to_owned())), None),
        Some("Email is required.".to_owned())
    );
    form.registration_succeeded();
    assert!(form.registration_complete);
}

#[test]
fn an_unreadable_passkey_answer_is_shown_for_a_click_only() {
    let mut form = SignInForm::new(false);
    form.passkey_response_unreadable("credential could not be encoded");
    assert_eq!(form.client_error.as_deref(), Some("credential could not be encoded"));
    let mut silent = SignInForm::new(false);
    silent.begin_conditional();
    silent.passkey_response_unreadable("credential could not be encoded");
    assert!(silent.client_error.is_none());
}
