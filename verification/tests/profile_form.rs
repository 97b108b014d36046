use fullstack_auth::contracts::ProfileView;
use fullstack_auth::profile_form::{clean_username_input, public_profile_lines, ProfileForm};

fn profile() -> ProfileView {
    ProfileView {
        first_name: "Ada".to_owned(),
        last_name: "Lovelace".to_owned(),
        display_name: String::new(),
        username: "ada".to_owned(),
        is_public: true,
        avatar_data_url: Some("data:image/png;base64,AAAA".to_owned()),
        email: Some("ada@example.com".to_owned()),
    }
}

#[test]
fn usernames_keep_only_handle_characters() {
    assert_eq!(clean_username_input("Ada_Lovelace 1815!"), "ada_lovelace1815");
    assert_eq!(clean_username_input("é-ö"), "");
}

#[test]
fn the_form_is_seeded_once() {
    let mut form = ProfileForm::new();
    form.loaded(&profile());
    assert!(form.seeded);
    assert_eq!(form.first_name, "Ada");
    form.edit_first_name("Augusta".to_owned());
    form.loaded(&profile());
    assert_eq!(form.first_name, "Augusta");
    form.saved(&profile());
    assert_eq!(form.first_name, "Ada");
    assert!(!form.avatar_dirty);
}

#[test]
fn the_identity_strip_prefers_the_display_name() {
    let email = Some("ada@example.com".to_owned());
    let mut form = ProfileForm::new();
    assert_eq!(form.title(&email), "ada@example.com");
    assert_eq!(form.title(&None), "Your name");
    assert!(!form.shows_email(&email));
    form.edit_last_name("Lovelace".to_owned());
    assert_eq!(form.title(&email), "Lovelace");
    assert!(form.shows_email(&email));
    form.edit_first_name("Ada".to_owned());
    assert_eq!(form.title(&email), "Ada Lovelace");
    form.edit_display_name(" Countess ".to_owned());
    assert_eq!(form.title(&email), " Countess ");
    assert!(!form.shows_email(&None));
}

#[test]
fn the_handle_and_public_link_follow_the_username() {
    let mut form = ProfileForm::new();
    assert_eq!(form.handle_label(), None);
    form.edit_username("Ada");
    assert_eq!(form.handle_label(), Some("@ada".to_owned()));
    assert_eq!(form.public_link(), None);
    form.set_public(true);
    assert_eq!(form.public_link(), Some("/u/ada".to_owned()));
}

#[test]
fn saving_checks_the_username_length() {
    let mut form = ProfileForm::new();
    form.loaded(&profile());
    form.edit_username("ab");
    assert!(form.save().is_none());
    assert_eq!(form.client_error.as_deref(), Some("Username must be 3\u{2013}30 characters."));
    form.edit_username(&"x".repeat(31));
    assert!(form.save().is_none());
    form.edit_username("");
    let request = form.save().unwrap();
    assert_eq!(request.username, "");
    assert!(form.client_error.is_none());
}

#[test]
fn the_photo_is_sent_only_when_changed() {
    let mut form = ProfileForm::new();
    form.loaded(&profile());
    let request = form.save().unwrap();
    assert_eq!(request.avatar_data_url, None);
    assert_eq!(request.username, "ada");
    assert_eq!(request.first_name, "Ada");
    assert!(request.is_public);
    form.remove_avatar();
    assert_eq!(form.save().unwrap().avatar_data_url, Some(String::new()));
    form.avatar_picked("data:image/png;base64,BBBB".to_owned());
    assert_eq!(
        form.save().unwrap().avatar_data_url.as_deref(),
        Some("data:image/png;base64,BBBB")
    );
    form.avatar_failed(None);
    assert_eq!(form.client_error.as_deref(), Some("Could not read image."));
    form.avatar_failed(Some("Image too large".to_owned()));
    assert_eq!(form.client_error.as_deref(), Some("Image too large"));
}

#[test]
fn public_profiles_show_the_best_name() {
    let lines = public_profile_lines("Countess", "Ada", "Lovelace", "ada");
    assert_eq!(lines.display, "Countess");
    assert_eq!(lines.legal_name.as_deref(), Some("Ada Lovelace"));
    assert_eq!(lines.handle, "@ada");
    let plain = public_profile_lines("", "Ada", "Lovelace", "ada");
    assert_eq!(plain.display, "Ada Lovelace");
    assert_eq!(plain.legal_name, None);
    let bare = public_profile_lines(" ", "", "", "ada");
    assert_eq!(bare.display, "@ada");
    assert_eq!(bare.legal_name, None);
}
