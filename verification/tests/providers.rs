use fullstack_auth::contracts::AuthProviderSummary;
use fullstack_auth::labels::user_menu_identity;
use fullstack_auth::providers::{
    provider_button_label, provider_catalog, provider_is_switched_on, providers_status_line,
};

fn provider(id: &str, enabled: bool) -> AuthProviderSummary {
    AuthProviderSummary { provider_id: id.to_owned(), display_name: id.to_owned(), enabled }
}

#[test]
fn the_catalog_lists_three_providers() {
    let catalog = provider_catalog();
    assert_eq!(catalog, vec![("google", "Google"), ("facebook", "Facebook"), ("apple", "Apple")]);
}

#[test]
fn catalog_cards_match_providers_ignoring_case() {
    let list = vec![provider("Google", true), provider("apple", false)];
    assert!(provider_is_switched_on(&list, "google"));
    assert!(!provider_is_switched_on(&list, "apple"));
    assert!(!provider_is_switched_on(&list, "facebook"));
}

#[test]
fn the_status_line_counts_enabled_providers() {
    assert_eq!(providers_status_line(&Vec::new()), "No providers are enabled.");
    assert_eq!(providers_status_line(&vec![provider("a", false)]), "No providers are enabled.");
    assert_eq!(
        providers_status_line(&vec![provider("a", true), provider("b", false)]),
        "1 provider enabled for sign-in."
    );
    assert_eq!(
        providers_status_line(&vec![provider("a", true), provider("b", true), provider("c", true)]),
        "3 providers enabled for sign-in."
    );
}

#[test]
fn sign_in_buttons_name_the_provider() {
    assert_eq!(provider_button_label("GitHub", false), "Sign in with GitHub");
    assert_eq!(provider_button_label("GitHub", true), "Connecting to GitHub\u{2026}");
}

#[test]
fn the_account_menu_names_the_user() {
    assert_eq!(
        user_menu_identity(&Some("ada@example.com".to_owned()), &Some("u1".to_owned())),
        ("ada@example.com".to_owned(), 'A')
    );
    assert_eq!(user_menu_identity(&None, &Some("u1".to_owned())), ("u1".to_owned(), 'U'));
    assert_eq!(user_menu_identity(&None, &None), ("Signed in".to_owned(), 'S'));
    assert_eq!(user_menu_identity(&Some(String::new()), &None), (String::new(), 'U'));
}
