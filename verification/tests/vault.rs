use fullstack_auth::contracts::{SecretRevealResponse, SecretSummary};
use fullstack_auth::vault::{
    reveal_duration_ms, reveal_error_text, secret_key_label, vault_key_input, VaultPanel,
};

fn secret(id: &str, key: &str) -> SecretSummary {
    SecretSummary {
        id: id.to_owned(),
        key: key.to_owned(),
        name: format!("{key}-name"),
        label: "Label".to_owned(),
        scope: "user".to_owned(),
        masked_value: "\u{2022}\u{2022}\u{2022}\u{2022}".to_owned(),
    }
}

fn revealed(id: &str, value: &str, ttl: i64) -> SecretRevealResponse {
    SecretRevealResponse { id: id.to_owned(), value: value.to_owned(), reveal_ttl_seconds: ttl }
}

#[test]
fn created_secrets_are_listed_once() {
    let mut panel = VaultPanel::new();
    panel.list_loaded(Ok(vec![secret("s1", "STRIPE")]));
    panel.open_create();
    panel.edit_key("stripe_key");
    assert_eq!(panel.key, "STRIPE_KEY");
    panel.create_succeeded(secret("s2", "STRIPE_KEY"));
    panel.create_succeeded(secret("s2", "STRIPE_KEY"));
    assert_eq!(panel.secrets.len(), 2);
    assert!(!panel.create_open);
    assert!(panel.key.is_empty());
    assert_eq!(panel.form_ok.as_deref(), Some("Secret stored. Value is encrypted and hidden."));
}

#[test]
fn the_create_request_is_named_by_its_key() {
    let mut panel = VaultPanel::new();
    panel.open_create();
    panel.edit_key("db_password");
    panel.value = "hunter2".to_owned();
    panel.label = "Database".to_owned();
    let request = panel.create_request();
    assert_eq!(request.key, "DB_PASSWORD");
    assert_eq!(request.name, "DB_PASSWORD");
    assert_eq!(request.value, "hunter2");
    assert_eq!(request.scope, "user");
}

#[test]
fn revealed_values_read_back_and_expire() {
    let mut panel = VaultPanel::new();
    panel.list_loaded(Ok(vec![secret("s1", "A"), secret("s2", "B")]));
    panel.start_reveal("s1".to_owned());
    assert!(panel.reveal_disabled("s1", false));
    assert!(!panel.reveal_disabled("s2", false));
    assert!(panel.reveal_disabled("s2", true));
    assert_eq!(panel.reveal_succeeded(revealed("s1", "one", 30)), 30_000);
    assert_eq!(panel.revealed_value("s1").as_deref(), Some("one"));
    assert_eq!(panel.revealed_value("s2"), None);
    assert!(panel.reveal_pending.is_none());
    panel.reveal_succeeded(revealed("s1", "uno", 1));
    assert_eq!(panel.revealed_value("s1").as_deref(), Some("uno"));
    panel.reveal_expired("s1");
    assert_eq!(panel.revealed_value("s1"), None);
}

#[test]
fn deleting_removes_the_secret_and_its_value() {
    let mut panel = VaultPanel::new();
    panel.list_loaded(Ok(vec![secret("s1", "A"), secret("s2", "B")]));
    panel.reveal_succeeded(revealed("s2", "two", 10));
    panel.ask_delete("s2".to_owned(), "B".to_owned());
    panel.delete_succeeded();
    assert_eq!(panel.secrets.len(), 1);
    assert_eq!(panel.secrets[0].id, "s1");
    assert_eq!(panel.revealed_value("s2"), None);
    assert!(panel.delete_target.is_none());
    assert_eq!(panel.form_ok.as_deref(), Some("Secret deleted."));
}

#[test]
fn errors_are_shown() {
    let mut panel = VaultPanel::new();
    panel.list_loaded(Err("unavailable".to_owned()));
    assert_eq!(panel.form_error.as_deref(), Some("unavailable"));
    panel.demos_seeded();
    assert!(panel.form_error.is_none());
    panel.action_failed("duplicate key".to_owned());
    assert!(panel.form_ok.is_none());
    panel.reveal_failed("403 Forbidden");
    assert_eq!(
        panel.form_error.as_deref(),
        Some("Reveal requires step-up (AAL2). Complete MFA on /account/mfa, then try again.")
    );
    assert_eq!(reveal_error_text("timeout"), "timeout");
    assert!(reveal_error_text("needs STEP-up").starts_with("Reveal requires"));
}

#[test]
fn reveal_times_are_at_least_five_seconds() {
    assert_eq!(reveal_duration_ms(0), 5_000);
    assert_eq!(reveal_duration_ms(-3), 5_000);
    assert_eq!(reveal_duration_ms(60), 60_000);
    assert_eq!(reveal_duration_ms(i64::MAX), u64::MAX);
}

#[test]
fn rows_show_the_key_or_the_name() {
    assert_eq!(secret_key_label(&secret("s1", "API")), "API");
    assert_eq!(secret_key_label(&secret("s1", "")), "-name");
    assert_eq!(vault_key_input("abc-1é"), "ABC-1é");
}
