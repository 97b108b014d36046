use fullstack_auth::config::{provider_enabled_env_name, truthy, ConfigValues};

fn config(pairs: &[(&str, &str)]) -> ConfigValues {
    ConfigValues {
        entries: pairs.iter().map(|(k, v)| (k.to_string(), v.to_string())).collect(),
    }
}

#[test]
fn truthy_values_switch_features_on() {
    assert!(truthy(" Yes "));
    assert!(truthy("enabled"));
    assert!(truthy("TRUE"));
    assert!(truthy("1"));
    assert!(!truthy("0"));
    assert!(!truthy(""));
    assert!(!truthy("enable"));
}

#[test]
fn provider_flag_names_are_upper_snake_case() {
    assert_eq!(provider_enabled_env_name("my-provider.v2"), "AUTH_MY_PROVIDER_V2_ENABLED");
    assert_eq!(provider_enabled_env_name("google"), "AUTH_GOOGLE_ENABLED");
}

#[test]
fn feature_flags_fall_back_to_their_default() {
    let c = config(&[("AUTH_ENABLE_OAUTH", "on"), ("AUTH_ENABLE_PASSKEYS", "no")]);
    assert!(c.feature_enabled("AUTH_ENABLE_OAUTH", false));
    assert!(!c.feature_enabled("AUTH_ENABLE_PASSKEYS", true));
    assert!(c.feature_enabled("AUTH_ENABLE_PASSWORD_LOGIN", true));
    assert_eq!(c.config_value("AUTH_ENABLE_OAUTH"), Some("on".to_string()));
    assert_eq!(c.config_value("MISSING"), None);
    assert!(c.storage_auto_catch_up_enabled());
    assert!(!c.development_oauth_callback_bypass_enabled());
}

#[test]
fn minimum_password_length_stays_in_range() {
    assert_eq!(config(&[("AUTH_PASSWORD_MIN_LENGTH", "20")]).password_min_length(), 20);
    assert_eq!(config(&[("AUTH_PASSWORD_MIN_LENGTH", "+40")]).password_min_length(), 40);
    assert_eq!(config(&[("AUTH_PASSWORD_MIN_LENGTH", "128")]).password_min_length(), 128);
    assert_eq!(config(&[("AUTH_PASSWORD_MIN_LENGTH", "129")]).password_min_length(), 15);
    assert_eq!(config(&[("AUTH_PASSWORD_MIN_LENGTH", "12")]).password_min_length(), 15);
    assert_eq!(config(&[("AUTH_PASSWORD_MIN_LENGTH", " 20")]).password_min_length(), 15);
    assert_eq!(config(&[("AUTH_PASSWORD_MIN_LENGTH", "abc")]).password_min_length(), 15);
    assert_eq!(
        config(&[("AUTH_PASSWORD_MIN_LENGTH", "99999999999999999999999")]).password_min_length(),
        15
    );
    assert_eq!(config(&[]).password_min_length(), 15);
}

#[test]
fn explicit_cookie_setting_overrides_production_mode() {
    let c = config(&[("AUTH_COOKIE_SECURE", "false"), ("AUTH_PRODUCTION_MODE", "true")]);
    assert!(!c.session_cookie_secure_enabled());
    let c = config(&[("AUTH_COOKIE_SECURE", "  "), ("AUTH_PRODUCTION_MODE", "on")]);
    assert!(c.session_cookie_secure_enabled());
    assert!(!config(&[]).session_cookie_secure_enabled());
}

#[test]
fn provider_credentials_follow_each_provider() {
    let google = config(&[
        ("AUTH_GOOGLE_CLIENT_ID", "id"),
        ("AUTH_GOOGLE_CLIENT_SECRET", "secret"),
    ]);
    assert!(google.provider_has_credentials("google"));
    assert!(!google.provider_has_credentials("facebook"));
    let apple = config(&[
        ("AUTH_APPLE_CLIENT_ID", "id"),
        ("AUTH_APPLE_TEAM_ID", "team"),
        ("AUTH_APPLE_KEY_ID", "key"),
        ("AUTH_APPLE_PRIVATE_KEY", "pem"),
    ]);
    assert!(apple.provider_has_credentials("apple"));
    assert!(!config(&[("AUTH_APPLE_CLIENT_ID", "id")]).provider_has_credentials("apple"));
    let custom = config(&[
        ("AUTH_ACME_ID_CLIENT_ID", "id"),
        ("AUTH_ACME_ID_CLIENT_SECRET", " "),
    ]);
    assert!(!custom.provider_has_credentials("acme-id"));
    let custom = config(&[
        ("AUTH_ACME_ID_CLIENT_ID", "id"),
        ("AUTH_ACME_ID_CLIENT_SECRET", "s"),
    ]);
    assert!(custom.provider_has_credentials("acme-id"));
    assert!(custom.all_config_values_present(&["AUTH_ACME_ID_CLIENT_ID"]));
    assert!(!custom.all_config_values_present(&["AUTH_ACME_ID_CLIENT_ID", "OTHER"]));
}

#[test]
fn providers_are_enabled_by_storage_or_flag() {
    let c = config(&[("AUTH_ACME_ENABLED", "1")]);
    assert!(c.provider_enabled("acme", false));
    assert!(!c.provider_enabled("other", false));
    assert!(c.provider_enabled("other", true));
    assert_eq!(c.public_base_url(), "http://localhost:3008");
    assert_eq!(
        config(&[("AUTH_PUBLIC_BASE_URL", "https://auth.example")]).public_base_url(),
        "https://auth.example"
    );
}

use fullstack_auth::contracts::AuthProviderSummary;
use fullstack_auth::error::AuthStackError;

fn provider(id: &str, enabled: bool) -> AuthProviderSummary {
    AuthProviderSummary { provider_id: id.to_string(), display_name: id.to_uppercase(), enabled }
}

#[test]
fn only_switched_on_providers_with_credentials_are_offered() {
    let c = config(&[
        ("AUTH_GOOGLE_CLIENT_ID", "id"),
        ("AUTH_GOOGLE_CLIENT_SECRET", "secret"),
        ("AUTH_GITHUB_ENABLED", "true"),
        ("AUTH_GITHUB_CLIENT_ID", "id"),
        ("AUTH_GITHUB_CLIENT_SECRET", "secret"),
    ]);
    let offered = c.credentialed_providers(vec![
        provider("google", true),
        provider("facebook", true),
        provider("github", false),
        provider("google", false),
    ]);
    let ids: Vec<&str> = offered.iter().map(|p| p.provider_id.as_str()).collect();
    assert_eq!(ids, vec!["google", "github"]);
    assert!(offered.iter().all(|p| p.enabled));
    assert_eq!(offered[1].display_name, "GITHUB");
}

#[test]
fn oauth_providers_must_be_ready() {
    let c = config(&[("AUTH_GOOGLE_CLIENT_ID", "id"), ("AUTH_GOOGLE_CLIENT_SECRET", "s")]);
    match c.ensure_oauth_provider_ready("google", None) {
        Err(AuthStackError::NotFound(m)) => assert_eq!(m, "OAuth provider 'google' is not configured"),
        other => panic!("unexpected {other:?}"),
    }
    match c.ensure_oauth_provider_ready("google", Some(provider("google", false))) {
        Err(AuthStackError::Configuration(m)) => assert_eq!(m, "OAuth provider 'google' is disabled"),
        other => panic!("unexpected {other:?}"),
    }
    match c.ensure_oauth_provider_ready("apple", Some(provider("apple", true))) {
        Err(AuthStackError::Configuration(m)) => {
            assert_eq!(m, "OAuth provider 'apple' is missing credentials")
        }
        other => panic!("unexpected {other:?}"),
    }
    let ready = c.ensure_oauth_provider_ready("google", Some(provider("google", true))).unwrap();
    assert!(ready.enabled);
}

#[test]
fn capabilities_offer_oauth_only_with_a_provider() {
    let c = config(&[
        ("AUTH_ENABLE_OAUTH", "true"),
        ("AUTH_GOOGLE_CLIENT_ID", "id"),
        ("AUTH_GOOGLE_CLIENT_SECRET", "s"),
    ]);
    let caps = c.auth_capabilities(vec![provider("google", true)]);
    assert!(caps.password_enabled);
    assert!(caps.oauth_enabled);
    assert!(!caps.passkeys_enabled);
    assert_eq!(caps.providers.len(), 1);
    let caps = c.auth_capabilities(vec![provider("facebook", true)]);
    assert!(!caps.oauth_enabled);
    assert!(caps.providers.is_empty());
    let off = config(&[("AUTH_ENABLE_PASSWORD_LOGIN", "false"), ("AUTH_ENABLE_PASSKEYS", "1")]);
    let caps = off.auth_capabilities(vec![provider("google", true)]);
    assert!(!caps.password_enabled);
    assert!(caps.passkeys_enabled);
    assert!(!caps.oauth_enabled);
    assert!(caps.providers.is_empty());
}
