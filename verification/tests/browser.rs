use fullstack_auth::browser::{
    first_http_url_in_text, is_passkey_cancel_message, next_url_from_search,
    one_time_token_from_search, sanitize_passkey_client_error, search_has_new,
};

#[test]
fn create_workspace_intent_is_read_from_the_query() {
    assert!(search_has_new("?new=1"));
    assert!(search_has_new("?new"));
    assert!(search_has_new("?new="));
    assert!(search_has_new("?new=TRUE"));
    assert!(search_has_new("?a=1&new=yes"));
    assert!(search_has_new("??new=on"));
    assert!(!search_has_new("?new=0"));
    assert!(!search_has_new("?renew=1"));
    assert!(!search_has_new(""));
}

#[test]
fn one_time_tokens_come_from_the_first_token_part() {
    assert_eq!(one_time_token_from_search("?token=abc&x=1"), Some("abc".to_string()));
    assert_eq!(one_time_token_from_search("?x=1&token=t%2B1"), Some("t%2B1".to_string()));
    assert_eq!(one_time_token_from_search("?token=&token=late"), None);
    assert_eq!(one_time_token_from_search("?x=1"), None);
}

#[test]
fn next_urls_stay_on_the_site() {
    assert_eq!(next_url_from_search("?next=%2Faccount%2Fmfa"), "/account/mfa");
    assert_eq!(next_url_from_search("?a=1&next=/org/acme"), "/org/acme");
    assert_eq!(next_url_from_search("?next=%2F%2Fevil.example"), "/dashboard");
    assert_eq!(next_url_from_search("?next=%2Flogin%3Fx"), "/dashboard");
    assert_eq!(next_url_from_search("?next=https%3A%2F%2Fevil"), "/dashboard");
    assert_eq!(next_url_from_search(""), "/dashboard");
}

#[test]
fn the_first_link_of_a_mail_is_found() {
    let mail = "Hello,\r\nverify here: https://auth.example/verify?token=1 thanks\nhttp://second";
    assert_eq!(
        first_http_url_in_text(mail),
        Some("https://auth.example/verify?token=1".to_string())
    );
    assert_eq!(first_http_url_in_text("see http://x.test"), Some("http://x.test".to_string()));
    assert_eq!(first_http_url_in_text("no links, just httpx://y"), None);
    assert_eq!(first_http_url_in_text(""), None);
}

#[test]
fn passkey_errors_are_cleaned_up() {
    assert_eq!(sanitize_passkey_client_error("  "), "Passkey prompt was cancelled or unavailable.");
    assert_eq!(
        sanitize_passkey_client_error("JsValue(undefined)"),
        "Passkey prompt was cancelled or unavailable."
    );
    assert_eq!(
        sanitize_passkey_client_error(
            "JsValue(Error: NotAllowedError: denied at createPasskeyCredential (x.js:1))"
        ),
        "Passkey prompt was cancelled."
    );
    assert_eq!(sanitize_passkey_client_error("Error: Something broke"), "Something broke");
    assert_eq!(
        sanitize_passkey_client_error("Error: Bad key Error: Bad key\n    at foo"),
        "Bad key"
    );
    assert_eq!(sanitize_passkey_client_error("JsValue(Object)"), "Object");
    assert_eq!(sanitize_passkey_client_error("JsValue("), "Passkey prompt was cancelled or unavailable.");
    assert_eq!(sanitize_passkey_client_error("PASSKEY_CANCELLED"), "Passkey prompt was cancelled.");
    assert_eq!(
        sanitize_passkey_client_error("Server said no at getPasskeyCredential (y.js)"),
        "Server said no"
    );
}

#[test]
fn cancelled_prompts_are_recognised() {
    assert!(is_passkey_cancel_message("PASSKEY_CANCELLED"));
    assert!(is_passkey_cancel_message("The request was Canceled"));
    assert!(is_passkey_cancel_message("passkey_conditional_idle"));
    assert!(!is_passkey_cancel_message("network error"));
}

#[test]
fn the_development_callback_leads_back_to_the_workspace() {
    let url = fullstack_auth::urls::development_oauth_callback_url(
        "github",
        "state & more",
        "/workspaces/alpha?tab=members&x=1",
    );
    let search = &url[url.find('?').unwrap()..];
    assert_eq!(next_url_from_search(search), "/workspaces/alpha?tab=members&x=1");
}

#[test]
fn sign_in_links_carry_the_return_target() {
    assert_eq!(
        fullstack_auth::urls::login_redirect_href("/org/acme/vault?tab=keys"),
        "/login?next=%2Forg%2Facme%2Fvault%3Ftab%3Dkeys"
    );
}

#[test]
fn the_development_callback_query_has_three_pairs() {
    let url = fullstack_auth::urls::development_oauth_callback_url(
        "github",
        "a=b&c=d",
        "/x?y=1&z=2",
    );
    let query = &url[url.find('?').unwrap() + 1..];
    let names: Vec<&str> = query.split('&').map(|pair| pair.split('=').next().unwrap()).collect();
    assert_eq!(names, vec!["code", "state", "next"]);
    assert!(query.split('&').all(|pair| pair.matches('=').count() == 1));
}
