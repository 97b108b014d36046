use fullstack_auth::contracts::{MembershipSummary, WorkspaceRoleOption};
use fullstack_auth::labels::{
    account_initials, action_result_text, display_role_name, format_settings_datetime_ms,
    format_settings_timestamp_ms, member_row_cells, optional_text, org_monogram, org_tone_index,
    profile_initials, role_label_from_options, server_error_text, settings_time_label,
    short_id_label, validate_email_only, validate_login_form,
};

fn option(role_id: &str, name: &str) -> WorkspaceRoleOption {
    WorkspaceRoleOption { role_id: role_id.to_string(), name: name.to_string() }
}

#[test]
fn roles_get_readable_names() {
    assert_eq!(display_role_name("owner"), "Owner");
    assert_eq!(display_role_name("viewer"), "Viewer");
    assert_eq!(display_role_name("custom-role"), "custom-role");
    let options = vec![option("editor", "Editor"), option("admin", "  "), option("editor", "Other")];
    assert_eq!(role_label_from_options("editor", &options), "Editor");
    assert_eq!(role_label_from_options("admin", &options), "Admin");
    assert_eq!(role_label_from_options("member", &options), "Member");
}

#[test]
fn long_ids_are_shortened() {
    assert_eq!(short_id_label("  abcdefghijklmnop "), "abcdef\u{2026}mnop");
    assert_eq!(short_id_label("abcdefghijkl"), "abcdefghijkl");
    assert_eq!(short_id_label(" short "), "short");
    assert_eq!(short_id_label("ééééééé"), "éééééé\u{2026}éééé");
}

#[test]
fn member_rows_show_placeholders() {
    let member = MembershipSummary {
        user_id: "user-0123456789abcdef".to_string(),
        primary_email: "  ".to_string(),
        role_id: "admin".to_string(),
        status: "active".to_string(),
    };
    let (email, role, status, user) = member_row_cells(&member);
    assert_eq!(email, "\u{2014}");
    assert_eq!(role, "Admin");
    assert_eq!(status, "active");
    assert_eq!(user, "user-0\u{2026}cdef");
}

#[test]
fn form_values_and_messages() {
    assert_eq!(optional_text("  hi ".to_string()), Some("hi".to_string()));
    assert_eq!(optional_text("   ".to_string()), None);
    assert_eq!(validate_email_only(" "), Err("Email is required.".to_string()));
    assert_eq!(validate_email_only("alice@example"), Err("Enter a valid email address.".to_string()));
    assert_eq!(validate_email_only("alice@example.com"), Ok(()));
    assert_eq!(validate_login_form("a@b.c", "", false), Err("Password is required.".to_string()));
    assert_eq!(validate_login_form("a@b.c", "short", false), Ok(()));
    assert_eq!(
        validate_login_form("a@b.c", "short", true),
        Err("Password must contain 15 to 128 characters.".to_string())
    );
    assert_eq!(validate_login_form("a@b.c", "ééééééééééééééé", true), Ok(()));
    assert_eq!(server_error_text("error running server function: boom"), "boom");
    assert_eq!(server_error_text("plain"), "plain");
    assert_eq!(action_result_text(Some(Ok(()))), "Request accepted");
    assert_eq!(
        action_result_text(Some(Err("error running server function: denied".to_string()))),
        "denied"
    );
    assert_eq!(action_result_text(None), "");
}

#[test]
fn times_have_server_placeholders() {
    assert_eq!(format_settings_timestamp_ms(0), "\u{2014}");
    assert_eq!(format_settings_timestamp_ms(86_400_000 * 365 * 54), "~2024");
    assert_eq!(format_settings_datetime_ms(1), "~1970");
    assert_eq!(settings_time_label(0, Some("x".to_string())), "\u{2014}");
    assert_eq!(settings_time_label(5, None), "5");
    assert_eq!(settings_time_label(5, Some(" ".to_string())), "5");
    assert_eq!(settings_time_label(5, Some("2024-01-01".to_string())), "2024-01-01");
}

#[test]
fn initials_come_from_names_or_the_address() {
    assert_eq!(account_initials("john.doe@example.com"), "JO");
    assert_eq!(account_initials("a@b"), "A");
    assert_eq!(account_initials("  @x"), "?");
    assert_eq!(account_initials("é.z"), "éZ");
    assert_eq!(profile_initials("Ada Lovelace", "", "", ""), "AL");
    assert_eq!(profile_initials("  ada   king  ", "", "", ""), "AK");
    assert_eq!(profile_initials("ada", "", "", ""), "AD");
    assert_eq!(profile_initials("", "grace", "hopper", ""), "GH");
    assert_eq!(profile_initials("", " ", "hopper", ""), "H");
    assert_eq!(profile_initials("", "", "", "x@y"), "X");
}

#[test]
fn workspaces_get_monograms_and_tones() {
    assert_eq!(org_monogram("acme corp"), "AC");
    assert_eq!(org_monogram("!! x"), "X");
    assert_eq!(org_monogram("!!"), "?");
    assert_eq!(org_tone_index(""), 0);
    assert_eq!(org_tone_index("a"), 1);
    assert_eq!(org_tone_index("ab"), 5);
    let long = "a".repeat(50);
    assert!(org_tone_index(&long) < 6);
}

use fullstack_auth::labels::selected_auth_error;

#[test]
fn the_form_shows_the_error_of_its_mode() {
    let login = Some(Err("error running server function: bad password".to_string()));
    let register = Some(Ok(()));
    assert_eq!(selected_auth_error(false, login.clone(), register.clone()), Some("bad password".to_string()));
    assert_eq!(selected_auth_error(true, login, register), None);
    assert_eq!(selected_auth_error(true, None, Some(Err("taken".to_string()))), Some("taken".to_string()));
}

use fullstack_auth::labels::{provider_logo_svg, GENERIC_LOGO_SVG, GOOGLE_LOGO_SVG};

#[test]
fn providers_get_their_marks() {
    assert_eq!(provider_logo_svg("google"), GOOGLE_LOGO_SVG);
    assert!(provider_logo_svg("apple").starts_with("<svg"));
    assert_ne!(provider_logo_svg("apple"), provider_logo_svg("facebook"));
    assert_eq!(provider_logo_svg("gitlab"), GENERIC_LOGO_SVG);
    assert!(GENERIC_LOGO_SVG.contains("<circle"));
}
