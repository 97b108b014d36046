use fullstack_auth::contracts::OrganizationSummary;
use fullstack_auth::paths::{
    account_vault_redirect, needs_onboarding, onboarding_redirect, is_workspace_path, legacy_settings_redirect_target, resolve_workspace_settings_slug,
    slug_from_settings_pathname, workspace_topbar_title, SettingsSection,
};

fn org(id: &str, slug: &str) -> OrganizationSummary {
    OrganizationSummary {
        organization_id: id.to_string(),
        slug: slug.to_string(),
        name: format!("Org {id}"),
        permissions: Vec::new(),
    }
}

#[test]
fn onboarding_uses_the_focused_layout() {
    assert!(!is_workspace_path("/onboarding/workspace"));
    assert!(!is_workspace_path("/onboarding/workspace/"));
    assert!(is_workspace_path("/dashboard"));
    assert!(is_workspace_path("/organizations"));
}

#[test]
fn public_pages_are_not_workspace_pages() {
    assert!(!is_workspace_path("/login"));
    assert!(!is_workspace_path("/dashboardx"));
    assert!(is_workspace_path("/dashboard/"));
    assert!(is_workspace_path("/org/acme/settings"));
    assert!(is_workspace_path("/auth/callback/google"));
}

#[test]
fn topbar_titles_follow_the_path() {
    assert_eq!(workspace_topbar_title("/dashboard/"), "Dashboard");
    assert_eq!(workspace_topbar_title("/account/mfa"), "MFA");
    assert_eq!(workspace_topbar_title("/admin/auth/providers"), "Auth providers");
    assert_eq!(workspace_topbar_title("/org/acme/vault"), "Secret vault");
    assert_eq!(workspace_topbar_title("/organizations/roles"), "Roles");
    assert_eq!(workspace_topbar_title("/elsewhere"), "Workspace");
}

#[test]
fn settings_slug_is_read_from_the_path() {
    assert_eq!(slug_from_settings_pathname("/org/acme/settings/members"), "acme");
    assert_eq!(slug_from_settings_pathname("/org/acme/settings/"), "acme");
    assert_eq!(slug_from_settings_pathname("/org/acme/vault"), "");
    assert_eq!(slug_from_settings_pathname("/dashboard"), "");
}

#[test]
fn settings_sections_round_trip_through_their_links() {
    for section in SettingsSection::all() {
        let href = section.href("acme");
        assert_eq!(SettingsSection::from_path(&href), Some(section));
        assert_eq!(slug_from_settings_pathname(&href), "acme");
    }
    assert_eq!(SettingsSection::Audit.label(), "Audit log");
    assert_eq!(SettingsSection::Danger.path_segment(), "danger");
    assert_eq!(SettingsSection::from_path("/org/acme/settings"), Some(SettingsSection::General));
    assert_eq!(SettingsSection::from_path("/org/acme/settings/unknown"), None);
}

#[test]
fn settings_slug_prefers_the_active_tenant() {
    let orgs = vec![org("org-1", "first"), org("org-2", ""), org("org-3", "third")];
    assert_eq!(resolve_workspace_settings_slug(&orgs, Some("org-3")), Some("third".to_string()));
    assert_eq!(resolve_workspace_settings_slug(&orgs, Some("org-2")), Some("first".to_string()));
    assert_eq!(resolve_workspace_settings_slug(&orgs, Some("  ")), Some("first".to_string()));
    assert_eq!(resolve_workspace_settings_slug(&[org("org-9", "")], None), None);
}

#[test]
fn legacy_settings_pages_redirect_to_the_workspace_settings() {
    let orgs = vec![org("org-1", "first"), org("org-3", "third")];
    assert_eq!(
        legacy_settings_redirect_target(Some(&orgs), Some("org-3"), "members"),
        "/org/third/settings/members"
    );
    assert_eq!(legacy_settings_redirect_target(Some(&[]), None, "members"), "/organizations");
    assert_eq!(legacy_settings_redirect_target(None, None, "roles"), "/organizations");
    assert_eq!(
        legacy_settings_redirect_target(Some(&[org("org-9", "")]), None, "roles"),
        "/organizations"
    );
}

use fullstack_auth::paths::nav_active_states;

#[test]
fn navigation_marks_the_current_section() {
    assert_eq!(nav_active_states("/dashboard"), (true, false, false));
    assert_eq!(nav_active_states("/organizations/roles"), (false, true, false));
    assert_eq!(nav_active_states("/organizations"), (false, true, false));
    assert_eq!(nav_active_states("/admin/users"), (false, false, true));
    assert_eq!(nav_active_states("/administrator"), (false, false, false));
    assert_eq!(nav_active_states("/dashboard/x"), (false, false, false));
}

#[test]
fn onboarding_sends_existing_members_to_their_workspace() {
    let orgs = vec![org("o1", ""), org("o2", "beta")];
    assert_eq!(onboarding_redirect(false, &orgs).as_deref(), Some("/org/beta/vault"));
    assert_eq!(onboarding_redirect(true, &orgs), None);
    assert_eq!(onboarding_redirect(false, &[]), None);
    assert_eq!(onboarding_redirect(false, &[org("o1", "")]).as_deref(), Some("/organizations"));
}

#[test]
fn the_first_workspace_is_asked_for_outside_the_account_pages() {
    assert!(needs_onboarding("/dashboard", true));
    assert!(!needs_onboarding("/dashboard", false));
    assert!(!needs_onboarding("/account/profile/", true));
    assert!(!needs_onboarding("/onboarding/workspace", true));
    assert!(!needs_onboarding("/login", true));
    assert!(needs_onboarding("/organizations", true));
    assert_eq!(account_vault_redirect(Some("acme")), "/org/acme/vault");
    assert_eq!(account_vault_redirect(Some("")), "/onboarding/workspace");
    assert_eq!(account_vault_redirect(None), "/onboarding/workspace");
}
