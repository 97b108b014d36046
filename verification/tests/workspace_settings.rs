use fullstack_auth::contracts::OrganizationSummary;
use fullstack_auth::paths::SettingsSection;
use fullstack_auth::workspace_settings::{
    active_settings_section, settings_index_redirect, settings_page_slug, open_workspace_href, settings_nav_items, sidebar_identity, workspace_path_label,
    workspace_rename_enabled, workspace_rename_request,
};

fn org(slug: &str, name: &str) -> OrganizationSummary {
    OrganizationSummary {
        organization_id: format!("id-{slug}"),
        slug: slug.to_owned(),
        name: name.to_owned(),
        permissions: Vec::new(),
    }
}

#[test]
fn the_sidebar_names_the_workspace() {
    let settings = Some(("Acme Inc".to_owned(), "acme".to_owned()));
    let orgs = Some(vec![org("beta", "Beta"), org("acme", "Acme")]);
    assert_eq!(
        sidebar_identity(&settings, &orgs, "acme"),
        Some(("Acme Inc".to_owned(), "acme".to_owned()))
    );
    assert_eq!(
        sidebar_identity(&None, &orgs, "acme"),
        Some(("Acme".to_owned(), "acme".to_owned()))
    );
    assert_eq!(
        sidebar_identity(&None, &orgs, "gamma"),
        Some(("gamma".to_owned(), "gamma".to_owned()))
    );
    assert_eq!(
        sidebar_identity(&None, &None, "gamma"),
        Some(("gamma".to_owned(), "gamma".to_owned()))
    );
    assert_eq!(sidebar_identity(&None, &orgs, ""), None);
}

#[test]
fn sidebar_links_point_into_the_workspace() {
    assert_eq!(open_workspace_href("acme"), "/org/acme/vault");
    assert_eq!(open_workspace_href(""), "/dashboard");
    assert_eq!(workspace_path_label("acme", "\u{2026}"), "/org/acme");
    assert_eq!(workspace_path_label("", "\u{2014}"), "\u{2014}");
    let items = settings_nav_items("acme", SettingsSection::Roles);
    assert_eq!(items.len(), 6);
    assert_eq!(items[0].href, "/org/acme/settings/general");
    assert_eq!(items[4].label, "Audit log");
    let active: Vec<bool> = items.iter().map(|item| item.is_active).collect();
    assert_eq!(active, vec![false, false, false, true, false, false]);
    assert!(items.iter().all(|item| !item.disabled));
    assert!(settings_nav_items("", SettingsSection::General).iter().all(|item| item.disabled));
}

#[test]
fn renaming_needs_a_name() {
    assert_eq!(
        workspace_rename_request("acme", "  Acme Labs "),
        Ok(("acme".to_owned(), "Acme Labs".to_owned()))
    );
    assert_eq!(
        workspace_rename_request("acme", "   "),
        Err("workspace name is required".to_owned())
    );
    assert_eq!(
        workspace_rename_request("", "Acme"),
        Err("workspace name is required".to_owned())
    );
    assert!(workspace_rename_enabled(false, "Acme"));
    assert!(!workspace_rename_enabled(true, "Acme"));
    assert!(!workspace_rename_enabled(false, " "));
}

#[test]
fn the_settings_slug_comes_from_the_route_first() {
    assert_eq!(settings_page_slug(Some(" acme "), "/org/beta/settings", "/org/gamma/settings"), "acme");
    assert_eq!(settings_page_slug(Some(" "), "/org/beta/settings", "/org/gamma/settings"), "beta");
    assert_eq!(settings_page_slug(None, "/", "/org/gamma/settings/roles"), "gamma");
    assert_eq!(active_settings_section("/org/acme/settings/roles"), SettingsSection::Roles);
    assert_eq!(active_settings_section("/org/acme/settings/unknown"), SettingsSection::General);
    assert_eq!(active_settings_section("/dashboard"), SettingsSection::General);
}

#[test]
fn the_settings_index_opens_the_general_section() {
    assert_eq!(
        settings_index_redirect("acme").as_deref(),
        Some("/org/acme/settings/general")
    );
    assert_eq!(settings_index_redirect(""), None);
}
