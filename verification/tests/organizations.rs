use fullstack_auth::contracts::{OrganizationSummary, SessionView};
use fullstack_auth::organizations::{
    active_tenant_label, derive_slug, org_switcher_row_line, org_switcher_summary,
    organization_context_links, organization_create_request, organization_is_active,
    organization_vault_href,
};

fn session(authenticated: bool, permissions: &[&str], tenant: Option<&str>) -> SessionView {
    SessionView {
        authenticated,
        session_id: Some("sess-1".to_owned()),
        tenant_id: tenant.map(str::to_owned),
        user_id: Some("user-1".to_owned()),
        primary_email: Some("ada@example.com".to_owned()),
        expires_at: None,
        permissions: permissions.iter().map(|p| (*p).to_owned()).collect(),
        assurance: "aal1".to_owned(),
        system_administrator: false,
        issued_at_unix_seconds: None,
        expires_at_unix_seconds: None,
    }
}

#[test]
fn slugs_are_suggested_from_names() {
    assert_eq!(derive_slug("  Acme Corp!! "), "acme-corp");
    assert_eq!(derive_slug("Hello -- World"), "hello-world");
    assert_eq!(derive_slug("--- x"), "x");
    assert_eq!(derive_slug("Team 42"), "team-42");
    assert_eq!(derive_slug("Équipe Zoë"), "quipe-zo");
    assert_eq!(derive_slug("!!!"), "");
    assert_eq!(derive_slug(""), "");
}

#[test]
fn slugs_are_cut_at_48_characters() {
    let long = "a".repeat(60);
    assert_eq!(derive_slug(&long), "a".repeat(48));
    // The cut can leave a dash at the end.
    let name = format!("{} b", "a".repeat(47));
    assert_eq!(derive_slug(&name), format!("{}-", "a".repeat(47)));
}

#[test]
fn a_well_formed_slug_is_kept() {
    for slug in ["acme", "acme-corp", "a1-b2-c3", "x"] {
        assert_eq!(derive_slug(slug), slug);
    }
}

#[test]
fn the_create_form_needs_a_name_and_a_slug() {
    let request = organization_create_request("  Acme  ", " acme ").unwrap();
    assert_eq!(request.name, "Acme");
    assert_eq!(request.slug, "acme");
    assert!(organization_create_request("   ", "acme").is_none());
    assert!(organization_create_request("Acme", " a ").is_none());
    assert!(organization_create_request("Acme", "ab").is_some());
}

#[test]
fn the_active_workspace_is_named() {
    assert_eq!(
        active_tenant_label(&Some("org_0123456789abcdef".to_owned())),
        "Active \u{b7} org_01\u{2026}cdef"
    );
    assert_eq!(
        active_tenant_label(&Some("  ".to_owned())),
        "Select an organization to unlock management"
    );
    assert_eq!(active_tenant_label(&None), "Select an organization to unlock management");
    assert!(organization_is_active(&Some("org-1".to_owned()), "org-1"));
    assert!(!organization_is_active(&Some("org-1".to_owned()), "org-2"));
    assert!(!organization_is_active(&Some(" ".to_owned()), " "));
}

#[test]
fn vault_links_use_the_slug() {
    assert_eq!(organization_vault_href("acme"), "/org/acme/vault");
    assert_eq!(organization_vault_href(""), "/account/vault");
}

#[test]
fn workspace_links_follow_permissions() {
    let links = organization_context_links(&session(true, &["member.view", "audit.view"], None));
    let labels: Vec<&str> = links.iter().map(|(label, _)| label.as_str()).collect();
    assert_eq!(labels, vec!["Vault", "Members", "Invitations", "Audit"]);
    assert_eq!(links[3].1, "/organizations/audit");
    let all = organization_context_links(&session(
        true,
        &["organization.update", "member.view", "role.view", "audit.view"],
        None,
    ));
    assert_eq!(all.len(), 7);
    assert!(organization_context_links(&session(true, &["billing.view"], None)).is_empty());
    assert!(organization_context_links(&session(false, &["member.view"], None)).is_empty());
}

fn org(id: &str, slug: &str, name: &str) -> OrganizationSummary {
    OrganizationSummary {
        organization_id: id.to_owned(),
        slug: slug.to_owned(),
        name: name.to_owned(),
        permissions: Vec::new(),
    }
}

#[test]
fn the_switcher_shows_the_session_workspace() {
    let orgs = vec![org("o1", "acme", "Acme Corp"), org("o2", "", "Beta")];
    let summary = org_switcher_summary(&Some("o1".to_owned()), &orgs);
    assert_eq!(summary.label, "Acme Corp");
    assert_eq!(summary.monogram, "AC");
    assert_eq!(summary.vault_href, "/org/acme/vault");
    let beta = org_switcher_summary(&Some("o2".to_owned()), &orgs);
    assert_eq!(beta.vault_href, "/account/vault");
    let none = org_switcher_summary(&Some("o9".to_owned()), &orgs);
    assert_eq!(none.label, "Select workspace");
    assert_eq!(none.monogram, "W");
    assert_eq!(none.vault_href, "/organizations");
    assert_eq!(org_switcher_summary(&None, &Vec::new()).label, "No workspace");
    assert_eq!(org_switcher_row_line(true, "acme"), "Active");
    assert_eq!(org_switcher_row_line(false, "acme"), "/org/acme");
    assert_eq!(org_switcher_row_line(false, ""), "");
}

#[test]
fn role_permissions_are_read_from_a_comma_list() {
    let parsed = fullstack_auth::organizations::parse_permission_list(" organization.view, ,counter.view ,");
    assert_eq!(parsed, vec!["organization.view".to_owned(), "counter.view".to_owned()]);
    assert!(fullstack_auth::organizations::parse_permission_list("").is_empty());
    assert!(fullstack_auth::organizations::parse_permission_list(" , ").is_empty());
    assert_eq!(
        fullstack_auth::organizations::parse_permission_list("audit.view"),
        vec!["audit.view".to_owned()]
    );
}
