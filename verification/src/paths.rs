//! Routing decisions made from a browser path: which layout a page uses, the
//! top-bar title, and the workspace-settings section and slug.

use vstd::prelude::*;

use crate::contracts::OrganizationSummary;
use crate::text::{
    chars_of, contains_seq, find_seq, owned, push_str, range_contains, range_find, range_is,
    range_starts_with, starts_with, string_of_range, trim, trim_end_char, trim_end_char_range,
    trim_start_char, trim_start_char_range, trimmed_chars,
};

verus! {

// ---------------------------------------------------------------------------
// Layout and titles
// ---------------------------------------------------------------------------

/// Pages under these prefixes use the workspace chrome; onboarding keeps the focused layout.
pub open spec fn workspace_path(path: Seq<char>) -> bool {
    let p = trim_end_char(path, '/');
    if starts_with(p, "/onboarding"@) {
        false
    } else {
        p == "/dashboard"@ || starts_with(p, "/dashboard/"@) || starts_with(p, "/account"@)
            || starts_with(p, "/organizations"@) || starts_with(p, "/org/"@) || starts_with(
            p,
            "/admin"@,
        ) || starts_with(p, "/invitations"@) || starts_with(p, "/auth/callback"@)
    }
}

pub fn is_workspace_path(path: &str) -> (r: bool)
    ensures
        r == workspace_path(path@),
{
    let v = chars_of(path);
    let b = trim_end_char_range(&v, 0, v.len(), '/');
    proof {
        assert(v@.subrange(0, v@.len() as int) == v@);
    }
    if range_starts_with(&v, 0, b, "/onboarding") {
        return false;
    }
    range_is(&v, 0, b, "/dashboard") || range_starts_with(&v, 0, b, "/dashboard/")
        || range_starts_with(&v, 0, b, "/account") || range_starts_with(&v, 0, b, "/organizations")
        || range_starts_with(&v, 0, b, "/org/") || range_starts_with(&v, 0, b, "/admin")
        || range_starts_with(&v, 0, b, "/invitations") || range_starts_with(
        &v,
        0,
        b,
        "/auth/callback",
    )
}

/// The title shown in the workspace top bar for a path.
pub open spec fn topbar_title(path: Seq<char>) -> Seq<char> {
    let p = trim_end_char(path, '/');
    if p == "/dashboard"@ || p.len() == 0 {
        "Dashboard"@
    } else if starts_with(p, "/account/profile"@) {
        "Profile"@
    } else if starts_with(p, "/account/password"@) {
        "Password"@
    } else if starts_with(p, "/account/providers"@) {
        "Providers"@
    } else if starts_with(p, "/account/passkeys"@) {
        "Passkeys"@
    } else if starts_with(p, "/account/mfa"@) {
        "MFA"@
    } else if starts_with(p, "/account/sessions"@) {
        "Sessions"@
    } else if starts_with(p, "/account/vault"@) || contains_seq(p, "/vault"@) {
        "Secret vault"@
    } else if starts_with(p, "/onboarding"@) {
        "Create workspace"@
    } else if starts_with(p, "/account"@) {
        "Account"@
    } else if starts_with(p, "/organizations/settings"@) {
        "Organization settings"@
    } else if starts_with(p, "/organizations/members"@) {
        "Members"@
    } else if starts_with(p, "/organizations/invitations"@) {
        "Invitations"@
    } else if starts_with(p, "/organizations/roles"@) {
        "Roles"@
    } else if starts_with(p, "/organizations/permissions"@) {
        "Permissions"@
    } else if starts_with(p, "/organizations/audit"@) {
        "Audit"@
    } else if starts_with(p, "/organizations"@) {
        "Organizations"@
    } else if starts_with(p, "/admin/users"@) {
        "Users"@
    } else if starts_with(p, "/admin/health"@) {
        "Health"@
    } else if starts_with(p, "/admin/policies"@) {
        "Policies"@
    } else if starts_with(p, "/admin/auth/signing-keys"@) {
        "Signing keys"@
    } else if starts_with(p, "/admin/auth/providers"@) {
        "Auth providers"@
    } else if starts_with(p, "/admin/auth/redirects"@) {
        "Redirects"@
    } else if starts_with(p, "/admin/authorization"@) {
        "Authorization"@
    } else if starts_with(p, "/admin"@) {
        "Admin"@
    } else if starts_with(p, "/invitations"@) {
        "Invitation"@
    } else {
        "Workspace"@
    }
}

pub fn workspace_topbar_title(path: &str) -> (r: &'static str)
    ensures
        r@ == topbar_title(path@),
{
    let v = chars_of(path);
    let b = trim_end_char_range(&v, 0, v.len(), '/');
    proof {
        assert(v@.subrange(0, v@.len() as int) == v@);
    }
    if range_is(&v, 0, b, "/dashboard") || b == 0 {
        "Dashboard"
    } else if range_starts_with(&v, 0, b, "/account/profile") {
        "Profile"
    } else if range_starts_with(&v, 0, b, "/account/password") {
        "Password"
    } else if range_starts_with(&v, 0, b, "/account/providers") {
        "Providers"
    } else if range_starts_with(&v, 0, b, "/account/passkeys") {
        "Passkeys"
    } else if range_starts_with(&v, 0, b, "/account/mfa") {
        "MFA"
    } else if range_starts_with(&v, 0, b, "/account/sessions") {
        "Sessions"
    } else if range_starts_with(&v, 0, b, "/account/vault") || range_contains(&v, 0, b, "/vault") {
        "Secret vault"
    } else if range_starts_with(&v, 0, b, "/onboarding") {
        "Create workspace"
    } else if range_starts_with(&v, 0, b, "/account") {
        "Account"
    } else if range_starts_with(&v, 0, b, "/organizations/settings") {
        "Organization settings"
    } else if range_starts_with(&v, 0, b, "/organizations/members") {
        "Members"
    } else if range_starts_with(&v, 0, b, "/organizations/invitations") {
        "Invitations"
    } else if range_starts_with(&v, 0, b, "/organizations/roles") {
        "Roles"
    } else if range_starts_with(&v, 0, b, "/organizations/permissions") {
        "Permissions"
    } else if range_starts_with(&v, 0, b, "/organizations/audit") {
        "Audit"
    } else if range_starts_with(&v, 0, b, "/organizations") {
        "Organizations"
    } else if range_starts_with(&v, 0, b, "/admin/users") {
        "Users"
    } else if range_starts_with(&v, 0, b, "/admin/health") {
        "Health"
    } else if range_starts_with(&v, 0, b, "/admin/policies") {
        "Policies"
    } else if range_starts_with(&v, 0, b, "/admin/auth/signing-keys") {
        "Signing keys"
    } else if range_starts_with(&v, 0, b, "/admin/auth/providers") {
        "Auth providers"
    } else if range_starts_with(&v, 0, b, "/admin/auth/redirects") {
        "Redirects"
    } else if range_starts_with(&v, 0, b, "/admin/authorization") {
        "Authorization"
    } else if range_starts_with(&v, 0, b, "/admin") {
        "Admin"
    } else if range_starts_with(&v, 0, b, "/invitations") {
        "Invitation"
    } else {
        "Workspace"
    }
}

// ---------------------------------------------------------------------------
// Workspace settings
// ---------------------------------------------------------------------------

/// The workspace slug of a `/org/{slug}/settings…` path, or empty.
pub open spec fn settings_slug(path: Seq<char>) -> Seq<char> {
    let p = trim_end_char(path, '/');
    if !starts_with(p, "/org/"@) {
        Seq::empty()
    } else {
        let rest = p.subrange(5, p.len() as int);
        match find_seq(rest, "/"@) {
            None => Seq::empty(),
            Some(k) => {
                let slug = rest.subrange(0, k);
                let after = rest.subrange(k + 1, rest.len() as int);
                if after == "settings"@ || starts_with(after, "settings/"@) {
                    slug
                } else {
                    Seq::empty()
                }
            },
        }
    }
}

pub fn slug_from_settings_pathname(path: &str) -> (r: String)
    ensures
        r@ == settings_slug(path@),
{
    proof {
        reveal_strlit("/org/");
        reveal_strlit("/");
    }
    let v = chars_of(path);
    let b = trim_end_char_range(&v, 0, v.len(), '/');
    proof {
        assert(v@.subrange(0, v@.len() as int) == v@);
    }
    let ghost p = v@.subrange(0, b as int);
    if !range_starts_with(&v, 0, b, "/org/") {
        return String::new();
    }
    let ghost rest = p.subrange(5, p.len() as int);
    assert(rest == v@.subrange(5, b as int));
    match range_find(&v, 5, b, "/") {
        None => String::new(),
        Some(k) => {
            proof {
                assert(rest.subrange(0, k as int) == v@.subrange(5, 5 + k));
                assert(rest.subrange(k + 1, rest.len() as int) == v@.subrange(5 + k + 1, b as int));
            }
            if range_is(&v, 5 + k + 1, b, "settings") || range_starts_with(&v, 5 + k + 1, b, "settings/") {
                string_of_range(&v, 5, 5 + k)
            } else {
                String::new()
            }
        },
    }
}

/// Sections of the workspace settings pages, by path segment after `/settings/`.
#[derive(Clone, Copy, Debug, PartialEq, Eq, Structural)]
pub enum SettingsSection {
    General,
    Members,
    Invitations,
    Roles,
    Audit,
    Danger,
}

pub open spec fn section_segment(s: SettingsSection) -> Seq<char> {
    match s {
        SettingsSection::General => "general"@,
        SettingsSection::Members => "members"@,
        SettingsSection::Invitations => "invitations"@,
        SettingsSection::Roles => "roles"@,
        SettingsSection::Audit => "audit"@,
        SettingsSection::Danger => "danger"@,
    }
}

pub open spec fn section_label(s: SettingsSection) -> Seq<char> {
    match s {
        SettingsSection::General => "General"@,
        SettingsSection::Members => "Members"@,
        SettingsSection::Invitations => "Invitations"@,
        SettingsSection::Roles => "Roles"@,
        SettingsSection::Audit => "Audit log"@,
        SettingsSection::Danger => "Danger zone"@,
    }
}

/// The section a path addresses: the text after the first `/settings`, with
/// leading slashes removed, names it; nothing after it means General.
pub open spec fn section_of_path(path: Seq<char>) -> Option<SettingsSection> {
    let p = trim_end_char(path, '/');
    match find_seq(p, "/settings"@) {
        None => None,
        Some(k) => {
            let after = trim_start_char(p.subrange(k + 9, p.len() as int), '/');
            if after.len() == 0 || after == "general"@ {
                Some(SettingsSection::General)
            } else if after == "members"@ {
                Some(SettingsSection::Members)
            } else if after == "invitations"@ {
                Some(SettingsSection::Invitations)
            } else if after == "roles"@ {
                Some(SettingsSection::Roles)
            } else if after == "audit"@ {
                Some(SettingsSection::Audit)
            } else if after == "danger"@ {
                Some(SettingsSection::Danger)
            } else {
                None
            }
        },
    }
}

/// Every section, in sidebar order.
pub open spec fn all_sections() -> Seq<SettingsSection> {
    seq![
        SettingsSection::General,
        SettingsSection::Members,
        SettingsSection::Invitations,
        SettingsSection::Roles,
        SettingsSection::Audit,
        SettingsSection::Danger,
    ]
}

pub open spec fn section_href(s: SettingsSection, slug: Seq<char>) -> Seq<char> {
    "/org/"@ + slug + "/settings/"@ + section_segment(s)
}

impl SettingsSection {
    pub fn path_segment(self) -> (r: &'static str)
        ensures
            r@ == section_segment(self),
    {
        match self {
            SettingsSection::General => "general",
            SettingsSection::Members => "members",
            SettingsSection::Invitations => "invitations",
            SettingsSection::Roles => "roles",
            SettingsSection::Audit => "audit",
            SettingsSection::Danger => "danger",
        }
    }

    pub fn label(self) -> (r: &'static str)
        ensures
            r@ == section_label(self),
    {
        match self {
            SettingsSection::General => "General",
            SettingsSection::Members => "Members",
            SettingsSection::Invitations => "Invitations",
            SettingsSection::Roles => "Roles",
            SettingsSection::Audit => "Audit log",
            SettingsSection::Danger => "Danger zone",
        }
    }

    pub fn from_path(path: &str) -> (r: Option<SettingsSection>)
        ensures
            r == section_of_path(path@),
    {
        proof {
            reveal_strlit("/settings");
        }
        let v = chars_of(path);
        let b = trim_end_char_range(&v, 0, v.len(), '/');
        proof {
            assert(v@.subrange(0, v@.len() as int) == v@);
        }
        let ghost p = v@.subrange(0, b as int);
        match range_find(&v, 0, b, "/settings") {
            None => None,
            Some(k) => {
                let a = trim_start_char_range(&v, k + 9, b, '/');
                proof {
                    assert(p.subrange(k + 9, p.len() as int) == v@.subrange(k + 9, b as int));
                }
                if a == b || range_is(&v, a, b, "general") {
                    Some(SettingsSection::General)
                } else if range_is(&v, a, b, "members") {
                    Some(SettingsSection::Members)
                } else if range_is(&v, a, b, "invitations") {
                    Some(SettingsSection::Invitations)
                } else if range_is(&v, a, b, "roles") {
                    Some(SettingsSection::Roles)
                } else if range_is(&v, a, b, "audit") {
                    Some(SettingsSection::Audit)
                } else if range_is(&v, a, b, "danger") {
                    Some(SettingsSection::Danger)
                } else {
                    None
                }
            },
        }
    }

    /// Every section, in sidebar order.
    pub fn all() -> (r: Vec<SettingsSection>)
        ensures
            r@ == all_sections(),
    {
        let mut v: Vec<SettingsSection> = Vec::new();
        v.push(SettingsSection::General);
        v.push(SettingsSection::Members);
        v.push(SettingsSection::Invitations);
        v.push(SettingsSection::Roles);
        v.push(SettingsSection::Audit);
        v.push(SettingsSection::Danger);
        v
    }

    pub fn href(self, slug: &str) -> (r: String)
        ensures
            r@ == section_href(self, slug@),
    {
        let mut r = owned("/org/");
        push_str(&mut r, slug);
        push_str(&mut r, "/settings/");
        push_str(&mut r, self.path_segment());
        r
    }
}

// ---------------------------------------------------------------------------
// Choosing the workspace to open
// ---------------------------------------------------------------------------

/// Slug of the first workspace with a slug whose id is `tenant` (any id when `None`).
pub open spec fn first_slug(orgs: Seq<OrganizationSummary>, tenant: Option<Seq<char>>) -> Option<Seq<char>>
    decreases orgs.len(),
{
    if orgs.len() == 0 {
        None
    } else if orgs[0].slug@.len() > 0 && (tenant matches Some(t) ==> orgs[0].organization_id@ == t) {
        Some(orgs[0].slug@)
    } else {
        first_slug(orgs.drop_first(), tenant)
    }
}

/// The active tenant's slug when it has one, else the first workspace with a slug.
pub open spec fn settings_slug_choice(orgs: Seq<OrganizationSummary>, tenant_id: Option<Seq<char>>) -> Option<
    Seq<char>,
> {
    match tenant_id {
        Some(t) => if trim(t).len() > 0 && first_slug(orgs, Some(t)) is Some {
            first_slug(orgs, Some(t))
        } else {
            first_slug(orgs, None)
        },
        None => first_slug(orgs, None),
    }
}

fn find_slug(orgs: &[OrganizationSummary], tenant: Option<&str>) -> (r: Option<String>)
    ensures
        match r {
            Some(s) => first_slug(orgs@, match tenant {
                Some(t) => Some(t@),
                None => None,
            }) == Some(s@),
            None => first_slug(orgs@, match tenant {
                Some(t) => Some(t@),
                None => None,
            }) is None,
        },
{
    let ghost tv: Option<Seq<char>> = match tenant {
        Some(t) => Some(t@),
        None => None,
    };
    let mut i: usize = 0;
    assert(orgs@.subrange(0, orgs@.len() as int) == orgs@);
    while i < orgs.len()
        invariant
            i <= orgs@.len(),
            tv == match tenant {
                Some(t) => Some(t@),
                None => None::<Seq<char>>,
            },
            first_slug(orgs@, tv) == first_slug(orgs@.subrange(i as int, orgs@.len() as int), tv),
        decreases orgs@.len() - i,
    {
        let ghost rest = orgs@.subrange(i as int, orgs@.len() as int);
        proof {
            assert(rest[0] == orgs@[i as int]);
            assert(rest.drop_first() == orgs@.subrange(i + 1, orgs@.len() as int));
        }
        let org = &orgs[i];
        let slug_len = chars_of(org.slug.as_str()).len();
        let id_matches = match tenant {
            Some(t) => {
                let a = chars_of(org.organization_id.as_str());
                let al = a.len();
                range_is(&a, 0, al, t)
            },
            None => true,
        };
        proof {
            let a = org.organization_id@;
            assert(a.subrange(0, a.len() as int) == a);
            assert(id_matches == (tv matches Some(t) ==> rest[0].organization_id@ == t));
        }
        if slug_len > 0 && id_matches {
            let s = org.slug.clone();
            assert(first_slug(rest, tv) == Some(rest[0].slug@));
            return Some(s);
        }
        assert(first_slug(rest, tv) == first_slug(rest.drop_first(), tv));
        i += 1;
    }
    None
}

pub fn resolve_workspace_settings_slug(orgs: &[OrganizationSummary], tenant_id: Option<&str>) -> (r:
    Option<String>)
    ensures
        match r {
            Some(s) => settings_slug_choice(orgs@, match tenant_id {
                Some(t) => Some(t@),
                None => None,
            }) == Some(s@),
            None => settings_slug_choice(orgs@, match tenant_id {
                Some(t) => Some(t@),
                None => None,
            }) is None,
        },
{
    if let Some(tid) = tenant_id {
        if trimmed_chars(tid).len() > 0 {
            let found = find_slug(orgs, Some(tid));
            if found.is_some() {
                return found;
            }
        }
    }
    find_slug(orgs, None)
}


/// Which top-level navigation entries a path marks active: the overview on
/// `/dashboard`, workspaces under `/organizations`, the system section under
/// `/admin`.
pub open spec fn nav_states_spec(path: Seq<char>) -> (bool, bool, bool) {
    (
        path == "/dashboard"@,
        path == "/organizations"@ || starts_with(path, "/organizations/"@),
        path == "/admin"@ || starts_with(path, "/admin/"@),
    )
}

pub fn nav_active_states(pathname: &str) -> (r: (bool, bool, bool))
    ensures
        r == nav_states_spec(pathname@),
{
    let v = chars_of(pathname);
    let n = v.len();
    proof {
        assert(v@.subrange(0, n as int) == v@);
    }
    (
        range_is(&v, 0, n, "/dashboard"),
        range_is(&v, 0, n, "/organizations") || range_starts_with(&v, 0, n, "/organizations/"),
        range_is(&v, 0, n, "/admin") || range_starts_with(&v, 0, n, "/admin/"),
    )
}

/// Where a legacy `/organizations/<section>` page sends the browser: the
/// section of the chosen workspace's settings, or the workspace list when the
/// list could not be loaded, is empty, or has no workspace with a slug.
pub open spec fn legacy_settings_target_spec(
    orgs: Option<Seq<OrganizationSummary>>,
    tenant_id: Option<Seq<char>>,
    section: Seq<char>,
) -> Seq<char> {
    match orgs {
        None => "/organizations"@,
        Some(list) => if list.len() == 0 {
            "/organizations"@
        } else {
            match settings_slug_choice(list, tenant_id) {
                Some(slug) => "/org/"@ + slug + "/settings/"@ + section,
                None => "/organizations"@,
            }
        },
    }
}

pub fn legacy_settings_redirect_target(
    orgs: Option<&[OrganizationSummary]>,
    tenant_id: Option<&str>,
    section: &str,
) -> (r: String)
    ensures
        r@ == legacy_settings_target_spec(
            match orgs {
                Some(l) => Some(l@),
                None => None,
            },
            match tenant_id {
                Some(t) => Some(t@),
                None => None,
            },
            section@,
        ),
{
    match orgs {
        None => owned("/organizations"),
        Some(list) => {
            if list.len() == 0 {
                return owned("/organizations");
            }
            match resolve_workspace_settings_slug(list, tenant_id) {
                Some(slug) => {
                    let mut r = owned("/org/");
                    push_str(&mut r, slug.as_str());
                    push_str(&mut r, "/settings/");
                    push_str(&mut r, section);
                    r
                },
                None => owned("/organizations"),
            }
        },
    }
}

// ---------------------------------------------------------------------------
// Laws
// ---------------------------------------------------------------------------

proof fn lemma_trim_end_char_keeps(s: Seq<char>, c: char)
    requires
        s.len() > 0,
        s.last() != c,
    ensures
        trim_end_char(s, c) == s,
{
}

proof fn lemma_reveal_segments(s: SettingsSection)
    ensures
        section_segment(s).len() > 0,
        section_segment(s)[0] != '/',
        section_segment(s).last() != '/',
        forall|i: int| 0 <= i < section_segment(s).len() ==> section_segment(s)[i] != '/',
{
    reveal_strlit("general");
    reveal_strlit("members");
    reveal_strlit("invitations");
    reveal_strlit("roles");
    reveal_strlit("audit");
    reveal_strlit("danger");
}

/// A settings link that the application builds for a slug is read back as the
/// section it was built for, when the slug holds no `/` and does not itself
/// begin with `settings` (the first `/settings` in the path is the one read).
pub proof fn settings_href_section_round_trip(s: SettingsSection, slug: Seq<char>)
    requires
        !slug.contains('/'),
        !starts_with(slug, "settings"@),
    ensures
        section_of_path(section_href(s, slug)) == Some(s),
{
    reveal_strlit("/org/");
    reveal_strlit("/settings/");
    reveal_strlit("/settings");
    reveal_strlit("general");
    reveal_strlit("members");
    reveal_strlit("invitations");
    reveal_strlit("roles");
    reveal_strlit("audit");
    reveal_strlit("danger");
    reveal_strlit("settings");
    lemma_reveal_segments(s);
    let seg = section_segment(s);
    let h = section_href(s, slug);
    let k: int = 5 + slug.len() as int;
    assert(h.last() == seg.last());
    lemma_trim_end_char_keeps(h, '/');
    // "/settings" first occurs right after the slug.
    assert(h.subrange(k, k + 9) =~= "/settings"@);
    assert forall|j: int| 0 <= j < k implies !crate::text::occurs_at(h, "/settings"@, j) by {
        if crate::text::occurs_at(h, "/settings"@, j) {
            let w = h.subrange(j, j + 9);
            assert(w == "/settings"@);
            assert(h[j] == w[0]);
            if j >= 5 {
                assert(h[j] == slug[j - 5]);
                assert(slug.contains('/'));
            } else if j == 4 {
                if slug.len() < 8 {
                    let i = slug.len() as int;
                    assert(h[5 + i] == '/');
                    assert(w[1 + i] == h[5 + i]);
                } else {
                    assert forall|i: int| 0 <= i < 8 implies slug[i] == "settings"@[i] by {
                        assert(w[1 + i] == h[5 + i]);
                        assert(h[5 + i] == slug[i]);
                    }
                    assert(slug.subrange(0, 8) =~= "settings"@);
                }
            } else {
                assert(h[j] == "/org/"@[j]);
                assert(h[j + 1] == w[1]);
                assert(h[j + 1] == "/org/"@[j + 1]);
            }
        }
    }
    crate::text::lemma_find_seq_unique(h, "/settings"@, 0, k);
    let after = h.subrange(k + 9, h.len() as int);
    assert(after[0] == '/');
    assert(after.drop_first() =~= seg);
    assert(trim_start_char(after.drop_first(), '/') == seg);
}

/// The slug is read back from every settings link built for a slug without `/`.
pub proof fn settings_href_slug_round_trip(s: SettingsSection, slug: Seq<char>)
    requires
        !slug.contains('/'),
    ensures
        settings_slug(section_href(s, slug)) == slug,
{
    reveal_strlit("/org/");
    reveal_strlit("/settings/");
    reveal_strlit("/");
    reveal_strlit("settings/");
    reveal_strlit("settings");
    lemma_reveal_segments(s);
    let seg = section_segment(s);
    let h = section_href(s, slug);
    assert(h.last() == seg.last());
    lemma_trim_end_char_keeps(h, '/');
    assert(h.subrange(0, 5) =~= "/org/"@);
    let rest = h.subrange(5, h.len() as int);
    let k = slug.len() as int;
    assert(rest.subrange(k, k + 1) =~= "/"@);
    assert forall|j: int| 0 <= j < k implies !crate::text::occurs_at(rest, "/"@, j) by {
        if crate::text::occurs_at(rest, "/"@, j) {
            assert(rest.subrange(j, j + 1)[0] == '/');
            assert(rest[j] == slug[j]);
            assert(slug.contains('/'));
        }
    }
    crate::text::lemma_find_seq_unique(rest, "/"@, 0, k);
    assert(rest.subrange(0, k) =~= slug);
    let after = rest.subrange(k + 1, rest.len() as int);
    assert(after =~= "settings/"@ + seg);
    assert(after.subrange(0, 9) =~= "settings/"@);
}

// ---------------------------------------------------------------------------
// Onboarding
// ---------------------------------------------------------------------------

/// Where the onboarding page sends someone who already has workspaces (unless
/// the page was opened to create another): the vault of the first workspace
/// with a slug, else the workspace list. `None` keeps them on the page.
pub fn onboarding_redirect(force_new: bool, orgs: &[OrganizationSummary]) -> (r: Option<String>)
    ensures
        (force_new || orgs@.len() == 0) ==> r is None,
        !(force_new || orgs@.len() == 0) ==> (r matches Some(t) && t@ == match first_slug(
            orgs@,
            None,
        ) {
            Some(slug) => "/org/"@ + slug + "/vault"@,
            None => "/organizations"@,
        }),
{
    if force_new || orgs.len() == 0 {
        return None;
    }
    match find_slug(orgs, None) {
        Some(slug) => {
            let mut r = owned("/org/");
            push_str(&mut r, slug.as_str());
            push_str(&mut r, "/vault");
            Some(r)
        },
        None => Some(owned("/organizations")),
    }
}

/// Pages that stay reachable before the first workspace exists.
pub open spec fn onboarding_exempt(path: Seq<char>) -> bool {
    let p = trim_end_char(path, '/');
    starts_with(p, "/onboarding"@) || starts_with(p, "/account"@) || starts_with(p, "/auth"@)
        || starts_with(p, "/invitations"@) || starts_with(p, "/login"@) || starts_with(
        p,
        "/register"@,
    )
}

/// Whether a signed-in page sends the user to create a first workspace: the
/// workspace list loaded empty and the page is not one of the exempt ones.
pub fn needs_onboarding(path: &str, orgs_loaded_empty: bool) -> (r: bool)
    ensures
        r == (orgs_loaded_empty && !onboarding_exempt(path@)),
{
    let v = chars_of(path);
    let b = trim_end_char_range(&v, 0, v.len(), '/');
    proof {
        assert(v@.subrange(0, v@.len() as int) == v@);
    }
    let exempt = range_starts_with(&v, 0, b, "/onboarding") || range_starts_with(
        &v,
        0,
        b,
        "/account",
    ) || range_starts_with(&v, 0, b, "/auth") || range_starts_with(&v, 0, b, "/invitations")
        || range_starts_with(&v, 0, b, "/login") || range_starts_with(&v, 0, b, "/register");
    orgs_loaded_empty && !exempt
}

/// Where the old account vault address leads: the vault of the resolved
/// workspace when it has a slug, else onboarding.
pub fn account_vault_redirect(resolved_slug: Option<&str>) -> (r: String)
    ensures
        r@ == match resolved_slug {
            Some(s) => if s@.len() > 0 {
                "/org/"@ + s@ + "/vault"@
            } else {
                "/onboarding/workspace"@
            },
            None => "/onboarding/workspace"@,
        },
{
    match resolved_slug {
        Some(s) => {
            if chars_of(s).len() > 0 {
                let mut r = owned("/org/");
                push_str(&mut r, s);
                push_str(&mut r, "/vault");
                r
            } else {
                owned("/onboarding/workspace")
            }
        },
        None => owned("/onboarding/workspace"),
    }
}


// ---------------------------------------------------------------------------
// Laws of the routing decisions
// ---------------------------------------------------------------------------

/// A path that starts with `a` agrees with `a` character by character.
proof fn lemma_prefix_chars(p: Seq<char>, a: Seq<char>)
    requires
        starts_with(p, a),
    ensures
        forall|k: int| 0 <= k < a.len() ==> p[k] == #[trigger] a[k],
{
    assert forall|k: int| 0 <= k < a.len() implies p[k] == #[trigger] a[k] by {
        assert(p.subrange(0, a.len() as int)[k] == p[k]);
    }
}

/// A path whose `k`-th character differs from that of `b` does not start
/// with `b`.
proof fn lemma_char_blocks(p: Seq<char>, b: Seq<char>, k: int)
    requires
        0 <= k < b.len(),
        k < p.len(),
        p[k] != b[k],
    ensures
        !starts_with(p, b),
{
    if starts_with(p, b) {
        assert(p.subrange(0, b.len() as int)[k] == p[k]);
    }
}

/// The system entry of the navigation is active on `/admin` itself and on
/// every page below it, and on no other page: for a path `/admin` followed by
/// `rest`, it is active exactly when `rest` is empty or begins a new segment.
pub proof fn system_entry_active_under_admin(rest: Seq<char>)
    ensures
        nav_states_spec("/admin"@ + rest).2 <==> (rest.len() == 0 || rest[0] == '/'),
{
    reveal_strlit("/admin");
    reveal_strlit("/admin/");
    let p = "/admin"@ + rest;
    if rest.len() == 0 {
        assert(p =~= "/admin"@);
    } else {
        assert(p != "/admin"@) by {
            assert(p.len() != "/admin"@.len());
        }
        if rest[0] == '/' {
            assert(p.subrange(0, 7) =~= "/admin/"@);
        } else {
            lemma_char_blocks(p, "/admin/"@, 6);
        }
    }
}

/// A page outside `/admin` never marks the system entry active.
pub proof fn system_entry_inactive_elsewhere(path: Seq<char>)
    requires
        !starts_with(path, "/admin"@),
    ensures
        !nav_states_spec(path).2,
{
    reveal_strlit("/admin");
    reveal_strlit("/admin/");
    if starts_with(path, "/admin/"@) {
        lemma_prefix_chars(path, "/admin/"@);
        assert(path.subrange(0, 6) =~= "/admin"@);
    }
    if path == "/admin"@ {
        assert(path.subrange(0, 6) =~= path);
    }
}

/// The workspaces entry is active on `/organizations` and every page below
/// it, and on no page that only continues the word.
pub proof fn workspaces_entry_active_under_organizations(rest: Seq<char>)
    ensures
        nav_states_spec("/organizations"@ + rest).1 <==> (rest.len() == 0 || rest[0] == '/'),
{
    reveal_strlit("/organizations");
    reveal_strlit("/organizations/");
    let p = "/organizations"@ + rest;
    if rest.len() == 0 {
        assert(p =~= "/organizations"@);
    } else {
        assert(p != "/organizations"@) by {
            assert(p.len() != "/organizations"@.len());
        }
        if rest[0] == '/' {
            assert(p.subrange(0, 15) =~= "/organizations/"@);
        } else {
            lemma_char_blocks(p, "/organizations/"@, 14);
        }
    }
}

/// The overview entry is active on `/dashboard` alone.
pub proof fn overview_entry_active_on_dashboard_only(path: Seq<char>)
    ensures
        nav_states_spec(path).0 <==> path == "/dashboard"@,
{
}

/// A path that starts with `a` neither starts with nor equals a text `b`
/// that differs from `a` at a position both have.
proof fn lemma_prefix_clash(p: Seq<char>, a: Seq<char>, b: Seq<char>, k: int)
    requires
        starts_with(p, a),
        0 <= k < a.len(),
        k < b.len(),
        a[k] != b[k],
    ensures
        !starts_with(p, b),
        p != b,
{
    assert(p.subrange(0, a.len() as int)[k] == p[k]);
    if starts_with(p, b) {
        assert(p.subrange(0, b.len() as int)[k] == p[k]);
    }
    if p == b {
        assert(p.subrange(0, b.len() as int) =~= p);
    }
}

/// The pages that stay reachable before the first workspace exists are
/// exactly those under `/onboarding`, `/account`, `/auth`, `/invitations`,
/// `/login` and `/register`: on any of them a signed-in user without a
/// workspace is never sent to create one (an invitation link can be
/// accepted first).
pub proof fn exempt_pages_skip_onboarding(path: Seq<char>, prefix: Seq<char>, orgs_loaded_empty: bool)
    requires
        prefix == "/onboarding"@ || prefix == "/account"@ || prefix == "/auth"@ || prefix == "/invitations"@ || prefix == "/login"@ || prefix == "/register"@,
        starts_with(trim_end_char(path, '/'), prefix),
    ensures
        !(orgs_loaded_empty && !onboarding_exempt(path)),
{
}

/// The workspace pages proper (the overview, a workspace, the workspace
/// list, administration) are not exempt: a signed-in user whose workspace
/// list loaded empty is sent to create a first workspace from them, and a
/// user with a workspace is not.
pub proof fn workspace_pages_need_a_workspace(path: Seq<char>, prefix: Seq<char>, orgs_loaded_empty: bool)
    requires
        prefix == "/dashboard"@ || prefix == "/org/"@ || prefix == "/organizations"@ || prefix == "/admin"@,
        starts_with(trim_end_char(path, '/'), prefix),
    ensures
        (orgs_loaded_empty && !onboarding_exempt(path)) == orgs_loaded_empty,
{
    let p = trim_end_char(path, '/');
    reveal_strlit("/dashboard");
    reveal_strlit("/org/");
    reveal_strlit("/organizations");
    reveal_strlit("/admin");
    reveal_strlit("/onboarding");
    reveal_strlit("/account");
    reveal_strlit("/auth");
    reveal_strlit("/invitations");
    reveal_strlit("/login");
    reveal_strlit("/register");
    if prefix == "/dashboard"@ {
        lemma_prefix_clash(p, prefix, "/onboarding"@, 1);
        lemma_prefix_clash(p, prefix, "/account"@, 1);
        lemma_prefix_clash(p, prefix, "/auth"@, 1);
        lemma_prefix_clash(p, prefix, "/invitations"@, 1);
        lemma_prefix_clash(p, prefix, "/login"@, 1);
        lemma_prefix_clash(p, prefix, "/register"@, 1);
    }
    if prefix == "/org/"@ {
        lemma_prefix_clash(p, prefix, "/onboarding"@, 2);
        lemma_prefix_clash(p, prefix, "/account"@, 1);
        lemma_prefix_clash(p, prefix, "/auth"@, 1);
        lemma_prefix_clash(p, prefix, "/invitations"@, 1);
        lemma_prefix_clash(p, prefix, "/login"@, 1);
        lemma_prefix_clash(p, prefix, "/register"@, 1);
    }
    if prefix == "/organizations"@ {
        lemma_prefix_clash(p, prefix, "/onboarding"@, 2);
        lemma_prefix_clash(p, prefix, "/account"@, 1);
        lemma_prefix_clash(p, prefix, "/auth"@, 1);
        lemma_prefix_clash(p, prefix, "/invitations"@, 1);
        lemma_prefix_clash(p, prefix, "/login"@, 1);
        lemma_prefix_clash(p, prefix, "/register"@, 1);
    }
    if prefix == "/admin"@ {
        lemma_prefix_clash(p, prefix, "/onboarding"@, 1);
        lemma_prefix_clash(p, prefix, "/account"@, 2);
        lemma_prefix_clash(p, prefix, "/auth"@, 2);
        lemma_prefix_clash(p, prefix, "/invitations"@, 1);
        lemma_prefix_clash(p, prefix, "/login"@, 1);
        lemma_prefix_clash(p, prefix, "/register"@, 1);
    }
}

/// Pages under `/dashboard/`, `/account`, `/organizations`, `/org/`,
/// `/admin`, `/invitations` and `/auth/callback` use the workspace chrome.
pub proof fn workspace_pages_use_the_chrome(path: Seq<char>, prefix: Seq<char>)
    requires
        prefix == "/dashboard/"@ || prefix == "/account"@ || prefix == "/organizations"@ || prefix == "/org/"@ || prefix == "/admin"@ || prefix == "/invitations"@ || prefix == "/auth/callback"@,
        starts_with(trim_end_char(path, '/'), prefix),
    ensures
        workspace_path(path),
{
    let p = trim_end_char(path, '/');
    reveal_strlit("/dashboard/");
    reveal_strlit("/account");
    reveal_strlit("/organizations");
    reveal_strlit("/org/");
    reveal_strlit("/admin");
    reveal_strlit("/invitations");
    reveal_strlit("/auth/callback");
    reveal_strlit("/onboarding");
    if prefix == "/dashboard/"@ {
        lemma_prefix_clash(p, prefix, "/onboarding"@, 1);
    }
    if prefix == "/account"@ {
        lemma_prefix_clash(p, prefix, "/onboarding"@, 1);
    }
    if prefix == "/organizations"@ {
        lemma_prefix_clash(p, prefix, "/onboarding"@, 2);
    }
    if prefix == "/org/"@ {
        lemma_prefix_clash(p, prefix, "/onboarding"@, 2);
    }
    if prefix == "/admin"@ {
        lemma_prefix_clash(p, prefix, "/onboarding"@, 1);
    }
    if prefix == "/invitations"@ {
        lemma_prefix_clash(p, prefix, "/onboarding"@, 1);
    }
    if prefix == "/auth/callback"@ {
        lemma_prefix_clash(p, prefix, "/onboarding"@, 1);
    }
}

/// The overview itself uses the workspace chrome.
pub proof fn dashboard_uses_the_chrome(path: Seq<char>)
    requires
        trim_end_char(path, '/') == "/dashboard"@,
    ensures
        workspace_path(path),
{
    reveal_strlit("/dashboard");
    reveal_strlit("/onboarding");
    let p = trim_end_char(path, '/');
    assert(p.subrange(0, p.len() as int) =~= p);
    lemma_prefix_clash(p, "/dashboard"@, "/onboarding"@, 1);
}

/// Onboarding and the sign-in and registration pages keep the focused
/// layout.
pub proof fn focused_pages_skip_the_chrome(path: Seq<char>, prefix: Seq<char>)
    requires
        prefix == "/onboarding"@ || prefix == "/login"@ || prefix == "/register"@,
        starts_with(trim_end_char(path, '/'), prefix),
    ensures
        !workspace_path(path),
{
    let p = trim_end_char(path, '/');
    reveal_strlit("/dashboard/");
    reveal_strlit("/account");
    reveal_strlit("/organizations");
    reveal_strlit("/org/");
    reveal_strlit("/admin");
    reveal_strlit("/invitations");
    reveal_strlit("/auth/callback");
    reveal_strlit("/onboarding");
    reveal_strlit("/login");
    reveal_strlit("/register");
    reveal_strlit("/dashboard");
    if prefix == "/login"@ {
        lemma_prefix_clash(p, prefix, "/dashboard/"@, 1);
        lemma_prefix_clash(p, prefix, "/account"@, 1);
        lemma_prefix_clash(p, prefix, "/organizations"@, 1);
        lemma_prefix_clash(p, prefix, "/org/"@, 1);
        lemma_prefix_clash(p, prefix, "/admin"@, 1);
        lemma_prefix_clash(p, prefix, "/invitations"@, 1);
        lemma_prefix_clash(p, prefix, "/auth/callback"@, 1);
        lemma_prefix_clash(p, prefix, "/dashboard"@, 1);
    }
    if prefix == "/register"@ {
        lemma_prefix_clash(p, prefix, "/dashboard/"@, 1);
        lemma_prefix_clash(p, prefix, "/account"@, 1);
        lemma_prefix_clash(p, prefix, "/organizations"@, 1);
        lemma_prefix_clash(p, prefix, "/org/"@, 1);
        lemma_prefix_clash(p, prefix, "/admin"@, 1);
        lemma_prefix_clash(p, prefix, "/invitations"@, 1);
        lemma_prefix_clash(p, prefix, "/auth/callback"@, 1);
        lemma_prefix_clash(p, prefix, "/dashboard"@, 1);
    }
}

/// Each `/organizations/<section>` page is titled by its section (members,
/// invitations, roles, permissions, audit, settings), not by the generic
/// "Organizations", unless it is a vault page.
pub proof fn organization_pages_are_titled_by_section(path: Seq<char>, prefix: Seq<char>, title: Seq<char>)
    requires
        (prefix == "/organizations/settings"@ && title == "Organization settings"@)
            || (prefix == "/organizations/members"@ && title == "Members"@)
            || (prefix == "/organizations/invitations"@ && title == "Invitations"@)
            || (prefix == "/organizations/roles"@ && title == "Roles"@)
            || (prefix == "/organizations/permissions"@ && title == "Permissions"@)
            || (prefix == "/organizations/audit"@ && title == "Audit"@),
        starts_with(trim_end_char(path, '/'), prefix),
        !contains_seq(trim_end_char(path, '/'), "/vault"@),
    ensures
        topbar_title(path) == title,
{
    let p = trim_end_char(path, '/');
    reveal_strlit("/account/profile");
    reveal_strlit("/account/password");
    reveal_strlit("/account/providers");
    reveal_strlit("/account/passkeys");
    reveal_strlit("/account/mfa");
    reveal_strlit("/account/sessions");
    reveal_strlit("/account/vault");
    reveal_strlit("/onboarding");
    reveal_strlit("/account");
    reveal_strlit("/organizations/settings");
    reveal_strlit("/organizations/members");
    reveal_strlit("/organizations/invitations");
    reveal_strlit("/organizations/roles");
    reveal_strlit("/organizations/permissions");
    reveal_strlit("/organizations/audit");
    reveal_strlit("Organization settings");
    reveal_strlit("Members");
    reveal_strlit("Invitations");
    reveal_strlit("Roles");
    reveal_strlit("Permissions");
    reveal_strlit("Audit");
    reveal_strlit("/dashboard");
    lemma_prefix_clash(p, prefix, "/dashboard"@, 1);
    if prefix == "/organizations/settings"@ {
        lemma_prefix_clash(p, prefix, "/account/profile"@, 1);
        lemma_prefix_clash(p, prefix, "/account/password"@, 1);
        lemma_prefix_clash(p, prefix, "/account/providers"@, 1);
        lemma_prefix_clash(p, prefix, "/account/passkeys"@, 1);
        lemma_prefix_clash(p, prefix, "/account/mfa"@, 1);
        lemma_prefix_clash(p, prefix, "/account/sessions"@, 1);
        lemma_prefix_clash(p, prefix, "/account/vault"@, 1);
        lemma_prefix_clash(p, prefix, "/onboarding"@, 2);
        lemma_prefix_clash(p, prefix, "/account"@, 1);
        lemma_prefix_clash(p, prefix, "/organizations/members"@, 15);
        lemma_prefix_clash(p, prefix, "/organizations/invitations"@, 15);
        lemma_prefix_clash(p, prefix, "/organizations/roles"@, 15);
        lemma_prefix_clash(p, prefix, "/organizations/permissions"@, 15);
        lemma_prefix_clash(p, prefix, "/organizations/audit"@, 15);
    }
    if prefix == "/organizations/members"@ {
        lemma_prefix_clash(p, prefix, "/account/profile"@, 1);
        lemma_prefix_clash(p, prefix, "/account/password"@, 1);
        lemma_prefix_clash(p, prefix, "/account/providers"@, 1);
        lemma_prefix_clash(p, prefix, "/account/passkeys"@, 1);
        lemma_prefix_clash(p, prefix, "/account/mfa"@, 1);
        lemma_prefix_clash(p, prefix, "/account/sessions"@, 1);
        lemma_prefix_clash(p, prefix, "/account/vault"@, 1);
        lemma_prefix_clash(p, prefix, "/onboarding"@, 2);
        lemma_prefix_clash(p, prefix, "/account"@, 1);
        lemma_prefix_clash(p, prefix, "/organizations/settings"@, 15);
        lemma_prefix_clash(p, prefix, "/organizations/invitations"@, 15);
        lemma_prefix_clash(p, prefix, "/organizations/roles"@, 15);
        lemma_prefix_clash(p, prefix, "/organizations/permissions"@, 15);
        lemma_prefix_clash(p, prefix, "/organizations/audit"@, 15);
    }
    if prefix == "/organizations/invitations"@ {
        lemma_prefix_clash(p, prefix, "/account/profile"@, 1);
        lemma_prefix_clash(p, prefix, "/account/password"@, 1);
        lemma_prefix_clash(p, prefix, "/account/providers"@, 1);
        lemma_prefix_clash(p, prefix, "/account/passkeys"@, 1);
        lemma_prefix_clash(p, prefix, "/account/mfa"@, 1);
        lemma_prefix_clash(p, prefix, "/account/sessions"@, 1);
        lemma_prefix_clash(p, prefix, "/account/vault"@, 1);
        lemma_prefix_clash(p, prefix, "/onboarding"@, 2);
        lemma_prefix_clash(p, prefix, "/account"@, 1);
        lemma_prefix_clash(p, prefix, "/organizations/settings"@, 15);
        lemma_prefix_clash(p, prefix, "/organizations/members"@, 15);
        lemma_prefix_clash(p, prefix, "/organizations/roles"@, 15);
        lemma_prefix_clash(p, prefix, "/organizations/permissions"@, 15);
        lemma_prefix_clash(p, prefix, "/organizations/audit"@, 15);
    }
    if prefix == "/organizations/roles"@ {
        lemma_prefix_clash(p, prefix, "/account/profile"@, 1);
        lemma_prefix_clash(p, prefix, "/account/password"@, 1);
        lemma_prefix_clash(p, prefix, "/account/providers"@, 1);
        lemma_prefix_clash(p, prefix, "/account/passkeys"@, 1);
        lemma_prefix_clash(p, prefix, "/account/mfa"@, 1);
        lemma_prefix_clash(p, prefix, "/account/sessions"@, 1);
        lemma_prefix_clash(p, prefix, "/account/vault"@, 1);
        lemma_prefix_clash(p, prefix, "/onboarding"@, 2);
        lemma_prefix_clash(p, prefix, "/account"@, 1);
        lemma_prefix_clash(p, prefix, "/organizations/settings"@, 15);
        lemma_prefix_clash(p, prefix, "/organizations/members"@, 15);
        lemma_prefix_clash(p, prefix, "/organizations/invitations"@, 15);
        lemma_prefix_clash(p, prefix, "/organizations/permissions"@, 15);
        lemma_prefix_clash(p, prefix, "/organizations/audit"@, 15);
    }
    if prefix == "/organizations/permissions"@ {
        lemma_prefix_clash(p, prefix, "/account/profile"@, 1);
        lemma_prefix_clash(p, prefix, "/account/password"@, 1);
        lemma_prefix_clash(p, prefix, "/account/providers"@, 1);
        lemma_prefix_clash(p, prefix, "/account/passkeys"@, 1);
        lemma_prefix_clash(p, prefix, "/account/mfa"@, 1);
        lemma_prefix_clash(p, prefix, "/account/sessions"@, 1);
        lemma_prefix_clash(p, prefix, "/account/vault"@, 1);
        lemma_prefix_clash(p, prefix, "/onboarding"@, 2);
        lemma_prefix_clash(p, prefix, "/account"@, 1);
        lemma_prefix_clash(p, prefix, "/organizations/settings"@, 15);
        lemma_prefix_clash(p, prefix, "/organizations/members"@, 15);
        lemma_prefix_clash(p, prefix, "/organizations/invitations"@, 15);
        lemma_prefix_clash(p, prefix, "/organizations/roles"@, 15);
        lemma_prefix_clash(p, prefix, "/organizations/audit"@, 15);
    }
    if prefix == "/organizations/audit"@ {
        lemma_prefix_clash(p, prefix, "/account/profile"@, 1);
        lemma_prefix_clash(p, prefix, "/account/password"@, 1);
        lemma_prefix_clash(p, prefix, "/account/providers"@, 1);
        lemma_prefix_clash(p, prefix, "/account/passkeys"@, 1);
        lemma_prefix_clash(p, prefix, "/account/mfa"@, 1);
        lemma_prefix_clash(p, prefix, "/account/sessions"@, 1);
        lemma_prefix_clash(p, prefix, "/account/vault"@, 1);
        lemma_prefix_clash(p, prefix, "/onboarding"@, 2);
        lemma_prefix_clash(p, prefix, "/account"@, 1);
        lemma_prefix_clash(p, prefix, "/organizations/settings"@, 15);
        lemma_prefix_clash(p, prefix, "/organizations/members"@, 15);
        lemma_prefix_clash(p, prefix, "/organizations/invitations"@, 15);
        lemma_prefix_clash(p, prefix, "/organizations/roles"@, 15);
        lemma_prefix_clash(p, prefix, "/organizations/permissions"@, 15);
    }
}

} // verus!
