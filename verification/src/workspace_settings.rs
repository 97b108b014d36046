//! Decisions of the workspace settings pages: the workspace the sidebar
//! names, its section links, and the rename form of the general page.

use vstd::prelude::*;

use crate::contracts::OrganizationSummary;
use crate::paths::{
    all_sections, section_href, section_label, section_of_path, settings_slug,
    slug_from_settings_pathname, SettingsSection,
};
use crate::text::{chars_of, opt_is, owned, push_str, str_eq, trim, trimmed_string};

verus! {

/// The first listed workspace with the slug, as its name and slug.
pub open spec fn find_by_slug(orgs: Seq<OrganizationSummary>, slug: Seq<char>) -> Option<
    (Seq<char>, Seq<char>),
>
    decreases orgs.len(),
{
    if orgs.len() == 0 {
        None
    } else if orgs[0].slug@ == slug {
        Some((orgs[0].name@, orgs[0].slug@))
    } else {
        find_by_slug(orgs.drop_first(), slug)
    }
}

/// The workspace the sidebar names, as its name and slug: that of the loaded
/// settings; else the listed workspace with the slug; else the slug itself,
/// unless it is empty.
pub open spec fn sidebar_identity_spec(
    settings: Option<(Seq<char>, Seq<char>)>,
    orgs: Option<Seq<OrganizationSummary>>,
    slug: Seq<char>,
) -> Option<(Seq<char>, Seq<char>)> {
    let fallback = if slug.len() == 0 {
        None
    } else {
        Some((slug, slug))
    };
    match settings {
        Some(named) => Some(named),
        None => match orgs {
            Some(list) => match find_by_slug(list, slug) {
                Some(found) => Some(found),
                None => fallback,
            },
            None => fallback,
        },
    }
}

pub open spec fn pair_view(p: Option<(String, String)>) -> Option<(Seq<char>, Seq<char>)> {
    match p {
        Some(x) => Some((x.0@, x.1@)),
        None => None,
    }
}

pub open spec fn orgs_view(o: Option<Vec<OrganizationSummary>>) -> Option<Seq<OrganizationSummary>> {
    match o {
        Some(v) => Some(v@),
        None => None,
    }
}

/// The workspace named by the sidebar. `settings` is the name and slug from
/// the loaded settings, `orgs` the listed workspaces; either is `None` while
/// it is loading or when it failed.
pub fn sidebar_identity(
    settings: &Option<(String, String)>,
    orgs: &Option<Vec<OrganizationSummary>>,
    slug: &str,
) -> (r: Option<(String, String)>)
    ensures
        pair_view(r) == sidebar_identity_spec(pair_view(*settings), orgs_view(*orgs), slug@),
{
    match settings {
        Some(named) => {
            return Some((owned(named.0.as_str()), owned(named.1.as_str())));
        },
        None => {},
    }
    match orgs {
        Some(list) => {
            proof {
                assert(orgs_view(*orgs) == Some(list@));
                assert(pair_view(*settings) is None);
            }
            let mut i: usize = 0;
            proof {
                assert(list@.subrange(0, list@.len() as int) =~= list@);
            }
            while i < list.len()
                invariant
                    i <= list@.len(),
                    orgs_view(*orgs) == Some(list@),
                    pair_view(*settings) is None,
                    find_by_slug(list@, slug@) == find_by_slug(
                        list@.subrange(i as int, list@.len() as int),
                        slug@,
                    ),
                decreases list@.len() - i,
            {
                let ghost rest = list@.subrange(i as int, list@.len() as int);
                proof {
                    assert(rest.drop_first() =~= list@.subrange(i + 1, list@.len() as int));
                    assert(rest[0] == list@[i as int]);
                }
                if str_eq(list[i].slug.as_str(), slug) {
                    proof {
                        assert(find_by_slug(rest, slug@) == Some(
                            (list@[i as int].name@, list@[i as int].slug@),
                        ));
                    }
                    return Some((owned(list[i].name.as_str()), owned(list[i].slug.as_str())));
                }
                i += 1;
            }
        },
        None => {},
    }
    if chars_of(slug).len() == 0 {
        None
    } else {
        Some((owned(slug), owned(slug)))
    }
}

/// The "Open workspace" link: the workspace's vault, or the dashboard when
/// no workspace is addressed.
pub fn open_workspace_href(slug: &str) -> (r: String)
    ensures
        r@ == if slug@.len() == 0 {
            "/dashboard"@
        } else {
            "/org/"@ + slug@ + "/vault"@
        },
{
    if chars_of(slug).len() == 0 {
        return owned("/dashboard");
    }
    let mut r = owned("/org/");
    push_str(&mut r, slug);
    push_str(&mut r, "/vault");
    r
}

/// The workspace path shown under its name: `/org/<slug>`, or a stand-in
/// (`placeholder`) when no workspace is addressed.
pub fn workspace_path_label(slug: &str, placeholder: &str) -> (r: String)
    ensures
        r@ == if slug@.len() == 0 {
            placeholder@
        } else {
            "/org/"@ + slug@
        },
{
    if chars_of(slug).len() == 0 {
        return owned(placeholder);
    }
    let mut r = owned("/org/");
    push_str(&mut r, slug);
    r
}

/// A link of the settings navigation.
pub struct SettingsNavItem {
    pub section: SettingsSection,
    pub href: String,
    pub label: &'static str,
    pub is_active: bool,
    /// No workspace is addressed, so the link goes nowhere useful.
    pub disabled: bool,
}

/// The settings navigation: every section in order, linked under the slug,
/// the current one marked.
pub fn settings_nav_items(slug: &str, active: SettingsSection) -> (r: Vec<SettingsNavItem>)
    ensures
        r@.len() == all_sections().len(),
        forall|i: int|
            0 <= i < r@.len() ==> {
                let s = #[trigger] all_sections()[i];
                &&& r@[i].section == s
                &&& r@[i].href@ == section_href(s, slug@)
                &&& r@[i].label@ == section_label(s)
                &&& r@[i].is_active == (s == active)
                &&& r@[i].disabled == (slug@.len() == 0)
            },
{
    let all = SettingsSection::all();
    let disabled = chars_of(slug).len() == 0;
    let mut r: Vec<SettingsNavItem> = Vec::new();
    let mut i: usize = 0;
    while i < all.len()
        invariant
            i <= all@.len(),
            all@ == all_sections(),
            disabled == (slug@.len() == 0),
            r@.len() == i,
            forall|j: int|
                0 <= j < i ==> {
                    let s = #[trigger] all_sections()[j];
                    &&& r@[j].section == s
                    &&& r@[j].href@ == section_href(s, slug@)
                    &&& r@[j].label@ == section_label(s)
                    &&& r@[j].is_active == (s == active)
                    &&& r@[j].disabled == (slug@.len() == 0)
                },
        decreases all@.len() - i,
    {
        let s = all[i];
        r.push(
            SettingsNavItem {
                section: s,
                href: s.href(slug),
                label: s.label(),
                is_active: s == active,
                disabled,
            },
        );
        i += 1;
    }
    r
}

/// The rename request of the general page: the slug and the trimmed name, or
/// the error shown when either is empty.
pub fn workspace_rename_request(slug: &str, name: &str) -> (r: Result<(String, String), String>)
    ensures
        (slug@.len() == 0 || trim(name@).len() == 0) ==> (r matches Err(e) && e@
            == "workspace name is required"@),
        !(slug@.len() == 0 || trim(name@).len() == 0) ==> (r matches Ok(p) && p.0@ == slug@
            && p.1@ == trim(name@)),
{
    let n = trimmed_string(name);
    if chars_of(slug).len() == 0 || chars_of(n.as_str()).len() == 0 {
        return Err(owned("workspace name is required"));
    }
    Ok((owned(slug), n))
}

/// Whether the save button of the general page is enabled.
pub fn workspace_rename_enabled(pending: bool, name: &str) -> (r: bool)
    ensures
        r == (!pending && trim(name@).len() > 0),
{
    !pending && chars_of(trimmed_string(name).as_str()).len() > 0
}

/// The workspace the settings pages address: the route's slug when it is not
/// blank, else the one in the router's path, else the one in the browser's.
pub open spec fn settings_page_slug_spec(
    route_slug: Option<Seq<char>>,
    router_path: Seq<char>,
    browser_path: Seq<char>,
) -> Seq<char> {
    match route_slug {
        Some(s) => if trim(s).len() > 0 {
            trim(s)
        } else if settings_slug(router_path).len() > 0 {
            settings_slug(router_path)
        } else {
            settings_slug(browser_path)
        },
        None => if settings_slug(router_path).len() > 0 {
            settings_slug(router_path)
        } else {
            settings_slug(browser_path)
        },
    }
}

pub fn settings_page_slug(route_slug: Option<&str>, router_path: &str, browser_path: &str) -> (r:
    String)
    ensures
        r@ == settings_page_slug_spec(
            match route_slug {
                Some(s) => Some(s@),
                None => None,
            },
            router_path@,
            browser_path@,
        ),
{
    match route_slug {
        Some(s) => {
            let t = trimmed_string(s);
            if chars_of(t.as_str()).len() > 0 {
                return t;
            }
        },
        None => {},
    }
    let from_router = slug_from_settings_pathname(router_path);
    if chars_of(from_router.as_str()).len() > 0 {
        return from_router;
    }
    slug_from_settings_pathname(browser_path)
}

/// The settings section a path shows; General when it names none.
pub fn active_settings_section(path: &str) -> (r: SettingsSection)
    ensures
        r == match section_of_path(path@) {
            Some(s) => s,
            None => SettingsSection::General,
        },
{
    match SettingsSection::from_path(path) {
        Some(s) => s,
        None => SettingsSection::General,
    }
}

/// Where the bare settings address leads: the general section of the
/// addressed workspace; nowhere while no workspace is addressed.
pub fn settings_index_redirect(slug: &str) -> (r: Option<String>)
    ensures
        slug@.len() == 0 ==> r is None,
        slug@.len() > 0 ==> opt_is(r, section_href(SettingsSection::General, slug@)),
{
    if chars_of(slug).len() == 0 {
        return None;
    }
    Some(SettingsSection::General.href(slug))
}

} // verus!
