//! Decisions of the workspace list: the slug suggested for a new workspace,
//! when the create form may be sent, and what each workspace card links to.

use vstd::prelude::*;

use crate::access::{has_permission, text_in};
use crate::contracts::{OrganizationCreateRequest, OrganizationSummary, SessionView};
use crate::labels::{alnum_chars, initials_of, org_monogram, short_id_label, short_id_spec};
use crate::requests::string_views;
use crate::text::{
    char_lower, chars_of, find_char, index_of, is_digit, is_lower, is_upper, is_ws,
    lemma_index_of, lower, opt_text, owned, push_str, str_eq, string_of, string_of_range, trim, trim_end, trim_end_char, trim_end_char_range,
    trim_range, trim_start, trim_start_char, trim_start_char_range, trimmed_chars,
};
use crate::validation::{utf8_len, utf8_len_below};

verus! {

// ---------------------------------------------------------------------------
// Slug suggested from a workspace name
// ---------------------------------------------------------------------------

/// `char::is_ascii_alphanumeric`.
pub open spec fn is_ascii_alnum(c: char) -> bool {
    is_digit(c) || is_lower(c) || is_upper(c)
}

pub fn char_is_ascii_alnum(c: char) -> (r: bool)
    ensures
        r == is_ascii_alnum(c),
{
    ('0' <= c && c <= '9') || ('a' <= c && c <= 'z') || ('A' <= c && c <= 'Z')
}

/// What the slug builder holds after reading `s`: the characters kept so far,
/// and whether the last of them is a dash that it put in.
pub open spec fn slug_fold(s: Seq<char>) -> (Seq<char>, bool)
    decreases s.len(),
{
    if s.len() == 0 {
        (Seq::empty(), false)
    } else {
        let prev = slug_fold(s.drop_last());
        let c = lower(s.last());
        if is_ascii_alnum(c) {
            (prev.0.push(c), false)
        } else if !prev.1 && prev.0.len() > 0 {
            (prev.0.push('-'), true)
        } else {
            prev
        }
    }
}

/// The first `n` characters of `s` (all of them when there are fewer).
pub open spec fn first_n(s: Seq<char>, n: nat) -> Seq<char> {
    if s.len() <= n {
        s
    } else {
        s.subrange(0, n as int)
    }
}

/// The slug suggested for a workspace name: the trimmed name lowercased, its
/// letters and digits kept, each run of other characters after the first kept
/// one turned into one dash, dashes trimmed from both ends, and the first 48
/// characters of that.
pub open spec fn derived_slug(raw: Seq<char>) -> Seq<char> {
    first_n(trim_end_char(trim_start_char(slug_fold(trim(raw)).0, '-'), '-'), 48)
}

/// Suggests the slug of a workspace from its name, as the create form does
/// while the slug field has not been edited by hand (and on every edit of it).
pub fn derive_slug(raw: &str) -> (r: String)
    ensures
        r@ == derived_slug(raw@),
{
    let t = trimmed_chars(raw);
    let mut out: Vec<char> = Vec::new();
    let mut prev_dash = false;
    let mut i: usize = 0;
    while i < t.len()
        invariant
            i <= t@.len(),
            (out@, prev_dash) == slug_fold(t@.subrange(0, i as int)),
        decreases t@.len() - i,
    {
        proof {
            assert(t@.subrange(0, i + 1).drop_last() =~= t@.subrange(0, i as int));
        }
        let c = char_lower(t[i]);
        if char_is_ascii_alnum(c) {
            out.push(c);
            prev_dash = false;
        } else if !prev_dash && out.len() > 0 {
            out.push('-');
            prev_dash = true;
        }
        i += 1;
    }
    proof {
        assert(t@.subrange(0, t@.len() as int) =~= t@);
    }
    let n = out.len();
    let a = trim_start_char_range(&out, 0, n, '-');
    let b = trim_end_char_range(&out, a, n, '-');
    proof {
        assert(out@.subrange(0, n as int) =~= out@);
    }
    let end = if b - a <= 48 {
        b
    } else {
        a + 48
    };
    proof {
        let u = out@.subrange(a as int, b as int);
        if b - a > 48 {
            assert(u.subrange(0, 48) =~= out@.subrange(a as int, end as int));
        }
    }
    string_of_range(&out, a, end)
}

/// A character a suggested slug may hold.
pub open spec fn is_slug_char(c: char) -> bool {
    is_digit(c) || is_lower(c) || c == '-'
}

/// Lowercase letters, digits and dashes; no dash first; no two dashes in a row.
pub open spec fn slug_shaped(s: Seq<char>) -> bool {
    &&& forall|i: int| 0 <= i < s.len() ==> is_slug_char(#[trigger] s[i])
    &&& s.len() > 0 ==> s[0] != '-'
    &&& forall|i: int, j: int|
        0 <= i && j == i + 1 && j < s.len() ==> !(#[trigger] s[i] == '-' && #[trigger] s[j]
            == '-')
}

proof fn lemma_lower_is_not_upper(c: char)
    ensures
        !is_upper(lower(c)),
        is_ascii_alnum(lower(c)) ==> is_digit(lower(c)) || is_lower(lower(c)),
        !is_upper(c) ==> lower(c) == c,
{
}

/// A prefix of a slug-shaped text is slug-shaped.
proof fn lemma_slug_prefix(s: Seq<char>, k: int)
    requires
        slug_shaped(s),
        0 <= k <= s.len(),
    ensures
        slug_shaped(s.subrange(0, k)),
{
    let p = s.subrange(0, k);
    assert forall|i: int| 0 <= i < p.len() implies is_slug_char(#[trigger] p[i]) by {
        assert(p[i] == s[i]);
    }
    assert forall|i: int, j: int| 0 <= i && j == i + 1 && j < p.len() implies !(#[trigger] p[i]
        == '-' && #[trigger] p[j] == '-') by {
        assert(p[i] == s[i] && p[j] == s[j]);
    }
    if p.len() > 0 {
        assert(p[0] == s[0]);
    }
}

/// What the builder keeps is slug-shaped, and its flag says whether it ends in a dash.
proof fn lemma_slug_fold_shape(s: Seq<char>)
    ensures
        slug_shaped(slug_fold(s).0),
        slug_fold(s).1 == (slug_fold(s).0.len() > 0 && slug_fold(s).0.last() == '-'),
    decreases s.len(),
{
    if s.len() > 0 {
        lemma_slug_fold_shape(s.drop_last());
        let prev = slug_fold(s.drop_last());
        let c = lower(s.last());
        lemma_lower_is_not_upper(s.last());
        if is_ascii_alnum(c) {
            lemma_push_shape(prev.0, c);
        } else if !prev.1 && prev.0.len() > 0 {
            lemma_push_shape(prev.0, '-');
        }
    }
}

proof fn lemma_push_shape(s: Seq<char>, c: char)
    requires
        slug_shaped(s),
        is_slug_char(c),
        c == '-' ==> s.len() > 0 && s.last() != '-',
    ensures
        slug_shaped(s.push(c)),
{
    let t = s.push(c);
    assert forall|i: int| 0 <= i < t.len() implies is_slug_char(#[trigger] t[i]) by {
        if i < s.len() {
            assert(t[i] == s[i]);
        }
    }
    assert forall|i: int, j: int| 0 <= i && j == i + 1 && j < t.len() implies !(#[trigger] t[i]
        == '-' && #[trigger] t[j] == '-') by {
        if j < s.len() {
            assert(t[i] == s[i] && t[j] == s[j]);
        } else {
            assert(t[i] == s.last());
        }
    }
    if s.len() > 0 {
        assert(t[0] == s[0]);
    }
}

/// Trimming dashes from a slug-shaped text drops at most its last character.
proof fn lemma_trim_dashes_shape(s: Seq<char>)
    requires
        slug_shaped(s),
    ensures
        trim_start_char(s, '-') == s,
        trim_end_char(s, '-') == (if s.len() > 0 && s.last() == '-' {
            s.drop_last()
        } else {
            s
        }),
{
    if s.len() > 0 && s.last() == '-' {
        let p = s.drop_last();
        if p.len() > 0 {
            assert(s[p.len() - 1] == p.last());
            assert(!(s[p.len() - 1] == '-' && s[p.len() as int] == '-'));
        }
        assert(trim_end_char(p, '-') == p);
    }
}

/// Every suggested slug is at most 48 characters of lowercase letters, digits
/// and single dashes, and does not start with a dash.
pub proof fn derived_slug_is_url_safe(raw: Seq<char>)
    ensures
        slug_shaped(derived_slug(raw)),
        derived_slug(raw).len() <= 48,
{
    let out = slug_fold(trim(raw)).0;
    lemma_slug_fold_shape(trim(raw));
    lemma_trim_dashes_shape(out);
    let u = trim_end_char(trim_start_char(out, '-'), '-');
    if out.len() > 0 && out.last() == '-' {
        lemma_slug_prefix(out, out.len() - 1);
        assert(out.drop_last() =~= out.subrange(0, out.len() - 1));
    }
    assert(slug_shaped(u));
    if u.len() > 48 {
        lemma_slug_prefix(u, 48);
    }
}

/// The builder reads a slug-shaped text back unchanged.
proof fn lemma_slug_fold_keeps(s: Seq<char>)
    requires
        slug_shaped(s),
    ensures
        slug_fold(s) == (s, s.len() > 0 && s.last() == '-'),
    decreases s.len(),
{
    if s.len() > 0 {
        let p = s.drop_last();
        lemma_slug_prefix(s, s.len() - 1);
        assert(p =~= s.subrange(0, s.len() - 1));
        lemma_slug_fold_keeps(p);
        let c = s.last();
        assert(is_slug_char(s[s.len() - 1]));
        lemma_lower_is_not_upper(c);
        if c == '-' {
            assert(s[0] != '-');
            assert(p.len() > 0);
            assert(!(s[p.len() - 1] == '-' && s[p.len() as int] == '-'));
            assert(p.last() == s[p.len() - 1]);
        }
        assert(p.push(c) =~= s);
    }
}

/// A slug typed in the right shape (at most 48 characters, not ending in a
/// dash) is kept as it is.
pub proof fn well_formed_slug_is_kept(s: Seq<char>)
    requires
        slug_shaped(s),
        s.len() <= 48,
        s.len() > 0 ==> s.last() != '-',
    ensures
        derived_slug(s) == s,
{
    if s.len() > 0 {
        assert(is_slug_char(s[0]));
        assert(is_slug_char(s[s.len() - 1]));
        assert(!is_ws(s[0]));
        assert(!is_ws(s.last()));
    }
    assert(trim_start(s) == s);
    assert(trim_end(s) == s);
    lemma_slug_fold_keeps(s);
    lemma_trim_dashes_shape(s);
}

// ---------------------------------------------------------------------------
// The create form
// ---------------------------------------------------------------------------

/// The request the create form sends: the trimmed name and slug, when the
/// name is not blank and the slug is at least two bytes long; `None` while
/// the button stays disabled.
pub fn organization_create_request(name: &str, slug: &str) -> (r: Option<
    OrganizationCreateRequest,
>)
    ensures
        r is Some <==> (trim(name@).len() > 0 && utf8_len(trim(slug@)) >= 2),
        r matches Some(req) ==> req.name@ == trim(name@) && req.slug@ == trim(slug@),
{
    let n = trimmed_chars(name);
    let s = trimmed_chars(slug);
    if n.len() == 0 || utf8_len_below(&s, 2) {
        return None;
    }
    Some(OrganizationCreateRequest { name: string_of(&n), slug: string_of(&s) })
}

// ---------------------------------------------------------------------------
// The selected workspace and its links
// ---------------------------------------------------------------------------

/// The session's workspace, unless it is blank.
pub open spec fn active_tenant_spec(tenant_id: Option<Seq<char>>) -> Option<Seq<char>> {
    match tenant_id {
        Some(t) => if trim(t).len() > 0 {
            Some(t)
        } else {
            None
        },
        None => None,
    }
}

pub fn active_tenant(tenant_id: &Option<String>) -> (r: Option<String>)
    ensures
        opt_text(r) == active_tenant_spec(opt_text(*tenant_id)),
{
    match tenant_id {
        Some(t) => {
            let v = trimmed_chars(t.as_str());
            if v.len() > 0 {
                Some(owned(t.as_str()))
            } else {
                None
            }
        },
        None => None,
    }
}

/// The line above the workspace links.
pub fn active_tenant_label(tenant_id: &Option<String>) -> (r: String)
    ensures
        r@ == match active_tenant_spec(opt_text(*tenant_id)) {
            Some(id) => "Active \u{b7} "@ + short_id_spec(id),
            None => "Select an organization to unlock management"@,
        },
{
    match active_tenant(tenant_id) {
        Some(id) => {
            let mut r = owned("Active \u{b7} ");
            let short = short_id_label(id.as_str());
            push_str(&mut r, short.as_str());
            r
        },
        None => owned("Select an organization to unlock management"),
    }
}

/// Whether a workspace card is the session's workspace.
pub fn organization_is_active(tenant_id: &Option<String>, organization_id: &str) -> (r: bool)
    ensures
        r == (active_tenant_spec(opt_text(*tenant_id)) == Some(organization_id@)),
{
    match active_tenant(tenant_id) {
        Some(id) => str_eq(id.as_str(), organization_id),
        None => false,
    }
}

/// Where a workspace card's vault link goes.
pub fn organization_vault_href(slug: &str) -> (r: String)
    ensures
        r@ == if slug@.len() == 0 {
            "/account/vault"@
        } else {
            "/org/"@ + slug@ + "/vault"@
        },
{
    let v = chars_of(slug);
    if v.len() == 0 {
        return owned("/account/vault");
    }
    let mut r = owned("/org/");
    push_str(&mut r, slug);
    push_str(&mut r, "/vault");
    r
}

/// The label and target of each link.
pub open spec fn link_views(v: Seq<(String, String)>) -> Seq<(Seq<char>, Seq<char>)> {
    v.map_values(|p: (String, String)| (p.0@, p.1@))
}

fn push_link(v: &mut Vec<(String, String)>, label: &str, href: &str)
    ensures
        link_views(final(v)@) == link_views(old(v)@).push((label@, href@)),
{
    let ghost before = v@;
    v.push((owned(label), owned(href)));
    proof {
        assert(link_views(v@) =~= link_views(before).push((label@, href@)));
    }
}

/// The workspace management links for the given permissions.
pub open spec fn context_links_spec(settings: bool, members: bool, roles: bool, audit: bool) -> Seq<
    (Seq<char>, Seq<char>),
> {
    seq![("Vault"@, "/account/vault"@)] + (if settings {
        seq![("Settings"@, "/organizations/settings"@)]
    } else {
        Seq::empty()
    }) + (if members {
        seq![("Members"@, "/organizations/members"@), ("Invitations"@, "/organizations/invitations"@)]
    } else {
        Seq::empty()
    }) + (if roles {
        seq![("Roles"@, "/organizations/roles"@), ("Permissions"@, "/organizations/permissions"@)]
    } else {
        Seq::empty()
    }) + (if audit {
        seq![("Audit"@, "/organizations/audit"@)]
    } else {
        Seq::empty()
    })
}

/// The links of the selected-workspace bar: shown to a signed-in session that
/// may update the workspace or view its members, roles or audit log, each
/// link only with its permission (the vault link always).
pub fn organization_context_links(session: &SessionView) -> (r: Vec<(String, String)>)
    ensures
        ({
            let p = session.permissions@;
            let settings = text_in(p, "organization.update"@);
            let members = text_in(p, "member.view"@);
            let roles = text_in(p, "role.view"@);
            let audit = text_in(p, "audit.view"@);
            link_views(r@) == if session.authenticated && (settings || members || roles || audit) {
                context_links_spec(settings, members, roles, audit)
            } else {
                Seq::empty()
            }
        }),
{
    let mut r: Vec<(String, String)> = Vec::new();
    proof {
        assert(link_views(r@) =~= Seq::empty());
    }
    if !session.authenticated {
        return r;
    }
    let settings = has_permission(session, "organization.update");
    let members = has_permission(session, "member.view");
    let roles = has_permission(session, "role.view");
    let audit = has_permission(session, "audit.view");
    if !(settings || members || roles || audit) {
        return r;
    }
    push_link(&mut r, "Vault", "/account/vault");
    if settings {
        push_link(&mut r, "Settings", "/organizations/settings");
    }
    if members {
        push_link(&mut r, "Members", "/organizations/members");
        push_link(&mut r, "Invitations", "/organizations/invitations");
    }
    if roles {
        push_link(&mut r, "Roles", "/organizations/roles");
        push_link(&mut r, "Permissions", "/organizations/permissions");
    }
    if audit {
        push_link(&mut r, "Audit", "/organizations/audit");
    }
    proof {
        assert(link_views(r@) =~= context_links_spec(settings, members, roles, audit));
    }
    r
}

// ---------------------------------------------------------------------------
// The workspace switcher of the sidebar
// ---------------------------------------------------------------------------

/// The first listed workspace with the id.
pub open spec fn find_org(orgs: Seq<OrganizationSummary>, id: Seq<char>) -> Option<OrganizationSummary>
    decreases orgs.len(),
{
    if orgs.len() == 0 {
        None
    } else if orgs[0].organization_id@ == id {
        Some(orgs[0])
    } else {
        find_org(orgs.drop_first(), id)
    }
}

/// The session's workspace among the listed ones.
pub open spec fn switcher_active(tenant_id: Option<Seq<char>>, orgs: Seq<OrganizationSummary>) -> Option<
    OrganizationSummary,
> {
    match active_tenant_spec(tenant_id) {
        Some(id) => find_org(orgs, id),
        None => None,
    }
}

/// What the switcher's closed button shows and where its vault link goes.
pub struct SwitcherSummary {
    pub label: String,
    pub monogram: String,
    pub vault_href: String,
}

fn find_org_index(orgs: &Vec<OrganizationSummary>, id: &str) -> (r: Option<usize>)
    ensures
        match r {
            Some(i) => i < orgs@.len() && find_org(orgs@, id@) == Some(orgs@[i as int]),
            None => find_org(orgs@, id@) is None,
        },
{
    let mut i: usize = 0;
    proof {
        assert(orgs@.subrange(0, orgs@.len() as int) =~= orgs@);
    }
    while i < orgs.len()
        invariant
            i <= orgs@.len(),
            find_org(orgs@, id@) == find_org(orgs@.subrange(i as int, orgs@.len() as int), id@),
        decreases orgs@.len() - i,
    {
        let ghost rest = orgs@.subrange(i as int, orgs@.len() as int);
        proof {
            assert(rest.drop_first() =~= orgs@.subrange(i + 1, orgs@.len() as int));
            assert(rest[0] == orgs@[i as int]);
        }
        if str_eq(orgs[i].organization_id.as_str(), id) {
            return Some(i);
        }
        i += 1;
    }
    None
}

/// The switcher's summary: the session's workspace by name, monogram and
/// vault; without one, "No workspace" or "Select workspace", the monogram
/// `W`, and the workspace list.
pub fn org_switcher_summary(tenant_id: &Option<String>, orgs: &Vec<OrganizationSummary>) -> (r:
    SwitcherSummary)
    ensures
        match switcher_active(opt_text(*tenant_id), orgs@) {
            Some(o) => {
                &&& r.label@ == o.name@
                &&& r.monogram@ == initials_of(alnum_chars(o.name@))
                &&& r.vault_href@ == if o.slug@.len() == 0 {
                    "/account/vault"@
                } else {
                    "/org/"@ + o.slug@ + "/vault"@
                }
            },
            None => {
                &&& r.label@ == if orgs@.len() == 0 {
                    "No workspace"@
                } else {
                    "Select workspace"@
                }
                &&& r.monogram@ == "W"@
                &&& r.vault_href@ == "/organizations"@
            },
        },
{
    let found = match active_tenant(tenant_id) {
        Some(id) => find_org_index(orgs, id.as_str()),
        None => None,
    };
    match found {
        Some(i) => {
            let o = &orgs[i];
            SwitcherSummary {
                label: owned(o.name.as_str()),
                monogram: org_monogram(o.name.as_str()),
                vault_href: organization_vault_href(o.slug.as_str()),
            }
        },
        None => SwitcherSummary {
            label: if orgs.len() == 0 {
                owned("No workspace")
            } else {
                owned("Select workspace")
            },
            monogram: owned("W"),
            vault_href: owned("/organizations"),
        },
    }
}

/// The second line of a switcher row: "Active" for the session's workspace,
/// else its path (nothing without a slug).
pub fn org_switcher_row_line(is_active: bool, slug: &str) -> (r: String)
    ensures
        r@ == if is_active {
            "Active"@
        } else if slug@.len() == 0 {
            Seq::empty()
        } else {
            "/org/"@ + slug@
        },
{
    if is_active {
        return owned("Active");
    }
    if chars_of(slug).len() == 0 {
        return String::new();
    }
    let mut r = owned("/org/");
    push_str(&mut r, slug);
    r
}

// ---------------------------------------------------------------------------
// The permissions field of the role form
// ---------------------------------------------------------------------------

/// The permissions typed as a comma-separated list: each part trimmed, the
/// empty ones dropped.
pub open spec fn permission_list(s: Seq<char>) -> Seq<Seq<char>>
    decreases s.len(),
{
    let k = index_of(s, ',');
    let part = trim(s.subrange(0, k as int));
    let head = if part.len() > 0 {
        seq![part]
    } else {
        Seq::empty()
    };
    if k < s.len() {
        head + permission_list(s.subrange((k + 1) as int, s.len() as int))
    } else {
        head
    }
}

/// A trimmed part has no whitespace at its ends and holds nothing its source
/// did not.
proof fn lemma_trim_part(x: Seq<char>, c: char)
    ensures
        trim(x).len() > 0 ==> !is_ws(trim(x)[0]) && !is_ws(trim(x).last()),
        !x.contains(c) ==> !trim(x).contains(c),
{
    let t = trim_start(x);
    crate::text::lemma_trim_shape(x);
    crate::text::lemma_trim_shape(t);
    let u = trim_end(t);
    if u.len() > 0 {
        assert(u[0] == t[0]);
    }
    if !x.contains(c) && u.contains(c) {
        let j = choose|j: int| 0 <= j < u.len() && u[j] == c;
        assert(u[j] == t[j]);
        assert(t[j] == x[x.len() - t.len() + j]);
    }
}

/// A permission read from the list is never blank, holds no comma, and has
/// no whitespace at either end.
pub open spec fn clean_permission(p: Seq<char>) -> bool {
    p.len() > 0 && !p.contains(',') && !is_ws(p[0]) && !is_ws(p.last())
}

/// Every permission read from the comma-separated field is clean.
pub proof fn parsed_permissions_are_clean(s: Seq<char>)
    ensures
        forall|i: int|
            0 <= i < permission_list(s).len() ==> clean_permission(#[trigger] permission_list(s)[i]),
    decreases s.len(),
{
    let k = index_of(s, ',');
    lemma_index_of(s, ',');
    let x = s.subrange(0, k as int);
    let part = trim(x);
    assert(!x.contains(',')) by {
        if x.contains(',') {
            let j = choose|j: int| 0 <= j < x.len() && x[j] == ',';
            assert(s[j] == ',');
        }
    }
    lemma_trim_part(x, ',');
    let head = if part.len() > 0 {
        seq![part]
    } else {
        Seq::<Seq<char>>::empty()
    };
    if k < s.len() {
        let rest = s.subrange((k + 1) as int, s.len() as int);
        parsed_permissions_are_clean(rest);
        let l = permission_list(rest);
        assert forall|i: int| 0 <= i < (head + l).len() implies clean_permission(
            #[trigger] (head + l)[i],
        ) by {
            if i < head.len() {
                assert((head + l)[i] == part);
            } else {
                assert((head + l)[i] == l[i - head.len()]);
            }
        }
    } else {
        assert forall|i: int| 0 <= i < head.len() implies clean_permission(#[trigger] head[i]) by {
            assert(head[i] == part);
        }
    }
}

pub fn parse_permission_list(text: &str) -> (r: Vec<String>)
    ensures
        string_views(r@) == permission_list(text@),
{
    let v = chars_of(text);
    let n = v.len();
    let mut r: Vec<String> = Vec::new();
    let mut i: usize = 0;
    proof {
        assert(v@.subrange(0, n as int) =~= v@);
        assert(string_views(r@) =~= Seq::<Seq<char>>::empty());
    }
    loop
        invariant
            i <= n,
            n == v@.len(),
            v@ == text@,
            string_views(r@) + permission_list(v@.subrange(i as int, n as int)) == permission_list(v@),
        decreases n - i,
    {
        let ghost rest = v@.subrange(i as int, n as int);
        let k = find_char(&v, i, n, ',');
        proof {
            lemma_index_of(rest, ',');
        }
        let (a, b) = trim_range(&v, i, i + k);
        let ghost before = r@;
        proof {
            assert(rest.subrange(0, k as int) =~= v@.subrange(i as int, (i + k) as int));
        }
        if a < b {
            r.push(string_of_range(&v, a, b));
            proof {
                assert(string_views(r@) =~= string_views(before).push(v@.subrange(a as int, b as int)));
            }
        }
        proof {
            let part = trim(rest.subrange(0, k as int));
            let head = if part.len() > 0 {
                seq![part]
            } else {
                Seq::empty()
            };
            assert(string_views(r@) =~= string_views(before) + head);
        }
        if i + k >= n {
            proof {
                assert(permission_list(rest) == (if trim(rest.subrange(0, k as int)).len() > 0 {
                    seq![trim(rest.subrange(0, k as int))]
                } else {
                    Seq::<Seq<char>>::empty()
                }));
                assert(v@.subrange(n as int, n as int) =~= Seq::<char>::empty());
            }
            return r;
        }
        proof {
            assert(rest.subrange(k + 1, rest.len() as int) =~= v@.subrange(i + k + 1, n as int));
        }
        i = i + k + 1;
    }
}

} // verus!
