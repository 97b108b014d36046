//! Texts the interface derives from account and workspace data: role names,
//! short ids, initials and monograms, form messages and time labels.

use vstd::prelude::*;

use crate::contracts::{MembershipSummary, WorkspaceRoleOption};
use crate::text::{char_is_alphanumeric, char_is_ws, char_upper, chars_of, decimal, is_ws, opt_text, owned, push_char, push_decimal, push_range, range_has_char, range_starts_with, starts_with, str_eq, string_of, string_of_range, trim, trim_range, trimmed_chars, trimmed_string, unicode_alphanumeric, upper};
use crate::validation::{utf8_len, utf8_len_below};

verus! {

// ---------------------------------------------------------------------------
// Roles
// ---------------------------------------------------------------------------

/// The built-in name of a role id; other ids are shown as they are.
pub open spec fn role_name_spec(role_id: Seq<char>) -> Seq<char> {
    if role_id == "owner"@ {
        "Owner"@
    } else if role_id == "admin"@ {
        "Admin"@
    } else if role_id == "member"@ {
        "Member"@
    } else if role_id == "viewer"@ {
        "Viewer"@
    } else {
        role_id
    }
}

/// The label of a role id when no role catalog is at hand.
pub fn display_role_name(role_id: &str) -> (r: String)
    ensures
        r@ == role_name_spec(role_id@),
{
    if str_eq(role_id, "owner") {
        owned("Owner")
    } else if str_eq(role_id, "admin") {
        owned("Admin")
    } else if str_eq(role_id, "member") {
        owned("Member")
    } else if str_eq(role_id, "viewer") {
        owned("Viewer")
    } else {
        owned(role_id)
    }
}

/// Index of the first option for `role_id`.
pub open spec fn first_option(options: Seq<WorkspaceRoleOption>, role_id: Seq<char>, i: int) -> Option<
    int,
>
    decreases options.len() - i,
{
    if i < 0 || i >= options.len() {
        None
    } else if options[i].role_id@ == role_id {
        Some(i)
    } else {
        first_option(options, role_id, i + 1)
    }
}

/// The label of a role: the name the server gave its first option when that
/// name is not blank, else the built-in name.
pub open spec fn role_label_spec(role_id: Seq<char>, options: Seq<WorkspaceRoleOption>) -> Seq<char> {
    match first_option(options, role_id, 0) {
        Some(k) => if trim(options[k].name@).len() > 0 {
            options[k].name@
        } else {
            role_name_spec(role_id)
        },
        None => role_name_spec(role_id),
    }
}

pub fn role_label_from_options(role_id: &str, options: &[WorkspaceRoleOption]) -> (r: String)
    ensures
        r@ == role_label_spec(role_id@, options@),
{
    let mut i: usize = 0;
    while i < options.len()
        invariant
            i <= options@.len(),
            first_option(options@, role_id@, 0) == first_option(options@, role_id@, i as int),
        decreases options@.len() - i,
    {
        if str_eq(options[i].role_id.as_str(), role_id) {
            if trimmed_chars(options[i].name.as_str()).len() > 0 {
                return owned(options[i].name.as_str());
            }
            return display_role_name(role_id);
        }
        i += 1;
    }
    display_role_name(role_id)
}

// ---------------------------------------------------------------------------
// Short ids
// ---------------------------------------------------------------------------

/// An id shortened for tables: trimmed, and when longer than twelve UTF-8
/// bytes, its first six and last four characters around an ellipsis.
pub open spec fn short_id_spec(id: Seq<char>) -> Seq<char> {
    let t = trim(id);
    if utf8_len(t) <= 12 {
        t
    } else {
        let head = if t.len() < 6 {
            t
        } else {
            t.subrange(0, 6)
        };
        let tail = if t.len() < 4 {
            t
        } else {
            t.subrange(t.len() - 4, t.len() as int)
        };
        head + seq!['\u{2026}'] + tail
    }
}

pub fn short_id_label(id: &str) -> (r: String)
    ensures
        r@ == short_id_spec(id@),
{
    let t = trimmed_chars(id);
    if utf8_len_below(&t, 13) {
        return string_of(&t);
    }
    let n = t.len();
    let head_end = if n < 6 {
        n
    } else {
        6
    };
    let tail_start = if n < 4 {
        0
    } else {
        n - 4
    };
    let mut s = string_of_range(&t, 0, head_end);
    push_char(&mut s, '\u{2026}');
    push_range(&mut s, &t, tail_start, n);
    proof {
        assert(t@.subrange(0, n as int) == t@);
    }
    s
}

/// The cells of a member row: the address (a dash when blank), the role's
/// built-in name, the status and the shortened user id.
pub fn member_row_cells(member: &MembershipSummary) -> (r: (String, String, String, String))
    ensures
        r.0@ == (if trim(member.primary_email@).len() == 0 {
            "\u{2014}"@
        } else {
            member.primary_email@
        }),
        r.1@ == role_name_spec(member.role_id@),
        r.2@ == member.status@,
        r.3@ == short_id_spec(member.user_id@),
{
    let email = if trimmed_chars(member.primary_email.as_str()).len() == 0 {
        owned("\u{2014}")
    } else {
        owned(member.primary_email.as_str())
    };
    (
        email,
        display_role_name(member.role_id.as_str()),
        owned(member.status.as_str()),
        short_id_label(member.user_id.as_str()),
    )
}

// ---------------------------------------------------------------------------
// Form texts
// ---------------------------------------------------------------------------

/// A trimmed form value, or nothing when it is blank.
pub fn optional_text(value: String) -> (r: Option<String>)
    ensures
        match r {
            Some(v) => trim(value@).len() > 0 && v@ == trim(value@),
            None => trim(value@).len() == 0,
        },
{
    let v = trimmed_string(value.as_str());
    let n = chars_of(v.as_str()).len();
    if n == 0 {
        None
    } else {
        Some(v)
    }
}

/// `r` is the form outcome that the optional message `expected` describes.
pub open spec fn form_outcome(r: Result<(), String>, expected: Option<Seq<char>>) -> bool {
    match expected {
        None => r is Ok,
        Some(m) => r is Err && r->Err_0@ == m,
    }
}

/// The browser-side email check: present, and holding `@` and `.`.
pub open spec fn email_only_error(email: Seq<char>) -> Option<Seq<char>> {
    if trim(email).len() == 0 {
        Some("Email is required."@)
    } else if !email.contains('@') || !email.contains('.') {
        Some("Enter a valid email address."@)
    } else {
        None
    }
}

pub fn validate_email_only(email: &str) -> (r: Result<(), String>)
    ensures
        form_outcome(r, email_only_error(email@)),
{
    if trimmed_chars(email).len() == 0 {
        return Err(owned("Email is required."));
    }
    let v = chars_of(email);
    let n = v.len();
    proof {
        assert(v@.subrange(0, n as int) == v@);
    }
    if !range_has_char(&v, 0, n, '@') || !range_has_char(&v, 0, n, '.') {
        return Err(owned("Enter a valid email address."));
    }
    Ok(())
}

/// The browser-side sign-in check; registration also bounds the password to
/// 15 to 128 characters.
pub open spec fn login_form_error(email: Seq<char>, password: Seq<char>, register_mode: bool) -> Option<
    Seq<char>,
> {
    if email_only_error(email) is Some {
        email_only_error(email)
    } else if password.len() == 0 {
        Some("Password is required."@)
    } else if register_mode && !(15 <= password.len() <= 128) {
        Some("Password must contain 15 to 128 characters."@)
    } else {
        None
    }
}

pub fn validate_login_form(email: &str, password: &str, register_mode: bool) -> (r: Result<(), String>)
    ensures
        form_outcome(r, login_form_error(email@, password@, register_mode)),
{
    validate_email_only(email)?;
    let p = chars_of(password);
    if p.len() == 0 {
        return Err(owned("Password is required."));
    }
    if register_mode && !(15 <= p.len() && p.len() <= 128) {
        return Err(owned("Password must contain 15 to 128 characters."));
    }
    Ok(())
}

/// A server error as the interface shows it: without the server-function
/// prefix that the transport adds.
pub open spec fn server_error_spec(text: Seq<char>) -> Seq<char> {
    if starts_with(text, "error running server function: "@) {
        text.subrange(("error running server function: "@).len() as int, text.len() as int)
    } else {
        text
    }
}

pub fn server_error_text(text: &str) -> (r: String)
    ensures
        r@ == server_error_spec(text@),
{
    let v = chars_of(text);
    let n = v.len();
    proof {
        assert(v@.subrange(0, n as int) == v@);
    }
    let prefix = chars_of("error running server function: ");
    if range_starts_with(&v, 0, n, "error running server function: ") {
        string_of_range(&v, prefix.len(), n)
    } else {
        string_of(&v)
    }
}

/// The status line of a submitted action: accepted, the error's text, or
/// nothing while it has not run.
pub fn action_result_text(result: Option<Result<(), String>>) -> (r: String)
    ensures
        r@ == (match result {
            Some(Ok(_)) => "Request accepted"@,
            Some(Err(e)) => server_error_spec(e@),
            None => Seq::<char>::empty(),
        }),
{
    match result {
        Some(Ok(_)) => owned("Request accepted"),
        Some(Err(e)) => server_error_text(e.as_str()),
        None => String::new(),
    }
}

/// The error shown under the sign-in form: that of the registration result
/// in registration mode, else that of the login result.
pub fn selected_auth_error(
    register_mode: bool,
    login_result: Option<Result<(), String>>,
    register_result: Option<Result<(), String>>,
) -> (r: Option<String>)
    ensures
        match (if register_mode {
            register_result
        } else {
            login_result
        }) {
            Some(Err(e)) => r is Some && r->0@ == server_error_spec(e@),
            _ => r is None,
        },
{
    let selected = if register_mode {
        register_result
    } else {
        login_result
    };
    match selected {
        Some(Err(e)) => Some(server_error_text(e.as_str())),
        _ => None,
    }
}

// ---------------------------------------------------------------------------
// Time labels
// ---------------------------------------------------------------------------

/// The server-rendered stand-in for a date: a dash for zero, else `~year`
/// with the year counted in whole 365-day years since 1970.
pub open spec fn settings_time_placeholder(ms: u64) -> Seq<char> {
    if ms == 0 {
        "\u{2014}"@
    } else {
        "~"@ + decimal((1970 + (ms / 86400000) / 365) as nat)
    }
}

pub fn format_settings_timestamp_ms(ms: u64) -> (r: String)
    ensures
        r@ == settings_time_placeholder(ms),
{
    if ms == 0 {
        return owned("\u{2014}");
    }
    let days = ms / 86_400_000;
    let year = 1970 + days / 365;
    let mut s = owned("~");
    push_decimal(&mut s, year);
    s
}

pub fn format_settings_datetime_ms(ms: u64) -> (r: String)
    ensures
        r@ == settings_time_placeholder(ms),
{
    format_settings_timestamp_ms(ms)
}

/// A date rendered by the browser, with its fallbacks: a dash for zero, the
/// raw milliseconds when the rendering is missing or blank.
pub fn settings_time_label(ms: u64, rendered: Option<String>) -> (r: String)
    ensures
        r@ == (if ms == 0 {
            "\u{2014}"@
        } else {
            match rendered {
                Some(t) => if trim(t@).len() > 0 {
                    t@
                } else {
                    decimal(ms as nat)
                },
                None => decimal(ms as nat),
            }
        }),
{
    if ms == 0 {
        return owned("\u{2014}");
    }
    match rendered {
        Some(t) => {
            if trimmed_chars(t.as_str()).len() > 0 {
                return t;
            }
        },
        None => {},
    }
    let mut s = String::new();
    push_decimal(&mut s, ms);
    s
}


// ---------------------------------------------------------------------------
// Scanning words
// ---------------------------------------------------------------------------

/// The end of the word that starts at `i`: the first whitespace at or after
/// `i`, or the end.
pub open spec fn word_end(s: Seq<char>, i: int) -> int
    decreases s.len() - i,
{
    if i < 0 || i >= s.len() || is_ws(s[i]) {
        i
    } else {
        word_end(s, i + 1)
    }
}

/// The end of the whitespace run that starts at `i`.
pub open spec fn ws_end(s: Seq<char>, i: int) -> int
    decreases s.len() - i,
{
    if i < 0 || i >= s.len() || !is_ws(s[i]) {
        i
    } else {
        ws_end(s, i + 1)
    }
}

pub proof fn lemma_scan_ends(s: Seq<char>, i: int)
    requires
        0 <= i <= s.len(),
    ensures
        i <= word_end(s, i) <= s.len(),
        i <= ws_end(s, i) <= s.len(),
        word_end(s, i) == s.len() || is_ws(s[word_end(s, i)]),
        ws_end(s, i) == s.len() || !is_ws(s[ws_end(s, i)]),
        forall|k: int| i <= k < word_end(s, i) ==> !is_ws(#[trigger] s[k]),
        forall|k: int| i <= k < ws_end(s, i) ==> is_ws(#[trigger] s[k]),
    decreases s.len() - i,
{
    if i < s.len() {
        lemma_scan_ends(s, i + 1);
    }
}

/// Advances over the word at `i`.
pub(crate) fn skip_word(v: &Vec<char>, i: usize) -> (r: usize)
    requires
        i <= v@.len(),
    ensures
        r == word_end(v@, i as int),
{
    let mut k = i;
    while k < v.len() && !char_is_ws(v[k])
        invariant
            i <= k <= v@.len(),
            word_end(v@, i as int) == word_end(v@, k as int),
        decreases v@.len() - k,
    {
        k += 1;
    }
    k
}

/// Advances over the whitespace at `i`.
pub(crate) fn skip_ws(v: &Vec<char>, i: usize) -> (r: usize)
    requires
        i <= v@.len(),
    ensures
        r == ws_end(v@, i as int),
{
    let mut k = i;
    while k < v.len() && char_is_ws(v[k])
        invariant
            i <= k <= v@.len(),
            ws_end(v@, i as int) == ws_end(v@, k as int),
        decreases v@.len() - k,
    {
        k += 1;
    }
    k
}

// ---------------------------------------------------------------------------
// Initials and monograms
// ---------------------------------------------------------------------------

/// The alphanumeric characters of `s`, in order.
pub open spec fn alnum_chars(s: Seq<char>) -> Seq<char>
    decreases s.len(),
{
    if s.len() == 0 {
        Seq::empty()
    } else if unicode_alphanumeric(s.last()) {
        alnum_chars(s.drop_last()).push(s.last())
    } else {
        alnum_chars(s.drop_last())
    }
}

/// Up to two leading characters, ASCII-uppercased; `?` when there are none.
pub open spec fn initials_of(a: Seq<char>) -> Seq<char> {
    if a.len() >= 2 {
        seq![upper(a[0]), upper(a[1])]
    } else if a.len() == 1 {
        seq![upper(a[0])]
    } else {
        "?"@
    }
}

fn alnum_vec(v: &Vec<char>, from: usize, to: usize) -> (r: Vec<char>)
    requires
        from <= to <= v@.len(),
    ensures
        r@ == alnum_chars(v@.subrange(from as int, to as int)),
{
    let mut out: Vec<char> = Vec::new();
    let mut i = from;
    while i < to
        invariant
            from <= i <= to <= v@.len(),
            out@ == alnum_chars(v@.subrange(from as int, i as int)),
        decreases to - i,
    {
        proof {
            let p = v@.subrange(from as int, i + 1);
            assert(p.drop_last() == v@.subrange(from as int, i as int));
            assert(p.last() == v@[i as int]);
        }
        if char_is_alphanumeric(v[i]) {
            out.push(v[i]);
        }
        i += 1;
    }
    out
}

fn initials_string(a: &Vec<char>) -> (r: String)
    ensures
        r@ == initials_of(a@),
{
    let mut s = String::new();
    if a.len() >= 2 {
        push_char(&mut s, char_upper(a[0]));
        push_char(&mut s, char_upper(a[1]));
        proof {
            assert(s@ == seq![upper(a@[0]), upper(a@[1])]);
        }
        s
    } else if a.len() == 1 {
        push_char(&mut s, char_upper(a[0]));
        proof {
            assert(s@ == seq![upper(a@[0])]);
        }
        s
    } else {
        owned("?")
    }
}

/// The initials of an account: from the part of the address before `@`,
/// trimmed, its first two alphanumeric characters.
pub open spec fn account_initials_spec(email: Seq<char>) -> Seq<char> {
    initials_of(
        alnum_chars(trim(email.subrange(0, crate::text::index_of(email, '@') as int))),
    )
}

pub fn account_initials(email: &str) -> (r: String)
    ensures
        r@ == account_initials_spec(email@),
{
    let v = chars_of(email);
    let k = crate::text::find_char(&v, 0, v.len(), '@');
    proof {
        assert(v@.subrange(0, v@.len() as int) == v@);
        crate::text::lemma_index_of(v@, '@');
    }
    let (a, b) = trim_range(&v, 0, k);
    let al = alnum_vec(&v, a, b);
    initials_string(&al)
}

/// The monogram of a workspace: the first two alphanumeric characters of its
/// name.
pub fn org_monogram(name: &str) -> (r: String)
    ensures
        r@ == initials_of(alnum_chars(name@)),
{
    let v = chars_of(name);
    let n = v.len();
    proof {
        assert(v@.subrange(0, n as int) == v@);
    }
    let al = alnum_vec(&v, 0, n);
    initials_string(&al)
}

pub open spec fn upper_seq(s: Seq<char>) -> Seq<char> {
    s.map_values(|c: char| upper(c))
}

/// The initials shown for a profile: from the display name when it is not
/// blank (the first letters of its first two words, or its first two
/// characters when it is one word), else from the first and last names, else
/// from the address.
pub open spec fn profile_initials_spec(
    display_name: Seq<char>,
    first: Seq<char>,
    last: Seq<char>,
    email: Seq<char>,
) -> Seq<char> {
    let d = trim(display_name);
    if d.len() > 0 {
        let e = word_end(d, 0);
        if e < d.len() {
            seq![upper(d[0]), upper(d[ws_end(d, e)])]
        } else {
            upper_seq(
                if d.len() >= 2 {
                    d.subrange(0, 2)
                } else {
                    d
                },
            )
        }
    } else {
        let f = trim(first);
        let l = trim(last);
        if f.len() > 0 && l.len() > 0 {
            seq![upper(f[0]), upper(l[0])]
        } else if f.len() > 0 {
            seq![upper(f[0])]
        } else if l.len() > 0 {
            seq![upper(l[0])]
        } else {
            account_initials_spec(email)
        }
    }
}

pub fn profile_initials(display_name: &str, first: &str, last: &str, email: &str) -> (r: String)
    ensures
        r@ == profile_initials_spec(display_name@, first@, last@, email@),
{
    let d = trimmed_chars(display_name);
    let n = d.len();
    if n > 0 {
        proof {
            crate::text::lemma_trim_shape(crate::text::trim_start(display_name@));
            crate::text::lemma_trim_shape(display_name@);
            lemma_scan_ends(d@, 0);
        }
        let e = skip_word(&d, 0);
        let mut s = String::new();
        if e < n {
            let w = skip_ws(&d, e);
            proof {
                lemma_scan_ends(d@, e as int);
                if w == n {
                    assert(is_ws(d@[n - 1]));
                }
            }
            push_char(&mut s, char_upper(d[0]));
            push_char(&mut s, char_upper(d[w]));
            proof {
                assert(s@ == seq![upper(d@[0]), upper(d@[w as int])]);
            }
            return s;
        }
        let m = if n >= 2 {
            2
        } else {
            n
        };
        let mut i: usize = 0;
        while i < m
            invariant
                i <= m <= n,
                n == d@.len(),
                s@ == upper_seq(d@.subrange(0, i as int)),
            decreases m - i,
        {
            push_char(&mut s, char_upper(d[i]));
            proof {
                assert(upper_seq(d@.subrange(0, i + 1)) =~= upper_seq(d@.subrange(0, i as int)).push(
                    upper(d@[i as int]),
                ));
            }
            i += 1;
        }
        proof {
            if n < 2 {
                assert(d@.subrange(0, n as int) == d@);
            }
        }
        return s;
    }
    let f = trimmed_chars(first);
    let l = trimmed_chars(last);
    let mut s = String::new();
    if f.len() > 0 && l.len() > 0 {
        push_char(&mut s, char_upper(f[0]));
        push_char(&mut s, char_upper(l[0]));
        proof {
            assert(s@ == seq![upper(f@[0]), upper(l@[0])]);
        }
        s
    } else if f.len() > 0 {
        push_char(&mut s, char_upper(f[0]));
        proof {
            assert(s@ == seq![upper(f@[0])]);
        }
        s
    } else if l.len() > 0 {
        push_char(&mut s, char_upper(l[0]));
        proof {
            assert(s@ == seq![upper(l@[0])]);
        }
        s
    } else {
        account_initials(email)
    }
}

/// The tone hash of a workspace name: over its UTF-8 bytes, each step
/// multiplies by 33 and adds the byte, both wrapping at 2^32.
pub open spec fn tone_hash(bytes: Seq<u8>) -> nat
    decreases bytes.len(),
{
    if bytes.len() == 0 {
        0
    } else {
        ((tone_hash(bytes.drop_last()) * 33) % 0x1_0000_0000 + bytes.last() as nat) % 0x1_0000_0000
    }
}

/// Which of the six workspace tones a name gets.
pub fn org_tone_index(name: &str) -> (r: u8)
    ensures
        r as nat == tone_hash(vstd::utf8::encode_utf8(name@)) % 6,
{
    let bytes = name.as_bytes();
    let mut acc: u32 = 0;
    let mut i: usize = 0;
    while i < bytes.len()
        invariant
            i <= bytes@.len(),
            bytes@ == vstd::utf8::encode_utf8(name@),
            acc as nat == tone_hash(bytes@.subrange(0, i as int)),
        decreases bytes@.len() - i,
    {
        let b = bytes[i];
        let m = acc.wrapping_mul(33);
        let next = m.wrapping_add(b as u32);
        proof {
            let p = bytes@.subrange(0, i + 1);
            assert(p.drop_last() == bytes@.subrange(0, i as int));
            assert(p.last() == b);
            assert(m as nat == (acc as nat * 33) % 0x1_0000_0000);
            assert(next as nat == (m as nat + b as nat) % 0x1_0000_0000) by (nonlinear_arith)
                requires
                    next == (if m as int + b as int > u32::MAX {
                        (m as int + b as int - 0x1_0000_0000) as u32
                    } else {
                        (m as int + b as int) as u32
                    }),
                    b < 256,
            ;
        }
        acc = next;
        i += 1;
    }
    proof {
        assert(bytes@.subrange(0, bytes@.len() as int) == bytes@);
    }
    (acc % 6) as u8
}


// ---------------------------------------------------------------------------
// Provider marks
// ---------------------------------------------------------------------------

/// The monochrome mark of Google sign-in.
pub const GOOGLE_LOGO_SVG: &'static str = r#"<svg viewBox="0 0 24 24" width="28" height="28" xmlns="http://www.w3.org/2000/svg" fill="currentColor" aria-hidden="true"><path d="M21.35 11.1h-9.18v2.96h5.27c-.23 1.5-1.72 4.4-5.27 4.4-3.17 0-5.76-2.62-5.76-5.86s2.59-5.86 5.76-5.86c1.8 0 3.01.77 3.7 1.43l2.52-2.43C16.99 4.33 15.03 3.4 12.17 3.4 6.99 3.4 2.8 7.58 2.8 12.6s4.19 9.2 9.37 9.2c5.41 0 8.99-3.8 8.99-9.15 0-.61-.07-1.08-.16-1.55z"/></svg>"#;

/// The monochrome mark of Facebook sign-in.
pub const FACEBOOK_LOGO_SVG: &'static str = r#"<svg viewBox="0 0 24 24" width="28" height="28" xmlns="http://www.w3.org/2000/svg" fill="currentColor" aria-hidden="true"><path d="M13.5 22v-8.1h2.72l.41-3.17h-3.13V8.7c0-.92.25-1.54 1.57-1.54H16.8V4.32C16.4 4.27 15.2 4.16 13.8 4.16c-2.9 0-4.88 1.77-4.88 5.02v2.8H6.2v3.17h2.72V22h4.58z"/></svg>"#;

/// The monochrome mark of Apple sign-in.
pub const APPLE_LOGO_SVG: &'static str = r#"<svg viewBox="0 0 24 24" width="28" height="28" xmlns="http://www.w3.org/2000/svg" fill="currentColor" aria-hidden="true"><path d="M16.37 12.64c.02 2.3 2.02 3.07 2.04 3.08-.02.06-.32 1.1-1.05 2.18-.63.93-1.29 1.86-2.32 1.88-1.01.02-1.34-.6-2.5-.6-1.16 0-1.52.58-2.48.62-1 .04-1.76-.98-2.4-1.91-1.31-1.9-2.31-5.37-1-7.72.68-1.21 1.9-1.98 3.22-2 1-.02 1.95.68 2.5.68.55 0 1.8-.84 3.03-.71.52.02 1.97.21 2.9 1.58-.08.05-1.73 1.01-1.72 3.02zM14.9 6.5c.54-.66.91-1.57.81-2.48-.78.03-1.73.52-2.29 1.18-.5.58-.94 1.51-.82 2.4.87.07 1.76-.44 2.3-1.1z"/></svg>"#;

/// The mark shown for any other provider: a plain disc.
pub const GENERIC_LOGO_SVG: &'static str = r#"<svg viewBox="0 0 24 24" width="28" height="28" xmlns="http://www.w3.org/2000/svg" fill="currentColor" aria-hidden="true"><circle cx="12" cy="12" r="9"/></svg>"#;

pub open spec fn provider_logo_spec(provider_id: Seq<char>) -> Seq<char> {
    if provider_id == "google"@ {
        GOOGLE_LOGO_SVG@
    } else if provider_id == "facebook"@ {
        FACEBOOK_LOGO_SVG@
    } else if provider_id == "apple"@ {
        APPLE_LOGO_SVG@
    } else {
        GENERIC_LOGO_SVG@
    }
}

/// The mark of a sign-in provider as inline SVG.
pub fn provider_logo_svg(provider_id: &str) -> (r: String)
    ensures
        r@ == provider_logo_spec(provider_id@),
{
    if str_eq(provider_id, "google") {
        owned(GOOGLE_LOGO_SVG)
    } else if str_eq(provider_id, "facebook") {
        owned(FACEBOOK_LOGO_SVG)
    } else if str_eq(provider_id, "apple") {
        owned(APPLE_LOGO_SVG)
    } else {
        owned(GENERIC_LOGO_SVG)
    }
}

/// The account menu's name line: the email, else the user id, else "Signed in".
pub open spec fn user_menu_label_spec(primary_email: Option<Seq<char>>, user_id: Option<Seq<char>>) -> Seq<
    char,
> {
    match primary_email {
        Some(e) => e,
        None => match user_id {
            Some(u) => u,
            None => "Signed in"@,
        },
    }
}

/// The account menu's name line and the letter on its button: the first
/// character of the name, ASCII-uppercased, or `U` for an empty name.
pub fn user_menu_identity(primary_email: &Option<String>, user_id: &Option<String>) -> (r: (
    String,
    char,
))
    ensures
        r.0@ == user_menu_label_spec(opt_text(*primary_email), opt_text(*user_id)),
        r.1 == if r.0@.len() > 0 {
            upper(r.0@[0])
        } else {
            'U'
        },
{
    let label = match primary_email {
        Some(e) => owned(e.as_str()),
        None => match user_id {
            Some(u) => owned(u.as_str()),
            None => owned("Signed in"),
        },
    };
    let v = chars_of(label.as_str());
    let initial = if v.len() > 0 {
        char_upper(v[0])
    } else {
        'U'
    };
    (label, initial)
}

} // verus!
