//! Reading what the browser hands the interface: the query string of the
//! current page, links in captured mail, and the error texts of passkey
//! prompts.

use vstd::prelude::*;

use crate::labels::{lemma_scan_ends, skip_word, skip_ws, word_end, ws_end};
use crate::text::{chars_of, contains_seq, find_char, find_seq, index_of, lemma_index_of, lower_seq, lowercase_range, owned, range_contains, range_find, range_is, range_starts_with, starts_with, string_of, string_of_range, trim, trim_range, trim_start_char, trim_start_char_range};
use crate::urls::{
    development_callback_url_spec, encode_byte, hex_char_spec_is_hex, percent_decode_bytes,
    percent_decode_component, percent_encode, unreserved, utf8_lossy,
};

verus! {

// ---------------------------------------------------------------------------
// Query strings
// ---------------------------------------------------------------------------

/// The query of a `location.search` text: without its leading `?`s.
pub open spec fn query_of(search: Seq<char>) -> Seq<char> {
    trim_start_char(search, '?')
}

/// The remainder after `prefix` of the first `&`-separated part of `q` that
/// starts with it.
pub open spec fn first_with_prefix(q: Seq<char>, prefix: Seq<char>) -> Option<Seq<char>>
    decreases q.len(),
{
    let e = index_of(q, '&');
    let part = q.subrange(0, e as int);
    if starts_with(part, prefix) {
        Some(part.subrange(prefix.len() as int, part.len() as int))
    } else if e < q.len() {
        first_with_prefix(q.subrange(e as int + 1, q.len() as int), prefix)
    } else {
        None
    }
}

/// Finds `first_with_prefix(v[from..to], prefix)`.
fn part_with_prefix(v: &Vec<char>, from: usize, to: usize, prefix: &str) -> (r: Option<String>)
    requires
        from <= to <= v@.len(),
    ensures
        match r {
            Some(t) => first_with_prefix(v@.subrange(from as int, to as int), prefix@) == Some(t@),
            None => first_with_prefix(v@.subrange(from as int, to as int), prefix@) is None,
        },
{
    let plen = chars_of(prefix).len();
    let mut i = from;
    loop
        invariant
            from <= i <= to <= v@.len(),
            plen == prefix@.len(),
            first_with_prefix(v@.subrange(from as int, to as int), prefix@) == first_with_prefix(
                v@.subrange(i as int, to as int),
                prefix@,
            ),
        decreases to - i,
    {
        let ghost q = v@.subrange(i as int, to as int);
        let e = find_char(v, i, to, '&');
        proof {
            lemma_index_of(q, '&');
            assert(q.subrange(0, e as int) == v@.subrange(i as int, i + e));
        }
        if range_starts_with(v, i, i + e, prefix) {
            proof {
                let part = q.subrange(0, e as int);
                assert(part.subrange(plen as int, part.len() as int) == v@.subrange(
                    i + plen,
                    i + e,
                ));
            }
            return Some(string_of_range(v, i + plen, i + e));
        }
        if i + e < to {
            proof {
                assert(q.subrange(e as int + 1, q.len() as int) == v@.subrange(i + e + 1, to as int));
            }
            i = i + e + 1;
        } else {
            return None;
        }
    }
}

/// A part `new`, `new=`, or `new=` with `1`, `true`, `yes` or `on` in any
/// ASCII case: a bare key counts as `1`.
pub open spec fn new_flag_part(part: Seq<char>) -> bool {
    let k = index_of(part, '=');
    let key = part.subrange(0, k as int);
    let value = lower_seq(part.subrange(k as int + 1, part.len() as int));
    key == "new"@ && (k >= part.len() || value.len() == 0 || value == "1"@ || value == "true"@
        || value == "yes"@ || value == "on"@)
}

pub open spec fn has_new_flag(q: Seq<char>) -> bool
    decreases q.len(),
{
    let e = index_of(q, '&');
    new_flag_part(q.subrange(0, e as int)) || (e < q.len() && has_new_flag(
        q.subrange(e as int + 1, q.len() as int),
    ))
}

fn is_new_flag_part(v: &Vec<char>, from: usize, to: usize) -> (r: bool)
    requires
        from <= to <= v@.len(),
    ensures
        r == new_flag_part(v@.subrange(from as int, to as int)),
{
    let ghost part = v@.subrange(from as int, to as int);
    let k = find_char(v, from, to, '=');
    proof {
        lemma_index_of(part, '=');
        assert(part.subrange(0, k as int) == v@.subrange(from as int, from + k));
    }
    if !range_is(v, from, from + k, "new") {
        return false;
    }
    if from + k >= to {
        return true;
    }
    let value = lowercase_range(v, from + k + 1, to);
    proof {
        assert(part.subrange(k as int + 1, part.len() as int) == v@.subrange(from + k + 1, to as int));
    }
    let n = value.len();
    proof {
        assert(value@.subrange(0, n as int) == value@);
    }
    n == 0 || range_is(&value, 0, n, "1") || range_is(&value, 0, n, "true") || range_is(
        &value,
        0,
        n,
        "yes",
    ) || range_is(&value, 0, n, "on")
}

/// Whether the page was opened with the create-workspace intent (`new=1`,
/// `new=true`, a bare `new`, ...).
pub fn search_has_new(search: &str) -> (r: bool)
    ensures
        r == has_new_flag(query_of(search@)),
{
    let v = chars_of(search);
    let n = v.len();
    let start = trim_start_char_range(&v, 0, n, '?');
    proof {
        assert(v@.subrange(0, n as int) == v@);
    }
    let mut i = start;
    loop
        invariant
            start <= i <= n == v@.len(),
            has_new_flag(query_of(search@)) == has_new_flag(v@.subrange(i as int, n as int)),
        decreases n - i,
    {
        let ghost q = v@.subrange(i as int, n as int);
        let e = find_char(&v, i, n, '&');
        proof {
            lemma_index_of(q, '&');
            assert(q.subrange(0, e as int) == v@.subrange(i as int, i + e));
        }
        if is_new_flag_part(&v, i, i + e) {
            return true;
        }
        if i + e < n {
            proof {
                assert(q.subrange(e as int + 1, q.len() as int) == v@.subrange(i + e + 1, n as int));
            }
            i = i + e + 1;
        } else {
            return false;
        }
    }
}

/// The one-time token of the page: the value of its first `token=` part,
/// when that value is not blank.
pub open spec fn token_from_search_spec(search: Seq<char>) -> Option<Seq<char>> {
    match first_with_prefix(query_of(search), "token="@) {
        Some(t) => if trim(t).len() > 0 {
            Some(t)
        } else {
            None
        },
        None => None,
    }
}

pub fn one_time_token_from_search(search: &str) -> (r: Option<String>)
    ensures
        match r {
            Some(t) => token_from_search_spec(search@) == Some(t@),
            None => token_from_search_spec(search@) is None,
        },
{
    let v = chars_of(search);
    let n = v.len();
    let start = trim_start_char_range(&v, 0, n, '?');
    proof {
        assert(v@.subrange(0, n as int) == v@);
    }
    match part_with_prefix(&v, start, n, "token=") {
        Some(t) => {
            let c = chars_of(t.as_str());
            let (a, b) = trim_range(&c, 0, c.len());
            proof {
                assert(c@.subrange(0, c@.len() as int) == c@);
            }
            if a < b {
                Some(t)
            } else {
                None
            }
        },
        None => None,
    }
}

/// The text a percent-encoded component decodes to.
pub open spec fn decoded_component(v: Seq<char>) -> Seq<char> {
    utf8_lossy(percent_decode_bytes(vstd::utf8::encode_utf8(v)))
}

/// Where to go after signing in: the decoded value of the first `next=` part
/// when it is a local path other than a login page, else `/dashboard`.
pub open spec fn next_url_spec(search: Seq<char>) -> Seq<char> {
    match first_with_prefix(query_of(search), "next="@) {
        Some(encoded) => {
            let d = decoded_component(encoded);
            if starts_with(d, "/"@) && !starts_with(d, "//"@) && !starts_with(d, "/login"@) {
                d
            } else {
                "/dashboard"@
            }
        },
        None => "/dashboard"@,
    }
}

pub fn next_url_from_search(search: &str) -> (r: String)
    ensures
        r@ == next_url_spec(search@),
{
    let v = chars_of(search);
    let n = v.len();
    let start = trim_start_char_range(&v, 0, n, '?');
    proof {
        assert(v@.subrange(0, n as int) == v@);
    }
    match part_with_prefix(&v, start, n, "next=") {
        Some(encoded) => {
            let value = percent_decode_component(encoded.as_str());
            let d = chars_of(value.as_str());
            let dn = d.len();
            proof {
                assert(d@.subrange(0, dn as int) == d@);
            }
            if range_starts_with(&d, 0, dn, "/") && !range_starts_with(&d, 0, dn, "//")
                && !range_starts_with(&d, 0, dn, "/login") {
                value
            } else {
                owned("/dashboard")
            }
        },
        None => owned("/dashboard"),
    }
}

// ---------------------------------------------------------------------------
// Links in captured mail
// ---------------------------------------------------------------------------

pub open spec fn http_url_token(t: Seq<char>) -> bool {
    starts_with(t, "http://"@) || starts_with(t, "https://"@)
}

/// The first whitespace-separated word at or after `i` that starts with
/// `http://` or `https://`.
pub open spec fn first_url_from(s: Seq<char>, i: int) -> Option<Seq<char>>
    decreases s.len() - i,
{
    if i < 0 || i >= s.len() {
        None
    } else {
        let j = ws_end(s, i);
        if j >= s.len() {
            None
        } else {
            let e = word_end(s, j);
            let tok = s.subrange(j, e);
            if http_url_token(tok) {
                Some(tok)
            } else {
                proof {
                    lemma_scan_ends(s, i);
                    lemma_scan_ends(s, j);
                }
                first_url_from(s, e)
            }
        }
    }
}

/// The first link in a text. Line breaks are whitespace, so scanning the
/// lines in turn finds the same word as scanning the whole text.
pub fn first_http_url_in_text(text: &str) -> (r: Option<String>)
    ensures
        match r {
            Some(u) => first_url_from(text@, 0) == Some(u@),
            None => first_url_from(text@, 0) is None,
        },
{
    let v = chars_of(text);
    let n = v.len();
    let mut i: usize = 0;
    while i < n
        invariant
            i <= n == v@.len(),
            v@ == text@,
            first_url_from(text@, 0) == first_url_from(text@, i as int),
        decreases n - i,
    {
        proof {
            lemma_scan_ends(v@, i as int);
        }
        let j = skip_ws(&v, i);
        if j >= n {
            return None;
        }
        proof {
            lemma_scan_ends(v@, j as int);
        }
        let e = skip_word(&v, j);
        if range_starts_with(&v, j, e, "http://") || range_starts_with(&v, j, e, "https://") {
            return Some(string_of_range(&v, j, e));
        }
        i = e;
    }
    None
}


// ---------------------------------------------------------------------------
// Passkey prompt errors
// ---------------------------------------------------------------------------

/// `m` cut, and trimmed, before the first occurrence of `marker`.
pub open spec fn cut_at(m: Seq<char>, marker: Seq<char>) -> Seq<char> {
    match find_seq(m, marker) {
        Some(i) => trim(m.subrange(0, i)),
        None => m,
    }
}

/// The inside of a `JsValue(...)` rendering, trimmed.
pub open spec fn unwrap_js_value(m: Seq<char>) -> Seq<char> {
    if starts_with(m, "JsValue("@) && m.len() > ("JsValue("@).len() && m.last() == ')' {
        trim(m.subrange(("JsValue("@).len() as int, m.len() - 1))
    } else {
        m
    }
}

/// The text after a leading `Error: `, trimmed.
pub open spec fn strip_error_prefix(m: Seq<char>) -> Seq<char> {
    if starts_with(m, "Error: "@) {
        trim(m.subrange(("Error: "@).len() as int, m.len() as int))
    } else {
        m
    }
}

/// The message with stack frames and a repeated `Error:` payload removed.
pub open spec fn passkey_message_core(m: Seq<char>) -> Seq<char> {
    let m2 = strip_error_prefix(unwrap_js_value(m));
    let m3 = cut_at(
        cut_at(cut_at(m2, " at createPasskeyCredential"@), " at getPasskeyCredential"@),
        "\n    at "@,
    );
    cut_at(m3, " Error: "@)
}

/// The message says the prompt was dismissed, aborted or timed out.
pub open spec fn passkey_cancelled(m: Seq<char>) -> bool {
    let l = lower_seq(m);
    contains_seq(l, "notallowederror"@) || contains_seq(l, "aborterror"@) || contains_seq(
        l,
        "cancelled"@,
    ) || contains_seq(l, "canceled"@) || contains_seq(l, "timed out"@) || contains_seq(
        l,
        "the operation either timed out"@,
    ) || m == "PASSKEY_CANCELLED"@
}

/// The text shown for a failed passkey prompt.
pub open spec fn sanitize_passkey_spec(raw: Seq<char>) -> Seq<char> {
    let m0 = trim(raw);
    if m0.len() == 0 || m0 == "JsValue(undefined)"@ {
        "Passkey prompt was cancelled or unavailable."@
    } else {
        let m = passkey_message_core(m0);
        if passkey_cancelled(m) {
            "Passkey prompt was cancelled."@
        } else if starts_with(m, "JsValue("@) {
            "Passkey prompt was cancelled or unavailable."@
        } else {
            m
        }
    }
}

/// `v[from..to]` as a vector.
fn vec_of_range(v: &Vec<char>, from: usize, to: usize) -> (r: Vec<char>)
    requires
        from <= to <= v@.len(),
    ensures
        r@ == v@.subrange(from as int, to as int),
{
    let mut out: Vec<char> = Vec::new();
    let mut i = from;
    while i < to
        invariant
            from <= i <= to <= v@.len(),
            out@ == v@.subrange(from as int, i as int),
        decreases to - i,
    {
        out.push(v[i]);
        proof {
            assert(v@.subrange(from as int, i + 1) == v@.subrange(from as int, i as int).push(
                v@[i as int],
            ));
        }
        i += 1;
    }
    out
}

/// The trimmed characters of `v[from..to]`.
fn trimmed_range_vec(v: &Vec<char>, from: usize, to: usize) -> (r: Vec<char>)
    requires
        from <= to <= v@.len(),
    ensures
        r@ == trim(v@.subrange(from as int, to as int)),
{
    let (a, b) = trim_range(v, from, to);
    vec_of_range(v, a, b)
}

fn cut_vec(m: Vec<char>, marker: &str) -> (r: Vec<char>)
    ensures
        r@ == cut_at(m@, marker@),
{
    let n = m.len();
    proof {
        assert(m@.subrange(0, n as int) == m@);
    }
    match range_find(&m, 0, n, marker) {
        Some(i) => trimmed_range_vec(&m, 0, i),
        None => m,
    }
}

fn contains_lit(v: &Vec<char>, lit: &str) -> (r: bool)
    ensures
        r == contains_seq(v@, lit@),
{
    let n = v.len();
    proof {
        assert(v@.subrange(0, n as int) == v@);
    }
    range_contains(v, 0, n, lit)
}

fn vec_starts_with(v: &Vec<char>, lit: &str) -> (r: bool)
    ensures
        r == starts_with(v@, lit@),
{
    let n = v.len();
    proof {
        assert(v@.subrange(0, n as int) == v@);
    }
    range_starts_with(v, 0, n, lit)
}

fn vec_is(v: &Vec<char>, lit: &str) -> (r: bool)
    ensures
        r == (v@ == lit@),
{
    let n = v.len();
    proof {
        assert(v@.subrange(0, n as int) == v@);
    }
    range_is(v, 0, n, lit)
}

/// The text to show for a failed passkey prompt: browser and binding noise
/// removed, and dismissals reported as a cancelled prompt.
pub fn sanitize_passkey_client_error(raw: &str) -> (r: String)
    ensures
        r@ == sanitize_passkey_spec(raw@),
{
    let all = chars_of(raw);
    let n0 = all.len();
    proof {
        assert(all@.subrange(0, n0 as int) == all@);
    }
    let m0 = trimmed_range_vec(&all, 0, n0);
    if m0.len() == 0 || vec_is(&m0, "JsValue(undefined)") {
        return owned("Passkey prompt was cancelled or unavailable.");
    }
    let js_len = chars_of("JsValue(").len();
    let m1 = if vec_starts_with(&m0, "JsValue(") && m0.len() > js_len && m0[m0.len() - 1] == ')' {
        trimmed_range_vec(&m0, js_len, m0.len() - 1)
    } else {
        m0
    };
    let err_len = chars_of("Error: ").len();
    let m2 = if vec_starts_with(&m1, "Error: ") {
        trimmed_range_vec(&m1, err_len, m1.len())
    } else {
        m1
    };
    let m3 = cut_vec(m2, " at createPasskeyCredential");
    let m3 = cut_vec(m3, " at getPasskeyCredential");
    let m3 = cut_vec(m3, "\n    at ");
    let m = cut_vec(m3, " Error: ");
    let n = m.len();
    let lower = lowercase_range(&m, 0, n);
    proof {
        assert(m@.subrange(0, n as int) == m@);
    }
    if contains_lit(&lower, "notallowederror") || contains_lit(&lower, "aborterror")
        || contains_lit(&lower, "cancelled") || contains_lit(&lower, "canceled") || contains_lit(
        &lower,
        "timed out",
    ) || contains_lit(&lower, "the operation either timed out") || vec_is(
        &m,
        "PASSKEY_CANCELLED",
    ) {
        return owned("Passkey prompt was cancelled.");
    }
    if vec_starts_with(&m, "JsValue(") {
        return owned("Passkey prompt was cancelled or unavailable.");
    }
    string_of(&m)
}

/// The message reports a cancelled or idle passkey prompt.
pub open spec fn passkey_cancel_message(message: Seq<char>) -> bool {
    let l = lower_seq(message);
    contains_seq(l, "cancelled"@) || contains_seq(l, "canceled"@) || contains_seq(
        l,
        "passkey_cancelled"@,
    ) || contains_seq(l, "passkey_conditional_idle"@)
}

pub fn is_passkey_cancel_message(message: &str) -> (r: bool)
    ensures
        r == passkey_cancel_message(message@),
{
    let v = chars_of(message);
    let n = v.len();
    let lower = lowercase_range(&v, 0, n);
    proof {
        assert(v@.subrange(0, n as int) == v@);
    }
    contains_lit(&lower, "cancelled") || contains_lit(&lower, "canceled") || contains_lit(
        &lower,
        "passkey_cancelled",
    ) || contains_lit(&lower, "passkey_conditional_idle")
}


// ---------------------------------------------------------------------------
// Laws
// ---------------------------------------------------------------------------

/// Signing in never sends the browser off the site or back to a login page:
/// the target is always a local path (`/` but not `//`) outside `/login`.
pub proof fn next_url_stays_local(search: Seq<char>)
    ensures
        crate::validation::safe_redirect(next_url_spec(search)),
        !starts_with(next_url_spec(search), "/login"@),
{
    reveal_strlit("/dashboard");
    reveal_strlit("/");
    reveal_strlit("//");
    reveal_strlit("/login");
    let r = next_url_spec(search);
    if r == "/dashboard"@ {
        assert(r[1] == 'd');
        assert(r.subrange(0, 6) != "/login"@) by {
            assert(r.subrange(0, 6)[1] != ("/login"@)[1]);
        }
    } else {
        assert(starts_with(r, "/"@));
        assert(r[0] == ("/"@)[0]);
        if r.len() >= 2 && r[1] == '/' {
            assert(r.subrange(0, 2) =~= "//"@);
        }
    }
}

/// An occurrence of `p` in a slice of `s` is an occurrence in `s`.
proof fn lemma_absent_in_slice(s: Seq<char>, a: int, b: int, p: Seq<char>)
    requires
        0 <= a <= b <= s.len(),
        !contains_seq(s, p),
    ensures
        !contains_seq(s.subrange(a, b), p),
{
    let t = s.subrange(a, b);
    assert forall|j: int| !crate::text::occurs_at(t, p, j) by {
        if crate::text::occurs_at(t, p, j) {
            assert(t.subrange(j, j + p.len()) == s.subrange(a + j, a + j + p.len()));
            assert(crate::text::occurs_at(s, p, a + j));
        }
    }
}

/// Trimming takes a slice.
proof fn lemma_trim_is_slice(s: Seq<char>, p: Seq<char>)
    requires
        !contains_seq(s, p),
    ensures
        !contains_seq(trim(s), p),
{
    crate::text::lemma_trim_shape(s);
    let ts = crate::text::trim_start(s);
    crate::text::lemma_trim_shape(ts);
    lemma_absent_in_slice(s, s.len() - ts.len(), s.len() as int, p);
    lemma_absent_in_slice(ts, 0, trim(s).len() as int, p);
}

/// Cutting keeps what was absent absent, and removes the marker itself.
proof fn lemma_cut_at(m: Seq<char>, marker: Seq<char>, p: Seq<char>)
    ensures
        !contains_seq(m, p) ==> !contains_seq(cut_at(m, marker), p),
        marker.len() > 0 ==> !contains_seq(cut_at(m, marker), marker),
{
    crate::text::lemma_find_seq_from(m, marker, 0);
    match find_seq(m, marker) {
        Some(i) => {
            let pre = m.subrange(0, i);
            if !contains_seq(m, p) {
                lemma_absent_in_slice(m, 0, i, p);
                lemma_trim_is_slice(pre, p);
            }
            if marker.len() > 0 {
                assert forall|j: int| !crate::text::occurs_at(pre, marker, j) by {
                    if crate::text::occurs_at(pre, marker, j) {
                        assert(pre.subrange(j, j + marker.len()) == m.subrange(j, j + marker.len()));
                        assert(crate::text::occurs_at(m, marker, j));
                    }
                }
                lemma_trim_is_slice(pre, marker);
            }
        },
        None => {},
    }
}

/// What a failed passkey prompt shows is one of the two fixed messages, or a
/// message that does not start with a `JsValue(` rendering, holds no stack
/// frame of the passkey bindings, no doubled ` Error: ` payload, and does not
/// report a cancellation.
pub proof fn sanitized_passkey_text_is_clean(raw: Seq<char>)
    ensures
        ({
            let r = sanitize_passkey_spec(raw);
            ||| r == "Passkey prompt was cancelled."@
            ||| r == "Passkey prompt was cancelled or unavailable."@
            ||| (!starts_with(r, "JsValue("@) && !contains_seq(r, " at createPasskeyCredential"@)
                && !contains_seq(r, " at getPasskeyCredential"@) && !contains_seq(
                r,
                "\n    at "@,
            ) && !contains_seq(r, " Error: "@) && !passkey_cancelled(r))
        }),
{
    reveal_strlit(" Error: ");
    reveal_strlit(" at createPasskeyCredential");
    reveal_strlit(" at getPasskeyCredential");
    reveal_strlit("\n    at ");
    let m0 = trim(raw);
    if !(m0.len() == 0 || m0 == "JsValue(undefined)"@) {
        let a = " at createPasskeyCredential"@;
        let b = " at getPasskeyCredential"@;
        let c = "\n    at "@;
        let d = " Error: "@;
        let m2 = strip_error_prefix(unwrap_js_value(m0));
        let x1 = cut_at(m2, a);
        let x2 = cut_at(x1, b);
        let x3 = cut_at(x2, c);
        let x4 = cut_at(x3, d);
        lemma_cut_at(m2, a, a);
        lemma_cut_at(x1, b, a);
        lemma_cut_at(x1, b, b);
        lemma_cut_at(x2, c, a);
        lemma_cut_at(x2, c, b);
        lemma_cut_at(x2, c, c);
        lemma_cut_at(x3, d, a);
        lemma_cut_at(x3, d, b);
        lemma_cut_at(x3, d, c);
        lemma_cut_at(x3, d, d);
        assert(passkey_message_core(m0) == x4);
    }
}


/// `s` holds no `c`, checked from the front.
spec fn lacks(s: Seq<char>, c: char) -> bool
    decreases s.len(),
{
    s.len() == 0 || (s[0] != c && lacks(s.drop_first(), c))
}

proof fn lemma_lacks(s: Seq<char>, c: char)
    ensures
        lacks(s, c) == !s.contains(c),
    decreases s.len(),
{
    if s.len() > 0 {
        lemma_lacks(s.drop_first(), c);
        if s.contains(c) && s[0] != c {
            let i = choose|i: int| 0 <= i < s.len() && s[i] == c;
            assert(s.drop_first()[i - 1] == c);
        }
        if s.drop_first().contains(c) {
            let i = choose|i: int| 0 <= i < s.drop_first().len() && s.drop_first()[i] == c;
            assert(s[i + 1] == c);
        }
    }
}

/// Percent-encoded text never holds `&` or `=`.
proof fn lemma_encoded_lacks_amp(b: Seq<u8>)
    ensures
        !percent_encode(b).contains('&'),
        !percent_encode(b).contains('='),
    decreases b.len(),
{
    if b.len() > 0 {
        lemma_encoded_lacks_amp(b.drop_first());
        let e = encode_byte(b[0]);
        let r = percent_encode(b.drop_first());
        hex_char_spec_is_hex((b[0] / 16) as nat);
        hex_char_spec_is_hex((b[0] % 16) as nat);
        if unreserved(b[0]) {
            assert(e[0] == (b[0] as char));
            assert(b[0] != 38u8);
            assert(b[0] != 61u8);
        }
        assert forall|i: int| 0 <= i < (e + r).len() implies (e + r)[i] != '&' && (e + r)[i]
            != '=' by {
            if i < e.len() {
                assert((e + r)[i] == e[i]);
            } else {
                assert((e + r)[i] == r[i - e.len()]);
            }
        }
    }
}

/// The first `c` of `a + b` is found in `b` when `a` has none.
proof fn lemma_index_of_concat(a: Seq<char>, b: Seq<char>, c: char)
    requires
        !a.contains(c),
    ensures
        index_of(a + b, c) == a.len() + index_of(b, c),
{
    lemma_index_of(b, c);
    let k: int = (a.len() + index_of(b, c)) as int;
    assert forall|j: int| 0 <= j < k implies (a + b)[j] != c by {
        if j < a.len() {
            assert((a + b)[j] == a[j]);
        } else {
            assert((a + b)[j] == b[j - a.len()]);
        }
    }
    if k < (a + b).len() {
        assert((a + b)[k] == b[index_of(b, c) as int]);
    }
    crate::text::lemma_index_of_unique(a + b, c, k);
}

/// The query of the development callback link.
pub open spec fn callback_search(state: Seq<char>, redirect_url: Seq<char>) -> Seq<char> {
    "?code=development-oauth-code&state="@ + percent_encode(vstd::utf8::encode_utf8(state))
        + "&next="@ + percent_encode(vstd::utf8::encode_utf8(redirect_url))
}

/// Skipping a leading part of a query that has no `&` and does not start
/// with `prefix`.
proof fn lemma_first_with_prefix_skip(a: Seq<char>, rest: Seq<char>, prefix: Seq<char>)
    requires
        !a.contains('&'),
        rest.len() > 0,
        rest[0] == '&',
        !starts_with(a, prefix),
    ensures
        first_with_prefix(a + rest, prefix) == first_with_prefix(rest.drop_first(), prefix),
{
    let q = a + rest;
    lemma_index_of_concat(a, rest, '&');
    assert(index_of(rest, '&') == 0);
    assert(q.subrange(0, a.len() as int) =~= a);
    assert(q.subrange((a.len() + 1) as int, q.len() as int) =~= rest.drop_first());
}

/// The last part of a query, with no `&` in it, that starts with `prefix`.
proof fn lemma_first_with_prefix_last(prefix: Seq<char>, v: Seq<char>)
    requires
        !(prefix + v).contains('&'),
    ensures
        first_with_prefix(prefix + v, prefix) == Some(v),
{
    let q = prefix + v;
    lemma_index_of(q, '&');
    if index_of(q, '&') < q.len() {
        assert(q[index_of(q, '&') as int] == '&');
    }
    assert(q.subrange(0, q.len() as int) =~= q);
    assert(q.subrange(0, prefix.len() as int) =~= prefix);
    assert(q.subrange(prefix.len() as int, q.len() as int) =~= v);
}

proof fn lemma_concat_lacks(a: Seq<char>, b: Seq<char>, c: char)
    requires
        !a.contains(c),
        !b.contains(c),
    ensures
        !(a + b).contains(c),
{
    if (a + b).contains(c) {
        let i = choose|i: int| 0 <= i < (a + b).len() && (a + b)[i] == c;
        if i < a.len() {
            assert(a[i] == c);
        } else {
            assert(b[i - a.len()] == c);
        }
    }
}

/// The development callback link brings the browser back where it started:
/// its query names the encoded target as the `next` parameter that the
/// sign-in pages read, and that text decodes back to the target.
pub proof fn development_callback_carries_the_redirect(
    provider_id: Seq<char>,
    state: Seq<char>,
    redirect_url: Seq<char>,
)
    ensures
        development_callback_url_spec(provider_id, state, redirect_url) == "/api/auth/oauth/"@
            + provider_id + "/callback"@ + callback_search(state, redirect_url),
        first_with_prefix(query_of(callback_search(state, redirect_url)), "next="@) == Some(
            percent_encode(vstd::utf8::encode_utf8(redirect_url)),
        ),
        vstd::utf8::valid_utf8(
            percent_decode_bytes(
                vstd::utf8::encode_utf8(percent_encode(vstd::utf8::encode_utf8(redirect_url))),
            ),
        ),
        vstd::utf8::decode_utf8(
            percent_decode_bytes(
                vstd::utf8::encode_utf8(percent_encode(vstd::utf8::encode_utf8(redirect_url))),
            ),
        ) == redirect_url,
{
    reveal_strlit("/callback?code=development-oauth-code&state=");
    reveal_strlit("/callback");
    reveal_strlit("?code=development-oauth-code&state=");
    reveal_strlit("code=development-oauth-code");
    reveal_strlit("&state=");
    reveal_strlit("state=");
    reveal_strlit("&next=");
    reveal_strlit("next=");
    let es = percent_encode(vstd::utf8::encode_utf8(state));
    let er = percent_encode(vstd::utf8::encode_utf8(redirect_url));
    assert("/callback?code=development-oauth-code&state="@ =~= "/callback"@
        + "?code=development-oauth-code&state="@);
    assert(development_callback_url_spec(provider_id, state, redirect_url) =~= "/api/auth/oauth/"@
        + provider_id + "/callback"@ + callback_search(state, redirect_url));
    let search = callback_search(state, redirect_url);
    let a1 = "code=development-oauth-code"@;
    let a2 = "state="@ + es;
    let a3 = "next="@ + er;
    let q = a1 + ("&"@ + a2 + ("&"@ + a3));
    reveal_strlit("&");
    assert(search =~= seq!['?'] + q);
    assert(q[0] == 'c');
    assert(search.drop_first() =~= q);
    assert(search[0] == '?');
    assert(trim_start_char(q, '?') == q);
    assert(query_of(search) == q);
    lemma_encoded_lacks_amp(vstd::utf8::encode_utf8(state));
    lemma_encoded_lacks_amp(vstd::utf8::encode_utf8(redirect_url));
    reveal_with_fuel(lacks, 30);
    assert(lacks(a1, '&'));
    lemma_lacks(a1, '&');
    assert(lacks("state="@, '&'));
    lemma_lacks("state="@, '&');
    assert(lacks("next="@, '&'));
    lemma_lacks("next="@, '&');
    lemma_concat_lacks("state="@, es, '&');
    lemma_concat_lacks("next="@, er, '&');
    assert(!starts_with(a1, "next="@)) by {
        assert(a1.subrange(0, 5)[0] == a1[0]);
    }
    assert(!starts_with(a2, "next="@)) by {
        assert(a2[0] == 's');
        assert(a2.subrange(0, 5)[0] == a2[0]);
    }
    let rest1 = "&"@ + a2 + ("&"@ + a3);
    assert(rest1.drop_first() =~= a2 + ("&"@ + a3));
    lemma_first_with_prefix_skip(a1, rest1, "next="@);
    let rest2 = "&"@ + a3;
    assert(rest2.drop_first() =~= a3);
    lemma_first_with_prefix_skip(a2, rest2, "next="@);
    lemma_first_with_prefix_last("next="@, er);
    crate::urls::percent_encoding_round_trip(redirect_url);
}

/// The parts of a query between its `&` separators, empty ones included.
pub open spec fn amp_parts(q: Seq<char>) -> Seq<Seq<char>>
    decreases q.len(),
{
    let k = index_of(q, '&');
    if k < q.len() {
        seq![q.subrange(0, k as int)] + amp_parts(q.subrange((k + 1) as int, q.len() as int))
    } else {
        seq![q]
    }
}

proof fn lemma_amp_parts_last(a: Seq<char>)
    requires
        !a.contains('&'),
    ensures
        amp_parts(a) == seq![a],
{
    lemma_index_of(a, '&');
    if index_of(a, '&') < a.len() {
        assert(a[index_of(a, '&') as int] == '&');
    }
    assert(a.subrange(0, a.len() as int) =~= a);
}

proof fn lemma_amp_parts_cons(a: Seq<char>, rest: Seq<char>)
    requires
        !a.contains('&'),
    ensures
        amp_parts(a + ("&"@ + rest)) == seq![a] + amp_parts(rest),
{
    reveal_strlit("&");
    let q = a + ("&"@ + rest);
    lemma_index_of_concat(a, "&"@ + rest, '&');
    assert(("&"@ + rest)[0] == '&');
    lemma_index_of("&"@ + rest, '&');
    assert(index_of(q, '&') == a.len());
    assert(q.subrange(0, a.len() as int) =~= a);
    assert(q.subrange(a.len() as int + 1, q.len() as int) =~= rest);
}

/// The development callback's query splits on `&` into exactly three pairs,
/// `code`, `state` and `next`, and the encoded values hold neither `&` nor
/// `=`, so no value can add or break a pair.
pub proof fn development_callback_query_has_three_pairs(state: Seq<char>, redirect_url: Seq<char>)
    ensures
        ({
            let es = percent_encode(vstd::utf8::encode_utf8(state));
            let er = percent_encode(vstd::utf8::encode_utf8(redirect_url));
            &&& amp_parts(query_of(callback_search(state, redirect_url))) == seq![
                "code=development-oauth-code"@,
                "state="@ + es,
                "next="@ + er,
            ]
            &&& !es.contains('&') && !es.contains('=')
            &&& !er.contains('&') && !er.contains('=')
        }),
{
    reveal_strlit("?code=development-oauth-code&state=");
    reveal_strlit("code=development-oauth-code");
    reveal_strlit("&state=");
    reveal_strlit("state=");
    reveal_strlit("&next=");
    reveal_strlit("next=");
    reveal_strlit("&");
    let es = percent_encode(vstd::utf8::encode_utf8(state));
    let er = percent_encode(vstd::utf8::encode_utf8(redirect_url));
    let search = callback_search(state, redirect_url);
    let a1 = "code=development-oauth-code"@;
    let a2 = "state="@ + es;
    let a3 = "next="@ + er;
    let q = a1 + ("&"@ + (a2 + ("&"@ + a3)));
    assert(search =~= seq!['?'] + q);
    assert(search.drop_first() =~= q);
    assert(search[0] == '?');
    assert(q[0] == 'c');
    assert(trim_start_char(q, '?') == q);
    assert(query_of(search) == q);
    lemma_encoded_lacks_amp(vstd::utf8::encode_utf8(state));
    lemma_encoded_lacks_amp(vstd::utf8::encode_utf8(redirect_url));
    reveal_with_fuel(lacks, 30);
    assert(lacks(a1, '&'));
    lemma_lacks(a1, '&');
    assert(lacks("state="@, '&'));
    lemma_lacks("state="@, '&');
    assert(lacks("next="@, '&'));
    lemma_lacks("next="@, '&');
    lemma_concat_lacks("state="@, es, '&');
    lemma_concat_lacks("next="@, er, '&');
    lemma_amp_parts_cons(a1, a2 + ("&"@ + a3));
    lemma_amp_parts_cons(a2, a3);
    lemma_amp_parts_last(a3);
    assert(seq![a1] + (seq![a2] + seq![a3]) =~= seq![a1, a2, a3]);
}

} // verus!
