//! The session cookie: the `Set-Cookie` value the server sends, reading the
//! session id back from a `Cookie` header, and the login response the browser sees.

use vstd::prelude::*;

use crate::contracts::LoginCompletionResponse;
use crate::text::{
    chars_of, contains_seq, decimal, find_char, index_of, is_ws, lemma_index_of_unique, occurs_at, owned,
    push_decimal, push_str, range_is, string_of_range, trim, trim_range,
};

verus! {

/// The cookie name: the `__Host-` prefixed name over HTTPS, a development name otherwise.
pub open spec fn cookie_name(secure: bool) -> Seq<char> {
    if secure {
        "__Host-session"@
    } else {
        "wasi_auth_dev_session"@
    }
}

pub open spec fn session_cookie_spec(session_id: Seq<char>, max_age_seconds: Option<u64>, secure: bool) -> Seq<
    char,
> {
    cookie_name(secure) + "="@ + session_id + "; Path=/; HttpOnly; SameSite=Lax"@ + match max_age_seconds {
        Some(age) => "; Max-Age="@ + decimal(age as nat),
        None => Seq::empty(),
    } + if secure {
        "; Secure"@
    } else {
        Seq::empty()
    }
}

/// The `Set-Cookie` value that installs a session id.
pub fn session_cookie_header_value(session_id: &str, max_age_seconds: Option<u64>, secure: bool) -> (r:
    String)
    ensures
        r@ == session_cookie_spec(session_id@, max_age_seconds, secure),
{
    let mut value = if secure {
        owned("__Host-session")
    } else {
        owned("wasi_auth_dev_session")
    };
    push_str(&mut value, "=");
    push_str(&mut value, session_id);
    push_str(&mut value, "; Path=/; HttpOnly; SameSite=Lax");
    let ghost base = value@;
    match max_age_seconds {
        Some(age) => {
            push_str(&mut value, "; Max-Age=");
            push_decimal(&mut value, age);
        },
        None => {
            assert(base + Seq::<char>::empty() == base);
        },
    }
    let ghost with_age = value@;
    if secure {
        push_str(&mut value, "; Secure");
    } else {
        assert(with_age + Seq::<char>::empty() == with_age);
    }
    value
}

/// The `Set-Cookie` value that removes the session cookie: an empty id that expires at once.
pub fn expired_session_cookie_header_value(secure: bool) -> (r: String)
    ensures
        r@ == session_cookie_spec(Seq::empty(), Some(0), secure),
{
    let r = session_cookie_header_value("", Some(0), secure);
    proof {
        reveal_strlit("");
    }
    r
}

/// The name of the cookie a `Set-Cookie` text addresses: what stands before
/// its first `=`.
pub open spec fn set_cookie_name(h: Seq<char>) -> Seq<char> {
    h.subrange(0, index_of(h, '=') as int)
}

/// `s` ends with `p`.
pub open spec fn has_suffix(s: Seq<char>, p: Seq<char>) -> bool {
    p.len() <= s.len() && s.subrange(s.len() - p.len(), s.len() as int) == p
}

proof fn lemma_cookie_name_first(secure: bool, rest: Seq<char>)
    ensures
        set_cookie_name(cookie_name(secure) + "="@ + rest) == cookie_name(secure),
{
    reveal_strlit("__Host-session");
    reveal_strlit("wasi_auth_dev_session");
    reveal_strlit("=");
    let name = cookie_name(secure);
    let h = name + "="@ + rest;
    assert forall|k: int| 0 <= k < name.len() implies h[k] != '=' by {
        assert(h[k] == name[k]);
    }
    assert(h[name.len() as int] == '=');
    crate::text::lemma_index_of_unique(h, '=', name.len() as int);
    assert(h.subrange(0, name.len() as int) =~= name);
}

proof fn lemma_secure_suffix(session_id: Seq<char>, max_age_seconds: Option<u64>, secure: bool)
    ensures
        has_suffix(session_cookie_spec(session_id, max_age_seconds, secure), "; Secure"@) == secure,
{
    reveal_strlit("; Secure");
    reveal_strlit("; Path=/; HttpOnly; SameSite=Lax");
    let h = session_cookie_spec(session_id, max_age_seconds, secure);
    let p = "; Secure"@;
    if secure {
        assert(h.subrange(h.len() - p.len(), h.len() as int) =~= p);
    } else {
        let base = cookie_name(secure) + "="@ + session_id + "; Path=/; HttpOnly; SameSite=Lax"@;
        match max_age_seconds {
            Some(age) => {
                let d = decimal(age as nat);
                crate::text::lemma_decimal_len(age as nat);
                assert(h =~= base + ("; Max-Age="@ + d));
                assert(h.last() == d.last());
                assert(d.last() == crate::text::digit_char((age as nat) % 10));
            },
            None => {
                assert(h =~= base);
                assert(h.last() == 'x');
            },
        }
        if has_suffix(h, p) {
            assert(h.last() == h.subrange(h.len() - p.len(), h.len() as int).last());
            assert(p.last() == 'e');
        }
    }
}

/// The header that removes the session cookie names the very cookie that
/// the sign-in header set, on the same path, with a lifetime of zero, and
/// carries `Secure` exactly when the sign-in header does; so a browser that
/// holds the cookie deletes it.
pub proof fn expiry_names_the_session_cookie(
    session_id: Seq<char>,
    max_age_seconds: Option<u64>,
    secure: bool,
)
    ensures
        ({
            let set = session_cookie_spec(session_id, max_age_seconds, secure);
            let expired = session_cookie_spec(Seq::empty(), Some(0), secure);
            &&& set_cookie_name(expired) == set_cookie_name(set)
            &&& set_cookie_name(set) == cookie_name(secure)
            &&& contains_seq(expired, "; Path=/;"@)
            &&& contains_seq(expired, "; Max-Age=0"@)
            &&& has_suffix(expired, "; Secure"@) == has_suffix(set, "; Secure"@)
        }),
{
    reveal_strlit("; Path=/; HttpOnly; SameSite=Lax");
    reveal_strlit("=");
    reveal_strlit("; Path=/;");
    reveal_strlit("; Max-Age=");
    reveal_strlit("; Max-Age=0");
    reveal_strlit("; Secure");
    let set = session_cookie_spec(session_id, max_age_seconds, secure);
    let expired = session_cookie_spec(Seq::empty(), Some(0), secure);
    let name = cookie_name(secure);
    let tail = "; Path=/; HttpOnly; SameSite=Lax"@ + ("; Max-Age="@ + decimal(0)) + (if secure {
        "; Secure"@
    } else {
        Seq::empty()
    });
    assert(expired =~= name + "="@ + tail);
    lemma_cookie_name_first(secure, tail);
    let set_tail = session_id + "; Path=/; HttpOnly; SameSite=Lax"@ + match max_age_seconds {
        Some(age) => "; Max-Age="@ + decimal(age as nat),
        None => Seq::empty(),
    } + if secure {
        "; Secure"@
    } else {
        Seq::empty()
    };
    assert(set =~= name + "="@ + set_tail);
    lemma_cookie_name_first(secure, set_tail);
    let k: int = name.len() as int + 1;
    let lit = "; Path=/; HttpOnly; SameSite=Lax"@;
    assert(decimal(0) == seq!['0']);
    assert(("="@).len() == 1);
    assert(expired.subrange(k, expired.len() as int) =~= tail);
    assert(tail.subrange(0, 9) =~= "; Path=/;"@);
    assert(expired.subrange(k, k + 9) =~= tail.subrange(0, 9));
    assert(occurs_at(expired, "; Path=/;"@, k));
    let m: int = k + lit.len();
    assert(tail.subrange(lit.len() as int, lit.len() as int + 11) =~= "; Max-Age=0"@);
    assert(expired.subrange(m, m + 11) =~= tail.subrange(lit.len() as int, lit.len() as int + 11));
    assert(occurs_at(expired, "; Max-Age=0"@, m));
    lemma_secure_suffix(session_id, max_age_seconds, secure);
    lemma_secure_suffix(Seq::empty(), Some(0), secure);
}

// ---------------------------------------------------------------------------
// Reading the session id back
// ---------------------------------------------------------------------------

/// The value of one `name=value` pair when the name is a session cookie name
/// and the trimmed value is non-empty.
pub open spec fn session_pair_value(part: Seq<char>) -> Option<Seq<char>> {
    let t = trim(part);
    let k = index_of(t, '=');
    if k >= t.len() {
        None
    } else {
        let name = t.subrange(0, k as int);
        let value = trim(t.subrange(k as int + 1, t.len() as int));
        if (name == "__Host-session"@ || name == "wasi_auth_dev_session"@) && value.len() > 0 {
            Some(value)
        } else {
            None
        }
    }
}

/// The first `;`-separated pair of a `Cookie` header that carries a session id.
pub open spec fn session_id_in_header(h: Seq<char>) -> Option<Seq<char>>
    decreases h.len(),
{
    let e = index_of(h, ';');
    match session_pair_value(h.subrange(0, e as int)) {
        Some(v) => Some(v),
        None => if e < h.len() {
            session_id_in_header(h.subrange(e as int + 1, h.len() as int))
        } else {
            None
        },
    }
}

fn session_pair_in_range(s: &Vec<char>, from: usize, to: usize) -> (r: Option<String>)
    requires
        from <= to <= s@.len(),
    ensures
        match r {
            Some(v) => session_pair_value(s@.subrange(from as int, to as int)) == Some(v@),
            None => session_pair_value(s@.subrange(from as int, to as int)) is None,
        },
{
    let ghost part = s@.subrange(from as int, to as int);
    let (a, b) = trim_range(s, from, to);
    let ghost t = s@.subrange(a as int, b as int);
    let k = find_char(s, a, b, '=');
    if a + k >= b {
        return None;
    }
    proof {
        assert(t.subrange(0, k as int) == s@.subrange(a as int, a + k));
        assert(t.subrange(k + 1, t.len() as int) == s@.subrange(a + k + 1, b as int));
    }
    let is_name = range_is(s, a, a + k, "__Host-session") || range_is(s, a, a + k, "wasi_auth_dev_session");
    let (va, vb) = trim_range(s, a + k + 1, b);
    if is_name && va < vb {
        Some(string_of_range(s, va, vb))
    } else {
        None
    }
}

/// The session id that a `Cookie` header carries, if any.
pub fn session_id_from_cookie_header(cookie_header: &str) -> (r: Option<String>)
    ensures
        match r {
            Some(v) => session_id_in_header(cookie_header@) == Some(v@),
            None => session_id_in_header(cookie_header@) is None,
        },
{
    let s = chars_of(cookie_header);
    let mut from: usize = 0;
    assert(s@.subrange(0, s@.len() as int) == s@);
    while from <= s.len()
        invariant
            from <= s@.len() + 1,
            s@ == cookie_header@,
            from <= s@.len() ==> session_id_in_header(s@) == session_id_in_header(
                s@.subrange(from as int, s@.len() as int),
            ),
            from > s@.len() ==> session_id_in_header(s@) is None,
        decreases s@.len() + 1 - from,
    {
        let ghost h = s@.subrange(from as int, s@.len() as int);
        let e = find_char(&s, from, s.len(), ';');
        proof {
            assert(h.subrange(0, e as int) == s@.subrange(from as int, from + e));
        }
        let found = session_pair_in_range(&s, from, from + e);
        if found.is_some() {
            return found;
        }
        if from + e < s.len() {
            proof {
                assert(h.subrange(e + 1, h.len() as int) == s@.subrange(from + e + 1, s@.len() as int));
            }
            from = from + e + 1;
        } else {
            return None;
        }
    }
    None
}

// ---------------------------------------------------------------------------
// Laws
// ---------------------------------------------------------------------------

pub proof fn lemma_trim_identity(s: Seq<char>)
    requires
        s.len() > 0,
        !is_ws(s[0]),
        !is_ws(s.last()),
    ensures
        trim(s) == s,
{
}

/// A session id read back from the cookie this server sets is the id it set:
/// for an id that is non-empty, has no surrounding whitespace and holds no `;`,
/// the `Set-Cookie` value, read as a `Cookie` header, yields exactly that id.
pub proof fn session_cookie_round_trip(session_id: Seq<char>, max_age_seconds: Option<u64>, secure: bool)
    requires
        session_id.len() > 0,
        trim(session_id) == session_id,
        !session_id.contains(';'),
    ensures
        session_id_in_header(session_cookie_spec(session_id, max_age_seconds, secure)) == Some(
            session_id,
        ),
{
    reveal_strlit("__Host-session");
    reveal_strlit("wasi_auth_dev_session");
    reveal_strlit("=");
    reveal_strlit("; Path=/; HttpOnly; SameSite=Lax");
    let name = cookie_name(secure);
    let pair = name + "="@ + session_id;
    let h = session_cookie_spec(session_id, max_age_seconds, secure);
    let tail = h.subrange(pair.len() as int, h.len() as int);
    assert(h == pair + tail);
    assert(tail[0] == ';');
    assert forall|k: int| 0 <= k < pair.len() implies h[k] != ';' by {
        assert(h[k] == pair[k]);
        if k > name.len() {
            assert(pair[k] == session_id[k - name.len() - 1]);
        }
    }
    lemma_index_of_unique(h, ';', pair.len() as int);
    assert(h.subrange(0, pair.len() as int) == pair);
    // The pair has no surrounding whitespace, so trimming keeps it whole.
    assert(pair[0] == name[0]);
    assert(pair.last() == session_id.last());
    crate::text::lemma_trim_shape(crate::text::trim_start(session_id));
    lemma_trim_identity(pair);
    // The first `=` ends the name.
    assert forall|k: int| 0 <= k < name.len() implies pair[k] != '=' by {
        assert(pair[k] == name[k]);
    }
    assert(pair[name.len() as int] == '=');
    lemma_index_of_unique(pair, '=', name.len() as int);
    assert(pair.subrange(0, name.len() as int) == name);
    assert(pair.subrange(name.len() as int + 1, pair.len() as int) == session_id);
}

// ---------------------------------------------------------------------------
// Browser-facing login response
// ---------------------------------------------------------------------------

/// The login response with every credential removed; the browser keeps only
/// the HttpOnly cookie.
pub fn browser_login_response(response: LoginCompletionResponse) -> (r: LoginCompletionResponse)
    ensures
        r.authenticated == response.authenticated,
        r.redirect_url == response.redirect_url,
        r.expires_in_seconds == response.expires_in_seconds,
        r.session_id is None,
        r.access_token is None,
        r.refresh_token is None,
{
    let mut response = response;
    response.session_id = None;
    response.access_token = None;
    response.refresh_token = None;
    response
}


/// The response of a completed sign-in: authenticated, with the new session,
/// its tokens and where to go next.
pub fn completed_login(
    session_id: String,
    redirect_url: String,
    access_token: String,
    refresh_token: String,
    expires_in_seconds: u64,
) -> (r: LoginCompletionResponse)
    ensures
        r.authenticated,
        r.redirect_url == redirect_url,
        r.session_id == Some(session_id),
        r.access_token == Some(access_token),
        r.refresh_token == Some(refresh_token),
        r.expires_in_seconds == expires_in_seconds,
{
    LoginCompletionResponse {
        authenticated: true,
        redirect_url,
        session_id: Some(session_id),
        access_token: Some(access_token),
        refresh_token: Some(refresh_token),
        expires_in_seconds,
    }
}

// ---------------------------------------------------------------------------
// Set-Cookie header values
// ---------------------------------------------------------------------------

/// The characters `http` allows in a header value: tab, and anything from
/// space up except DEL. Every byte of a non-ASCII character is allowed.
pub open spec fn header_value_char(c: char) -> bool {
    c == '\t' || (' ' <= c && c != '\u{7f}')
}

pub open spec fn header_value_text(s: Seq<char>) -> bool {
    forall|i: int| 0 <= i < s.len() ==> header_value_char(#[trigger] s[i])
}

/// Calls `http::HeaderValue::from_str` and reports whether it accepts the
/// text. Its source accepts a string exactly when every byte is a tab or at
/// least 32 and not 127, which for a `&str` is `header_value_text`.
#[verifier::external_body]
fn header_value_accepts(value: &str) -> (r: bool)
    ensures
        r == header_value_text(value@),
{
    http::HeaderValue::from_str(value).is_ok()
}

/// The lifetime of a session cookie set after sign-in, in seconds.
pub const SESSION_COOKIE_MAX_AGE: u64 = 3600;

/// The `Set-Cookie` text installing the session of a completed sign-in, for
/// the response's headers: none without a session id, or when the cookie
/// text is not a valid header value.
pub fn session_cookie_header(response: &LoginCompletionResponse, secure: bool) -> (r: Option<
    String,
>)
    ensures
        response.session_id is None ==> r is None,
        response.session_id is Some ==> ({
            let text = session_cookie_spec(
                response.session_id->0@,
                Some(SESSION_COOKIE_MAX_AGE),
                secure,
            );
            &&& r is Some <==> header_value_text(text)
            &&& r matches Some(t) ==> t@ == text
        }),
{
    match &response.session_id {
        Some(session_id) => {
            let value = session_cookie_header_value(
                session_id.as_str(),
                Some(SESSION_COOKIE_MAX_AGE),
                secure,
            );
            if header_value_accepts(value.as_str()) {
                Some(value)
            } else {
                None
            }
        },
        None => None,
    }
}

/// The `Set-Cookie` text that removes the session cookie, for the response's
/// headers, when it is a valid header value.
pub fn expired_session_cookie_header(secure: bool) -> (r: Option<String>)
    ensures
        ({
            let text = session_cookie_spec(Seq::empty(), Some(0), secure);
            &&& r is Some <==> header_value_text(text)
            &&& r matches Some(t) ==> t@ == text
        }),
{
    let value = expired_session_cookie_header_value(secure);
    if header_value_accepts(value.as_str()) {
        Some(value)
    } else {
        None
    }
}


/// `header_value_text`, checked character by character from the front.
pub open spec fn all_header_chars(s: Seq<char>) -> bool
    decreases s.len(),
{
    if s.len() == 0 {
        true
    } else {
        header_value_char(s[0]) && all_header_chars(s.drop_first())
    }
}

proof fn lemma_all_header_chars(s: Seq<char>)
    ensures
        all_header_chars(s) == header_value_text(s),
    decreases s.len(),
{
    if s.len() > 0 {
        lemma_all_header_chars(s.drop_first());
        if header_value_text(s) {
            assert forall|i: int| 0 <= i < s.drop_first().len() implies header_value_char(
                #[trigger] s.drop_first()[i],
            ) by {
                assert(s.drop_first()[i] == s[i + 1]);
            }
        }
        if all_header_chars(s) {
            assert forall|i: int| 0 <= i < s.len() implies header_value_char(#[trigger] s[i]) by {
                if i > 0 {
                    assert(s[i] == s.drop_first()[i - 1]);
                }
            }
        }
    }
}

proof fn lemma_header_concat(a: Seq<char>, b: Seq<char>)
    requires
        header_value_text(a),
        header_value_text(b),
    ensures
        header_value_text(a + b),
{
    assert forall|i: int| 0 <= i < (a + b).len() implies header_value_char(#[trigger] (a + b)[i]) by {
        if i < a.len() {
            assert((a + b)[i] == a[i]);
        } else {
            assert((a + b)[i] == b[i - a.len()]);
        }
    }
}

proof fn lemma_decimal_header_text(n: nat)
    ensures
        header_value_text(decimal(n)),
    decreases n,
{
    if n >= 10 {
        lemma_decimal_header_text(n / 10);
        lemma_header_concat(decimal(n / 10), seq![crate::text::digit_char(n % 10)]);
        assert(decimal(n) == decimal(n / 10) + seq![crate::text::digit_char(n % 10)]);
    }
}

proof fn lemma_literal_header_text(s: Seq<char>)
    requires
        all_header_chars(s),
    ensures
        header_value_text(s),
{
    lemma_all_header_chars(s);
}

/// The session cookie is always a valid header value when the session id is:
/// every other part of it is printable ASCII.
pub proof fn session_cookie_is_a_valid_header(
    session_id: Seq<char>,
    max_age_seconds: Option<u64>,
    secure: bool,
)
    requires
        header_value_text(session_id),
    ensures
        header_value_text(session_cookie_spec(session_id, max_age_seconds, secure)),
{
    reveal_strlit("__Host-session");
    reveal_strlit("wasi_auth_dev_session");
    reveal_strlit("=");
    reveal_strlit("; Path=/; HttpOnly; SameSite=Lax");
    reveal_strlit("; Max-Age=");
    reveal_strlit("; Secure");
    reveal_with_fuel(all_header_chars, 40);
    lemma_literal_header_text("__Host-session"@);
    lemma_literal_header_text("wasi_auth_dev_session"@);
    lemma_literal_header_text("="@);
    lemma_literal_header_text("; Path=/; HttpOnly; SameSite=Lax"@);
    lemma_literal_header_text("; Max-Age="@);
    lemma_literal_header_text("; Secure"@);
    let name = cookie_name(secure);
    let base = name + "="@ + session_id + "; Path=/; HttpOnly; SameSite=Lax"@;
    lemma_header_concat(name, "="@);
    lemma_header_concat(name + "="@, session_id);
    lemma_header_concat(name + "="@ + session_id, "; Path=/; HttpOnly; SameSite=Lax"@);
    let age = match max_age_seconds {
        Some(a) => "; Max-Age="@ + decimal(a as nat),
        None => Seq::<char>::empty(),
    };
    match max_age_seconds {
        Some(a) => {
            lemma_decimal_header_text(a as nat);
            lemma_header_concat("; Max-Age="@, decimal(a as nat));
        },
        None => {},
    }
    lemma_header_concat(base, age);
    let tail = if secure {
        "; Secure"@
    } else {
        Seq::<char>::empty()
    };
    lemma_header_concat(base + age, tail);
}

} // verus!
