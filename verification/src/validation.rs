//! Field validation applied to every request before it reaches storage.
//!
//! Each check is stated as a spec function returning the validation message it
//! produces (`None` when the field is accepted); the exec function's contract
//! says that its outcome is exactly that message.

use vstd::prelude::*;

use crate::contracts::{
    EmailPasswordLoginRequest, EmailPasswordRegisterRequest, PasskeyVerifyRequest,
    PasswordResetCompleteRequest, PasswordResetStartRequest,
};
use crate::error::{outcome_is, AuthStackError, AuthStackResult};
use crate::text::{
    char_is_ctrl, char_is_ws, chars_of, decimal, is_ctrl, is_digit, is_lower, is_ws, lower_seq,
    lowercase_range, owned, push_decimal, push_str, range_has_char, range_is, trim, trim_range,
    trimmed_chars,
};

verus! {

/// Passwords shorter than this are refused unless the deployment raises it.
pub const DEFAULT_PASSWORD_MIN_LENGTH: usize = 15;

/// Passwords longer than this are always refused.
pub const MAX_PASSWORD_LENGTH: usize = 128;

// ---------------------------------------------------------------------------
// UTF-8 length
// ---------------------------------------------------------------------------

pub open spec fn utf8_width(c: char) -> nat {
    if (c as u32) <= 0x7f {
        1
    } else if (c as u32) <= 0x7ff {
        2
    } else if (c as u32) <= 0xffff {
        3
    } else {
        4
    }
}

/// The number of bytes of the UTF-8 encoding of `s`, which `str::len` returns.
pub open spec fn utf8_len(s: Seq<char>) -> nat
    decreases s.len(),
{
    if s.len() == 0 {
        0
    } else {
        utf8_width(s[0]) + utf8_len(s.drop_first())
    }
}

pub proof fn lemma_utf8_len_encode(s: Seq<char>)
    ensures
        utf8_len(s) == vstd::utf8::encode_utf8(s).len(),
    decreases s.len(),
{
    if s.len() > 0 {
        lemma_utf8_len_encode(s.drop_first());
        vstd::utf8::char_is_scalar(s[0]);
    }
}

pub proof fn lemma_utf8_len_push(s: Seq<char>, c: char)
    ensures
        utf8_len(s.push(c)) == utf8_len(s) + utf8_width(c),
    decreases s.len(),
{
    if s.len() > 0 {
        lemma_utf8_len_push(s.drop_first(), c);
        assert(s.push(c).drop_first() == s.drop_first().push(c));
        assert(s.push(c)[0] == s[0]);
    } else {
        assert(s.push(c).drop_first() == Seq::<char>::empty());
        assert(s.push(c)[0] == c);
        assert(utf8_len(Seq::<char>::empty()) == 0);
    }
}

pub proof fn lemma_utf8_len_at_least(s: Seq<char>)
    ensures
        utf8_len(s) >= s.len(),
    decreases s.len(),
{
    if s.len() > 0 {
        lemma_utf8_len_at_least(s.drop_first());
    }
}

pub fn char_width(c: char) -> (w: usize)
    ensures
        w == utf8_width(c),
{
    if (c as u32) <= 0x7f {
        1
    } else if (c as u32) <= 0x7ff {
        2
    } else if (c as u32) <= 0xffff {
        3
    } else {
        4
    }
}

/// Whether the UTF-8 length of `s` exceeds `k`.
pub fn utf8_len_exceeds(s: &Vec<char>, k: usize) -> (r: bool)
    ensures
        r == (utf8_len(s@) > k),
{
    let mut n: usize = 0;
    let mut i: usize = 0;
    while i < s.len()
        invariant
            i <= s@.len(),
            n == utf8_len(s@.subrange(0, i as int)),
            n <= k,
        decreases s@.len() - i,
    {
        proof {
            lemma_utf8_len_push(s@.subrange(0, i as int), s@[i as int]);
            assert(s@.subrange(0, i + 1) == s@.subrange(0, i as int).push(s@[i as int]));
        }
        let w = char_width(s[i]);
        if w > k - n {
            proof {
                lemma_utf8_len_grows(s@, i + 1);
            }
            return true;
        }
        n = n + w;
        i += 1;
    }
    proof {
        assert(s@.subrange(0, s@.len() as int) == s@);
    }
    false
}

/// Whether the UTF-8 length of `s` is below `k`.
pub fn utf8_len_below(s: &Vec<char>, k: usize) -> (r: bool)
    ensures
        r == (utf8_len(s@) < k),
{
    if k == 0 {
        return false;
    }
    let mut n: usize = 0;
    let mut i: usize = 0;
    while i < s.len()
        invariant
            i <= s@.len(),
            n == utf8_len(s@.subrange(0, i as int)),
            n < k,
        decreases s@.len() - i,
    {
        proof {
            lemma_utf8_len_push(s@.subrange(0, i as int), s@[i as int]);
            assert(s@.subrange(0, i + 1) == s@.subrange(0, i as int).push(s@[i as int]));
        }
        let w = char_width(s[i]);
        if w >= k - n {
            proof {
                lemma_utf8_len_grows(s@, i + 1);
            }
            return false;
        }
        n = n + w;
        i += 1;
    }
    proof {
        assert(s@.subrange(0, s@.len() as int) == s@);
    }
    true
}

pub proof fn lemma_utf8_len_grows(s: Seq<char>, k: int)
    requires
        0 <= k <= s.len(),
    ensures
        utf8_len(s.subrange(0, k)) <= utf8_len(s),
    decreases s.len() - k,
{
    if k < s.len() {
        lemma_utf8_len_grows(s, k + 1);
        lemma_utf8_len_push(s.subrange(0, k), s[k]);
        assert(s.subrange(0, k + 1) == s.subrange(0, k).push(s[k]));
    } else {
        assert(s.subrange(0, k) == s);
    }
}

// ---------------------------------------------------------------------------
// Redirect targets
// ---------------------------------------------------------------------------

/// A redirect target is safe when it is a local path: it starts with `/` and
/// not with `//`, which browsers read as a scheme-relative URL.
pub open spec fn safe_redirect(s: Seq<char>) -> bool {
    s.len() >= 1 && s[0] == '/' && !(s.len() >= 2 && s[1] == '/')
}

pub fn is_safe_redirect(value: &str) -> (r: bool)
    ensures
        r == safe_redirect(value@),
{
    let v = chars_of(value);
    v.len() >= 1 && v[0] == '/' && !(v.len() >= 2 && v[1] == '/')
}

pub open spec fn safe_redirect_or_default_spec(redirect_url: Option<Seq<char>>) -> Seq<char> {
    match redirect_url {
        Some(v) => if safe_redirect(v) {
            v
        } else {
            "/dashboard"@
        },
        None => "/dashboard"@,
    }
}

/// The requested redirect when it is safe, else `/dashboard`.
pub fn safe_redirect_or_default(redirect_url: Option<String>) -> (r: String)
    ensures
        r@ == safe_redirect_or_default_spec(
            match redirect_url {
                Some(v) => Some(v@),
                None => None,
            },
        ),
        safe_redirect(r@) || r@ == "/dashboard"@,
{
    match redirect_url {
        Some(v) => {
            if is_safe_redirect(v.as_str()) {
                v
            } else {
                owned("/dashboard")
            }
        },
        None => owned("/dashboard"),
    }
}

pub open spec fn safe_redirect_option_error(value: Option<Seq<char>>) -> Option<Seq<char>> {
    match value {
        Some(v) => if safe_redirect(v) {
            None
        } else {
            Some("redirect_url must be a local path"@)
        },
        None => None,
    }
}

pub fn validate_safe_redirect_option(value: Option<&str>) -> (r: AuthStackResult<()>)
    ensures
        outcome_is(
            r,
            safe_redirect_option_error(
                match value {
                    Some(v) => Some(v@),
                    None => None,
                },
            ),
        ),
{
    match value {
        Some(v) => {
            if !is_safe_redirect(v) {
                return Err(AuthStackError::validation("redirect_url must be a local path"));
            }
            Ok(())
        },
        None => Ok(()),
    }
}

pub open spec fn opt_view(o: Option<String>) -> Option<Seq<char>> {
    match o {
        Some(v) => Some(v@),
        None => None,
    }
}

fn validate_optional_redirect(value: &Option<String>) -> (r: AuthStackResult<()>)
    ensures
        outcome_is(r, safe_redirect_option_error(opt_view(*value))),
{
    match value {
        Some(v) => validate_safe_redirect_option(Some(v.as_str())),
        None => validate_safe_redirect_option(None),
    }
}

// ---------------------------------------------------------------------------
// Identifiers and names
// ---------------------------------------------------------------------------

pub open spec fn has_ws_or_ctrl(s: Seq<char>) -> bool {
    exists|i: int| 0 <= i < s.len() && (is_ws(s[i]) || is_ctrl(s[i]))
}

pub open spec fn has_ctrl(s: Seq<char>) -> bool {
    exists|i: int| 0 <= i < s.len() && is_ctrl(s[i])
}

/// An identifier is refused when empty, longer than 256 bytes, or when it
/// holds whitespace or control characters.
pub open spec fn identifier_error(label: Seq<char>, value: Seq<char>) -> Option<Seq<char>> {
    if value.len() == 0 || utf8_len(value) > 256 || has_ws_or_ctrl(value) {
        Some(label + " is invalid"@)
    } else {
        None
    }
}

fn range_has_ws_or_ctrl(s: &Vec<char>) -> (r: bool)
    ensures
        r == has_ws_or_ctrl(s@),
{
    let mut i: usize = 0;
    while i < s.len()
        invariant
            i <= s@.len(),
            forall|k: int| 0 <= k < i ==> !(is_ws(s@[k]) || is_ctrl(s@[k])),
        decreases s@.len() - i,
    {
        if char_is_ws(s[i]) || char_is_ctrl(s[i]) {
            return true;
        }
        i += 1;
    }
    false
}

fn range_has_ctrl(s: &Vec<char>) -> (r: bool)
    ensures
        r == has_ctrl(s@),
{
    let mut i: usize = 0;
    while i < s.len()
        invariant
            i <= s@.len(),
            forall|k: int| 0 <= k < i ==> !is_ctrl(s@[k]),
        decreases s@.len() - i,
    {
        if char_is_ctrl(s[i]) {
            return true;
        }
        i += 1;
    }
    false
}

pub fn validate_identifier(label: &str, value: &str) -> (r: AuthStackResult<()>)
    ensures
        outcome_is(r, identifier_error(label@, value@)),
{
    let v = chars_of(value);
    proof {
        assert(v@.subrange(0, v@.len() as int) == v@);
    }
    proof {
        assert(v@.subrange(0, v@.len() as int) == v@);
    }
    let too_long = utf8_len_exceeds(&v, 256);
    if v.len() == 0 || too_long || range_has_ws_or_ctrl(&v) {
        Err(AuthStackError::validation_labelled(label, " is invalid"))
    } else {
        Ok(())
    }
}

pub open spec fn all_digits(s: Seq<char>) -> bool {
    forall|i: int| 0 <= i < s.len() ==> is_digit(#[trigger] s[i])
}

/// A one-time code is six to eight ASCII digits once surrounding whitespace is removed.
pub open spec fn mfa_code_error(code: Seq<char>) -> Option<Seq<char>> {
    let t = trim(code);
    if 6 <= t.len() <= 8 && all_digits(t) {
        None
    } else {
        Some("TOTP code is invalid"@)
    }
}

pub fn validate_mfa_code(code: &str) -> (r: AuthStackResult<()>)
    ensures
        outcome_is(r, mfa_code_error(code@)),
{
    let t = trimmed_chars(code);
    let mut i: usize = 0;
    let mut digits = true;
    while i < t.len()
        invariant
            i <= t@.len(),
            digits == (forall|k: int| 0 <= k < i ==> is_digit(#[trigger] t@[k])),
        decreases t@.len() - i,
    {
        if !('0' <= t[i] && t[i] <= '9') {
            digits = false;
        }
        i += 1;
    }
    if !(6 <= t.len() && t.len() <= 8) || !digits {
        return Err(AuthStackError::validation("TOTP code is invalid"));
    }
    Ok(())
}

/// A display name is refused when blank, when it has surrounding whitespace,
/// when its UTF-8 length exceeds `max_length`, or when it holds control characters.
pub open spec fn display_name_error(label: Seq<char>, value: Seq<char>, max_length: nat) -> Option<
    Seq<char>,
> {
    if trim(value).len() == 0 || trim(value) != value || utf8_len(value) > max_length || has_ctrl(
        value,
    ) {
        Some(label + " is invalid"@)
    } else {
        None
    }
}

pub fn validate_display_name(label: &str, value: &str, max_length: usize) -> (r: AuthStackResult<()>)
    ensures
        outcome_is(r, display_name_error(label@, value@, max_length as nat)),
{
    let v = chars_of(value);
    let (a, b) = trim_range(&v, 0, v.len());
    proof {
        assert(v@.subrange(0, v@.len() as int) == v@);
    }
    let trimmed_is_whole = a == 0 && b == v.len();
    proof {
        if a == 0 && b == v@.len() {
            assert(trim(v@) == v@);
        } else {
            assert(trim(v@).len() < v@.len());
        }
    }
    let too_long = utf8_len_exceeds(&v, max_length);
    if a == b || !trimmed_is_whole || too_long || range_has_ctrl(&v) {
        Err(AuthStackError::validation_labelled(label, " is invalid"))
    } else {
        Ok(())
    }
}

// ---------------------------------------------------------------------------
// Email addresses and passwords
// ---------------------------------------------------------------------------

/// A required email address must be non-blank and hold both `@` and `.`.
pub open spec fn required_email_error(email: Seq<char>) -> Option<Seq<char>> {
    let t = trim(email);
    if t.len() == 0 {
        Some("email is required"@)
    } else if !t.contains('@') || !t.contains('.') {
        Some("email must be a valid email address"@)
    } else {
        None
    }
}

pub fn validate_required_email(email: &str) -> (r: AuthStackResult<()>)
    ensures
        outcome_is(r, required_email_error(email@)),
{
    let t = trimmed_chars(email);
    proof {
        assert(t@.subrange(0, t@.len() as int) == t@);
    }
    if t.len() == 0 {
        return Err(AuthStackError::validation("email is required"));
    }
    if !range_has_char(&t, 0, t.len(), '@') || !range_has_char(&t, 0, t.len(), '.') {
        return Err(AuthStackError::validation("email must be a valid email address"));
    }
    Ok(())
}

/// A required email is accepted exactly when, once trimmed, it is non-blank
/// and holds both an `@` and a `.` somewhere; a non-blank address that lacks
/// either is refused as not a valid email address, and a blank one as
/// missing.
pub proof fn required_email_needs_at_and_dot(email: Seq<char>)
    ensures
        required_email_error(email) is None <==> ((exists|i: int|
            0 <= i < trim(email).len() && trim(email)[i] == '@') && (exists|j: int|
            0 <= j < trim(email).len() && trim(email)[j] == '.')),
        trim(email).len() > 0 && !(exists|j: int| 0 <= j < trim(email).len() && trim(email)[j] == '.')
            ==> required_email_error(email) == Some("email must be a valid email address"@),
        trim(email).len() > 0 && !(exists|i: int| 0 <= i < trim(email).len() && trim(email)[i] == '@')
            ==> required_email_error(email) == Some("email must be a valid email address"@),
        trim(email).len() == 0 ==> required_email_error(email) == Some("email is required"@),
{
    let t = trim(email);
    if t.len() == 0 {
        assert(!(exists|i: int| 0 <= i < t.len() && t[i] == '@'));
    }
}

/// An optional email, once given, must be non-blank and hold `@`.
pub open spec fn optional_email_error(email: Seq<char>) -> Option<Seq<char>> {
    let t = trim(email);
    if t.len() == 0 || !t.contains('@') {
        Some("email must be empty or a valid email address"@)
    } else {
        None
    }
}

pub fn validate_optional_email(email: &str) -> (r: AuthStackResult<()>)
    ensures
        outcome_is(r, optional_email_error(email@)),
{
    let t = trimmed_chars(email);
    proof {
        assert(t@.subrange(0, t@.len() as int) == t@);
    }
    if t.len() == 0 || !range_has_char(&t, 0, t.len(), '@') {
        return Err(AuthStackError::validation("email must be empty or a valid email address"));
    }
    Ok(())
}

/// The common passwords that registration refuses, compared after trimming
/// and ASCII lowercasing.
pub open spec fn blocked_password(normalized: Seq<char>) -> bool {
    normalized == "password"@ || normalized == "password123"@ || normalized == "123456789"@
        || normalized == "qwertyuiop"@ || normalized == "letmein"@ || normalized == "welcome123"@
        || normalized == "admin123"@ || normalized == "iloveyou"@
}

pub open spec fn password_policy_error(password: Seq<char>, min_length: nat) -> Option<Seq<char>> {
    if password.len() < min_length {
        Some("password must be at least "@ + decimal(min_length) + " characters"@)
    } else if password.len() > MAX_PASSWORD_LENGTH {
        Some("password must be at most 128 characters"@)
    } else if blocked_password(lower_seq(trim(password))) {
        Some("password appears in the blocked common-password list"@)
    } else {
        None
    }
}

fn is_blocked_password(normalized: &Vec<char>) -> (r: bool)
    ensures
        r == blocked_password(normalized@),
{
    let n = normalized.len();
    assert(normalized@.subrange(0, n as int) == normalized@);
    range_is(normalized, 0, n, "password") || range_is(normalized, 0, n, "password123")
        || range_is(normalized, 0, n, "123456789") || range_is(normalized, 0, n, "qwertyuiop")
        || range_is(normalized, 0, n, "letmein") || range_is(normalized, 0, n, "welcome123")
        || range_is(normalized, 0, n, "admin123") || range_is(normalized, 0, n, "iloveyou")
}

pub fn validate_password_policy(password: &str, min_length: usize) -> (r: AuthStackResult<()>)
    ensures
        outcome_is(r, password_policy_error(password@, min_length as nat)),
{
    let v = chars_of(password);
    let count = v.len();
    if count < min_length {
        let mut m = owned("password must be at least ");
        push_decimal(&mut m, min_length as u64);
        push_str(&mut m, " characters");
        return Err(AuthStackError::Validation(m));
    }
    if count > MAX_PASSWORD_LENGTH {
        return Err(AuthStackError::validation("password must be at most 128 characters"));
    }
    let (a, b) = trim_range(&v, 0, v.len());
    proof {
        assert(v@.subrange(0, v@.len() as int) == v@);
    }
    let normalized = lowercase_range(&v, a, b);
    if is_blocked_password(&normalized) {
        return Err(AuthStackError::validation("password appears in the blocked common-password list"));
    }
    Ok(())
}

// ---------------------------------------------------------------------------
// Request-level checks
// ---------------------------------------------------------------------------

/// The first message among the given checks, in order.
pub open spec fn first_error(a: Option<Seq<char>>, b: Option<Seq<char>>) -> Option<Seq<char>> {
    if a is Some {
        a
    } else {
        b
    }
}

pub open spec fn email_password_login_error(
    email: Seq<char>,
    password: Seq<char>,
    redirect_url: Option<Seq<char>>,
) -> Option<Seq<char>> {
    first_error(
        required_email_error(email),
        first_error(
            if password.len() == 0 {
                Some("password is required"@)
            } else {
                None
            },
            safe_redirect_option_error(redirect_url),
        ),
    )
}

pub fn validate_email_password_login(request: &EmailPasswordLoginRequest) -> (r: AuthStackResult<()>)
    ensures
        outcome_is(
            r,
            email_password_login_error(
                request.email@,
                request.password@,
                opt_view(request.redirect_url),
            ),
        ),
{
    validate_required_email(request.email.as_str())?;
    if chars_of(request.password.as_str()).len() == 0 {
        return Err(AuthStackError::validation("password is required"));
    }
    validate_optional_redirect(&request.redirect_url)?;
    Ok(())
}

pub open spec fn email_password_register_error(
    email: Seq<char>,
    password: Seq<char>,
    redirect_url: Option<Seq<char>>,
    min_length: nat,
) -> Option<Seq<char>> {
    first_error(
        required_email_error(email),
        first_error(
            password_policy_error(password, min_length),
            safe_redirect_option_error(redirect_url),
        ),
    )
}

pub fn validate_email_password_register(
    request: &EmailPasswordRegisterRequest,
    min_length: usize,
) -> (r: AuthStackResult<()>)
    ensures
        outcome_is(
            r,
            email_password_register_error(
                request.email@,
                request.password@,
                opt_view(request.redirect_url),
                min_length as nat,
            ),
        ),
{
    validate_required_email(request.email.as_str())?;
    validate_password_policy(request.password.as_str(), min_length)?;
    validate_optional_redirect(&request.redirect_url)?;
    Ok(())
}

pub open spec fn password_reset_start_error(email: Seq<char>, redirect_url: Option<Seq<char>>) -> Option<
    Seq<char>,
> {
    first_error(required_email_error(email), safe_redirect_option_error(redirect_url))
}

pub fn validate_password_reset_start(request: &PasswordResetStartRequest) -> (r: AuthStackResult<()>)
    ensures
        outcome_is(
            r,
            password_reset_start_error(request.email@, opt_view(request.redirect_url)),
        ),
{
    validate_required_email(request.email.as_str())?;
    validate_optional_redirect(&request.redirect_url)?;
    Ok(())
}

pub open spec fn password_reset_complete_error(
    token: Seq<char>,
    password: Seq<char>,
    redirect_url: Option<Seq<char>>,
    min_length: nat,
) -> Option<Seq<char>> {
    first_error(
        if trim(token).len() == 0 {
            Some("reset token is required"@)
        } else {
            None
        },
        first_error(
            password_policy_error(password, min_length),
            safe_redirect_option_error(redirect_url),
        ),
    )
}

pub fn validate_password_reset_complete(
    request: &PasswordResetCompleteRequest,
    min_length: usize,
) -> (r: AuthStackResult<()>)
    ensures
        outcome_is(
            r,
            password_reset_complete_error(
                request.token@,
                request.password@,
                opt_view(request.redirect_url),
                min_length as nat,
            ),
        ),
{
    if trimmed_chars(request.token.as_str()).len() == 0 {
        return Err(AuthStackError::validation("reset token is required"));
    }
    validate_password_policy(request.password.as_str(), min_length)?;
    validate_optional_redirect(&request.redirect_url)?;
    Ok(())
}

pub open spec fn passkey_verify_error(challenge_id: Seq<char>, credential_json: Seq<char>) -> Option<
    Seq<char>,
> {
    if trim(challenge_id).len() == 0 {
        Some("challenge_id is required"@)
    } else if trim(credential_json).len() == 0 {
        Some("credential_json is required"@)
    } else {
        None
    }
}

pub fn validate_passkey_verify_request(request: &PasskeyVerifyRequest) -> (r: AuthStackResult<()>)
    ensures
        outcome_is(r, passkey_verify_error(request.challenge_id@, request.credential_json@)),
{
    if trimmed_chars(request.challenge_id.as_str()).len() == 0 {
        return Err(AuthStackError::validation("challenge_id is required"));
    }
    if trimmed_chars(request.credential_json.as_str()).len() == 0 {
        return Err(AuthStackError::validation("credential_json is required"));
    }
    Ok(())
}

// ---------------------------------------------------------------------------
// Provider and signing-key identifiers
// ---------------------------------------------------------------------------

pub open spec fn provider_id_char(c: char) -> bool {
    is_lower(c) || is_digit(c) || c == '-' || c == '_'
}

pub open spec fn provider_id_chars(s: Seq<char>) -> bool {
    forall|i: int| 0 <= i < s.len() ==> provider_id_char(#[trigger] s[i])
}

/// A provider id is non-blank and made of lowercase letters, digits, `-` and `_`.
pub open spec fn provider_id_error(provider_id: Seq<char>) -> Option<Seq<char>> {
    if trim(provider_id).len() == 0 {
        Some("provider_id is required"@)
    } else if !provider_id_chars(provider_id) {
        Some("provider_id must contain only lowercase letters, digits, hyphen, or underscore"@)
    } else {
        None
    }
}

pub fn validate_provider_id(provider_id: &str) -> (r: AuthStackResult<()>)
    ensures
        outcome_is(r, provider_id_error(provider_id@)),
{
    let t = trimmed_chars(provider_id);
    if t.len() == 0 {
        return Err(AuthStackError::validation("provider_id is required"));
    }
    assert(trim(provider_id@).len() != 0);
    let v = chars_of(provider_id);
    let mut i: usize = 0;
    while i < v.len()
        invariant
            i <= v@.len(),
            v@ == provider_id@,
            forall|k: int| 0 <= k < i ==> provider_id_char(#[trigger] v@[k]),
            trim(provider_id@).len() != 0,
        decreases v@.len() - i,
    {
        let c = v[i];
        if !(('a' <= c && c <= 'z') || ('0' <= c && c <= '9') || c == '-' || c == '_') {
            assert(!provider_id_char(provider_id@[i as int]));
            assert(!provider_id_chars(provider_id@));
            return Err(
                AuthStackError::validation(
                    "provider_id must contain only lowercase letters, digits, hyphen, or underscore",
                ),
            );
        }
        i += 1;
    }
    Ok(())
}

pub open spec fn has_ws(s: Seq<char>) -> bool {
    exists|i: int| 0 <= i < s.len() && is_ws(s[i])
}

/// A signing key id is non-blank once trimmed and holds no `/`, `\` or whitespace.
pub open spec fn signing_key_id_error(kid: Seq<char>) -> Option<Seq<char>> {
    let t = trim(kid);
    if t.len() == 0 {
        Some("kid is required"@)
    } else if t.contains('/') || t.contains('\\') || has_ws(t) {
        Some("kid is invalid"@)
    } else {
        None
    }
}

pub fn validate_signing_key_id(kid: &str) -> (r: AuthStackResult<()>)
    ensures
        outcome_is(r, signing_key_id_error(kid@)),
{
    let t = trimmed_chars(kid);
    proof {
        assert(t@.subrange(0, t@.len() as int) == t@);
    }
    if t.len() == 0 {
        return Err(AuthStackError::validation("kid is required"));
    }
    if range_has_char(&t, 0, t.len(), '/') || range_has_char(&t, 0, t.len(), '\\') {
        return Err(AuthStackError::validation("kid is invalid"));
    }
    let mut i: usize = 0;
    while i < t.len()
        invariant
            i <= t@.len(),
            forall|k: int| 0 <= k < i ==> !is_ws(t@[k]),
            t@ == trim(kid@),
            t@.len() != 0,
            !t@.contains('/'),
            !t@.contains('\\'),
        decreases t@.len() - i,
    {
        if char_is_ws(t[i]) {
            assert(has_ws(t@));
            return Err(AuthStackError::validation("kid is invalid"));
        }
        i += 1;
    }
    Ok(())
}

} // verus!
