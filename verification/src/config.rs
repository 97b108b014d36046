//! Deployment configuration: feature flags, limits and provider credentials,
//! decided over a snapshot of named configuration values.
//!
//! Reading the values (environment variables, runtime variables) is the
//! caller's part; every decision taken on them is here.

use vstd::prelude::*;

use crate::contracts::{AuthCapabilities, AuthProviderSummary};
use crate::error::{fails_with, AuthStackError, AuthStackResult, ErrorView};

use crate::text::{
    char_upper, chars_of, is_digit, lower_seq, lowercase_range, owned, push_char, push_str,
    range_is, str_eq, trim, trim_range, upper,
};
use crate::validation::{DEFAULT_PASSWORD_MIN_LENGTH, MAX_PASSWORD_LENGTH};

verus! {

// ---------------------------------------------------------------------------
// Truthy flag values
// ---------------------------------------------------------------------------

/// A flag value switches a feature on when, trimmed and lowercased, it is one
/// of `1`, `true`, `yes`, `on`, `enabled`.
pub open spec fn truthy_spec(value: Seq<char>) -> bool {
    let v = lower_seq(trim(value));
    v == "1"@ || v == "true"@ || v == "yes"@ || v == "on"@ || v == "enabled"@
}

/// Whether a configuration value switches a feature on.
pub fn truthy(value: &str) -> (r: bool)
    ensures
        r == truthy_spec(value@),
{
    let all = chars_of(value);
    let (a, b) = trim_range(&all, 0, all.len());
    proof {
        assert(all@.subrange(0, all@.len() as int) == all@);
    }
    let v = lowercase_range(&all, a, b);
    let n = v.len();
    proof {
        assert(v@.subrange(0, n as int) == v@);
    }
    range_is(&v, 0, n, "1") || range_is(&v, 0, n, "true") || range_is(&v, 0, n, "yes")
        || range_is(&v, 0, n, "on") || range_is(&v, 0, n, "enabled")
}

// ---------------------------------------------------------------------------
// Provider configuration names
// ---------------------------------------------------------------------------

/// A provider id as it appears inside a configuration name: ASCII uppercase,
/// with `-` and `.` turned into `_`.
pub open spec fn env_key_char(c: char) -> char {
    if c == '-' || c == '.' {
        '_'
    } else {
        upper(c)
    }
}

pub open spec fn env_key(provider_id: Seq<char>) -> Seq<char> {
    provider_id.map_values(|c: char| env_key_char(c))
}

/// `AUTH_<KEY><suffix>` for a provider id.
pub open spec fn provider_config_name(provider_id: Seq<char>, suffix: Seq<char>) -> Seq<char> {
    "AUTH_"@ + env_key(provider_id) + suffix
}

/// Appends `AUTH_<KEY><suffix>` for `provider_id` to `out`.
fn push_provider_config_name(out: &mut String, provider_id: &str, suffix: &str)
    ensures
        final(out)@ == old(out)@ + provider_config_name(provider_id@, suffix@),
{
    push_str(out, "AUTH_");
    let v = chars_of(provider_id);
    let ghost start = out@;
    let mut i: usize = 0;
    while i < v.len()
        invariant
            i <= v@.len(),
            v@ == provider_id@,
            out@ == start + env_key(v@.subrange(0, i as int)),
        decreases v@.len() - i,
    {
        let c = v[i];
        let k = if c == '-' || c == '.' {
            '_'
        } else {
            char_upper(c)
        };
        push_char(out, k);
        proof {
            assert(env_key(v@.subrange(0, i + 1)) =~= env_key(v@.subrange(0, i as int)).push(k));
        }
        i += 1;
    }
    proof {
        assert(v@.subrange(0, v@.len() as int) == v@);
    }
    push_str(out, suffix);
    proof {
        assert(start + env_key(v@) + suffix@ == old(out)@ + provider_config_name(
            provider_id@,
            suffix@,
        ));
    }
}

/// The name of the flag that switches a provider on: `AUTH_<KEY>_ENABLED`.
pub fn provider_enabled_env_name(provider_id: &str) -> (r: String)
    ensures
        r@ == provider_config_name(provider_id@, "_ENABLED"@),
{
    let mut s = String::new();
    push_provider_config_name(&mut s, provider_id, "_ENABLED");
    s
}

// ---------------------------------------------------------------------------
// Unsigned decimal parsing
// ---------------------------------------------------------------------------

pub open spec fn digit_value(c: char) -> nat {
    ((c as u32) - ('0' as u32)) as nat
}

/// The number that a string of decimal digits denotes.
pub open spec fn digits_value(s: Seq<char>) -> nat
    decreases s.len(),
{
    if s.len() == 0 {
        0
    } else {
        digits_value(s.drop_last()) * 10 + digit_value(s.last())
    }
}

/// What `str::parse` of an unsigned integer accepts: an optional `+` and one
/// or more ASCII digits, and nothing else (no spaces).
pub open spec fn parse_unsigned(s: Seq<char>) -> Option<nat> {
    let body = unsigned_body(s);
    if body.len() > 0 && all_digit_chars(body) {
        Some(digits_value(body))
    } else {
        None
    }
}

/// The digits of an unsigned literal, after its optional `+`.
pub open spec fn unsigned_body(s: Seq<char>) -> Seq<char> {
    if s.len() > 0 && s[0] == '+' {
        s.drop_first()
    } else {
        s
    }
}

pub open spec fn all_digit_chars(s: Seq<char>) -> bool {
    forall|i: int| 0 <= i < s.len() ==> is_digit(#[trigger] s[i])
}

/// The minimum password length that a configured value yields: the number it
/// denotes when that lies in the accepted range, else the default.
pub open spec fn min_length_from(value: Option<Seq<char>>) -> nat {
    match value {
        Some(v) => match parse_unsigned(v) {
            Some(n) => if DEFAULT_PASSWORD_MIN_LENGTH <= n <= MAX_PASSWORD_LENGTH {
                n
            } else {
                DEFAULT_PASSWORD_MIN_LENGTH as nat
            },
            None => DEFAULT_PASSWORD_MIN_LENGTH as nat,
        },
        None => DEFAULT_PASSWORD_MIN_LENGTH as nat,
    }
}

/// Parses an unsigned decimal, saturating at `cap`: `Some(min(n, cap))` for a
/// value that denotes `n`.
fn parse_unsigned_capped(value: &str, cap: usize) -> (r: Option<usize>)
    requires
        cap < usize::MAX / 10,
    ensures
        match parse_unsigned(value@) {
            Some(n) => r is Some && r->0 == (if n < cap {
                n
            } else {
                cap as nat
            }),
            None => r is None,
        },
{
    let v = chars_of(value);
    let start: usize = if v.len() > 0 && v[0] == '+' {
        1
    } else {
        0
    };
    let ghost body = v@.subrange(start as int, v@.len() as int);
    proof {
        if v@.len() > 0 && v@[0] == '+' {
            assert(body == v@.drop_first());
        } else {
            assert(body == v@);
        }
    }
    if start == v.len() {
        return None;
    }
    let mut acc: usize = 0;
    let mut i = start;
    while i < v.len()
        invariant
            start <= i <= v@.len(),
            start < v@.len(),
            cap < usize::MAX / 10,
            v@ == value@,
            body == v@.subrange(start as int, v@.len() as int),
            body == unsigned_body(value@),
            forall|k: int| start <= k < i ==> is_digit(#[trigger] v@[k]),
            acc == (if digits_value(v@.subrange(start as int, i as int)) < cap {
                digits_value(v@.subrange(start as int, i as int))
            } else {
                cap as nat
            }),
        decreases v@.len() - i,
    {
        let c = v[i];
        if !('0' <= c && c <= '9') {
            proof {
                let j = i - start;
                assert(body[j] == v@[i as int]);
                assert(!is_digit(body[j]));
                assert(!all_digit_chars(body));
            }
            return None;
        }
        let d = (c as u32 - '0' as u32) as usize;
        proof {
            let p = v@.subrange(start as int, i as int);
            let q = v@.subrange(start as int, i + 1);
            assert(q.drop_last() == p);
            assert(q.last() == c);
            assert(digits_value(q) == digits_value(p) * 10 + digit_value(c));
        }
        let next = acc * 10 + d;
        acc = if next < cap {
            next
        } else {
            cap
        };
        i += 1;
    }
    proof {
        assert(v@.subrange(start as int, v@.len() as int) == body);
        assert forall|k: int| 0 <= k < body.len() implies is_digit(#[trigger] body[k]) by {
            assert(body[k] == v@[start + k]);
        }
        assert(all_digit_chars(body));
    }
    Some(acc)
}

// ---------------------------------------------------------------------------
// A snapshot of configuration values
// ---------------------------------------------------------------------------

/// Configuration values by name, as read from the deployment.
#[derive(Debug)]
pub struct ConfigValues {
    pub entries: Vec<(String, String)>,
}

/// The value of the first entry named `name`.
pub open spec fn config_lookup(entries: Seq<(String, String)>, name: Seq<char>) -> Option<Seq<char>>
    decreases entries.len(),
{
    if entries.len() == 0 {
        None
    } else if entries[0].0@ == name {
        Some(entries[0].1@)
    } else {
        config_lookup(entries.drop_first(), name)
    }
}

/// A value is present when it is set and not blank.
pub open spec fn value_present(value: Option<Seq<char>>) -> bool {
    match value {
        Some(v) => trim(v).len() > 0,
        None => false,
    }
}

/// A feature flag: its value decides when set, else the default.
pub open spec fn flag_from(value: Option<Seq<char>>, default: bool) -> bool {
    match value {
        Some(v) => truthy_spec(v),
        None => default,
    }
}

/// Whether the provider has the credentials that its login needs.
pub open spec fn credentials_present(entries: Seq<(String, String)>, provider_id: Seq<char>) -> bool {
    let present = |name: Seq<char>| value_present(config_lookup(entries, name));
    if provider_id == "google"@ {
        present("AUTH_GOOGLE_CLIENT_ID"@) && present("AUTH_GOOGLE_CLIENT_SECRET"@)
    } else if provider_id == "facebook"@ {
        present("AUTH_FACEBOOK_CLIENT_ID"@) && present("AUTH_FACEBOOK_CLIENT_SECRET"@)
    } else if provider_id == "apple"@ {
        present("AUTH_APPLE_CLIENT_ID"@) && (present("AUTH_APPLE_GENERATED_CLIENT_SECRET"@) || (
        present("AUTH_APPLE_TEAM_ID"@) && present("AUTH_APPLE_KEY_ID"@) && present(
            "AUTH_APPLE_PRIVATE_KEY"@,
        )))
    } else {
        present(provider_config_name(provider_id, "_CLIENT_ID"@)) && present(
            provider_config_name(provider_id, "_CLIENT_SECRET"@),
        )
    }
}

impl ConfigValues {
    pub open spec fn lookup(&self, name: Seq<char>) -> Option<Seq<char>> {
        config_lookup(self.entries@, name)
    }

    /// The value named `name`, if it is set.
    pub fn config_value(&self, name: &str) -> (r: Option<String>)
        ensures
            match r {
                Some(v) => self.lookup(name@) == Some(v@),
                None => self.lookup(name@) is None,
            },
    {
        let mut i: usize = 0;
        proof {
            assert(self.entries@.subrange(0, self.entries@.len() as int) == self.entries@);
        }
        while i < self.entries.len()
            invariant
                i <= self.entries@.len(),
                self.lookup(name@) == config_lookup(
                    self.entries@.subrange(i as int, self.entries@.len() as int),
                    name@,
                ),
            decreases self.entries@.len() - i,
        {
            let ghost rest = self.entries@.subrange(i as int, self.entries@.len() as int);
            proof {
                assert(rest[0] == self.entries@[i as int]);
                assert(rest.drop_first() == self.entries@.subrange(
                    i + 1,
                    self.entries@.len() as int,
                ));
            }
            if str_eq(self.entries[i].0.as_str(), name) {
                return Some(owned(self.entries[i].1.as_str()));
            }
            i += 1;
        }
        None
    }

    /// Whether the value named `name` is set and not blank.
    pub fn value_is_present(&self, name: &str) -> (r: bool)
        ensures
            r == value_present(self.lookup(name@)),
    {
        match self.config_value(name) {
            Some(v) => {
                let t = chars_of(v.as_str());
                let (a, b) = trim_range(&t, 0, t.len());
                proof {
                    assert(t@.subrange(0, t@.len() as int) == t@);
                }
                a < b
            },
            None => false,
        }
    }

    /// A feature flag, with its default for an unset value.
    pub fn feature_enabled(&self, name: &str, default: bool) -> (r: bool)
        ensures
            r == flag_from(self.lookup(name@), default),
    {
        match self.config_value(name) {
            Some(v) => truthy(v.as_str()),
            None => default,
        }
    }

    /// The minimum password length of the deployment.
    pub fn password_min_length(&self) -> (r: usize)
        ensures
            r == min_length_from(self.lookup("AUTH_PASSWORD_MIN_LENGTH"@)),
            DEFAULT_PASSWORD_MIN_LENGTH <= r <= MAX_PASSWORD_LENGTH,
    {
        match self.config_value("AUTH_PASSWORD_MIN_LENGTH") {
            Some(v) => match parse_unsigned_capped(v.as_str(), 1000) {
                Some(n) => {
                    if DEFAULT_PASSWORD_MIN_LENGTH <= n && n <= MAX_PASSWORD_LENGTH {
                        n
                    } else {
                        DEFAULT_PASSWORD_MIN_LENGTH
                    }
                },
                None => DEFAULT_PASSWORD_MIN_LENGTH,
            },
            None => DEFAULT_PASSWORD_MIN_LENGTH,
        }
    }

    /// Whether session cookies carry `Secure`: an explicit, non-blank
    /// `AUTH_COOKIE_SECURE` decides; otherwise production mode does.
    pub fn session_cookie_secure_enabled(&self) -> (r: bool)
        ensures
            r == (if value_present(self.lookup("AUTH_COOKIE_SECURE"@)) {
                truthy_spec(self.lookup("AUTH_COOKIE_SECURE"@)->0)
            } else {
                flag_from(self.lookup("AUTH_PRODUCTION_MODE"@), false)
            }),
    {
        if self.value_is_present("AUTH_COOKIE_SECURE") {
            match self.config_value("AUTH_COOKIE_SECURE") {
                Some(v) => truthy(v.as_str()),
                None => false,
            }
        } else {
            self.feature_enabled("AUTH_PRODUCTION_MODE", false)
        }
    }

    /// Whether every one of `names` is set and not blank.
    pub fn all_config_values_present(&self, names: &[&str]) -> (r: bool)
        ensures
            r == forall|i: int| 0 <= i < names@.len() ==> value_present(
                #[trigger] self.lookup(names@[i]@),
            ),
    {
        let mut i: usize = 0;
        while i < names.len()
            invariant
                i <= names@.len(),
                forall|k: int| 0 <= k < i ==> value_present(#[trigger] self.lookup(names@[k]@)),
            decreases names@.len() - i,
        {
            if !self.value_is_present(names[i]) {
                return false;
            }
            i += 1;
        }
        true
    }

    /// Whether `AUTH_<KEY><suffix>` is set and not blank for a provider.
    fn provider_value_present(&self, provider_id: &str, suffix: &str) -> (r: bool)
        ensures
            r == value_present(self.lookup(provider_config_name(provider_id@, suffix@))),
    {
        let mut name = String::new();
        push_provider_config_name(&mut name, provider_id, suffix);
        self.value_is_present(name.as_str())
    }

    /// Whether a login provider has the credentials its flow needs.
    pub fn provider_has_credentials(&self, provider_id: &str) -> (r: bool)
        ensures
            r == credentials_present(self.entries@, provider_id@),
    {
        if str_eq(provider_id, "google") {
            self.value_is_present("AUTH_GOOGLE_CLIENT_ID") && self.value_is_present(
                "AUTH_GOOGLE_CLIENT_SECRET",
            )
        } else if str_eq(provider_id, "facebook") {
            self.value_is_present("AUTH_FACEBOOK_CLIENT_ID") && self.value_is_present(
                "AUTH_FACEBOOK_CLIENT_SECRET",
            )
        } else if str_eq(provider_id, "apple") {
            self.value_is_present("AUTH_APPLE_CLIENT_ID") && (self.value_is_present(
                "AUTH_APPLE_GENERATED_CLIENT_SECRET",
            ) || (self.value_is_present("AUTH_APPLE_TEAM_ID") && self.value_is_present(
                "AUTH_APPLE_KEY_ID",
            ) && self.value_is_present("AUTH_APPLE_PRIVATE_KEY")))
        } else {
            self.provider_value_present(provider_id, "_CLIENT_ID") && self.provider_value_present(
                provider_id,
                "_CLIENT_SECRET",
            )
        }
    }

    /// Whether a provider is switched on: stored as enabled, or switched on by
    /// its `AUTH_<KEY>_ENABLED` flag.
    pub fn provider_enabled(&self, provider_id: &str, stored_enabled: bool) -> (r: bool)
        ensures
            r == (stored_enabled || flag_from(
                self.lookup(provider_config_name(provider_id@, "_ENABLED"@)),
                false,
            )),
    {
        if stored_enabled {
            return true;
        }
        let name = provider_enabled_env_name(provider_id);
        self.feature_enabled(name.as_str(), false)
    }

    /// The public origin of the deployment.
    pub fn public_base_url(&self) -> (r: String)
        ensures
            r@ == (match self.lookup("AUTH_PUBLIC_BASE_URL"@) {
                Some(v) => v,
                None => "http://localhost:3008"@,
            }),
    {
        match self.config_value("AUTH_PUBLIC_BASE_URL") {
            Some(v) => v,
            None => owned("http://localhost:3008"),
        }
    }

    /// Whether the development OAuth callback shortcut is on (off by default).
    pub fn development_oauth_callback_bypass_enabled(&self) -> (r: bool)
        ensures
            r == flag_from(self.lookup("AUTH_OAUTH_DEVELOPMENT_CALLBACK_BYPASS"@), false),
    {
        self.feature_enabled("AUTH_OAUTH_DEVELOPMENT_CALLBACK_BYPASS", false)
    }

    /// Whether storage projections catch up after each write (on by default).
    pub fn storage_auto_catch_up_enabled(&self) -> (r: bool)
        ensures
            r == flag_from(self.lookup("AUTH_STORAGE_AUTO_CATCH_UP"@), true),
    {
        self.feature_enabled("AUTH_STORAGE_AUTO_CATCH_UP", true)
    }
}


// ---------------------------------------------------------------------------
// Sign-in providers
// ---------------------------------------------------------------------------

/// A provider is offered when it is switched on and has its credentials.
pub open spec fn provider_offered(entries: Seq<(String, String)>, p: AuthProviderSummary) -> bool {
    (p.enabled || flag_from(
        config_lookup(entries, provider_config_name(p.provider_id@, "_ENABLED"@)),
        false,
    )) && credentials_present(entries, p.provider_id@)
}

/// The providers that are offered, in order, each marked enabled.
pub open spec fn offered_providers(entries: Seq<(String, String)>, providers: Seq<AuthProviderSummary>) -> Seq<
    AuthProviderSummary,
>
    decreases providers.len(),
{
    if providers.len() == 0 {
        Seq::empty()
    } else {
        let rest = offered_providers(entries, providers.drop_last());
        let p = providers.last();
        if provider_offered(entries, p) {
            rest.push(AuthProviderSummary { enabled: true, ..p })
        } else {
            rest
        }
    }
}

/// `Some(k)` names the message `'<id>' ` framed by `before` and `after`.
pub open spec fn provider_message(before: Seq<char>, provider_id: Seq<char>, after: Seq<char>) -> Seq<
    char,
> {
    before + provider_id + after
}

fn provider_message_string(before: &str, provider_id: &str, after: &str) -> (r: String)
    ensures
        r@ == provider_message(before@, provider_id@, after@),
{
    let mut m = owned(before);
    push_str(&mut m, provider_id);
    push_str(&mut m, after);
    m
}

/// Why a provider cannot start an OAuth login: unknown, switched off, or
/// missing its credentials.
pub open spec fn provider_ready_error(
    entries: Seq<(String, String)>,
    provider_id: Seq<char>,
    found: Option<AuthProviderSummary>,
) -> Option<ErrorView> {
    match found {
        None => Some(
            ErrorView::NotFound(
                provider_message("OAuth provider '"@, provider_id, "' is not configured"@),
            ),
        ),
        Some(p) => if !(p.enabled || flag_from(
            config_lookup(entries, provider_config_name(provider_id, "_ENABLED"@)),
            false,
        )) {
            Some(
                ErrorView::Configuration(
                    provider_message("OAuth provider '"@, provider_id, "' is disabled"@),
                ),
            )
        } else if !credentials_present(entries, provider_id) {
            Some(
                ErrorView::Configuration(
                    provider_message("OAuth provider '"@, provider_id, "' is missing credentials"@),
                ),
            )
        } else {
            None
        },
    }
}

impl ConfigValues {
    /// The stored providers that are offered for sign-in, in order, each
    /// marked enabled.
    pub fn credentialed_providers(&self, providers: Vec<AuthProviderSummary>) -> (r: Vec<
        AuthProviderSummary,
    >)
        ensures
            r@ == offered_providers(self.entries@, providers@),
    {
        let ghost all = providers@;
        let mut rest = providers;
        let mut out: Vec<AuthProviderSummary> = Vec::new();
        let n = rest.len();
        let mut i: usize = 0;
        proof {
            assert(all.subrange(0, 0) =~= Seq::<AuthProviderSummary>::empty());
            assert(all.subrange(0, n as int) =~= all);
        }
        while i < n
            invariant
                i <= n == all.len(),
                rest@ == all.subrange(i as int, n as int),
                out@ == offered_providers(self.entries@, all.subrange(0, i as int)),
            decreases n - i,
        {
            let mut p = rest.remove(0);
            proof {
                assert(p == all[i as int]);
                assert(rest@ =~= all.subrange(i + 1, n as int));
                let pre = all.subrange(0, i + 1);
                assert(pre.drop_last() =~= all.subrange(0, i as int));
                assert(pre.last() == all[i as int]);
            }
            if self.provider_enabled(p.provider_id.as_str(), p.enabled)
                && self.provider_has_credentials(p.provider_id.as_str()) {
                p.enabled = true;
                out.push(p);
            }
            i += 1;
        }
        proof {
            assert(all.subrange(0, n as int) =~= all);
        }
        out
    }

    /// The provider an OAuth login starts with: it must be configured,
    /// switched on, and have its credentials; it is then marked enabled.
    pub fn ensure_oauth_provider_ready(&self, provider_id: &str, found: Option<AuthProviderSummary>) -> (r:
        AuthStackResult<AuthProviderSummary>)
        ensures
            fails_with(r, provider_ready_error(self.entries@, provider_id@, found)),
            r is Ok ==> found is Some && r->Ok_0 == (AuthProviderSummary { enabled: true, ..found->0 }),
    {
        match found {
            None => Err(
                AuthStackError::NotFound(
                    provider_message_string("OAuth provider '", provider_id, "' is not configured"),
                ),
            ),
            Some(mut p) => {
                if !self.provider_enabled(provider_id, p.enabled) {
                    return Err(
                        AuthStackError::Configuration(
                            provider_message_string("OAuth provider '", provider_id, "' is disabled"),
                        ),
                    );
                }
                if !self.provider_has_credentials(provider_id) {
                    return Err(
                        AuthStackError::Configuration(
                            provider_message_string(
                                "OAuth provider '",
                                provider_id,
                                "' is missing credentials",
                            ),
                        ),
                    );
                }
                p.enabled = true;
                Ok(p)
            },
        }
    }

    /// The sign-in methods on offer: password login (on by default), OAuth
    /// when switched on and some provider is offered, passkeys when switched on.
    pub fn auth_capabilities(&self, stored_providers: Vec<AuthProviderSummary>) -> (r: AuthCapabilities)
        ensures
            r.password_enabled == flag_from(self.lookup("AUTH_ENABLE_PASSWORD_LOGIN"@), true),
            r.passkeys_enabled == flag_from(self.lookup("AUTH_ENABLE_PASSKEYS"@), false),
            flag_from(self.lookup("AUTH_ENABLE_OAUTH"@), false) ==> r.providers@ == offered_providers(
                self.entries@,
                stored_providers@,
            ),
            !flag_from(self.lookup("AUTH_ENABLE_OAUTH"@), false) ==> r.providers@.len() == 0,
            r.oauth_enabled == (flag_from(self.lookup("AUTH_ENABLE_OAUTH"@), false)
                && r.providers@.len() > 0),
    {
        let password_enabled = self.feature_enabled("AUTH_ENABLE_PASSWORD_LOGIN", true);
        let oauth_enabled = self.feature_enabled("AUTH_ENABLE_OAUTH", false);
        let passkeys_enabled = self.feature_enabled("AUTH_ENABLE_PASSKEYS", false);
        let providers = if oauth_enabled {
            self.credentialed_providers(stored_providers)
        } else {
            Vec::new()
        };
        let has_providers = providers.len() > 0;
        AuthCapabilities {
            password_enabled,
            oauth_enabled: oauth_enabled && has_providers,
            passkeys_enabled,
            providers,
        }
    }
}

} // verus!
