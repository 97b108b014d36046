//! Decisions of the passkey page: which screen it shows, what the ceremony
//! screen says, and whether a passkey can be created here.

use vstd::prelude::*;

use crate::browser::{is_passkey_cancel_message, passkey_cancel_message};
use crate::contracts::PasskeyStartRequest;
use crate::text::owned;

verus! {

/// Where the page is in the registration of a passkey.
pub struct PasskeyProgress {
    pub start_pending: bool,
    pub verify_pending: bool,
    /// The server answered the start with the options for the prompt.
    pub start_ok: bool,
    pub start_failed: bool,
    pub verify_ok: bool,
    pub verify_failed: bool,
    /// The error the browser side reported.
    pub client_error: Option<String>,
}

/// What the page shows, one at a time.
#[derive(Clone, Copy, Debug, PartialEq, Eq, Structural)]
pub enum PasskeyScreen {
    /// The prompt is running, or it failed: the page stays on it.
    Ceremony,
    /// The passkey was saved.
    Registered,
    Overview,
}

/// The ceremony has begun or left an error behind.
pub open spec fn ceremony_active(p: PasskeyProgress) -> bool {
    p.start_pending || p.verify_pending || p.start_ok || p.client_error is Some || p.start_failed
        || p.verify_failed
}

/// The ceremony ended in an error.
pub open spec fn ceremony_failed(p: PasskeyProgress) -> bool {
    p.client_error is Some || p.start_failed || p.verify_failed
}

/// The user closed the browser's prompt.
pub open spec fn ceremony_cancelled(p: PasskeyProgress) -> bool {
    p.client_error matches Some(m) && passkey_cancel_message(m@)
}

pub fn passkey_screen(p: &PasskeyProgress) -> (r: PasskeyScreen)
    ensures
        r == if ceremony_active(*p) && !p.verify_ok {
            PasskeyScreen::Ceremony
        } else if p.verify_ok {
            PasskeyScreen::Registered
        } else {
            PasskeyScreen::Overview
        },
{
    let active = p.start_pending || p.verify_pending || p.start_ok || p.client_error.is_some()
        || p.start_failed || p.verify_failed;
    if active && !p.verify_ok {
        PasskeyScreen::Ceremony
    } else if p.verify_ok {
        PasskeyScreen::Registered
    } else {
        PasskeyScreen::Overview
    }
}

fn cancelled(p: &PasskeyProgress) -> (r: bool)
    ensures
        r == ceremony_cancelled(*p),
{
    match &p.client_error {
        Some(m) => is_passkey_cancel_message(m.as_str()),
        None => false,
    }
}

/// The heading of the ceremony screen.
pub fn ceremony_title(p: &PasskeyProgress) -> (r: &'static str)
    ensures
        r@ == if ceremony_cancelled(*p) {
            "Passkey not created"@
        } else if ceremony_failed(*p) {
            "Could not create passkey"@
        } else {
            "Confirm with your device"@
        },
{
    if cancelled(p) {
        "Passkey not created"
    } else if p.client_error.is_some() || p.start_failed || p.verify_failed {
        "Could not create passkey"
    } else {
        "Confirm with your device"
    }
}

/// The explanation under the heading of the ceremony screen.
pub fn ceremony_lede(p: &PasskeyProgress) -> (r: &'static str)
    ensures
        r@ == if ceremony_cancelled(*p) {
            "You closed the browser prompt. Try again when you're ready, or use a different device / security key."@
        } else if ceremony_failed(*p) {
            "You can retry the browser prompt, or go back and try another device / security key."@
        } else {
            "Use Face ID, Touch ID, Windows Hello, a phone QR passkey, or a security key. Keep this tab open until the prompt finishes."@
        },
{
    if cancelled(p) {
        "You closed the browser prompt. Try again when you're ready, or use a different device / security key."
    } else if p.client_error.is_some() || p.start_failed || p.verify_failed {
        "You can retry the browser prompt, or go back and try another device / security key."
    } else {
        "Use Face ID, Touch ID, Windows Hello, a phone QR passkey, or a security key. Keep this tab open until the prompt finishes."
    }
}

/// The progress line of the ceremony screen.
pub fn ceremony_status(p: &PasskeyProgress) -> (r: &'static str)
    ensures
        r@ == if p.verify_pending {
            "Saving passkey to your account\u{2026}"@
        } else if p.start_pending {
            "Starting secure registration\u{2026}"@
        } else {
            "Follow the prompt on your device"@
        },
{
    if p.verify_pending {
        "Saving passkey to your account\u{2026}"
    } else if p.start_pending {
        "Starting secure registration\u{2026}"
    } else {
        "Follow the prompt on your device"
    }
}

/// Whether the browser's error is shown as a banner: not for a closed prompt,
/// which the text above already explains.
pub fn ceremony_error_shown(p: &PasskeyProgress) -> (r: bool)
    ensures
        r == (p.client_error is Some && !ceremony_cancelled(*p)),
{
    p.client_error.is_some() && !cancelled(p)
}

/// The panel of the overview screen.
#[derive(Clone, Copy, Debug, PartialEq, Eq, Structural)]
pub enum PasskeyPanel {
    /// The deployment's settings are still loading.
    Loading,
    /// Passkeys are switched off for the deployment.
    Disabled,
    /// This browser has no passkey support.
    Unsupported,
    /// The create button.
    Ready,
}

pub fn passkey_panel(caps_loaded: bool, passkeys_enabled: bool, device_supported: bool) -> (r:
    PasskeyPanel)
    ensures
        r == if !caps_loaded {
            PasskeyPanel::Loading
        } else if !passkeys_enabled {
            PasskeyPanel::Disabled
        } else if !device_supported {
            PasskeyPanel::Unsupported
        } else {
            PasskeyPanel::Ready
        },
{
    if !caps_loaded {
        PasskeyPanel::Loading
    } else if !passkeys_enabled {
        PasskeyPanel::Disabled
    } else if !device_supported {
        PasskeyPanel::Unsupported
    } else {
        PasskeyPanel::Ready
    }
}

/// The badge next to the heading, and whether it is the "on" kind.
pub fn passkey_badge(caps_loaded: bool, passkeys_enabled: bool, device_supported: bool) -> (r: (
    &'static str,
    bool,
))
    ensures
        r.0@ == if !caps_loaded {
            "Loading"@
        } else if passkeys_enabled && device_supported {
            "Available"@
        } else {
            "Not ready"@
        },
        r.1 == (passkeys_enabled && device_supported),
{
    let on = passkeys_enabled && device_supported;
    let label = if !caps_loaded {
        "Loading"
    } else if on {
        "Available"
    } else {
        "Not ready"
    };
    (label, on)
}

/// The deployment line of the status list.
pub fn passkey_deployment_label(caps_loaded: bool, caps_error: bool, passkeys_enabled: bool) -> (r:
    &'static str)
    ensures
        r@ == if !caps_loaded {
            "Checking\u{2026}"@
        } else if caps_error {
            "Error"@
        } else if passkeys_enabled {
            "Enabled"@
        } else {
            "Disabled"@
        },
{
    if !caps_loaded {
        "Checking\u{2026}"
    } else if caps_error {
        "Error"
    } else if passkeys_enabled {
        "Enabled"
    } else {
        "Disabled"
    }
}

/// The account line of the status list.
pub fn passkey_account_label(email: &Option<String>) -> (r: String)
    ensures
        r@ == match email {
            Some(e) => e@,
            None => "your account"@,
        },
{
    match email {
        Some(e) => owned(e.as_str()),
        None => owned("your account"),
    }
}

/// The request that starts registering a passkey for the account's email,
/// coming back to the passkey page; `None` while the account has no email
/// (the button is disabled then).
pub fn passkey_registration_request(email: &Option<String>) -> (r: Option<PasskeyStartRequest>)
    ensures
        email is None ==> r is None,
        email matches Some(e) ==> r matches Some(q) && (q.email matches Some(x) && x@ == e@)
            && (q.redirect_url matches Some(u) && u@ == "/account/passkeys"@),
{
    match email {
        Some(e) => Some(
            PasskeyStartRequest {
                email: Some(owned(e.as_str())),
                redirect_url: Some(owned("/account/passkeys")),
            },
        ),
        None => None,
    }
}

} // verus!
