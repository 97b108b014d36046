//! The email sign-in and registration form as a state machine: what each
//! click, edit and server answer does to the form, and which request it sends.
//!
//! Signing in takes two steps (the email first, then the password); creating
//! a workspace asks for both at once. A passkey can be used instead of the
//! password, either by a click or through the browser's autofill.

use vstd::prelude::*;

use crate::contracts::{EmailPasswordLoginRequest, EmailPasswordRegisterRequest, PasskeyStartRequest};
use crate::labels::{
    email_only_error, login_form_error, selected_auth_error, server_error_spec, server_error_text,
    validate_email_only, validate_login_form,
};
use crate::text::{
    chars_of, contains_seq, lower_seq, lowercase_range, opt_is, owned, range_contains, trim,
    trimmed_string,
};

verus! {

/// The state of the sign-in form.
pub struct SignInForm {
    /// Creating a workspace rather than signing in.
    pub register_mode: bool,
    /// The password field is shown.
    pub password_step: bool,
    pub email: String,
    pub password: String,
    /// The one error line of the form.
    pub client_error: Option<String>,
    /// A passkey autofill request was made for the current email.
    pub conditional_armed: bool,
    /// The running passkey request is the silent autofill kind.
    pub conditional_mediation: bool,
    /// A registration went through; the form gives way to the inbox notice.
    pub registration_complete: bool,
}

/// What the form asks the application to send.
pub enum SignInAction {
    Nothing,
    Login(EmailPasswordLoginRequest),
    Register(EmailPasswordRegisterRequest),
}

/// The error text shown when a passkey cannot be started on a click: the
/// server's generic credential errors are replaced by a clearer hint.
pub open spec fn passkey_start_error_spec(text: Seq<char>) -> Seq<char> {
    let t = server_error_spec(text);
    let l = lower_seq(t);
    if contains_seq(l, "incorrect"@) || contains_seq(l, "invalid credential"@) || contains_seq(
        l,
        "not found"@,
    ) {
        "No passkey is available for this email. Sign in with your password, then add a passkey in Account \u{2192} Passkeys."@
    } else {
        t
    }
}

pub fn passkey_start_error_text(text: &str) -> (r: String)
    ensures
        r@ == passkey_start_error_spec(text@),
{
    let t = server_error_text(text);
    let v = chars_of(t.as_str());
    let n = v.len();
    let l = lowercase_range(&v, 0, n);
    let m = l.len();
    proof {
        assert(v@.subrange(0, n as int) =~= v@);
        assert(l@.subrange(0, m as int) =~= l@);
    }
    if range_contains(&l, 0, m, "incorrect") || range_contains(&l, 0, m, "invalid credential")
        || range_contains(&l, 0, m, "not found") {
        owned(
            "No passkey is available for this email. Sign in with your password, then add a passkey in Account \u{2192} Passkeys.",
        )
    } else {
        t
    }
}

/// The action sends a login (or, with `register`, a registration) for the
/// given email, password and return target.
pub open spec fn sends(
    r: SignInAction,
    register: bool,
    email: Seq<char>,
    password: Seq<char>,
    next_url: String,
) -> bool {
    match r {
        SignInAction::Login(q) => !register && q.email@ == email && q.password@ == password
            && q.redirect_url == Some(next_url),
        SignInAction::Register(q) => register && q.email@ == email && q.password@ == password
            && q.redirect_url == Some(next_url),
        SignInAction::Nothing => false,
    }
}

impl SignInForm {
    /// A fresh form; the registration page opens in registration mode, with
    /// the password field shown.
    pub fn new(register_default: bool) -> (r: SignInForm)
        ensures
            r.register_mode == register_default,
            r.password_step == register_default,
            r.email@.len() == 0,
            r.password@.len() == 0,
            r.client_error is None,
            !r.conditional_armed,
            !r.conditional_mediation,
            !r.registration_complete,
    {
        SignInForm {
            register_mode: register_default,
            password_step: register_default,
            email: String::new(),
            password: String::new(),
            client_error: None,
            conditional_armed: false,
            conditional_mediation: false,
            registration_complete: false,
        }
    }

    /// Submits the form. On the email step of a sign-in this only checks the
    /// email and moves on to the password; otherwise it checks both fields and
    /// asks for the login or registration request, with the trimmed email and
    /// `next_url` as the place to return to. A failed check becomes the form's
    /// error and sends nothing.
    pub fn submit_credentials(&mut self, next_url: String) -> (r: SignInAction)
        ensures
            final(self).register_mode == old(self).register_mode,
            final(self).password@ == old(self).password@,
            final(self).conditional_mediation == old(self).conditional_mediation,
            final(self).registration_complete == old(self).registration_complete,
            !old(self).register_mode && !old(self).password_step ==> ({
                let e = trim(old(self).email@);
                &&& r is Nothing
                &&& match email_only_error(e) {
                    Some(m) => {
                        &&& opt_is(final(self).client_error, m)
                        &&& final(self).email@ == old(self).email@
                        &&& !final(self).password_step
                        &&& final(self).conditional_armed == old(self).conditional_armed
                    },
                    None => {
                        &&& final(self).client_error is None
                        &&& final(self).email@ == e
                        &&& final(self).password_step
                        &&& !final(self).conditional_armed
                    },
                }
            }),
            old(self).register_mode || old(self).password_step ==> ({
                let e = trim(old(self).email@);
                &&& final(self).email@ == old(self).email@
                &&& final(self).password_step == old(self).password_step
                &&& final(self).conditional_armed == old(self).conditional_armed
                &&& match login_form_error(e, old(self).password@, old(self).register_mode) {
                    Some(m) => r is Nothing && opt_is(final(self).client_error, m),
                    None => final(self).client_error is None && sends(
                        r,
                        old(self).register_mode,
                        e,
                        old(self).password@,
                        next_url,
                    ),
                }
            }),
    {
        let email_value = trimmed_string(self.email.as_str());
        if !self.register_mode && !self.password_step {
            match validate_email_only(email_value.as_str()) {
                Err(e) => {
                    self.client_error = Some(e);
                    return SignInAction::Nothing;
                },
                Ok(()) => {},
            }
            self.email = email_value;
            self.client_error = None;
            self.password_step = true;
            self.conditional_armed = false;
            return SignInAction::Nothing;
        }
        match validate_login_form(email_value.as_str(), self.password.as_str(), self.register_mode) {
            Err(e) => {
                self.client_error = Some(e);
                return SignInAction::Nothing;
            },
            Ok(()) => {},
        }
        self.client_error = None;
        let password = owned(self.password.as_str());
        if self.register_mode {
            SignInAction::Register(
                EmailPasswordRegisterRequest {
                    email: email_value,
                    password,
                    redirect_url: Some(next_url),
                },
            )
        } else {
            SignInAction::Login(
                EmailPasswordLoginRequest {
                    email: email_value,
                    password,
                    redirect_url: Some(next_url),
                },
            )
        }
    }

    /// Starts a passkey sign-in on a click. The email must pass the email
    /// check; if it does not, the form returns to the email step with the
    /// error. Otherwise the request carries the trimmed email, the prompt is
    /// the visible kind, and no autofill request is made after it.
    pub fn start_passkey_modal(&mut self, next_url: String) -> (r: Option<PasskeyStartRequest>)
        ensures
            final(self).register_mode == old(self).register_mode,
            final(self).email@ == old(self).email@,
            final(self).password@ == old(self).password@,
            final(self).registration_complete == old(self).registration_complete,
            match email_only_error(trim(old(self).email@)) {
                Some(m) => {
                    &&& r is None
                    &&& opt_is(final(self).client_error, m)
                    &&& !final(self).password_step
                    &&& final(self).conditional_armed == old(self).conditional_armed
                    &&& final(self).conditional_mediation == old(self).conditional_mediation
                },
                None => {
                    &&& r matches Some(q) && opt_is(q.email, trim(old(self).email@))
                        && q.redirect_url == Some(next_url)
                    &&& final(self).client_error is None
                    &&& final(self).password_step == old(self).password_step
                    &&& final(self).conditional_armed
                    &&& !final(self).conditional_mediation
                },
            },
    {
        let email_value = trimmed_string(self.email.as_str());
        match validate_email_only(email_value.as_str()) {
            Err(e) => {
                self.client_error = Some(e);
                self.password_step = false;
                return None;
            },
            Ok(()) => {},
        }
        self.client_error = None;
        self.conditional_mediation = false;
        self.conditional_armed = true;
        Some(PasskeyStartRequest { email: Some(email_value), redirect_url: Some(next_url) })
    }

    /// The passkey autofill request: made once per email, when signing in on
    /// the password step of a deployment with passkeys switched on and the
    /// email passes the email check.
    pub fn arm_conditional_passkey(&mut self, passkeys_enabled: bool, next_url: String) -> (r:
        Option<PasskeyStartRequest>)
        ensures
            ({
                let ready = !old(self).register_mode && old(self).password_step && passkeys_enabled
                    && !old(self).conditional_armed && email_only_error(old(self).email@) is None;
                &&& r is Some <==> ready
                &&& final(self).conditional_armed == (old(self).conditional_armed || ready)
                &&& r matches Some(q) ==> opt_is(q.email, trim(old(self).email@))
                    && q.redirect_url == Some(next_url)
            }),
            final(self).register_mode == old(self).register_mode,
            final(self).password_step == old(self).password_step,
            final(self).email@ == old(self).email@,
            final(self).password@ == old(self).password@,
            final(self).client_error == old(self).client_error,
            final(self).conditional_mediation == old(self).conditional_mediation,
            final(self).registration_complete == old(self).registration_complete,
    {
        if self.register_mode || !self.password_step || !passkeys_enabled || self.conditional_armed {
            return None;
        }
        match validate_email_only(self.email.as_str()) {
            Err(_) => {
                return None;
            },
            Ok(()) => {},
        }
        self.conditional_armed = true;
        let email_value = trimmed_string(self.email.as_str());
        Some(PasskeyStartRequest { email: Some(email_value), redirect_url: Some(next_url) })
    }

    /// The browser offers passkeys in its autofill: the request about to be
    /// sent is the silent kind, whose failures the form does not show.
    pub fn begin_conditional(&mut self)
        ensures
            final(self).conditional_mediation,
            final(self).register_mode == old(self).register_mode,
            final(self).password_step == old(self).password_step,
            final(self).email@ == old(self).email@,
            final(self).password@ == old(self).password@,
            final(self).client_error == old(self).client_error,
            final(self).conditional_armed == old(self).conditional_armed,
            final(self).registration_complete == old(self).registration_complete,
    {
        self.conditional_mediation = true;
    }

    /// The "Sign in" tab: back to the email step, with the password cleared.
    pub fn choose_sign_in(&mut self)
        ensures
            !final(self).register_mode,
            !final(self).password_step,
            final(self).password@.len() == 0,
            !final(self).conditional_armed,
            final(self).client_error is None,
            final(self).email@ == old(self).email@,
            final(self).conditional_mediation == old(self).conditional_mediation,
            final(self).registration_complete == old(self).registration_complete,
    {
        self.register_mode = false;
        self.password_step = false;
        self.password = String::new();
        self.conditional_armed = false;
        self.client_error = None;
    }

    /// The "Create workspace" tab: both fields shown.
    pub fn choose_register(&mut self)
        ensures
            final(self).register_mode,
            final(self).password_step,
            !final(self).conditional_armed,
            final(self).client_error is None,
            final(self).email@ == old(self).email@,
            final(self).password@ == old(self).password@,
            final(self).conditional_mediation == old(self).conditional_mediation,
            final(self).registration_complete == old(self).registration_complete,
    {
        self.register_mode = true;
        self.password_step = true;
        self.conditional_armed = false;
        self.client_error = None;
    }

    /// Typing in the email field clears the error and allows a new autofill request.
    pub fn edit_email(&mut self, value: String)
        ensures
            final(self).email == value,
            final(self).client_error is None,
            !final(self).conditional_armed,
            final(self).register_mode == old(self).register_mode,
            final(self).password_step == old(self).password_step,
            final(self).password@ == old(self).password@,
            final(self).conditional_mediation == old(self).conditional_mediation,
            final(self).registration_complete == old(self).registration_complete,
    {
        self.email = value;
        self.client_error = None;
        self.conditional_armed = false;
    }

    /// Typing in the password field clears the error.
    pub fn edit_password(&mut self, value: String)
        ensures
            final(self).password == value,
            final(self).client_error is None,
            final(self).email@ == old(self).email@,
            final(self).register_mode == old(self).register_mode,
            final(self).password_step == old(self).password_step,
            final(self).conditional_armed == old(self).conditional_armed,
            final(self).conditional_mediation == old(self).conditional_mediation,
            final(self).registration_complete == old(self).registration_complete,
    {
        self.password = value;
        self.client_error = None;
    }

    /// "Use a different email": back to the email step, with the password cleared.
    pub fn use_different_email(&mut self)
        ensures
            !final(self).password_step,
            final(self).password@.len() == 0,
            !final(self).conditional_armed,
            final(self).client_error is None,
            final(self).email@ == old(self).email@,
            final(self).register_mode == old(self).register_mode,
            final(self).conditional_mediation == old(self).conditional_mediation,
            final(self).registration_complete == old(self).registration_complete,
    {
        self.password_step = false;
        self.password = String::new();
        self.conditional_armed = false;
        self.client_error = None;
    }

    /// A registration went through.
    pub fn registration_succeeded(&mut self)
        ensures
            final(self).registration_complete,
            final(self).register_mode == old(self).register_mode,
            final(self).password_step == old(self).password_step,
            final(self).email@ == old(self).email@,
            final(self).password@ == old(self).password@,
            final(self).client_error == old(self).client_error,
            final(self).conditional_armed == old(self).conditional_armed,
            final(self).conditional_mediation == old(self).conditional_mediation,
    {
        self.registration_complete = true;
    }

    /// The server refused to start a passkey sign-in: shown for a click (with
    /// the clearer hint for credential errors), never for autofill.
    pub fn passkey_start_failed(&mut self, error: &str)
        ensures
            old(self).conditional_mediation ==> final(self).client_error == old(self).client_error,
            !old(self).conditional_mediation ==> opt_is(
                final(self).client_error,
                passkey_start_error_spec(error@),
            ),
            final(self).register_mode == old(self).register_mode,
            final(self).password_step == old(self).password_step,
            final(self).email@ == old(self).email@,
            final(self).password@ == old(self).password@,
            final(self).conditional_armed == old(self).conditional_armed,
            final(self).conditional_mediation == old(self).conditional_mediation,
            final(self).registration_complete == old(self).registration_complete,
    {
        if !self.conditional_mediation {
            self.client_error = Some(passkey_start_error_text(error));
        }
    }

    /// The server refused the passkey: shown unless the request was the autofill kind.
    pub fn passkey_verify_failed(&mut self, error: &str)
        ensures
            old(self).conditional_mediation ==> final(self).client_error == old(self).client_error,
            !old(self).conditional_mediation ==> opt_is(
                final(self).client_error,
                server_error_spec(error@),
            ),
            final(self).register_mode == old(self).register_mode,
            final(self).password_step == old(self).password_step,
            final(self).email@ == old(self).email@,
            final(self).password@ == old(self).password@,
            final(self).conditional_armed == old(self).conditional_armed,
            final(self).conditional_mediation == old(self).conditional_mediation,
            final(self).registration_complete == old(self).registration_complete,
    {
        if !self.conditional_mediation {
            self.client_error = Some(server_error_text(error));
        }
    }

    /// The browser's passkey prompt failed with `message`. Autofill failures,
    /// an idle autofill and a prompt the user closed are not errors.
    pub fn passkey_prompt_failed(&mut self, message: &str)
        ensures
            ({
                let quiet = old(self).conditional_mediation || contains_seq(
                    message@,
                    "PASSKEY_CONDITIONAL_IDLE"@,
                ) || contains_seq(message@, "cancelled"@);
                &&& quiet ==> final(self).client_error == old(self).client_error
                &&& !quiet ==> opt_is(final(self).client_error, message@)
            }),
            final(self).register_mode == old(self).register_mode,
            final(self).password_step == old(self).password_step,
            final(self).email@ == old(self).email@,
            final(self).password@ == old(self).password@,
            final(self).conditional_armed == old(self).conditional_armed,
            final(self).conditional_mediation == old(self).conditional_mediation,
            final(self).registration_complete == old(self).registration_complete,
    {
        let v = chars_of(message);
        let n = v.len();
        proof {
            assert(v@.subrange(0, n as int) =~= v@);
        }
        if self.conditional_mediation || range_contains(&v, 0, n, "PASSKEY_CONDITIONAL_IDLE")
            || range_contains(&v, 0, n, "cancelled") {
            return;
        }
        self.client_error = Some(owned(message));
    }

    /// The browser answered with a credential the form could not read.
    pub fn passkey_response_unreadable(&mut self, message: &str)
        ensures
            old(self).conditional_mediation ==> final(self).client_error == old(self).client_error,
            !old(self).conditional_mediation ==> opt_is(final(self).client_error, message@),
            final(self).register_mode == old(self).register_mode,
            final(self).password_step == old(self).password_step,
            final(self).email@ == old(self).email@,
            final(self).password@ == old(self).password@,
            final(self).conditional_armed == old(self).conditional_armed,
            final(self).conditional_mediation == old(self).conditional_mediation,
            final(self).registration_complete == old(self).registration_complete,
    {
        if !self.conditional_mediation {
            self.client_error = Some(owned(message));
        }
    }

    /// The heading.
    pub fn title(&self) -> (r: &'static str)
        ensures
            r@ == if self.register_mode {
                "Create your workspace"@
            } else {
                "Welcome back"@
            },
    {
        if self.register_mode {
            "Create your workspace"
        } else {
            "Welcome back"
        }
    }

    /// The line under the heading.
    pub fn lede(&self) -> (r: &'static str)
        ensures
            r@ == if self.register_mode {
                "Set up a password-backed workspace session."@
            } else if self.password_step {
                "Enter your password to continue."@
            } else {
                "Enter your email to continue."@
            },
    {
        if self.register_mode {
            "Set up a password-backed workspace session."
        } else if self.password_step {
            "Enter your password to continue."
        } else {
            "Enter your email to continue."
        }
    }

    /// The submit button's label while a request is or is not `pending`.
    pub fn submit_label(&self, pending: bool) -> (r: &'static str)
        ensures
            r@ == if pending {
                if self.register_mode {
                    "Creating workspace"@
                } else {
                    "Signing in"@
                }
            } else if self.register_mode {
                "Create workspace"@
            } else if self.password_step {
                "Sign in"@
            } else {
                "Continue"@
            },
    {
        if pending {
            if self.register_mode {
                "Creating workspace"
            } else {
                "Signing in"
            }
        } else if self.register_mode {
            "Create workspace"
        } else if self.password_step {
            "Sign in"
        } else {
            "Continue"
        }
    }

    /// The one error line: the form's own error first, else the error of the
    /// login or registration answer for the current mode.
    pub fn error_line(
        &self,
        login_result: Option<Result<(), String>>,
        register_result: Option<Result<(), String>>,
    ) -> (r: Option<String>)
        ensures
            match self.client_error {
                Some(c) => r matches Some(t) && t@ == c@,
                None => match (if self.register_mode {
                    register_result
                } else {
                    login_result
                }) {
                    Some(Err(e)) => r matches Some(t) && t@ == server_error_spec(e@),
                    _ => r is None,
                },
            },
    {
        match &self.client_error {
            Some(c) => Some(owned(c.as_str())),
            None => selected_auth_error(self.register_mode, login_result, register_result),
        }
    }
}

} // verus!
