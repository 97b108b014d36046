//! The error type that every application operation returns.

use vstd::prelude::*;

use crate::text::{owned, push_str};

verus! {

/// Failure of an authentication or workspace operation.
#[derive(Debug)]
pub enum AuthStackError {
    /// The request was malformed; the text says which field and why.
    Validation(String),
    /// The deployment is not configured for the request.
    Configuration(String),
    /// The addressed record does not exist.
    NotFound(String),
    /// No authenticated session accompanies the request.
    AuthRequired,
    /// The session may not perform the request.
    Forbidden,
    /// The presented credential is not accepted.
    InvalidToken,
}

pub type AuthStackResult<T> = Result<T, AuthStackError>;

/// The public code of each error kind, as clients see it.
pub open spec fn public_code_of(e: AuthStackError) -> Seq<char> {
    match e {
        AuthStackError::Validation(_) => "validation"@,
        AuthStackError::Configuration(_) => "configuration"@,
        AuthStackError::NotFound(_) => "not_found"@,
        AuthStackError::AuthRequired => "auth_required"@,
        AuthStackError::Forbidden => "forbidden"@,
        AuthStackError::InvalidToken => "invalid_token"@,
    }
}

/// The message of a validation error, if `e` is one.
pub open spec fn validation_text(e: AuthStackError) -> Option<Seq<char>> {
    match e {
        AuthStackError::Validation(m) => Some(m@),
        _ => None,
    }
}

/// `r` is the outcome that the optional validation message `expected` describes:
/// success for `None`, a validation error with exactly that text for `Some`.
pub open spec fn outcome_is(r: AuthStackResult<()>, expected: Option<Seq<char>>) -> bool {
    match expected {
        None => r is Ok,
        Some(m) => r is Err && validation_text(r->Err_0) == Some(m),
    }
}

/// An error as the contracts speak of it: its kind, and its text as a
/// character sequence.
pub enum ErrorView {
    Validation(Seq<char>),
    Configuration(Seq<char>),
    NotFound(Seq<char>),
    AuthRequired,
    Forbidden,
    InvalidToken,
}

pub open spec fn error_view(e: AuthStackError) -> ErrorView {
    match e {
        AuthStackError::Validation(m) => ErrorView::Validation(m@),
        AuthStackError::Configuration(m) => ErrorView::Configuration(m@),
        AuthStackError::NotFound(m) => ErrorView::NotFound(m@),
        AuthStackError::AuthRequired => ErrorView::AuthRequired,
        AuthStackError::Forbidden => ErrorView::Forbidden,
        AuthStackError::InvalidToken => ErrorView::InvalidToken,
    }
}

/// `r` fails exactly when `expected` names an error, and then with that error.
pub open spec fn fails_with<T>(r: AuthStackResult<T>, expected: Option<ErrorView>) -> bool {
    match expected {
        None => r is Ok,
        Some(e) => r is Err && error_view(r->Err_0) == e,
    }
}

impl AuthStackError {
    /// A validation error with the given text.
    pub fn validation(message: &str) -> (e: AuthStackError)
        ensures
            validation_text(e) == Some(message@),
    {
        AuthStackError::Validation(owned(message))
    }

    /// A validation error whose text is `label` followed by `suffix`.
    pub fn validation_labelled(label: &str, suffix: &str) -> (e: AuthStackError)
        ensures
            validation_text(e) == Some(label@ + suffix@),
    {
        let mut m = owned(label);
        push_str(&mut m, suffix);
        AuthStackError::Validation(m)
    }

    /// A configuration error with the given text.
    pub fn configuration(message: &str) -> (e: AuthStackError)
        ensures
            e matches AuthStackError::Configuration(m) && m@ == message@,
    {
        AuthStackError::Configuration(owned(message))
    }

    /// A not-found error with the given text.
    pub fn not_found(message: &str) -> (e: AuthStackError)
        ensures
            e matches AuthStackError::NotFound(m) && m@ == message@,
    {
        AuthStackError::NotFound(owned(message))
    }

    /// The stable code that clients branch on.
    pub fn public_code(&self) -> (code: &'static str)
        ensures
            code@ == public_code_of(*self),
    {
        match self {
            AuthStackError::Validation(_) => "validation",
            AuthStackError::Configuration(_) => "configuration",
            AuthStackError::NotFound(_) => "not_found",
            AuthStackError::AuthRequired => "auth_required",
            AuthStackError::Forbidden => "forbidden",
            AuthStackError::InvalidToken => "invalid_token",
        }
    }

    /// Whether the error was caused by the request rather than by the server.
    pub fn is_client_error(&self) -> (r: bool)
        ensures
            r == !(*self is Configuration),
    {
        !matches!(self, AuthStackError::Configuration(_))
    }
}

} // verus!
