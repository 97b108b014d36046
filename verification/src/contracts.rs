//! Request and response records exchanged with the browser and the API.

use vstd::prelude::*;

verus! {

#[derive(Debug)]
pub struct EmailPasswordLoginRequest {
    pub email: String,
    pub password: String,
    pub redirect_url: Option<String>,
}

#[derive(Debug)]
pub struct EmailPasswordRegisterRequest {
    pub email: String,
    pub password: String,
    pub redirect_url: Option<String>,
}

#[derive(Debug)]
pub struct PasswordResetStartRequest {
    pub email: String,
    pub redirect_url: Option<String>,
}

#[derive(Debug)]
pub struct PasswordResetCompleteRequest {
    pub token: String,
    pub password: String,
    pub redirect_url: Option<String>,
}

#[derive(Debug)]
pub struct EmailVerificationCompleteRequest {
    pub token: String,
    pub redirect_url: Option<String>,
}

#[derive(Debug)]
pub struct EmailVerificationResendRequest {
    pub email: String,
    pub redirect_url: Option<String>,
}

#[derive(Debug)]
pub struct PasskeyStartRequest {
    pub email: Option<String>,
    pub redirect_url: Option<String>,
}

#[derive(Debug)]
pub struct PasskeyVerifyRequest {
    pub challenge_id: String,
    pub credential_json: String,
    pub redirect_url: Option<String>,
}

#[derive(Debug)]
pub struct OAuthCallbackRequest {
    pub provider_id: String,
    pub code: Option<String>,
    pub state: Option<String>,
}

#[derive(Debug)]
pub struct PasswordChangeRequest {
    pub current_password: String,
    pub new_password: String,
}

#[derive(Debug)]
pub struct MfaCodeRequest {
    pub code: String,
}

#[derive(Debug)]
pub struct SessionRevokeRequest {
    pub session_id: String,
}

#[derive(Debug)]
pub struct SigningKeyRotateRequest {
    pub kid: String,
    pub retire_previous: Option<bool>,
}

#[derive(Debug)]
pub struct TokenVerifyRequest {
    pub access_token: String,
}

#[derive(Debug)]
pub struct OrganizationCreateRequest {
    pub name: String,
    pub slug: String,
}

#[derive(Debug)]
pub struct OrganizationUpdateRequest {
    pub organization_id: String,
    pub name: String,
}

#[derive(Debug)]
pub struct OrganizationSelectRequest {
    pub organization_id: String,
}

#[derive(Debug)]
pub struct InvitationCreateRequest {
    pub organization_id: String,
    pub email: String,
    pub role_id: String,
}

#[derive(Debug)]
pub struct InvitationAcceptRequest {
    pub token: String,
}

#[derive(Debug)]
pub struct MembershipRoleRequest {
    pub organization_id: String,
    pub user_id: String,
    pub role_id: String,
}

#[derive(Debug)]
pub struct MembershipRemoveRequest {
    pub organization_id: String,
    pub user_id: String,
}

#[derive(Debug)]
pub struct RoleUpsertRequest {
    pub organization_id: String,
    pub role_id: String,
    pub name: String,
    pub permissions: Vec<String>,
}

#[derive(Debug)]
pub struct AdminUserStatusRequest {
    pub user_id: String,
    pub disabled: bool,
}

#[derive(Debug)]
pub struct PolicyPublishRequest {
    pub policy_text: String,
    pub schema_text: String,
}

/// One authorization question: may the session perform `action` on a
/// resource of `resource_type` with id `resource_id`, in an organization.
#[derive(Debug)]
pub struct AuthorizationCheckRequest {
    pub action: String,
    pub resource_type: String,
    pub resource_id: String,
    pub organization_id: Option<String>,
}

/// The session as the browser and the API see it.
#[derive(Debug)]
pub struct SessionView {
    pub authenticated: bool,
    pub session_id: Option<String>,
    pub tenant_id: Option<String>,
    pub user_id: Option<String>,
    pub primary_email: Option<String>,
    pub expires_at: Option<String>,
    pub permissions: Vec<String>,
    pub assurance: String,
    pub system_administrator: bool,
    pub issued_at_unix_seconds: Option<u64>,
    pub expires_at_unix_seconds: Option<u64>,
}

/// What the token verifier reports about a valid access token.
#[derive(Debug)]
pub struct TokenVerifyResponse {
    pub subject: String,
    pub session_id: Option<String>,
    pub tenant_id: Option<String>,
    pub scopes: Vec<String>,
    pub assurance: String,
    pub system_administrator: bool,
    pub issued_at_unix_seconds: u64,
    pub expires_at: u64,
}

/// The outcome of a completed sign-in.
#[derive(Debug)]
pub struct LoginCompletionResponse {
    pub authenticated: bool,
    pub redirect_url: String,
    pub session_id: Option<String>,
    pub access_token: Option<String>,
    pub refresh_token: Option<String>,
    pub expires_in_seconds: u64,
}

/// A sign-in provider as stored, and whether it is switched on.
#[derive(Debug)]
pub struct AuthProviderSummary {
    pub provider_id: String,
    pub display_name: String,
    pub enabled: bool,
}

/// The sign-in methods a deployment offers.
#[derive(Debug)]
pub struct AuthCapabilities {
    pub password_enabled: bool,
    pub oauth_enabled: bool,
    pub passkeys_enabled: bool,
    pub providers: Vec<AuthProviderSummary>,
}

/// The answer to one authorization question.
#[derive(Debug)]
pub struct AuthorizationCheckResponse {
    pub allowed: bool,
    pub reason: String,
    pub policy_revision: String,
    pub consistency_token: Option<String>,
    pub resource_revision: Option<u64>,
}

/// What the authorization service reports about itself.
#[derive(Debug)]
pub struct AuthorizationCapabilitiesResponse {
    pub provider: String,
    pub batch_check: bool,
    pub list_resources: bool,
    pub consistency_tokens: bool,
    pub max_batch_checks: u32,
}

/// A workspace the session can see.
#[derive(Debug)]
pub struct OrganizationSummary {
    pub organization_id: String,
    pub slug: String,
    pub name: String,
    pub permissions: Vec<String>,
}

/// A member row of a workspace.
#[derive(Debug)]
pub struct MembershipSummary {
    pub user_id: String,
    pub primary_email: String,
    pub role_id: String,
    pub status: String,
}

/// A role the server offers for assignment, with its display name.
#[derive(Debug)]
pub struct WorkspaceRoleOption {
    pub role_id: String,
    pub name: String,
}

/// The signed-in account's profile.
#[derive(Debug)]
pub struct ProfileView {
    pub first_name: String,
    pub last_name: String,
    pub display_name: String,
    pub username: String,
    pub is_public: bool,
    pub avatar_data_url: Option<String>,
    pub email: Option<String>,
}

/// The profile fields the account page saves; the photo only when it changed
/// (an empty text removes it).
#[derive(Debug)]
pub struct ProfileUpdateRequest {
    pub first_name: String,
    pub last_name: String,
    pub display_name: String,
    pub username: String,
    pub is_public: bool,
    pub avatar_data_url: Option<String>,
}

/// A stored secret as listed: its value only masked.
#[derive(Debug)]
pub struct SecretSummary {
    pub id: String,
    pub key: String,
    pub name: String,
    pub label: String,
    pub scope: String,
    pub masked_value: String,
}

/// A secret to store.
#[derive(Debug)]
pub struct SecretCreateRequest {
    pub key: String,
    pub name: String,
    pub value: String,
    pub label: String,
    pub description: String,
    pub scope: String,
}

/// A secret's plaintext, shown for a limited time.
#[derive(Debug)]
pub struct SecretRevealResponse {
    pub id: String,
    pub value: String,
    pub reveal_ttl_seconds: i64,
}

/// A signed-in browser or device of the account.
#[derive(Debug)]
pub struct AccountSessionSummary {
    pub session_id: String,
    /// This browser's own session.
    pub current: bool,
    pub assurance: String,
    pub expires_at_ms: u64,
}

} // verus!
