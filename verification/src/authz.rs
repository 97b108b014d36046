//! Preparing an authorization check for the policy engine: the names and
//! identifiers `wasi_auth` accepts, the resource and the permissions the check
//! runs with, and the tenant boundary it enforces.

use vstd::prelude::*;

use crate::access::{opt_string};
use crate::contracts::{
    AuthorizationCapabilitiesResponse, AuthorizationCheckRequest, AuthorizationCheckResponse,
};
use crate::error::{fails_with, AuthStackError, AuthStackResult, ErrorView};
use crate::text::{decimal, is_ctrl, is_digit, is_lower, is_upper, opt_text, owned, push_char, push_decimal, push_str, str_eq};
use crate::validation::{has_ws_or_ctrl, utf8_len};

verus! {

/// `wasi_auth::authorization::ResourceType`.
#[verifier::external_type_specification]
#[verifier::external_body]
pub struct ExResourceType(wasi_auth::authorization::ResourceType);

// ---------------------------------------------------------------------------
// What wasi_auth accepts
// ---------------------------------------------------------------------------

pub open spec fn authz_name_char(c: char) -> bool {
    is_digit(c) || is_lower(c) || is_upper(c) || c == '.' || c == '_' || c == '-' || c == ':'
}

/// An action or resource-type name: 1 to 128 characters, each an ASCII
/// letter or digit or one of `.` `_` `-` `:`.
pub open spec fn authz_name_ok(s: Seq<char>) -> bool {
    0 < s.len() <= 128 && forall|i: int| 0 <= i < s.len() ==> authz_name_char(#[trigger] s[i])
}

/// A bounded identifier: non-empty, at most 256 UTF-8 bytes, without
/// whitespace or control characters.
pub open spec fn bounded_identifier_ok(s: Seq<char>) -> bool {
    s.len() > 0 && utf8_len(s) <= 256 && !has_ws_or_ctrl(s)
}

/// A resource id: non-empty, at most 512 UTF-8 bytes, without control
/// characters.
pub open spec fn resource_id_ok(s: Seq<char>) -> bool {
    s.len() > 0 && utf8_len(s) <= 512 && !(exists|i: int| 0 <= i < s.len() && is_ctrl(s[i]))
}

/// Calls `wasi_auth::authorization::ActionName::new` and reports whether it
/// accepted the name. Its source accepts exactly the names `authz_name_ok`
/// describes (it counts bytes; a name of those characters has one byte each).
#[verifier::external_body]
fn action_name_accepted(value: &str) -> (r: bool)
    ensures
        r == authz_name_ok(value@),
{
    wasi_auth::authorization::ActionName::new(value).is_ok()
}

/// Calls `wasi_auth::authorization::ResourceType::new`; it accepts exactly the
/// names `authz_name_ok` describes.
#[verifier::external_body]
fn new_resource_type(value: &str) -> (r: Option<wasi_auth::authorization::ResourceType>)
    ensures
        r is Some <==> authz_name_ok(value@),
{
    wasi_auth::authorization::ResourceType::new(value).ok()
}

/// Calls `wasi_auth::authorization::Resource::new` and reports whether it
/// accepted the id; its source checks the id alone, as `resource_id_ok` says.
#[verifier::external_body]
fn resource_accepted(resource_type: wasi_auth::authorization::ResourceType, id: &str) -> (r: bool)
    ensures
        r == resource_id_ok(id@),
{
    wasi_auth::authorization::Resource::new(resource_type, id, None).is_ok()
}

/// Calls `wasi_auth::context::OrganizationId::new` and reports whether it
/// accepted the id; its source accepts the bounded identifiers.
#[verifier::external_body]
fn organization_id_accepted(value: &str) -> (r: bool)
    ensures
        r == bounded_identifier_ok(value@),
{
    wasi_auth::context::OrganizationId::new(value).is_ok()
}

/// Calls `wasi_auth::context::AuthorizationSnapshot::new` with the given
/// permissions and no roles, revision or token; its source accepts exactly
/// when every permission is a bounded identifier.
#[verifier::external_body]
fn snapshot_accepted(permissions: &Vec<String>) -> (r: bool)
    ensures
        r == forall|i: int| 0 <= i < permissions@.len() ==> bounded_identifier_ok(
            #[trigger] permissions@[i]@,
        ),
{
    wasi_auth::context::AuthorizationSnapshot::new(
        permissions.iter().cloned(),
        Vec::<wasi_auth::context::RoleId>::new(),
        None,
        None,
    ).is_ok()
}

/// Reads `wasi_auth::authorization::MAX_BATCH_CHECKS`, which its source sets
/// to 100.
#[verifier::external_body]
fn max_batch_checks() -> (r: usize)
    ensures
        r == 100,
{
    wasi_auth::authorization::MAX_BATCH_CHECKS
}

// ---------------------------------------------------------------------------
// Batches
// ---------------------------------------------------------------------------

/// A batch may hold at most the policy engine's maximum number of checks.
pub fn check_authorization_batch_size(count: usize) -> (r: AuthStackResult<()>)
    ensures
        fails_with(
            r,
            if count > 100 {
                Some(
                    ErrorView::Validation(
                        "authorization batch exceeds the maximum of "@ + decimal(100),
                    ),
                )
            } else {
                None
            },
        ),
{
    let max = max_batch_checks();
    if count > max {
        let mut m = owned("authorization batch exceeds the maximum of ");
        push_decimal(&mut m, max as u64);
        return Err(AuthStackError::Validation(m));
    }
    Ok(())
}

// ---------------------------------------------------------------------------
// Planning one check
// ---------------------------------------------------------------------------

/// What the verified context says that a check depends on.
#[derive(Debug)]
pub struct CheckContext {
    pub organization_id: Option<String>,
    pub system_administrator: bool,
    pub aal2: bool,
}

/// A check ready for the policy engine.
#[derive(Debug)]
pub struct AuthorizationPlan {
    pub action: String,
    pub resource_type: String,
    pub resource_id: String,
    pub organization_id: Option<String>,
    pub permissions: Vec<String>,
}

/// The organization a check targets: the requested one, else the context's.
pub open spec fn plan_organization(request_org: Option<Seq<char>>, context_org: Option<Seq<char>>) -> Option<
    Seq<char>,
> {
    match request_org {
        Some(o) => Some(o),
        None => context_org,
    }
}

/// The resource id the engine sees: `<type>:<id>`.
pub open spec fn plan_resource_id(resource_type: Seq<char>, resource_id: Seq<char>) -> Seq<char> {
    resource_type + seq![':'] + resource_id
}

/// The permissions a check runs with: the session's, plus the requested
/// action for a stepped-up administrator.
pub open spec fn plan_permissions(permissions: Seq<String>, elevated: bool, action: Seq<char>) -> Seq<
    Seq<char>,
> {
    let base = permissions.map_values(|p: String| p@);
    if elevated {
        base.push(action)
    } else {
        base
    }
}

pub open spec fn all_bounded(s: Seq<Seq<char>>) -> bool {
    forall|i: int| 0 <= i < s.len() ==> bounded_identifier_ok(#[trigger] s[i])
}

/// The error that refuses a check, in the order the checks are made.
pub open spec fn plan_error(request: AuthorizationCheckRequest, context: CheckContext, permissions: Seq<
    String,
>) -> Option<ErrorView> {
    let org = plan_organization(opt_string(request.organization_id), opt_string(context.organization_id));
    let elevated = context.system_administrator && context.aal2;
    if !authz_name_ok(request.action@) {
        Some(ErrorView::Validation("action is invalid"@))
    } else if !authz_name_ok(request.resource_type@) {
        Some(ErrorView::Validation("resource_type is invalid"@))
    } else if request.organization_id is Some && !bounded_identifier_ok(
        request.organization_id->0@,
    ) {
        Some(ErrorView::Validation("organization_id is invalid"@))
    } else if !resource_id_ok(plan_resource_id(request.resource_type@, request.resource_id@)) {
        Some(ErrorView::Validation("resource_id is invalid"@))
    } else if !all_bounded(plan_permissions(permissions, elevated, request.action@)) {
        Some(ErrorView::Configuration("authorization snapshot is invalid"@))
    } else if !context.system_administrator && org != opt_string(context.organization_id) {
        Some(ErrorView::Forbidden)
    } else {
        None
    }
}

fn copy_opt(o: &Option<String>) -> (r: Option<String>)
    ensures
        opt_string(r) == opt_string(*o),
{
    match o {
        Some(s) => Some(owned(s.as_str())),
        None => None,
    }
}

fn opt_eq(a: &Option<String>, b: &Option<String>) -> (r: bool)
    ensures
        r == (opt_string(*a) == opt_string(*b)),
{
    match (a, b) {
        (Some(x), Some(y)) => str_eq(x.as_str(), y.as_str()),
        (None, None) => true,
        _ => false,
    }
}

/// Prepares an authorization check: validates the action, the resource type,
/// the organization and the resource id as the policy engine would, builds
/// the permission set, and enforces the tenant boundary (only system
/// administrators may address another organization than their own).
pub fn plan_authorization_check(
    request: &AuthorizationCheckRequest,
    context: &CheckContext,
    permissions: &Vec<String>,
) -> (r: AuthStackResult<AuthorizationPlan>)
    ensures
        fails_with(r, plan_error(*request, *context, permissions@)),
        r is Ok ==> ({
            let p = r->Ok_0;
            &&& p.action@ == request.action@
            &&& p.resource_type@ == request.resource_type@
            &&& p.resource_id@ == plan_resource_id(request.resource_type@, request.resource_id@)
            &&& opt_string(p.organization_id) == plan_organization(
                opt_string(request.organization_id),
                opt_string(context.organization_id),
            )
            &&& p.permissions@.map_values(|s: String| s@) == plan_permissions(
                permissions@,
                context.system_administrator && context.aal2,
                request.action@,
            )
        }),
{
    if !action_name_accepted(request.action.as_str()) {
        return Err(AuthStackError::validation("action is invalid"));
    }
    if new_resource_type(request.resource_type.as_str()).is_none() {
        return Err(AuthStackError::validation("resource_type is invalid"));
    }
    if let Some(org) = &request.organization_id {
        if !organization_id_accepted(org.as_str()) {
            return Err(AuthStackError::validation("organization_id is invalid"));
        }
    }
    let organization_id = match &request.organization_id {
        Some(o) => Some(owned(o.as_str())),
        None => copy_opt(&context.organization_id),
    };
    let mut resource_id = owned(request.resource_type.as_str());
    push_char(&mut resource_id, ':');
    push_str(&mut resource_id, request.resource_id.as_str());
    proof {
        assert(request.resource_type@.push(':') + request.resource_id@ == plan_resource_id(
            request.resource_type@,
            request.resource_id@,
        ));
    }
    proof {
        reveal_strlit("ApplicationResource");
    }
    let application_resource = new_resource_type("ApplicationResource");
    let resource_ok = match application_resource {
        Some(t) => resource_accepted(t, resource_id.as_str()),
        None => {
            return Err(AuthStackError::configuration("embedded Cedar resource is invalid"));
        },
    };
    if !resource_ok {
        return Err(AuthStackError::validation("resource_id is invalid"));
    }
    let elevated = context.system_administrator && context.aal2;
    let mut effective: Vec<String> = Vec::new();
    let mut i: usize = 0;
    while i < permissions.len()
        invariant
            i <= permissions@.len(),
            effective@.len() == i,
            forall|k: int| 0 <= k < i ==> #[trigger] effective@[k]@ == permissions@[k]@,
        decreases permissions@.len() - i,
    {
        effective.push(owned(permissions[i].as_str()));
        i += 1;
    }
    if elevated {
        effective.push(owned(request.action.as_str()));
    }
    proof {
        assert(effective@.map_values(|s: String| s@) =~= plan_permissions(
            permissions@,
            elevated,
            request.action@,
        ));
    }
    if !snapshot_accepted(&effective) {
        proof {
            let k = choose|k: int|
                0 <= k < effective@.len() && !bounded_identifier_ok(#[trigger] effective@[k]@);
            let pp = plan_permissions(permissions@, elevated, request.action@);
            assert(pp[k] == effective@[k]@);
            assert(!bounded_identifier_ok(pp[k]));
        }
        return Err(AuthStackError::configuration("authorization snapshot is invalid"));
    }
    proof {
        let pp = plan_permissions(permissions@, elevated, request.action@);
        assert forall|k: int| 0 <= k < pp.len() implies bounded_identifier_ok(#[trigger] pp[k]) by {
            assert(pp[k] == effective@[k]@);
        }
        assert(all_bounded(pp));
    }
    if !context.system_administrator && !opt_eq(&organization_id, &context.organization_id) {
        return Err(AuthStackError::Forbidden);
    }
    Ok(
        AuthorizationPlan {
            action: owned(request.action.as_str()),
            resource_type: owned(request.resource_type.as_str()),
            resource_id,
            organization_id,
            permissions: effective,
        },
    )
}


/// A check that a principal other than a system administrator may run always
/// targets that principal's own organization.
pub proof fn plan_respects_tenant_boundary(
    request: AuthorizationCheckRequest,
    context: CheckContext,
    permissions: Seq<String>,
)
    requires
        plan_error(request, context, permissions) is None,
        !context.system_administrator,
    ensures
        plan_organization(opt_string(request.organization_id), opt_string(context.organization_id))
            == opt_string(context.organization_id),
{
}


// ---------------------------------------------------------------------------
// The embedded policy engine
// ---------------------------------------------------------------------------

/// `wasi_auth::cedar::CedarProvider`.
#[verifier::external_type_specification]
#[verifier::external_body]
pub struct ExCedarProvider(wasi_auth::cedar::CedarProvider);

/// The policy the embedded engine enforces: a user may perform the requested
/// action when it holds that permission, and is either a stepped-up system
/// administrator or acts inside its own organization.
pub const EMBEDDED_CEDAR_POLICY: &'static str = r#"
permit (
    principal is User,
    action == Action::"authorization.check",
    resource is ApplicationResource
) when {
    principal.wasi_permissions.contains(context.requested_action) &&
    (
        (principal.wasi_system_administrator && principal.wasi_assurance == "aal2") ||
        (
            !principal.wasi_system_administrator &&
            principal has wasi_organization_id &&
            resource has wasi_organization_id &&
            principal.wasi_organization_id == resource.wasi_organization_id
        )
    )
};
"#;

/// The schema the embedded policy is validated against.
pub const EMBEDDED_CEDAR_SCHEMA: &'static str = r#"{
  "": {
    "entityTypes": {
      "User": {"shape": {"type": "Record", "attributes": {
        "wasi_issuer": {"type": "String", "required": true},
        "wasi_assurance": {"type": "String", "required": true},
        "wasi_system_administrator": {"type": "Boolean", "required": true},
        "wasi_permissions": {"type": "Set", "element": {"type": "String"}, "required": true},
        "wasi_organization_id": {"type": "String", "required": false}
      }}},
      "ApplicationResource": {"shape": {"type": "Record", "attributes": {
        "wasi_organization_id": {"type": "String", "required": false}
      }}}
    },
    "actions": {
      "authorization.check": {"appliesTo": {
        "principalTypes": ["User"],
        "resourceTypes": ["ApplicationResource"],
        "context": {"type": "Record", "attributes": {
          "requested_action": {"type": "String", "required": true},
          "requested_resource_type": {"type": "String", "required": true},
          "resource_owner_id": {"type": "String", "required": false},
          "resource_state": {"type": "String", "required": false},
          "wasi_organization_id": {"type": "String", "required": false}
        }}
      }}
    }
  }
}"#;

/// Whether `CedarProvider::new_validated` accepts a policy bundle: the policy
/// parses, the schema parses, the policy passes strict validation against the
/// schema, the entities load, and the revision is a bounded identifier.
pub uninterp spec fn cedar_bundle_accepted(
    policy: Seq<char>,
    schema: Seq<char>,
    entities: Seq<char>,
    revision: Seq<char>,
) -> bool;

/// A policy engine together with the bundle it was loaded from: its policy,
/// schema, entities and revision.
pub struct PolicyEngine {
    provider: wasi_auth::cedar::CedarProvider,
    policy: String,
    schema: String,
    entities: String,
    revision: String,
}

impl PolicyEngine {
    pub closed spec fn engine(&self) -> wasi_auth::cedar::CedarProvider {
        self.provider
    }

    pub closed spec fn policy_text(&self) -> Seq<char> {
        self.policy@
    }

    pub closed spec fn schema_text(&self) -> Seq<char> {
        self.schema@
    }

    pub closed spec fn entities_text(&self) -> Seq<char> {
        self.entities@
    }

    pub closed spec fn revision_text(&self) -> Seq<char> {
        self.revision@
    }

    /// The engine, for checks.
    pub fn provider(&self) -> (r: &wasi_auth::cedar::CedarProvider)
        ensures
            *r == self.engine(),
    {
        &self.provider
    }

    /// The revision of the loaded bundle.
    pub fn revision(&self) -> (r: &str)
        ensures
            r@ == self.revision_text(),
    {
        self.revision.as_str()
    }

    /// The policy text of the loaded bundle.
    pub fn policy(&self) -> (r: &str)
        ensures
            r@ == self.policy_text(),
    {
        self.policy.as_str()
    }
}

/// Calls `wasi_auth::cedar::CedarProvider::new_validated`; whether it succeeds
/// is named by `cedar_bundle_accepted`. The engine it builds is kept together
/// with the texts it was built from.
#[verifier::external_body]
fn new_cedar_provider(policy: &str, schema: &str, entities: &str, revision: &str) -> (r: Option<
    PolicyEngine,
>)
    ensures
        r is Some <==> cedar_bundle_accepted(policy@, schema@, entities@, revision@),
        r matches Some(e) ==> e.policy_text() == policy@ && e.schema_text() == schema@
            && e.entities_text() == entities@ && e.revision_text() == revision@,
{
    match wasi_auth::cedar::CedarProvider::new_validated(policy, schema, entities, revision) {
        Ok(provider) => Some(
            PolicyEngine {
                provider,
                policy: policy.to_owned(),
                schema: schema.to_owned(),
                entities: entities.to_owned(),
                revision: revision.to_owned(),
            },
        ),
        Err(_) => None,
    }
}

/// Calls `Authorizer::new(provider).capabilities()` and gives its three flags
/// (batch checks, resource listing, consistency tokens); the source of
/// `CedarProvider` reports batch checks only.
#[verifier::external_body]
fn cedar_capabilities(provider: &wasi_auth::cedar::CedarProvider) -> (r: (bool, bool, bool))
    ensures
        r == (true, false, false),
{
    let capabilities = wasi_auth::authorization::Authorizer::new(provider).capabilities();
    (capabilities.batch_check, capabilities.list_resources, capabilities.consistency_tokens)
}

/// The embedded policy engine, loaded from the embedded policy and schema
/// with no entities at revision `embedded-v1`; a bundle that fails
/// validation fails closed.
pub fn cedar_provider() -> (r: AuthStackResult<PolicyEngine>)
    ensures
        r is Ok <==> cedar_bundle_accepted(
            EMBEDDED_CEDAR_POLICY@,
            EMBEDDED_CEDAR_SCHEMA@,
            "[]"@,
            "embedded-v1"@,
        ),
        r is Err ==> fails_with(r, Some(ErrorView::Forbidden)),
        r matches Ok(e) ==> e.policy_text() == EMBEDDED_CEDAR_POLICY@ && e.schema_text()
            == EMBEDDED_CEDAR_SCHEMA@ && e.entities_text() == "[]"@ && e.revision_text()
            == "embedded-v1"@,
{
    match new_cedar_provider(EMBEDDED_CEDAR_POLICY, EMBEDDED_CEDAR_SCHEMA, "[]", "embedded-v1") {
        Some(engine) => Ok(engine),
        None => Err(AuthStackError::Forbidden),
    }
}

/// What the authorization service reports: the embedded engine, with the
/// relationship store when it is on; batch checks; consistency tokens only
/// through the relationship store; at most 100 checks a batch.
pub fn authorization_capabilities(relationship_store_enabled: bool) -> (r: AuthStackResult<
    AuthorizationCapabilitiesResponse,
>)
    ensures
        r is Ok <==> cedar_bundle_accepted(
            EMBEDDED_CEDAR_POLICY@,
            EMBEDDED_CEDAR_SCHEMA@,
            "[]"@,
            "embedded-v1"@,
        ),
        r is Err ==> fails_with(r, Some(ErrorView::Forbidden)),
        r is Ok ==> ({
            let c = r->Ok_0;
            &&& c.provider@ == (if relationship_store_enabled {
                "embedded-cedar+direct-spicedb"@
            } else {
                "embedded-cedar"@
            })
            &&& c.batch_check
            &&& !c.list_resources
            &&& c.consistency_tokens == relationship_store_enabled
            &&& c.max_batch_checks == 100
        }),
{
    let provider = cedar_provider()?;
    let (batch_check, list_resources, consistency_tokens) = cedar_capabilities(&provider.provider);
    let max = max_batch_checks();
    Ok(
        AuthorizationCapabilitiesResponse {
            provider: owned(crate::access::authorization_provider_name(relationship_store_enabled)),
            batch_check,
            list_resources,
            consistency_tokens: relationship_store_enabled || consistency_tokens,
            max_batch_checks: max as u32,
        },
    )
}

/// Why a policy bundle offered for publication is refused: too large, or not
/// accepted by the engine (which fails closed as forbidden).
pub open spec fn policy_bundle_refusal(policy: Seq<char>, schema: Seq<char>) -> Option<ErrorView> {
    match crate::requests::policy_bundle_error(policy, schema) {
        Some(m) => Some(ErrorView::Validation(m)),
        None => if cedar_bundle_accepted(policy, schema, "[]"@, "candidate"@) {
            None
        } else {
            Some(ErrorView::Forbidden)
        },
    }
}

/// Checks a policy bundle before it is published: its size, then strict
/// validation by the engine.
pub fn check_policy_bundle(policy_text: &str, schema_text: &str) -> (r: AuthStackResult<()>)
    ensures
        fails_with(r, policy_bundle_refusal(policy_text@, schema_text@)),
{
    let sized = crate::requests::check_policy_bundle_size(policy_text, schema_text);
    if sized.is_err() {
        return sized;
    }
    match new_cedar_provider(policy_text, schema_text, "[]", "candidate") {
        Some(_) => Ok(()),
        None => Err(AuthStackError::Forbidden),
    }
}


// ---------------------------------------------------------------------------
// Answers
// ---------------------------------------------------------------------------

/// A decision of the policy engine, as plain values: whether access is
/// allowed, the engine's reason code, the policy revision it used, and its
/// consistency token when it gave one.
pub struct PolicyDecision {
    pub allowed: bool,
    pub reason: String,
    pub policy_revision: String,
    pub consistency_token: Option<String>,
}

/// The answer sent for a decision of the policy engine, with the revision of
/// the resource when the relationship store supplied one.
pub fn authorization_response(decision: &PolicyDecision, resource_revision: Option<u64>) -> (r:
    AuthorizationCheckResponse)
    ensures
        r.allowed == decision.allowed,
        r.reason@ == decision.reason@,
        r.policy_revision@ == decision.policy_revision@,
        opt_text(r.consistency_token) == opt_text(decision.consistency_token),
        r.resource_revision == resource_revision,
{
    AuthorizationCheckResponse {
        allowed: decision.allowed,
        reason: owned(decision.reason.as_str()),
        policy_revision: owned(decision.policy_revision.as_str()),
        consistency_token: match &decision.consistency_token {
            Some(t) => Some(owned(t.as_str())),
            None => None,
        },
        resource_revision,
    }
}

} // verus!
