use fullstack_auth::authz::{check_authorization_batch_size, plan_authorization_check, CheckContext};
use fullstack_auth::contracts::AuthorizationCheckRequest;
use fullstack_auth::error::AuthStackError;

fn request(action: &str, resource_type: &str, resource_id: &str, org: Option<&str>) -> AuthorizationCheckRequest {
    AuthorizationCheckRequest {
        action: action.to_string(),
        resource_type: resource_type.to_string(),
        resource_id: resource_id.to_string(),
        organization_id: org.map(str::to_string),
    }
}

fn context(org: Option<&str>, admin: bool, aal2: bool) -> CheckContext {
    CheckContext { organization_id: org.map(str::to_string), system_administrator: admin, aal2 }
}

fn validation(result: Result<impl std::fmt::Debug, AuthStackError>) -> String {
    match result {
        Err(AuthStackError::Validation(m)) => m,
        other => panic!("expected a validation error, got {other:?}"),
    }
}

#[test]
fn batches_are_bounded() {
    assert!(check_authorization_batch_size(100).is_ok());
    assert_eq!(
        validation(check_authorization_batch_size(101)),
        "authorization batch exceeds the maximum of 100"
    );
}

#[test]
fn a_check_is_planned_in_the_session_organization() {
    let perms = vec!["document.read".to_string()];
    let plan = plan_authorization_check(
        &request("document.read", "Document", "doc-1", None),
        &context(Some("org-1"), false, false),
        &perms,
    )
    .unwrap();
    assert_eq!(plan.action, "document.read");
    assert_eq!(plan.resource_type, "Document");
    assert_eq!(plan.resource_id, "Document:doc-1");
    assert_eq!(plan.organization_id, Some("org-1".to_string()));
    assert_eq!(plan.permissions, perms);
}

#[test]
fn invalid_names_and_ids_are_refused() {
    let perms: Vec<String> = Vec::new();
    let ctx = context(Some("org-1"), false, false);
    assert_eq!(
        validation(plan_authorization_check(&request("bad action", "Document", "d", None), &ctx, &perms)),
        "action is invalid"
    );
    assert_eq!(
        validation(plan_authorization_check(&request("read", "", "d", None), &ctx, &perms)),
        "resource_type is invalid"
    );
    assert_eq!(
        validation(plan_authorization_check(&request("read", "Doc", "d", Some("org 1")), &ctx, &perms)),
        "organization_id is invalid"
    );
    assert_eq!(
        validation(plan_authorization_check(&request("read", "Doc", "a\u{1}b", None), &ctx, &perms)),
        "resource_id is invalid"
    );
    let bad_perms = vec!["has space".to_string()];
    assert!(matches!(
        plan_authorization_check(&request("read", "Doc", "d", None), &ctx, &bad_perms),
        Err(AuthStackError::Configuration(_))
    ));
}

#[test]
fn only_administrators_cross_the_tenant_boundary() {
    let perms: Vec<String> = Vec::new();
    assert!(matches!(
        plan_authorization_check(
            &request("read", "Doc", "d", Some("org-2")),
            &context(Some("org-1"), false, true),
            &perms,
        ),
        Err(AuthStackError::Forbidden)
    ));
    let plan = plan_authorization_check(
        &request("read", "Doc", "d", Some("org-2")),
        &context(Some("org-1"), true, true),
        &perms,
    )
    .unwrap();
    assert_eq!(plan.organization_id, Some("org-2".to_string()));
    assert_eq!(plan.permissions, vec!["read".to_string()]);
    let plan = plan_authorization_check(
        &request("read", "Doc", "d", None),
        &context(None, true, false),
        &perms,
    )
    .unwrap();
    assert!(plan.permissions.is_empty());
    assert_eq!(plan.organization_id, None);
}

use fullstack_auth::authz::{
    authorization_capabilities, check_policy_bundle, EMBEDDED_CEDAR_POLICY, EMBEDDED_CEDAR_SCHEMA,
};

#[test]
fn capabilities_describe_the_embedded_engine() {
    let caps = authorization_capabilities(false).unwrap();
    assert_eq!(caps.provider, "embedded-cedar");
    assert!(caps.batch_check);
    assert!(!caps.list_resources);
    assert!(!caps.consistency_tokens);
    assert_eq!(caps.max_batch_checks, 100);
    let caps = authorization_capabilities(true).unwrap();
    assert_eq!(caps.provider, "embedded-cedar+direct-spicedb");
    assert!(caps.consistency_tokens);
}

#[test]
fn published_policies_must_validate() {
    assert!(check_policy_bundle(EMBEDDED_CEDAR_POLICY, EMBEDDED_CEDAR_SCHEMA).is_ok());
    assert!(matches!(
        check_policy_bundle("permit (principal, action, resource", EMBEDDED_CEDAR_SCHEMA),
        Err(AuthStackError::Forbidden)
    ));
    let forbidden_attribute = EMBEDDED_CEDAR_POLICY.replace("wasi_permissions", "unknown_attribute");
    assert!(matches!(
        check_policy_bundle(&forbidden_attribute, EMBEDDED_CEDAR_SCHEMA),
        Err(AuthStackError::Forbidden)
    ));
    let big = "a".repeat(1_048_577);
    match check_policy_bundle(&big, EMBEDDED_CEDAR_SCHEMA) {
        Err(AuthStackError::Validation(m)) => assert_eq!(m, "policy bundle is too large"),
        other => panic!("unexpected {other:?}"),
    }
}

use fullstack_auth::authz::{authorization_response, PolicyDecision};
use wasi_auth::authorization::Decision;
use wasi_auth::context::PolicyRevision;

fn plain(decision: &Decision) -> PolicyDecision {
    PolicyDecision {
        allowed: decision.is_allowed(),
        reason: decision.reason().to_string(),
        policy_revision: decision.policy_revision().as_str().to_string(),
        consistency_token: decision.consistency_token().map(str::to_owned),
    }
}

#[test]
fn decisions_become_answers() {
    let decision = Decision::allow(PolicyRevision::new("rev-1").unwrap(), "policy_allowed")
        .with_consistency_token("tok-9");
    let answer = authorization_response(&plain(&decision), Some(7));
    assert!(answer.allowed);
    assert_eq!(answer.reason, "policy_allowed");
    assert_eq!(answer.policy_revision, "rev-1");
    assert_eq!(answer.consistency_token, Some("tok-9".to_string()));
    assert_eq!(answer.resource_revision, Some(7));
    let denied = authorization_response(
        &plain(&Decision::deny(PolicyRevision::new("rev-2").unwrap(), "no")),
        None,
    );
    assert!(!denied.allowed);
    assert_eq!(denied.reason, "no");
    assert_eq!(denied.policy_revision, "rev-2");
    assert_eq!(denied.consistency_token, None);
    assert_eq!(denied.resource_revision, None);
}
