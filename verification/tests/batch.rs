use fullstack_auth::authz::{CheckContext, PolicyDecision};
use fullstack_auth::batch::{batch_authenticated, batch_received, decision_step, BatchStep, DecisionStep};
use fullstack_auth::contracts::AuthorizationCheckRequest;
use fullstack_auth::error::AuthStackError;

fn check(action: &str, resource_id: &str, org: Option<&str>) -> AuthorizationCheckRequest {
    AuthorizationCheckRequest {
        action: action.to_string(),
        resource_type: "Document".to_string(),
        resource_id: resource_id.to_string(),
        organization_id: org.map(str::to_string),
    }
}

fn member_of(org: Option<&str>, admin: bool, aal2: bool) -> CheckContext {
    CheckContext { organization_id: org.map(str::to_string), system_administrator: admin, aal2 }
}

fn decision(allowed: bool) -> PolicyDecision {
    PolicyDecision {
        allowed,
        reason: "policy".to_string(),
        policy_revision: "embedded-v1".to_string(),
        consistency_token: Some("tok-1".to_string()),
    }
}

#[test]
fn an_oversized_batch_is_refused_before_credentials() {
    match batch_received(101) {
        BatchStep::Refuse(AuthStackError::Validation(m)) => {
            assert_eq!(m, "authorization batch exceeds the maximum of 100")
        }
        other => panic!("expected a refusal, got {other:?}"),
    }
    assert!(matches!(batch_received(100), BatchStep::VerifyCredentials));
    assert!(matches!(batch_received(0), BatchStep::VerifyCredentials));
}

#[test]
fn every_check_of_a_batch_is_prepared_in_order() {
    let perms = vec!["document.read".to_string()];
    let checks = vec![check("document.read", "a", None), check("document.write", "b", Some("org-1"))];
    match batch_authenticated(&checks, &member_of(Some("org-1"), false, false), &perms) {
        BatchStep::EvaluatePolicy(plans) => {
            assert_eq!(plans.len(), 2);
            assert_eq!(plans[0].resource_id, "Document:a");
            assert_eq!(plans[1].action, "document.write");
            assert_eq!(plans[1].resource_id, "Document:b");
            assert!(plans.iter().all(|p| p.organization_id.as_deref() == Some("org-1")));
        }
        other => panic!("expected the batch to reach the policy engine, got {other:?}"),
    }
}

#[test]
fn the_first_check_that_cannot_be_prepared_refuses_the_batch() {
    let perms = vec!["document.read".to_string()];
    let ctx = member_of(Some("org-1"), false, false);
    let checks = vec![
        check("document.read", "a", None),
        check("bad action", "b", None),
        check("document.read", "c", Some("org-2")),
    ];
    match batch_authenticated(&checks, &ctx, &perms) {
        BatchStep::Refuse(AuthStackError::Validation(m)) => assert_eq!(m, "action is invalid"),
        other => panic!("expected a validation refusal, got {other:?}"),
    }
    let crossing = vec![check("document.read", "a", None), check("document.read", "c", Some("org-2"))];
    assert!(matches!(
        batch_authenticated(&crossing, &ctx, &perms),
        BatchStep::Refuse(AuthStackError::Forbidden)
    ));
}

#[test]
fn an_empty_batch_goes_to_the_policy_engine_empty() {
    let perms: Vec<String> = Vec::new();
    match batch_authenticated(&Vec::new(), &member_of(None, false, false), &perms) {
        BatchStep::EvaluatePolicy(plans) => assert!(plans.is_empty()),
        other => panic!("expected an empty evaluation, got {other:?}"),
    }
}

#[test]
fn allowed_decisions_are_confirmed_in_the_relationship_store() {
    let ctx = member_of(Some("org-1"), false, false);
    match decision_step(&decision(true), &ctx, true) {
        DecisionStep::ConfirmMembership(org) => assert_eq!(org, "org-1"),
        other => panic!("expected a membership check, got {other:?}"),
    }
}

#[test]
fn other_decisions_are_answered_as_they_stand() {
    for (d, store, context) in [
        (decision(false), true, member_of(Some("org-1"), false, false)),
        (decision(true), false, member_of(Some("org-1"), false, false)),
        (decision(true), true, member_of(Some("org-1"), true, true)),
        (decision(true), true, member_of(None, false, false)),
    ] {
        match decision_step(&d, &context, store) {
            DecisionStep::Answer(a) => {
                assert_eq!(a.allowed, d.allowed);
                assert_eq!(a.reason, "policy");
                assert_eq!(a.policy_revision, "embedded-v1");
                assert_eq!(a.consistency_token.as_deref(), Some("tok-1"));
                assert_eq!(a.resource_revision, None);
            }
            other => panic!("expected an answer, got {other:?}"),
        }
    }
}
