//! The order in which authorization checks are handled. The size of a batch
//! is checked before any credential is read; every check of a batch is
//! prepared before the policy engine sees one, and the first check that
//! cannot be prepared refuses the whole batch; an allowed decision is then
//! confirmed against the relationship store where that store decides.
//!
//! The caller performs each step (verifying credentials, asking the policy
//! engine, asking the relationship store) and hands its result to the next
//! function here.

use vstd::prelude::*;

use crate::access::{needs_membership_check, opt_string};
use crate::authz::{
    authorization_response, check_authorization_batch_size, plan_authorization_check, plan_error,
    plan_organization, plan_permissions, plan_resource_id, plan_respects_tenant_boundary,
    AuthorizationPlan, CheckContext, PolicyDecision,
};
use crate::contracts::{AuthorizationCheckRequest, AuthorizationCheckResponse};
use crate::error::{error_view, AuthStackError, ErrorView};
use crate::text::{decimal, opt_text, owned};

verus! {

/// What a batch check does next.
#[derive(Debug)]
pub enum BatchStep {
    /// Answer with this error; nothing further is done.
    Refuse(AuthStackError),
    /// Verify the caller's credentials (no step-up is needed).
    VerifyCredentials,
    /// Hand these prepared checks to the policy engine, in this order.
    EvaluatePolicy(Vec<AuthorizationPlan>),
}

/// `p` is the check that `plan_authorization_check` prepares for `request`.
pub open spec fn plan_matches(
    p: AuthorizationPlan,
    request: AuthorizationCheckRequest,
    context: CheckContext,
    permissions: Seq<String>,
) -> bool {
    &&& p.action@ == request.action@
    &&& p.resource_type@ == request.resource_type@
    &&& p.resource_id@ == plan_resource_id(request.resource_type@, request.resource_id@)
    &&& opt_string(p.organization_id) == plan_organization(
        opt_string(request.organization_id),
        opt_string(context.organization_id),
    )
    &&& p.permissions@.map_values(|s: String| s@) == plan_permissions(
        permissions,
        context.system_administrator && context.aal2,
        request.action@,
    )
}

/// Every request could be prepared, and `plans` holds, in order, the check
/// prepared for each.
pub open spec fn all_planned(
    plans: Seq<AuthorizationPlan>,
    requests: Seq<AuthorizationCheckRequest>,
    context: CheckContext,
    permissions: Seq<String>,
) -> bool {
    &&& plans.len() == requests.len()
    &&& forall|k: int|
        0 <= k < requests.len() ==> plan_error(#[trigger] requests[k], context, permissions) is None
    &&& forall|k: int|
        0 <= k < requests.len() ==> plan_matches(
            #[trigger] plans[k],
            requests[k],
            context,
            permissions,
        )
}

/// The error of the first request, from index `i` on, that cannot be
/// prepared; `None` when all of them can.
pub open spec fn first_plan_error(
    requests: Seq<AuthorizationCheckRequest>,
    context: CheckContext,
    permissions: Seq<String>,
    i: int,
) -> Option<ErrorView>
    decreases requests.len() - i,
{
    if i < 0 || i >= requests.len() {
        None
    } else if plan_error(requests[i], context, permissions) is Some {
        plan_error(requests[i], context, permissions)
    } else {
        first_plan_error(requests, context, permissions, i + 1)
    }
}

/// The first step of a batch of `count` checks: a batch over the policy
/// engine's maximum is refused before any credential is read.
pub fn batch_received(count: usize) -> (r: BatchStep)
    ensures
        count > 100 ==> (r matches BatchStep::Refuse(e) && error_view(e) == ErrorView::Validation(
            "authorization batch exceeds the maximum of "@ + decimal(100),
        )),
        count <= 100 ==> r is VerifyCredentials,
{
    match check_authorization_batch_size(count) {
        Ok(()) => BatchStep::VerifyCredentials,
        Err(e) => BatchStep::Refuse(e),
    }
}

/// The step after the credentials were verified: every request is prepared
/// in order; the first that cannot be refuses the batch with its error,
/// otherwise all prepared checks go to the policy engine.
pub fn batch_authenticated(
    requests: &Vec<AuthorizationCheckRequest>,
    context: &CheckContext,
    permissions: &Vec<String>,
) -> (r: BatchStep)
    ensures
        match first_plan_error(requests@, *context, permissions@, 0) {
            Some(e) => (r matches BatchStep::Refuse(x) && error_view(x) == e),
            None => (r matches BatchStep::EvaluatePolicy(plans) && all_planned(
                plans@,
                requests@,
                *context,
                permissions@,
            )),
        },
{
    let mut plans: Vec<AuthorizationPlan> = Vec::new();
    let mut i: usize = 0;
    while i < requests.len()
        invariant
            i <= requests@.len(),
            plans@.len() == i,
            forall|k: int|
                0 <= k < i ==> plan_error(#[trigger] requests@[k], *context, permissions@) is None,
            forall|k: int|
                0 <= k < i ==> plan_matches(#[trigger] plans@[k], requests@[k], *context, permissions@),
            first_plan_error(requests@, *context, permissions@, 0) == first_plan_error(
                requests@,
                *context,
                permissions@,
                i as int,
            ),
        decreases requests@.len() - i,
    {
        match plan_authorization_check(&requests[i], context, permissions) {
            Ok(p) => {
                plans.push(p);
            },
            Err(e) => {
                return BatchStep::Refuse(e);
            },
        }
        i += 1;
    }
    BatchStep::EvaluatePolicy(plans)
}

/// A batch that a principal other than a system administrator may hand to
/// the policy engine addresses only that principal's own organization.
pub proof fn batch_respects_tenant_boundary(
    plans: Seq<AuthorizationPlan>,
    requests: Seq<AuthorizationCheckRequest>,
    context: CheckContext,
    permissions: Seq<String>,
)
    requires
        all_planned(plans, requests, context, permissions),
        !context.system_administrator,
    ensures
        forall|k: int|
            0 <= k < plans.len() ==> opt_string(#[trigger] plans[k].organization_id) == opt_string(
                context.organization_id,
            ),
{
    assert forall|k: int| 0 <= k < plans.len() implies opt_string(
        #[trigger] plans[k].organization_id,
    ) == opt_string(context.organization_id) by {
        assert(plan_error(requests[k], context, permissions) is None);
        assert(plan_matches(plans[k], requests[k], context, permissions));
        plan_respects_tenant_boundary(requests[k], context, permissions);
    }
}

/// What one decision of the policy engine needs before it is answered.
#[derive(Debug)]
pub enum DecisionStep {
    /// Confirm the principal's membership of this organization in the
    /// relationship store; its decision is the answer.
    ConfirmMembership(String),
    /// Answer with the policy engine's decision as it stands.
    Answer(AuthorizationCheckResponse),
}

/// An allowed decision is confirmed against the relationship store when
/// that store is on, the principal is not a stepped-up system administrator,
/// and the verified context names an organization.
pub open spec fn confirms_membership(
    decision: PolicyDecision,
    context: CheckContext,
    relationship_store_enabled: bool,
) -> bool {
    &&& decision.allowed
    &&& relationship_store_enabled
    &&& !(context.system_administrator && context.aal2)
    &&& context.organization_id is Some
}

/// `a` answers `decision`, with `revision` as the resource's revision.
pub open spec fn answers(
    a: AuthorizationCheckResponse,
    decision: PolicyDecision,
    revision: Option<u64>,
) -> bool {
    &&& a.allowed == decision.allowed
    &&& a.reason@ == decision.reason@
    &&& a.policy_revision@ == decision.policy_revision@
    &&& opt_text(a.consistency_token) == opt_text(decision.consistency_token)
    &&& a.resource_revision == revision
}

/// The step after the policy engine decided one check: a denial, or a
/// decision the relationship store has no say in, is answered as it stands;
/// otherwise the membership of the context's organization is confirmed.
pub fn decision_step(
    decision: &PolicyDecision,
    context: &CheckContext,
    relationship_store_enabled: bool,
) -> (r: DecisionStep)
    ensures
        confirms_membership(*decision, *context, relationship_store_enabled) ==> (r matches DecisionStep::ConfirmMembership(
            o,
        ) && o@ == context.organization_id->0@),
        !confirms_membership(*decision, *context, relationship_store_enabled) ==> (r matches DecisionStep::Answer(
            a,
        ) && answers(a, *decision, None)),
{
    let elevated = context.system_administrator && context.aal2;
    if needs_membership_check(
        decision.allowed,
        relationship_store_enabled,
        elevated,
        context.organization_id.is_some(),
    ) {
        match &context.organization_id {
            Some(o) => {
                return DecisionStep::ConfirmMembership(owned(o.as_str()));
            },
            None => {},
        }
    }
    DecisionStep::Answer(authorization_response(decision, None))
}

} // verus!
