//! What holds of every profile, every bound principal and every secured view.

use vstd::prelude::*;

use crate::error::PolicyError;
use crate::facts::EvalContext;
use crate::govern::{gathered, rewritten, rewritten_all, ScanModel};
use crate::govern_laws::law_marked_tables_get_no_policy;
use crate::governance::{is_enriched, settles};
use crate::plan::{bare_model, NodeModel, Plan, PlanModel};
use crate::policy::PolicyModel;
use crate::posture::Posture;
use crate::principal::{IdentityError, PrincipalEnrichment, PrincipalIdentity};
use crate::provider::secures;
use crate::session::{blocks, comes_to, Evaluation};
use crate::table::FieldModel;
use crate::types::Decision;

verus! {

/// **Only an enforcing posture enforces.** Under any other the plan runs as it is,
/// whatever the engine said.
pub proof fn law_only_enforcing_enforces<T>(
    posture: Posture,
    principal: PrincipalIdentity,
    plan: T,
    evaluation: Evaluation<T>,
    r: Result<T, PolicyError>,
)
    requires
        comes_to(posture, principal, plan, evaluation, r),
        posture != Posture::Enforcing,
    ensures
        r == Ok::<T, PolicyError>(plan),
{
}

/// **Enforcing fails closed.** A plan that runs under an enforcing posture is the
/// governed one, and the engine allowed it.
pub proof fn law_enforcing_fails_closed<T>(
    principal: PrincipalIdentity,
    plan: T,
    evaluation: Evaluation<T>,
    r: Result<T, PolicyError>,
)
    requires
        comes_to(Posture::Enforcing, principal, plan, evaluation, r),
        r is Ok,
    ensures
        evaluation == (Evaluation::Gated {
            governed: r->Ok_0,
            decision: Ok::<Decision, PolicyError>(Decision::Allow),
        }),
{
}

/// **A dry run reports what enforcing would do.** What is reported to block a query
/// is what blocks it under an enforcing posture.
pub proof fn law_reports_tell_what_enforcing_does<T>(
    principal: PrincipalIdentity,
    plan: T,
    evaluation: Evaluation<T>,
    r: Result<T, PolicyError>,
)
    requires
        comes_to(Posture::Enforcing, principal, plan, evaluation, r),
    ensures
        r is Err == blocks(evaluation),
{
}

/// **The identity provider is authoritative.** Of an enriched principal an attribute
/// that the provider resolved has the provider's value, whatever the client
/// asserted; every other attribute is the client's. The uid never changes.
pub proof fn law_provider_overrides_client(
    base: PrincipalIdentity,
    enrichment: PrincipalEnrichment,
    bound: PrincipalIdentity,
    key: Seq<char>,
)
    requires
        is_enriched(base, enrichment, bound),
    ensures
        bound.uid == base.uid,
        enrichment.attributes@.contains_key(key) ==> bound.attributes@.contains_key(key)
            && bound.attributes@[key] == enrichment.attributes@[key],
        !enrichment.attributes@.contains_key(key) ==> bound.attributes@.contains_key(key)
            == base.attributes@.contains_key(key),
        !enrichment.attributes@.contains_key(key) && base.attributes@.contains_key(key)
            ==> bound.attributes@[key] == base.attributes@[key],
{
}

/// **An identity that cannot be had is not made up.** A failed lookup leaves the
/// principal as it is or refuses it, and refuses it where policies are enforced.
pub proof fn law_failed_lookup_adds_nothing(
    posture: Posture,
    base: PrincipalIdentity,
    e: IdentityError,
    r: Result<PrincipalIdentity, PolicyError>,
)
    requires
        settles(posture, base, Err(e), r),
    ensures
        r is Ok ==> r->Ok_0 == base && posture != Posture::Enforcing,
        posture == Posture::Enforcing ==> r is Err,
{
}

/// **One enforcement, two placements.** A scan that the planner governs and a secured
/// view of the same table under the same policy are the same plan.
pub proof fn law_both_placements_enforce_alike(
    table: Seq<Seq<char>>,
    fields: Seq<FieldModel>,
    policies: Map<Seq<Seq<char>>, PolicyModel>,
    before: EvalContext,
    view: Option<Plan>,
    after: EvalContext,
)
    requires
        policies.contains_key(table),
        !policies[table].nothing(),
        ({
            let scan = bare_model(NodeModel::TableScan { table, fields });
            secures(table, fields, scan, policies[table], before, view, after)
        }),
    ensures
        ({
            let scan = bare_model(NodeModel::TableScan { table, fields });
            view is Some && view->0@ == rewritten(scan, policies)
        }),
{
    assert(rewritten_all(Seq::empty(), policies) =~= Seq::<PlanModel>::empty());
}

/// **A table is governed once.** A table handed out as a secured view gets no policy
/// from the planner, whatever the engine replies.
pub proof fn law_secured_tables_are_governed_once(
    table: Seq<Seq<char>>,
    fields: Seq<FieldModel>,
    scan: PlanModel,
    policy: PolicyModel,
    before: EvalContext,
    view: Option<Plan>,
    after: EvalContext,
    scans: Seq<ScanModel>,
    replies: Seq<PolicyModel>,
    n: nat,
)
    requires
        secures(table, fields, scan, policy, before, view, after),
        view is Some,
    ensures
        !gathered(scans, replies, after.catalog_facts.governed(), n).contains_key(table),
{
    law_marked_tables_get_no_policy(scans, replies, after.catalog_facts.governed(), n, table);
}

} // verus!
