//! What a query, a principal and a profile come to, case by case.

use std::sync::Arc;

use vstd::prelude::*;
use vstd::std_specs::convert::FromSpec;

use crate::abac::{AbacPolicyEngine, PrincipalMatcher};
use crate::engine::{PolicyEngine, StaticPolicyEngine};
use crate::error::PolicyError;
use crate::expr::{ExprModel, Operator};
use crate::fact_store::FactStore;
use crate::facts::EvalContext;
use crate::govern::{
    conjunction, constrained, enforced, gathered, governed_by, replied, rewritten, scans_of,
    stored, tainted_up_to, taints_of,
};
use crate::governance::{filled, settles, GovernanceBuilder, NoIdentityProvider, Slot};
use crate::plan::{Plan, PlanModel};
use crate::plan_laws::{law_every_classified_read_leaves_a_trace, law_no_constraint_no_policy};
use crate::policy::{PolicyModel, TablePolicy};
use crate::posture::Posture;
use crate::principal::{
    IdentityError, IdentityProvider, PrincipalClaims, PrincipalEnrichment, PrincipalIdentity,
};
use crate::provider::secures;
use crate::session::{all_tainted, blocks, comes_to, gate_fails, CatalogFactSinkExt, Evaluation};
use crate::table::{dotted, FieldModel};
use crate::types::{AttrValue, Decision};

verus! {

// ---------------------------------------------------------------------------
// Queries
// ---------------------------------------------------------------------------

/// **Enforcing says what it did.** A query that the engine allows is the governed one, a
/// query that it denies is refused in the principal's name, and an error, of governing or
/// of the engine, is handed on as it is.
pub proof fn law_enforcing_says_what_it_did<T>(
    principal: PrincipalIdentity,
    plan: T,
    governed: T,
    evaluation: Evaluation<T>,
    r: Result<T, PolicyError>,
    e: PolicyError,
)
    requires
        comes_to(Posture::Enforcing, principal, plan, evaluation, r),
    ensures
        evaluation == Evaluation::<T>::Failed(e) ==> r == Err::<T, PolicyError>(e),
        evaluation == (Evaluation::Gated {
            governed,
            decision: Ok::<Decision, PolicyError>(Decision::Allow),
        }) ==> r == Ok::<T, PolicyError>(governed),
        evaluation == (Evaluation::Gated {
            governed,
            decision: Ok::<Decision, PolicyError>(Decision::Deny),
        }) ==> r is Err && r->Err_0 is NotAuthorized && r->Err_0->NotAuthorized_0@
            == principal.uid@,
        evaluation == (Evaluation::Gated { governed, decision: Err::<Decision, PolicyError>(e) })
            ==> r == Err::<T, PolicyError>(e),
{
}

/// **Only an allowed query is not blocked.**
pub proof fn law_only_allowed_queries_pass<T>(evaluation: Evaluation<T>)
    ensures
        !blocks(evaluation) <==> match evaluation {
            Evaluation::Failed(_) => false,
            Evaluation::Gated { governed, decision } => decision is Ok && decision->Ok_0
                is Allow,
        },
{
}

/// **A plan fails at the access gate for one of three reasons**: it cannot be optimized,
/// the engine fails, or the engine denies it, and then it is refused in the principal's
/// name.
pub proof fn law_plans_fail_for_a_reason<E: PolicyEngine, F: Fn(&Plan) -> Result<Plan, PolicyError>>(
    optimize: F,
    governed: Plan,
    policy: E,
    principal: PrincipalIdentity,
    eval: EvalContext,
    e: PolicyError,
)
    requires
        gate_fails(optimize, governed, policy, principal, eval, e),
    ensures
        optimize.ensures((&governed,), Err(e)) || exists|optimized: Plan|
            {
                &&& #[trigger] optimize.ensures((&governed,), Ok(optimized))
                &&& policy.may_decide(optimized@, principal, eval, Err(e)) || (policy.may_decide(
                    optimized@,
                    principal,
                    eval,
                    Ok(Decision::Deny),
                ) && e is NotAuthorized && e->NotAuthorized_0@ == principal.uid@)
            },
{
}

/// **A dry run reports every table with a policy.**
pub proof fn law_every_governed_table_is_reported(
    plan: PlanModel,
    policies: Map<Seq<Seq<char>>, PolicyModel>,
)
    ensures
        constrained(plan, policies) <==> exists|i: int|
            0 <= i < scans_of(plan).len() && policies.contains_key(
                (#[trigger] scans_of(plan)[i]).table,
            ),
{
}

// ---------------------------------------------------------------------------
// Governing
// ---------------------------------------------------------------------------

/// **Each filter is joined by `AND`.** One filter is the predicate, and each further one
/// narrows it.
pub proof fn law_filters_are_joined_one_by_one(filters: Seq<ExprModel>, next: ExprModel)
    ensures
        conjunction(seq![next]) == next,
        filters.len() > 0 ==> conjunction(filters.push(next)) == ExprModel::Binary(
            Box::new(conjunction(filters)),
            Operator::And,
            Box::new(next),
        ),
{
    assert(filters.push(next).drop_last() =~= filters);
    assert(filters.push(next).last() == next);
}

/// **A governed plan is what the engine's replies make of it.** There is a reply for each
/// scan; where the scan is not marked and no earlier reply constrains its table, that
/// reply is the engine's own about this very scan; and the plan is put under all of them.
pub proof fn law_plans_are_governed_by_replies<E: PolicyEngine>(
    engine: E,
    plan: PlanModel,
    principal: PrincipalIdentity,
    eval: EvalContext,
    governed: PlanModel,
)
    requires
        governed_by(engine, plan, principal, eval, governed),
    ensures
        exists|replies: Seq<PolicyModel>|
            {
                &&& governed == rewritten(
                    plan,
                    gathered(
                        scans_of(plan),
                        replies,
                        eval.catalog_facts.governed(),
                        scans_of(plan).len(),
                    ),
                )
                &&& #[trigger] replied(engine, plan, principal, eval, replies)
            },
{
}

/// **Every unsettled scan is put to the engine.** The reply about a scan that is not
/// marked, and whose table no earlier reply constrains, is one the engine gives about
/// that table, those columns and that principal.
pub proof fn law_unsettled_scans_get_the_engines_reply<E: PolicyEngine>(
    engine: E,
    plan: PlanModel,
    principal: PrincipalIdentity,
    eval: EvalContext,
    replies: Seq<PolicyModel>,
    i: int,
)
    requires
        replied(engine, plan, principal, eval, replies),
        0 <= i < scans_of(plan).len(),
        !eval.catalog_facts.governed().contains(dotted(scans_of(plan)[i].table)),
        forall|j: int|
            0 <= j < i && (#[trigger] scans_of(plan)[j]).table == scans_of(plan)[i].table
                ==> replies[j].nothing(),
    ensures
        replies.len() == scans_of(plan).len(),
        exists|policy: TablePolicy|
            {
                &&& #[trigger] engine.may_constrain(
                    scans_of(plan)[i].table,
                    scans_of(plan)[i].fields,
                    principal,
                    eval,
                    Ok(policy),
                )
                &&& policy@ == replies[i]
            },
{
    law_no_constraint_no_policy(
        scans_of(plan),
        replies,
        eval.catalog_facts.governed(),
        i as nat,
        scans_of(plan)[i].table,
    );
    assert(replies[i] == replies[i]);
}

/// **Every classified read is on record.** Once a plan is governed, a session holds a
/// taint exactly where it held it before, or where it is the session that read, there is
/// a ledger, and a scan of the plan reads a column so classified.
pub proof fn law_every_classified_read_is_on_record<S: FactStore>(
    before: Option<S>,
    after: Option<S>,
    eval: EvalContext,
    plan: PlanModel,
    session: Seq<char>,
    tag: Seq<char>,
)
    requires
        all_tainted(before, after, eval, plan),
    ensures
        stored(after, session).contains(tag) <==> {
            ||| stored(before, session).contains(tag)
            ||| before is Some && eval.correlation_id is Some && eval.correlation_id->0@ == session
                && exists|i: int, k: int|
                #![trigger scans_of(plan)[i].fields[k]]
                {
                    let facts = eval.catalog_facts.facts();
                    let known = facts[dotted(scans_of(plan)[i].table)].column_tags@;
                    &&& 0 <= i < scans_of(plan).len()
                    &&& 0 <= k < scans_of(plan)[i].fields.len()
                    &&& facts.contains_key(dotted(scans_of(plan)[i].table))
                    &&& known.contains_key(scans_of(plan)[i].fields[k].name)
                    &&& known[scans_of(plan)[i].fields[k].name]@.contains(tag)
                }
        },
{
    let scans = scans_of(plan);
    law_every_classified_read_leaves_a_trace(
        eval.catalog_facts.facts(),
        scans,
        scans.len(),
        tag,
    );
    assert(tainted_up_to(before, after, eval, plan, scans.len()));
    assert(stored(after, session) == stored(after, session));
}

/// **What is read before a fault is on record too.** The taints of the first scans, up to
/// the one at fault, are those of a plan that stops there.
pub proof fn law_reads_before_a_fault_are_on_record<S: FactStore>(
    before: Option<S>,
    after: Option<S>,
    eval: EvalContext,
    plan: PlanModel,
    n: nat,
    session: Seq<char>,
    tag: Seq<char>,
)
    requires
        tainted_up_to(before, after, eval, plan, n),
    ensures
        stored(after, session).contains(tag) <==> {
            ||| stored(before, session).contains(tag)
            ||| before is Some && eval.correlation_id is Some && eval.correlation_id->0@ == session
                && taints_of(eval.catalog_facts.facts(), scans_of(plan), n).contains(tag)
        },
{
    assert(stored(after, session) == stored(after, session));
}

// ---------------------------------------------------------------------------
// Engines
// ---------------------------------------------------------------------------

/// **A static engine decides one way, constrains nothing and has no say in tools.**
pub proof fn law_static_engines_decide_one_way(
    engine: StaticPolicyEngine,
    plan: PlanModel,
    table: Seq<Seq<char>>,
    fields: Seq<FieldModel>,
    principal: PrincipalIdentity,
    eval: EvalContext,
    action: Seq<char>,
    observed: Set<Seq<char>>,
    decided: Result<Decision, PolicyError>,
    reply: Result<TablePolicy, PolicyError>,
)
    ensures
        engine.may_decide(plan, principal, eval, decided) <==> decided is Ok && decided->Ok_0
            == engine.decision(),
        engine.may_constrain(table, fields, principal, eval, reply) ==> reply is Ok
            && reply->Ok_0@.row_filters.len() == 0 && forall|column: Seq<char>|
            !#[trigger] reply->Ok_0@.column_masks.contains_key(column),
        engine.may_use(action, principal, observed, decided) <==> decided is Ok && decided->Ok_0
            is Allow,
{
}

/// **Bindings deny nothing outright.** The engine of bindings allows every plan and every
/// tool, and constrains a scan by the names of the columns that it reads.
pub proof fn law_bindings_deny_nothing_outright<M: PrincipalMatcher>(
    engine: AbacPolicyEngine<M>,
    plan: PlanModel,
    table: Seq<Seq<char>>,
    fields: Seq<FieldModel>,
    columns: Seq<Seq<char>>,
    principal: PrincipalIdentity,
    eval: EvalContext,
    action: Seq<char>,
    observed: Set<Seq<char>>,
    decided: Result<Decision, PolicyError>,
    reply: Result<TablePolicy, PolicyError>,
)
    requires
        columns.len() == fields.len(),
        forall|i: int| 0 <= i < fields.len() ==> #[trigger] columns[i] == fields[i].name,
    ensures
        engine.may_decide(plan, principal, eval, decided) <==> decided is Ok && decided->Ok_0
            is Allow,
        engine.may_use(action, principal, observed, decided) <==> decided is Ok && decided->Ok_0
            is Allow,
        engine.may_constrain(table, fields, principal, eval, reply) <==> engine.answers(
            table,
            columns,
            principal,
            eval,
            reply,
        ),
{
    assert(columns =~= crate::table::model_names(fields));
}

/// **A slot decides as what is in it.**
pub proof fn law_slots_decide_as_what_is_in_them<E: PolicyEngine>(
    host: Arc<E>,
    own: StaticPolicyEngine,
    plan: PlanModel,
    table: Seq<Seq<char>>,
    fields: Seq<FieldModel>,
    principal: PrincipalIdentity,
    eval: EvalContext,
    action: Seq<char>,
    observed: Set<Seq<char>>,
    decided: Result<Decision, PolicyError>,
    reply: Result<TablePolicy, PolicyError>,
)
    ensures
        ({
            let slot = Slot::<StaticPolicyEngine, E>::Host(host);
            &&& slot.may_decide(plan, principal, eval, decided) <==> (*host).may_decide(
                plan,
                principal,
                eval,
                decided,
            )
            &&& slot.may_constrain(table, fields, principal, eval, reply)
                <==> (*host).may_constrain(table, fields, principal, eval, reply)
            &&& slot.may_use(action, principal, observed, decided) <==> (*host).may_use(
                action,
                principal,
                observed,
                decided,
            )
        }),
        ({
            let slot = Slot::<StaticPolicyEngine, E>::Default(own);
            &&& slot.may_decide(plan, principal, eval, decided) <==> own.may_decide(
                plan,
                principal,
                eval,
                decided,
            )
            &&& slot.may_constrain(table, fields, principal, eval, reply) <==> own.may_constrain(
                table,
                fields,
                principal,
                eval,
                reply,
            )
            &&& slot.may_use(action, principal, observed, decided) <==> own.may_use(
                action,
                principal,
                observed,
                decided,
            )
        }),
{
}

// ---------------------------------------------------------------------------
// Profiles
// ---------------------------------------------------------------------------

/// **A profile uses what the host supplied, and a stand-in only where it supplied
/// nothing.**
pub proof fn law_profiles_use_what_was_supplied<D, H>(supplied: Option<Arc<H>>, slot: Slot<D, H>)
    requires
        filled(supplied, slot),
    ensures
        supplied is Some ==> slot is Host && slot->Host_0 == supplied->0,
        supplied is None ==> slot is Default,
{
}

/// **A profile enforces unless told otherwise.**
pub proof fn law_profiles_enforce_unless_told_otherwise<E, I, R, S>(
    builder: GovernanceBuilder<E, I, R, S>,
)
    ensures
        builder.chosen_posture() is None ==> builder.final_posture() == Posture::Enforcing,
        builder.chosen_posture() is Some ==> builder.final_posture()
            == builder.chosen_posture()->0,
{
}

/// **A resolved identity takes effect whole.** The groups and the hierarchy are the
/// provider's, in place of the client's, and the uid stays; a failed lookup is reported
/// under an enforcing posture, with the uid and the provider's reason.
pub proof fn law_resolved_identities_take_effect(
    posture: Posture,
    base: PrincipalIdentity,
    outcome: Result<PrincipalEnrichment, IdentityError>,
    r: Result<PrincipalIdentity, PolicyError>,
    key: Seq<char>,
)
    requires
        settles(posture, base, outcome, r),
    ensures
        outcome is Ok ==> {
            let found = outcome->Ok_0;
            &&& r is Ok
            &&& r->Ok_0.uid == base.uid
            &&& r->Ok_0.groups == found.groups
            &&& r->Ok_0.group_hierarchy == found.group_hierarchy
            &&& r->Ok_0.attributes@.contains_key(key) <==> base.attributes@.contains_key(key)
                || found.attributes@.contains_key(key)
            &&& found.attributes@.contains_key(key) ==> r->Ok_0.attributes@[key]
                == found.attributes@[key]
            &&& !found.attributes@.contains_key(key) && base.attributes@.contains_key(key)
                ==> r->Ok_0.attributes@[key] == base.attributes@[key]
        },
        outcome is Err && posture == Posture::Enforcing ==> {
            &&& r is Err
            &&& r->Err_0 is Enrichment
            &&& r->Err_0->Enrichment_principal@ == base.uid@
            &&& r->Err_0->Enrichment_reason@ == outcome->Err_0.text()
        },
        outcome is Err && posture != Posture::Enforcing ==> r == Ok::<
            PrincipalIdentity,
            PolicyError,
        >(base),
{
}

/// **Without an identity provider nothing is resolved.**
pub proof fn law_no_provider_resolves_nothing(
    uid: Seq<char>,
    claims: PrincipalClaims,
    r: Result<PrincipalEnrichment, IdentityError>,
)
    ensures
        NoIdentityProvider.may_enrich(uid, claims, r) <==> r is Err,
{
}

/// **A session starts with nothing gathered.**
pub proof fn law_fresh_sinks_hold_nothing(sink: CatalogFactSinkExt, name: Seq<char>)
    requires
        sink.is_fresh(),
    ensures
        !sink.0.facts().contains_key(name),
        !sink.0.governed().contains(name),
{
}

// ---------------------------------------------------------------------------
// Secured views
// ---------------------------------------------------------------------------

/// **A secured view carries its enforcement and marks its table.** A table with nothing
/// to enforce gets no view and no mark; any other gets the view of its own policy over
/// its own columns, and is marked besides those marked before. Facts, session and catalog
/// stay.
pub proof fn law_secured_views_carry_their_enforcement(
    table: Seq<Seq<char>>,
    fields: Seq<FieldModel>,
    scan: PlanModel,
    policy: PolicyModel,
    before: EvalContext,
    view: Option<Plan>,
    after: EvalContext,
    name: Seq<char>,
)
    requires
        secures(table, fields, scan, policy, before, view, after),
    ensures
        view is Some <==> policy.row_filters.len() > 0 || exists|column: Seq<char>| #[trigger]
            policy.column_masks.contains_key(column),
        view is Some ==> view->0@ == enforced(scan, fields, policy),
        view is None ==> after == before,
        after.catalog_facts.governed().contains(name)
            <==> before.catalog_facts.governed().contains(name) || (view is Some && name == dotted(
            table,
        )),
        after.catalog_facts.facts() == before.catalog_facts.facts(),
        after.correlation_id == before.correlation_id,
        after.function_resolver == before.function_resolver,
{
    if forall|column: Seq<char>| !#[trigger] policy.column_masks.contains_key(column) {
        assert(policy.column_masks =~= Map::<Seq<char>, ExprModel>::empty());
    }
}

// ---------------------------------------------------------------------------
// Values
// ---------------------------------------------------------------------------

/// **An attribute is made of the very value.**
pub proof fn law_attributes_are_made_of_the_value(s: String, n: i64, b: bool)
    ensures
        <AttrValue as FromSpec<String>>::from_spec(s) == AttrValue::String(s),
        <AttrValue as FromSpec<i64>>::from_spec(n) == AttrValue::Long(n),
        <AttrValue as FromSpec<bool>>::from_spec(b) == AttrValue::Bool(b),
        <AttrValue as FromSpec<String>>::obeys_from_spec(),
        <AttrValue as FromSpec<i64>>::obeys_from_spec(),
        <AttrValue as FromSpec<bool>>::obeys_from_spec(),
{
}

} // verus!
