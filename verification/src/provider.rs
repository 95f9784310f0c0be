//! Secured views: enforcement at the time a table is resolved.
//!
//! A host that resolves tables per query may hand a table out as a view that
//! carries its enforcement. The table is then marked, and the planner does not
//! govern its scan a second time.

use std::sync::Arc;

use vstd::prelude::*;

use crate::engine::PolicyEngine;
use crate::error::PolicyError;
use crate::facts::EvalContext;
use crate::govern::{apply_table_policy, enforced};
use crate::plan::{Plan, PlanModel};
use crate::policy::{PolicyModel, TablePolicy};
use crate::principal::PrincipalIdentity;
use crate::session::SessionExtensions;
use crate::table::{dotted, field_models, Field, FieldModel, TableReference};

verus! {

/// Whether `view` is the secured view of a table under `policy`, and `after` the
/// facts once it is handed out: no view, and nothing marked, where there is nothing
/// to enforce.
pub open spec fn secures(
    table: Seq<Seq<char>>,
    fields: Seq<FieldModel>,
    scan: PlanModel,
    policy: PolicyModel,
    before: EvalContext,
    view: Option<Plan>,
    after: EvalContext,
) -> bool {
    if policy.nothing() {
        view is None && after == before
    } else {
        &&& view is Some
        &&& view->0@ == enforced(scan, fields, policy)
        &&& after.catalog_facts.facts() == before.catalog_facts.facts()
        &&& after.catalog_facts.governed() == before.catalog_facts.governed().insert(dotted(table))
        &&& after.correlation_id == before.correlation_id
        &&& after.function_resolver == before.function_resolver
    }
}

/// The secured view of `table` under `policy`, over a scan that yields `fields`.
/// `None` where there is nothing to enforce: the table keeps its own provider.
pub fn secure(
    table: &TableReference,
    fields: &Vec<Field>,
    scan: Plan,
    policy: &TablePolicy,
    eval: &mut EvalContext,
) -> (r: Option<Plan>)
    ensures
        secures(table@, field_models(fields@), scan@, policy@, *old(eval), r, *final(eval)),
{
    if policy.is_empty() {
        return None;
    }
    let view = apply_table_policy(scan, fields, policy);
    eval.catalog_facts.mark_governed(table.clone());
    Some(view)
}

/// The secured view of `table` for `principal`. An error of the engine is the
/// outcome: the table is not handed out ungoverned.
///
/// Whether the query may run at all is not decided here: a principal that may read
/// no row may still be allowed to write.
pub fn govern_provider<E: PolicyEngine>(
    table: &TableReference,
    fields: &Vec<Field>,
    scan: Plan,
    policy: &E,
    principal: &PrincipalIdentity,
    eval: &mut EvalContext,
) -> (r: Result<Option<Plan>, PolicyError>)
    ensures
        match r {
            Ok(view) => exists|reply: TablePolicy| #[trigger]
                policy.may_constrain(
                    table@,
                    field_models(fields@),
                    *principal,
                    *old(eval),
                    Ok(reply),
                ) && secures(
                    table@,
                    field_models(fields@),
                    scan@,
                    reply@,
                    *old(eval),
                    view,
                    *final(eval),
                ),
            Err(e) => policy.may_constrain(
                table@,
                field_models(fields@),
                *principal,
                *old(eval),
                Err(e),
            ) && *final(eval) == *old(eval),
        },
{
    match policy.constrain(table, fields, principal, eval) {
        Ok(reply) => Ok(secure(table, fields, scan, &reply, eval)),
        Err(e) => Err(e),
    }
}

/// The engine and the principal that are attached to a session, to govern a table
/// with. The engine is missed first.
pub fn attached<E, R, S>(session: &SessionExtensions<E, R, S>) -> (r: Result<
    (&Arc<E>, &PrincipalIdentity),
    PolicyError,
>)
    ensures
        match (session.engine, session.principal) {
            (None, _) => r == Err::<(&Arc<E>, &PrincipalIdentity), PolicyError>(
                PolicyError::NoEngineForTable,
            ),
            (Some(_), None) => r == Err::<(&Arc<E>, &PrincipalIdentity), PolicyError>(
                PolicyError::NoPrincipalForTable,
            ),
            (Some(engine), Some(principal)) => r == Ok::<(&Arc<E>, &PrincipalIdentity), PolicyError>(
                (&engine.0, &principal.0),
            ),
        },
{
    match (&session.engine, &session.principal) {
        (None, _) => Err(PolicyError::NoEngineForTable),
        (Some(_), None) => Err(PolicyError::NoPrincipalForTable),
        (Some(engine), Some(principal)) => Ok((&engine.0, &principal.0)),
    }
}

/// The secured view of `table` for the principal and by the engine that are
/// attached to a session.
pub fn govern_provider_from_config<E: PolicyEngine, R, S>(
    session: &SessionExtensions<E, R, S>,
    table: &TableReference,
    fields: &Vec<Field>,
    scan: Plan,
    eval: &mut EvalContext,
) -> (r: Result<Option<Plan>, PolicyError>)
    ensures
        session.engine is None ==> r == Err::<Option<Plan>, PolicyError>(
            PolicyError::NoEngineForTable,
        ) && *final(eval) == *old(eval),
        session.engine is Some && session.principal is None ==> r == Err::<
            Option<Plan>,
            PolicyError,
        >(PolicyError::NoPrincipalForTable) && *final(eval) == *old(eval),
        session.engine is Some && session.principal is Some ==> {
            let engine = *session.engine->0.handle();
            let principal = session.principal->0.identity();
            let columns = field_models(fields@);
            match r {
                Ok(view) => exists|reply: TablePolicy| #[trigger]
                    engine.may_constrain(table@, columns, principal, *old(eval), Ok(reply))
                        && secures(
                        table@,
                        columns,
                        scan@,
                        reply@,
                        *old(eval),
                        view,
                        *final(eval),
                    ),
                Err(e) => engine.may_constrain(table@, columns, principal, *old(eval), Err(e))
                    && *final(eval) == *old(eval),
            }
        },
{
    match attached(session) {
        Ok((engine, principal)) => {
            assert(*engine == session.engine->0.handle());
            assert(*principal == session.principal->0.identity());
            govern_provider(table, fields, scan, &**engine, principal, eval)
        },
        Err(e) => Err(e),
    }
}

/// Whether a projection keeps every one of `width` columns in its place, so that
/// putting it over a view would change nothing.
pub fn is_identity(projection: &Vec<usize>, width: usize) -> (r: bool)
    ensures
        r == (projection@.len() == width && forall|i: int|
            0 <= i < width ==> #[trigger] projection@[i] == i),
{
    if projection.len() != width {
        return false;
    }
    let mut i: usize = 0;
    while i < width
        invariant
            i <= width,
            projection@.len() == width,
            forall|j: int| 0 <= j < i ==> #[trigger] projection@[j] == j,
        decreases width - i,
    {
        if projection[i] != i {
            return false;
        }
        i += 1;
    }
    true
}

} // verus!
