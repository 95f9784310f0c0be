//! What a session carries for the policy layer, and what a query comes to.
//!
//! A host attaches the principal, the catalog's facts, the engine, the taint
//! ledger and the function catalog to a session; the policy layer reads them back.
//! The statement path governs a plan, has the governed plan optimized, gates the
//! optimized plan, and runs the governed one.

use std::sync::Arc;

use vstd::prelude::*;

use crate::engine::PolicyEngine;
use crate::error::PolicyError;
use crate::fact_store::FactStore;
use crate::facts::{CatalogFactSink, EvalContext, TableFacts};
use crate::function::ResolvedFunctions;
use crate::govern::{
    constrained, fails_at, govern_plan, governed_by, scan_models, scans_of, table_scans,
    tainted_up_to, Scan, TablePolicies,
};
use crate::plan::{Plan, PlanModel};
use crate::posture::Posture;
use crate::principal::PrincipalIdentity;
use crate::types::Decision;

verus! {

// ---------------------------------------------------------------------------
// What a session carries
// ---------------------------------------------------------------------------

/// The principal a session's queries run as.
#[derive(Debug)]
pub struct PrincipalExt(pub PrincipalIdentity);

/// The facts the catalog gathers for a query.
#[derive(Debug)]
pub struct CatalogFactSinkExt(pub CatalogFactSink);

impl CatalogFactSinkExt {
    /// Whether nothing has been gathered.
    pub open spec fn is_fresh(&self) -> bool {
        &&& self.0.facts() == Map::<Seq<char>, TableFacts>::empty()
        &&& self.0.governed() == Set::<Seq<char>>::empty()
    }
}

impl Default for CatalogFactSinkExt {
    fn default() -> (r: Self)
        ensures
            r.is_fresh(),
    {
        CatalogFactSinkExt(CatalogFactSink::new())
    }
}

/// The engine that decides.
#[derive(Debug)]
pub struct PolicyEngineExt<E>(pub Arc<E>);

impl<E> PolicyEngineExt<E> {
    /// The engine.
    pub open spec fn handle(self) -> Arc<E> {
        self.0
    }
}

impl PrincipalExt {
    /// The principal.
    pub open spec fn identity(self) -> PrincipalIdentity {
        self.0
    }
}

/// The taint ledger.
#[derive(Debug)]
pub struct FactStoreExt<S>(pub Arc<S>);

/// The catalog that functions are looked up in.
#[derive(Debug)]
pub struct FunctionResolverExt<R>(pub Arc<R>);

/// What is attached to a session.
#[derive(Debug)]
pub struct SessionExtensions<E, R, S> {
    pub principal: Option<PrincipalExt>,
    pub catalog_facts: Option<CatalogFactSinkExt>,
    pub engine: Option<PolicyEngineExt<E>>,
    pub fact_store: Option<FactStoreExt<S>>,
    pub function_resolver: Option<FunctionResolverExt<R>>,
}

impl<E, R, S> SessionExtensions<E, R, S> {
    /// A session to which nothing is attached.
    pub fn new() -> (r: Self)
        ensures
            r.principal is None,
            r.catalog_facts is None,
            r.engine is None,
            r.fact_store is None,
            r.function_resolver is None,
    {
        SessionExtensions {
            principal: None,
            catalog_facts: None,
            engine: None,
            fact_store: None,
            function_resolver: None,
        }
    }
}

/// Reads the principal that is attached to a session.
#[derive(Debug, Default)]
pub struct SessionConfigPrincipalProvider;

impl SessionConfigPrincipalProvider {
    /// The principal attached to the session, if one is.
    pub fn principal<'a, E, R, S>(&self, session: &'a SessionExtensions<E, R, S>) -> (r: Option<
        &'a PrincipalIdentity,
    >)
        ensures
            match session.principal {
                Some(ext) => r == Some(&ext.0),
                None => r is None,
            },
    {
        match &session.principal {
            Some(ext) => Some(&ext.0),
            None => None,
        }
    }
}

/// Assembles the facts a decision may draw on from what is attached to a session.
#[derive(Debug, Default)]
pub struct SessionConfigEvalContextProvider;

impl SessionConfigEvalContextProvider {
    /// The facts attached to the session, none where no sink is; the session's id
    /// as the correlation id; and what the catalog said of functions.
    pub fn eval_context(
        &self,
        catalog_facts: Option<CatalogFactSinkExt>,
        session_id: &str,
        functions: Option<ResolvedFunctions>,
    ) -> (r: EvalContext)
        ensures
            match catalog_facts {
                Some(ext) => r.catalog_facts == ext.0,
                None => r.catalog_facts.facts() == Map::<Seq<char>, TableFacts>::empty()
                    && r.catalog_facts.governed() == Set::<Seq<char>>::empty(),
            },
            r.correlation_id is Some,
            r.correlation_id->0@ == session_id@,
            r.function_resolver == functions,
    {
        let catalog_facts = match catalog_facts {
            Some(ext) => ext.0,
            None => CatalogFactSink::new(),
        };
        EvalContext {
            catalog_facts,
            correlation_id: Some(session_id.to_owned()),
            function_resolver: functions,
        }
    }
}

// ---------------------------------------------------------------------------
// What a query comes to
// ---------------------------------------------------------------------------

/// The principal a query runs as. A session that none is bound to is refused
/// where policies are enforced, and its query passes ungoverned (`None`) where
/// they are not.
pub fn bound_principal(posture: Posture, principal: Option<PrincipalIdentity>) -> (r: Result<
    Option<PrincipalIdentity>,
    PolicyError,
>)
    ensures
        r == match (principal, posture) {
            (Some(_), _) => Ok::<Option<PrincipalIdentity>, PolicyError>(principal),
            (None, Posture::Enforcing) => Err(PolicyError::NoPrincipal),
            (None, _) => Ok(None),
        },
{
    match (principal, posture) {
        (Some(principal), _) => Ok(Some(principal)),
        (None, Posture::Enforcing) => Err(PolicyError::NoPrincipal),
        (None, _) => Ok(None),
    }
}

/// How far a query got through evaluation.
#[derive(Debug)]
pub enum Evaluation<T> {
    /// Governing the plan failed.
    Failed(PolicyError),
    /// The plan was governed, and the engine was asked whether it may run.
    Gated { governed: T, decision: Result<Decision, PolicyError> },
}

/// Whether `r` is what an evaluated query comes to. Where policies are enforced
/// the governed plan runs if the engine allows it, and otherwise nothing does;
/// where they are not, the plan runs as it is.
pub open spec fn comes_to<T>(
    posture: Posture,
    principal: PrincipalIdentity,
    plan: T,
    evaluation: Evaluation<T>,
    r: Result<T, PolicyError>,
) -> bool {
    if posture != Posture::Enforcing {
        r == Ok::<T, PolicyError>(plan)
    } else {
        match evaluation {
            Evaluation::Failed(e) => r == Err::<T, PolicyError>(e),
            Evaluation::Gated { governed, decision } => match decision {
                Ok(Decision::Allow) => r == Ok::<T, PolicyError>(governed),
                Ok(Decision::Deny) => refuses(r, principal),
                Err(e) => r == Err::<T, PolicyError>(e),
            },
        }
    }
}

/// Whether `r` says that the principal may not run the query.
pub open spec fn refuses<T>(r: Result<T, PolicyError>, principal: PrincipalIdentity) -> bool {
    r is Err && (r->Err_0 matches PolicyError::NotAuthorized(uid) && uid@ == principal.uid@)
}

/// What an evaluated query comes to.
pub fn settle_query<T>(
    posture: Posture,
    principal: &PrincipalIdentity,
    plan: T,
    evaluation: Evaluation<T>,
) -> (r: Result<T, PolicyError>)
    ensures
        comes_to(posture, *principal, plan, evaluation, r),
{
    match posture {
        Posture::Enforcing => match evaluation {
            Evaluation::Failed(e) => Err(e),
            Evaluation::Gated { governed, decision } => match decision {
                Ok(Decision::Allow) => Ok(governed),
                Ok(Decision::Deny) => Err(PolicyError::NotAuthorized(principal.uid.clone())),
                Err(e) => Err(e),
            },
        },
        _ => Ok(plan),
    }
}

/// Whether an evaluated query is kept from running where policies are enforced: it
/// could not be governed, the engine failed, or the engine denied it.
pub open spec fn blocks<T>(evaluation: Evaluation<T>) -> bool {
    match evaluation {
        Evaluation::Gated { decision, .. } => decision != Ok::<Decision, PolicyError>(
            Decision::Allow,
        ),
        Evaluation::Failed(_) => true,
    }
}

/// Whether an evaluated query is kept from running where policies are enforced, to
/// be reported where they are not.
pub fn would_block<T>(evaluation: &Evaluation<T>) -> (r: bool)
    ensures
        r == blocks(*evaluation),
{
    match evaluation {
        Evaluation::Gated { decision, .. } => match decision {
            Ok(Decision::Allow) => false,
            _ => true,
        },
        Evaluation::Failed(_) => true,
    }
}

/// Whether enforcing `policies` would constrain what `plan` reads, to be reported
/// where they are not enforced.
pub fn would_constrain(plan: &Plan, policies: &TablePolicies) -> (r: bool)
    ensures
        r == constrained(plan@, policies@),
{
    let scans: Vec<Scan> = table_scans(plan);
    let mut i: usize = 0;
    while i < scans.len()
        invariant
            i <= scans@.len(),
            scan_models(scans@) == scans_of(plan@),
            forall|j: int|
                0 <= j < i ==> !policies@.contains_key((#[trigger] scans_of(plan@)[j]).table),
        decreases scans@.len() - i,
    {
        assert(scans_of(plan@)[i as int] == scans@[i as int]@);
        if policies.get(&scans[i].table).is_some() {
            return true;
        }
        i += 1;
    }
    false
}

/// Govern `plan`, then gate the optimized plan: the one enforcement sequence of
/// statements and of write paths that bypass them.
///
/// The access gate sees the plan that `optimize` makes of the governed one, so that it
/// decides on the data that is really accessed. What is handed back is the governed
/// plan.
pub fn authorize_and_govern<E: PolicyEngine, S: FactStore, F: Fn(&Plan) -> Result<Plan, PolicyError>>(
    optimize: F,
    plan: Plan,
    policy: &E,
    principal: &PrincipalIdentity,
    eval: &EvalContext,
    store: &mut Option<S>,
) -> (r: Result<Plan, PolicyError>)
    requires
        forall|p: &Plan| #[trigger] optimize.requires((p,)),
    ensures
        match r {
            Ok(governed) => {
                &&& governed_by(*policy, plan@, *principal, *eval, governed@)
                &&& exists|optimized: Plan| #[trigger]
                    optimize.ensures((&governed,), Ok(optimized)) && policy.may_decide(
                        optimized@,
                        *principal,
                        *eval,
                        Ok(Decision::Allow),
                    )
                &&& all_tainted(*old(store), *final(store), *eval, plan@)
            },
            Err(e) => {
                ||| exists|i: int| #[trigger]
                    fails_at(*policy, plan@, *principal, *eval, i, e) && tainted_up_to(
                        *old(store),
                        *final(store),
                        *eval,
                        plan@,
                        (i + 1) as nat,
                    )
                ||| all_tainted(*old(store), *final(store), *eval, plan@) && exists|
                    governed: Plan,
                |
                    governed_by(*policy, plan@, *principal, *eval, governed@) && #[trigger]
                    gate_fails(optimize, governed, *policy, *principal, *eval, e)
            },
        },
        (*final(store) is Some) == (*old(store) is Some),
{
    let governed = match govern_plan(plan, policy, principal, eval, store) {
        Ok(governed) => governed,
        Err(e) => return Err(e),
    };
    let optimized = match optimize(&governed) {
        Ok(optimized) => optimized,
        Err(e) => {
            assert(gate_fails(optimize, governed, *policy, *principal, *eval, e));
            return Err(e);
        },
    };
    let decision = policy.is_allowed(&optimized, principal, eval);
    match decision {
        Ok(Decision::Allow) => Ok(governed),
        Ok(Decision::Deny) => {
            let e = PolicyError::NotAuthorized(principal.uid.clone());
            assert(gate_fails(optimize, governed, *policy, *principal, *eval, e));
            Err(e)
        },
        Err(e) => {
            assert(gate_fails(optimize, governed, *policy, *principal, *eval, e));
            Err(e)
        },
    }
}

/// Whether a store holds what it held before and the taints of all of a plan's scans.
pub open spec fn all_tainted<S: FactStore>(
    before: Option<S>,
    after: Option<S>,
    eval: EvalContext,
    plan: PlanModel,
) -> bool {
    tainted_up_to(before, after, eval, plan, scans_of(plan).len())
}

/// Whether a governed plan fails with `e` on its way through the access gate: it cannot be
/// optimized, the engine fails, or the engine denies it.
pub open spec fn gate_fails<E: PolicyEngine, F: Fn(&Plan) -> Result<Plan, PolicyError>>(
    optimize: F,
    governed: Plan,
    policy: E,
    principal: PrincipalIdentity,
    eval: EvalContext,
    e: PolicyError,
) -> bool {
    ||| optimize.ensures((&governed,), Err(e))
    ||| exists|optimized: Plan| #[trigger]
        optimize.ensures((&governed,), Ok(optimized)) && (policy.may_decide(
            optimized@,
            principal,
            eval,
            Err(e),
        ) || (policy.may_decide(optimized@, principal, eval, Ok(Decision::Deny)) && refuses(
            Err::<Plan, PolicyError>(e),
            principal,
        )))
}

} // verus!
