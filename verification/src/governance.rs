//! The host's entry point: one profile, assembled once, with an explicit
//! [`Posture`].
//!
//! A profile cannot be built that promises enforcement and has no engine. Binding a
//! principal enriches it, and attaching the profile to a session attaches
//! everything the enforcement layer reads.

use std::sync::Arc;

use vstd::prelude::*;

use crate::engine::{PolicyEngine, StaticPolicyEngine};
use crate::error::PolicyError;
use crate::fact_store::{FactStore, InMemoryFactStore};
use crate::facts::EvalContext;
use crate::names::NameSet;
use crate::plan::{Plan, PlanModel};
use crate::policy::TablePolicy;
use crate::posture::Posture;
use crate::principal::{
    IdentityError, IdentityProvider, PrincipalClaims, PrincipalEnrichment, PrincipalIdentity,
};
use crate::session::{
    CatalogFactSinkExt, FactStoreExt, FunctionResolverExt, PolicyEngineExt, PrincipalExt,
    SessionExtensions,
};
use crate::table::{Field, FieldModel, TableReference};
use crate::types::Decision;

verus! {

// ---------------------------------------------------------------------------
// Parts
// ---------------------------------------------------------------------------

/// A part of a profile: the host's, or the one that stands in for it.
#[derive(Debug)]
pub enum Slot<D, H> {
    /// The part the host supplied.
    Host(Arc<H>),
    /// The part that stands in where the host supplied none.
    Default(D),
}

/// Whether `slot` holds what the host supplied, or else a default.
pub open spec fn filled<D, H>(supplied: Option<Arc<H>>, slot: Slot<D, H>) -> bool {
    match supplied {
        Some(host) => slot == Slot::<D, H>::Host(host),
        None => slot is Default,
    }
}

/// The engine of a profile.
pub type EngineSlot<E> = Slot<StaticPolicyEngine, E>;

/// The taint ledger of a profile.
pub type StoreSlot<S> = Slot<InMemoryFactStore, S>;

impl<E: PolicyEngine> PolicyEngine for Slot<StaticPolicyEngine, E> {
    /// What the engine in the slot decides.
    open spec fn may_decide(
        &self,
        plan: PlanModel,
        principal: PrincipalIdentity,
        eval: EvalContext,
        r: Result<Decision, PolicyError>,
    ) -> bool {
        match self {
            Slot::Host(engine) => (**engine).may_decide(plan, principal, eval, r),
            Slot::Default(engine) => engine.may_decide(plan, principal, eval, r),
        }
    }

    /// What the engine in the slot replies.
    open spec fn may_constrain(
        &self,
        table: Seq<Seq<char>>,
        fields: Seq<FieldModel>,
        principal: PrincipalIdentity,
        eval: EvalContext,
        r: Result<TablePolicy, PolicyError>,
    ) -> bool {
        match self {
            Slot::Host(engine) => (**engine).may_constrain(table, fields, principal, eval, r),
            Slot::Default(engine) => engine.may_constrain(table, fields, principal, eval, r),
        }
    }

    /// What the engine in the slot says of tools.
    open spec fn may_use(
        &self,
        action: Seq<char>,
        principal: PrincipalIdentity,
        observed: Set<Seq<char>>,
        r: Result<Decision, PolicyError>,
    ) -> bool {
        match self {
            Slot::Host(engine) => (**engine).may_use(action, principal, observed, r),
            Slot::Default(engine) => engine.may_use(action, principal, observed, r),
        }
    }

    fn is_allowed(&self, plan: &Plan, principal: &PrincipalIdentity, eval: &EvalContext) -> (r:
        Result<Decision, PolicyError>) {
        match self {
            Slot::Host(engine) => (**engine).is_allowed(plan, principal, eval),
            Slot::Default(engine) => engine.is_allowed(plan, principal, eval),
        }
    }

    fn constrain(
        &self,
        table: &TableReference,
        fields: &Vec<Field>,
        principal: &PrincipalIdentity,
        eval: &EvalContext,
    ) -> (r: Result<TablePolicy, PolicyError>) {
        match self {
            Slot::Host(engine) => (**engine).constrain(table, fields, principal, eval),
            Slot::Default(engine) => engine.constrain(table, fields, principal, eval),
        }
    }

    fn tool_policy(
        &self,
        action: &str,
        principal: &PrincipalIdentity,
        observed_taints: &NameSet,
    ) -> (r: Result<Decision, PolicyError>) {
        match self {
            Slot::Host(engine) => (**engine).tool_policy(action, principal, observed_taints),
            Slot::Default(engine) => engine.tool_policy(action, principal, observed_taints),
        }
    }
}

/// The identity provider of a profile that has none.
#[derive(Debug)]
pub struct NoIdentityProvider;

impl IdentityProvider for NoIdentityProvider {
    /// Never anything but an error.
    open spec fn may_enrich(
        &self,
        uid: Seq<char>,
        claims: PrincipalClaims,
        r: Result<PrincipalEnrichment, IdentityError>,
    ) -> bool {
        r is Err
    }

    fn enrich(&self, uid: &str, claims: &PrincipalClaims) -> (r: Result<
        PrincipalEnrichment,
        IdentityError,
    >) {
        Err(IdentityError::Provider("no identity provider".to_owned()))
    }
}

/// The function catalog of a profile that has none.
#[derive(Debug)]
pub struct NoFunctionResolver;

// ---------------------------------------------------------------------------
// The profile
// ---------------------------------------------------------------------------

/// A governance profile: the engine, the optional providers, and the posture.
#[derive(Debug)]
pub struct Governance<E, I, R, S> {
    posture: Posture,
    engine: Arc<EngineSlot<E>>,
    identity_provider: Option<Arc<I>>,
    function_resolver: Option<Arc<R>>,
    fact_store: Arc<StoreSlot<S>>,
}

impl Governance<StaticPolicyEngine, NoIdentityProvider, NoFunctionResolver, InMemoryFactStore> {
    /// Start assembling a profile.
    pub fn builder() -> (r: GovernanceBuilder<
        StaticPolicyEngine,
        NoIdentityProvider,
        NoFunctionResolver,
        InMemoryFactStore,
    >)
        ensures
            r.chosen_posture() is None,
            r.chosen_engine() is None,
            r.chosen_identity_provider() is None,
            r.chosen_function_resolver() is None,
            r.chosen_fact_store() is None,
    {
        GovernanceBuilder::new()
    }
}

impl<E, I, R, S> Governance<E, I, R, S> {
    /// The posture.
    pub closed spec fn stance(&self) -> Posture {
        self.posture
    }

    /// The engine.
    pub closed spec fn deciding(&self) -> Arc<EngineSlot<E>> {
        self.engine
    }

    /// The identity provider.
    pub closed spec fn identities(&self) -> Option<Arc<I>> {
        self.identity_provider
    }

    /// The function catalog.
    pub closed spec fn functions(&self) -> Option<Arc<R>> {
        self.function_resolver
    }

    /// The taint ledger.
    pub closed spec fn ledger(&self) -> Arc<StoreSlot<S>> {
        self.fact_store
    }

    /// The posture.
    pub fn posture(&self) -> (r: Posture)
        ensures
            r == self.stance(),
    {
        self.posture
    }

    /// The engine, for a host that composes its own planner.
    pub fn engine(&self) -> (r: &Arc<EngineSlot<E>>)
        ensures
            *r == self.deciding(),
    {
        &self.engine
    }

    /// The identity provider, if one is configured.
    pub fn identity_provider(&self) -> (r: Option<&Arc<I>>)
        ensures
            match self.identities() {
                Some(provider) => r == Some(&provider),
                None => r is None,
            },
    {
        self.identity_provider.as_ref()
    }

    /// The function catalog, if one is configured.
    pub fn function_resolver(&self) -> (r: Option<&Arc<R>>)
        ensures
            match self.functions() {
                Some(resolver) => r == Some(&resolver),
                None => r is None,
            },
    {
        self.function_resolver.as_ref()
    }

    /// The taint ledger.
    pub fn fact_store(&self) -> (r: &Arc<StoreSlot<S>>)
        ensures
            *r == self.ledger(),
    {
        &self.fact_store
    }

    /// Whether the profile wraps the planner of a session at all.
    pub fn instruments(&self) -> (r: bool)
        ensures
            r == (self.stance() != Posture::Disabled),
    {
        self.posture.installs_planner()
    }

    /// The principal that an identity lookup leaves: enriched where it succeeded.
    /// Where it failed, an enforcing profile refuses, and any other goes on with
    /// the principal as it is.
    pub fn settle_enrichment(
        &self,
        base: PrincipalIdentity,
        outcome: Result<PrincipalEnrichment, IdentityError>,
    ) -> (r: Result<PrincipalIdentity, PolicyError>)
        ensures
            settles(self.stance(), base, outcome, r),
    {
        match outcome {
            Ok(enrichment) => Ok(base.enriched(enrichment)),
            Err(e) => match self.posture {
                Posture::Enforcing => Err(
                    PolicyError::Enrichment { principal: base.uid, reason: e.message() },
                ),
                _ => Ok(base),
            },
        }
    }

    /// Attach to a session everything the enforcement layer reads: the principal, a
    /// fresh sink for the catalog's facts, the engine, the taint ledger, and the
    /// function catalog where one is configured.
    pub fn attach(
        &self,
        session: SessionExtensions<EngineSlot<E>, R, StoreSlot<S>>,
        principal: PrincipalIdentity,
    ) -> (r: SessionExtensions<EngineSlot<E>, R, StoreSlot<S>>)
        ensures
            r.principal == Some(PrincipalExt(principal)),
            r.catalog_facts is Some,
            r.catalog_facts->0.is_fresh(),
            r.engine == Some(PolicyEngineExt(self.deciding())),
            r.fact_store == Some(FactStoreExt(self.ledger())),
            r.function_resolver == match self.functions() {
                Some(resolver) => Some(FunctionResolverExt(resolver)),
                None => session.function_resolver,
            },
    {
        let function_resolver = match &self.function_resolver {
            Some(resolver) => Some(FunctionResolverExt(resolver.clone())),
            None => session.function_resolver,
        };
        SessionExtensions {
            principal: Some(PrincipalExt(principal)),
            catalog_facts: Some(CatalogFactSinkExt::default()),
            engine: Some(PolicyEngineExt(self.engine.clone())),
            fact_store: Some(FactStoreExt(self.fact_store.clone())),
            function_resolver,
        }
    }
}

/// Whether `r` is the principal that an identity lookup leaves.
pub open spec fn settles(
    posture: Posture,
    base: PrincipalIdentity,
    outcome: Result<PrincipalEnrichment, IdentityError>,
    r: Result<PrincipalIdentity, PolicyError>,
) -> bool {
    match outcome {
        Ok(enrichment) => r is Ok && is_enriched(base, enrichment, r->Ok_0),
        Err(e) => if posture == Posture::Enforcing {
            r is Err && (r->Err_0 matches PolicyError::Enrichment { principal, reason }
                && principal@ == base.uid@ && reason@ == e.text())
        } else {
            r == Ok::<PrincipalIdentity, PolicyError>(base)
        },
    }
}

/// Whether `r` is `base` enriched.
pub open spec fn is_enriched(
    base: PrincipalIdentity,
    enrichment: PrincipalEnrichment,
    r: PrincipalIdentity,
) -> bool {
    &&& r.uid == base.uid
    &&& r.attributes@ == base.attributes@.union_prefer_right(enrichment.attributes@)
    &&& r.groups == enrichment.groups
    &&& r.group_hierarchy == enrichment.group_hierarchy
}

impl<E, I: IdentityProvider, R, S> Governance<E, I, R, S> {
    /// Bind a principal: look its identity facts up and enrich it. Without an
    /// identity provider the principal is bound as it is.
    pub fn bind_principal(&self, claims: &PrincipalClaims, base: PrincipalIdentity) -> (r: Result<
        PrincipalIdentity,
        PolicyError,
    >)
        ensures
            match self.identities() {
                None => r == Ok::<PrincipalIdentity, PolicyError>(base),
                Some(provider) => exists|outcome: Result<PrincipalEnrichment, IdentityError>|
                    (*provider).may_enrich(base.uid@, *claims, outcome) && #[trigger] settles(
                        self.stance(),
                        base,
                        outcome,
                        r,
                    ),
            },
    {
        match &self.identity_provider {
            None => Ok(base),
            Some(provider) => {
                let outcome = (**provider).enrich(base.uid.as_str(), claims);
                self.settle_enrichment(base, outcome)
            },
        }
    }
}

/// Builds a [`Governance`] profile.
#[derive(Debug)]
pub struct GovernanceBuilder<E, I, R, S> {
    posture: Option<Posture>,
    engine: Option<Arc<E>>,
    identity_provider: Option<Arc<I>>,
    function_resolver: Option<Arc<R>>,
    fact_store: Option<Arc<S>>,
}

impl<E, I, R, S> GovernanceBuilder<E, I, R, S> {
    /// The posture set, if one was.
    pub closed spec fn chosen_posture(&self) -> Option<Posture> {
        self.posture
    }

    /// The engine set, if one was.
    pub closed spec fn chosen_engine(&self) -> Option<Arc<E>> {
        self.engine
    }

    /// The identity provider set, if one was.
    pub closed spec fn chosen_identity_provider(&self) -> Option<Arc<I>> {
        self.identity_provider
    }

    /// The function catalog set, if one was.
    pub closed spec fn chosen_function_resolver(&self) -> Option<Arc<R>> {
        self.function_resolver
    }

    /// The taint ledger set, if one was.
    pub closed spec fn chosen_fact_store(&self) -> Option<Arc<S>> {
        self.fact_store
    }

    /// A builder to which nothing is set.
    pub fn new() -> (r: Self)
        ensures
            r.chosen_posture() is None,
            r.chosen_engine() is None,
            r.chosen_identity_provider() is None,
            r.chosen_function_resolver() is None,
            r.chosen_fact_store() is None,
    {
        GovernanceBuilder {
            posture: None,
            engine: None,
            identity_provider: None,
            function_resolver: None,
            fact_store: None,
        }
    }

    /// Set the posture. [`Posture::Enforcing`] where none is set.
    pub fn posture(self, posture: Posture) -> (r: Self)
        ensures
            r.chosen_posture() == Some(posture),
            r.chosen_engine() == self.chosen_engine(),
            r.chosen_identity_provider() == self.chosen_identity_provider(),
            r.chosen_function_resolver() == self.chosen_function_resolver(),
            r.chosen_fact_store() == self.chosen_fact_store(),
    {
        GovernanceBuilder {
            posture: Some(posture),
            engine: self.engine,
            identity_provider: self.identity_provider,
            function_resolver: self.function_resolver,
            fact_store: self.fact_store,
        }
    }

    /// Set the engine.
    pub fn engine<F>(self, engine: Arc<F>) -> (r: GovernanceBuilder<F, I, R, S>)
        ensures
            r.chosen_posture() == self.chosen_posture(),
            r.chosen_engine() == Some(engine),
            r.chosen_identity_provider() == self.chosen_identity_provider(),
            r.chosen_function_resolver() == self.chosen_function_resolver(),
            r.chosen_fact_store() == self.chosen_fact_store(),
    {
        GovernanceBuilder {
            posture: self.posture,
            engine: Some(engine),
            identity_provider: self.identity_provider,
            function_resolver: self.function_resolver,
            fact_store: self.fact_store,
        }
    }

    /// Set the identity provider.
    pub fn identity_provider<J>(self, provider: Arc<J>) -> (r: GovernanceBuilder<E, J, R, S>)
        ensures
            r.chosen_posture() == self.chosen_posture(),
            r.chosen_engine() == self.chosen_engine(),
            r.chosen_identity_provider() == Some(provider),
            r.chosen_function_resolver() == self.chosen_function_resolver(),
            r.chosen_fact_store() == self.chosen_fact_store(),
    {
        GovernanceBuilder {
            posture: self.posture,
            engine: self.engine,
            identity_provider: Some(provider),
            function_resolver: self.function_resolver,
            fact_store: self.fact_store,
        }
    }

    /// Set the function catalog.
    pub fn function_resolver<Q>(self, resolver: Arc<Q>) -> (r: GovernanceBuilder<E, I, Q, S>)
        ensures
            r.chosen_posture() == self.chosen_posture(),
            r.chosen_engine() == self.chosen_engine(),
            r.chosen_identity_provider() == self.chosen_identity_provider(),
            r.chosen_function_resolver() == Some(resolver),
            r.chosen_fact_store() == self.chosen_fact_store(),
    {
        GovernanceBuilder {
            posture: self.posture,
            engine: self.engine,
            identity_provider: self.identity_provider,
            function_resolver: Some(resolver),
            fact_store: self.fact_store,
        }
    }

    /// Set the taint ledger. One in memory where none is set.
    pub fn fact_store<T>(self, store: Arc<T>) -> (r: GovernanceBuilder<E, I, R, T>)
        ensures
            r.chosen_posture() == self.chosen_posture(),
            r.chosen_engine() == self.chosen_engine(),
            r.chosen_identity_provider() == self.chosen_identity_provider(),
            r.chosen_function_resolver() == self.chosen_function_resolver(),
            r.chosen_fact_store() == Some(store),
    {
        GovernanceBuilder {
            posture: self.posture,
            engine: self.engine,
            identity_provider: self.identity_provider,
            function_resolver: self.function_resolver,
            fact_store: Some(store),
        }
    }

    /// The posture the profile will have.
    pub open spec fn final_posture(&self) -> Posture {
        match self.chosen_posture() {
            Some(posture) => posture,
            None => Posture::Enforcing,
        }
    }

    /// Assemble the profile. A posture that evaluates policies needs an engine, and
    /// building fails without one rather than allow everything.
    pub fn build(self) -> (r: Result<Arc<Governance<E, I, R, S>>, PolicyError>)
        ensures
            match r {
                Ok(profile) => {
                    &&& self.chosen_engine() is Some || self.final_posture() == Posture::Disabled
                    &&& profile.stance() == self.final_posture()
                    &&& filled(self.chosen_engine(), *profile.deciding())
                    &&& (*profile.deciding() matches Slot::Default(engine) ==> engine.decision()
                        == Decision::Allow)
                    &&& profile.identities() == self.chosen_identity_provider()
                    &&& profile.functions() == self.chosen_function_resolver()
                    &&& filled(self.chosen_fact_store(), *profile.ledger())
                    &&& (*profile.ledger() matches Slot::Default(store) ==> forall|id: Seq<char>|
                        #[trigger] store.taints(id) == Set::<Seq<char>>::empty())
                },
                Err(e) => {
                    &&& self.chosen_engine() is None
                    &&& self.final_posture() != Posture::Disabled
                    &&& e == PolicyError::NoEngine(self.final_posture())
                },
            },
    {
        let posture = match self.posture {
            Some(posture) => posture,
            None => Posture::Enforcing,
        };
        let engine: EngineSlot<E> = match self.engine {
            Some(engine) => Slot::Host(engine),
            None => match posture {
                Posture::Disabled => Slot::Default(StaticPolicyEngine::new(Decision::Allow)),
                _ => return Err(PolicyError::NoEngine(posture)),
            },
        };
        let fact_store: StoreSlot<S> = match self.fact_store {
            Some(store) => Slot::Host(store),
            None => Slot::Default(InMemoryFactStore::new()),
        };
        Ok(
            Arc::new(
                Governance {
                    posture,
                    engine: Arc::new(engine),
                    identity_provider: self.identity_provider,
                    function_resolver: self.function_resolver,
                    fact_store: Arc::new(fact_store),
                },
            ),
        )
    }

    /// Whether the profile will refuse or mask what a policy's function should
    /// compute: it enforces, and has no function catalog.
    pub fn lacks_functions(&self) -> (r: bool)
        ensures
            r == (self.final_posture() == Posture::Enforcing && self.chosen_function_resolver()
                is None),
    {
        let enforcing = match self.posture {
            Some(Posture::Enforcing) | None => true,
            _ => false,
        };
        enforcing && self.function_resolver.is_none()
    }
}

} // verus!
