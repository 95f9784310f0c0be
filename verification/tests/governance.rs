use std::sync::Arc;

use breakwater::session::{bound_principal, settle_query, would_block, Evaluation};
use breakwater::{
    AttrValue, Decision, EvalContext, FactStore, Governance, IdentityError, IdentityProvider,
    InMemoryFactStore, NameMap, Plan, PlanNode, PolicyEngine, PolicyError, PolicyExtension,
    Posture, PrincipalClaims, PrincipalEnrichment, PrincipalIdentity, ResolvedFunctions,
    SessionConfigEvalContextProvider, SessionConfigPrincipalProvider, SessionExtensions, Slot,
    StaticPolicyEngine, TableReference,
};

fn deny_engine() -> Arc<StaticPolicyEngine> {
    Arc::new(StaticPolicyEngine::new(Decision::Deny))
}

fn allow_engine() -> Arc<StaticPolicyEngine> {
    Arc::new(StaticPolicyEngine::new(Decision::Allow))
}

fn alice() -> PrincipalIdentity {
    PrincipalIdentity::new("User::\"alice\"")
}

fn empty_plan() -> Plan {
    Plan {
        node: PlanNode::Other("EmptyRelation".to_string()),
        subqueries: vec![],
        inputs: vec![],
    }
}

/// Run a query through a profile: the principal, the access gate, and what it comes to.
fn run_query(
    posture: Posture,
    engine: &StaticPolicyEngine,
    who: Option<PrincipalIdentity>,
) -> Result<&'static str, PolicyError> {
    let principal = match bound_principal(posture, who)? {
        Some(principal) => principal,
        None => return Ok("plan"),
    };
    let decision = engine.is_allowed(&empty_plan(), &principal, &EvalContext::default());
    settle_query(posture, &principal, "plan", Evaluation::Gated { governed: "governed", decision })
}

#[test]
fn enforcing_without_engine_errs_at_build() {
    let err = Governance::builder().posture(Posture::Enforcing).build().unwrap_err();
    assert!(err.message().contains("requires a policy engine"), "got: {err:?}");
    assert_eq!(
        err.message(),
        "Governance posture Enforcing requires a policy engine; none was set"
    );
}

#[test]
fn disabled_without_engine_builds() {
    let gov = Governance::builder()
        .posture(Posture::Disabled)
        .build()
        .expect("Disabled builds without an engine");
    assert!(!gov.instruments());
}

#[test]
fn attach_sets_all_extensions() {
    let gov = Governance::builder()
        .posture(Posture::Enforcing)
        .engine(allow_engine())
        .build()
        .unwrap();
    let session = gov.attach(SessionExtensions::new(), alice());
    assert!(session.principal.is_some(), "PrincipalExt");
    assert!(session.catalog_facts.is_some(), "CatalogFactSinkExt");
    assert!(session.engine.is_some(), "PolicyEngineExt");
    assert!(session.fact_store.is_some(), "FactStoreExt");
}

#[test]
fn attach_sets_function_resolver_only_when_configured() {
    let gov = Governance::builder()
        .posture(Posture::Enforcing)
        .engine(allow_engine())
        .build()
        .unwrap();
    // No resolver configured => extension absent.
    let session = gov.attach(SessionExtensions::new(), alice());
    assert!(session.function_resolver.is_none());

    let gov = Governance::builder()
        .engine(allow_engine())
        .function_resolver(Arc::new("catalog"))
        .build()
        .unwrap();
    let session = gov.attach(SessionExtensions::new(), alice());
    assert_eq!(*session.function_resolver.unwrap().0, "catalog");
}

#[test]
fn disabled_leaves_state_untouched() {
    let gov = Governance::builder()
        .posture(Posture::Disabled)
        .engine(deny_engine())
        .build()
        .unwrap();
    assert!(!gov.instruments(), "Disabled must not install anything");
    assert_eq!(run_query(gov.posture(), &deny_engine(), Some(alice())), Ok("plan"));
}

#[test]
fn permissive_logs_but_does_not_block() {
    let gov = Governance::builder()
        .posture(Posture::Permissive)
        .engine(deny_engine())
        .build()
        .unwrap();
    assert!(gov.instruments());
    assert_eq!(run_query(gov.posture(), &deny_engine(), Some(alice())), Ok("plan"));
}

#[test]
fn enforcing_blocks_on_deny() {
    let err = run_query(Posture::Enforcing, &deny_engine(), Some(alice())).unwrap_err();
    assert!(err.message().contains("not authorized"), "got: {err:?}");
    assert_eq!(
        err.message(),
        "Principal 'User::\"alice\"' is not authorized to execute this query"
    );
}

#[test]
fn missing_principal_under_enforcing_fails_closed() {
    let err = run_query(Posture::Enforcing, &allow_engine(), None).unwrap_err();
    assert!(err.message().contains("no principal bound"), "got: {err:?}");
    assert_eq!(err.message(), "no principal bound to session; cannot authorize query");
}

#[test]
fn missing_principal_under_permissive_passes_through() {
    assert_eq!(run_query(Posture::Permissive, &deny_engine(), None), Ok("plan"));
}

#[test]
fn instrumented_session_denies_on_deny_policy() {
    let parts = PolicyExtension::builder().policy(deny_engine()).parts();
    assert_eq!(parts.posture, Posture::Enforcing);
    let Slot::Host(engine) = &parts.engine else { panic!("the host's engine is kept") };
    let err = run_query(parts.posture, engine, Some(alice())).unwrap_err();
    assert!(err.message().contains("not authorized"));
}

#[test]
fn instrumented_session_allows_on_allow_policy() {
    let parts = PolicyExtension::builder().policy(allow_engine()).parts();
    let Slot::Host(engine) = &parts.engine else { panic!("the host's engine is kept") };
    // What runs is the governed plan.
    assert_eq!(run_query(parts.posture, engine, Some(alice())), Ok("governed"));
}

#[test]
fn unbound_principal_fails_closed() {
    let parts = PolicyExtension::builder().policy(allow_engine()).parts();
    let Slot::Host(engine) = &parts.engine else { panic!("the host's engine is kept") };
    let err = run_query(parts.posture, engine, None).unwrap_err();
    assert!(err.message().contains("no principal bound"));
}

struct FixedIdp(PrincipalEnrichment);

impl IdentityProvider for FixedIdp {
    fn enrich(
        &self,
        _uid: &str,
        _claims: &PrincipalClaims,
    ) -> Result<PrincipalEnrichment, IdentityError> {
        Ok(self.0.clone())
    }
}

struct FailingIdp;

impl IdentityProvider for FailingIdp {
    fn enrich(
        &self,
        _uid: &str,
        _claims: &PrincipalClaims,
    ) -> Result<PrincipalEnrichment, IdentityError> {
        Err(IdentityError::Provider("boom".into()))
    }
}

#[test]
fn bind_principal_no_idp_is_passthrough() {
    let gov = Governance::builder()
        .posture(Posture::Enforcing)
        .engine(allow_engine())
        .build()
        .unwrap();
    let bound = gov.bind_principal(&PrincipalClaims::default(), alice()).unwrap();
    assert_eq!(bound.uid, "User::\"alice\"");
    assert!(bound.attributes.is_empty());
}

#[test]
fn bind_principal_applies_enrichment_and_idp_overrides() {
    let mut attributes = NameMap::new();
    attributes.insert("role".to_string(), AttrValue::String("idp-authoritative".into()));
    let enrichment = PrincipalEnrichment {
        attributes,
        groups: vec!["UserGroup::\"readers\"".into()],
        ..Default::default()
    };
    let gov = Governance::builder()
        .posture(Posture::Enforcing)
        .engine(allow_engine())
        .identity_provider(Arc::new(FixedIdp(enrichment)))
        .build()
        .unwrap();
    // Client-asserted role should be overridden by the IdP's.
    let base = alice().with_attribute("role", "client-claimed");
    let bound = gov.bind_principal(&PrincipalClaims::default(), base).unwrap();
    assert_eq!(
        bound.attributes.get("role"),
        Some(&AttrValue::String("idp-authoritative".into()))
    );
    assert_eq!(bound.groups, vec!["UserGroup::\"readers\""]);
}

#[test]
fn bind_principal_enrichment_error_fails_closed_when_enforcing() {
    let gov = Governance::builder()
        .posture(Posture::Enforcing)
        .engine(allow_engine())
        .identity_provider(Arc::new(FailingIdp))
        .build()
        .unwrap();
    let err = gov.bind_principal(&PrincipalClaims::default(), alice()).unwrap_err();
    assert!(err.message().contains("enrichment failed"), "got: {err:?}");
    assert_eq!(
        err.message(),
        "identity enrichment failed for 'User::\"alice\"': identity provider error: boom"
    );
}

#[test]
fn bind_principal_enrichment_error_tolerated_when_permissive() {
    let gov = Governance::builder()
        .posture(Posture::Permissive)
        .engine(allow_engine())
        .identity_provider(Arc::new(FailingIdp))
        .build()
        .unwrap();
    let bound = gov
        .bind_principal(&PrincipalClaims::default(), alice())
        .expect("permissive tolerates enrichment error");
    assert_eq!(bound.uid, "User::\"alice\"");
}

#[test]
fn posture_defaults_to_enforcing() {
    let err = Governance::builder().build().unwrap_err();
    assert_eq!(err, PolicyError::NoEngine(Posture::Enforcing));
    let err = Governance::builder().posture(Posture::Permissive).build().unwrap_err();
    assert_eq!(err, PolicyError::NoEngine(Posture::Permissive));
    let gov = Governance::builder().engine(allow_engine()).build().unwrap();
    assert_eq!(gov.posture(), Posture::Enforcing);
    assert!(gov.identity_provider().is_none());
    assert!(gov.function_resolver().is_none());
}

#[test]
fn the_stand_in_engine_allows_and_the_stand_in_store_is_empty() {
    let gov = Governance::builder().posture(Posture::Disabled).build().unwrap();
    let decision = gov.engine().is_allowed(&empty_plan(), &alice(), &EvalContext::default());
    assert_eq!(decision, Ok(Decision::Allow));
    match gov.fact_store().as_ref() {
        Slot::Default(store) => assert!(store.observed_taints("any").is_empty()),
        Slot::Host(_) => panic!("no store was supplied"),
    }
}

#[test]
fn a_host_store_is_kept() {
    let store = Arc::new(InMemoryFactStore::new());
    let gov = Governance::builder()
        .engine(deny_engine())
        .fact_store(store.clone())
        .build()
        .unwrap();
    match gov.fact_store().as_ref() {
        Slot::Host(kept) => assert!(Arc::ptr_eq(kept, &store)),
        Slot::Default(_) => panic!("the supplied store is used"),
    }
    let decision = gov.engine().is_allowed(&empty_plan(), &alice(), &EvalContext::default());
    assert_eq!(decision, Ok(Decision::Deny));
}

#[test]
fn a_missing_function_catalog_is_reported_when_enforcing() {
    assert!(Governance::builder().engine(allow_engine()).lacks_functions());
    assert!(!Governance::builder().posture(Posture::Permissive).lacks_functions());
    assert!(!Governance::builder().function_resolver(Arc::new(())).lacks_functions());
}

#[test]
fn each_attached_session_gets_a_fresh_sink() {
    let gov = Governance::builder().engine(allow_engine()).build().unwrap();
    let mut first = gov.attach(SessionExtensions::new(), alice());
    let sink = first.catalog_facts.as_mut().unwrap();
    sink.0.mark_governed(TableReference::bare("t"));
    let second = gov.attach(first, alice());
    assert!(!second.catalog_facts.unwrap().0.is_governed(&TableReference::bare("t")));
}

#[test]
fn attached_principal_is_read_back() {
    let gov = Governance::builder().engine(allow_engine()).build().unwrap();
    let session = gov.attach(SessionExtensions::new(), alice());
    let provider = SessionConfigPrincipalProvider;
    assert_eq!(provider.principal(&session).unwrap().uid, "User::\"alice\"");
    let empty: SessionExtensions<(), (), ()> = SessionExtensions::new();
    assert!(provider.principal(&empty).is_none());
}

#[test]
fn eval_context_names_the_session() {
    let provider = SessionConfigEvalContextProvider;
    let gov = Governance::builder().engine(allow_engine()).build().unwrap();
    let mut session = gov.attach(SessionExtensions::new(), alice());
    session.catalog_facts.as_mut().unwrap().0.mark_governed(TableReference::bare("t"));
    let mut functions = ResolvedFunctions::new();
    functions.record("f", Ok(()));
    let eval = provider.eval_context(session.catalog_facts, "session-9", Some(functions));
    assert_eq!(eval.correlation_id, Some("session-9".to_string()));
    assert!(eval.catalog_facts.is_governed(&TableReference::bare("t")));
    assert_eq!(eval.function_resolver.unwrap().resolve("f"), Ok(()));
    let bare = provider.eval_context(None, "s", None);
    assert!(!bare.catalog_facts.is_governed(&TableReference::bare("t")));
    assert!(bare.function_resolver.is_none());
}

#[test]
fn an_engine_error_is_the_outcome_only_when_enforcing() {
    let failed = || Evaluation::Gated {
        governed: 2,
        decision: Err(PolicyError::Engine("down".to_string())),
    };
    assert!(would_block(&failed()));
    assert_eq!(
        settle_query(Posture::Enforcing, &alice(), 1, failed()),
        Err(PolicyError::Engine("down".to_string()))
    );
    assert_eq!(settle_query(Posture::Permissive, &alice(), 1, failed()), Ok(1));
    let ungoverned: Evaluation<i32> = Evaluation::Failed(PolicyError::NoPrincipal);
    assert!(would_block(&ungoverned));
    assert_eq!(
        settle_query(Posture::Enforcing, &alice(), 1, ungoverned),
        Err(PolicyError::NoPrincipal)
    );
    let allowed = Evaluation::Gated { governed: 2, decision: Ok(Decision::Allow) };
    assert!(!would_block(&allowed));
    assert_eq!(settle_query(Posture::Enforcing, &alice(), 1, allowed), Ok(2));
}

#[test]
fn defaults_fill_what_the_policy_builder_was_not_given() {
    let parts = PolicyExtension::builder().parts();
    assert!(matches!(parts.engine, Slot::Default(_)));
    assert!(matches!(parts.principal, Slot::Default(SessionConfigPrincipalProvider)));
    assert!(matches!(parts.eval, Slot::Default(SessionConfigEvalContextProvider)));
    let parts = PolicyExtension::builder()
        .principal(Arc::new("p"))
        .eval_context(Arc::new("e"))
        .posture(Posture::Permissive)
        .parts();
    assert_eq!(parts.posture, Posture::Permissive);
    assert!(matches!(parts.principal, Slot::Host(_)));
    assert!(matches!(parts.eval, Slot::Host(_)));
}

#[test]
fn postures_are_named() {
    assert_eq!(Posture::Disabled.name(), "Disabled");
    assert_eq!(Posture::Permissive.name(), "Permissive");
    assert_eq!(Posture::Enforcing.name(), "Enforcing");
    assert!(!Posture::Disabled.installs_planner());
    assert!(Posture::Permissive.installs_planner());
}
