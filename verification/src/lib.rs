//! Policy enforcement for query plans: who may run a query, and what the rows and
//! columns it reads are reduced to.
//!
//! **Deciding** is an engine's business. [`engine::PolicyEngine`] is what every
//! engine answers; [`abac::AbacPolicyEngine`] evaluates bindings carried in a
//! table's facts, and the Cedar adapter ([`cedar`], [`cedar_rules`], [`cedar_gate`])
//! evaluates Cedar policies. **Enforcing** is the same for all of them:
//! [`plan_actions`] says what a plan touches, [`govern`] puts row filters and column
//! masks over its scans, [`provider`] does the same for one table at the time it is
//! resolved, and [`session`] says what an evaluated query comes to.
//! [`governance::Governance`] is the profile a host assembles once, with an explicit
//! [`posture::Posture`].
//!
//! Everything in doubt is refused: a function that does not resolve, a residual that
//! is not a row predicate, a missing principal, an engine that fails.
//!
//! What holds of the library as a whole is stated in the modules that end in `_laws`
//! and in [`meaning`]. [`outside`] holds what is believed of Cedar and not proved.

pub mod abac;
pub mod abac_laws;
pub mod binding;
pub mod binding_laws;
pub mod cedar;
pub mod cedar_entity;
pub mod cedar_gate;
pub mod cedar_laws;
pub mod cedar_rules;
pub mod constraint;
pub mod engine;
pub mod entity_laws;
pub mod error;
pub mod expr;
pub mod extension;
pub mod fact_store;
pub mod facts;
pub mod function;
pub mod govern;
pub mod govern_laws;
pub mod governance;
pub mod governance_laws;
pub mod meaning;
pub mod model_laws;
pub mod names;
pub mod outside;
pub mod plan;
pub mod plan_actions;
pub mod plan_laws;
pub mod policy;
pub mod posture;
pub mod principal;
pub mod provider;
pub mod query_laws;
pub mod residual;
pub mod rules_laws;
pub mod session;
pub mod session_laws;
pub mod table;
pub mod text;
pub mod text_laws;
pub mod translate;
pub mod translate_laws;
pub mod types;

pub use abac::{AbacPolicyEngine, DefaultPrincipalMatcher, PrincipalMatcher, ALL_USERS, DEFAULT_MASK};
pub use binding::{BindingKind, ColumnMatch, FunctionArg, PolicyBinding, TagCondition};
pub use cedar_entity::{parse_uid, principal_entities};
pub use constraint::ConstraintTranslator;
pub use engine::{PolicyEngine, StaticPolicyEngine};
pub use error::PolicyError;
pub use expr::{Expr, Operator, Scalar};
pub use extension::{PolicyBuilder, PolicyExtension, PolicyParts};
pub use fact_store::{FactStore, InMemoryFactStore};
pub use facts::{normalize, CatalogFactSink, EvalContext, TableFacts};
pub use function::ResolvedFunctions;
pub use govern::{apply_table_policy, govern_plan};
pub use governance::{Governance, GovernanceBuilder, Slot};
pub use names::{NameMap, NameSet};
pub use plan::{Plan, PlanNode, ProjectionItem, WriteOp};
pub use plan_actions::{plan_actions, PlanAction};
pub use policy::TablePolicy;
pub use posture::Posture;
pub use principal::{
    AgentClaims, Group, IdentityError, IdentityProvider, PrincipalClaims, PrincipalEnrichment,
    PrincipalIdentity,
};
pub use provider::{govern_provider, govern_provider_from_config};
pub use session::{
    authorize_and_govern, CatalogFactSinkExt, FactStoreExt, FunctionResolverExt, PolicyEngineExt,
    PrincipalExt, SessionConfigEvalContextProvider, SessionConfigPrincipalProvider,
    SessionExtensions,
};
pub use table::{Field, TableReference};
pub use translate::{CedarResidualTranslator, ResidualError};
pub use types::{AttrValue, Decision};
