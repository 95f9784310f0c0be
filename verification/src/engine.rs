//! The **decide** half of the decide/enforce split.

use vstd::prelude::*;

use crate::abac::{AbacPolicyEngine, PrincipalMatcher};
use crate::error::PolicyError;
use crate::facts::EvalContext;
use crate::names::NameSet;
use crate::plan::{Plan, PlanModel};
use crate::policy::TablePolicy;
use crate::principal::PrincipalIdentity;
use crate::table::{field_models, field_names, model_names, Field, FieldModel, TableReference};
use crate::types::Decision;

verus! {

/// What every policy engine answers: whether a plan may run, which constraints
/// apply to a table, and whether an agent may use a tool.
pub trait PolicyEngine {
    /// Whether `r` may be what [`Self::is_allowed`] returns. Anything, unless the
    /// engine says otherwise.
    open spec fn may_decide(
        &self,
        plan: PlanModel,
        principal: PrincipalIdentity,
        eval: EvalContext,
        r: Result<Decision, PolicyError>,
    ) -> bool {
        true
    }

    /// Whether `r` may be what [`Self::constrain`] returns. Anything, unless the
    /// engine says otherwise.
    open spec fn may_constrain(
        &self,
        table: Seq<Seq<char>>,
        fields: Seq<FieldModel>,
        principal: PrincipalIdentity,
        eval: EvalContext,
        r: Result<TablePolicy, PolicyError>,
    ) -> bool {
        true
    }

    /// Whether `r` may be what [`Self::tool_policy`] returns. Anything, unless the
    /// engine says otherwise.
    open spec fn may_use(
        &self,
        action: Seq<char>,
        principal: PrincipalIdentity,
        observed: Set<Seq<char>>,
        r: Result<Decision, PolicyError>,
    ) -> bool {
        true
    }

    /// Decide whether `principal` may execute `plan`.
    fn is_allowed(&self, plan: &Plan, principal: &PrincipalIdentity, eval: &EvalContext) -> (r:
        Result<Decision, PolicyError>)
        ensures
            self.may_decide(plan@, *principal, *eval, r),
    ;

    /// The row filters and column masks that apply when `principal` reads the
    /// columns `fields` of `table`.
    fn constrain(
        &self,
        table: &TableReference,
        fields: &Vec<Field>,
        principal: &PrincipalIdentity,
        eval: &EvalContext,
    ) -> (r: Result<TablePolicy, PolicyError>)
        ensures
            self.may_constrain(table@, field_models(fields@), *principal, *eval, r),
    ;

    /// Decide whether `principal` may use the agent tool `action`, in a session
    /// that has observed `observed_taints`. An engine that has no say in tools allows
    /// it.
    fn tool_policy(
        &self,
        action: &str,
        principal: &PrincipalIdentity,
        observed_taints: &NameSet,
    ) -> (r: Result<Decision, PolicyError>)
        ensures
            self.may_use(action@, *principal, observed_taints@, r),
    ;
}

/// A [`PolicyEngine`] that gives every plan the same decision.
#[derive(Debug, Clone, Copy, PartialEq, Eq, Structural)]
pub struct StaticPolicyEngine {
    decision: Decision,
}

impl StaticPolicyEngine {
    /// The decision given.
    pub closed spec fn decision(&self) -> Decision {
        self.decision
    }

    /// An engine that always decides `decision`.
    pub fn new(decision: Decision) -> (r: Self)
        ensures
            r.decision() == decision,
    {
        StaticPolicyEngine { decision }
    }
}

/// Whether a reply of an engine constrains nothing.
pub open spec fn unconstrained(r: Result<TablePolicy, PolicyError>) -> bool {
    r is Ok && r->Ok_0@.nothing()
}

impl PolicyEngine for StaticPolicyEngine {
    /// The engine's one decision.
    open spec fn may_decide(
        &self,
        plan: PlanModel,
        principal: PrincipalIdentity,
        eval: EvalContext,
        r: Result<Decision, PolicyError>,
    ) -> bool {
        r == Ok::<Decision, PolicyError>(self.decision())
    }

    /// No constraint.
    open spec fn may_constrain(
        &self,
        table: Seq<Seq<char>>,
        fields: Seq<FieldModel>,
        principal: PrincipalIdentity,
        eval: EvalContext,
        r: Result<TablePolicy, PolicyError>,
    ) -> bool {
        unconstrained(r)
    }

    /// Always allowed: the engine has no say in tools.
    open spec fn may_use(
        &self,
        action: Seq<char>,
        principal: PrincipalIdentity,
        observed: Set<Seq<char>>,
        r: Result<Decision, PolicyError>,
    ) -> bool {
        r == Ok::<Decision, PolicyError>(Decision::Allow)
    }

    fn is_allowed(&self, plan: &Plan, principal: &PrincipalIdentity, eval: &EvalContext) -> (r:
        Result<Decision, PolicyError>) {
        Ok(self.decision)
    }

    fn constrain(
        &self,
        table: &TableReference,
        fields: &Vec<Field>,
        principal: &PrincipalIdentity,
        eval: &EvalContext,
    ) -> (r: Result<TablePolicy, PolicyError>) {
        Ok(TablePolicy::default())
    }

    fn tool_policy(
        &self,
        action: &str,
        principal: &PrincipalIdentity,
        observed_taints: &NameSet,
    ) -> (r: Result<Decision, PolicyError>) {
        Ok(Decision::Allow)
    }
}

impl<M: PrincipalMatcher> PolicyEngine for AbacPolicyEngine<M> {
    /// Always allowed: bindings carry no deny verdict.
    open spec fn may_decide(
        &self,
        plan: PlanModel,
        principal: PrincipalIdentity,
        eval: EvalContext,
        r: Result<Decision, PolicyError>,
    ) -> bool {
        r == Ok::<Decision, PolicyError>(Decision::Allow)
    }

    /// What the bindings in the table's facts come to.
    open spec fn may_constrain(
        &self,
        table: Seq<Seq<char>>,
        fields: Seq<FieldModel>,
        principal: PrincipalIdentity,
        eval: EvalContext,
        r: Result<TablePolicy, PolicyError>,
    ) -> bool {
        self.answers(table, model_names(fields), principal, eval, r)
    }

    /// Always allowed: bindings have no say in tools.
    open spec fn may_use(
        &self,
        action: Seq<char>,
        principal: PrincipalIdentity,
        observed: Set<Seq<char>>,
        r: Result<Decision, PolicyError>,
    ) -> bool {
        r == Ok::<Decision, PolicyError>(Decision::Allow)
    }

    fn is_allowed(&self, plan: &Plan, principal: &PrincipalIdentity, eval: &EvalContext) -> (r:
        Result<Decision, PolicyError>) {
        Ok(Decision::Allow)
    }

    fn constrain(
        &self,
        table: &TableReference,
        fields: &Vec<Field>,
        principal: &PrincipalIdentity,
        eval: &EvalContext,
    ) -> (r: Result<TablePolicy, PolicyError>) {
        assert(model_names(field_models(fields@)) =~= field_names(fields@));
        self.constraints(table, fields, principal, eval)
    }

    fn tool_policy(
        &self,
        action: &str,
        principal: &PrincipalIdentity,
        observed_taints: &NameSet,
    ) -> (r: Result<Decision, PolicyError>) {
        Ok(Decision::Allow)
    }
}

} // verus!
