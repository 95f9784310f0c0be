//! Policy enforcement as an extension of a session's planner.
//!
//! One builder takes the engine and the providers of the per-request state; what is
//! not set has a default. The host wraps the session's planner with the result.

use std::sync::Arc;

use vstd::prelude::*;

use crate::engine::StaticPolicyEngine;
use crate::governance::{filled, EngineSlot, Slot};
use crate::posture::Posture;
use crate::session::{SessionConfigEvalContextProvider, SessionConfigPrincipalProvider};
use crate::types::Decision;

verus! {

/// Entry point for instrumenting a session with policy enforcement.
#[derive(Debug)]
pub struct PolicyExtension;

impl PolicyExtension {
    /// Start configuring policy instrumentation.
    pub fn builder() -> (r: PolicyBuilder<
        StaticPolicyEngine,
        SessionConfigPrincipalProvider,
        SessionConfigEvalContextProvider,
    >)
        ensures
            r.chosen_policy() is None,
            r.chosen_principal() is None,
            r.chosen_eval_context() is None,
            r.chosen_posture() is None,
    {
        PolicyBuilder::new()
    }
}

/// Collects the parts of policy enforcement.
#[derive(Debug)]
pub struct PolicyBuilder<E, P, C> {
    policy: Option<Arc<E>>,
    principal: Option<Arc<P>>,
    eval: Option<Arc<C>>,
    posture: Option<Posture>,
}

/// The parts of policy enforcement, each the host's or its default.
#[derive(Debug)]
pub struct PolicyParts<E, P, C> {
    /// The engine; one that allows everything where none was set.
    pub engine: EngineSlot<E>,
    /// The principal provider; the session's principal where none was set.
    pub principal: Slot<SessionConfigPrincipalProvider, P>,
    /// The provider of facts; the session's where none was set.
    pub eval: Slot<SessionConfigEvalContextProvider, C>,
    /// The posture; enforcing where none was set.
    pub posture: Posture,
}

impl<E, P, C> PolicyBuilder<E, P, C> {
    /// The engine set, if one was.
    pub closed spec fn chosen_policy(&self) -> Option<Arc<E>> {
        self.policy
    }

    /// The principal provider set, if one was.
    pub closed spec fn chosen_principal(&self) -> Option<Arc<P>> {
        self.principal
    }

    /// The provider of facts set, if one was.
    pub closed spec fn chosen_eval_context(&self) -> Option<Arc<C>> {
        self.eval
    }

    /// The posture set, if one was.
    pub closed spec fn chosen_posture(&self) -> Option<Posture> {
        self.posture
    }

    /// A builder to which nothing is set.
    pub fn new() -> (r: Self)
        ensures
            r.chosen_policy() is None,
            r.chosen_principal() is None,
            r.chosen_eval_context() is None,
            r.chosen_posture() is None,
    {
        PolicyBuilder { policy: None, principal: None, eval: None, posture: None }
    }

    /// Set the engine.
    pub fn policy<F>(self, policy: Arc<F>) -> (r: PolicyBuilder<F, P, C>)
        ensures
            r.chosen_policy() == Some(policy),
            r.chosen_principal() == self.chosen_principal(),
            r.chosen_eval_context() == self.chosen_eval_context(),
            r.chosen_posture() == self.chosen_posture(),
    {
        PolicyBuilder {
            policy: Some(policy),
            principal: self.principal,
            eval: self.eval,
            posture: self.posture,
        }
    }

    /// Set the principal provider.
    pub fn principal<Q>(self, principal: Arc<Q>) -> (r: PolicyBuilder<E, Q, C>)
        ensures
            r.chosen_policy() == self.chosen_policy(),
            r.chosen_principal() == Some(principal),
            r.chosen_eval_context() == self.chosen_eval_context(),
            r.chosen_posture() == self.chosen_posture(),
    {
        PolicyBuilder {
            policy: self.policy,
            principal: Some(principal),
            eval: self.eval,
            posture: self.posture,
        }
    }

    /// Set the provider of facts.
    pub fn eval_context<D>(self, eval: Arc<D>) -> (r: PolicyBuilder<E, P, D>)
        ensures
            r.chosen_policy() == self.chosen_policy(),
            r.chosen_principal() == self.chosen_principal(),
            r.chosen_eval_context() == Some(eval),
            r.chosen_posture() == self.chosen_posture(),
    {
        PolicyBuilder {
            policy: self.policy,
            principal: self.principal,
            eval: Some(eval),
            posture: self.posture,
        }
    }

    /// Set the posture.
    pub fn posture(self, posture: Posture) -> (r: Self)
        ensures
            r.chosen_policy() == self.chosen_policy(),
            r.chosen_principal() == self.chosen_principal(),
            r.chosen_eval_context() == self.chosen_eval_context(),
            r.chosen_posture() == Some(posture),
    {
        PolicyBuilder {
            policy: self.policy,
            principal: self.principal,
            eval: self.eval,
            posture: Some(posture),
        }
    }

    /// The parts, with the defaults in place of what was not set.
    pub fn parts(self) -> (r: PolicyParts<E, P, C>)
        ensures
            filled(self.chosen_policy(), r.engine),
            r.engine matches Slot::Default(engine) ==> engine.decision() == Decision::Allow,
            filled(self.chosen_principal(), r.principal),
            filled(self.chosen_eval_context(), r.eval),
            r.posture == match self.chosen_posture() {
                Some(posture) => posture,
                None => Posture::Enforcing,
            },
    {
        PolicyParts {
            engine: match self.policy {
                Some(engine) => Slot::Host(engine),
                None => Slot::Default(StaticPolicyEngine::new(Decision::Allow)),
            },
            principal: match self.principal {
                Some(provider) => Slot::Host(provider),
                None => Slot::Default(SessionConfigPrincipalProvider),
            },
            eval: match self.eval {
                Some(provider) => Slot::Host(provider),
                None => Slot::Default(SessionConfigEvalContextProvider),
            },
            posture: match self.posture {
                Some(posture) => posture,
                None => Posture::Enforcing,
            },
        }
    }
}

} // verus!
