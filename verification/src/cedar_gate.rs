//! The coarse gate: what is put to the authorizer, and what its answers come to.
//!
//! Asking the authorizer is the host's business. This module says what to ask for
//! a plan or a tool, which entities go along, and what the answers decide: a plan
//! runs where every request was allowed, and an authorizer that fails denies.

use cedar_policy::{Context, Entities, Entity, Request, RestrictedExpression};
use vstd::prelude::*;

use crate::cedar::{named_uid, names_expr, names_value, table_entity, table_entity_of};
use crate::cedar_entity::{
    group_entities, parse_uid, principal_entities, principal_entity_of,
};
use crate::cedar_rules::facts_of;
use crate::error::PolicyError;
use crate::facts::EvalContext;
use crate::names::NameSet;
use crate::outside::{
    context, context_of, empty_hierarchy, hierarchy, hierarchy_of, pairs, request, request_of,
    typed_uid_of, uid_of,
};
use crate::plan::Plan;
use crate::plan_actions::{action_models, actions_of, plan_actions, ActionModel, PlanAction};
use crate::principal::PrincipalIdentity;
use crate::table::{dotted, TableReference};
use crate::types::Decision;

verus! {

// ---------------------------------------------------------------------------
// Requests
// ---------------------------------------------------------------------------

/// A request to the authorizer, and the table it is about.
pub struct PlanRequest {
    /// The request.
    pub request: Request,
    /// The table whose facts go along, if it is about one.
    pub table: Option<TableReference>,
}

/// What a plan's action asks for: the action's id, the resource's type and its
/// name. `None` where the action must be denied.
pub open spec fn asked_of(action: ActionModel) -> Option<(Seq<char>, Seq<char>, Seq<char>)> {
    match action {
        ActionModel::ReadTable(table, _) => Some(("read_table"@, "Table"@, dotted(table))),
        ActionModel::WriteTable(table) => Some(("write_table"@, "Table"@, dotted(table))),
        ActionModel::CreateTable(table) => Some(("create_table"@, "Table"@, dotted(table))),
        ActionModel::UnityDdl { action, resource_type, name } => Some(
            (action, resource_type, name),
        ),
        ActionModel::DenyUnsupported(_) => None,
    }
}

/// The table that a plan's action is about.
pub open spec fn table_of(action: ActionModel) -> Option<Seq<Seq<char>>> {
    match action {
        ActionModel::ReadTable(table, _) => Some(table),
        ActionModel::WriteTable(table) => Some(table),
        ActionModel::CreateTable(table) => Some(table),
        _ => None,
    }
}

/// The request that `principal` do `action` to a resource; `None` where it cannot
/// be built.
pub open spec fn request_for(
    principal: PrincipalIdentity,
    action: Seq<char>,
    resource_type: Seq<char>,
    name: Seq<char>,
    context: Context,
) -> Option<Request> {
    match (
        uid_of(principal.uid@),
        typed_uid_of("Action"@, action),
        typed_uid_of(resource_type, name),
    ) {
        (Some(who), Some(what), Some(target)) => request_of(who, what, target, context),
        _ => None,
    }
}

/// Whether `e` says why the request that `principal` do `action` to a resource
/// cannot be built.
pub open spec fn request_fault(
    principal: PrincipalIdentity,
    action: Seq<char>,
    resource_type: Seq<char>,
    name: Seq<char>,
    e: PolicyError,
) -> bool {
    if typed_uid_of("Action"@, action) is Some && typed_uid_of(resource_type, name) is Some
        && uid_of(principal.uid@) is None {
        e.names_uid(principal.uid@)
    } else {
        e is Engine
    }
}

/// Build the request that `principal` do `action` to a resource.
fn build_request(
    principal: &PrincipalIdentity,
    action: &str,
    resource_type: &str,
    name: &str,
    context: &Context,
) -> (r: Result<Request, PolicyError>)
    ensures
        match r {
            Ok(request) => request_for(*principal, action@, resource_type@, name@, *context)
                == Some(request),
            Err(e) => request_for(*principal, action@, resource_type@, name@, *context) is None
                && request_fault(*principal, action@, resource_type@, name@, e),
        },
{
    let what = match named_uid("Action", action) {
        Ok(uid) => uid,
        Err(e) => return Err(e),
    };
    let target = match named_uid(resource_type, name) {
        Ok(uid) => uid,
        Err(e) => return Err(e),
    };
    let who = match parse_uid(principal.uid.as_str()) {
        Ok(uid) => uid,
        Err(e) => return Err(e),
    };
    match request(&who, &what, &target, context) {
        Ok(request) => Ok(request),
        Err(reason) => Err(PolicyError::Engine(reason)),
    }
}

/// The text of a table's name, where there is a table.
pub open spec fn table_model(table: Option<TableReference>) -> Option<Seq<Seq<char>>> {
    match table {
        Some(table) => Some(table@),
        None => None,
    }
}

/// Whether `r` is what a plan's action is lowered to: `None` where it must be
/// denied unasked.
pub open spec fn lowers_to(
    action: ActionModel,
    principal: PrincipalIdentity,
    context: Context,
    r: Option<PlanRequest>,
) -> bool {
    match asked_of(action) {
        Some((id, resource_type, name)) => r is Some && request_for(
            principal,
            id,
            resource_type,
            name,
            context,
        ) == Some(r->0.request) && table_model(r->0.table) == table_of(action),
        None => r is None,
    }
}

/// Whether the request of a plan's action can be built, if it has one.
pub open spec fn can_ask(action: ActionModel, principal: PrincipalIdentity, context: Context) -> bool {
    match asked_of(action) {
        Some((id, resource_type, name)) => request_for(
            principal,
            id,
            resource_type,
            name,
            context,
        ) is Some,
        None => true,
    }
}

/// Whether `e` says why the request of a plan's action cannot be built.
pub open spec fn action_fault(action: ActionModel, principal: PrincipalIdentity, e: PolicyError) -> bool {
    asked_of(action) matches Some((id, resource_type, name)) && request_fault(
        principal,
        id,
        resource_type,
        name,
        e,
    )
}

/// Lower one action of a plan to a request in the given context. An action that
/// is not modelled has none, and must be denied.
pub fn action_request(action: &PlanAction, principal: &PrincipalIdentity, context: &Context) -> (r:
    Result<Option<PlanRequest>, PolicyError>)
    ensures
        match r {
            Ok(request) => can_ask(action@, *principal, *context) && lowers_to(
                action@,
                *principal,
                *context,
                request,
            ),
            Err(e) => !can_ask(action@, *principal, *context) && action_fault(
                action@,
                *principal,
                e,
            ),
        },
{
    let (id, table) = match action {
        PlanAction::ReadTable(table, _) => ("read_table", table),
        PlanAction::WriteTable(table) => ("write_table", table),
        PlanAction::CreateTable(table) => ("create_table", table),
        PlanAction::UnityDdl { action: id, resource_type, name } => {
            return match build_request(principal, id, resource_type, name.as_str(), context) {
                Ok(request) => Ok(Some(PlanRequest { request, table: None })),
                Err(e) => Err(e),
            };
        },
        PlanAction::DenyUnsupported(_) => return Ok(None),
    };
    match build_request(principal, id, "Table", table.to_text().as_str(), context) {
        Ok(request) => Ok(Some(PlanRequest { request, table: Some(table.clone()) })),
        Err(e) => Err(e),
    }
}

/// Whether `i` is the first of a plan's actions whose request cannot be built in its
/// context, and `e` says why.
pub open spec fn first_fault(
    actions: Seq<ActionModel>,
    principal: PrincipalIdentity,
    contexts: Seq<Context>,
    i: int,
    e: PolicyError,
) -> bool {
    &&& 0 <= i < actions.len()
    &&& !can_ask(actions[i], principal, contexts[i])
    &&& action_fault(actions[i], principal, e)
    &&& forall|j: int| 0 <= j < i ==> can_ask(#[trigger] actions[j], principal, contexts[j])
}

/// The requests that must all be allowed for `plan` to run, one for each of its
/// actions, in order, each in a context of its own: `contexts` has one for each
/// action that [`plan_actions`] finds, in that order.
pub fn plan_requests(plan: &Plan, principal: &PrincipalIdentity, contexts: &Vec<Context>) -> (r:
    Result<Vec<Option<PlanRequest>>, PolicyError>)
    requires
        contexts@.len() == actions_of(plan@).len(),
    ensures
        match r {
            Ok(list) => list@.len() == actions_of(plan@).len() && forall|i: int|
                0 <= i < list@.len() ==> lowers_to(
                    actions_of(plan@)[i],
                    *principal,
                    contexts@[i],
                    #[trigger] list@[i],
                ),
            Err(e) => exists|i: int| #[trigger]
                first_fault(actions_of(plan@), *principal, contexts@, i, e),
        },
{
    let actions: Vec<PlanAction> = plan_actions(plan);
    let ghost all = actions_of(plan@);
    let mut list: Vec<Option<PlanRequest>> = Vec::new();
    let mut i: usize = 0;
    while i < actions.len()
        invariant
            i <= actions@.len(),
            all == actions_of(plan@),
            action_models(actions@) == all,
            contexts@.len() == all.len(),
            list@.len() == i,
            forall|j: int|
                0 <= j < i ==> lowers_to(all[j], *principal, contexts@[j], #[trigger] list@[j]),
            forall|j: int| 0 <= j < i ==> can_ask(#[trigger] all[j], *principal, contexts@[j]),
        decreases actions@.len() - i,
    {
        assert(all[i as int] == actions@[i as int]@);
        match action_request(&actions[i], principal, &contexts[i]) {
            Ok(request) => list.push(request),
            Err(e) => {
                assert(first_fault(all, *principal, contexts@, i as int, e));
                return Err(e);
            },
        }
        i += 1;
    }
    Ok(list)
}

/// The entities that go along with a request: the principal's, and the table's
/// where something is known of it.
pub open spec fn entities_for(
    principal: PrincipalIdentity,
    table: Option<TableReference>,
    eval: &EvalContext,
) -> Seq<Entity> {
    let own = seq![principal_entity_of(uid_of(principal.uid@)->0, principal)] + group_entities(
        principal.group_hierarchy@,
    );
    match table {
        Some(table) => match facts_of(eval, table@) {
            Some(facts) => match table_entity_of(table@, *facts) {
                Some(entity) => own.push(entity),
                None => own,
            },
            None => own,
        },
        None => own,
    }
}

/// The hierarchy of a list of entities, or the empty one where they form none.
pub open spec fn hierarchy_or_empty(entities: Seq<Entity>) -> Option<Entities> {
    match hierarchy_of(entities) {
        Some(hierarchy) => Some(hierarchy),
        None => hierarchy_of(Seq::empty()),
    }
}

/// The entities that go along with a request about `table`. Entities that form no
/// hierarchy are left out altogether: what rests on them does not resolve.
pub fn request_entities(
    principal: &PrincipalIdentity,
    table: &Option<TableReference>,
    eval: &EvalContext,
) -> (r: Result<Entities, PolicyError>)
    ensures
        match r {
            Ok(entities) => uid_of(principal.uid@) is Some && hierarchy_or_empty(
                entities_for(*principal, *table, eval),
            ) == Some(entities),
            Err(e) => uid_of(principal.uid@) is None && e.names_uid(principal.uid@),
        },
{
    let mut entities = match principal_entities(principal) {
        Ok(entities) => entities,
        Err(e) => return Err(e),
    };
    if let Some(table) = table {
        if let Some(facts) = eval.catalog_facts.get(table) {
            if let Some(entity) = table_entity(table, facts) {
                entities.push(entity);
            }
        }
    }
    assert(entities@ =~= entities_for(*principal, *table, eval));
    match hierarchy(entities) {
        Ok(hierarchy) => Ok(hierarchy),
        Err(_) => Ok(empty_hierarchy()),
    }
}

/// The context of a tool request: the taints that the session has observed.
pub open spec fn tool_context_of(taints: Seq<Seq<char>>) -> Option<Context> {
    context_of(seq![("observed_taints"@, names_value(taints))])
}

/// The request that an agent use the tool `action`, named after the action, in a
/// session that has observed `observed_taints`.
pub fn tool_request(action: &str, principal: &PrincipalIdentity, observed_taints: &NameSet) -> (r:
    Result<Request, PolicyError>)
    ensures
        match tool_context_of(observed_taints.listed()) {
            Some(context) => match r {
                Ok(request) => request_for(*principal, action@, "Tool"@, action@, context) == Some(
                    request,
                ),
                Err(e) => request_for(*principal, action@, "Tool"@, action@, context) is None
                    && request_fault(*principal, action@, "Tool"@, action@, e),
            },
            None => r is Err && r->Err_0 is Engine,
        },
{
    let mut fields: Vec<(String, RestrictedExpression)> = Vec::new();
    fields.push(("observed_taints".to_owned(), names_expr(observed_taints)));
    assert(pairs(fields@) =~= seq![
        ("observed_taints"@, names_value(observed_taints.listed())),
    ]);
    match context(fields) {
        Ok(context) => build_request(principal, action, "Tool", action, &context),
        Err(reason) => Err(PolicyError::Engine(reason)),
    }
}

/// The request under which the policies in force are fetched: a read of a table
/// of no name.
pub fn policy_fetch_request(principal: &PrincipalIdentity) -> (r: Result<Request, PolicyError>)
    ensures
        match context_of(Seq::empty()) {
            Some(context) => match r {
                Ok(request) => request_for(*principal, "read_table"@, "Table"@, "_"@, context)
                    == Some(request),
                Err(e) => request_for(*principal, "read_table"@, "Table"@, "_"@, context) is None
                    && request_fault(*principal, "read_table"@, "Table"@, "_"@, e),
            },
            None => r is Err && r->Err_0 is Engine,
        },
{
    let fields: Vec<(String, RestrictedExpression)> = Vec::new();
    assert(pairs(fields@) =~= Seq::empty());
    match context(fields) {
        Ok(context) => build_request(principal, "read_table", "Table", "_", &context),
        Err(reason) => Err(PolicyError::Engine(reason)),
    }
}

// ---------------------------------------------------------------------------
// Answers
// ---------------------------------------------------------------------------

/// What the authorizer's answer decides. An authorizer that failed (`None`)
/// denies.
pub fn settled(answer: Option<Decision>) -> (r: Decision)
    ensures
        r == match answer {
            Some(decision) => decision,
            None => Decision::Deny,
        },
{
    match answer {
        Some(decision) => decision,
        None => Decision::Deny,
    }
}

/// A plan's way through the access gate: the requests still to be asked, and whether one
/// was refused.
pub struct PlanGate {
    requests: Vec<Option<PlanRequest>>,
    asked: usize,
    refused: bool,
}

impl PlanGate {
    /// The requests, in order; `None` is one that must be denied unasked.
    pub closed spec fn requests(&self) -> Seq<Option<PlanRequest>> {
        self.requests@
    }

    /// How many requests have been answered.
    pub closed spec fn asked(&self) -> nat {
        self.asked as nat
    }

    /// Whether the plan is refused.
    pub closed spec fn refused(&self) -> bool {
        self.refused
    }

    #[verifier::type_invariant]
    spec fn in_bounds(self) -> bool {
        &&& self.asked <= self.requests@.len()
        &&& !self.refused ==> forall|i: int|
            0 <= i < self.requests@.len() ==> (#[trigger] self.requests@[i]) is Some
    }

    /// A gate for a plan's requests. One that must be denied refuses the plan.
    pub fn new(requests: Vec<Option<PlanRequest>>) -> (r: Self)
        ensures
            r.requests() == requests@,
            r.asked() == 0,
            r.refused() == exists|i: int| 0 <= i < requests@.len() && (#[trigger] requests@[i]) is None,
    {
        let mut refused = false;
        let mut i: usize = 0;
        while i < requests.len()
            invariant
                i <= requests@.len(),
                refused == exists|j: int| 0 <= j < i && (#[trigger] requests@[j]) is None,
            decreases requests@.len() - i,
        {
            if requests[i].is_none() {
                refused = true;
                assert(requests@[i as int] is None);
            }
            i += 1;
        }
        PlanGate { requests, asked: 0, refused }
    }

    /// The next request to put to the authorizer; `None` where the access gate has
    /// decided.
    pub fn question(&self) -> (r: Option<&PlanRequest>)
        ensures
            match r {
                Some(request) => !self.refused() && self.asked() < self.requests().len()
                    && self.requests()[self.asked() as int] == Some(*request),
                None => self.refused() || self.asked() == self.requests().len(),
            },
    {
        proof {
            use_type_invariant(self);
        }
        if self.refused || self.asked == self.requests.len() {
            None
        } else {
            self.requests[self.asked].as_ref()
        }
    }

    /// Take the authorizer's answer to the request put last. An authorizer that
    /// failed is `None`.
    pub fn answer(&mut self, answer: Option<Decision>)
        requires
            old(self).asked() < old(self).requests().len(),
        ensures
            final(self).requests() == old(self).requests(),
            final(self).asked() == old(self).asked() + 1,
            final(self).refused() == (old(self).refused() || answer != Some(Decision::Allow)),
    {
        proof {
            use_type_invariant(&*self);
        }
        let n: usize = self.requests.len();
        match settled(answer) {
            Decision::Allow => {},
            Decision::Deny => self.refused = true,
        }
        assert(self.asked < n);
        self.asked = self.asked + 1;
    }

    /// What the access gate decides: the plan runs where every request was answered and
    /// none was refused.
    pub fn verdict(&self) -> (r: Decision)
        ensures
            r == if self.refused() || self.asked() < self.requests().len() {
                Decision::Deny
            } else {
                Decision::Allow
            },
    {
        proof {
            use_type_invariant(self);
        }
        if self.refused || self.asked < self.requests.len() {
            Decision::Deny
        } else {
            Decision::Allow
        }
    }
}

} // verus!
