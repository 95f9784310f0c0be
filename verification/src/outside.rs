//! The Cedar types and functions that the Cedar adapter rests on.
//!
//! Nothing in this module is proved: each item states what the Cedar function
//! that it calls is known to do. Where what a function returns takes a language
//! manual to state, its result has a name (an uninterpreted function of its
//! arguments), and the adapter's contracts speak of that name.

use std::collections::{BTreeMap, HashMap, HashSet};

use cedar_policy::pst::{
    BinaryOp, Clause as PstClause, Expr as PstExpr, Literal, PatternElem as PstElem, UnaryOp, Var,
};
use cedar_policy::{
    Context, Entities, Entity, EntityId, EntityTypeName, EntityUid, PartialEntities, PartialEntity,
    PartialEntityUid, PartialRequest, Policy, PolicyId, PolicySet, Request, RestrictedExpression,
    Schema,
};
use smol_str::SmolStr;
use vstd::multiset::Multiset;
use vstd::prelude::*;

use crate::residual::{ClauseModel, EntityName, PatternElem, ResidualExpr, ResidualModel, ResidualOp};
use crate::types::Decision;

verus! {

// ---------------------------------------------------------------------------
// Types
// ---------------------------------------------------------------------------

/// Cedar's entity uid, e.g. `User::"alice"`.
#[verifier::external_type_specification]
#[verifier::external_body]
pub struct ExEntityUid(EntityUid);

/// Cedar's attribute value expression.
#[verifier::external_type_specification]
#[verifier::external_body]
pub struct ExRestrictedExpression(RestrictedExpression);

/// Cedar's entity: a uid with attributes and parents.
#[verifier::external_type_specification]
#[verifier::external_body]
pub struct ExEntity(Entity);

/// Cedar's entity hierarchy.
#[verifier::external_type_specification]
#[verifier::external_body]
pub struct ExEntities(Entities);

/// Cedar's request context.
#[verifier::external_type_specification]
#[verifier::external_body]
pub struct ExContext(Context);

/// Cedar's authorization request.
#[verifier::external_type_specification]
#[verifier::external_body]
pub struct ExRequest(Request);

/// Cedar's policy.
#[verifier::external_type_specification]
#[verifier::external_body]
pub struct ExPolicy(Policy);

/// Cedar's policy set.
#[verifier::external_type_specification]
#[verifier::external_body]
pub struct ExPolicySet(PolicySet);

/// Cedar's schema.
#[verifier::external_type_specification]
#[verifier::external_body]
pub struct ExSchema(Schema);

/// An entity of which partial evaluation knows only a part.
#[verifier::external_type_specification]
#[verifier::external_body]
pub struct ExPartialEntity(PartialEntity);

/// The entities that partial evaluation knows of.
#[verifier::external_type_specification]
#[verifier::external_body]
pub struct ExPartialEntities(PartialEntities);

/// A request for partial evaluation.
#[verifier::external_type_specification]
#[verifier::external_body]
pub struct ExPartialRequest(PartialRequest);

/// A node of a policy's condition.
#[verifier::external_type_specification]
#[verifier::external_body]
pub struct ExPstExpr(PstExpr);

/// A binary operator of a policy's condition.
#[verifier::external_type_specification]
#[verifier::external_body]
pub struct ExBinaryOp(BinaryOp);

/// An element of a `like` pattern in a policy's condition.
#[verifier::external_type_specification]
#[verifier::external_body]
pub struct ExPstElem(PstElem);

// ---------------------------------------------------------------------------
// Conditions
// ---------------------------------------------------------------------------

/// The operator a Cedar operator stands for in a residual.
pub uninterp spec fn operator_of(op: BinaryOp) -> ResidualOp;

/// The element a Cedar pattern element stands for in a residual.
pub uninterp spec fn element_of(elem: PstElem) -> PatternElem;

/// The residual tree that a Cedar expression holds.
pub uninterp spec fn tree_of(expr: PstExpr) -> ResidualModel;

/// The clauses of a policy's condition, in order; `None` where the policy has no
/// typed form.
pub uninterp spec fn conditions_of(policy: Policy) -> Option<Seq<ClauseModel>>;

/// An inner node of a Cedar expression, with its children.
pub enum InnerNode {
    GetAttr(PstExpr, String),
    Not(PstExpr),
    OtherUnary,
    Binary(BinaryOp, PstExpr, PstExpr),
    Like(PstExpr, Vec<PstElem>),
    Other,
}

/// A clause of a Cedar policy.
pub struct PolicyClause {
    pub unless: bool,
    pub condition: PstExpr,
}

/// Whether a residual node is a literal, the resource, or an unknown.
pub open spec fn is_leaf(node: ResidualModel) -> bool {
    match node {
        ResidualModel::Bool(_)
        | ResidualModel::Long(_)
        | ResidualModel::Text(_)
        | ResidualModel::Entity(_)
        | ResidualModel::OtherLiteral
        | ResidualModel::Resource
        | ResidualModel::Unknown(_) => true,
        _ => false,
    }
}

/// The pattern elements of a residual's `like`.
pub open spec fn elements_of(pattern: Seq<PstElem>) -> Seq<PatternElem> {
    Seq::new(pattern.len(), |i: int| element_of(pattern[i]))
}

/// The tree that an inner node holds, its children's trees taken as they are.
pub open spec fn inner_tree(node: InnerNode) -> ResidualModel {
    match node {
        InnerNode::GetAttr(base, attr) => ResidualModel::GetAttr(Box::new(tree_of(base)), attr@),
        InnerNode::Not(inner) => ResidualModel::Not(Box::new(tree_of(inner))),
        InnerNode::OtherUnary => ResidualModel::OtherUnary,
        InnerNode::Binary(op, left, right) => ResidualModel::Binary(
            operator_of(op),
            Box::new(tree_of(left)),
            Box::new(tree_of(right)),
        ),
        InnerNode::Like(inner, pattern) => ResidualModel::Like(
            Box::new(tree_of(inner)),
            elements_of(pattern@),
        ),
        InnerNode::Other => ResidualModel::Other,
    }
}

/// The leaves of a `pst::Expr`: the literals of `pst::Literal`, the variable
/// `resource` of `pst::Var`, and the unknowns. `None` where the expression is
/// none of these.
#[verifier::external_body]
pub(crate) fn leaf(expr: &PstExpr) -> (r: Option<ResidualExpr>)
    ensures
        r is Some == is_leaf(tree_of(*expr)),
        r is Some ==> r->0@ == tree_of(*expr),
{
    match expr {
        PstExpr::Literal(Literal::Bool(b)) => Some(ResidualExpr::Bool(*b)),
        PstExpr::Literal(Literal::Long(n)) => Some(ResidualExpr::Long(*n)),
        PstExpr::Literal(Literal::String(s)) => Some(ResidualExpr::Text(s.to_string())),
        PstExpr::Literal(Literal::EntityUID(uid)) => {
            let (entity_type, id) = (uid.ty.to_string(), uid.eid.to_string());
            Some(ResidualExpr::Entity(EntityName { entity_type, id }))
        },
        PstExpr::Literal(_) => Some(ResidualExpr::OtherLiteral),
        PstExpr::Var(Var::Resource) => Some(ResidualExpr::Resource),
        PstExpr::Unknown { name } => Some(ResidualExpr::Unknown(name.to_string())),
        _ => None,
    }
}

/// The inner nodes of a `pst::Expr`: attribute access, unary and binary
/// operations, `like`; any other expression is `Other`.
#[verifier::external_body]
pub(crate) fn inner(expr: &PstExpr) -> (r: InnerNode)
    requires
        !is_leaf(tree_of(*expr)),
    ensures
        tree_of(*expr) == inner_tree(r),
{
    match expr {
        PstExpr::GetAttr { expr, attr } => InnerNode::GetAttr((**expr).clone(), attr.to_string()),
        PstExpr::UnaryOp { op: UnaryOp::Not, expr } => InnerNode::Not((**expr).clone()),
        PstExpr::UnaryOp { .. } => InnerNode::OtherUnary,
        PstExpr::BinaryOp { op, left, right } => {
            InnerNode::Binary(op.clone(), (**left).clone(), (**right).clone())
        },
        PstExpr::Like { expr, pattern } => InnerNode::Like((**expr).clone(), pattern.clone()),
        _ => InnerNode::Other,
    }
}

/// The operators of `pst::BinaryOp`: the comparisons and the combinators by name,
/// every other operator as `Other`.
#[verifier::external_body]
pub(crate) fn operator(op: &BinaryOp) -> (r: ResidualOp)
    ensures
        r == operator_of(*op),
{
    match op {
        BinaryOp::And => ResidualOp::And,
        BinaryOp::Or => ResidualOp::Or,
        BinaryOp::Eq => ResidualOp::Eq,
        BinaryOp::NotEq => ResidualOp::NotEq,
        BinaryOp::Less => ResidualOp::Less,
        BinaryOp::LessEq => ResidualOp::LessEq,
        BinaryOp::Greater => ResidualOp::Greater,
        BinaryOp::GreaterEq => ResidualOp::GreaterEq,
        _ => ResidualOp::Other,
    }
}

/// The elements of `pst::PatternElem`: a wildcard, or a character.
#[verifier::external_body]
pub(crate) fn element(elem: &PstElem) -> (r: PatternElem)
    ensures
        r == element_of(*elem),
{
    match elem {
        PstElem::Wildcard => PatternElem::Wildcard,
        PstElem::Char(c) => PatternElem::Char(*c),
    }
}

/// The clauses of a policy: `Policy::to_pst` gives its typed form or an error,
/// and `clauses` of the form's body lists its `when` and `unless` clauses.
#[verifier::external_body]
pub(crate) fn clauses(policy: &Policy) -> (r: Result<Vec<PolicyClause>, String>)
    ensures
        match r {
            Ok(list) => conditions_of(*policy) == Some(
                Seq::new(
                    list@.len(),
                    |i: int|
                        ClauseModel {
                            unless: list@[i].unless,
                            condition: tree_of(list@[i].condition),
                        },
                ),
            ),
            Err(_) => conditions_of(*policy) is None,
        },
{
    let typed = policy.to_pst().map_err(|e| e.to_string())?;
    let convert = |clause: &PstClause| match clause {
        PstClause::When(e) => PolicyClause { unless: false, condition: (**e).clone() },
        PstClause::Unless(e) => PolicyClause { unless: true, condition: (**e).clone() },
    };
    Ok(typed.body().clauses().iter().map(convert).collect())
}

// ---------------------------------------------------------------------------
// Policies
// ---------------------------------------------------------------------------

/// Whether a policy permits or forbids.
#[derive(Debug, Clone, Copy, PartialEq, Eq, Structural)]
pub enum PolicyEffect {
    Permit,
    Forbid,
}

/// A policy's effect.
pub uninterp spec fn effect_of(policy: Policy) -> PolicyEffect;

/// The value of a policy's annotation, if it has the annotation.
pub uninterp spec fn annotation_of(policy: Policy, key: Seq<char>) -> Option<Seq<char>>;

/// The policies of a set, in the set's order.
pub uninterp spec fn policies_of(set: PolicySet) -> Seq<Policy>;

/// The policy that a text denotes, if it denotes one.
pub uninterp spec fn policy_of(text: Seq<char>) -> Option<Policy>;

/// A policy under another id.
pub uninterp spec fn renamed_policy(policy: Policy, id: Seq<char>) -> Policy;

/// The set of a list of policies; `None` where two share an id or one is linked to a
/// template.
pub uninterp spec fn set_of(policies: Seq<Policy>) -> Option<PolicySet>;

/// `Policy::effect`: whether the policy permits or forbids.
#[verifier::external_body]
pub(crate) fn effect(policy: &Policy) -> (r: PolicyEffect)
    ensures
        r == effect_of(*policy),
{
    match policy.effect() {
        cedar_policy::Effect::Permit => PolicyEffect::Permit,
        cedar_policy::Effect::Forbid => PolicyEffect::Forbid,
    }
}

/// `Policy::annotation`: the value of the annotation `key`, and `None` where the
/// policy does not have it.
#[verifier::external_body]
pub(crate) fn annotation(policy: &Policy, key: &str) -> (r: Option<String>)
    ensures
        match r {
            Some(value) => annotation_of(*policy, key@) == Some(value@),
            None => annotation_of(*policy, key@) is None,
        },
{
    policy.annotation(key).map(|value| value.to_string())
}

/// `PolicySet::policies`: the set's policies, static and template-linked, in the
/// order the set keeps them in.
#[verifier::external_body]
pub(crate) fn policies(set: &PolicySet) -> (r: Vec<Policy>)
    ensures
        r@ == policies_of(*set),
{
    set.policies().cloned().collect()
}

/// `Policy::from_str`: the policy that a Cedar text denotes, or a parse error.
#[verifier::external_body]
pub(crate) fn parse_policy(text: &str) -> (r: Result<Policy, String>)
    ensures
        match r {
            Ok(policy) => policy_of(text@) == Some(policy),
            Err(_) => policy_of(text@) is None,
        },
{
    text.parse::<Policy>().map_err(|e| e.to_string())
}

/// `Policy::new_id`: the policy under the id `id`.
#[verifier::external_body]
pub(crate) fn renamed(policy: &Policy, id: &str) -> (r: Policy)
    ensures
        r == renamed_policy(*policy, id@),
{
    policy.new_id(PolicyId::new(id))
}

/// `PolicySet::from_policies`: the set of the given policies, or an error where
/// their ids clash or one of them is linked to a template.
#[verifier::external_body]
pub(crate) fn policy_set(policies: Vec<Policy>) -> (r: Result<PolicySet, String>)
    ensures
        match r {
            Ok(set) => set_of(policies@) == Some(set),
            Err(_) => set_of(policies@) is None,
        },
{
    PolicySet::from_policies(policies).map_err(|e| e.to_string())
}

// ---------------------------------------------------------------------------
// Entities and values
// ---------------------------------------------------------------------------

/// The entity uid that a text denotes, if it denotes one.
pub uninterp spec fn uid_of(text: Seq<char>) -> Option<EntityUid>;

/// What Cedar says of a text that denotes no entity uid.
pub uninterp spec fn uid_fault(text: Seq<char>) -> Seq<char>;

/// The uid of the entity `id` of a type; `None` where the type's name is not one.
pub uninterp spec fn typed_uid_of(entity_type: Seq<char>, id: Seq<char>) -> Option<EntityUid>;

/// A string value.
pub uninterp spec fn string_value(s: Seq<char>) -> RestrictedExpression;

/// An integer value.
pub uninterp spec fn long_value(n: int) -> RestrictedExpression;

/// A boolean value.
pub uninterp spec fn bool_value(b: bool) -> RestrictedExpression;

/// A set of values.
pub uninterp spec fn set_value(items: Seq<RestrictedExpression>) -> RestrictedExpression;

/// A record of values; `None` where two fields share a name.
pub uninterp spec fn record_value(fields: Seq<(Seq<char>, RestrictedExpression)>) -> Option<
    RestrictedExpression,
>;

/// An entity with attributes and parents; `None` where an attribute has no value.
pub uninterp spec fn entity_of(
    uid: EntityUid,
    attrs: Map<Seq<char>, RestrictedExpression>,
    parents: Set<EntityUid>,
) -> Option<Entity>;

/// An entity with parents and no attributes.
pub uninterp spec fn plain_entity_of(uid: EntityUid, parents: Set<EntityUid>) -> Entity;

/// The hierarchy of a list of entities; `None` where they do not form one.
pub uninterp spec fn hierarchy_of(entities: Seq<Entity>) -> Option<Entities>;

/// The names and values of a list of pairs.
pub open spec fn pairs(list: Seq<(String, RestrictedExpression)>) -> Seq<
    (Seq<char>, RestrictedExpression),
> {
    Seq::new(list.len(), |i: int| (list[i].0@, list[i].1))
}

/// A list of pairs as a map, later pairs over earlier.
pub open spec fn pair_map(list: Seq<(String, RestrictedExpression)>) -> Map<
    Seq<char>,
    RestrictedExpression,
>
    decreases list.len(),
{
    if list.len() == 0 {
        Map::empty()
    } else {
        pair_map(list.drop_last()).insert(list.last().0@, list.last().1)
    }
}

/// `EntityUid::from_str`: the uid that a text such as `User::"alice"` denotes, or
/// the text of a parse error (`Display` of `ParseErrors`).
#[verifier::external_body]
pub(crate) fn read_uid(text: &str) -> (r: Result<EntityUid, String>)
    ensures
        match r {
            Ok(uid) => uid_of(text@) == Some(uid),
            Err(reason) => uid_of(text@) is None && reason@ == uid_fault(text@),
        },
{
    text.parse::<EntityUid>().map_err(|e| e.to_string())
}

/// `EntityUid::from_type_name_and_id`: the uid of the entity `id` of the type that
/// `EntityTypeName::from_str` reads from `entity_type`, or that function's parse
/// error.
#[verifier::external_body]
pub(crate) fn typed_uid(entity_type: &str, id: &str) -> (r: Result<EntityUid, String>)
    ensures
        match r {
            Ok(uid) => typed_uid_of(entity_type@, id@) == Some(uid),
            Err(_) => typed_uid_of(entity_type@, id@) is None,
        },
{
    let name = entity_type.parse::<EntityTypeName>().map_err(|e| e.to_string())?;
    Ok(EntityUid::from_type_name_and_id(name, EntityId::new(id)))
}

/// `RestrictedExpression::new_string`: a string literal.
#[verifier::external_body]
pub(crate) fn string_expr(s: &str) -> (r: RestrictedExpression)
    ensures
        r == string_value(s@),
{
    RestrictedExpression::new_string(s.to_string())
}

/// `RestrictedExpression::new_long`: an integer literal.
#[verifier::external_body]
pub(crate) fn long_expr(n: i64) -> (r: RestrictedExpression)
    ensures
        r == long_value(n as int),
{
    RestrictedExpression::new_long(n)
}

/// `RestrictedExpression::new_bool`: a boolean literal.
#[verifier::external_body]
pub(crate) fn bool_expr(b: bool) -> (r: RestrictedExpression)
    ensures
        r == bool_value(b),
{
    RestrictedExpression::new_bool(b)
}

/// `RestrictedExpression::new_set`: the set of the given values.
#[verifier::external_body]
pub(crate) fn set_expr(items: Vec<RestrictedExpression>) -> (r: RestrictedExpression)
    ensures
        r == set_value(items@),
{
    RestrictedExpression::new_set(items)
}

/// `RestrictedExpression::new_record`: the record of the given fields, or an
/// error where a field name appears twice.
#[verifier::external_body]
pub(crate) fn record_expr(fields: Vec<(String, RestrictedExpression)>) -> (r: Result<
    RestrictedExpression,
    String,
>)
    ensures
        match r {
            Ok(record) => record_value(pairs(fields@)) == Some(record),
            Err(_) => record_value(pairs(fields@)) is None,
        },
{
    RestrictedExpression::new_record(fields).map_err(|e| e.to_string())
}

/// `Entity::new`: an entity with attributes and parents, or an error where an
/// attribute's expression does not evaluate.
#[verifier::external_body]
pub(crate) fn entity(
    uid: &EntityUid,
    attrs: Vec<(String, RestrictedExpression)>,
    parents: Vec<EntityUid>,
) -> (r: Result<Entity, String>)
    ensures
        match r {
            Ok(entity) => entity_of(*uid, pair_map(attrs@), parents@.to_set()) == Some(entity),
            Err(_) => entity_of(*uid, pair_map(attrs@), parents@.to_set()) is None,
        },
{
    let attrs: HashMap<String, RestrictedExpression> = attrs.into_iter().collect();
    let parents: HashSet<EntityUid> = parents.into_iter().collect();
    Entity::new(uid.clone(), attrs, parents).map_err(|e| e.to_string())
}

/// `Entity::new_no_attrs`: an entity with parents and no attributes.
#[verifier::external_body]
pub(crate) fn plain_entity(uid: &EntityUid, parents: Vec<EntityUid>) -> (r: Entity)
    ensures
        r == plain_entity_of(*uid, parents@.to_set()),
{
    Entity::new_no_attrs(uid.clone(), parents.into_iter().collect())
}

/// `Entities::from_entities`, without a schema: the hierarchy of the given
/// entities, or an error where two of them clash or the hierarchy has a cycle.
#[verifier::external_body]
pub(crate) fn hierarchy(entities: Vec<Entity>) -> (r: Result<Entities, String>)
    ensures
        match r {
            Ok(hierarchy) => hierarchy_of(entities@) == Some(hierarchy),
            Err(_) => hierarchy_of(entities@) is None,
        },
{
    Entities::from_entities(entities, None).map_err(|e| e.to_string())
}

/// `Entities::empty`: the hierarchy of no entities, the same that
/// `Entities::from_entities` makes of an empty list.
#[verifier::external_body]
pub(crate) fn empty_hierarchy() -> (r: Entities)
    ensures
        hierarchy_of(Seq::<Entity>::empty()) == Some(r),
{
    Entities::empty()
}

// ---------------------------------------------------------------------------
// Requests
// ---------------------------------------------------------------------------

/// The context of a list of pairs; `None` where a key appears twice or a value
/// does not evaluate.
pub uninterp spec fn context_of(fields: Seq<(Seq<char>, RestrictedExpression)>) -> Option<Context>;

/// A request.
pub uninterp spec fn request_of(
    principal: EntityUid,
    action: EntityUid,
    resource: EntityUid,
    context: Context,
) -> Option<Request>;

/// `Context::from_pairs`: the context of the given pairs, or an error.
#[verifier::external_body]
pub(crate) fn context(fields: Vec<(String, RestrictedExpression)>) -> (r: Result<Context, String>)
    ensures
        match r {
            Ok(context) => context_of(pairs(fields@)) == Some(context),
            Err(_) => context_of(pairs(fields@)) is None,
        },
{
    Context::from_pairs(fields).map_err(|e| e.to_string())
}

/// `Request::new`, without a schema: the request of the given parts, or an error.
#[verifier::external_body]
pub(crate) fn request(
    principal: &EntityUid,
    action: &EntityUid,
    resource: &EntityUid,
    context: &Context,
) -> (r: Result<Request, String>)
    ensures
        match r {
            Ok(request) => request_of(*principal, *action, *resource, *context) == Some(request),
            Err(_) => request_of(*principal, *action, *resource, *context) is None,
        },
{
    Request::new(principal.clone(), action.clone(), resource.clone(), context.clone(), None)
        .map_err(|e| e.to_string())
}

// ---------------------------------------------------------------------------
// Partial evaluation
// ---------------------------------------------------------------------------

/// An entity for partial evaluation: attributes, ancestors and tags are each
/// known or unknown. `None` where the schema does not allow it.
pub uninterp spec fn partial_entity_of(
    uid: EntityUid,
    attrs: Option<Map<Seq<char>, RestrictedExpression>>,
    ancestors: Option<Set<EntityUid>>,
    tags: Option<Map<Seq<char>, RestrictedExpression>>,
    schema: Schema,
) -> Option<PartialEntity>;

/// A request for partial evaluation whose principal, action, resource and context
/// are known. `None` where the schema does not allow it.
pub uninterp spec fn partial_request_of(
    principal: EntityUid,
    action: EntityUid,
    resource: EntityUid,
    context: Context,
    schema: Schema,
) -> Option<PartialRequest>;

/// A collection of entities for partial evaluation. `None` where they do not form
/// one.
pub uninterp spec fn partial_entities_of(
    entities: Seq<PartialEntity>,
    schema: Schema,
) -> Option<PartialEntities>;

/// What partial evaluation decides: nothing yet (`Some(None)`), a decision, or an
/// error (`None`).
pub uninterp spec fn decision_of(
    policies: PolicySet,
    request: PartialRequest,
    entities: PartialEntities,
    schema: Schema,
) -> Option<Option<Decision>>;

/// The policies that partial evaluation leaves, those that came out trivially
/// true or false left out. The order they come in is not fixed.
pub uninterp spec fn residuals_of(
    policies: PolicySet,
    request: PartialRequest,
    entities: PartialEntities,
    schema: Schema,
) -> Multiset<Policy>;

/// An optional list of pairs as an optional map.
pub open spec fn known_map(list: Option<Vec<(String, RestrictedExpression)>>) -> Option<
    Map<Seq<char>, RestrictedExpression>,
> {
    match list {
        Some(list) => Some(pair_map(list@)),
        None => None,
    }
}

/// An optional list of uids as an optional set.
pub open spec fn known_set(list: Option<Vec<EntityUid>>) -> Option<Set<EntityUid>> {
    match list {
        Some(list) => Some(list@.to_set()),
        None => None,
    }
}

/// The outcome of a partial evaluation.
pub struct PartialAnswer {
    /// The decision, where the known parts determine it.
    pub decision: Option<Decision>,
    /// The policies left over.
    pub residuals: Vec<Policy>,
}

/// `PartialEntity::new`: an entity for partial evaluation, or an error where it
/// does not conform to the schema.
#[verifier::external_body]
pub(crate) fn partial_entity(
    uid: &EntityUid,
    attrs: Option<Vec<(String, RestrictedExpression)>>,
    ancestors: Option<Vec<EntityUid>>,
    tags: Option<Vec<(String, RestrictedExpression)>>,
    schema: &Schema,
) -> (r: Result<PartialEntity, String>)
    ensures
        ({
            let named = partial_entity_of(
                *uid,
                known_map(attrs),
                known_set(ancestors),
                known_map(tags),
                *schema,
            );
            match r {
                Ok(entity) => named == Some(entity),
                Err(_) => named is None,
            }
        }),
{
    let convert = |list: Vec<(String, RestrictedExpression)>| -> BTreeMap<SmolStr, RestrictedExpression> {
        list.into_iter().map(|(key, value)| (SmolStr::from(key), value)).collect()
    };
    let ancestors = ancestors.map(|list| list.into_iter().collect::<HashSet<EntityUid>>());
    PartialEntity::new(uid.clone(), attrs.map(convert), ancestors, tags.map(convert), schema)
        .map_err(|e| e.to_string())
}

/// `PartialEntity::clone`, which Cedar derives: the same entity.
pub assume_specification[ <PartialEntity as Clone>::clone ](known: &PartialEntity) -> (r:
    PartialEntity)
    ensures
        r == *known,
;

/// `PartialRequest::new`, with a concrete principal and a concrete resource
/// (`PartialEntityUid::from_concrete`): a request for partial evaluation, or an
/// error where it does not conform to the schema.
#[verifier::external_body]
pub(crate) fn partial_request(
    principal: &EntityUid,
    action: &EntityUid,
    resource: &EntityUid,
    context: &Context,
    schema: &Schema,
) -> (r: Result<PartialRequest, String>)
    ensures
        ({
            let named = partial_request_of(*principal, *action, *resource, *context, *schema);
            match r {
                Ok(request) => named == Some(request),
                Err(_) => named is None,
            }
        }),
{
    let principal = PartialEntityUid::from_concrete(principal.clone());
    let resource = PartialEntityUid::from_concrete(resource.clone());
    PartialRequest::new(principal, action.clone(), resource, Some(context.clone()), schema)
        .map_err(|e| e.to_string())
}

/// `PartialEntities::from_partial_entities`: the collection of the given entities,
/// or an error where two of them clash or they do not conform to the schema.
#[verifier::external_body]
pub(crate) fn partial_entities(entities: Vec<PartialEntity>, schema: &Schema) -> (r: Result<
    PartialEntities,
    String,
>)
    ensures
        match r {
            Ok(known) => partial_entities_of(entities@, *schema) == Some(known),
            Err(_) => partial_entities_of(entities@, *schema) is None,
        },
{
    PartialEntities::from_partial_entities(entities, schema).map_err(|e| e.to_string())
}

/// `PolicySet::tpe`: the decision (`TpeResponse::decision`) and the nontrivial
/// residual policies (`TpeResponse::nontrivial_residual_policies`), or an error. The
/// residuals come in no fixed order, so only which they are is stated.
#[verifier::external_body]
pub(crate) fn evaluate(
    policies: &PolicySet,
    request: &PartialRequest,
    entities: &PartialEntities,
    schema: &Schema,
) -> (r: Result<PartialAnswer, String>)
    ensures
        match r {
            Ok(answer) => decision_of(*policies, *request, *entities, *schema) == Some(
                answer.decision,
            ) && answer.residuals@.to_multiset() == residuals_of(
                *policies,
                *request,
                *entities,
                *schema,
            ),
            Err(_) => decision_of(*policies, *request, *entities, *schema) is None,
        },
{
    let response = policies.tpe(request, entities, schema).map_err(|e| e.to_string())?;
    let decision = response.decision().map(|decision| match decision {
        cedar_policy::Decision::Allow => Decision::Allow,
        cedar_policy::Decision::Deny => Decision::Deny,
    });
    let residuals = response.nontrivial_residual_policies().collect();
    Ok(PartialAnswer { decision, residuals })
}

} // verus!
