//! Fine-grained rules from partial evaluation: row filters and column masks.
//!
//! A permit that holds of the whole table shows every row; a permit that survives
//! partial evaluation over the table is a row filter, by the function it names or by
//! its own condition, and several are a union. A forbid that survives, or a table
//! that is denied outright, hides every row. A forbid that fires on a tagged column,
//! or may fire, masks the column. What cannot be evaluated, translated or looked up
//! hides rows, or masks the column, rather than exposing them.

use cedar_policy::{
    Context, PartialEntity, PartialRequest, Policy, PolicySet, RestrictedExpression, Schema,
};
use vstd::prelude::*;

use crate::abac::{callable, DEFAULT_MASK};
use crate::cedar::{
    known_pair, mask_candidate_columns, named_uid, native_tags, pair_of, principal_partial,
    principal_partial_entity, sorted_by_effect, table_decision, table_leftovers, table_residuals,
    tag_values, tagged, TableQuery,
};
use crate::cedar_entity::parse_uid;
use crate::constraint::ConstraintTranslator;
use crate::error::PolicyError;
use crate::expr::{
    binary, binary_model, col, lemma_call_view, lit_bool, lit_i64, lit_str, models, Expr,
    ExprModel, Operator, Value,
};
use crate::facts::{EvalContext, TableFacts};
use crate::function::ResolvedFunctions;
use crate::names::{texts, NameMap};
use crate::outside::{
    annotation, annotation_of, decision_of, effect, effect_of, evaluate, pair_map, parse_policy,
    partial_entity, partial_entity_of, partial_request, partial_request_of, policies, policies_of,
    policy_of, policy_set, renamed, renamed_policy, set_of, string_expr, string_value,
    typed_uid_of, uid_of, PolicyEffect,
};
use crate::policy::{PolicyModel, TablePolicy};
use crate::principal::PrincipalIdentity;
use crate::residual::{EntityModel, EntityName};
use crate::table::{dotted, field_names, Field, TableReference};
use crate::text::{chars_of, integer_value, parse_integer, split, split_at, text_of, trim, trimmed, views};
use crate::translate::{outcome, policy_predicate, CedarResidualTranslator, FaultModel, ResidualError};
use crate::types::Decision;

verus! {

// ---------------------------------------------------------------------------
// Rows
// ---------------------------------------------------------------------------

/// The rule for a table's rows.
#[derive(Debug)]
pub enum RowRule {
    /// Every row is hidden, and nothing else needs deciding.
    DenyAll,
    /// The predicates that a row must meet.
    Filters(Vec<Expr>),
}

/// The mathematical model of a [`RowRule`].
#[verifier::ext_equal]
pub enum RowModel {
    DenyAll,
    Filters(Seq<ExprModel>),
}

impl View for RowRule {
    type V = RowModel;

    open spec fn view(&self) -> RowModel {
        match self {
            RowRule::DenyAll => RowModel::DenyAll,
            RowRule::Filters(filters) => RowModel::Filters(models(filters@)),
        }
    }
}

/// What the permits left over translate to: each a predicate, no predicate where
/// it holds of every row, or a fault.
pub open spec fn outcomes(results: Seq<Result<Option<Expr>, ResidualError>>) -> Seq<
    Result<Option<ExprModel>, FaultModel>,
> {
    Seq::new(results.len(), |i: int| outcome(results[i]))
}

/// The predicate that never holds.
pub open spec fn never() -> ExprModel {
    ExprModel::Literal(Value::Boolean(false))
}

/// The union of predicates; `None` of none.
pub open spec fn union_of(results: Seq<Result<Option<ExprModel>, FaultModel>>) -> Option<ExprModel>
    decreases results.len(),
{
    if results.len() == 0 {
        None
    } else {
        match (union_of(results.drop_last()), results.last()) {
            (Some(before), Ok(Some(e))) => Some(binary_model(before, Operator::Or, e)),
            (None, Ok(Some(e))) => Some(e),
            (before, _) => before,
        }
    }
}

/// Whether some permit could not be translated.
pub open spec fn any_fault(results: Seq<Result<Option<ExprModel>, FaultModel>>) -> bool {
    exists|i: int| 0 <= i < results.len() && (#[trigger] results[i]) is Err
}

/// Whether some permit holds of every row.
pub open spec fn any_total(results: Seq<Result<Option<ExprModel>, FaultModel>>) -> bool {
    exists|i: int|
        0 <= i < results.len() && #[trigger] results[i] == Ok::<Option<ExprModel>, FaultModel>(None)
}

/// The filters that the permits left over amount to: a row passes where one of
/// them holds. None passes where one could not be translated.
pub open spec fn permitted(results: Seq<Result<Option<ExprModel>, FaultModel>>) -> Seq<ExprModel> {
    if any_fault(results) {
        seq![never()]
    } else if any_total(results) {
        Seq::empty()
    } else {
        match union_of(results) {
            Some(e) => seq![e],
            None => Seq::empty(),
        }
    }
}

/// The rule for the rows of a table: hidden where it is denied or a forbid is
/// left over, shown where it is allowed, else filtered by the permits left over.
pub open spec fn row_rule_of(
    decision: Option<Decision>,
    forbidden: bool,
    results: Seq<Result<Option<ExprModel>, FaultModel>>,
) -> RowModel {
    if forbidden || decision == Some(Decision::Deny) {
        RowModel::DenyAll
    } else if decision == Some(Decision::Allow) {
        RowModel::Filters(Seq::empty())
    } else {
        RowModel::Filters(permitted(results))
    }
}

/// The rule for the rows of a table, from what partial evaluation decided, whether
/// it left a forbid over, and what the permits it left over translate to.
pub fn row_rule(
    decision: Option<Decision>,
    forbidden: bool,
    results: Vec<Result<Option<Expr>, ResidualError>>,
) -> (r: RowRule)
    ensures
        r@ == row_rule_of(decision, forbidden, outcomes(results@)),
{
    if forbidden {
        return RowRule::DenyAll;
    }
    match decision {
        Some(Decision::Deny) => return RowRule::DenyAll,
        Some(Decision::Allow) => {
            let filters: Vec<Expr> = Vec::new();
            assert(models(filters@) =~= Seq::<ExprModel>::empty());
            return RowRule::Filters(filters);
        },
        None => {},
    }
    let ghost all = outcomes(results@);
    let mut fault = false;
    let mut total = false;
    let mut union: Option<Expr> = None;
    let mut i: usize = 0;
    while i < results.len()
        invariant
            i <= results@.len(),
            all == outcomes(results@),
            fault == any_fault(all.take(i as int)),
            total == any_total(all.take(i as int)),
            match union {
                Some(e) => union_of(all.take(i as int)) == Some(e@),
                None => union_of(all.take(i as int)) is None,
            },
        decreases results@.len() - i,
    {
        let ghost before = all.take(i as int);
        let ghost now = all.take(i + 1);
        let ghost last = outcome(results@[i as int]);
        proof {
            assert(now.drop_last() =~= before);
            assert(now.last() == last);
            assert(any_fault(now) == (any_fault(before) || last is Err)) by {
                if any_fault(before) {
                    let j = choose|j: int| 0 <= j < before.len() && (#[trigger] before[j]) is Err;
                    assert(now[j] is Err);
                }
                if last is Err {
                    assert(now[i as int] is Err);
                }
                if any_fault(now) {
                    let j = choose|j: int| 0 <= j < now.len() && (#[trigger] now[j]) is Err;
                    if j < i {
                        assert(before[j] is Err);
                    }
                }
            }
            let t = Ok::<Option<ExprModel>, FaultModel>(None);
            assert(any_total(now) == (any_total(before) || last == t)) by {
                if any_total(before) {
                    let j = choose|j: int| 0 <= j < before.len() && #[trigger] before[j] == t;
                    assert(now[j] == t);
                }
                if last == t {
                    assert(now[i as int] == t);
                }
                if any_total(now) {
                    let j = choose|j: int| 0 <= j < now.len() && #[trigger] now[j] == t;
                    if j < i {
                        assert(before[j] == t);
                    }
                }
            }
        }
        match &results[i] {
            Ok(Some(e)) => {
                union = match union {
                    Some(before) => Some(binary(before, Operator::Or, e.clone())),
                    None => Some(e.clone()),
                };
            },
            Ok(None) => total = true,
            Err(_) => fault = true,
        }
        i += 1;
    }
    assert(all.take(i as int) =~= all);
    let mut filters: Vec<Expr> = Vec::new();
    if fault {
        filters.push(lit_bool(false));
    } else if !total {
        if let Some(e) = union {
            filters.push(e);
        }
    }
    assert(models(filters@) =~= permitted(all));
    RowRule::Filters(filters)
}

/// The resource that residuals over the table speak of.
pub open spec fn table_resource(q: TableQuery) -> Option<EntityModel> {
    Some(EntityModel { entity_type: "Table"@, id: dotted(q.table@) })
}

/// The predicate of a permit left over: a call of the function that it names as its
/// `row_filter_fn`, or what its own condition translates to.
pub open spec fn row_predicate_of(policy: Policy, resource: Option<EntityModel>) -> Result<
    Option<ExprModel>,
    FaultModel,
> {
    match annotation_of(policy, "row_filter_fn"@) {
        Some(function) => Ok(Some(ExprModel::Call(function, extra_arguments(policy)))),
        None => policy_predicate(policy, resource),
    }
}

/// The predicates of a list of permits.
pub open spec fn predicates(list: Seq<Policy>, resource: Option<EntityModel>) -> Seq<
    Result<Option<ExprModel>, FaultModel>,
> {
    Seq::new(list.len(), |i: int| row_predicate_of(list[i], resource))
}

/// The functions that a list of permits filters rows by, in order.
pub open spec fn row_functions(list: Seq<Policy>) -> Seq<Seq<char>>
    decreases list.len(),
{
    if list.len() == 0 {
        Seq::empty()
    } else {
        match annotation_of(list.last(), "row_filter_fn"@) {
            Some(function) => row_functions(list.drop_last()).push(function),
            None => row_functions(list.drop_last()),
        }
    }
}

/// Whether `rule` is the rule for the table's rows, and `functions` what it calls,
/// the leftover permits taken as `permits` and the leftover forbids as `forbids`.
pub open spec fn rows_from(
    q: TableQuery,
    permits: Seq<Policy>,
    forbids: Seq<Policy>,
    decision: Option<Decision>,
    rule: RowModel,
    functions: Seq<Seq<char>>,
) -> bool {
    &&& sorted_by_effect(permits, forbids, table_leftovers(q))
    &&& rule == row_rule_of(decision, forbids.len() > 0, predicates(permits, table_resource(q)))
    &&& functions == if forbids.len() > 0 || decision is Some {
        Seq::empty()
    } else {
        row_functions(permits)
    }
}

/// Whether `rule` is the rule for the table's rows, and `functions` what it calls.
/// The order in which the permits left over are joined is open.
pub open spec fn rows_follow(q: TableQuery, rule: RowModel, functions: Seq<Seq<char>>) -> bool {
    match table_decision(q) {
        Some(decision) => exists|permits: Seq<Policy>, forbids: Seq<Policy>|
            rows_from(q, permits, forbids, decision, rule, functions),
        None => rule == RowModel::Filters(seq![never()]) && functions == Seq::<Seq<char>>::empty(),
    }
}

/// The rule for a table's rows, and the functions it calls.
#[derive(Debug)]
pub struct TableRows {
    /// The rule.
    pub rule: RowRule,
    /// The functions that its filters call.
    pub functions: Vec<String>,
}

/// The predicate of a permit left over.
pub fn permit_predicate(policy: &Policy, translator: &CedarResidualTranslator) -> (r: Result<
    Option<Expr>,
    ResidualError,
>)
    ensures
        outcome(r) == row_predicate_of(*policy, translator.resource()),
{
    match annotation(policy, "row_filter_fn") {
        Some(function) => {
            let args = annotated_arguments(policy);
            proof {
                lemma_call_view(function, args);
            }
            Ok(Some(Expr::Call(function, args)))
        },
        None => translator.to_predicate(policy),
    }
}

/// The functions that a list of permits filters rows by.
fn functions_named(list: &Vec<Policy>) -> (r: Vec<String>)
    ensures
        texts(r@) == row_functions(list@),
{
    let mut names: Vec<String> = Vec::new();
    let mut i: usize = 0;
    assert(texts(names@) =~= row_functions(list@.take(0)));
    while i < list.len()
        invariant
            i <= list@.len(),
            texts(names@) == row_functions(list@.take(i as int)),
        decreases list@.len() - i,
    {
        let ghost before = names@;
        proof {
            assert(list@.take(i + 1).drop_last() =~= list@.take(i as int));
            assert(list@.take(i + 1).last() == list@[i as int]);
        }
        if let Some(function) = annotation(&list[i], "row_filter_fn") {
            names.push(function);
            assert(texts(names@) =~= texts(before).push(function@));
        }
        i += 1;
    }
    assert(list@.take(i as int) =~= list@);
    names
}

/// The rule for the table's rows, and the functions it calls.
pub fn table_rows(q: &TableQuery) -> (r: TableRows)
    ensures
        rows_follow(*q, r.rule@, texts(r.functions@)),
{
    let none: Vec<String> = Vec::new();
    assert(texts(none@) =~= Seq::<Seq<char>>::empty());
    let found = match table_residuals(q) {
        Ok(found) => found,
        Err(_) => {
            let mut filters: Vec<Expr> = Vec::new();
            filters.push(lit_bool(false));
            assert(models(filters@) =~= seq![never()]);
            return TableRows { rule: RowRule::Filters(filters), functions: none };
        },
    };
    let translator = CedarResidualTranslator::with_resource_uid(
        EntityName { entity_type: "Table".to_owned(), id: q.table.to_text() },
    );
    let ghost resource = table_resource(*q);
    let mut results: Vec<Result<Option<Expr>, ResidualError>> = Vec::new();
    let mut i: usize = 0;
    while i < found.permits.len()
        invariant
            i <= found.permits@.len(),
            results@.len() == i,
            translator.resource() == resource,
            forall|j: int|
                0 <= j < i ==> outcome(#[trigger] results@[j]) == row_predicate_of(
                    found.permits@[j],
                    resource,
                ),
        decreases found.permits@.len() - i,
    {
        results.push(permit_predicate(&found.permits[i], &translator));
        i += 1;
    }
    let ghost list = predicates(found.permits@, resource);
    assert(outcomes(results@) =~= list);
    let rule = row_rule(found.decision, found.forbids.len() > 0, results);
    let functions = if found.forbids.len() > 0 || found.decision.is_some() {
        none
    } else {
        functions_named(&found.permits)
    };
    assert(rows_from(
        *q,
        found.permits@,
        found.forbids@,
        found.decision,
        rule@,
        texts(functions@),
    ));
    TableRows { rule, functions }
}

// ---------------------------------------------------------------------------
// Columns
// ---------------------------------------------------------------------------

/// A permit for every column, beside which a forbid alone decides.
pub const BLANKET_PERMIT: &'static str =
    "permit(principal, action == Action::\"read_column\", resource);";

/// The name of a column's entity.
pub open spec fn column_id(q: TableQuery, column: Seq<char>) -> Seq<char> {
    dotted(q.table@) + "."@ + column
}

/// The governed tags of a column; none where it has none.
pub open spec fn column_tags(q: TableQuery, column: Seq<char>) -> Map<Seq<char>, String> {
    match q.facts {
        Some(facts) => if facts.governed_column_tags@.contains_key(column) {
            facts.governed_column_tags@[column]@
        } else {
            Map::empty()
        },
        None => Map::empty(),
    }
}

/// The column for partial evaluation: its name and its tags known.
pub open spec fn column_partial(q: TableQuery, column: Seq<char>) -> Option<PartialEntity> {
    match typed_uid_of("Column"@, column_id(q, column)) {
        Some(uid) => partial_entity_of(
            uid,
            Some(Map::empty().insert("name"@, string_value(column))),
            Some(Set::empty()),
            Some(tag_values(column_tags(q, column))),
            *q.schema,
        ),
        None => None,
    }
}

/// The request to read a column.
pub open spec fn column_request(q: TableQuery, column: Seq<char>) -> Option<PartialRequest> {
    match (
        uid_of(q.principal.uid@),
        typed_uid_of("Action"@, "read_column"@),
        typed_uid_of("Column"@, column_id(q, column)),
    ) {
        (Some(who), Some(action), Some(what)) => partial_request_of(
            who,
            action,
            what,
            *q.context,
            *q.schema,
        ),
        _ => None,
    }
}

/// A forbid alone beside the blanket permit.
pub open spec fn probe_of(policy: Policy) -> Option<PolicySet> {
    match policy_of(BLANKET_PERMIT@) {
        Some(blanket) => set_of(
            seq![
                renamed_policy(policy, "probe_forbid"@),
                renamed_policy(blanket, "probe_permit"@),
            ],
        ),
        None => None,
    }
}

/// Whether a forbid fires on the column, or may: beside the blanket permit it alone
/// can keep the column from being allowed, by denying it or by staying undecided.
/// `None` where it cannot be evaluated.
pub open spec fn fires(q: TableQuery, column: Seq<char>, policy: Policy) -> Option<bool> {
    let known = known_pair(principal_partial(q), column_partial(q, column), *q.schema);
    match (probe_of(policy), column_request(q, column), known) {
        (Some(probe), Some(request), Some(known)) => match decision_of(
            probe,
            request,
            known,
            *q.schema,
        ) {
            Some(decision) => Some(decision != Some(Decision::Allow)),
            None => None,
        },
        _ => None,
    }
}

/// The first forbid of a list that fires on the column; `Some(None)` where none
/// does, `None` where one before it cannot be evaluated.
pub open spec fn first_firing(q: TableQuery, column: Seq<char>, list: Seq<Policy>) -> Option<
    Option<Policy>,
>
    decreases list.len(),
{
    if list.len() == 0 {
        Some(None)
    } else if effect_of(list[0]) == PolicyEffect::Permit {
        first_firing(q, column, list.drop_first())
    } else {
        match fires(q, column, list[0]) {
            Some(true) => Some(Some(list[0])),
            Some(false) => first_firing(q, column, list.drop_first()),
            None => None,
        }
    }
}

/// Whether the parts of a column's evaluation can all be built.
pub open spec fn can_probe(q: TableQuery, column: Seq<char>) -> bool {
    &&& typed_uid_of("Action"@, "read_column"@) is Some
    &&& column_partial(q, column) is Some
    &&& uid_of(q.principal.uid@) is Some
    &&& policy_of(BLANKET_PERMIT@) is Some
}

/// The policy that masks the column; `Some(None)` where the principal may read it,
/// `None` where that cannot be evaluated.
pub open spec fn masked_by(q: TableQuery, column: Seq<char>) -> Option<Option<Policy>> {
    if can_probe(q, column) {
        first_firing(q, column, policies_of(*q.policies))
    } else {
        None
    }
}

/// Find the policy that masks the column for the principal, or `None` where the
/// principal may read it. Each forbid is tried alone, so that the mask can be
/// attributed to it; one that stays undecided protects the column too.
pub fn column_is_masked(q: &TableQuery, column: &str) -> (r: Result<Option<Policy>, PolicyError>)
    ensures
        match r {
            Ok(policy) => masked_by(*q, column@) == Some(policy),
            Err(e) => masked_by(*q, column@) is None && if typed_uid_of(
                "Action"@,
                "read_column"@,
            ) is Some && column_partial(*q, column@) is Some && uid_of(q.principal.uid@) is None {
                e.names_uid(q.principal.uid@)
            } else {
                e is Engine
            },
        },
{
    let action = match named_uid("Action", "read_column") {
        Ok(uid) => uid,
        Err(e) => return Err(e),
    };
    let mut id = q.table.to_text();
    id.append(".");
    id.append(column);
    let what = match named_uid("Column", id.as_str()) {
        Ok(uid) => uid,
        Err(e) => return Err(e),
    };
    let mut attrs: Vec<(String, RestrictedExpression)> = Vec::new();
    assert(pair_map(attrs@) =~= Map::empty());
    attrs.push(("name".to_owned(), string_expr(column)));
    assert(attrs@.drop_last() =~= Seq::empty());
    let none: Vec<(String, RestrictedExpression)> = Vec::new();
    assert(pair_map(none@) =~= tag_values(Map::empty()));
    let tags = match q.facts {
        Some(facts) => match facts.governed_column_tags.get(column) {
            Some(tags) => native_tags(tags),
            None => none,
        },
        None => none,
    };
    let ancestors: Vec<cedar_policy::EntityUid> = Vec::new();
    assert(ancestors@.to_set() =~= Set::<cedar_policy::EntityUid>::empty());
    let thing = match partial_entity(&what, Some(attrs), Some(ancestors), Some(tags), q.schema) {
        Ok(e) => e,
        Err(reason) => return Err(PolicyError::Engine(reason)),
    };
    assert(column_partial(*q, column@) == Some(thing));
    let who = match parse_uid(q.principal.uid.as_str()) {
        Ok(uid) => uid,
        Err(e) => return Err(e),
    };
    let blanket = match parse_policy(BLANKET_PERMIT) {
        Ok(policy) => policy,
        Err(reason) => return Err(PolicyError::Engine(reason)),
    };
    let mut list = policies(q.policies);
    let mut i: usize = 0;
    assert(list@.skip(0) =~= list@);
    while i < list.len()
        invariant
            i <= list@.len(),
            first_firing(*q, column@, list@.skip(i as int)) == masked_by(*q, column@),
            typed_uid_of("Action"@, "read_column"@) == Some(action),
            typed_uid_of("Column"@, column_id(*q, column@)) == Some(what),
            column_partial(*q, column@) == Some(thing),
            uid_of(q.principal.uid@) == Some(who),
            policy_of(BLANKET_PERMIT@) == Some(blanket),
        decreases list@.len() - i,
    {
        let policy = &list[i];
        proof {
            assert(list@.skip(i as int)[0] == *policy);
            assert(list@.skip(i as int).drop_first() =~= list@.skip(i + 1));
        }
        match effect(policy) {
            PolicyEffect::Permit => {},
            PolicyEffect::Forbid => {
                let probe = match probe_set(policy, &blanket) {
                    Ok(set) => set,
                    Err(reason) => return Err(PolicyError::Engine(reason)),
                };
                let request = match partial_request(&who, &action, &what, q.context, q.schema) {
                    Ok(request) => request,
                    Err(reason) => return Err(PolicyError::Engine(reason)),
                };
                let person = match principal_partial_entity(q) {
                    Ok(e) => e,
                    Err(e) => return Err(e),
                };
                let known = match pair_of(person, thing.clone(), q.schema) {
                    Ok(known) => known,
                    Err(e) => return Err(e),
                };
                match evaluate(&probe, &request, &known, q.schema) {
                    Ok(answer) => match answer.decision {
                        Some(Decision::Allow) => {},
                        _ => return Ok(Some(list.remove(i))),
                    },
                    Err(reason) => return Err(PolicyError::Engine(reason)),
                }
            },
        }
        i += 1;
    }
    assert(list@.skip(i as int).len() == 0);
    Ok(None)
}

/// A forbid alone beside the blanket permit.
fn probe_set(policy: &Policy, blanket: &Policy) -> (r: Result<PolicySet, String>)
    ensures
        policy_of(BLANKET_PERMIT@) == Some(*blanket) ==> match r {
            Ok(set) => probe_of(*policy) == Some(set),
            Err(_) => probe_of(*policy) is None,
        },
{
    let mut list: Vec<Policy> = Vec::new();
    list.push(renamed(policy, "probe_forbid"));
    list.push(renamed(blanket, "probe_permit"));
    assert(list@ =~= seq![
        renamed_policy(*policy, "probe_forbid"@),
        renamed_policy(*blanket, "probe_permit"@),
    ]);
    policy_set(list)
}

// ---------------------------------------------------------------------------
// Masks
// ---------------------------------------------------------------------------

/// The replacement of a masked column.
#[derive(Debug)]
pub enum MaskRule {
    /// The default literal.
    Default,
    /// A catalog function, called on the column and the further arguments.
    Call { function: String, extra: Vec<Expr> },
}

/// The mathematical model of a [`MaskRule`].
#[verifier::ext_equal]
pub enum MaskModel {
    Default,
    Call { function: Seq<char>, extra: Seq<ExprModel> },
}

impl View for MaskRule {
    type V = MaskModel;

    open spec fn view(&self) -> MaskModel {
        match self {
            MaskRule::Default => MaskModel::Default,
            MaskRule::Call { function, extra } => MaskModel::Call {
                function: function@,
                extra: models(extra@),
            },
        }
    }
}

/// A further argument: an integer where the entry reads as one, else a column.
pub open spec fn argument(entry: Seq<char>) -> ExprModel {
    match integer_value(entry) {
        Some(n) => ExprModel::Literal(Value::Int64(n)),
        None => ExprModel::Column(entry),
    }
}

/// The arguments that a list of entries gives, empty entries left out.
pub open spec fn arguments(entries: Seq<Seq<char>>) -> Seq<ExprModel>
    decreases entries.len(),
{
    if entries.len() == 0 {
        Seq::empty()
    } else {
        let before = arguments(entries.drop_last());
        let entry = trimmed(entries.last());
        if entry.len() == 0 {
            before
        } else {
            before.push(argument(entry))
        }
    }
}

/// The further arguments of the function that a policy names: the entries of its
/// `using_columns`, parted by commas.
pub open spec fn extra_arguments(policy: Policy) -> Seq<ExprModel> {
    match annotation_of(policy, "using_columns"@) {
        Some(list) => arguments(split_at(list, ',')),
        None => Seq::empty(),
    }
}

/// The mask that a policy asks for: a call of its `mask_fn`, or the default
/// literal where it names none.
pub open spec fn mask_rule_of(policy: Policy) -> MaskModel {
    match annotation_of(policy, "mask_fn"@) {
        Some(function) => MaskModel::Call { function, extra: extra_arguments(policy) },
        None => MaskModel::Default,
    }
}

/// Read the entries of a list as arguments.
pub fn read_arguments(list: &str) -> (r: Vec<Expr>)
    ensures
        models(r@) == arguments(split_at(list@, ',')),
{
    let parts: Vec<Vec<char>> = split(&chars_of(list), ',');
    let ghost entries = views(parts@);
    let mut args: Vec<Expr> = Vec::new();
    let mut i: usize = 0;
    assert(models(args@) =~= arguments(entries.take(0)));
    while i < parts.len()
        invariant
            i <= parts@.len(),
            entries == views(parts@),
            models(args@) == arguments(entries.take(i as int)),
        decreases parts@.len() - i,
    {
        let ghost before = args@;
        let entry: Vec<char> = trim(&parts[i]);
        let n: usize = entry.len();
        if n > 0 {
            let arg = match parse_integer(&entry) {
                Some(n) => lit_i64(n),
                None => col(text_of(&entry, 0, n).as_str()),
            };
            assert(entry@.subrange(0, n as int) =~= entry@);
            args.push(arg);
            assert(models(args@) =~= models(before).push(arg@));
        }
        proof {
            assert(entries.take(i + 1).drop_last() =~= entries.take(i as int));
            assert(entries.take(i + 1).last() == parts@[i as int]@);
        }
        i += 1;
    }
    assert(entries.take(i as int) =~= entries);
    args
}

/// The further arguments of the function that a policy names.
fn annotated_arguments(policy: &Policy) -> (r: Vec<Expr>)
    ensures
        models(r@) == extra_arguments(*policy),
{
    match annotation(policy, "using_columns") {
        Some(list) => read_arguments(list.as_str()),
        None => {
            let none: Vec<Expr> = Vec::new();
            assert(models(none@) =~= Seq::<ExprModel>::empty());
            none
        },
    }
}

/// The mask that a policy asks for.
pub fn mask_rule(policy: &Policy) -> (r: MaskRule)
    ensures
        r@ == mask_rule_of(*policy),
{
    match annotation(policy, "mask_fn") {
        Some(function) => MaskRule::Call { function, extra: annotated_arguments(policy) },
        None => MaskRule::Default,
    }
}

/// The mask of a column, and `None` where the principal may read it. A column that
/// cannot be evaluated is masked.
pub open spec fn column_rule(q: TableQuery, column: Seq<char>) -> Option<MaskModel> {
    match masked_by(q, column) {
        Some(Some(policy)) => Some(mask_rule_of(policy)),
        Some(None) => None,
        None => Some(MaskModel::Default),
    }
}

/// The columns that can be masked.
pub open spec fn candidates(q: TableQuery, columns: Seq<Seq<char>>) -> Seq<Seq<char>> {
    match q.facts {
        Some(facts) => tagged(*facts, columns),
        None => Seq::empty(),
    }
}

/// Whether `masks` are the masks of the columns of `list`.
pub open spec fn masks_follow(
    q: TableQuery,
    list: Seq<Seq<char>>,
    masks: Map<Seq<char>, MaskRule>,
) -> bool {
    &&& forall|c: Seq<char>| #[trigger]
        masks.contains_key(c) <==> list.contains(c) && column_rule(q, c) is Some
    &&& forall|c: Seq<char>| #[trigger]
        masks.contains_key(c) ==> column_rule(q, c) == Some(masks[c]@)
}

/// The masks of the columns that can be masked.
pub fn column_masks(q: &TableQuery, fields: &Vec<Field>) -> (r: NameMap<MaskRule>)
    ensures
        masks_follow(*q, candidates(*q, field_names(fields@)), r@),
{
    let ghost all = candidates(*q, field_names(fields@));
    let mut masks: NameMap<MaskRule> = NameMap::new();
    let facts = match q.facts {
        Some(facts) => facts,
        None => return masks,
    };
    let list: Vec<String> = mask_candidate_columns(fields, facts);
    assert(texts(list@) == all);
    let mut i: usize = 0;
    while i < list.len()
        invariant
            i <= list@.len(),
            texts(list@) == all,
            masks_follow(*q, all.take(i as int), masks@),
        decreases list@.len() - i,
    {
        let column = &list[i];
        let ghost before = all.take(i as int);
        let ghost now = all.take(i + 1);
        proof {
            assert(now =~= before.push(column@));
            assert forall|c: Seq<char>| now.contains(c) <==> before.contains(c) || c == column@ by {
                if before.contains(c) {
                    let j = before.index_of(c);
                    assert(now[j] == c);
                }
                if c == column@ {
                    assert(now[i as int] == c);
                }
                if now.contains(c) {
                    let j = now.index_of(c);
                    if j < i {
                        assert(before[j] == c);
                    }
                }
            }
        }
        match column_is_masked(q, column.as_str()) {
            Ok(Some(policy)) => masks.insert(column.clone(), mask_rule(&policy)),
            Ok(None) => {},
            Err(_) => masks.insert(column.clone(), MaskRule::Default),
        }
        i += 1;
    }
    assert(all.take(i as int) =~= all);
    masks
}

// ---------------------------------------------------------------------------
// The table's policy
// ---------------------------------------------------------------------------

/// The rules of one table, before the functions they name are looked up.
#[derive(Debug)]
pub struct TableRules {
    /// The rule for the rows.
    pub rows: RowRule,
    /// The functions that the row filters call.
    pub row_functions: Vec<String>,
    /// The masks, by column.
    pub masks: NameMap<MaskRule>,
}

/// Whether `rules` are the rules of the table. A table whose rows are all hidden
/// has no masks.
pub open spec fn rules_follow(q: TableQuery, columns: Seq<Seq<char>>, rules: TableRules) -> bool {
    &&& rows_follow(q, rules.rows@, texts(rules.row_functions@))
    &&& if rules.rows is DenyAll {
        rules.masks@ == Map::<Seq<char>, MaskRule>::empty()
    } else {
        masks_follow(q, candidates(q, columns), rules.masks@)
    }
}

/// The rules of the table, of which a scan reads `fields`.
pub fn table_rules(q: &TableQuery, fields: &Vec<Field>) -> (r: TableRules)
    ensures
        rules_follow(*q, field_names(fields@), r),
{
    let found = table_rows(q);
    match found.rule {
        RowRule::DenyAll => TableRules {
            rows: RowRule::DenyAll,
            row_functions: found.functions,
            masks: NameMap::new(),
        },
        RowRule::Filters(filters) => TableRules {
            rows: RowRule::Filters(filters),
            row_functions: found.functions,
            masks: column_masks(q, fields),
        },
    }
}

/// A policy that hides every row.
pub open spec fn hidden() -> PolicyModel {
    PolicyModel { row_filters: seq![never()], column_masks: Map::empty() }
}

/// A policy that hides every row.
pub fn deny_all_rows() -> (r: TablePolicy)
    ensures
        r@ == hidden(),
{
    let mut policy = TablePolicy::default();
    policy.row_filters.push(lit_bool(false));
    assert(models(policy.row_filters@) =~= seq![never()]);
    policy
}

/// The replacement of a column: a call of the mask's function on the column, or
/// the default literal where there is no function to call.
pub open spec fn replacement(
    rule: MaskModel,
    column: Seq<char>,
    resolver: Option<ResolvedFunctions>,
) -> ExprModel {
    match rule {
        MaskModel::Call { function, extra } => if callable(resolver, function) {
            ExprModel::Call(function, seq![ExprModel::Column(column)] + extra)
        } else {
            ExprModel::Literal(Value::Utf8(DEFAULT_MASK@))
        },
        MaskModel::Default => ExprModel::Literal(Value::Utf8(DEFAULT_MASK@)),
    }
}

/// Whether a wired catalog has every one of the functions.
pub open spec fn all_callable(
    resolver: Option<ResolvedFunctions>,
    functions: Seq<Seq<char>>,
) -> bool {
    forall|i: int| 0 <= i < functions.len() ==> callable(resolver, #[trigger] functions[i])
}

/// Whether `policy` is what the rules come to, once the functions they name have
/// been looked up. A row filter whose function cannot be called hides every row.
pub open spec fn enforces(
    policy: PolicyModel,
    rules: TableRules,
    resolver: Option<ResolvedFunctions>,
) -> bool {
    &&& policy.row_filters == match rules.rows@ {
        RowModel::DenyAll => seq![never()],
        RowModel::Filters(filters) => if all_callable(resolver, texts(rules.row_functions@)) {
            filters
        } else {
            seq![never()]
        },
    }
    &&& policy.column_masks.dom() == rules.masks@.dom()
    &&& forall|c: Seq<char>| #[trigger]
        rules.masks@.contains_key(c) ==> policy.column_masks[c] == replacement(
            rules.masks@[c]@,
            c,
            resolver,
        )
}

/// Whether a wired catalog has the function.
fn is_callable(resolver: &Option<ResolvedFunctions>, function: &str) -> (r: bool)
    ensures
        r == callable(*resolver, function@),
{
    match resolver {
        Some(functions) => functions.resolve(function).is_ok(),
        None => false,
    }
}

/// Whether a wired catalog has every one of the functions.
fn are_callable(resolver: &Option<ResolvedFunctions>, functions: &Vec<String>) -> (r: bool)
    ensures
        r == all_callable(*resolver, texts(functions@)),
{
    let mut i: usize = 0;
    while i < functions.len()
        invariant
            i <= functions@.len(),
            forall|j: int|
                0 <= j < i ==> callable(*resolver, #[trigger] texts(functions@)[j]),
        decreases functions@.len() - i,
    {
        assert(texts(functions@)[i as int] == functions@[i as int]@);
        if !is_callable(resolver, functions[i].as_str()) {
            return false;
        }
        i += 1;
    }
    true
}

/// The replacement of a column.
fn replace(rule: &MaskRule, column: &str, resolver: &Option<ResolvedFunctions>) -> (r: Expr)
    ensures
        r@ == replacement(rule@, column@, *resolver),
{
    match rule {
        MaskRule::Call { function, extra } => {
            if is_callable(resolver, function.as_str()) {
                let mut args: Vec<Expr> = Vec::new();
                args.push(col(column));
                let mut i: usize = 0;
                assert(models(args@) =~= seq![ExprModel::Column(column@)] + models(extra@).take(0));
                while i < extra.len()
                    invariant
                        i <= extra@.len(),
                        models(args@) == seq![ExprModel::Column(column@)] + models(extra@).take(
                            i as int,
                        ),
                    decreases extra@.len() - i,
                {
                    let ghost before = models(args@);
                    args.push(extra[i].clone());
                    i += 1;
                    proof {
                        assert(models(args@) =~= before.push(extra@[i - 1]@));
                        assert(models(extra@).take(i as int) =~= models(extra@).take(i - 1).push(
                            extra@[i - 1]@,
                        ));
                        assert(models(args@) =~= seq![ExprModel::Column(column@)] + models(
                            extra@,
                        ).take(i as int));
                    }
                }
                assert(models(extra@).take(i as int) =~= models(extra@));
                let function = function.clone();
                proof {
                    lemma_call_view(function, args);
                }
                Expr::Call(function, args)
            } else {
                lit_str(DEFAULT_MASK)
            }
        },
        MaskRule::Default => lit_str(DEFAULT_MASK),
    }
}

impl TableRules {
    /// Whether some row filter or some mask calls the function.
    pub open spec fn names(&self, function: Seq<char>) -> bool {
        texts(self.row_functions@).contains(function) || self.masked_by(function)
    }

    /// Whether some mask calls the function.
    pub open spec fn masked_by(&self, function: Seq<char>) -> bool {
        exists|c: Seq<char>| #[trigger] self.masks@.contains_key(c) && self.masks@[c]@ is Call
            && self.masks@[c]@->function == function
    }

    /// The functions that the row filters and the masks call, to be looked up before
    /// [`Self::finish`].
    pub fn required_functions(&self) -> (r: Vec<String>)
        ensures
            forall|f: Seq<char>| #[trigger] texts(r@).contains(f) <==> self.names(f),
    {
        let ghost keys = self.masks.keys();
        let n: usize = self.masks.len();
        let mut list: Vec<String> = Vec::new();
        let mut k: usize = 0;
        while k < self.row_functions.len()
            invariant
                k <= self.row_functions@.len(),
                texts(list@) == texts(self.row_functions@).take(k as int),
            decreases self.row_functions@.len() - k,
        {
            let ghost before = texts(list@);
            list.push(self.row_functions[k].clone());
            k += 1;
            assert(texts(list@) =~= before.push(self.row_functions@[k - 1]@));
            assert(texts(list@) =~= texts(self.row_functions@).take(k as int));
        }
        assert(texts(self.row_functions@).take(k as int) =~= texts(self.row_functions@));
        let mut i: usize = 0;
        while i < n
            invariant
                i <= n,
                n == keys.len(),
                keys == self.masks.keys(),
                forall|f: Seq<char>| #[trigger]
                    texts(list@).contains(f) ==> self.names(f),
                forall|f: Seq<char>| #[trigger]
                    texts(self.row_functions@).contains(f) ==> texts(list@).contains(f),
                forall|j: int|
                    0 <= j < i && self.masks@[#[trigger] keys[j]]@ is Call ==> texts(
                        list@,
                    ).contains(self.masks@[keys[j]]@->function),
            decreases n - i,
        {
            let ghost before = texts(list@);
            match self.masks.value_at(i) {
                MaskRule::Call { function, extra } => {
                    list.push(function.clone());
                    proof {
                        assert(texts(list@) =~= before.push(function@));
                        assert(self.masks@.contains_key(keys[i as int]));
                        assert(self.masked_by(function@));
                        assert forall|f: Seq<char>| before.contains(f) implies texts(
                            list@,
                        ).contains(f) by {
                            assert(texts(list@)[before.index_of(f)] == f);
                        }
                        assert(texts(list@)[before.len() as int] == function@);
                        assert forall|f: Seq<char>| #[trigger]
                            texts(list@).contains(f) implies self.names(f) by {
                            let at = texts(list@).index_of(f);
                            assert(texts(list@)[at] == f);
                            if at < before.len() {
                                assert(before[at] == f);
                                assert(before.contains(f));
                            }
                        }
                    }
                },
                MaskRule::Default => {},
            }
            i += 1;
        }
        proof {
            assert forall|f: Seq<char>| self.masked_by(f) implies #[trigger] texts(list@).contains(
                f,
            ) by {
                let c = choose|c: Seq<char>| #[trigger]
                    self.masks@.contains_key(c) && self.masks@[c]@ is Call
                        && self.masks@[c]@->function == f;
                assert(keys.to_set().contains(c));
                let j = keys.index_of(c);
                assert(keys[j] == c);
            }
        }
        list
    }

    /// The policy that the rules come to. A mask whose function does not resolve gives
    /// way to the default mask, and the column stays hidden; a row filter whose
    /// function does not resolve hides every row.
    pub fn finish(self, resolver: &Option<ResolvedFunctions>) -> (r: TablePolicy)
        ensures
            enforces(r@, self, *resolver),
    {
        let ghost start = self;
        let ghost keys = self.masks.keys();
        let row_filters = match self.rows {
            RowRule::DenyAll => {
                let mut filters: Vec<Expr> = Vec::new();
                filters.push(lit_bool(false));
                assert(models(filters@) =~= seq![never()]);
                filters
            },
            RowRule::Filters(filters) => if are_callable(resolver, &self.row_functions) {
                filters
            } else {
                let mut denied: Vec<Expr> = Vec::new();
                denied.push(lit_bool(false));
                assert(models(denied@) =~= seq![never()]);
                denied
            },
        };
        let masks = self.masks;
        let n: usize = masks.len();
        let mut column_masks: NameMap<Expr> = NameMap::new();
        let mut i: usize = 0;
        while i < n
            invariant
                i <= n,
                n == keys.len(),
                masks == start.masks,
                keys == masks.keys(),
                column_masks@.dom() == keys.take(i as int).to_set(),
                forall|c: Seq<char>| #[trigger]
                    column_masks@.contains_key(c) ==> column_masks@[c]@ == replacement(
                        masks@[c]@,
                        c,
                        *resolver,
                    ),
            decreases n - i,
        {
            let column = masks.key_at(i);
            let mask = replace(masks.value_at(i), column, resolver);
            column_masks.insert(column.to_owned(), mask);
            i += 1;
            proof {
                assert(keys.take(i as int) =~= keys.take(i - 1).push(keys[i - 1]));
                assert(keys.take(i as int).to_set() =~= keys.take(i - 1).to_set().insert(
                    keys[i - 1],
                )) by {
                    broadcast use vstd::seq_lib::group_seq_properties;
                }
            }
        }
        let policy = TablePolicy { row_filters, column_masks };
        proof {
            assert(keys.take(i as int) =~= keys);
            assert(policy@.column_masks.dom() =~= column_masks@.dom());
        }
        policy
    }
}

/// What is known of a table.
pub open spec fn facts_of<'a>(eval: &'a EvalContext, table: Seq<Seq<char>>) -> Option<&'a TableFacts> {
    if eval.catalog_facts.facts().contains_key(dotted(table)) {
        Some(&eval.catalog_facts.facts()[dotted(table)])
    } else {
        None
    }
}

/// Whether `policy` is the constraint on a table: every row hidden where there is
/// no schema to evaluate against, else what the table's rules come to.
pub open spec fn constrains(
    policy: PolicyModel,
    policies: &PolicySet,
    schema: Option<&Schema>,
    context: &Context,
    table: &TableReference,
    columns: Seq<Seq<char>>,
    principal: &PrincipalIdentity,
    eval: &EvalContext,
) -> bool {
    match schema {
        None => policy == hidden(),
        Some(schema) => {
            let facts = facts_of(eval, table@);
            let q = TableQuery { policies, schema, context, table, principal, facts };
            exists|rules: TableRules|
                #![trigger rules_follow(q, columns, rules)]
                rules_follow(q, columns, rules) && enforces(policy, rules, eval.function_resolver)
        },
    }
}

/// The row filters and column masks of `table` for `principal`, under `policies`.
pub fn constrain_table(
    policies: &PolicySet,
    schema: Option<&Schema>,
    context: &Context,
    table: &TableReference,
    fields: &Vec<Field>,
    principal: &PrincipalIdentity,
    eval: &EvalContext,
) -> (r: TablePolicy)
    ensures
        constrains(
            r@,
            policies,
            schema,
            context,
            table,
            field_names(fields@),
            principal,
            eval,
        ),
{
    // Without a schema no row and no column can be shown safe.
    let schema = match schema {
        Some(schema) => schema,
        None => return deny_all_rows(),
    };
    let facts = eval.catalog_facts.get(table);
    let q = TableQuery { policies, schema, context, table, principal, facts };
    assert(facts == facts_of(eval, table@));
    let rules = table_rules(&q, fields);
    rules.finish(&eval.function_resolver)
}

} // verus!
