//! That models are faithful: each says of a value what the value holds.

use cedar_policy::RestrictedExpression;
use vstd::prelude::*;

use crate::cedar_rules::{outcomes, MaskModel, MaskRule, RowModel, RowRule};
use crate::error::{debug_text, PolicyError};
use crate::expr::{models, Expr, ExprModel, Scalar, Value};
use crate::govern::{entry_policies, scan_models, Scan};
use crate::names::texts;
use crate::outside::{pair_map, pairs, uid_fault};
use crate::plan::{item_models, lemma_plan_view, NodeModel, Plan, PlanNode, ProjectionItem};
use crate::plan_actions::{action_models, ActionModel, PlanAction};
use crate::policy::{PolicyModel, TablePolicy};
use crate::posture::Posture;
use crate::principal::IdentityError;
use crate::residual::{clause_models, Clause, ClauseModel, ResidualExpr, ResidualModel};
use crate::table::{field_models, field_names, model_names, Field, TableReference};
use crate::translate::{outcome, ResidualError};

verus! {

/// **A table's name is its parts.**
pub proof fn law_table_models_are_faithful(table: TableReference)
    ensures
        match table {
            TableReference::Bare { table: t } => table@.len() == 1 && table@[0] == t@,
            TableReference::Partial { schema, table: t } => table@.len() == 2 && table@[0]
                == schema@ && table@[1] == t@,
            TableReference::Full { catalog, schema, table: t } => table@.len() == 3 && table@[0]
                == catalog@ && table@[1] == schema@ && table@[2] == t@,
        },
{
}

/// **A field is its qualifier, its name and its type.**
pub proof fn law_field_models_are_faithful(fields: Seq<Field>, i: int)
    requires
        0 <= i < fields.len(),
    ensures
        field_models(fields).len() == fields.len(),
        field_models(fields)[i].name == fields[i].name@,
        field_models(fields)[i].data_type == fields[i].data_type@,
        match fields[i].qualifier {
            Some(table) => field_models(fields)[i].qualifier == Some(table@),
            None => field_models(fields)[i].qualifier is None,
        },
        field_names(fields).len() == fields.len(),
        field_names(fields)[i] == fields[i].name@,
        model_names(field_models(fields)) == field_names(fields),
{
    assert(model_names(field_models(fields)) =~= field_names(fields));
}

/// **A list of texts is the texts.**
pub proof fn law_text_lists_are_faithful(items: Seq<String>, i: int)
    requires
        0 <= i < items.len(),
    ensures
        texts(items).len() == items.len(),
        texts(items)[i] == items[i]@,
{
}

/// **An expression's model has its shape and its parts.**
pub proof fn law_expression_models_are_faithful(e: Expr)
    ensures
        match e {
            Expr::Column(name) => e@ == ExprModel::Column(name@),
            Expr::Literal(Scalar::Utf8(s)) => e@ == ExprModel::Literal(Value::Utf8(s@)),
            Expr::Literal(Scalar::Int64(n)) => e@ == ExprModel::Literal(Value::Int64(n as int)),
            Expr::Literal(Scalar::Boolean(b)) => e@ == ExprModel::Literal(Value::Boolean(b)),
            Expr::Not(inner) => e@ == ExprModel::Not(Box::new((*inner)@)),
            Expr::Binary(left, op, right) => e@ == ExprModel::Binary(
                Box::new((*left)@),
                op,
                Box::new((*right)@),
            ),
            Expr::Like(inner, pattern) => e@ == ExprModel::Like(Box::new((*inner)@), pattern@),
            Expr::Call(function, args) => {
                &&& e@ is Call
                &&& e@->Call_0 == function@
                &&& e@->Call_1.len() == args@.len()
                &&& forall|i: int|
                    0 <= i < args@.len() ==> #[trigger] e@->Call_1[i] == args@[i]@
            },
        },
{
}

/// **A policy's model has its filters, in order, and its masks, by column.**
pub proof fn law_policy_models_are_faithful(policy: TablePolicy, i: int, column: Seq<char>)
    ensures
        policy@.row_filters.len() == policy.row_filters@.len(),
        0 <= i < policy.row_filters@.len() ==> policy@.row_filters[i] == policy.row_filters@[i]@,
        policy@.column_masks.contains_key(column) == policy.column_masks@.contains_key(column),
        policy.column_masks@.contains_key(column) ==> policy@.column_masks[column]
            == policy.column_masks@[column]@,
{
}

/// **A policy constrains where it has a filter or a mask.**
pub proof fn law_a_filter_or_a_mask_is_something(policy: PolicyModel)
    ensures
        policy.nothing() <==> policy.row_filters.len() == 0 && forall|column: Seq<char>|
            !#[trigger] policy.column_masks.contains_key(column),
{
    if forall|column: Seq<char>| !#[trigger] policy.column_masks.contains_key(column) {
        assert(policy.column_masks =~= Map::<Seq<char>, ExprModel>::empty());
    }
}

/// **A projection's item is the column, or the mask in its place.**
pub proof fn law_item_models_are_faithful(items: Seq<ProjectionItem>, i: int)
    requires
        0 <= i < items.len(),
    ensures
        item_models(items).len() == items.len(),
        match items[i] {
            ProjectionItem::Keep { qualifier, name } => {
                &&& item_models(items)[i] is Keep
                &&& item_models(items)[i]->Keep_name == name@
                &&& (item_models(items)[i]->Keep_qualifier is Some) == (qualifier is Some)
                &&& qualifier is Some ==> item_models(items)[i]->Keep_qualifier->0
                    == qualifier->0@
            },
            ProjectionItem::Mask { mask, data_type, qualifier, name } => {
                &&& item_models(items)[i] is Mask
                &&& item_models(items)[i]->mask == mask@
                &&& item_models(items)[i]->data_type == data_type@
                &&& item_models(items)[i]->Mask_name == name@
                &&& (item_models(items)[i]->Mask_qualifier is Some) == (qualifier is Some)
                &&& qualifier is Some ==> item_models(items)[i]->Mask_qualifier->0
                    == qualifier->0@
            },
        },
{
}

/// **A node's model says what the node does, and to what.**
pub proof fn law_node_models_are_faithful(node: PlanNode)
    ensures
        match node {
            PlanNode::TableScan { table, fields } => node@ == (NodeModel::TableScan {
                table: table@,
                fields: field_models(fields@),
            }),
            PlanNode::CreateExternalTable(table) => node@ == NodeModel::CreateExternalTable(table@),
            PlanNode::CreateMemoryTable(table) => node@ == NodeModel::CreateMemoryTable(table@),
            PlanNode::OtherDdl(name) => node@ == NodeModel::OtherDdl(name@),
            PlanNode::Write { table, op } => node@ == (NodeModel::Write { table: table@, op }),
            PlanNode::Extension { name, explained } => node@ == (NodeModel::Extension {
                name: name@,
                explained: explained@,
            }),
            PlanNode::Projection(items) => node@ == NodeModel::Projection(item_models(items@)),
            PlanNode::Filter(predicate) => node@ == NodeModel::Filter(predicate@),
            PlanNode::Other(name) => node@ == NodeModel::Other(name@),
        },
{
}

/// **A plan's model has its node, its subqueries and its inputs, none left out.**
pub proof fn law_plan_models_are_faithful(plan: Plan, i: int)
    ensures
        plan@.node == plan.node@,
        plan@.subqueries.len() == plan.subqueries@.len(),
        plan@.inputs.len() == plan.inputs@.len(),
        0 <= i < plan.subqueries@.len() ==> plan@.subqueries[i] == plan.subqueries@[i]@,
        0 <= i < plan.inputs@.len() ==> plan@.inputs[i] == plan.inputs@[i]@,
{
    lemma_plan_view(plan);
}

/// **An action's model names what the action touches.**
pub proof fn law_action_models_are_faithful(actions: Seq<PlanAction>, i: int)
    requires
        0 <= i < actions.len(),
    ensures
        action_models(actions).len() == actions.len(),
        match actions[i] {
            PlanAction::ReadTable(table, columns) => action_models(actions)[i]
                == ActionModel::ReadTable(table@, texts(columns@)),
            PlanAction::WriteTable(table) => action_models(actions)[i] == ActionModel::WriteTable(
                table@,
            ),
            PlanAction::CreateTable(table) => action_models(actions)[i]
                == ActionModel::CreateTable(table@),
            PlanAction::UnityDdl { action, resource_type, name } => action_models(actions)[i] == (
            ActionModel::UnityDdl {
                action: action@,
                resource_type: resource_type@,
                name: name@,
            }),
            PlanAction::DenyUnsupported(what) => action_models(actions)[i]
                == ActionModel::DenyUnsupported(what@),
        },
{
}

/// **A residual's model has its shape and its parts.**
pub proof fn law_residual_models_are_faithful(e: ResidualExpr)
    ensures
        match e {
            ResidualExpr::Bool(b) => e@ == ResidualModel::Bool(b),
            ResidualExpr::Long(n) => e@ == ResidualModel::Long(n as int),
            ResidualExpr::Text(s) => e@ == ResidualModel::Text(s@),
            ResidualExpr::Entity(name) => e@ is Entity && e@->Entity_0.entity_type
                == name.entity_type@ && e@->Entity_0.id == name.id@,
            ResidualExpr::OtherLiteral => e@ == ResidualModel::OtherLiteral,
            ResidualExpr::Resource => e@ == ResidualModel::Resource,
            ResidualExpr::Unknown(name) => e@ == ResidualModel::Unknown(name@),
            ResidualExpr::GetAttr(base, attr) => e@ == ResidualModel::GetAttr(
                Box::new((*base)@),
                attr@,
            ),
            ResidualExpr::Not(inner) => e@ == ResidualModel::Not(Box::new((*inner)@)),
            ResidualExpr::OtherUnary => e@ == ResidualModel::OtherUnary,
            ResidualExpr::Binary(op, left, right) => e@ == ResidualModel::Binary(
                op,
                Box::new((*left)@),
                Box::new((*right)@),
            ),
            ResidualExpr::Like(inner, pattern) => e@ == ResidualModel::Like(
                Box::new((*inner)@),
                pattern@,
            ),
            ResidualExpr::Other => e@ == ResidualModel::Other,
        },
{
}

/// **A clause's model is its kind and its condition.**
pub proof fn law_clause_models_are_faithful(clause: Clause)
    ensures
        clause@ == (ClauseModel { unless: clause.unless, condition: clause.condition@ }),
{
}

/// **A clause list's model is its clauses, in order.**
pub proof fn law_clause_lists_are_faithful(clauses: Seq<Clause>, i: int)
    requires
        0 <= i < clauses.len(),
    ensures
        clause_models(clauses).len() == clauses.len(),
        clause_models(clauses)[i].unless == clauses[i].unless,
        clause_models(clauses)[i].condition == clauses[i].condition@,
{
}

/// **A scan's model is its table and its columns.**
pub proof fn law_scan_models_are_faithful(scans: Seq<Scan>, i: int)
    requires
        0 <= i < scans.len(),
    ensures
        scan_models(scans).len() == scans.len(),
        scan_models(scans)[i].table == scans[i].table@,
        scan_models(scans)[i].fields == field_models(scans[i].fields@),
{
}

/// **The last policy set for a table is its policy**, and other tables keep theirs.
pub proof fn law_the_last_policy_set_counts(
    entries: Seq<(TableReference, TablePolicy)>,
    table: TableReference,
    policy: TablePolicy,
    other: Seq<Seq<char>>,
)
    ensures
        entry_policies(Seq::empty()) == Map::<Seq<Seq<char>>, PolicyModel>::empty(),
        ({
            let before = entry_policies(entries);
            let after = entry_policies(entries.push((table, policy)));
            &&& after.contains_key(table@)
            &&& after[table@] == policy@
            &&& other != table@ ==> after.contains_key(other) == before.contains_key(other)
            &&& other != table@ && before.contains_key(other) ==> after[other] == before[other]
        }),
{
    assert(entries.push((table, policy)).drop_last() =~= entries);
}

/// **A row rule's model is its filters, in order, or that every row is hidden.**
pub proof fn law_row_rules_are_faithful(rule: RowRule, i: int)
    ensures
        match rule {
            RowRule::DenyAll => rule@ == RowModel::DenyAll,
            RowRule::Filters(filters) => {
                &&& rule@ is Filters
                &&& rule@->Filters_0.len() == filters@.len()
                &&& 0 <= i < filters@.len() ==> rule@->Filters_0[i] == filters@[i]@
            },
        },
{
}

/// **A mask rule's model is its function and its arguments, in order, or the default.**
pub proof fn law_mask_rules_are_faithful(rule: MaskRule, i: int)
    ensures
        match rule {
            MaskRule::Default => rule@ == MaskModel::Default,
            MaskRule::Call { function, extra } => {
                &&& rule@ is Call
                &&& rule@->function == function@
                &&& rule@->extra.len() == extra@.len()
                &&& 0 <= i < extra@.len() ==> rule@->extra[i] == extra@[i]@
            },
        },
{
}

/// **Translations are taken one by one, in order.**
pub proof fn law_translation_lists_are_faithful(
    results: Seq<Result<Option<Expr>, ResidualError>>,
    i: int,
)
    requires
        0 <= i < results.len(),
    ensures
        outcomes(results).len() == results.len(),
        outcomes(results)[i] == outcome(results[i]),
{
}

/// **The last value given under a name counts**, and other names keep theirs.
pub proof fn law_the_last_value_given_counts(
    list: Seq<(String, RestrictedExpression)>,
    name: String,
    value: RestrictedExpression,
    other: Seq<char>,
)
    ensures
        pair_map(Seq::empty()) == Map::<Seq<char>, RestrictedExpression>::empty(),
        ({
            let before = pair_map(list);
            let after = pair_map(list.push((name, value)));
            &&& after.contains_key(name@)
            &&& after[name@] == value
            &&& other != name@ ==> after.contains_key(other) == before.contains_key(other)
            &&& other != name@ && before.contains_key(other) ==> after[other] == before[other]
        }),
        pairs(list.push((name, value))) == pairs(list).push((name@, value)),
        pairs(list).len() == list.len(),
{
    assert(list.push((name, value)).drop_last() =~= list);
    assert(pairs(list.push((name, value))) =~= pairs(list).push((name@, value)));
}

/// **An error says what it is about.** Each text names the principal, the uid, the
/// function or the posture that it is about, and hands on the reason it was given.
pub proof fn law_errors_say_what_they_are_about(e: PolicyError)
    ensures
        match e {
            PolicyError::NoFunctionResolver { policy, function } => e.text()
                == "row-filter policy "@ + debug_text(policy@) + " names function "@ + debug_text(
                function@,
            )
                + " but no CatalogFunctionResolver is wired; refusing to run the query unfiltered (fail-closed)"@,
            PolicyError::UnresolvedFunction(reason) => e.text() == reason@,
            PolicyError::InvalidUid { uid, reason } => e.text()
                == "invalid principal/entity uid '"@ + uid@ + "': "@ + reason@,
            PolicyError::Engine(reason) => e.text() == reason@,
            PolicyError::NoEngine(posture) => e.text() == "Governance posture "@ + match posture {
                Posture::Disabled => "Disabled"@,
                Posture::Permissive => "Permissive"@,
                Posture::Enforcing => "Enforcing"@,
            } + " requires a policy engine; none was set"@,
            PolicyError::Enrichment { principal, reason } => e.text()
                == "identity enrichment failed for '"@ + principal@ + "': "@ + reason@,
            PolicyError::NoPrincipal => e.text()
                == "no principal bound to session; cannot authorize query"@,
            PolicyError::NotAuthorized(principal) => e.text() == "Principal '"@ + principal@
                + "' is not authorized to execute this query"@,
            PolicyError::NoEngineForTable => e.text()
                == "no policy engine bound to session config; cannot govern table"@,
            PolicyError::NoPrincipalForTable => e.text()
                == "no principal bound to session config; cannot govern table"@,
        },
{
}

/// **A bad uid is named, with the engine's reason.**
pub proof fn law_bad_uids_are_named(e: PolicyError, uid: Seq<char>)
    ensures
        e.names_uid(uid) <==> e is InvalidUid && e->uid@ == uid && e->InvalidUid_reason@
            == uid_fault(uid),
{
}

/// **An identity error hands on the provider's reason.**
pub proof fn law_identity_errors_hand_on_the_reason(e: IdentityError)
    ensures
        match e {
            IdentityError::Provider(reason) => e.text() == "identity provider error: "@ + reason@,
        },
{
}

} // verus!
