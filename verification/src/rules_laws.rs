//! How doubt, denial and leftover policies turn into the rules of a table.

use cedar_policy::{Context, Policy, PolicySet, Schema};
use vstd::multiset::Multiset;
use vstd::prelude::*;

use crate::abac::callable;
use crate::cedar::{sorted_by_effect, table_decision, table_leftovers, tagged, TableQuery};
use crate::cedar_gate::{can_ask, first_fault, request_fault};
use crate::cedar_rules::{
    any_fault, any_total, candidates, constrains, enforces, fires, first_firing, masked_by,
    permitted, predicates, row_predicate_of, row_rule_of, rows_from, rules_follow,
    table_resource, union_of, RowModel, TableRules,
};
use crate::entity_laws::law_tagged_columns_are_found_one_by_one;
use crate::error::PolicyError;
use crate::expr::{ExprModel, Operator, Value};
use crate::facts::{EvalContext, TableFacts};
use crate::function::ResolvedFunctions;
use crate::names::texts;
use crate::outside::{
    annotation_of, effect_of, policies_of, policy_of, typed_uid_of, uid_of, PolicyEffect,
};
use crate::plan_actions::ActionModel;
use crate::policy::PolicyModel;
use crate::principal::PrincipalIdentity;
use crate::query_laws::law_row_functions_are_those_named;
use crate::residual::EntityModel;
use crate::table::{dotted, TableReference};
use crate::translate::FaultModel;
use crate::types::Decision;

verus! {

// ---------------------------------------------------------------------------
// Rows
// ---------------------------------------------------------------------------

/// The filter that no row passes.
pub open spec fn nothing_passes() -> ExprModel {
    ExprModel::Literal(Value::Boolean(false))
}

/// **Denial comes first, permission next, doubt last.** The rows of a table are hidden
/// where a forbid is left over or the table is denied; else they are shown where it is
/// allowed; else they go by the permits left over.
pub proof fn law_denial_comes_first(
    decision: Option<Decision>,
    forbidden: bool,
    results: Seq<Result<Option<ExprModel>, FaultModel>>,
)
    ensures
        forbidden ==> row_rule_of(decision, forbidden, results) == RowModel::DenyAll,
        decision == Some(Decision::Deny) ==> row_rule_of(decision, forbidden, results)
            == RowModel::DenyAll,
        !forbidden && decision == Some(Decision::Allow) ==> row_rule_of(
            decision,
            forbidden,
            results,
        ) == RowModel::Filters(Seq::empty()),
        !forbidden && decision is None ==> row_rule_of(decision, forbidden, results)
            == RowModel::Filters(permitted(results)),
{
}

/// **One permit that cannot be translated hides every row**, wherever it stands among
/// the others.
pub proof fn law_one_faulty_permit_hides_every_row(
    results: Seq<Result<Option<ExprModel>, FaultModel>>,
    i: int,
)
    requires
        0 <= i < results.len(),
        results[i] is Err,
    ensures
        permitted(results) == seq![nothing_passes()],
{
}

/// **One permit that holds of every row shows every row**, where the others can be
/// translated.
pub proof fn law_one_total_permit_shows_every_row(
    results: Seq<Result<Option<ExprModel>, FaultModel>>,
    i: int,
)
    requires
        forall|j: int| 0 <= j < results.len() ==> (#[trigger] results[j]) is Ok,
        0 <= i < results.len(),
        results[i] == Ok::<Option<ExprModel>, FaultModel>(None),
    ensures
        permitted(results) == Seq::<ExprModel>::empty(),
{
    assert(!any_fault(results));
    assert(any_total(results));
}

/// **Each further permit is joined by `OR`.** Of permits that each have a predicate the
/// first is the filter, each further one widens it, and none leaves no filter.
pub proof fn law_permits_are_joined_one_by_one(
    results: Seq<Result<Option<ExprModel>, FaultModel>>,
    next: ExprModel,
)
    requires
        forall|j: int|
            0 <= j < results.len() ==> (#[trigger] results[j]) is Ok && results[j]->Ok_0 is Some,
    ensures
        permitted(Seq::empty()) == Seq::<ExprModel>::empty(),
        ({
            let before = permitted(results);
            let after = permitted(
                results.push(Ok::<Option<ExprModel>, FaultModel>(Some(next))),
            );
            &&& results.len() == 0 ==> after == seq![next]
            &&& results.len() > 0 ==> before.len() == 1 && after == seq![
                ExprModel::Binary(Box::new(before[0]), Operator::Or, Box::new(next)),
            ]
        }),
{
    let last = Ok::<Option<ExprModel>, FaultModel>(Some(next));
    let none = Ok::<Option<ExprModel>, FaultModel>(None);
    let more = results.push(last);
    assert(more.drop_last() =~= results);
    assert(more.last() == last);
    assert forall|j: int| 0 <= j < more.len() implies (#[trigger] more[j]) is Ok && more[j]->Ok_0
        is Some by {
        if j < results.len() {
            assert(more[j] == results[j]);
        }
    }
    assert(!any_fault(results) && !any_fault(more));
    assert(!any_total(results)) by {
        if any_total(results) {
            let j = choose|j: int| 0 <= j < results.len() && #[trigger] results[j] == none;
            assert(results[j]->Ok_0 is Some);
        }
    }
    assert(!any_total(more)) by {
        if any_total(more) {
            let j = choose|j: int| 0 <= j < more.len() && #[trigger] more[j] == none;
            assert(more[j]->Ok_0 is Some);
        }
    }
    lemma_some_union(results);
    let empty = Seq::<Result<Option<ExprModel>, FaultModel>>::empty();
    assert(!any_fault(empty) && !any_total(empty));
}

proof fn lemma_some_union(results: Seq<Result<Option<ExprModel>, FaultModel>>)
    requires
        forall|j: int|
            0 <= j < results.len() ==> (#[trigger] results[j]) is Ok && results[j]->Ok_0 is Some,
    ensures
        union_of(results) is Some <==> results.len() > 0,
    decreases results.len(),
{
    if results.len() > 0 {
        let before = results.drop_last();
        assert forall|j: int| 0 <= j < before.len() implies (#[trigger] before[j]) is Ok
            && before[j]->Ok_0 is Some by {
            assert(before[j] == results[j]);
        }
        lemma_some_union(before);
        assert(results[results.len() - 1] == results.last());
    }
}

/// **Sorting by effect loses nothing.** Each policy is found among the permits and the
/// forbids together as often as among all, the permits are permits, and the forbids are
/// forbids.
pub proof fn law_sorting_by_effect_loses_nothing(
    permits: Seq<Policy>,
    forbids: Seq<Policy>,
    all: Multiset<Policy>,
    p: Policy,
)
    requires
        sorted_by_effect(permits, forbids, all),
    ensures
        all.count(p) == permits.to_multiset().count(p) + forbids.to_multiset().count(p),
        permits.contains(p) <==> all.contains(p) && effect_of(p) == PolicyEffect::Permit,
        forbids.contains(p) <==> all.contains(p) && effect_of(p) == PolicyEffect::Forbid,
{
    broadcast use vstd::seq_lib::group_to_multiset_ensures;
    broadcast use vstd::multiset::group_multiset_axioms;

    assert(permits.contains(p) == (permits.to_multiset().count(p) > 0));
    assert(forbids.contains(p) == (forbids.to_multiset().count(p) > 0));
    if permits.contains(p) {
        assert(effect_of(permits[permits.index_of(p)]) == PolicyEffect::Permit);
    }
    if forbids.contains(p) {
        assert(effect_of(forbids[forbids.index_of(p)]) == PolicyEffect::Forbid);
    }
}

/// Whether a forbid is left over.
pub open spec fn forbid_left(q: TableQuery) -> bool {
    exists|p: Policy| #[trigger]
        table_leftovers(q).contains(p) && effect_of(p) == PolicyEffect::Forbid
}

proof fn lemma_rows(q: TableQuery, columns: Seq<Seq<char>>, rules: TableRules) -> (found: (
    Seq<Policy>,
    Seq<Policy>,
))
    requires
        rules_follow(q, columns, rules),
        table_decision(q) is Some,
    ensures
        rows_from(
            q,
            found.0,
            found.1,
            table_decision(q)->0,
            rules.rows@,
            texts(rules.row_functions@),
        ),
        found.1.len() > 0 <==> forbid_left(q),
{
    let decision = table_decision(q)->0;
    let found = choose|found: (Seq<Policy>, Seq<Policy>)|
        rows_from(q, found.0, found.1, decision, rules.rows@, texts(rules.row_functions@));
    let (a, b) = choose|permits: Seq<Policy>, forbids: Seq<Policy>|
        rows_from(q, permits, forbids, decision, rules.rows@, texts(rules.row_functions@));
    assert(rows_from(q, (a, b).0, (a, b).1, decision, rules.rows@, texts(rules.row_functions@)));
    if found.1.len() > 0 {
        let p = found.1[0];
        assert(found.1.contains(p));
        law_sorting_by_effect_loses_nothing(found.0, found.1, table_leftovers(q), p);
        assert(table_leftovers(q).contains(p));
    }
    if forbid_left(q) {
        let p = choose|p: Policy| #[trigger]
            table_leftovers(q).contains(p) && effect_of(p) == PolicyEffect::Forbid;
        law_sorting_by_effect_loses_nothing(found.0, found.1, table_leftovers(q), p);
    }
    found
}

/// **A denied table is denied outright.** Its rows are denied exactly where evaluation
/// denies them or leaves a forbid over. Then no row passes and nothing needs a mask.
pub proof fn law_denied_tables_are_denied_outright(
    q: TableQuery,
    columns: Seq<Seq<char>>,
    rules: TableRules,
    policy: PolicyModel,
    resolver: Option<ResolvedFunctions>,
)
    requires
        rules_follow(q, columns, rules),
        enforces(policy, rules, resolver),
    ensures
        rules.rows is DenyAll <==> table_decision(q) is Some && (table_decision(q)->0 == Some(
            Decision::Deny,
        ) || forbid_left(q)),
        rules.rows is DenyAll ==> policy.row_filters == seq![nothing_passes()],
        rules.rows is DenyAll ==> policy.column_masks == Map::<Seq<char>, ExprModel>::empty(),
{
    if table_decision(q) is Some {
        let found = lemma_rows(q, columns, rules);
    }
    if rules.rows is DenyAll {
        assert(policy.column_masks =~= Map::<Seq<char>, ExprModel>::empty());
    }
}

/// **A table that cannot be evaluated shows no row**, and calls no function for it.
pub proof fn law_unevaluated_tables_show_no_row(
    q: TableQuery,
    columns: Seq<Seq<char>>,
    rules: TableRules,
    policy: PolicyModel,
    resolver: Option<ResolvedFunctions>,
)
    requires
        rules_follow(q, columns, rules),
        enforces(policy, rules, resolver),
        table_decision(q) is None,
    ensures
        rules.rows@ == RowModel::Filters(seq![nothing_passes()]),
        rules.row_functions@.len() == 0,
        policy.row_filters == seq![nothing_passes()],
{
    assert(texts(rules.row_functions@).len() == rules.row_functions@.len());
}

/// **A leftover permit that cannot be translated hides every row**, whatever the other
/// permits and the catalog say.
pub proof fn law_a_faulty_leftover_hides_every_row(
    q: TableQuery,
    columns: Seq<Seq<char>>,
    rules: TableRules,
    policy: PolicyModel,
    resolver: Option<ResolvedFunctions>,
    p: Policy,
)
    requires
        rules_follow(q, columns, rules),
        enforces(policy, rules, resolver),
        table_decision(q) == Some(None::<Decision>),
        table_leftovers(q).contains(p),
        effect_of(p) == PolicyEffect::Permit,
        row_predicate_of(
            p,
            Some(EntityModel { entity_type: "Table"@, id: dotted(q.table@) }),
        ) is Err,
    ensures
        policy.row_filters == seq![nothing_passes()],
{
    let (permits, forbids) = lemma_rows(q, columns, rules);
    law_sorting_by_effect_loses_nothing(permits, forbids, table_leftovers(q), p);
    let i = permits.index_of(p);
    let results = predicates(permits, table_resource(q));
    assert(results[i] is Err);
    law_one_faulty_permit_hides_every_row(results, i);
}

/// **The functions looked up for the rows are those of the leftover permits**, where the
/// rows go by these at all.
pub proof fn law_row_functions_are_of_the_leftovers(
    q: TableQuery,
    columns: Seq<Seq<char>>,
    rules: TableRules,
    function: Seq<char>,
)
    requires
        rules_follow(q, columns, rules),
    ensures
        texts(rules.row_functions@).contains(function) <==> {
            &&& table_decision(q) == Some(None::<Decision>)
            &&& !forbid_left(q)
            &&& exists|p: Policy| #[trigger]
                table_leftovers(q).contains(p) && annotation_of(p, "row_filter_fn"@) == Some(
                    function,
                )
        },
{
    let functions = texts(rules.row_functions@);
    if table_decision(q) is Some {
        let (permits, forbids) = lemma_rows(q, columns, rules);
        let named = "row_filter_fn"@;
        if table_decision(q)->0 is None && forbids.len() == 0 {
            law_row_functions_are_those_named(permits, function);
            if functions.contains(function) {
                let i = choose|i: int|
                    0 <= i < permits.len() && annotation_of(#[trigger] permits[i], named) == Some(
                        function,
                    );
                assert(permits.contains(permits[i]));
                law_sorting_by_effect_loses_nothing(
                    permits,
                    forbids,
                    table_leftovers(q),
                    permits[i],
                );
                assert(table_leftovers(q).contains(permits[i]));
            }
            if exists|p: Policy| #[trigger]
                table_leftovers(q).contains(p) && annotation_of(p, named) == Some(function) {
                let p = choose|p: Policy| #[trigger]
                    table_leftovers(q).contains(p) && annotation_of(p, named) == Some(function);
                law_sorting_by_effect_loses_nothing(permits, forbids, table_leftovers(q), p);
                if forbids.contains(p) {
                    assert(forbids.len() > 0);
                }
                assert(permits[permits.index_of(p)] == p);
            }
        }
    }
}

/// **Filters stand where every function of theirs can be called**, and hide every row
/// where one cannot.
pub proof fn law_filters_need_their_functions(
    rules: TableRules,
    policy: PolicyModel,
    resolver: Option<ResolvedFunctions>,
)
    requires
        enforces(policy, rules, resolver),
        rules.rows@ is Filters,
    ensures
        (forall|i: int|
            0 <= i < rules.row_functions@.len() ==> callable(
                resolver,
                (#[trigger] rules.row_functions@[i])@,
            )) ==> policy.row_filters == rules.rows@->Filters_0,
        (exists|i: int|
            0 <= i < rules.row_functions@.len() && !callable(
                resolver,
                (#[trigger] rules.row_functions@[i])@,
            )) ==> policy.row_filters == seq![nothing_passes()],
{
    let functions = texts(rules.row_functions@);
    if exists|i: int|
        0 <= i < rules.row_functions@.len() && !callable(
            resolver,
            (#[trigger] rules.row_functions@[i])@,
        ) {
        let i = choose|i: int|
            0 <= i < rules.row_functions@.len() && !callable(
                resolver,
                (#[trigger] rules.row_functions@[i])@,
            );
        assert(!callable(resolver, functions[i]));
    }
    if forall|i: int|
        0 <= i < rules.row_functions@.len() ==> callable(
            resolver,
            (#[trigger] rules.row_functions@[i])@,
        ) {
        assert forall|i: int| 0 <= i < functions.len() implies callable(
            resolver,
            #[trigger] functions[i],
        ) by {
            assert(functions[i] == rules.row_functions@[i]@);
        }
    }
}

// ---------------------------------------------------------------------------
// Masks
// ---------------------------------------------------------------------------

/// **A policy masks the columns that its rules mask.**
pub proof fn law_masks_are_those_of_the_rules(
    rules: TableRules,
    policy: PolicyModel,
    resolver: Option<ResolvedFunctions>,
    column: Seq<char>,
)
    requires
        enforces(policy, rules, resolver),
    ensures
        policy.column_masks.contains_key(column) <==> rules.masks@.contains_key(column),
{
    assert(policy.column_masks.dom().contains(column) == rules.masks@.dom().contains(column));
}

/// **Tagged columns of the scan can be masked, and no other.**
pub proof fn law_tagged_columns_can_be_masked(
    q: TableQuery,
    columns: Seq<Seq<char>>,
    column: Seq<char>,
)
    ensures
        candidates(q, columns).contains(column) <==> {
            &&& q.facts is Some
            &&& columns.contains(column)
            &&& q.facts->0.governed_column_tags@.contains_key(column)
            &&& exists|key: Seq<char>| #[trigger]
                q.facts->0.governed_column_tags@[column]@.contains_key(key)
        },
{
    if q.facts is Some {
        lemma_candidates(*q.facts->0, columns, column);
    }
}

proof fn lemma_candidates(facts: TableFacts, columns: Seq<Seq<char>>, column: Seq<char>)
    ensures
        tagged(facts, columns).contains(column) <==> {
            &&& columns.contains(column)
            &&& facts.governed_column_tags@.contains_key(column)
            &&& exists|key: Seq<char>| #[trigger]
                facts.governed_column_tags@[column]@.contains_key(key)
        },
    decreases columns.len(),
{
    if columns.len() > 0 {
        let front = columns.drop_last();
        let last = columns.last();
        lemma_candidates(facts, front, column);
        assert(columns =~= front + seq![last]);
        law_tagged_columns_are_found_one_by_one(facts, front, seq![last], last);
        crate::entity_laws::law_one_tag_is_enough(facts, last);
        let before = tagged(facts, front);
        let own = tagged(facts, seq![last]);
        assert(columns.contains(column) == (front.contains(column) || column == last)) by {
            if front.contains(column) {
                assert(columns[front.index_of(column)] == column);
            }
            if columns.contains(column) && column != last {
                assert(front[columns.index_of(column)] == column);
            }
            assert(columns[columns.len() - 1] == last);
        }
        assert((before + own).contains(column) == (before.contains(column) || own.contains(
            column,
        ))) by {
            let both = before + own;
            if before.contains(column) {
                assert(both[before.index_of(column)] == column);
            }
            if own.contains(column) {
                assert(both[before.len() + own.index_of(column)] == column);
            }
            if both.contains(column) {
                let k = both.index_of(column);
                if k < before.len() {
                    assert(before[k] == column);
                } else {
                    assert(own[k - before.len()] == column);
                }
            }
        }
        if own.len() > 0 {
            assert(own[0] == last);
        }
        assert(own.contains(column) == (own.len() > 0 && column == last));
    }
}

/// **A forbid that cannot be tried settles nothing.** Where the column's entity, the
/// principal's uid, the action's uid or the blanket permit is missing, no forbid can be
/// tried and the column stays in doubt.
pub proof fn law_untried_columns_stay_in_doubt(q: TableQuery, column: Seq<char>, policy: Policy)
    requires
        typed_uid_of("Action"@, "read_column"@) is None || typed_uid_of(
            "Column"@,
            dotted(q.table@) + seq!['.'] + column,
        ) is None || uid_of(q.principal.uid@) is None || policy_of(
            "permit(principal, action == Action::\"read_column\", resource);"@,
        ) is None,
    ensures
        fires(q, column, policy) is None,
        masked_by(q, column) is None,
{
    reveal_strlit(".");
    assert("."@ =~= seq!['.']);
}

/// **The first forbid that cannot be tried leaves the column in doubt**, where none
/// before it masks the column.
pub proof fn law_a_forbid_in_doubt_leaves_doubt(q: TableQuery, column: Seq<char>, i: int)
    requires
        0 <= i < policies_of(*q.policies).len(),
        effect_of(policies_of(*q.policies)[i]) == PolicyEffect::Forbid,
        fires(q, column, policies_of(*q.policies)[i]) is None,
        forall|j: int|
            0 <= j < i && effect_of(policies_of(*q.policies)[j]) == PolicyEffect::Forbid ==> fires(
                q,
                column,
                #[trigger] policies_of(*q.policies)[j],
            ) == Some(false),
    ensures
        masked_by(q, column) is None,
{
    lemma_in_doubt(q, column, policies_of(*q.policies), i);
}

proof fn lemma_in_doubt(q: TableQuery, column: Seq<char>, list: Seq<Policy>, i: int)
    requires
        0 <= i < list.len(),
        effect_of(list[i]) == PolicyEffect::Forbid,
        fires(q, column, list[i]) is None,
        forall|j: int|
            0 <= j < i && effect_of(list[j]) == PolicyEffect::Forbid ==> fires(
                q,
                column,
                #[trigger] list[j],
            ) == Some(false),
    ensures
        first_firing(q, column, list) is None,
    decreases list.len(),
{
    if i > 0 {
        let rest = list.drop_first();
        assert(rest[i - 1] == list[i]);
        assert(list[0] == list[0]);
        assert forall|j: int|
            0 <= j < i - 1 && effect_of(rest[j]) == PolicyEffect::Forbid implies fires(
            q,
            column,
            #[trigger] rest[j],
        ) == Some(false) by {
            assert(rest[j] == list[j + 1]);
        }
        lemma_in_doubt(q, column, rest, i - 1);
    }
}

/// **The functions to look up are those of the rows and those of the masks.**
pub proof fn law_rules_name_row_and_mask_functions(rules: TableRules, function: Seq<char>)
    ensures
        rules.names(function) <==> {
            ||| exists|i: int|
                0 <= i < rules.row_functions@.len() && (#[trigger] rules.row_functions@[i])@
                    == function
            ||| exists|c: Seq<char>| #[trigger]
                rules.masks@.contains_key(c) && rules.masks@[c]@ is Call
                    && rules.masks@[c]@->function == function
        },
{
    let functions = texts(rules.row_functions@);
    if functions.contains(function) {
        let i = functions.index_of(function);
        assert(rules.row_functions@[i]@ == function);
    }
    if exists|i: int|
        0 <= i < rules.row_functions@.len() && (#[trigger] rules.row_functions@[i])@ == function {
        let i = choose|i: int|
            0 <= i < rules.row_functions@.len() && (#[trigger] rules.row_functions@[i])@
                == function;
        assert(functions[i] == function);
    }
}

// ---------------------------------------------------------------------------
// Tables
// ---------------------------------------------------------------------------

/// **A table is constrained by its own rules, on what is recorded of it.** Without a
/// schema every row is hidden.
pub proof fn law_tables_are_constrained_by_their_rules(
    policy: PolicyModel,
    policies: &PolicySet,
    schema: Option<&Schema>,
    context: &Context,
    table: &TableReference,
    columns: Seq<Seq<char>>,
    principal: &PrincipalIdentity,
    eval: &EvalContext,
    facts: Option<&TableFacts>,
)
    requires
        constrains(policy, policies, schema, context, table, columns, principal, eval),
        eval.catalog_facts.facts().contains_key(dotted(table@)) <==> facts is Some,
        facts is Some ==> *facts->0 == eval.catalog_facts.facts()[dotted(table@)],
    ensures
        schema is None ==> policy.row_filters == seq![nothing_passes()] && policy.column_masks
            == Map::<Seq<char>, ExprModel>::empty(),
        schema is Some ==> exists|rules: TableRules|
            #![trigger rules_follow(TableQuery { policies, schema: schema->0, context, table, principal, facts }, columns, rules)]
            rules_follow(
                TableQuery { policies, schema: schema->0, context, table, principal, facts },
                columns,
                rules,
            ) && enforces(policy, rules, eval.function_resolver),
{
    if schema is Some {
        let own = crate::cedar_rules::facts_of(eval, table@);
        assert(own == facts);
        let q = TableQuery { policies, schema: schema->0, context, table, principal, facts: own };
        let rules = choose|rules: TableRules|
            #![trigger rules_follow(q, columns, rules)]
            rules_follow(q, columns, rules) && enforces(policy, rules, eval.function_resolver);
        assert(rules_follow(
            TableQuery { policies, schema: schema->0, context, table, principal, facts },
            columns,
            rules,
        ));
    }
}

/// **A request that cannot be built says why.** A principal whose uid is no uid is named,
/// where the action and the resource have one; all else is the engine's error.
pub proof fn law_faults_name_the_principal(
    principal: PrincipalIdentity,
    action: Seq<char>,
    resource_type: Seq<char>,
    name: Seq<char>,
    e: PolicyError,
)
    requires
        request_fault(principal, action, resource_type, name, e),
    ensures
        typed_uid_of("Action"@, action) is Some && typed_uid_of(resource_type, name) is Some
            && uid_of(principal.uid@) is None ==> e is InvalidUid && e->InvalidUid_uid@ == principal.uid@,
        !(typed_uid_of("Action"@, action) is Some && typed_uid_of(resource_type, name) is Some
            && uid_of(principal.uid@) is None) ==> e is Engine,
{
}

/// **The first request that cannot be built fails the plan.** It is of an action that can
/// be asked about at all, and every request before it can be built.
pub proof fn law_the_first_fault_fails_the_plan(
    actions: Seq<ActionModel>,
    principal: PrincipalIdentity,
    contexts: Seq<Context>,
    i: int,
    e: PolicyError,
    j: int,
)
    requires
        first_fault(actions, principal, contexts, i, e),
    ensures
        0 <= i < actions.len(),
        !can_ask(actions[i], principal, contexts[i]),
        !(actions[i] is DenyUnsupported),
        0 <= j < i ==> can_ask(actions[j], principal, contexts[j]),
        match actions[i] {
            ActionModel::ReadTable(table, _) => request_fault(
                principal,
                "read_table"@,
                "Table"@,
                dotted(table),
                e,
            ),
            ActionModel::WriteTable(table) => request_fault(
                principal,
                "write_table"@,
                "Table"@,
                dotted(table),
                e,
            ),
            ActionModel::CreateTable(table) => request_fault(
                principal,
                "create_table"@,
                "Table"@,
                dotted(table),
                e,
            ),
            ActionModel::UnityDdl { action, resource_type, name } => request_fault(
                principal,
                action,
                resource_type,
                name,
                e,
            ),
            ActionModel::DenyUnsupported(_) => true,
        },
{
}

} // verus!
