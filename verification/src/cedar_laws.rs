//! What holds of the Cedar engine's rules, whatever the policies.

use cedar_policy::{Context, Policy};
use vstd::multiset::Multiset;
use vstd::prelude::*;

use crate::abac::callable;
use crate::cedar::{
    is_tagged, known_pair, principal_partial, sorted_by_effect, table_decision, table_leftovers,
    tagged, TableQuery,
};
use crate::cedar_gate::{lowers_to, PlanRequest};
use crate::cedar_rules::{
    any_fault, any_total, candidates, column_partial, column_request, column_rule, enforces, fires,
    first_firing, masked_by, never, permitted, probe_of, replacement, rows_from, rules_follow,
    union_of, MaskModel, RowModel, TableRules,
};
use crate::expr::{ExprModel, Value};
use crate::function::ResolvedFunctions;
use crate::govern_laws::{has_node, law_every_node_is_classified};
use crate::meaning::{expr_value, Row};
use crate::names::texts;
use crate::outside::{decision_of, effect_of, policies_of, PolicyEffect};
use crate::plan::{NodeModel, PlanModel};
use crate::plan_actions::{actions_of, node_action};
use crate::policy::PolicyModel;
use crate::principal::PrincipalIdentity;
use crate::translate::FaultModel;
use crate::types::Decision;

verus! {

/// Whether a predicate holds of a row.
pub open spec fn holds(e: ExprModel, row: Row) -> bool {
    expr_value(e, row) == Some(Value::Boolean(true))
}

/// Whether a row passes every filter.
pub open spec fn passes(filters: Seq<ExprModel>, row: Row) -> bool {
    forall|i: int| 0 <= i < filters.len() ==> holds(#[trigger] filters[i], row)
}

/// Whether a permit that was left over lets a row through.
pub open spec fn lets_through(result: Result<Option<ExprModel>, FaultModel>, row: Row) -> bool {
    match result {
        Ok(Some(e)) => holds(e, row),
        Ok(None) => true,
        Err(_) => false,
    }
}

/// Whether one of the permits that were left over lets a row through.
pub open spec fn any_lets_through(
    results: Seq<Result<Option<ExprModel>, FaultModel>>,
    row: Row,
) -> bool {
    exists|i: int| 0 <= i < results.len() && lets_through(#[trigger] results[i], row)
}

/// A union of predicates holds where one of them does.
proof fn lemma_union(results: Seq<Result<Option<ExprModel>, FaultModel>>, row: Row)
    requires
        !any_fault(results),
        !any_total(results),
    ensures
        match union_of(results) {
            Some(e) => holds(e, row) == any_lets_through(results, row),
            None => results.len() == 0,
        },
    decreases results.len(),
{
    if results.len() > 0 {
        let before = results.drop_last();
        let n = results.len() - 1;
        assert(!any_fault(before)) by {
            if any_fault(before) {
                let i = choose|i: int| 0 <= i < before.len() && (#[trigger] before[i]) is Err;
                assert(results[i] is Err);
            }
        }
        let t = Ok::<Option<ExprModel>, FaultModel>(None);
        assert(!any_total(before)) by {
            if any_total(before) {
                let i = choose|i: int| 0 <= i < before.len() && #[trigger] before[i] == t;
                assert(results[i] == t);
            }
        }
        assert(!(results[n] is Err));
        assert(results[n] != t);
        lemma_union(before, row);
        assert(any_lets_through(results, row) == (any_lets_through(before, row) || lets_through(
            results[n],
            row,
        ))) by {
            if any_lets_through(before, row) {
                let i = choose|i: int|
                    0 <= i < before.len() && lets_through(#[trigger] before[i], row);
                assert(lets_through(results[i], row));
            }
            if any_lets_through(results, row) {
                let i = choose|i: int|
                    0 <= i < results.len() && lets_through(#[trigger] results[i], row);
                if i < n {
                    assert(lets_through(before[i], row));
                }
            }
        }
        if before.len() == 0 {
            assert(!any_lets_through(before, row));
        }
    }
}

/// Permits are a union: a row passes the filters exactly where one of the permits
/// that were left over lets it through.
pub proof fn law_permits_are_a_union(
    results: Seq<Result<Option<ExprModel>, FaultModel>>,
    row: Row,
)
    requires
        results.len() > 0,
        !any_fault(results),
    ensures
        passes(permitted(results), row) == any_lets_through(results, row),
{
    let t = Ok::<Option<ExprModel>, FaultModel>(None);
    if any_total(results) {
        let i = choose|i: int| 0 <= i < results.len() && #[trigger] results[i] == t;
        assert(lets_through(results[i], row));
    } else {
        lemma_union(results, row);
        let filters = permitted(results);
        assert(filters.len() == 1);
        if passes(filters, row) {
            assert(holds(filters[0], row));
        }
    }
}

/// A permit that cannot be translated hides every row, whatever the others are.
pub proof fn law_an_untranslatable_permit_hides_every_row(
    results: Seq<Result<Option<ExprModel>, FaultModel>>,
    row: Row,
)
    requires
        any_fault(results),
    ensures
        !passes(permitted(results), row),
{
    assert(permitted(results)[0] == never());
    assert(!holds(never(), row));
    assert(!holds(permitted(results)[0], row));
}

/// Which rows pass does not depend on the order in which partial evaluation hands
/// the permits over.
pub proof fn law_order_of_permits_is_immaterial(
    one: Seq<Result<Option<ExprModel>, FaultModel>>,
    other: Seq<Result<Option<ExprModel>, FaultModel>>,
    row: Row,
)
    requires
        one.to_multiset() == other.to_multiset(),
    ensures
        passes(permitted(one), row) == passes(permitted(other), row),
{
    broadcast use vstd::seq_lib::group_to_multiset_ensures;

    assert(one.len() == one.to_multiset().len());
    assert(other.len() == other.to_multiset().len());
    assert(one.len() == other.len());
    assert forall|r: Result<Option<ExprModel>, FaultModel>| one.contains(r) == other.contains(
        r,
    ) by {
        assert(one.contains(r) == (one.to_multiset().count(r) > 0));
        assert(other.contains(r) == (other.to_multiset().count(r) > 0));
    }
    lemma_same_faults(one, other);
    lemma_same_faults(other, one);
    if any_fault(one) {
        law_an_untranslatable_permit_hides_every_row(one, row);
        law_an_untranslatable_permit_hides_every_row(other, row);
    } else if one.len() > 0 {
        law_permits_are_a_union(one, row);
        law_permits_are_a_union(other, row);
        lemma_same_passage(one, other, row);
        lemma_same_passage(other, one, row);
    } else {
        assert(one =~= other);
    }
}

/// Faults are found wherever they stand.
proof fn lemma_same_faults(
    one: Seq<Result<Option<ExprModel>, FaultModel>>,
    other: Seq<Result<Option<ExprModel>, FaultModel>>,
)
    requires
        forall|r: Result<Option<ExprModel>, FaultModel>| one.contains(r) ==> other.contains(r),
    ensures
        any_fault(one) ==> any_fault(other),
{
    if any_fault(one) {
        let i = choose|i: int| 0 <= i < one.len() && (#[trigger] one[i]) is Err;
        assert(one.contains(one[i]));
        assert(other[other.index_of(one[i])] is Err);
    }
}

/// A permit lets a row through wherever it stands.
proof fn lemma_same_passage(
    one: Seq<Result<Option<ExprModel>, FaultModel>>,
    other: Seq<Result<Option<ExprModel>, FaultModel>>,
    row: Row,
)
    requires
        forall|r: Result<Option<ExprModel>, FaultModel>| one.contains(r) ==> other.contains(r),
    ensures
        any_lets_through(one, row) ==> any_lets_through(other, row),
{
    if any_lets_through(one, row) {
        let i = choose|i: int| 0 <= i < one.len() && lets_through(#[trigger] one[i], row);
        assert(one.contains(one[i]));
        assert(lets_through(other[other.index_of(one[i])], row));
    }
}

/// A table hides every row where it cannot be evaluated, where it is denied
/// outright, and where a forbid is left over, whatever permits there are.
pub proof fn law_doubt_hides_every_row(
    q: TableQuery,
    columns: Seq<Seq<char>>,
    rules: TableRules,
    policy: PolicyModel,
    resolver: Option<ResolvedFunctions>,
    row: Row,
)
    requires
        rules_follow(q, columns, rules),
        enforces(policy, rules, resolver),
        ({
            ||| table_decision(q) is None
            ||| table_decision(q) == Some(Some(Decision::Deny))
            ||| exists|p: Policy|
                #[trigger] table_leftovers(q).contains(p) && effect_of(p) == PolicyEffect::Forbid
        }),
    ensures
        !passes(policy.row_filters, row),
{
    if table_decision(q) is Some {
        let decision = table_decision(q)->0;
        let (permits, forbids) = choose|permits: Seq<Policy>, forbids: Seq<Policy>|
            rows_from(
                q,
                permits,
                forbids,
                decision,
                rules.rows@,
                texts(rules.row_functions@),
            );
        if decision != Some(Decision::Deny) {
            let p = choose|p: Policy| #[trigger]
                table_leftovers(q).contains(p) && effect_of(p) == PolicyEffect::Forbid;
            lemma_forbid_is_listed(permits, forbids, table_leftovers(q), p);
        }
        assert(rules.rows@ == RowModel::DenyAll);
    }
    assert(policy.row_filters[0] == never());
    assert(!holds(policy.row_filters[0], row));
}

/// A table that is allowed outright shows every row: permits are a union, and one of
/// them holds of the whole table.
pub proof fn law_allowed_tables_show_every_row(
    q: TableQuery,
    columns: Seq<Seq<char>>,
    rules: TableRules,
    policy: PolicyModel,
    resolver: Option<ResolvedFunctions>,
    row: Row,
)
    requires
        rules_follow(q, columns, rules),
        enforces(policy, rules, resolver),
        table_decision(q) == Some(Some(Decision::Allow)),
        forall|p: Policy| #[trigger]
            table_leftovers(q).contains(p) ==> effect_of(p) == PolicyEffect::Permit,
    ensures
        passes(policy.row_filters, row),
{
    broadcast use vstd::seq_lib::group_to_multiset_ensures;
    broadcast use vstd::multiset::group_multiset_axioms;

    let decision = Some(Decision::Allow);
    let (permits, forbids) = choose|permits: Seq<Policy>, forbids: Seq<Policy>|
        rows_from(q, permits, forbids, decision, rules.rows@, texts(rules.row_functions@));
    assert(rows_from(q, permits, forbids, decision, rules.rows@, texts(rules.row_functions@)));
    if forbids.len() > 0 {
        let p = forbids[0];
        assert(forbids.contains(p));
        assert(forbids.to_multiset().count(p) > 0);
        assert(table_leftovers(q).contains(p));
    }
}

/// A row filter whose function the catalog does not have hides every row.
pub proof fn law_unresolved_row_filter_hides_every_row(
    policy: PolicyModel,
    rules: TableRules,
    resolver: Option<ResolvedFunctions>,
    function: Seq<char>,
    row: Row,
)
    requires
        enforces(policy, rules, resolver),
        texts(rules.row_functions@).contains(function),
        !callable(resolver, function),
    ensures
        !passes(policy.row_filters, row),
{
    let functions = texts(rules.row_functions@);
    assert(functions[functions.index_of(function)] == function);
    assert(policy.row_filters[0] == never());
    assert(!holds(policy.row_filters[0], row));
}

/// A column is readable only where every forbid is settled: beside a permit of every
/// column, each of them was decided, and decided to allow. A forbid that denies, that
/// stays undecided or that cannot be evaluated protects the column.
pub proof fn law_readable_columns_are_allowed(q: TableQuery, column: Seq<char>, i: int)
    requires
        masked_by(q, column) == Some(None::<Policy>),
        0 <= i < policies_of(*q.policies).len(),
        effect_of(policies_of(*q.policies)[i]) == PolicyEffect::Forbid,
    ensures
        ({
            let probe = probe_of(policies_of(*q.policies)[i]);
            let request = column_request(q, column);
            let known = known_pair(principal_partial(q), column_partial(q, column), *q.schema);
            &&& probe is Some && request is Some && known is Some
            &&& decision_of(probe->0, request->0, known->0, *q.schema) == Some(
                Some(Decision::Allow),
            )
        }),
{
    lemma_none_fires(q, column, policies_of(*q.policies), i);
}

proof fn lemma_none_fires(q: TableQuery, column: Seq<char>, list: Seq<Policy>, i: int)
    requires
        first_firing(q, column, list) == Some(None::<Policy>),
        0 <= i < list.len(),
        effect_of(list[i]) == PolicyEffect::Forbid,
    ensures
        fires(q, column, list[i]) == Some(false),
    decreases list.len(),
{
    if i > 0 {
        assert(list.drop_first()[i - 1] == list[i]);
        lemma_none_fires(q, column, list.drop_first(), i - 1);
    }
}

/// A tagged column of the scan that is not masked is readable.
pub proof fn law_unmasked_columns_are_readable(
    q: TableQuery,
    columns: Seq<Seq<char>>,
    rules: TableRules,
    column: Seq<char>,
)
    requires
        rules_follow(q, columns, rules),
        !(rules.rows is DenyAll),
        q.facts is Some,
        columns.contains(column),
        is_tagged(*q.facts->0, column),
        !rules.masks@.contains_key(column),
    ensures
        masked_by(q, column) == Some(None::<Policy>),
{
    lemma_tagged(*q.facts->0, columns, column);
    assert(candidates(q, columns).contains(column));
    assert(column_rule(q, column) is None);
}

/// A forbid among policies sorted by effect is among the forbids.
proof fn lemma_forbid_is_listed(
    permits: Seq<Policy>,
    forbids: Seq<Policy>,
    all: Multiset<Policy>,
    p: Policy,
)
    requires
        sorted_by_effect(permits, forbids, all),
        all.contains(p),
        effect_of(p) == PolicyEffect::Forbid,
    ensures
        forbids.len() > 0,
{
    broadcast use vstd::seq_lib::group_to_multiset_ensures;
    broadcast use vstd::multiset::group_multiset_axioms;

    assert(permits.contains(p) == (permits.to_multiset().count(p) > 0));
    assert(forbids.contains(p) == (forbids.to_multiset().count(p) > 0));
    if permits.contains(p) {
        assert(effect_of(permits[permits.index_of(p)]) == PolicyEffect::Permit);
    }
}

/// The columns that carry governed tags are those that do.
proof fn lemma_tagged(facts: crate::facts::TableFacts, columns: Seq<Seq<char>>, column: Seq<char>)
    ensures
        tagged(facts, columns).contains(column) == (columns.contains(column) && is_tagged(
            facts,
            column,
        )),
    decreases columns.len(),
{
    if columns.len() > 0 {
        let before = columns.drop_last();
        lemma_tagged(facts, before, column);
        let listed = tagged(facts, before);
        assert(columns.contains(column) == (before.contains(column) || columns.last() == column))
            by {
            if before.contains(column) {
                assert(columns[before.index_of(column)] == column);
            }
            if columns.contains(column) {
                let i = columns.index_of(column);
                if i < columns.len() - 1 {
                    assert(before[i] == column);
                }
            }
        }
        if is_tagged(facts, columns.last()) {
            let now = listed.push(columns.last());
            assert(now.contains(column) == (listed.contains(column) || columns.last() == column))
                by {
                if listed.contains(column) {
                    assert(now[listed.index_of(column)] == column);
                }
                if columns.last() == column {
                    assert(now[listed.len() as int] == column);
                }
                if now.contains(column) {
                    let i = now.index_of(column);
                    if i < listed.len() {
                        assert(listed[i] == column);
                    }
                }
            }
        }
    }
}

/// Only columns that the scan reads and that carry governed tags are masked.
pub proof fn law_only_tagged_columns_are_masked(
    q: TableQuery,
    columns: Seq<Seq<char>>,
    rules: TableRules,
    column: Seq<char>,
)
    requires
        rules_follow(q, columns, rules),
        rules.masks@.contains_key(column),
    ensures
        columns.contains(column),
        q.facts is Some,
        is_tagged(*q.facts->0, column),
{
    assert(candidates(q, columns).contains(column));
    match q.facts {
        Some(facts) => lemma_tagged(*facts, columns, column),
        None => {},
    }
}

/// A masked column is never handed out as it is, whether its function resolves or
/// not.
pub proof fn law_masked_columns_stay_hidden(
    policy: PolicyModel,
    rules: TableRules,
    resolver: Option<ResolvedFunctions>,
    column: Seq<char>,
)
    requires
        enforces(policy, rules, resolver),
        rules.masks@.contains_key(column),
    ensures
        policy.column_masks.contains_key(column),
        policy.column_masks[column] != ExprModel::Column(column),
{
    assert(policy.column_masks.dom().contains(column));
}

/// A mask whose function cannot be called is the default mask.
pub proof fn law_unresolved_mask_is_the_default(
    function: Seq<char>,
    extra: Seq<ExprModel>,
    column: Seq<char>,
    resolver: Option<ResolvedFunctions>,
)
    requires
        !callable(resolver, function),
    ensures
        replacement(MaskModel::Call { function, extra }, column, resolver) == replacement(
            MaskModel::Default,
            column,
            resolver,
        ),
{
}

/// Whether a gate that was (or was not) refused is refused after the answers, each
/// taken as [`PlanGate::answer`](crate::cedar_gate::PlanGate::answer) takes it.
pub open spec fn refused_after(refused: bool, answers: Seq<Option<Decision>>) -> bool
    decreases answers.len(),
{
    if answers.len() == 0 {
        refused
    } else {
        refused_after(refused, answers.drop_last()) || answers.last() != Some(Decision::Allow)
    }
}

/// A plan passes the access gate exactly where every request was allowed: one refusal, or
/// one failure of the authorizer, refuses the plan, and nothing after it takes the
/// refusal back.
pub proof fn law_gate_needs_every_answer(refused: bool, answers: Seq<Option<Decision>>)
    ensures
        refused_after(refused, answers) == (refused || exists|i: int|
            0 <= i < answers.len() && #[trigger] answers[i] != Some(Decision::Allow)),
    decreases answers.len(),
{
    if answers.len() > 0 {
        let before = answers.drop_last();
        law_gate_needs_every_answer(refused, before);
        if exists|i: int| 0 <= i < before.len() && #[trigger] before[i] != Some(Decision::Allow) {
            let i = choose|i: int|
                0 <= i < before.len() && #[trigger] before[i] != Some(Decision::Allow);
            assert(answers[i] != Some(Decision::Allow));
        }
        if exists|i: int| 0 <= i < answers.len() && #[trigger] answers[i] != Some(Decision::Allow) {
            let i = choose|i: int|
                0 <= i < answers.len() && #[trigger] answers[i] != Some(Decision::Allow);
            if i < before.len() {
                assert(before[i] != Some(Decision::Allow));
            }
        }
        if answers.last() != Some(Decision::Allow) {
            assert(answers[answers.len() - 1] != Some(Decision::Allow));
        }
    }
}

/// A statement that is not modelled, anywhere in a plan, refuses the plan: whatever
/// the other requests are, one of the plan's requests must be denied unasked.
pub proof fn law_unmodelled_statements_are_refused(
    plan: PlanModel,
    name: Seq<char>,
    principal: PrincipalIdentity,
    contexts: Seq<Context>,
    requests: Seq<Option<PlanRequest>>,
)
    requires
        has_node(plan, NodeModel::OtherDdl(name)),
        requests.len() == actions_of(plan).len(),
        forall|i: int|
            0 <= i < requests.len() ==> lowers_to(
                actions_of(plan)[i],
                principal,
                contexts[i],
                #[trigger] requests[i],
            ),
    ensures
        exists|i: int| 0 <= i < requests.len() && (#[trigger] requests[i]) is None,
{
    let node = NodeModel::OtherDdl(name);
    law_every_node_is_classified(plan, node);
    let i = actions_of(plan).index_of(node_action(node)->0);
    assert(lowers_to(actions_of(plan)[i], principal, contexts[i], requests[i]));
}

} // verus!
