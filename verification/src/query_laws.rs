//! What partial evaluation is asked, and what its answers come to.

use cedar_policy::{
    EntityUid, PartialEntities, PartialEntity, PartialRequest, Policy, PolicySet,
    RestrictedExpression,
};
use vstd::prelude::*;

use crate::abac::callable;
use crate::cedar::{
    table_decision, table_leftovers, table_tags, tag_values, TableQuery,
};
use crate::cedar_entity::{lowered, lowered_map};
use crate::cedar_laws::{lets_through, passes};
use crate::cedar_rules::{
    any_fault, argument, arguments, candidates, column_partial, column_rule, column_tags, enforces,
    extra_arguments, fires, first_firing, hidden, mask_rule_of, masked_by, permitted, predicates,
    replacement, row_functions, row_predicate_of, rows_from, rules_follow, MaskModel, TableRules,
};
use crate::expr::{ExprModel, Value};
use crate::function::ResolvedFunctions;
use crate::meaning::Row;
use crate::names::texts;
use crate::outside::{
    annotation_of, decision_of, effect_of, partial_entities_of, partial_entity_of,
    partial_request_of, policies_of, policy_of, renamed_policy, residuals_of, set_of,
    string_value, typed_uid_of, uid_of, PolicyEffect,
};
use crate::policy::PolicyModel;
use crate::residual::EntityModel;
use crate::table::dotted;
use crate::text::{integer_value, split_at, trimmed};
use crate::translate::{policy_predicate, FaultModel};
use crate::types::Decision;

verus! {

// ---------------------------------------------------------------------------
// The questions
// ---------------------------------------------------------------------------

/// Whether `attrs` are the attributes of the principal that asks.
pub open spec fn tells_principal(
    attrs: Map<Seq<char>, RestrictedExpression>,
    q: TableQuery,
) -> bool {
    &&& attrs.dom() == q.principal.attributes@.dom()
    &&& forall|key: Seq<char>| #[trigger]
        attrs.contains_key(key) ==> attrs[key] == lowered(q.principal.attributes@[key]@)
}

/// Whether `told` are governed tags, each with its value as a text.
pub open spec fn tells_tags(
    told: Map<Seq<char>, RestrictedExpression>,
    tags: Map<Seq<char>, String>,
) -> bool {
    &&& told.dom() == tags.dom()
    &&& forall|key: Seq<char>| #[trigger]
        told.contains_key(key) ==> told[key] == string_value(tags[key]@)
}

/// **Rows are asked about by table, principal and tags.** The question is whether the
/// principal, with its attributes known, may read the table of that dotted name, with
/// its governed tags known and its attributes unknown; the answer is what partial
/// evaluation says to that question.
pub proof fn law_rows_are_asked_about(
    q: TableQuery,
    who: EntityUid,
    action: EntityUid,
    what: EntityUid,
    attrs: Map<Seq<char>, RestrictedExpression>,
    tags: Map<Seq<char>, RestrictedExpression>,
    person: PartialEntity,
    thing: PartialEntity,
    request: PartialRequest,
    known: PartialEntities,
)
    requires
        uid_of(q.principal.uid@) == Some(who),
        typed_uid_of("Action"@, "read_table"@) == Some(action),
        typed_uid_of("Table"@, dotted(q.table@)) == Some(what),
        tells_principal(attrs, q),
        match q.facts {
            Some(facts) => tells_tags(tags, facts.governed_tags@),
            None => tags == Map::<Seq<char>, RestrictedExpression>::empty(),
        },
        partial_entity_of(who, Some(attrs), Some(Set::empty()), None, *q.schema) == Some(person),
        partial_entity_of(what, None, None, Some(tags), *q.schema) == Some(thing),
        partial_request_of(who, action, what, *q.context, *q.schema) == Some(request),
        partial_entities_of(seq![person, thing], *q.schema) == Some(known),
    ensures
        table_decision(q) == decision_of(*q.policies, request, known, *q.schema),
        table_leftovers(q) == residuals_of(*q.policies, request, known, *q.schema),
{
    assert(lowered_map(q.principal.attributes@) =~= attrs);
    assert(tag_values(table_tags(q.facts)) =~= tags);
}

/// **A question that cannot be put is not answered.** Where the principal, the action
/// or the table has no uid, there is no decision on the rows.
pub proof fn law_unasked_rows_are_undecided(q: TableQuery)
    requires
        uid_of(q.principal.uid@) is None || typed_uid_of("Action"@, "read_table"@) is None
            || typed_uid_of("Table"@, dotted(q.table@)) is None,
    ensures
        table_decision(q) is None,
{
}

/// **Each forbid is tried on the column alone, beside a permit of every column.** The
/// question is whether the principal may read the column, known by its name and its
/// own tags; the forbid is passed over only where the answer is to allow.
pub proof fn law_columns_are_asked_about(
    q: TableQuery,
    column: Seq<char>,
    policy: Policy,
    blanket: Policy,
    probe: PolicySet,
    who: EntityUid,
    action: EntityUid,
    what: EntityUid,
    attrs: Map<Seq<char>, RestrictedExpression>,
    tags: Map<Seq<char>, RestrictedExpression>,
    person: PartialEntity,
    thing: PartialEntity,
    request: PartialRequest,
    known: PartialEntities,
)
    requires
        policy_of("permit(principal, action == Action::\"read_column\", resource);"@) == Some(
            blanket,
        ),
        set_of(
            seq![
                renamed_policy(policy, "probe_forbid"@),
                renamed_policy(blanket, "probe_permit"@),
            ],
        ) == Some(probe),
        uid_of(q.principal.uid@) == Some(who),
        typed_uid_of("Action"@, "read_column"@) == Some(action),
        typed_uid_of("Column"@, dotted(q.table@) + seq!['.'] + column) == Some(what),
        tells_principal(attrs, q),
        match q.facts {
            Some(facts) => if facts.governed_column_tags@.contains_key(column) {
                tells_tags(tags, facts.governed_column_tags@[column]@)
            } else {
                tags == Map::<Seq<char>, RestrictedExpression>::empty()
            },
            None => tags == Map::<Seq<char>, RestrictedExpression>::empty(),
        },
        partial_entity_of(who, Some(attrs), Some(Set::empty()), None, *q.schema) == Some(person),
        partial_entity_of(
            what,
            Some(Map::empty().insert("name"@, string_value(column))),
            Some(Set::empty()),
            Some(tags),
            *q.schema,
        ) == Some(thing),
        partial_request_of(who, action, what, *q.context, *q.schema) == Some(request),
        partial_entities_of(seq![person, thing], *q.schema) == Some(known),
    ensures
        fires(q, column, policy) == match decision_of(probe, request, known, *q.schema) {
            Some(Some(Decision::Allow)) => Some(false),
            Some(_) => Some(true),
            None => None,
        },
{
    reveal_strlit(".");
    assert("."@ =~= seq!['.']);
    assert(lowered_map(q.principal.attributes@) =~= attrs);
    assert(tag_values(column_tags(q, column)) =~= tags);
}

/// **The forbid that masks a column is the first that may fire.** It is a forbid in
/// force, it was not decided to allow, and every forbid before it was.
pub proof fn law_the_first_forbid_masks(q: TableQuery, column: Seq<char>, masking: Policy)
    requires
        masked_by(q, column) == Some(Some(masking)),
    ensures
        exists|i: int|
            {
                &&& 0 <= i < policies_of(*q.policies).len()
                &&& #[trigger] policies_of(*q.policies)[i] == masking
                &&& effect_of(masking) == PolicyEffect::Forbid
                &&& fires(q, column, masking) == Some(true)
                &&& forall|j: int|
                    0 <= j < i && effect_of(policies_of(*q.policies)[j]) == PolicyEffect::Forbid ==> fires(
                        q,
                        column,
                        #[trigger] policies_of(*q.policies)[j],
                    ) == Some(false)
            },
{
    lemma_first_masks(q, column, policies_of(*q.policies), masking);
}

proof fn lemma_first_masks(q: TableQuery, column: Seq<char>, list: Seq<Policy>, masking: Policy)
    requires
        first_firing(q, column, list) == Some(Some(masking)),
    ensures
        exists|i: int|
            {
                &&& 0 <= i < list.len()
                &&& #[trigger] list[i] == masking
                &&& effect_of(masking) == PolicyEffect::Forbid
                &&& fires(q, column, masking) == Some(true)
                &&& forall|j: int|
                    0 <= j < i && effect_of(list[j]) == PolicyEffect::Forbid ==> fires(
                        q,
                        column,
                        #[trigger] list[j],
                    ) == Some(false)
            },
    decreases list.len(),
{
    if effect_of(list[0]) == PolicyEffect::Forbid && fires(q, column, list[0]) == Some(true) {
        assert(list[0] == masking);
    } else {
        let rest = list.drop_first();
        lemma_first_masks(q, column, rest, masking);
        let i = choose|i: int|
            {
                &&& 0 <= i < rest.len()
                &&& #[trigger] rest[i] == masking
                &&& effect_of(masking) == PolicyEffect::Forbid
                &&& fires(q, column, masking) == Some(true)
                &&& forall|j: int|
                    0 <= j < i && effect_of(rest[j]) == PolicyEffect::Forbid ==> fires(
                        q,
                        column,
                        #[trigger] rest[j],
                    ) == Some(false)
            };
        assert(list[i + 1] == masking);
        assert forall|j: int|
            0 <= j < i + 1 && effect_of(list[j]) == PolicyEffect::Forbid implies fires(
            q,
            column,
            #[trigger] list[j],
        ) == Some(false) by {
            if j > 0 {
                assert(rest[j - 1] == list[j]);
            }
        }
    }
}

/// **A column is doubted only where something cannot be evaluated.** Where the column's
/// entity and the blanket permit can be built, and every forbid can be tried, it is
/// decided whether the column is masked; and it is masked by a forbid only.
pub proof fn law_what_can_be_tried_is_decided(q: TableQuery, column: Seq<char>)
    requires
        typed_uid_of("Action"@, "read_column"@) is Some,
        column_partial(q, column) is Some,
        uid_of(q.principal.uid@) is Some,
        policy_of("permit(principal, action == Action::\"read_column\", resource);"@) is Some,
        forall|i: int|
            0 <= i < policies_of(*q.policies).len() && effect_of(policies_of(*q.policies)[i])
                == PolicyEffect::Forbid ==> fires(
                q,
                column,
                #[trigger] policies_of(*q.policies)[i],
            ) is Some,
    ensures
        masked_by(q, column) is Some,
        (forall|i: int|
            0 <= i < policies_of(*q.policies).len() && effect_of(policies_of(*q.policies)[i])
                == PolicyEffect::Forbid ==> fires(
                q,
                column,
                #[trigger] policies_of(*q.policies)[i],
            ) == Some(false)) ==> masked_by(q, column) == Some(None::<Policy>),
{
    lemma_all_tried(q, column, policies_of(*q.policies));
}

proof fn lemma_all_tried(q: TableQuery, column: Seq<char>, list: Seq<Policy>)
    requires
        forall|i: int|
            0 <= i < list.len() && effect_of(list[i]) == PolicyEffect::Forbid ==> fires(
                q,
                column,
                #[trigger] list[i],
            ) is Some,
    ensures
        first_firing(q, column, list) is Some,
        (forall|i: int|
            0 <= i < list.len() && effect_of(list[i]) == PolicyEffect::Forbid ==> fires(
                q,
                column,
                #[trigger] list[i],
            ) == Some(false)) ==> first_firing(q, column, list) == Some(None::<Policy>),
    decreases list.len(),
{
    if list.len() > 0 {
        let rest = list.drop_first();
        assert(effect_of(list[0]) == PolicyEffect::Forbid ==> fires(q, column, list[0]) is Some);
        assert forall|i: int|
            0 <= i < rest.len() && effect_of(rest[i]) == PolicyEffect::Forbid implies fires(
            q,
            column,
            #[trigger] rest[i],
        ) is Some by {
            assert(rest[i] == list[i + 1]);
        }
        if forall|i: int|
            0 <= i < list.len() && effect_of(list[i]) == PolicyEffect::Forbid ==> fires(
                q,
                column,
                #[trigger] list[i],
            ) == Some(false) {
            assert forall|i: int|
                0 <= i < rest.len() && effect_of(rest[i]) == PolicyEffect::Forbid implies fires(
                q,
                column,
                #[trigger] rest[i],
            ) == Some(false) by {
                assert(rest[i] == list[i + 1]);
            }
            assert(effect_of(list[0]) == PolicyEffect::Forbid ==> fires(q, column, list[0])
                == Some(false));
        }
        lemma_all_tried(q, column, rest);
    }
}

// ---------------------------------------------------------------------------
// Rows
// ---------------------------------------------------------------------------

/// **A permit filters rows by its function, or by its own condition.**
pub proof fn law_permits_filter_by_function_or_condition(
    policy: Policy,
    resource: Option<EntityModel>,
)
    ensures
        match annotation_of(policy, "row_filter_fn"@) {
            Some(function) => row_predicate_of(policy, resource) == Ok::<
                Option<ExprModel>,
                FaultModel,
            >(Some(ExprModel::Call(function, extra_arguments(policy)))),
            None => row_predicate_of(policy, resource) == policy_predicate(policy, resource),
        },
{
}

/// **Every function that a permit filters rows by is looked up, and no other.**
pub proof fn law_row_functions_are_those_named(list: Seq<Policy>, function: Seq<char>)
    ensures
        row_functions(list).contains(function) <==> exists|i: int|
            0 <= i < list.len() && annotation_of(#[trigger] list[i], "row_filter_fn"@) == Some(
                function,
            ),
    decreases list.len(),
{
    if list.len() > 0 {
        let rest = list.drop_last();
        let before = row_functions(rest);
        let all = row_functions(list);
        law_row_functions_are_those_named(rest, function);
        if before.contains(function) {
            let i = choose|i: int|
                0 <= i < rest.len() && annotation_of(#[trigger] rest[i], "row_filter_fn"@) == Some(
                    function,
                );
            assert(annotation_of(list[i], "row_filter_fn"@) == Some(function));
            assert(all[before.index_of(function)] == function);
        }
        if annotation_of(list.last(), "row_filter_fn"@) == Some(function) {
            assert(annotation_of(list[list.len() - 1], "row_filter_fn"@) == Some(function));
            assert(all[before.len() as int] == function);
        }
        if all.contains(function) && !before.contains(function) {
            let k = all.index_of(function);
            if k < before.len() {
                assert(before[k] == function);
            }
        }
        if exists|i: int|
            0 <= i < list.len() && annotation_of(#[trigger] list[i], "row_filter_fn"@) == Some(
                function,
            ) {
            let i = choose|i: int|
                0 <= i < list.len() && annotation_of(#[trigger] list[i], "row_filter_fn"@) == Some(
                    function,
                );
            if i < rest.len() {
                assert(annotation_of(rest[i], "row_filter_fn"@) == Some(function));
            }
        }
    }
}

/// **Undecided rows are those that a leftover permit lets through.** Where nothing is
/// decided, only permits are left over, each of them has a predicate and every function
/// they name can be called, a row is shown exactly where one of those permits, taken
/// over this very table, lets it through.
pub proof fn law_undecided_rows_go_by_the_permits_left(
    q: TableQuery,
    columns: Seq<Seq<char>>,
    rules: TableRules,
    policy: PolicyModel,
    resolver: Option<ResolvedFunctions>,
    row: Row,
)
    requires
        rules_follow(q, columns, rules),
        enforces(policy, rules, resolver),
        table_decision(q) == Some(None::<Decision>),
        table_leftovers(q).len() > 0,
        forall|p: Policy| #[trigger]
            table_leftovers(q).contains(p) ==> {
                &&& effect_of(p) == PolicyEffect::Permit
                &&& row_predicate_of(
                    p,
                    Some(EntityModel { entity_type: "Table"@, id: dotted(q.table@) }),
                ) is Ok
                &&& annotation_of(p, "row_filter_fn"@) is Some ==> callable(
                    resolver,
                    annotation_of(p, "row_filter_fn"@)->0,
                )
            },
    ensures
        passes(policy.row_filters, row) <==> exists|p: Policy| #[trigger]
            table_leftovers(q).contains(p) && lets_through(
                row_predicate_of(
                    p,
                    Some(EntityModel { entity_type: "Table"@, id: dotted(q.table@) }),
                ),
                row,
            ),
{
    broadcast use vstd::seq_lib::group_to_multiset_ensures;
    broadcast use vstd::multiset::group_multiset_axioms;

    let resource = Some(EntityModel { entity_type: "Table"@, id: dotted(q.table@) });
    let left = table_leftovers(q);
    let functions = texts(rules.row_functions@);
    let decision = None::<Decision>;
    let (permits, forbids) = choose|permits: Seq<Policy>, forbids: Seq<Policy>|
        rows_from(q, permits, forbids, decision, rules.rows@, functions);
    assert(rows_from(q, permits, forbids, decision, rules.rows@, functions));
    if forbids.len() > 0 {
        let p = forbids[0];
        assert(forbids.contains(p));
        assert(forbids.to_multiset().count(p) > 0);
        assert(left.contains(p));
    }
    assert(forbids =~= Seq::<Policy>::empty());
    assert(forbids.to_multiset() =~= vstd::multiset::Multiset::empty());
    assert(permits.to_multiset() =~= left);
    assert(permits.len() == left.len());
    let results = predicates(permits, resource);
    assert forall|i: int| 0 <= i < permits.len() implies left.contains(#[trigger] permits[i]) by {
        assert(permits.contains(permits[i]));
        assert(permits.to_multiset().count(permits[i]) > 0);
    }
    assert(!any_fault(results)) by {
        if any_fault(results) {
            let i = choose|i: int| 0 <= i < results.len() && (#[trigger] results[i]) is Err;
            assert(left.contains(permits[i]));
        }
    }
    assert forall|i: int| 0 <= i < functions.len() implies callable(
        resolver,
        #[trigger] functions[i],
    ) by {
        law_row_functions_are_those_named(permits, functions[i]);
        assert(row_functions(permits).contains(functions[i]));
        let k = choose|k: int|
            0 <= k < permits.len() && annotation_of(#[trigger] permits[k], "row_filter_fn"@)
                == Some(functions[i]);
        assert(left.contains(permits[k]));
    }
    assert(policy.row_filters == permitted(results));
    crate::cedar_laws::law_permits_are_a_union(results, row);
    if crate::cedar_laws::any_lets_through(results, row) {
        let i = choose|i: int|
            0 <= i < results.len() && lets_through(#[trigger] results[i], row);
        assert(left.contains(permits[i]) && lets_through(
            row_predicate_of(permits[i], resource),
            row,
        ));
    }
    if exists|p: Policy| #[trigger]
        left.contains(p) && lets_through(row_predicate_of(p, resource), row) {
        let p = choose|p: Policy| #[trigger]
            left.contains(p) && lets_through(row_predicate_of(p, resource), row);
        assert(permits.to_multiset().count(p) > 0);
        assert(permits.contains(p));
        let i = permits.index_of(p);
        assert(lets_through(results[i], row));
    }
}

/// **A table without a schema shows nothing.** The policy that hides every row has one
/// row filter, which is false, and masks nothing.
pub proof fn law_hidden_is_hidden(row: Row)
    ensures
        hidden().row_filters == seq![ExprModel::Literal(Value::Boolean(false))],
        hidden().column_masks == Map::<Seq<char>, ExprModel>::empty(),
        !passes(hidden().row_filters, row),
{
    assert(hidden().row_filters =~= seq![ExprModel::Literal(Value::Boolean(false))]);
    assert(!crate::cedar_laws::holds(hidden().row_filters[0], row));
}

// ---------------------------------------------------------------------------
// Masks
// ---------------------------------------------------------------------------

/// **An entry is an integer or a column.** An entry that reads as an integer is that
/// integer, any other entry is the column of that name.
pub proof fn law_entries_are_integers_or_columns(entry: Seq<char>)
    ensures
        match integer_value(entry) {
            Some(n) => argument(entry) == ExprModel::Literal(Value::Int64(n)),
            None => argument(entry) == ExprModel::Column(entry),
        },
{
}

/// **Entries are read one by one.** The arguments of two lists of entries together are
/// those of the one and those of the other; a single entry is read without the white
/// space round it, and an empty one is left out.
pub proof fn law_entries_are_read_one_by_one(
    one: Seq<Seq<char>>,
    other: Seq<Seq<char>>,
    entry: Seq<char>,
)
    ensures
        arguments(one + other) == arguments(one) + arguments(other),
        arguments(seq![entry]) == if trimmed(entry).len() == 0 {
            Seq::empty()
        } else {
            seq![argument(trimmed(entry))]
        },
        arguments(Seq::empty()) == Seq::<ExprModel>::empty(),
    decreases other.len(),
{
    let single = seq![entry];
    assert(single.drop_last() =~= Seq::<Seq<char>>::empty());
    assert(single.last() == entry);
    assert(arguments(single.drop_last()) =~= Seq::<ExprModel>::empty());
    assert(Seq::<ExprModel>::empty().push(argument(trimmed(entry))) =~= seq![
        argument(trimmed(entry)),
    ]);
    if other.len() == 0 {
        assert(one + other =~= one);
        assert(arguments(one) + arguments(other) =~= arguments(one));
    } else {
        law_entries_are_read_one_by_one(one, other.drop_last(), entry);
        assert((one + other).drop_last() =~= one + other.drop_last());
        assert((one + other).last() == other.last());
        assert(arguments(one + other) =~= arguments(one) + arguments(other));
    }
}

/// **A policy's mask is the one it names.** The function is its `mask_fn` and the
/// further arguments are the entries of its `using_columns` between commas; a policy
/// that names no function asks for the default.
pub proof fn law_masks_are_the_ones_named(policy: Policy)
    ensures
        match annotation_of(policy, "mask_fn"@) {
            Some(function) => mask_rule_of(policy) == (MaskModel::Call {
                function,
                extra: extra_arguments(policy),
            }),
            None => mask_rule_of(policy) == MaskModel::Default,
        },
        match annotation_of(policy, "using_columns"@) {
            Some(list) => extra_arguments(policy) == arguments(split_at(list, ',')),
            None => extra_arguments(policy) == Seq::<ExprModel>::empty(),
        },
{
}

/// **The masked column comes first.** A mask whose function can be called is the call
/// of it on the column and then the further arguments; any other is `***`.
pub proof fn law_the_masked_column_comes_first(
    rule: MaskModel,
    column: Seq<char>,
    resolver: Option<ResolvedFunctions>,
)
    ensures
        ({
            let mask = replacement(rule, column, resolver);
            match rule {
                MaskModel::Call { function, extra } => if callable(resolver, function) {
                    &&& mask is Call
                    &&& mask->Call_0 == function
                    &&& mask->Call_1.len() == extra.len() + 1
                    &&& mask->Call_1[0] == ExprModel::Column(column)
                    &&& mask->Call_1.skip(1) == extra
                } else {
                    mask == ExprModel::Literal(Value::Utf8("***"@))
                },
                MaskModel::Default => mask == ExprModel::Literal(Value::Utf8("***"@)),
            }
        }),
{
    if let MaskModel::Call { function, extra } = rule {
        if callable(resolver, function) {
            assert(replacement(rule, column, resolver)->Call_1.skip(1) =~= extra);
        }
    }
}

/// **A function is callable where the catalog has it.**
pub proof fn law_callable_is_resolved(resolver: Option<ResolvedFunctions>, function: Seq<char>)
    ensures
        callable(resolver, function) <==> resolver is Some
            && resolver->0.outcomes().contains_key(function) && resolver->0.outcomes()[function]
            is Ok,
{
}

/// **A protected column gets the mask of the forbid that protects it.** A tagged
/// column of the scan that a forbid protects is masked as that forbid asks; one that
/// cannot be evaluated gets the default mask; one that the principal may read, and one
/// that carries no tag, gets none.
pub proof fn law_protected_columns_get_their_mask(
    q: TableQuery,
    columns: Seq<Seq<char>>,
    rules: TableRules,
    policy: PolicyModel,
    resolver: Option<ResolvedFunctions>,
    column: Seq<char>,
)
    requires
        rules_follow(q, columns, rules),
        enforces(policy, rules, resolver),
        !(rules.rows is DenyAll),
        candidates(q, columns).contains(column),
    ensures
        match masked_by(q, column) {
            Some(Some(masking)) => policy.column_masks.contains_key(column)
                && policy.column_masks[column] == replacement(
                mask_rule_of(masking),
                column,
                resolver,
            ),
            Some(None) => !policy.column_masks.contains_key(column),
            None => policy.column_masks.contains_key(column) && policy.column_masks[column]
                == ExprModel::Literal(Value::Utf8("***"@)),
        },
{
    assert(rules.masks@.contains_key(column) <==> column_rule(q, column) is Some);
    assert(policy.column_masks.dom().contains(column) == rules.masks@.dom().contains(column));
}

} // verus!
