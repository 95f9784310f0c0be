//! What a [`PolicyBinding`] asks for, read off its fields and the facts of a table.

use vstd::prelude::*;

use crate::abac::{
    alias_column, all_bound, all_hold, any_refers, applies_to, call_args, column_matches,
    first_alias, functions_in_use, last_separator, lemma_last_separator, lemma_wrapper, matched,
    opening_at, plain_name, reports, same_principal, separator_at, wraps_at, AbacPolicyEngine,
    DefaultPrincipalMatcher, FilterFault, PrincipalMatcher,
};
use crate::abac_laws::lemma_matched;
use crate::binding::{ColumnMatch, FunctionArg, PolicyBinding, TagCondition};
use crate::error::PolicyError;
use crate::expr::{ExprModel, Value};
use crate::facts::{EvalContext, TableFacts};
use crate::function::ResolvedFunctions;
use crate::policy::{PolicyModel, TablePolicy};
use crate::principal::PrincipalIdentity;

verus! {

// ---------------------------------------------------------------------------
// Tags
// ---------------------------------------------------------------------------

/// Whether governed tags hold a condition's key, with the value it asks for, where it
/// asks for one.
pub open spec fn tagged(tags: Map<Seq<char>, String>, condition: TagCondition) -> bool {
    tags.contains_key(condition.key@) && (condition.value is Some ==> tags[condition.key@]@
        == condition.value->0@)
}

/// Whether the governed tags of a column meet a matcher's condition.
pub open spec fn selects(m: ColumnMatch, facts: TableFacts, column: Seq<char>) -> bool {
    facts.governed_column_tags@.contains_key(column) && tagged(
        facts.governed_column_tags@[column]@,
        m.condition,
    )
}

/// **A condition is on a key, and on its value where it names one.**
pub proof fn law_conditions_are_on_key_and_value(
    condition: TagCondition,
    tags: Map<Seq<char>, String>,
)
    ensures
        condition.holds(tags) <==> tagged(tags, condition),
{
}

/// **A column is matched by its own governed tags.**
pub proof fn law_columns_match_by_their_own_tags(
    m: ColumnMatch,
    facts: TableFacts,
    column: Seq<char>,
)
    ensures
        column_matches(m, facts, column) <==> selects(m, facts, column),
{
}

/// **Columns are matched one by one.** A matcher selects every column whose tags meet
/// its condition, once for each time the scan reads it and in the scan's order, and no
/// other column.
pub proof fn law_columns_are_matched_one_by_one(
    m: ColumnMatch,
    facts: TableFacts,
    one: Seq<Seq<char>>,
    other: Seq<Seq<char>>,
    column: Seq<char>,
)
    ensures
        matched(m, facts, Seq::empty()) == Seq::<Seq<char>>::empty(),
        matched(m, facts, one + other) == matched(m, facts, one) + matched(m, facts, other),
        selects(m, facts, column) ==> matched(m, facts, seq![column]) == seq![column],
        !selects(m, facts, column) ==> matched(m, facts, seq![column]) == Seq::<Seq<char>>::empty(),
        matched(m, facts, one).contains(column) <==> one.contains(column) && selects(
            m,
            facts,
            column,
        ),
    decreases other.len(),
{
    let single = seq![column];
    assert(single.drop_last() =~= Seq::<Seq<char>>::empty());
    assert(single.last() == column);
    assert(matched(m, facts, single.drop_last()) =~= Seq::<Seq<char>>::empty());
    if selects(m, facts, column) {
        assert(matched(m, facts, single) =~= single);
    }
    lemma_matched(m, facts, one, column);
    if other.len() == 0 {
        assert(one + other =~= one);
        assert(matched(m, facts, one) + matched(m, facts, other) =~= matched(m, facts, one));
    } else {
        law_columns_are_matched_one_by_one(m, facts, one, other.drop_last(), column);
        assert((one + other).drop_last() =~= one + other.drop_last());
        assert((one + other).last() == other.last());
        assert(matched(m, facts, one + other) =~= matched(m, facts, one) + matched(
            m,
            facts,
            other,
        ));
    }
}

// ---------------------------------------------------------------------------
// Arguments
// ---------------------------------------------------------------------------

/// The first column matched is the first of the scan that the matcher selects.
proof fn lemma_first_matched(m: ColumnMatch, facts: TableFacts, columns: Seq<Seq<char>>)
    ensures
        match first_of(matched(m, facts, columns)) {
            Some(column) => exists|c: int|
                0 <= c < columns.len() && #[trigger] columns[c] == column && selects(
                    m,
                    facts,
                    columns[c],
                ) && forall|d: int| 0 <= d < c ==> !selects(m, facts, #[trigger] columns[d]),
            None => forall|d: int|
                0 <= d < columns.len() ==> !selects(m, facts, #[trigger] columns[d]),
        },
    decreases columns.len(),
{
    if columns.len() > 0 {
        let rest = columns.drop_last();
        lemma_first_matched(m, facts, rest);
        let before = matched(m, facts, rest);
        if before.len() > 0 {
            let c = choose|c: int|
                0 <= c < rest.len() && #[trigger] rest[c] == before[0] && selects(
                    m,
                    facts,
                    rest[c],
                ) && forall|d: int| 0 <= d < c ==> !selects(m, facts, #[trigger] rest[d]);
            assert(columns[c] == before[0]);
            assert forall|d: int| 0 <= d < c implies !selects(m, facts, #[trigger] columns[d]) by {
                assert(columns[d] == rest[d]);
            }
            assert(matched(m, facts, columns)[0] == before[0]);
        } else {
            let c = columns.len() - 1;
            assert forall|d: int| 0 <= d < c implies !selects(m, facts, #[trigger] columns[d]) by {
                assert(columns[d] == rest[d]);
            }
            assert(columns[c] == columns.last());
        }
    }
}

/// The first of a sequence.
spec fn first_of(names: Seq<Seq<char>>) -> Option<Seq<char>> {
    if names.len() > 0 {
        Some(names[0])
    } else {
        None
    }
}

/// **An alias stands for a column of its own matcher.** Where the `k`-th matcher is the
/// first to bear the alias, the alias stands for the first column of the scan that this
/// very matcher selects, whatever the other matchers ask for, and for none where it
/// selects none.
pub proof fn law_an_alias_is_of_its_own_matcher(
    matchers: Seq<ColumnMatch>,
    alias: Seq<char>,
    facts: TableFacts,
    columns: Seq<Seq<char>>,
    k: int,
)
    requires
        0 <= k < matchers.len(),
        matchers[k].alias@ == alias,
        forall|j: int| 0 <= j < k ==> (#[trigger] matchers[j]).alias@ != alias,
    ensures
        match alias_column(matchers, alias, facts, columns) {
            Some(column) => exists|c: int|
                0 <= c < columns.len() && #[trigger] columns[c] == column && selects(
                    matchers[k],
                    facts,
                    columns[c],
                ) && forall|d: int| 0 <= d < c ==> !selects(matchers[k], facts, #[trigger] columns[d]),
            None => forall|d: int|
                0 <= d < columns.len() ==> !selects(matchers[k], facts, #[trigger] columns[d]),
        },
{
    assert(first_alias(matchers, alias, k));
    let chosen = choose|i: int| first_alias(matchers, alias, i);
    assert(first_alias(matchers, alias, chosen));
    assert(chosen == k) by {
        if chosen < k {
            assert(matchers[chosen].alias@ != alias);
        }
        if k < chosen {
            assert(matchers[k].alias@ != alias);
        }
    }
    lemma_first_matched(matchers[k], facts, columns);
}

/// **An alias that no matcher bears stands for nothing.**
pub proof fn law_an_unknown_alias_is_nothing(
    matchers: Seq<ColumnMatch>,
    alias: Seq<char>,
    facts: TableFacts,
    columns: Seq<Seq<char>>,
)
    requires
        forall|j: int| 0 <= j < matchers.len() ==> (#[trigger] matchers[j]).alias@ != alias,
    ensures
        alias_column(matchers, alias, facts, columns) is None,
{
    if exists|i: int| first_alias(matchers, alias, i) {
        let i = choose|i: int| first_alias(matchers, alias, i);
        assert(matchers[i].alias@ != alias);
    }
}

/// **Arguments are handed on one by one.** A constant goes as a string, an alias as the
/// column it stands for, an alias that stands for none is left out, and the order stays.
pub proof fn law_arguments_go_one_by_one(
    one: Seq<FunctionArg>,
    other: Seq<FunctionArg>,
    matchers: Seq<ColumnMatch>,
    facts: TableFacts,
    columns: Seq<Seq<char>>,
    text: String,
)
    ensures
        call_args(Seq::empty(), matchers, facts, columns) == Seq::<ExprModel>::empty(),
        call_args(one + other, matchers, facts, columns) == call_args(one, matchers, facts, columns)
            + call_args(other, matchers, facts, columns),
        call_args(seq![FunctionArg::Constant(text)], matchers, facts, columns) == seq![
            ExprModel::Literal(Value::Utf8(text@)),
        ],
        call_args(seq![FunctionArg::Alias(text)], matchers, facts, columns) == match alias_column(
            matchers,
            text@,
            facts,
            columns,
        ) {
            Some(column) => seq![ExprModel::Column(column)],
            None => Seq::empty(),
        },
    decreases other.len(),
{
    let constant = seq![FunctionArg::Constant(text)];
    let alias = seq![FunctionArg::Alias(text)];
    assert(constant.drop_last() =~= Seq::<FunctionArg>::empty());
    assert(alias.drop_last() =~= Seq::<FunctionArg>::empty());
    assert(constant.last() == FunctionArg::Constant(text));
    assert(alias.last() == FunctionArg::Alias(text));
    assert(call_args(Seq::empty(), matchers, facts, columns) =~= Seq::<ExprModel>::empty());
    if other.len() == 0 {
        assert(one + other =~= one);
        assert(call_args(one, matchers, facts, columns) + call_args(
            other,
            matchers,
            facts,
            columns,
        ) =~= call_args(one, matchers, facts, columns));
    } else {
        law_arguments_go_one_by_one(one, other.drop_last(), matchers, facts, columns, text);
        assert((one + other).drop_last() =~= one + other.drop_last());
        assert((one + other).last() == other.last());
        assert(call_args(one + other, matchers, facts, columns) =~= call_args(
            one,
            matchers,
            facts,
            columns,
        ) + call_args(other, matchers, facts, columns));
    }
}

// ---------------------------------------------------------------------------
// Bindings
// ---------------------------------------------------------------------------

/// Whether a binding concerns the principal and the table: one of the names it is
/// addressed to refers to the principal, none of those it excepts does, and the table's
/// governed tags meet each of its conditions.
pub open spec fn concerns<M: PrincipalMatcher>(
    matcher: M,
    binding: PolicyBinding,
    facts: TableFacts,
    principal: PrincipalIdentity,
) -> bool {
    &&& exists|i: int|
        0 <= i < binding.to_principals@.len() && matcher.refers(
            (#[trigger] binding.to_principals@[i])@,
            principal,
        )
    &&& forall|i: int|
        0 <= i < binding.except_principals@.len() ==> !matcher.refers(
            (#[trigger] binding.except_principals@[i])@,
            principal,
        )
    &&& forall|i: int|
        0 <= i < binding.when_condition@.len() ==> tagged(
            facts.governed_tags@,
            #[trigger] binding.when_condition@[i],
        )
}

proof fn lemma_concerns<M: PrincipalMatcher>(
    matcher: M,
    binding: PolicyBinding,
    facts: TableFacts,
    principal: PrincipalIdentity,
)
    ensures
        concerns(matcher, binding, facts, principal) <==> applies_to(matcher, binding, principal)
            && all_hold(binding.when_condition@, facts.governed_tags@),
{
    let when = binding.when_condition@;
    let tags = facts.governed_tags@;
    if all_hold(when, tags) {
        assert forall|i: int| 0 <= i < when.len() implies tagged(tags, #[trigger] when[i]) by {
            assert(when[i].holds(tags));
        }
    }
    if forall|i: int| 0 <= i < when.len() ==> tagged(tags, #[trigger] when[i]) {
        assert forall|i: int| 0 <= i < when.len() implies (#[trigger] when[i]).holds(tags) by {
            assert(tagged(tags, when[i]));
        }
    }
}

/// **A binding applies to those it is addressed to, but for those it excepts.**
pub proof fn law_bindings_apply_to_those_addressed<M: PrincipalMatcher>(
    matcher: M,
    binding: PolicyBinding,
    principal: PrincipalIdentity,
)
    ensures
        applies_to(matcher, binding, principal) <==> {
            &&& exists|i: int|
                0 <= i < binding.to_principals@.len() && matcher.refers(
                    (#[trigger] binding.to_principals@[i])@,
                    principal,
                )
            &&& forall|i: int|
                0 <= i < binding.except_principals@.len() ==> !matcher.refers(
                    (#[trigger] binding.except_principals@[i])@,
                    principal,
                )
        },
{
}

/// **Every table condition counts.**
pub proof fn law_every_table_condition_counts(
    conditions: Seq<TagCondition>,
    tags: Map<Seq<char>, String>,
)
    ensures
        all_hold(conditions, tags) <==> forall|i: int|
            0 <= i < conditions.len() ==> tagged(tags, #[trigger] conditions[i]),
{
    if all_hold(conditions, tags) {
        assert forall|i: int| 0 <= i < conditions.len() implies tagged(
            tags,
            #[trigger] conditions[i],
        ) by {
            assert(conditions[i].holds(tags));
        }
    }
    if forall|i: int| 0 <= i < conditions.len() ==> tagged(tags, #[trigger] conditions[i]) {
        assert forall|i: int| 0 <= i < conditions.len() implies (#[trigger] conditions[i]).holds(
            tags,
        ) by {
            assert(tagged(tags, conditions[i]));
        }
    }
}

/// The mask that a binding puts on a column: its function, called on the column and
/// then on the binding's arguments, or `***` where the catalog has no such function.
pub open spec fn mask_on(
    binding: PolicyBinding,
    facts: TableFacts,
    columns: Seq<Seq<char>>,
    resolver: Option<ResolvedFunctions>,
    column: Seq<char>,
) -> ExprModel {
    if resolver is Some && resolver->0.resolves(binding.function@) {
        ExprModel::Call(
            binding.function@,
            seq![ExprModel::Column(column)] + call_args(
                binding.using_args@,
                binding.match_columns@,
                facts,
                columns,
            ),
        )
    } else {
        ExprModel::Literal(Value::Utf8("***"@))
    }
}

/// **A binding adds what it asks for, and nothing else.** One that does not concern the
/// principal and the table changes nothing. A row filter adds the call of its function
/// to the filters before it; a mask binding masks each column of the scan that its first
/// matcher selects and that has no mask yet.
pub proof fn law_a_binding_adds_what_it_asks_for<M: PrincipalMatcher>(
    matcher: M,
    bindings: Seq<PolicyBinding>,
    binding: PolicyBinding,
    facts: TableFacts,
    columns: Seq<Seq<char>>,
    principal: PrincipalIdentity,
    resolver: Option<ResolvedFunctions>,
    column: Seq<char>,
)
    requires
        all_bound(matcher, bindings, facts, columns, principal, resolver) is Ok,
    ensures
        ({
            let before = all_bound(matcher, bindings, facts, columns, principal, resolver)->Ok_0;
            let after = all_bound(
                matcher,
                bindings.push(binding),
                facts,
                columns,
                principal,
                resolver,
            );
            let concerned = concerns(matcher, binding, facts, principal);
            &&& !concerned ==> after == Ok::<PolicyModel, FilterFault>(before)
            &&& concerned && binding.kind is RowFilter && resolver is None ==> after == Err::<
                PolicyModel,
                FilterFault,
            >(FilterFault::NoResolver { policy: binding.name@, function: binding.function@ })
            &&& concerned && binding.kind is RowFilter && resolver is Some
                && !resolver->0.resolves(binding.function@) ==> after == Err::<
                PolicyModel,
                FilterFault,
            >(FilterFault::Unresolved { function: binding.function@ })
            &&& concerned && binding.kind is RowFilter && resolver is Some
                && resolver->0.resolves(binding.function@) ==> {
                &&& after is Ok
                &&& after->Ok_0.column_masks == before.column_masks
                &&& after->Ok_0.row_filters == before.row_filters.push(
                    ExprModel::Call(
                        binding.function@,
                        call_args(
                            binding.using_args@,
                            binding.match_columns@,
                            facts,
                            columns,
                        ),
                    ),
                )
            }
            &&& concerned && binding.kind is ColumnMask && binding.match_columns@.len() == 0
                ==> after == Ok::<PolicyModel, FilterFault>(before)
            &&& concerned && binding.kind is ColumnMask && binding.match_columns@.len() > 0 ==> {
                let hit = columns.contains(column) && selects(
                    binding.match_columns@[0],
                    facts,
                    column,
                );
                &&& after is Ok
                &&& after->Ok_0.row_filters == before.row_filters
                &&& after->Ok_0.column_masks.contains_key(column)
                    <==> before.column_masks.contains_key(column) || hit
                &&& before.column_masks.contains_key(column)
                    ==> after->Ok_0.column_masks[column] == before.column_masks[column]
                &&& !before.column_masks.contains_key(column) && hit
                    ==> after->Ok_0.column_masks[column] == mask_on(
                    binding,
                    facts,
                    columns,
                    resolver,
                    column,
                )
            }
        }),
{
    assert(bindings.push(binding).drop_last() =~= bindings);
    assert(bindings.push(binding).last() == binding);
    lemma_concerns(matcher, binding, facts, principal);
    if binding.match_columns@.len() > 0 {
        lemma_matched(binding.match_columns@[0], facts, columns, column);
    }
}

/// **No binding, no constraint; and the first fault is the fault.**
pub proof fn law_bindings_start_from_nothing<M: PrincipalMatcher>(
    matcher: M,
    bindings: Seq<PolicyBinding>,
    binding: PolicyBinding,
    facts: TableFacts,
    columns: Seq<Seq<char>>,
    principal: PrincipalIdentity,
    resolver: Option<ResolvedFunctions>,
)
    ensures
        ({
            let none = all_bound(matcher, Seq::empty(), facts, columns, principal, resolver);
            &&& none is Ok
            &&& none->Ok_0.row_filters == Seq::<ExprModel>::empty()
            &&& none->Ok_0.column_masks == Map::<Seq<char>, ExprModel>::empty()
        }),
        all_bound(matcher, bindings, facts, columns, principal, resolver) is Err ==> all_bound(
            matcher,
            bindings.push(binding),
            facts,
            columns,
            principal,
            resolver,
        ) == all_bound(matcher, bindings, facts, columns, principal, resolver),
{
    assert(bindings.push(binding).drop_last() =~= bindings);
}

/// **A row filter without a catalog is reported by policy and function.**
pub proof fn law_a_missing_catalog_is_reported(
    e: PolicyError,
    policy: Seq<char>,
    function: Seq<char>,
    resolver: Option<ResolvedFunctions>,
)
    ensures
        reports(e, FilterFault::NoResolver { policy, function }, resolver) <==> {
            &&& e is NoFunctionResolver
            &&& e->NoFunctionResolver_policy@ == policy
            &&& e->NoFunctionResolver_function@ == function
        },
{
}

/// **A function that does not resolve is reported with the catalog's own reason**, or by
/// name where the catalog was not asked about it.
pub proof fn law_an_unresolved_function_is_reported(
    e: PolicyError,
    function: Seq<char>,
    functions: ResolvedFunctions,
)
    requires
        !functions.resolves(function),
    ensures
        reports(e, FilterFault::Unresolved { function }, Some(functions)) <==> {
            &&& e is UnresolvedFunction
            &&& functions.outcomes().contains_key(function) ==> e->UnresolvedFunction_0@
                == functions.outcomes()[function]->Err_0@
            &&& !functions.outcomes().contains_key(function) ==> e->UnresolvedFunction_0@
                == "no such function "@ + function
        },
{
}

/// **The engine answers by the bindings of the table asked about.** It answers with no
/// constraint where nothing is known of the table; else with the policy of its bindings
/// or the fault among them.
pub proof fn law_the_engine_answers_by_the_bindings<M: PrincipalMatcher>(
    engine: AbacPolicyEngine<M>,
    table: Seq<Seq<char>>,
    columns: Seq<Seq<char>>,
    principal: PrincipalIdentity,
    eval: EvalContext,
    r: Result<TablePolicy, PolicyError>,
)
    requires
        engine.answers(table, columns, principal, eval, r),
    ensures
        ({
            let key = crate::table::dotted(table);
            let known = eval.catalog_facts.facts();
            let policy = all_bound(
                engine.principals(),
                known[key].policies@,
                known[key],
                columns,
                principal,
                eval.function_resolver,
            );
            &&& !known.contains_key(key) ==> {
                &&& r is Ok
                &&& r->Ok_0@.row_filters == Seq::<ExprModel>::empty()
                &&& r->Ok_0@.column_masks == Map::<Seq<char>, ExprModel>::empty()
            }
            &&& known.contains_key(key) && policy is Ok ==> r is Ok && r->Ok_0@ == policy->Ok_0
            &&& known.contains_key(key) && policy is Err ==> r is Err && reports(
                r->Err_0,
                policy->Err_0,
                eval.function_resolver,
            )
        }),
{
    if !eval.catalog_facts.facts().contains_key(crate::table::dotted(table)) {
        assert(r->Ok_0@.row_filters =~= Seq::<ExprModel>::empty());
        assert(r->Ok_0@.column_masks =~= Map::<Seq<char>, ExprModel>::empty());
    }
}

/// **Functions are looked up binding by binding.** One is looked up for each binding
/// that concerns the principal and the table, in order: always for a row filter, and for
/// a mask where its first matcher selects a column of the scan.
pub proof fn law_functions_are_looked_up_one_by_one<M: PrincipalMatcher>(
    matcher: M,
    bindings: Seq<PolicyBinding>,
    binding: PolicyBinding,
    facts: TableFacts,
    columns: Seq<Seq<char>>,
    principal: PrincipalIdentity,
)
    ensures
        functions_in_use(matcher, Seq::empty(), facts, columns, principal) == Seq::<
            Seq<char>,
        >::empty(),
        ({
            let before = functions_in_use(matcher, bindings, facts, columns, principal);
            let after = functions_in_use(
                matcher,
                bindings.push(binding),
                facts,
                columns,
                principal,
            );
            let used = concerns(matcher, binding, facts, principal) && (binding.kind is RowFilter
                || (binding.match_columns@.len() > 0 && exists|c: int|
                0 <= c < columns.len() && selects(
                    binding.match_columns@[0],
                    facts,
                    #[trigger] columns[c],
                )));
            &&& used ==> after == before.push(binding.function@)
            &&& !used ==> after == before
        }),
{
    assert(bindings.push(binding).drop_last() =~= bindings);
    assert(bindings.push(binding).last() == binding);
    lemma_concerns(matcher, binding, facts, principal);
    if binding.match_columns@.len() > 0 {
        lemma_first_matched(binding.match_columns@[0], facts, columns);
    }
}

// ---------------------------------------------------------------------------
// Principals
// ---------------------------------------------------------------------------

/// Whether `::"` opens a quoted id at position `j` of a name.
pub open spec fn opens(name: Seq<char>, j: int) -> bool {
    0 <= j && j + 2 < name.len() && name[j] == ':' && name[j + 1] == ':' && name[j + 2] == '"'
}

/// **A wrapper's name is what its quotes hold.** They open at the first `::"` and close
/// at the end.
pub proof fn law_a_wrapped_name_is_what_the_quotes_hold(name: Seq<char>, k: int)
    requires
        opens(name, k),
        forall|j: int| 0 <= j < k ==> !opens(name, j),
        k + 3 < name.len(),
        name.last() == '"',
    ensures
        plain_name(name) == name.subrange(k + 3, name.len() - 1),
{
    assert(opening_at(name, k));
    assert forall|j: int| #[trigger] opening_at(name, j) implies k <= j by {
        if j < k {
            assert(!opens(name, j));
        }
    }
    assert(wraps_at(name, k));
    lemma_wrapper(name, k);
}

proof fn lemma_no_wrapper(name: Seq<char>)
    requires
        name.len() == 0 || name.last() != '"' || forall|j: int| #[trigger]
            opens(name, j) ==> j + 3 == name.len(),
    ensures
        forall|j: int| !wraps_at(name, j),
{
    assert forall|j: int| !wraps_at(name, j) by {
        if wraps_at(name, j) {
            assert(opens(name, j));
        }
    }
}

/// **A path's name is its last part.** Of a name that is no wrapper, the plain name is
/// what stands behind the last `::`.
pub proof fn law_a_path_name_is_its_last_part(front: Seq<char>, last: Seq<char>)
    requires
        last.len() > 0 ==> last[0] != ':',
        forall|j: int| #![trigger last[j]]
            0 <= j && j + 1 < last.len() ==> !(last[j] == ':' && last[j + 1] == ':'),
        ({
            let name = front + seq![':', ':'] + last;
            name.last() != '"' || forall|j: int| #[trigger]
                opens(name, j) ==> j + 3 == name.len()
        }),
    ensures
        plain_name(front + seq![':', ':'] + last) == last,
{
    let name = front + seq![':', ':'] + last;
    let k = front.len() as int;
    lemma_no_wrapper(name);
    assert(name[k] == ':' && name[k + 1] == ':');
    assert(separator_at(name, k));
    assert forall|j: int| #[trigger] separator_at(name, j) implies j <= k by {
        if j == k + 1 {
            assert(name[j + 1] == last[0]);
        } else if j > k + 1 {
            assert(name[j] == last[j - k - 2]);
            assert(name[j + 1] == last[j - k - 2 + 1]);
        }
    }
    assert(last_separator(name, k));
    lemma_last_separator(name, k);
    assert(name.skip(k + 2) =~= last);
}

/// **A name without `::` is plain already.**
pub proof fn law_a_name_without_a_type_is_plain(name: Seq<char>)
    requires
        forall|j: int| #![trigger name[j]]
            0 <= j && j + 1 < name.len() ==> !(name[j] == ':' && name[j + 1] == ':'),
    ensures
        plain_name(name) == name,
{
    assert forall|j: int| !separator_at(name, j) by {
        if separator_at(name, j) {
            assert(name[j] == ':');
        }
    }
    assert forall|j: int| !wraps_at(name, j) by {
        if wraps_at(name, j) {
            assert(separator_at(name, j));
        }
    }
}

/// **A name refers to everyone, or to a principal by uid or by group.** `account users`
/// refers to everyone. Any other name refers to a principal whose uid, or one of whose
/// groups, agrees with it once the types are stripped off both or off either.
pub proof fn law_names_refer_by_uid_or_group(name: Seq<char>, principal: PrincipalIdentity)
    ensures
        DefaultPrincipalMatcher.refers(name, principal) <==> {
            ||| name == "account users"@
            ||| plain_name(principal.uid@) == plain_name(name)
            ||| plain_name(principal.uid@) == name
            ||| principal.uid@ == plain_name(name)
            ||| exists|i: int|
                0 <= i < principal.groups@.len() && (plain_name(
                    (#[trigger] principal.groups@[i])@,
                ) == plain_name(name) || plain_name(principal.groups@[i]@) == name
                    || principal.groups@[i]@ == plain_name(name))
        },
{
    let groups = principal.groups@;
    if DefaultPrincipalMatcher::in_groups(groups, name) {
        let i = choose|i: int| 0 <= i < groups.len() && same_principal((#[trigger] groups[i])@, name);
        assert(groups[i] == principal.groups@[i]);
    }
    if exists|i: int|
        0 <= i < groups.len() && (plain_name((#[trigger] groups[i])@) == plain_name(name)
            || plain_name(groups[i]@) == name || groups[i]@ == plain_name(name)) {
        let i = choose|i: int|
            0 <= i < groups.len() && (plain_name((#[trigger] groups[i])@) == plain_name(name)
                || plain_name(groups[i]@) == name || groups[i]@ == plain_name(name));
        assert(same_principal(groups[i]@, name));
    }
}

/// **Every name on a list counts.**
pub proof fn law_every_name_counts<M: PrincipalMatcher>(
    matcher: M,
    names: Seq<String>,
    principal: PrincipalIdentity,
)
    ensures
        any_refers(matcher, names, principal) <==> exists|i: int|
            0 <= i < names.len() && matcher.refers((#[trigger] names[i])@, principal),
{
}

} // verus!
