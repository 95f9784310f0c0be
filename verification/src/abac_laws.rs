//! What holds of every [`AbacPolicyEngine`](crate::AbacPolicyEngine) decision.

use vstd::prelude::*;

use crate::abac::{
    all_bound, all_hold, any_refers, applies_to, callable, column_matches, functions_in_use,
    in_use, last_separator, lemma_last_separator, lemma_wrapper, matched, opening_at, plain_name,
    separator_at, with_masks, wraps_at, AbacPolicyEngine, DefaultPrincipalMatcher, FilterFault,
    PrincipalMatcher, ALL_USERS,
};
use crate::binding::{BindingKind, ColumnMatch, PolicyBinding};
use crate::facts::{EvalContext, TableFacts};
use crate::function::ResolvedFunctions;
use crate::govern::{asked_about, gathered, may_reply, replied, scans_of, ScanModel};
use crate::plan::PlanModel;
use crate::policy::PolicyModel;
use crate::principal::PrincipalIdentity;
use crate::table::{dotted, model_names};

verus! {

/// **An exception overrides.** A binding never applies to a principal that one
/// of its exceptions refers to, whoever it is addressed to.
pub proof fn law_except_overrides_to<M: PrincipalMatcher>(
    matcher: M,
    binding: PolicyBinding,
    principal: PrincipalIdentity,
)
    requires
        any_refers(matcher, binding.except_principals@, principal),
    ensures
        !applies_to(matcher, binding, principal),
{
}

/// **All users means everyone.** A binding addressed to `account users` applies
/// to every principal that it does not except.
pub proof fn law_all_users_matches_everyone(binding: PolicyBinding, principal: PrincipalIdentity, i: int)
    requires
        0 <= i < binding.to_principals@.len(),
        binding.to_principals@[i]@ == ALL_USERS@,
    ensures
        applies_to(DefaultPrincipalMatcher, binding, principal) == !any_refers(
            DefaultPrincipalMatcher,
            binding.except_principals@,
            principal,
        ),
{
    assert(DefaultPrincipalMatcher.refers(binding.to_principals@[i]@, principal));
}

/// A name wrapped in its entity type: `Type::"name"`.
pub open spec fn wrapped(entity_type: Seq<char>, name: Seq<char>) -> Seq<char> {
    entity_type + seq![':', ':', '"'] + name + seq!['"']
}

/// **Wrapping is transparent.** Whatever a name is, wrapped in any entity type it has
/// the name itself as its plain name. (An entity type has no quotes in it.)
pub proof fn law_wrapping_is_transparent(entity_type: Seq<char>, name: Seq<char>)
    requires
        !entity_type.contains('"'),
    ensures
        plain_name(wrapped(entity_type, name)) == name,
{
    let s = wrapped(entity_type, name);
    let k = entity_type.len() as int;
    assert(s[k] == ':' && s[k + 1] == ':' && s[k + 2] == '"');
    assert(s.last() == '"');
    assert(opening_at(s, k));
    assert forall|j: int| #[trigger] opening_at(s, j) implies k <= j by {
        if j < k {
            if j + 2 < k {
                assert(s[j + 2] == entity_type[j + 2]);
                assert(entity_type.contains('"'));
            } else {
                assert(s[j + 2] == ':');
            }
        }
    }
    assert(wraps_at(s, k));
    lemma_wrapper(s, k);
    assert(s.subrange(k + 3, s.len() - 1) =~= name);
}

/// **A plain name and its wrapped form match.** Whatever a name is, a binding for it
/// refers to the principal whose uid is the name wrapped in any entity type, and a
/// binding for the wrapped form refers to the principal whose uid is the name.
pub proof fn law_plain_and_wrapped_names_match(
    entity_type: Seq<char>,
    name: Seq<char>,
    principal: PrincipalIdentity,
)
    requires
        !entity_type.contains('"'),
    ensures
        principal.uid@ == wrapped(entity_type, name) ==> DefaultPrincipalMatcher.refers(
            name,
            principal,
        ),
        principal.uid@ == name ==> DefaultPrincipalMatcher.refers(
            wrapped(entity_type, name),
            principal,
        ),
{
    law_wrapping_is_transparent(entity_type, name);
}

/// **Stripping twice is stripping once.** Of a name with at most one `::` in it, the
/// plain name is a contiguous piece without `::`, and its own plain name. A name
/// without `::` is its own plain name, quotes and all.
pub proof fn law_stripping_twice_is_stripping_once(name: Seq<char>)
    requires
        forall|j: int, k: int| separator_at(name, j) && separator_at(name, k) ==> j == k,
    ensures
        plain_name(plain_name(name)) == plain_name(name),
        exists|from: int, to: int|
            0 <= from <= to <= name.len() && plain_name(name) == #[trigger] name.subrange(from, to),
        forall|k: int| !separator_at(plain_name(name), k),
        (forall|k: int| !separator_at(name, k)) ==> plain_name(name) == name,
{
    let plain = plain_name(name);
    if exists|k: int| wraps_at(name, k) {
        let k = choose|k: int| wraps_at(name, k);
        lemma_wrapper(name, k);
        assert(separator_at(name, k));
        lemma_piece(name, k + 3, name.len() - 1, k);
    } else if exists|k: int| separator_at(name, k) {
        let k = choose|k: int| separator_at(name, k);
        assert(last_separator(name, k));
        lemma_last_separator(name, k);
        assert(name.skip(k + 2) =~= name.subrange(k + 2, name.len() as int));
        lemma_piece(name, k + 2, name.len() as int, k);
    } else {
        assert(name.subrange(0, name.len() as int) =~= name);
    }
    assert forall|k: int| !wraps_at(plain, k) by {
        if wraps_at(plain, k) {
            assert(separator_at(plain, k));
        }
    }
}

/// A piece behind the only separator has none.
proof fn lemma_piece(name: Seq<char>, from: int, to: int, only: int)
    requires
        0 <= from <= to <= name.len(),
        only < from,
        separator_at(name, only),
        forall|j: int, k: int| separator_at(name, j) && separator_at(name, k) ==> j == k,
    ensures
        forall|k: int| !separator_at(name.subrange(from, to), k),
{
    let piece = name.subrange(from, to);
    assert forall|k: int| !separator_at(piece, k) by {
        if separator_at(piece, k) {
            assert(separator_at(name, from + k));
        }
    }
}

/// A matched column is a column of the scan whose tags satisfy the matcher, and
/// every such column is matched.
pub proof fn lemma_matched(m: ColumnMatch, facts: TableFacts, columns: Seq<Seq<char>>, column: Seq<char>)
    ensures
        matched(m, facts, columns).contains(column) <==> (columns.contains(column)
            && column_matches(m, facts, column)),
    decreases columns.len(),
{
    if columns.len() > 0 {
        let rest = columns.drop_last();
        lemma_matched(m, facts, rest, column);
        let before = matched(m, facts, rest);
        assert(columns.contains(column) <==> (rest.contains(column) || column == columns.last())) by {
            if rest.contains(column) {
                assert(columns[rest.index_of(column)] == column);
            }
            if columns.contains(column) && column != columns.last() {
                assert(rest[columns.index_of(column)] == column);
            }
            assert(columns[columns.len() - 1] == columns.last());
        }
        let after = before.push(columns.last());
        assert(after.contains(column) <==> (before.contains(column) || column == columns.last())) by {
            if before.contains(column) {
                assert(after[before.index_of(column)] == column);
            }
            if after.contains(column) && column != columns.last() {
                assert(before[after.index_of(column)] == column);
            }
            assert(after[before.len() as int] == columns.last());
        }
    }
}

/// **Constraints accrue, and the first mask wins.** Further bindings never take
/// a row filter away, never lift a mask, and never replace one.
pub proof fn law_earlier_constraints_stay<M: PrincipalMatcher>(
    matcher: M,
    bindings: Seq<PolicyBinding>,
    n: int,
    facts: TableFacts,
    columns: Seq<Seq<char>>,
    principal: PrincipalIdentity,
    resolver: Option<ResolvedFunctions>,
)
    requires
        0 <= n <= bindings.len(),
        all_bound(matcher, bindings, facts, columns, principal, resolver) is Ok,
    ensures
        all_bound(matcher, bindings.take(n), facts, columns, principal, resolver) is Ok,
        ({
            let earlier = all_bound(
                matcher,
                bindings.take(n),
                facts,
                columns,
                principal,
                resolver,
            )->Ok_0;
            let all = all_bound(matcher, bindings, facts, columns, principal, resolver)->Ok_0;
            &&& earlier.row_filters.len() <= all.row_filters.len()
            &&& all.row_filters.take(earlier.row_filters.len() as int) == earlier.row_filters
            &&& forall|c: Seq<char>| #[trigger]
                earlier.column_masks.contains_key(c) ==> all.column_masks.contains_key(c)
                    && all.column_masks[c] == earlier.column_masks[c]
        }),
    decreases bindings.len(),
{
    if n == bindings.len() {
        assert(bindings.take(n) =~= bindings);
        let all = all_bound(matcher, bindings, facts, columns, principal, resolver)->Ok_0;
        assert(all.row_filters.take(all.row_filters.len() as int) =~= all.row_filters);
    } else {
        let rest = bindings.drop_last();
        assert(rest.take(n) =~= bindings.take(n));
        law_earlier_constraints_stay(matcher, rest, n, facts, columns, principal, resolver);
        let earlier = all_bound(
            matcher,
            bindings.take(n),
            facts,
            columns,
            principal,
            resolver,
        )->Ok_0;
        let all = all_bound(matcher, bindings, facts, columns, principal, resolver)->Ok_0;
        assert(all.row_filters.take(earlier.row_filters.len() as int) =~= earlier.row_filters);
    }
}

/// **Masks are for tagged columns of the scan.** Every masked column is one the
/// scan reads, and carries governed tags. Its mask is a function's call or the
/// default literal, never the bare column.
pub proof fn law_masks_stay_in_the_scan<M: PrincipalMatcher>(
    matcher: M,
    bindings: Seq<PolicyBinding>,
    facts: TableFacts,
    columns: Seq<Seq<char>>,
    principal: PrincipalIdentity,
    resolver: Option<ResolvedFunctions>,
    column: Seq<char>,
)
    requires
        all_bound(matcher, bindings, facts, columns, principal, resolver) is Ok,
        all_bound(matcher, bindings, facts, columns, principal, resolver)->Ok_0.column_masks.contains_key(column),
    ensures
        columns.contains(column),
        facts.governed_column_tags@.contains_key(column),
        !(all_bound(matcher, bindings, facts, columns, principal, resolver)->Ok_0.column_masks[column] is Column),
    decreases bindings.len(),
{
    if bindings.len() > 0 {
        let rest = bindings.drop_last();
        let binding = bindings.last();
        let before = all_bound(matcher, rest, facts, columns, principal, resolver)->Ok_0;
        if before.column_masks.contains_key(column) {
            law_masks_stay_in_the_scan(matcher, rest, facts, columns, principal, resolver, column);
        } else {
            lemma_matched(binding.match_columns@[0], facts, columns, column);
        }
    }
}

/// Whether a binding applies to the principal and the table.
pub open spec fn applicable<M: PrincipalMatcher>(
    matcher: M,
    binding: PolicyBinding,
    facts: TableFacts,
    principal: PrincipalIdentity,
) -> bool {
    applies_to(matcher, binding, principal) && all_hold(
        binding.when_condition@,
        facts.governed_tags@,
    )
}

/// **A matched column is masked, whatever the catalog says.** Where the bindings
/// yield a policy at all, each column that an applicable mask binding matches
/// has a mask: an unresolvable function never leaves it bare.
pub proof fn law_matched_columns_are_masked<M: PrincipalMatcher>(
    matcher: M,
    bindings: Seq<PolicyBinding>,
    i: int,
    facts: TableFacts,
    columns: Seq<Seq<char>>,
    principal: PrincipalIdentity,
    resolver: Option<ResolvedFunctions>,
    column: Seq<char>,
)
    requires
        0 <= i < bindings.len(),
        all_bound(matcher, bindings, facts, columns, principal, resolver) is Ok,
        applicable(matcher, bindings[i], facts, principal),
        bindings[i].kind == BindingKind::ColumnMask,
        bindings[i].match_columns@.len() > 0,
        columns.contains(column),
        column_matches(bindings[i].match_columns@[0], facts, column),
    ensures
        all_bound(matcher, bindings, facts, columns, principal, resolver)->Ok_0.column_masks.contains_key(column),
{
    let upto = bindings.take(i + 1);
    law_earlier_constraints_stay(matcher, bindings, i + 1, facts, columns, principal, resolver);
    assert(upto.last() == bindings[i]);
    lemma_matched(bindings[i].match_columns@[0], facts, columns, column);
    let policy = all_bound(matcher, upto, facts, columns, principal, resolver)->Ok_0;
    assert(policy.column_masks.contains_key(column));
}

/// **Row filters fail closed.** The bindings yield a policy exactly where every
/// applicable row filter's function can be called; in particular, without a
/// catalog no applicable row filter lets a query through.
pub proof fn law_row_filters_fail_closed<M: PrincipalMatcher>(
    matcher: M,
    bindings: Seq<PolicyBinding>,
    facts: TableFacts,
    columns: Seq<Seq<char>>,
    principal: PrincipalIdentity,
    resolver: Option<ResolvedFunctions>,
)
    ensures
        all_bound(matcher, bindings, facts, columns, principal, resolver) is Ok <==> forall|i: int|
            0 <= i < bindings.len() && applicable(
                matcher,
                #[trigger] bindings[i],
                facts,
                principal,
            ) && bindings[i].kind == BindingKind::RowFilter ==> callable(
                resolver,
                bindings[i].function@,
            ),
    decreases bindings.len(),
{
    if bindings.len() > 0 {
        let rest = bindings.drop_last();
        law_row_filters_fail_closed(matcher, rest, facts, columns, principal, resolver);
        if all_bound(matcher, bindings, facts, columns, principal, resolver) is Ok {
            assert forall|i: int|
                0 <= i < bindings.len() && applicable(
                    matcher,
                    #[trigger] bindings[i],
                    facts,
                    principal,
                ) && bindings[i].kind == BindingKind::RowFilter implies callable(
                resolver,
                bindings[i].function@,
            ) by {
                if i < rest.len() {
                    assert(rest[i] == bindings[i]);
                }
            }
        } else if all_bound(matcher, rest, facts, columns, principal, resolver) is Ok {
            let i = bindings.len() - 1;
            assert(applicable(matcher, bindings[i], facts, principal));
        } else {
            let i = choose|i: int|
                0 <= i < rest.len() && applicable(
                    matcher,
                    #[trigger] rest[i],
                    facts,
                    principal,
                ) && rest[i].kind == BindingKind::RowFilter && !callable(
                    resolver,
                    rest[i].function@,
                );
            assert(bindings[i] == rest[i]);
        }
    }
}

/// **The functions to look up suffice.** Two catalogs that agree on the functions
/// in use yield the same policy, or both yield none.
pub proof fn law_functions_in_use_suffice<M: PrincipalMatcher>(
    matcher: M,
    bindings: Seq<PolicyBinding>,
    facts: TableFacts,
    columns: Seq<Seq<char>>,
    principal: PrincipalIdentity,
    one: ResolvedFunctions,
    other: ResolvedFunctions,
)
    requires
        forall|name: Seq<char>| #[trigger]
            functions_in_use(matcher, bindings, facts, columns, principal).contains(name)
                ==> one.resolves(name) == other.resolves(name),
    ensures
        all_bound(matcher, bindings, facts, columns, principal, Some(one)) == all_bound(
            matcher,
            bindings,
            facts,
            columns,
            principal,
            Some(other),
        ),
    decreases bindings.len(),
{
    if bindings.len() > 0 {
        let rest = bindings.drop_last();
        let binding = bindings.last();
        let used = functions_in_use(matcher, bindings, facts, columns, principal);
        let before = functions_in_use(matcher, rest, facts, columns, principal);
        assert forall|name: Seq<char>| #[trigger] before.contains(name) implies one.resolves(name)
            == other.resolves(name) by {
            assert(used[before.index_of(name)] == name);
            assert(used.contains(name));
        }
        law_functions_in_use_suffice(matcher, rest, facts, columns, principal, one, other);
        if in_use(matcher, binding, facts, columns, principal) {
            assert(used.last() == binding.function@);
            assert(used.contains(binding.function@));
        }
        match all_bound(matcher, rest, facts, columns, principal, Some(one)) {
            Ok(policy) => {
                if applicable(matcher, binding, facts, principal) && binding.kind
                    == BindingKind::ColumnMask && binding.match_columns@.len() > 0 {
                    let selected = matched(binding.match_columns@[0], facts, columns);
                    if selected.len() == 0 {
                        assert forall|c: Seq<char>| !selected.contains(c) by {}
                    }
                    assert(with_masks(
                        policy.column_masks,
                        selected,
                        binding,
                        facts,
                        columns,
                        Some(one),
                    ) =~= with_masks(
                        policy.column_masks,
                        selected,
                        binding,
                        facts,
                        columns,
                        Some(other),
                    ));
                }
            },
            Err(_) => {},
        }
    }
}

/// **Bindings reach the plan.** A table that is not marked, and whose bindings come
/// to a constraint on what a scan reads, is put under enforcement in a plan governed
/// by the engine.
pub proof fn law_bindings_reach_the_plan<M: PrincipalMatcher>(
    engine: AbacPolicyEngine<M>,
    plan: PlanModel,
    principal: PrincipalIdentity,
    eval: EvalContext,
    replies: Seq<PolicyModel>,
    i: int,
    policy: PolicyModel,
)
    requires
        replied(engine, plan, principal, eval, replies),
        0 <= i < scans_of(plan).len(),
        !eval.catalog_facts.governed().contains(dotted(scans_of(plan)[i].table)),
        eval.catalog_facts.facts().contains_key(dotted(scans_of(plan)[i].table)),
        ({
            let facts = eval.catalog_facts.facts()[dotted(scans_of(plan)[i].table)];
            all_bound(
                engine.principals(),
                facts.policies@,
                facts,
                model_names(scans_of(plan)[i].fields),
                principal,
                eval.function_resolver,
            ) == Ok::<PolicyModel, FilterFault>(policy)
        }),
        !policy.nothing(),
    ensures
        gathered(
            scans_of(plan),
            replies,
            eval.catalog_facts.governed(),
            scans_of(plan).len(),
        ).contains_key(scans_of(plan)[i].table),
{
    let scans = scans_of(plan);
    let marked = eval.catalog_facts.governed();
    let table = scans[i].table;
    let before = gathered(scans, replies, marked, i as nat);
    if !before.contains_key(table) {
        assert(asked_about(plan, marked, replies, i));
        assert(may_reply(engine, scans[i], principal, eval, replies[i]));
        assert(gathered(scans, replies, marked, (i + 1) as nat).contains_key(table));
    } else {
        assert(gathered(scans, replies, marked, (i + 1) as nat).contains_key(table));
    }
    lemma_gathered_stays(scans, replies, marked, (i + 1) as nat, scans.len(), table);
}

/// A policy once gathered stays.
proof fn lemma_gathered_stays(
    scans: Seq<ScanModel>,
    replies: Seq<PolicyModel>,
    marked: Set<Seq<char>>,
    n: nat,
    m: nat,
    table: Seq<Seq<char>>,
)
    requires
        n <= m,
        gathered(scans, replies, marked, n).contains_key(table),
    ensures
        gathered(scans, replies, marked, m).contains_key(table),
    decreases m,
{
    if n < m {
        lemma_gathered_stays(scans, replies, marked, n, (m - 1) as nat, table);
    }
}

} // verus!
