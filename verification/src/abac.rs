//! [`AbacPolicyEngine`]: row filters and column masks straight from the
//! [`PolicyBinding`]s of a table.
//!
//! Bindings are facts, delivered on [`TableFacts::policies`]. They are additive:
//! there is no deny verdict among them, so the coarse gate of this engine is
//! always open. The only outside knowledge the engine needs is which functions
//! the catalog has.

use vstd::prelude::*;

use crate::binding::{BindingKind, ColumnMatch, FunctionArg, PolicyBinding, TagCondition};
use crate::error::PolicyError;
use crate::expr::{col, lemma_call_view, lit_str, models, Expr, ExprModel, Value};
use crate::facts::{EvalContext, TableFacts};
use crate::function::ResolvedFunctions;
use crate::names::{texts, NameMap};
use crate::policy::{mask_models, PolicyModel, TablePolicy};
use crate::principal::PrincipalIdentity;
use crate::table::{dotted, field_names, Field, TableReference};
use crate::text::{chars_of, same_text};

verus! {

/// The replacement for a masked column whose mask function does not resolve.
pub const DEFAULT_MASK: &'static str = "***";

/// The principal name that matches every principal.
pub const ALL_USERS: &'static str = "account users";

/// Decides whether a name in a binding's principal lists refers to a principal.
pub trait PrincipalMatcher {
    /// Whether `name` refers to `principal`: the same answer each time, and no
    /// more is known of it, unless the matcher says otherwise.
    closed spec fn refers(&self, name: Seq<char>, principal: PrincipalIdentity) -> bool {
        arbitrary()
    }

    /// Whether `name` refers to `principal`, by its uid or any of its groups.
    fn matches(&self, name: &str, principal: &PrincipalIdentity) -> (r: bool)
        ensures
            r == self.refers(name@, *principal),
    ;
}

/// Strips an `EntityType::"..."` wrapper off both sides before a case-sensitive
/// comparison, and takes `account users` for every principal.
#[derive(Debug, Clone, Default)]
pub struct DefaultPrincipalMatcher;

// ---------------------------------------------------------------------------
// Names
// ---------------------------------------------------------------------------

/// Whether the separator `::` stands at position `k` of `s`.
pub open spec fn separator_at(s: Seq<char>, k: int) -> bool {
    0 <= k && k + 1 < s.len() && s[k] == ':' && s[k + 1] == ':'
}

/// Whether `k` is the position of the last separator of `s`.
pub open spec fn last_separator(s: Seq<char>, k: int) -> bool {
    separator_at(s, k) && forall|j: int| #[trigger] separator_at(s, j) ==> j <= k
}

/// Whether `::"` stands at position `k` of `s`, and opens a quoted id there.
pub open spec fn opening_at(s: Seq<char>, k: int) -> bool {
    separator_at(s, k) && k + 2 < s.len() && s[k + 2] == '"'
}

/// Whether `s` is an `EntityType::"inner"` wrapper whose quoted id opens at position
/// `k`: at the first `::"`, and up to a closing quote at the end.
pub open spec fn wraps_at(s: Seq<char>, k: int) -> bool {
    &&& opening_at(s, k)
    &&& forall|j: int| #[trigger] opening_at(s, j) ==> k <= j
    &&& k + 3 < s.len()
    &&& s.last() == '"'
}

/// A principal name without its type: the inner text of an `EntityType::"inner"`
/// wrapper, else what follows the last `::`, or the whole name where there is no `::`.
pub open spec fn plain_name(s: Seq<char>) -> Seq<char> {
    if exists|k: int| wraps_at(s, k) {
        let k = choose|k: int| wraps_at(s, k);
        s.subrange(k + 3, s.len() - 1)
    } else if exists|k: int| separator_at(s, k) {
        let k = choose|k: int| last_separator(s, k);
        s.skip(k + 2)
    } else {
        s
    }
}

/// A wrapper opens at one position.
pub proof fn lemma_wrapper(s: Seq<char>, k: int)
    requires
        wraps_at(s, k),
    ensures
        plain_name(s) == s.subrange(k + 3, s.len() - 1),
{
    let chosen = choose|j: int| wraps_at(s, j);
    assert(wraps_at(s, chosen));
    assert(opening_at(s, chosen) && opening_at(s, k));
}

/// There is one last separator at most.
pub proof fn lemma_last_separator(s: Seq<char>, k: int)
    requires
        last_separator(s, k),
        forall|j: int| !wraps_at(s, j),
    ensures
        plain_name(s) == s.skip(k + 2),
{
    let chosen = choose|j: int| last_separator(s, j);
    assert(separator_at(s, chosen) && separator_at(s, k));
}

/// Where a wrapper's quoted id opens, if `chars` is a wrapper.
fn find_wrapper(chars: &Vec<char>) -> (r: Option<usize>)
    ensures
        match r {
            Some(k) => wraps_at(chars@, k as int),
            None => forall|k: int| !wraps_at(chars@, k),
        },
{
    let n: usize = chars.len();
    let mut k: usize = 0;
    while k < n
        invariant
            k <= n,
            n == chars@.len(),
            forall|j: int| #[trigger] opening_at(chars@, j) ==> k <= j,
        decreases n - k,
    {
        if n - k > 2 && chars[k] == ':' && chars[k + 1] == ':' && chars[k + 2] == '"' {
            assert(opening_at(chars@, k as int));
            if n - k > 3 && chars[n - 1] == '"' {
                return Some(k);
            }
            assert forall|j: int| !wraps_at(chars@, j) by {
                if wraps_at(chars@, j) {
                    assert(opening_at(chars@, j));
                }
            }
            return None;
        }
        k += 1;
    }
    None
}

/// Strip an `EntityType::"inner"` wrapper down to `inner`; leave a plain name
/// untouched.
pub fn normalize_name(name: &str) -> (r: &str)
    ensures
        r@ == plain_name(name@),
{
    let chars: Vec<char> = chars_of(name);
    let n: usize = chars.len();
    if let Some(k) = find_wrapper(&chars) {
        proof {
            lemma_wrapper(name@, k as int);
        }
        return name.substring_char(k + 3, n - 1);
    }
    let mut k: usize = n;
    while k > 0
        invariant
            k <= n,
            n == chars@.len(),
            chars@ == name@,
            forall|j: int| !wraps_at(name@, j),
            forall|j: int| #[trigger] separator_at(name@, j) ==> j < k,
        decreases k,
    {
        k -= 1;
        if k + 1 < n && chars[k] == ':' && chars[k + 1] == ':' {
            proof {
                assert(separator_at(name@, k as int));
                lemma_last_separator(name@, k as int);
                assert(name@.skip(k + 2) =~= name@.subrange(k + 2, n as int));
            }
            return name.substring_char(k + 2, n);
        }
    }
    name
}

/// Whether two names are of the same principal: they have the same plain name, or
/// one of them is the other's plain name.
pub open spec fn same_principal(one: Seq<char>, other: Seq<char>) -> bool {
    ||| plain_name(one) == plain_name(other)
    ||| plain_name(one) == other
    ||| one == plain_name(other)
}

/// Whether two names are of the same principal.
fn is_same_principal(one: &str, other: &str) -> (r: bool)
    ensures
        r == same_principal(one@, other@),
{
    let plain_one = normalize_name(one);
    let plain_other = normalize_name(other);
    same_text(plain_one, plain_other) || same_text(plain_one, other) || same_text(one, plain_other)
}

impl DefaultPrincipalMatcher {
    /// Whether one of the groups is the one that `name` names.
    pub open spec fn in_groups(groups: Seq<String>, name: Seq<char>) -> bool {
        exists|i: int| 0 <= i < groups.len() && same_principal((#[trigger] groups[i])@, name)
    }
}

impl PrincipalMatcher for DefaultPrincipalMatcher {
    open spec fn refers(&self, name: Seq<char>, principal: PrincipalIdentity) -> bool {
        ||| name == ALL_USERS@
        ||| same_principal(principal.uid@, name)
        ||| DefaultPrincipalMatcher::in_groups(principal.groups@, name)
    }

    fn matches(&self, name: &str, principal: &PrincipalIdentity) -> (r: bool) {
        if same_text(name, ALL_USERS) {
            return true;
        }
        if is_same_principal(principal.uid.as_str(), name) {
            return true;
        }
        let mut i: usize = 0;
        while i < principal.groups.len()
            invariant
                i <= principal.groups@.len(),
                forall|j: int|
                    0 <= j < i ==> !same_principal((#[trigger] principal.groups@[j])@, name@),
            decreases principal.groups@.len() - i,
        {
            if is_same_principal(principal.groups[i].as_str(), name) {
                return true;
            }
            i += 1;
        }
        false
    }
}

// ---------------------------------------------------------------------------
// What a binding asks for
// ---------------------------------------------------------------------------

/// Whether one of `names` refers to the principal.
pub open spec fn any_refers<M: PrincipalMatcher>(
    matcher: M,
    names: Seq<String>,
    principal: PrincipalIdentity,
) -> bool {
    exists|i: int| 0 <= i < names.len() && matcher.refers((#[trigger] names[i])@, principal)
}

/// Whether a binding applies to the principal: it is named in `to_principals`,
/// and not in `except_principals`.
pub open spec fn applies_to<M: PrincipalMatcher>(
    matcher: M,
    binding: PolicyBinding,
    principal: PrincipalIdentity,
) -> bool {
    any_refers(matcher, binding.to_principals@, principal) && !any_refers(
        matcher,
        binding.except_principals@,
        principal,
    )
}

/// Whether every table-tag condition holds.
pub open spec fn all_hold(conditions: Seq<TagCondition>, tags: Map<Seq<char>, String>) -> bool {
    forall|i: int| 0 <= i < conditions.len() ==> (#[trigger] conditions[i]).holds(tags)
}

/// Whether a column's governed tags satisfy a matcher.
pub open spec fn column_matches(m: ColumnMatch, facts: TableFacts, column: Seq<char>) -> bool {
    facts.governed_column_tags@.contains_key(column) && m.condition.holds(
        facts.governed_column_tags@[column]@,
    )
}

/// The scan's columns that a matcher selects, in the scan's order.
pub open spec fn matched(m: ColumnMatch, facts: TableFacts, columns: Seq<Seq<char>>) -> Seq<
    Seq<char>,
>
    decreases columns.len(),
{
    if columns.len() == 0 {
        Seq::empty()
    } else {
        let before = matched(m, facts, columns.drop_last());
        if column_matches(m, facts, columns.last()) {
            before.push(columns.last())
        } else {
            before
        }
    }
}

/// Whether `i` is the first matcher with this alias.
pub open spec fn first_alias(matchers: Seq<ColumnMatch>, alias: Seq<char>, i: int) -> bool {
    &&& 0 <= i < matchers.len()
    &&& matchers[i].alias@ == alias
    &&& forall|j: int| 0 <= j < i ==> (#[trigger] matchers[j]).alias@ != alias
}

/// The first column selected by the first matcher with this alias, if any.
pub open spec fn alias_column(
    matchers: Seq<ColumnMatch>,
    alias: Seq<char>,
    facts: TableFacts,
    columns: Seq<Seq<char>>,
) -> Option<Seq<char>> {
    if exists|i: int| first_alias(matchers, alias, i) {
        let selected = matched(
            matchers[choose|i: int| first_alias(matchers, alias, i)],
            facts,
            columns,
        );
        if selected.len() > 0 {
            Some(selected[0])
        } else {
            None
        }
    } else {
        None
    }
}

/// The call arguments of `args`: a constant is a literal, an alias is its
/// column, and an alias without a column is left out.
pub open spec fn call_args(
    args: Seq<FunctionArg>,
    matchers: Seq<ColumnMatch>,
    facts: TableFacts,
    columns: Seq<Seq<char>>,
) -> Seq<ExprModel>
    decreases args.len(),
{
    if args.len() == 0 {
        Seq::empty()
    } else {
        let before = call_args(args.drop_last(), matchers, facts, columns);
        match args.last() {
            FunctionArg::Constant(c) => before.push(ExprModel::Literal(Value::Utf8(c@))),
            FunctionArg::Alias(alias) => match alias_column(matchers, alias@, facts, columns) {
                Some(column) => before.push(ExprModel::Column(column)),
                None => before,
            },
        }
    }
}

/// The row filter of a binding.
pub open spec fn filter_of(
    binding: PolicyBinding,
    facts: TableFacts,
    columns: Seq<Seq<char>>,
) -> ExprModel {
    ExprModel::Call(
        binding.function@,
        call_args(binding.using_args@, binding.match_columns@, facts, columns),
    )
}

/// Whether a wired catalog has the function.
pub open spec fn callable(resolver: Option<ResolvedFunctions>, function: Seq<char>) -> bool {
    match resolver {
        Some(functions) => functions.resolves(function),
        None => false,
    }
}

/// The mask of a column under a binding: the function called on the column and
/// the further arguments, or the default literal where there is no function to
/// call.
pub open spec fn mask_of(
    binding: PolicyBinding,
    column: Seq<char>,
    facts: TableFacts,
    columns: Seq<Seq<char>>,
    resolver: Option<ResolvedFunctions>,
) -> ExprModel {
    if callable(resolver, binding.function@) {
        ExprModel::Call(
            binding.function@,
            seq![ExprModel::Column(column)] + call_args(
                binding.using_args@,
                binding.match_columns@,
                facts,
                columns,
            ),
        )
    } else {
        ExprModel::Literal(Value::Utf8(DEFAULT_MASK@))
    }
}

/// `masks` with the mask of a binding on each of `selected` that has none yet.
pub open spec fn with_masks(
    masks: Map<Seq<char>, ExprModel>,
    selected: Seq<Seq<char>>,
    binding: PolicyBinding,
    facts: TableFacts,
    columns: Seq<Seq<char>>,
    resolver: Option<ResolvedFunctions>,
) -> Map<Seq<char>, ExprModel> {
    Map::new(
        |c: Seq<char>| masks.contains_key(c) || selected.contains(c),
        |c: Seq<char>|
            if masks.contains_key(c) {
                masks[c]
            } else {
                mask_of(binding, c, facts, columns, resolver)
            },
    )
}

/// Why a row filter could not be built.
pub enum FilterFault {
    /// No catalog is wired.
    NoResolver { policy: Seq<char>, function: Seq<char> },
    /// The catalog does not have the function.
    Unresolved { function: Seq<char> },
}

/// What a binding adds to the policy of the bindings before it.
pub open spec fn bound<M: PrincipalMatcher>(
    matcher: M,
    binding: PolicyBinding,
    before: PolicyModel,
    facts: TableFacts,
    columns: Seq<Seq<char>>,
    principal: PrincipalIdentity,
    resolver: Option<ResolvedFunctions>,
) -> Result<PolicyModel, FilterFault> {
    if !applies_to(matcher, binding, principal) || !all_hold(
        binding.when_condition@,
        facts.governed_tags@,
    ) {
        Ok(before)
    } else {
        match binding.kind {
            BindingKind::RowFilter => if resolver is None {
                Err(
                    FilterFault::NoResolver {
                        policy: binding.name@,
                        function: binding.function@,
                    },
                )
            } else if !callable(resolver, binding.function@) {
                Err(FilterFault::Unresolved { function: binding.function@ })
            } else {
                Ok(
                    PolicyModel {
                        row_filters: before.row_filters.push(filter_of(binding, facts, columns)),
                        column_masks: before.column_masks,
                    },
                )
            },
            BindingKind::ColumnMask => if binding.match_columns@.len() == 0 {
                Ok(before)
            } else {
                Ok(
                    PolicyModel {
                        row_filters: before.row_filters,
                        column_masks: with_masks(
                            before.column_masks,
                            matched(binding.match_columns@[0], facts, columns),
                            binding,
                            facts,
                            columns,
                            resolver,
                        ),
                    },
                )
            },
        }
    }
}

/// The policy of a list of bindings, taken in order; the first row filter that
/// cannot be built ends it.
pub open spec fn all_bound<M: PrincipalMatcher>(
    matcher: M,
    bindings: Seq<PolicyBinding>,
    facts: TableFacts,
    columns: Seq<Seq<char>>,
    principal: PrincipalIdentity,
    resolver: Option<ResolvedFunctions>,
) -> Result<PolicyModel, FilterFault>
    decreases bindings.len(),
{
    if bindings.len() == 0 {
        Ok(PolicyModel { row_filters: Seq::empty(), column_masks: Map::empty() })
    } else {
        match all_bound(matcher, bindings.drop_last(), facts, columns, principal, resolver) {
            Err(fault) => Err(fault),
            Ok(before) => bound(
                matcher,
                bindings.last(),
                before,
                facts,
                columns,
                principal,
                resolver,
            ),
        }
    }
}

/// Whether an error is the one a fault asks for.
pub open spec fn reports(e: PolicyError, fault: FilterFault, resolver: Option<ResolvedFunctions>) -> bool {
    match fault {
        FilterFault::NoResolver { policy, function } => match e {
            PolicyError::NoFunctionResolver { policy: p, function: f } => p@ == policy && f@
                == function,
            _ => false,
        },
        FilterFault::Unresolved { function } => match e {
            PolicyError::UnresolvedFunction(reason) => match resolver {
                Some(functions) => if functions.outcomes().contains_key(function) {
                    functions.outcomes()[function] is Err && reason@
                        == functions.outcomes()[function]->Err_0@
                } else {
                    reason@ == "no such function "@ + function
                },
                None => false,
            },
            _ => false,
        },
    }
}

// ---------------------------------------------------------------------------
// The engine
// ---------------------------------------------------------------------------

/// Enforces [`PolicyBinding`]s directly.
#[derive(Debug)]
pub struct AbacPolicyEngine<M = DefaultPrincipalMatcher> {
    matcher: M,
}

impl Default for AbacPolicyEngine<DefaultPrincipalMatcher> {
    fn default() -> (r: Self)
        ensures
            r.principals() == DefaultPrincipalMatcher,
    {
        AbacPolicyEngine::new()
    }
}

impl AbacPolicyEngine<DefaultPrincipalMatcher> {
    /// An engine with the [`DefaultPrincipalMatcher`].
    pub fn new() -> (r: Self)
        ensures
            r.principals() == DefaultPrincipalMatcher,
    {
        AbacPolicyEngine { matcher: DefaultPrincipalMatcher }
    }
}

impl<M: PrincipalMatcher> AbacPolicyEngine<M> {
    /// The matcher in use.
    pub closed spec fn principals(&self) -> M {
        self.matcher
    }

    /// An engine with a matcher of the host's.
    pub fn with_matcher(matcher: M) -> (r: Self)
        ensures
            r.principals() == matcher,
    {
        AbacPolicyEngine { matcher }
    }

    /// Whether one of `names` refers to `principal`.
    fn any_matches(&self, names: &Vec<String>, principal: &PrincipalIdentity) -> (r: bool)
        ensures
            r == any_refers(self.principals(), names@, *principal),
    {
        let mut i: usize = 0;
        while i < names.len()
            invariant
                i <= names@.len(),
                forall|j: int|
                    0 <= j < i ==> !self.principals().refers((#[trigger] names@[j])@, *principal),
            decreases names@.len() - i,
        {
            if self.matcher.matches(names[i].as_str(), principal) {
                return true;
            }
            i += 1;
        }
        false
    }

    /// Whether `binding` applies to `principal`: matched by `to_principals` and
    /// not matched by `except_principals`.
    pub fn principal_applies(&self, binding: &PolicyBinding, principal: &PrincipalIdentity) -> (r:
        bool)
        ensures
            r == applies_to(self.principals(), *binding, *principal),
    {
        self.any_matches(&binding.to_principals, principal) && !self.any_matches(
            &binding.except_principals,
            principal,
        )
    }
}

/// Whether every condition holds on `tags`.
fn all_match(conditions: &Vec<TagCondition>, tags: &NameMap<String>) -> (r: bool)
    ensures
        r == all_hold(conditions@, tags@),
{
    let mut i: usize = 0;
    while i < conditions.len()
        invariant
            i <= conditions@.len(),
            forall|j: int| 0 <= j < i ==> (#[trigger] conditions@[j]).holds(tags@),
        decreases conditions@.len() - i,
    {
        if !conditions[i].matches(tags) {
            assert(!conditions@[i as int].holds(tags@));
            return false;
        }
        i += 1;
    }
    true
}

/// The columns of the scan whose governed tags satisfy `m`, in the scan's order.
pub fn matched_columns(m: &ColumnMatch, facts: &TableFacts, fields: &Vec<Field>) -> (r: Vec<String>)
    ensures
        texts(r@) == matched(*m, *facts, field_names(fields@)),
{
    let ghost columns = field_names(fields@);
    let mut selected: Vec<String> = Vec::new();
    let mut i: usize = 0;
    assert(texts(selected@) =~= matched(*m, *facts, columns.take(0)));
    while i < fields.len()
        invariant
            i <= fields@.len(),
            columns == field_names(fields@),
            texts(selected@) == matched(*m, *facts, columns.take(i as int)),
        decreases fields@.len() - i,
    {
        let name = &fields[i].name;
        let ghost before = selected@;
        let hit = match facts.governed_column_tags.get(name.as_str()) {
            Some(tags) => m.condition.matches(tags),
            None => false,
        };
        if hit {
            selected.push(name.clone());
        }
        proof {
            assert(columns.take(i + 1).drop_last() =~= columns.take(i as int));
            assert(columns.take(i + 1).last() == name@);
            if hit {
                assert(texts(selected@) =~= texts(before).push(name@));
            }
        }
        i += 1;
    }
    assert(columns.take(i as int) =~= columns);
    selected
}

/// The first matcher with this alias.
fn alias_matcher<'a>(matchers: &'a Vec<ColumnMatch>, alias: &str) -> (r: Option<&'a ColumnMatch>)
    ensures
        match r {
            Some(m) => exists|i: int|
                first_alias(matchers@, alias@, i) && *m == matchers@[i],
            None => forall|i: int| !first_alias(matchers@, alias@, i),
        },
{
    let mut i: usize = 0;
    while i < matchers.len()
        invariant
            i <= matchers@.len(),
            forall|j: int| 0 <= j < i ==> (#[trigger] matchers@[j]).alias@ != alias@,
        decreases matchers@.len() - i,
    {
        if same_text(matchers[i].alias.as_str(), alias) {
            assert(first_alias(matchers@, alias@, i as int));
            return Some(&matchers[i]);
        }
        i += 1;
    }
    None
}

/// The column an alias stands for.
fn column_of_alias(
    matchers: &Vec<ColumnMatch>,
    alias: &str,
    facts: &TableFacts,
    fields: &Vec<Field>,
) -> (r: Option<String>)
    ensures
        match r {
            Some(column) => alias_column(matchers@, alias@, *facts, field_names(fields@)) == Some(
                column@,
            ),
            None => alias_column(matchers@, alias@, *facts, field_names(fields@)) is None,
        },
{
    match alias_matcher(matchers, alias) {
        Some(m) => {
            proof {
                let i = choose|i: int| first_alias(matchers@, alias@, i) && *m == matchers@[i];
                let j = choose|j: int| first_alias(matchers@, alias@, j);
                assert(first_alias(matchers@, alias@, i));
                assert(i == j) by {
                    if i < j {
                        assert(matchers@[i].alias@ != alias@);
                    }
                    if j < i {
                        assert(matchers@[j].alias@ != alias@);
                    }
                }
            }
            let selected = matched_columns(m, facts, fields);
            if selected.len() > 0 {
                assert(texts(selected@)[0] == selected@[0]@);
                Some(selected[0].clone())
            } else {
                assert(texts(selected@).len() == 0);
                None
            }
        },
        None => None,
    }
}

/// The call arguments of a binding. An alias stands for its column, a constant
/// for a literal; an alias with no column is left out.
pub fn map_args(binding: &PolicyBinding, facts: &TableFacts, fields: &Vec<Field>) -> (r: Vec<Expr>)
    ensures
        models(r@) == call_args(
            binding.using_args@,
            binding.match_columns@,
            *facts,
            field_names(fields@),
        ),
{
    let ghost columns = field_names(fields@);
    let ghost matchers = binding.match_columns@;
    let args = &binding.using_args;
    let mut exprs: Vec<Expr> = Vec::new();
    let mut i: usize = 0;
    assert(models(exprs@) =~= call_args(args@.take(0), matchers, *facts, columns));
    while i < args.len()
        invariant
            i <= args@.len(),
            args@ == binding.using_args@,
            matchers == binding.match_columns@,
            columns == field_names(fields@),
            models(exprs@) == call_args(args@.take(i as int), matchers, *facts, columns),
        decreases args@.len() - i,
    {
        let ghost before = exprs@;
        let arg: Option<Expr> = match &args[i] {
            FunctionArg::Constant(c) => Some(lit_str(c.as_str())),
            FunctionArg::Alias(alias) => match column_of_alias(
                &binding.match_columns,
                alias.as_str(),
                facts,
                fields,
            ) {
                Some(column) => Some(col(column.as_str())),
                None => None,
            },
        };
        proof {
            assert(args@.take(i + 1).drop_last() =~= args@.take(i as int));
            assert(args@.take(i + 1).last() == args@[i as int]);
        }
        match arg {
            Some(e) => {
                exprs.push(e);
                assert(models(exprs@) =~= models(before).push(e@));
            },
            None => {},
        }
        i += 1;
    }
    assert(args@.take(i as int) =~= args@);
    exprs
}

/// The row filter of a binding. A filter that cannot be built is an error: it
/// must fail the query, not let every row pass.
pub fn row_filter_expr(
    binding: &PolicyBinding,
    facts: &TableFacts,
    fields: &Vec<Field>,
    resolver: &Option<ResolvedFunctions>,
) -> (r: Result<Expr, PolicyError>)
    ensures
        r is Ok == callable(*resolver, binding.function@),
        match r {
            Ok(e) => e@ == filter_of(*binding, *facts, field_names(fields@)),
            Err(e) => reports(
                e,
                if resolver is None {
                    FilterFault::NoResolver { policy: binding.name@, function: binding.function@ }
                } else {
                    FilterFault::Unresolved { function: binding.function@ }
                },
                *resolver,
            ),
        },
{
    let functions = match resolver {
        Some(functions) => functions,
        None => return Err(
            PolicyError::NoFunctionResolver {
                policy: binding.name.clone(),
                function: binding.function.clone(),
            },
        ),
    };
    match functions.resolve(binding.function.as_str()) {
        Err(reason) => Err(PolicyError::UnresolvedFunction(reason)),
        Ok(()) => {
            let args = map_args(binding, facts, fields);
            proof {
                lemma_call_view(binding.function, args);
            }
            let function = binding.function.clone();
            Ok(Expr::Call(function, args))
        },
    }
}

/// The mask of one column under a binding. Where there is no function to call,
/// the mask is the default literal: the column is never left unmasked.
pub fn mask_expr(
    binding: &PolicyBinding,
    column: &str,
    facts: &TableFacts,
    fields: &Vec<Field>,
    resolver: &Option<ResolvedFunctions>,
) -> (r: Expr)
    ensures
        r@ == mask_of(*binding, column@, *facts, field_names(fields@), *resolver),
{
    let functions = match resolver {
        Some(functions) => functions,
        None => return lit_str(DEFAULT_MASK),
    };
    match functions.resolve(binding.function.as_str()) {
        Err(_) => lit_str(DEFAULT_MASK),
        Ok(()) => {
            let mut extras = map_args(binding, facts, fields);
            let mut args: Vec<Expr> = Vec::new();
            args.push(col(column));
            let ghost head = args@;
            let ghost tail = extras@;
            args.append(&mut extras);
            proof {
                assert(models(args@) =~= seq![ExprModel::Column(column@)] + models(tail));
                lemma_call_view(binding.function, args);
            }
            let function = binding.function.clone();
            Expr::Call(function, args)
        },
    }
}

/// Put a mask on each column of `selected` that has none yet: the first binding
/// to mask a column wins.
fn apply_mask(
    binding: &PolicyBinding,
    selected: &Vec<String>,
    facts: &TableFacts,
    fields: &Vec<Field>,
    resolver: &Option<ResolvedFunctions>,
    policy: &mut TablePolicy,
)
    ensures
        final(policy)@.row_filters == old(policy)@.row_filters,
        final(policy)@.column_masks == with_masks(
            old(policy)@.column_masks,
            texts(selected@),
            *binding,
            *facts,
            field_names(fields@),
            *resolver,
        ),
{
    let ghost columns = field_names(fields@);
    let ghost start = policy@.column_masks;
    let ghost names = texts(selected@);
    let mut i: usize = 0;
    assert(start =~= with_masks(start, names.take(0), *binding, *facts, columns, *resolver));
    while i < selected.len()
        invariant
            i <= selected@.len(),
            names == texts(selected@),
            columns == field_names(fields@),
            policy.row_filters == old(policy).row_filters,
            policy@.column_masks == with_masks(
                start,
                names.take(i as int),
                *binding,
                *facts,
                columns,
                *resolver,
            ),
        decreases selected@.len() - i,
    {
        let column = &selected[i];
        let ghost before = policy.column_masks@;
        let ghost done = names.take(i as int);
        let ghost next = names.take(i + 1);
        proof {
            assert forall|c: Seq<char>| next.contains(c) <==> (done.contains(c) || c == column@) by {
                assert(next[i as int] == column@);
                if done.contains(c) {
                    assert(next[done.index_of(c)] == c);
                }
                if next.contains(c) && c != column@ {
                    assert(done[next.index_of(c)] == c);
                }
            }
        }
        let masked = policy.column_masks.contains_key(column.as_str());
        if !masked {
            let mask = mask_expr(binding, column.as_str(), facts, fields, resolver);
            policy.column_masks.insert(column.clone(), mask);
            assert(mask_models(policy.column_masks@) =~= mask_models(before).insert(
                column@,
                mask@,
            ));
        }
        proof {
            let was = with_masks(start, done, *binding, *facts, columns, *resolver);
            let now = with_masks(start, next, *binding, *facts, columns, *resolver);
            assert(masked == was.contains_key(column@));
            assert forall|c: Seq<char>| #[trigger] now.contains_key(c) <==> (was.contains_key(c)
                || c == column@) by {}
            assert(policy@.column_masks =~= now);
        }
        i += 1;
    }
    assert(names.take(i as int) =~= names);
}

impl<M: PrincipalMatcher> AbacPolicyEngine<M> {
    /// Whether `r` is the engine's answer about `table`, of which a scan reads
    /// `columns`: nothing to enforce where no facts are known of the table, and
    /// otherwise the policy of its bindings, taken in order.
    pub open spec fn answers(
        &self,
        table: Seq<Seq<char>>,
        columns: Seq<Seq<char>>,
        principal: PrincipalIdentity,
        eval: EvalContext,
        r: Result<TablePolicy, PolicyError>,
    ) -> bool {
        let facts = eval.catalog_facts.facts();
        let key = dotted(table);
        if !facts.contains_key(key) {
            r is Ok && r->Ok_0@.nothing()
        } else {
            match all_bound(
                self.principals(),
                facts[key].policies@,
                facts[key],
                columns,
                principal,
                eval.function_resolver,
            ) {
                Ok(policy) => r is Ok && r->Ok_0@ == policy,
                Err(fault) => r is Err && reports(r->Err_0, fault, eval.function_resolver),
            }
        }
    }

    /// The row filters and column masks for `principal` on `table`, of which a
    /// scan reads `fields`.
    pub fn constraints(
        &self,
        table: &TableReference,
        fields: &Vec<Field>,
        principal: &PrincipalIdentity,
        eval: &EvalContext,
    ) -> (r: Result<TablePolicy, PolicyError>)
        ensures
            self.answers(table@, field_names(fields@), *principal, *eval, r),
    {
        let facts = match eval.catalog_facts.get(table) {
            Some(facts) => facts,
            None => return Ok(TablePolicy::default()),
        };
        let ghost columns = field_names(fields@);
        let bindings = &facts.policies;
        let resolver = &eval.function_resolver;
        let mut policy = TablePolicy::default();
        let mut i: usize = 0;
        proof {
            assert(bindings@.take(0) =~= Seq::<PolicyBinding>::empty());
        }
        while i < bindings.len()
            invariant
                i <= bindings@.len(),
                bindings@ == facts.policies@,
                columns == field_names(fields@),
                *resolver == eval.function_resolver,
                eval.catalog_facts.facts().contains_key(dotted(table@)),
                *facts == eval.catalog_facts.facts()[dotted(table@)],
                all_bound(
                    self.principals(),
                    bindings@.take(i as int),
                    *facts,
                    columns,
                    *principal,
                    *resolver,
                ) == Ok::<PolicyModel, FilterFault>(policy@),
            decreases bindings@.len() - i,
        {
            let binding = &bindings[i];
            let ghost before = policy;
            proof {
                assert(bindings@.take(i + 1).drop_last() =~= bindings@.take(i as int));
                assert(bindings@.take(i + 1).last() == *binding);
            }
            if self.principal_applies(binding, principal) && all_match(
                &binding.when_condition,
                &facts.governed_tags,
            ) {
                match binding.kind {
                    BindingKind::RowFilter => {
                        match row_filter_expr(binding, facts, fields, resolver) {
                            Ok(e) => {
                                policy.row_filters.push(e);
                                assert(models(policy.row_filters@) =~= models(
                                    before.row_filters@,
                                ).push(e@));
                            },
                            Err(e) => {
                                proof {
                                    lemma_fault_stays(
                                        self.principals(),
                                        bindings@,
                                        i + 1,
                                        *facts,
                                        columns,
                                        *principal,
                                        *resolver,
                                    );
                                }
                                return Err(e);
                            },
                        }
                    },
                    BindingKind::ColumnMask => {
                        if binding.match_columns.len() > 0 {
                            let selected = matched_columns(
                                &binding.match_columns[0],
                                facts,
                                fields,
                            );
                            apply_mask(binding, &selected, facts, fields, resolver, &mut policy);
                        }
                    },
                }
            }
            i += 1;
        }
        assert(bindings@.take(i as int) =~= bindings@);
        Ok(policy)
    }
}

/// A fault among the first bindings is the fault of all of them.
proof fn lemma_fault_stays<M: PrincipalMatcher>(
    matcher: M,
    bindings: Seq<PolicyBinding>,
    n: int,
    facts: TableFacts,
    columns: Seq<Seq<char>>,
    principal: PrincipalIdentity,
    resolver: Option<ResolvedFunctions>,
)
    requires
        0 <= n <= bindings.len(),
        all_bound(matcher, bindings.take(n), facts, columns, principal, resolver) is Err,
    ensures
        all_bound(matcher, bindings, facts, columns, principal, resolver) == all_bound(
            matcher,
            bindings.take(n),
            facts,
            columns,
            principal,
            resolver,
        ),
    decreases bindings.len() - n,
{
    if n == bindings.len() {
        assert(bindings.take(n) =~= bindings);
    } else {
        assert(bindings.take(n + 1).drop_last() =~= bindings.take(n));
        lemma_fault_stays(matcher, bindings, n + 1, facts, columns, principal, resolver);
    }
}

/// Whether a binding puts its function to use: it applies, and it filters rows
/// or masks a column of the scan.
pub open spec fn in_use<M: PrincipalMatcher>(
    matcher: M,
    binding: PolicyBinding,
    facts: TableFacts,
    columns: Seq<Seq<char>>,
    principal: PrincipalIdentity,
) -> bool {
    &&& applies_to(matcher, binding, principal)
    &&& all_hold(binding.when_condition@, facts.governed_tags@)
    &&& match binding.kind {
        BindingKind::RowFilter => true,
        BindingKind::ColumnMask => binding.match_columns@.len() > 0 && matched(
            binding.match_columns@[0],
            facts,
            columns,
        ).len() > 0,
    }
}

/// The functions of the bindings in use, in binding order.
pub open spec fn functions_in_use<M: PrincipalMatcher>(
    matcher: M,
    bindings: Seq<PolicyBinding>,
    facts: TableFacts,
    columns: Seq<Seq<char>>,
    principal: PrincipalIdentity,
) -> Seq<Seq<char>>
    decreases bindings.len(),
{
    if bindings.len() == 0 {
        Seq::empty()
    } else {
        let before = functions_in_use(matcher, bindings.drop_last(), facts, columns, principal);
        if in_use(matcher, bindings.last(), facts, columns, principal) {
            before.push(bindings.last().function@)
        } else {
            before
        }
    }
}

impl<M: PrincipalMatcher> AbacPolicyEngine<M> {
    /// The names of the functions that [`constraints`](Self::constraints) looks up,
    /// for the host to ask its catalog about beforehand.
    pub fn required_functions(
        &self,
        table: &TableReference,
        fields: &Vec<Field>,
        principal: &PrincipalIdentity,
        eval: &EvalContext,
    ) -> (r: Vec<String>)
        ensures
            ({
                let facts = eval.catalog_facts.facts();
                let key = dotted(table@);
                if facts.contains_key(key) {
                    texts(r@) == functions_in_use(
                        self.principals(),
                        facts[key].policies@,
                        facts[key],
                        field_names(fields@),
                        *principal,
                    )
                } else {
                    r@.len() == 0
                }
            }),
    {
        let mut names: Vec<String> = Vec::new();
        let facts = match eval.catalog_facts.get(table) {
            Some(facts) => facts,
            None => return names,
        };
        let ghost columns = field_names(fields@);
        let bindings = &facts.policies;
        let mut i: usize = 0;
        proof {
            assert(texts(names@) =~= functions_in_use(
                self.principals(),
                bindings@.take(0),
                *facts,
                columns,
                *principal,
            ));
        }
        while i < bindings.len()
            invariant
                i <= bindings@.len(),
                columns == field_names(fields@),
                texts(names@) == functions_in_use(
                    self.principals(),
                    bindings@.take(i as int),
                    *facts,
                    columns,
                    *principal,
                ),
            decreases bindings@.len() - i,
        {
            let binding = &bindings[i];
            let ghost before = names@;
            proof {
                assert(bindings@.take(i + 1).drop_last() =~= bindings@.take(i as int));
                assert(bindings@.take(i + 1).last() == *binding);
            }
            let mut used = self.principal_applies(binding, principal) && all_match(
                &binding.when_condition,
                &facts.governed_tags,
            );
            if used && binding.kind == BindingKind::ColumnMask {
                if binding.match_columns.len() > 0 {
                    let selected = matched_columns(&binding.match_columns[0], facts, fields);
                    assert(texts(selected@).len() == selected@.len());
                    used = selected.len() > 0;
                } else {
                    used = false;
                }
            }
            if used {
                names.push(binding.function.clone());
                assert(texts(names@) =~= texts(before).push(binding.function@));
            }
            i += 1;
        }
        assert(bindings@.take(i as int) =~= bindings@);
        names
    }
}

} // verus!
