//! The policy-binding model: the parsed shape of a catalog's ABAC policy.
//!
//! A binding ties principals and tag-matched columns to a row-filter or
//! column-mask function. The bindings of a table are catalog facts: the host
//! fetches them, folds the catalog → schema → table hierarchy, and parses the
//! predicate strings into [`TagCondition`]s.

use vstd::prelude::*;

use crate::names::NameMap;

verus! {

/// Whether a binding installs a row filter or a column mask.
#[derive(Debug, Clone, Copy, PartialEq, Eq, Structural)]
pub enum BindingKind {
    /// A predicate function whose call becomes a row filter.
    RowFilter,
    /// A masking function applied to each matched column.
    ColumnMask,
}

/// A governed-tag matcher: on the key alone when `value` is `None`, on key and
/// value otherwise.
#[derive(Debug, Clone, PartialEq, Eq)]
pub struct TagCondition {
    /// The governed-tag key to test for.
    pub key: String,
    /// The required value; `None` matches on key presence alone.
    pub value: Option<String>,
}

impl TagCondition {
    /// The key is present, and its value is the required one where one is
    /// required.
    pub open spec fn holds(&self, tags: Map<Seq<char>, String>) -> bool {
        &&& tags.contains_key(self.key@)
        &&& match self.value {
            Some(want) => tags[self.key@]@ == want@,
            None => true,
        }
    }

    /// Whether `tags` (a securable's governed key→value tags) satisfies this
    /// condition. Case-sensitive.
    pub fn matches(&self, tags: &NameMap<String>) -> (r: bool)
        ensures
            r == self.holds(tags@),
    {
        match (&self.value, tags.get(self.key.as_str())) {
            (None, Some(_)) => true,
            (Some(want), Some(have)) => *want == *have,
            (_, None) => false,
        }
    }
}

/// A column matcher: the columns whose governed tags satisfy `condition` are
/// exposed to the function under `alias`.
#[derive(Debug, Clone, PartialEq, Eq)]
pub struct ColumnMatch {
    /// The tag condition a column's governed tags must satisfy to be matched.
    pub condition: TagCondition,
    /// The alias the matched columns are bound to in [`FunctionArg::Alias`].
    pub alias: String,
}

/// One argument to a binding's function.
#[derive(Debug, Clone, PartialEq, Eq)]
pub enum FunctionArg {
    /// The column matched by the [`ColumnMatch`] with this alias.
    Alias(String),
    /// A constant string argument, passed as a literal.
    Constant(String),
}

/// One parsed policy: principals and tag-matched columns → a row-filter or
/// column-mask function call.
#[derive(Debug, Clone, PartialEq, Eq)]
pub struct PolicyBinding {
    /// The policy's name, for diagnostics.
    pub name: String,
    /// Whether this is a row filter or a column mask.
    pub kind: BindingKind,
    /// The principal names (users, groups) the policy applies to. The sentinel
    /// `"account users"` matches every principal.
    pub to_principals: Vec<String>,
    /// The principal names the policy is excepted for. Overrides
    /// `to_principals`.
    pub except_principals: Vec<String>,
    /// The table-tag conjunction: every condition must hold on the table's
    /// governed tags. Empty means that the binding always applies.
    pub when_condition: Vec<TagCondition>,
    /// The column matchers. For a mask, the first one names the masked columns.
    pub match_columns: Vec<ColumnMatch>,
    /// The catalog-qualified name of the function to call.
    pub function: String,
    /// The function's arguments, in order.
    pub using_args: Vec<FunctionArg>,
}

} // verus!
