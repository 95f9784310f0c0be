//! The fine-grained enforcement that applies to one table for one principal.

use vstd::prelude::*;

use crate::expr::{models, Expr, ExprModel};
use crate::names::NameMap;

verus! {

/// The row filters and column masks of one table, for one principal: what every
/// policy engine reduces its fine-grained decisions to.
#[derive(Debug)]
pub struct TablePolicy {
    /// Conjunctive row-filter predicates over the table's columns.
    pub row_filters: Vec<Expr>,
    /// Column name → replacement expression for masked columns.
    pub column_masks: NameMap<Expr>,
}

/// The mathematical model of a [`TablePolicy`].
#[verifier::ext_equal]
pub struct PolicyModel {
    pub row_filters: Seq<ExprModel>,
    pub column_masks: Map<Seq<char>, ExprModel>,
}

/// The models of a map's expressions.
pub open spec fn mask_models(masks: Map<Seq<char>, Expr>) -> Map<Seq<char>, ExprModel> {
    masks.map_values(|e: Expr| e@)
}

impl View for TablePolicy {
    type V = PolicyModel;

    open spec fn view(&self) -> PolicyModel {
        PolicyModel {
            row_filters: models(self.row_filters@),
            column_masks: mask_models(self.column_masks@),
        }
    }
}

impl PolicyModel {
    /// Whether there is nothing to enforce.
    pub open spec fn nothing(self) -> bool {
        self.row_filters.len() == 0 && self.column_masks == Map::<Seq<char>, ExprModel>::empty()
    }
}

/// A map's models are empty exactly where the map is.
pub proof fn lemma_masks_empty(masks: Map<Seq<char>, Expr>)
    ensures
        (masks == Map::<Seq<char>, Expr>::empty()) == (mask_models(masks) == Map::<
            Seq<char>,
            ExprModel,
        >::empty()),
{
    assert(mask_models(masks).dom() =~= masks.dom());
    if masks == Map::<Seq<char>, Expr>::empty() {
        assert(mask_models(masks) =~= Map::<Seq<char>, ExprModel>::empty());
    }
    if mask_models(masks) == Map::<Seq<char>, ExprModel>::empty() {
        assert(masks =~= Map::<Seq<char>, Expr>::empty());
    }
}

impl TablePolicy {
    /// Whether there is nothing to enforce.
    pub fn is_empty(&self) -> (r: bool)
        ensures
            r == self@.nothing(),
    {
        proof {
            lemma_masks_empty(self.column_masks@);
        }
        self.row_filters.len() == 0 && self.column_masks.is_empty()
    }
}

impl Default for TablePolicy {
    fn default() -> (r: Self)
        ensures
            r@.nothing(),
            r@.row_filters == Seq::<ExprModel>::empty(),
            r@.column_masks == Map::<Seq<char>, ExprModel>::empty(),
    {
        let r = TablePolicy { row_filters: Vec::new(), column_masks: NameMap::new() };
        proof {
            assert(r@.row_filters =~= Seq::<ExprModel>::empty());
            assert(r@.column_masks =~= Map::<Seq<char>, ExprModel>::empty());
        }
        r
    }
}

} // verus!
