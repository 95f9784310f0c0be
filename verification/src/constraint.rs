//! The constraint-translation seam: lower what an engine's partial evaluation
//! leaves over to a row predicate.

use vstd::prelude::*;

use crate::expr::Expr;
use crate::translate::ResidualError;

verus! {

/// Translates an engine's residual into a row predicate.
///
/// The residual's type is the engine's own; the predicate is neutral. `Ok(None)`
/// means that the residual restricts nothing. An error is a residual that is not
/// a row predicate, which the caller treats as fail-closed.
pub trait ConstraintTranslator {
    /// The residual this translator reads.
    type Residual;

    /// The row predicate of `residual`.
    fn to_predicate(&self, residual: &Self::Residual) -> Result<Option<Expr>, ResidualError>;
}

} // verus!
