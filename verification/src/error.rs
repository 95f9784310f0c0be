//! The errors of the policy layer.

use vstd::prelude::*;

use crate::outside::uid_fault;
use crate::posture::Posture;

verus! {

/// Why the policy layer refused.
#[derive(Debug, PartialEq, Eq)]
pub enum PolicyError {
    /// A row-filter policy names a function, and no catalog is wired to look it
    /// up.
    NoFunctionResolver { policy: String, function: String },
    /// A row-filter policy's function does not resolve; the text is the
    /// catalog's.
    UnresolvedFunction(String),
    /// A uid is not one of the engine's; the text is the engine's.
    InvalidUid { uid: String, reason: String },
    /// The engine refused what was put to it; the text is the engine's.
    Engine(String),
    /// A posture that evaluates policies was chosen without an engine.
    NoEngine(Posture),
    /// The identity facts of a principal could not be had; the text is the
    /// provider's.
    Enrichment { principal: String, reason: String },
    /// A query came from a session that no principal is bound to.
    NoPrincipal,
    /// The principal may not run the query.
    NotAuthorized(String),
    /// A table is to be secured, and no engine is bound to the session.
    NoEngineForTable,
    /// A table is to be secured, and no principal is bound to the session.
    NoPrincipalForTable,
}

/// A text as Rust's `{:?}` renders it.
pub uninterp spec fn debug_text(text: Seq<char>) -> Seq<char>;

/// `{:?}` of a `str`: the text between quotation marks, escaped as Rust's `Debug`
/// escapes it.
#[verifier::external_body]
fn quoted(text: &str) -> (r: String)
    ensures
        r@ == debug_text(text@),
{
    format!("{text:?}")
}

impl PolicyError {
    /// Whether the error is that `uid` is not a uid, for the reason the engine gives.
    pub open spec fn names_uid(&self, uid: Seq<char>) -> bool {
        self matches PolicyError::InvalidUid { uid: named, reason } && named@ == uid && reason@
            == uid_fault(uid)
    }

    /// The error's text.
    pub open spec fn text(&self) -> Seq<char> {
        match self {
            PolicyError::NoFunctionResolver { policy, function } => "row-filter policy "@
                + debug_text(policy@) + " names function "@ + debug_text(function@)
                + " but no CatalogFunctionResolver is wired; refusing to run the query unfiltered (fail-closed)"@,
            PolicyError::UnresolvedFunction(reason) => reason@,
            PolicyError::InvalidUid { uid, reason } => "invalid principal/entity uid '"@ + uid@
                + "': "@ + reason@,
            PolicyError::Engine(reason) => reason@,
            PolicyError::NoEngine(posture) => "Governance posture "@ + posture.text()
                + " requires a policy engine; none was set"@,
            PolicyError::Enrichment { principal, reason } => "identity enrichment failed for '"@
                + principal@ + "': "@ + reason@,
            PolicyError::NoPrincipal => "no principal bound to session; cannot authorize query"@,
            PolicyError::NotAuthorized(principal) => "Principal '"@ + principal@
                + "' is not authorized to execute this query"@,
            PolicyError::NoEngineForTable =>
                "no policy engine bound to session config; cannot govern table"@,
            PolicyError::NoPrincipalForTable =>
                "no principal bound to session config; cannot govern table"@,
        }
    }

    /// The error's text.
    pub fn message(&self) -> (r: String)
        ensures
            r@ == self.text(),
    {
        match self {
            PolicyError::NoFunctionResolver { policy, function } => {
                let mut text = "row-filter policy ".to_owned();
                text.append(quoted(policy.as_str()).as_str());
                text.append(" names function ");
                text.append(quoted(function.as_str()).as_str());
                text.append(
                    " but no CatalogFunctionResolver is wired; refusing to run the query unfiltered (fail-closed)",
                );
                text
            },
            PolicyError::UnresolvedFunction(reason) => reason.clone(),
            PolicyError::InvalidUid { uid, reason } => {
                let mut text = "invalid principal/entity uid '".to_owned();
                text.append(uid.as_str());
                text.append("': ");
                text.append(reason.as_str());
                text
            },
            PolicyError::Engine(reason) => reason.clone(),
            PolicyError::NoEngine(posture) => {
                let mut text = "Governance posture ".to_owned();
                text.append(posture.name());
                text.append(" requires a policy engine; none was set");
                text
            },
            PolicyError::Enrichment { principal, reason } => {
                let mut text = "identity enrichment failed for '".to_owned();
                text.append(principal.as_str());
                text.append("': ");
                text.append(reason.as_str());
                text
            },
            PolicyError::NoPrincipal => {
                "no principal bound to session; cannot authorize query".to_owned()
            },
            PolicyError::NotAuthorized(principal) => {
                let mut text = "Principal '".to_owned();
                text.append(principal.as_str());
                text.append("' is not authorized to execute this query");
                text
            },
            PolicyError::NoEngineForTable => {
                "no policy engine bound to session config; cannot govern table".to_owned()
            },
            PolicyError::NoPrincipalForTable => {
                "no principal bound to session config; cannot govern table".to_owned()
            },
        }
    }
}

} // verus!
