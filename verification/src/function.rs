//! Catalog functions that policies name.
//!
//! A policy may name a catalog function that masks a column or filters a row.
//! Looking the name up is the catalog's business: the host asks its catalog and
//! records the outcome for each name, and the policy layer reads the record.

use vstd::prelude::*;

use crate::names::NameMap;

verus! {

/// What the catalog said of each function name it was asked for.
#[derive(Debug)]
pub struct ResolvedFunctions {
    outcomes: NameMap<Result<(), String>>,
}

impl ResolvedFunctions {
    /// The recorded outcomes, by name.
    pub closed spec fn outcomes(&self) -> Map<Seq<char>, Result<(), String>> {
        self.outcomes@
    }

    /// Whether the catalog has a function of this name.
    pub open spec fn resolves(&self, name: Seq<char>) -> bool {
        self.outcomes().contains_key(name) && self.outcomes()[name] is Ok
    }

    /// A record with no outcome in it: no name resolves.
    pub fn new() -> (r: Self)
        ensures
            r.outcomes() == Map::<Seq<char>, Result<(), String>>::empty(),
    {
        ResolvedFunctions { outcomes: NameMap::new() }
    }

    /// Record what the catalog said of `name`; an error carries its text.
    pub fn record(&mut self, name: &str, outcome: Result<(), String>)
        ensures
            final(self).outcomes() == old(self).outcomes().insert(name@, outcome),
    {
        self.outcomes.insert(name.to_owned(), outcome);
    }

    /// Look `name` up. A name that was never asked for does not resolve.
    pub fn resolve(&self, name: &str) -> (r: Result<(), String>)
        ensures
            r is Ok == self.resolves(name@),
            self.outcomes().contains_key(name@) && self.outcomes()[name@] is Err ==> r->Err_0@
                == self.outcomes()[name@]->Err_0@,
            !self.outcomes().contains_key(name@) ==> r->Err_0@ == "no such function "@ + name@,
    {
        match self.outcomes.get(name) {
            Some(Ok(())) => Ok(()),
            Some(Err(reason)) => Err(reason.clone()),
            None => {
                let mut reason = "no such function ".to_owned();
                reason.append(name);
                Err(reason)
            },
        }
    }
}

} // verus!
