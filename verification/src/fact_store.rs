//! The session's taint ledger.
//!
//! Reading a classified column taints the session. The ledger holds the taints
//! of each session by its correlation id; it only ever grows, and recording the
//! same taints again changes nothing.

use vstd::prelude::*;

use crate::names::{NameMap, NameSet};

verus! {

/// Where the taints of sessions are kept.
pub trait FactStore {
    /// The taints of the session `correlation_id`. How they are kept is the store's
    /// business.
    closed spec fn taints(&self, correlation_id: Seq<char>) -> Set<Seq<char>> {
        arbitrary()
    }

    /// Add `taints` to those of the session `correlation_id`.
    fn record_taints(&mut self, correlation_id: &str, taints: &NameSet)
        ensures
            final(self).taints(correlation_id@) == old(self).taints(correlation_id@).union(taints@),
            forall|other: Seq<char>|
                other != correlation_id@ ==> #[trigger] final(self).taints(other) == old(
                    self,
                ).taints(other),
    ;

    /// The taints of the session `correlation_id`.
    fn observed_taints(&self, correlation_id: &str) -> (r: NameSet)
        ensures
            r@ == self.taints(correlation_id@),
    ;
}

/// A [`FactStore`] that lives in memory.
#[derive(Debug)]
pub struct InMemoryFactStore {
    sessions: NameMap<NameSet>,
}

impl InMemoryFactStore {
    /// A store in which no session has a taint.
    pub fn new() -> (r: Self)
        ensures
            forall|id: Seq<char>| #[trigger] r.taints(id) == Set::<Seq<char>>::empty(),
    {
        InMemoryFactStore { sessions: NameMap::new() }
    }
}

impl FactStore for InMemoryFactStore {
    closed spec fn taints(&self, correlation_id: Seq<char>) -> Set<Seq<char>> {
        if self.sessions@.contains_key(correlation_id) {
            self.sessions@[correlation_id]@
        } else {
            Set::empty()
        }
    }

    fn record_taints(&mut self, correlation_id: &str, taints: &NameSet) {
        let mut known = self.observed_taints(correlation_id);
        known.extend(taints);
        self.sessions.insert(correlation_id.to_owned(), known);
    }

    fn observed_taints(&self, correlation_id: &str) -> (r: NameSet) {
        match self.sessions.get(correlation_id) {
            Some(known) => known.clone(),
            None => NameSet::new(),
        }
    }
}

/// Whether `after` is a store in which `taints` have been recorded for a session of
/// `before`.
pub open spec fn recorded<S: FactStore>(
    before: S,
    after: S,
    session: Seq<char>,
    taints: Set<Seq<char>>,
) -> bool {
    &&& after.taints(session) == before.taints(session).union(taints)
    &&& forall|other: Seq<char>|
        other != session ==> #[trigger] after.taints(other) == before.taints(other)
}

/// **Taints accrue.** Recording taints loses none, of any session, and recording
/// the same taints a second time changes nothing.
pub proof fn law_taints_accrue<S: FactStore>(
    first: S,
    second: S,
    third: S,
    session: Seq<char>,
    taints: Set<Seq<char>>,
    any: Seq<char>,
)
    requires
        recorded(first, second, session, taints),
        recorded(second, third, session, taints),
    ensures
        first.taints(any).subset_of(second.taints(any)),
        taints.subset_of(second.taints(session)),
        third.taints(any) == second.taints(any),
{
    assert(first.taints(session).union(taints).union(taints) =~= first.taints(session).union(
        taints,
    ));
}

} // verus!
