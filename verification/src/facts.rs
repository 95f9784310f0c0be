//! Facts about tables, gathered while the catalog resolves them.

use vstd::prelude::*;

use crate::binding::PolicyBinding;
use crate::function::ResolvedFunctions;
use crate::names::{NameMap, NameSet};
use crate::table::{dotted, TableReference};

verus! {

/// What the catalog knows of one table.
#[derive(Debug, Clone)]
pub struct TableFacts {
    /// The table's owner.
    pub owner: Option<String>,
    /// Who may read the table.
    pub readers: NameSet,
    /// Who may write the table.
    pub writers: NameSet,
    /// The table's classification tags.
    pub tags: NameSet,
    /// The classification tags of each column.
    pub column_tags: NameMap<NameSet>,
    /// The table's governed key→value tags.
    pub governed_tags: NameMap<String>,
    /// The governed key→value tags of each column.
    pub governed_column_tags: NameMap<NameMap<String>>,
    /// The policies bound to the table, inheritance already folded.
    pub policies: Vec<PolicyBinding>,
}

impl TableFacts {
    /// Whether nothing is known of the table.
    pub open spec fn nothing_known(&self) -> bool {
        &&& self.owner is None
        &&& self.readers@ == Set::<Seq<char>>::empty()
        &&& self.writers@ == Set::<Seq<char>>::empty()
        &&& self.tags@ == Set::<Seq<char>>::empty()
        &&& self.column_tags@ == Map::<Seq<char>, NameSet>::empty()
        &&& self.governed_tags@ == Map::<Seq<char>, String>::empty()
        &&& self.governed_column_tags@ == Map::<Seq<char>, NameMap<String>>::empty()
        &&& self.policies@.len() == 0
    }

    /// Whether nothing is known of the table.
    pub fn is_empty(&self) -> (r: bool)
        ensures
            r == self.nothing_known(),
    {
        self.owner.is_none() && self.readers.is_empty() && self.writers.is_empty()
            && self.tags.is_empty() && self.column_tags.is_empty() && self.governed_tags.is_empty()
            && self.governed_column_tags.is_empty() && self.policies.len() == 0
    }

    /// Whether reading the columns `accessed` meets the classification `tag`.
    pub open spec fn tainted_by(&self, accessed: Seq<Seq<char>>, tag: Seq<char>) -> bool {
        exists|i: int|
            0 <= i < accessed.len() && self.column_tags@.contains_key(#[trigger] accessed[i])
                && self.column_tags@[accessed[i]]@.contains(tag)
    }

    /// The classification tags carried by the columns `accessed`.
    pub fn taints_for_columns(&self, accessed: &Vec<String>) -> (r: NameSet)
        ensures
            forall|tag: Seq<char>| #[trigger]
                r@.contains(tag) <==> self.tainted_by(crate::names::texts(accessed@), tag),
    {
        let ghost names = crate::names::texts(accessed@);
        let mut taints = NameSet::new();
        let mut i: usize = 0;
        while i < accessed.len()
            invariant
                i <= accessed@.len(),
                names == crate::names::texts(accessed@),
                forall|tag: Seq<char>| #[trigger]
                    taints@.contains(tag) <==> self.tainted_by(names.take(i as int), tag),
            decreases accessed@.len() - i,
        {
            let ghost before = taints@;
            let ghost here = names[i as int];
            match self.column_tags.get(accessed[i].as_str()) {
                Some(tags) => taints.extend(tags),
                None => {},
            }
            proof {
                assert forall|tag: Seq<char>| #[trigger] taints@.contains(tag)
                    <==> self.tainted_by(names.take(i + 1), tag) by {
                    let now = names.take(i + 1);
                    assert(now[i as int] == here);
                    if self.tainted_by(names.take(i as int), tag) {
                        let k = choose|k: int|
                            0 <= k < i && self.column_tags@.contains_key(
                                #[trigger] names.take(i as int)[k],
                            ) && self.column_tags@[names.take(i as int)[k]]@.contains(tag);
                        assert(now[k] == names.take(i as int)[k]);
                    }
                    if self.tainted_by(now, tag) {
                        let k = choose|k: int|
                            0 <= k < i + 1 && self.column_tags@.contains_key(#[trigger] now[k])
                                && self.column_tags@[now[k]]@.contains(tag);
                        if k < i {
                            assert(names.take(i as int)[k] == now[k]);
                        }
                    }
                }
            }
            i += 1;
        }
        assert(names.take(i as int) =~= names);
        taints
    }
}

impl Default for TableFacts {
    fn default() -> (r: Self)
        ensures
            r.nothing_known(),
    {
        TableFacts {
            owner: None,
            readers: NameSet::new(),
            writers: NameSet::new(),
            tags: NameSet::new(),
            column_tags: NameMap::new(),
            governed_tags: NameMap::new(),
            governed_column_tags: NameMap::new(),
            policies: Vec::new(),
        }
    }
}

/// The key a table's facts are kept under: its name's text.
pub fn normalize(table: &TableReference) -> (r: String)
    ensures
        r@ == dotted(table@),
{
    table.to_text()
}

/// The facts the catalog has gathered for one query, and the tables whose
/// constraints are already enforced by a secured view.
#[derive(Debug, Clone)]
pub struct CatalogFactSink {
    recorded: NameMap<TableFacts>,
    governed: NameSet,
}

impl CatalogFactSink {
    /// The facts, by the text of the table's name.
    pub closed spec fn facts(&self) -> Map<Seq<char>, TableFacts> {
        self.recorded@
    }

    /// The tables marked governed, by the text of their names.
    pub closed spec fn governed(&self) -> Set<Seq<char>> {
        self.governed@
    }

    /// An empty sink.
    pub fn new() -> (r: Self)
        ensures
            r.facts() == Map::<Seq<char>, TableFacts>::empty(),
            r.governed() == Set::<Seq<char>>::empty(),
    {
        CatalogFactSink { recorded: NameMap::new(), governed: NameSet::new() }
    }

    /// Record the facts of `table`, in place of any recorded before.
    pub fn record(&mut self, table: TableReference, facts: TableFacts)
        ensures
            final(self).facts() == old(self).facts().insert(dotted(table@), facts),
            final(self).governed() == old(self).governed(),
    {
        self.recorded.insert(normalize(&table), facts);
    }

    /// The facts of `table`, if any were recorded.
    pub fn get(&self, table: &TableReference) -> (r: Option<&TableFacts>)
        ensures
            match r {
                Some(facts) => self.facts().contains_key(dotted(table@)) && *facts
                    == self.facts()[dotted(table@)],
                None => !self.facts().contains_key(dotted(table@)),
            },
    {
        self.recorded.get(normalize(table).as_str())
    }

    /// Mark `table` as enforced by a secured view.
    pub fn mark_governed(&mut self, table: TableReference)
        ensures
            final(self).governed() == old(self).governed().insert(dotted(table@)),
            final(self).facts() == old(self).facts(),
    {
        self.governed.insert(normalize(&table));
    }

    /// Whether `table` is enforced by a secured view.
    pub fn is_governed(&self, table: &TableReference) -> (r: bool)
        ensures
            r == self.governed().contains(dotted(table@)),
    {
        self.governed.contains(normalize(table).as_str())
    }
}

impl Default for CatalogFactSink {
    fn default() -> (r: Self)
        ensures
            r.facts() == Map::<Seq<char>, TableFacts>::empty(),
            r.governed() == Set::<Seq<char>>::empty(),
    {
        CatalogFactSink::new()
    }
}

/// The facts a decision may draw on that are not part of the plan.
#[derive(Debug)]
pub struct EvalContext {
    /// The facts gathered by the catalog.
    pub catalog_facts: CatalogFactSink,
    /// The id that the session's taints are kept under.
    pub correlation_id: Option<String>,
    /// What the catalog said of the functions policies name; `None` where no
    /// catalog is wired.
    pub function_resolver: Option<ResolvedFunctions>,
}

impl Default for EvalContext {
    fn default() -> (r: Self)
        ensures
            r.catalog_facts.facts() == Map::<Seq<char>, TableFacts>::empty(),
            r.catalog_facts.governed() == Set::<Seq<char>>::empty(),
            r.correlation_id is None,
            r.function_resolver is None,
    {
        EvalContext {
            catalog_facts: CatalogFactSink::new(),
            correlation_id: None,
            function_resolver: None,
        }
    }
}

} // verus!
