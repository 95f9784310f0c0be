//! The decisions of the Cedar policy engine.
//!
//! The coarse gate authorizes every action of a plan. Fine-grained governance
//! runs Cedar's type-aware partial evaluation: a permit that survives it over the
//! table becomes a row filter, and a forbid that fires on a tagged column masks
//! the column. Every ambiguity denies rather than exposes data.

use cedar_policy::{
    Context, Entity, PartialEntities, PartialEntity, PartialRequest, Policy, PolicySet,
    RestrictedExpression, Schema,
};
use vstd::multiset::Multiset;
use vstd::prelude::*;

use crate::cedar_entity::{lemma_pair_map, lower_attributes, lowered_map, parse_uid};
use crate::error::PolicyError;
use crate::facts::TableFacts;
use crate::names::{texts, NameMap, NameSet};
use crate::outside::{
    decision_of, effect, effect_of, entity, entity_of, evaluate, pair_map, pairs, partial_entities,
    partial_entities_of, partial_entity, partial_entity_of, partial_request, partial_request_of,
    record_expr, record_value, residuals_of, set_expr, set_value, string_expr, string_value,
    typed_uid, typed_uid_of, uid_of, PartialAnswer, PolicyEffect,
};
use crate::principal::PrincipalIdentity;
use crate::table::{dotted, field_names, Field, TableReference};
use crate::types::Decision;

verus! {

// ---------------------------------------------------------------------------
// The table as an entity
// ---------------------------------------------------------------------------

/// A set of names as a value.
pub open spec fn names_value(names: Seq<Seq<char>>) -> RestrictedExpression {
    set_value(Seq::new(names.len(), |i: int| string_value(names[i])))
}

/// The fields of the record of column tags.
pub open spec fn column_tag_fields(tags: NameMap<NameSet>) -> Seq<
    (Seq<char>, RestrictedExpression),
> {
    Seq::new(
        tags.keys().len(),
        |i: int| (tags.keys()[i], names_value(tags@[tags.keys()[i]].listed())),
    )
}

/// The attributes of a table's entity.
pub open spec fn table_attributes(facts: TableFacts) -> Map<Seq<char>, RestrictedExpression> {
    let owned = match facts.owner {
        Some(owner) => Map::empty().insert("owner"@, string_value(owner@)),
        None => Map::empty(),
    };
    let listed = owned.insert("readers"@, names_value(facts.readers.listed())).insert(
        "writers"@,
        names_value(facts.writers.listed()),
    ).insert("tags"@, names_value(facts.tags.listed()));
    match record_value(column_tag_fields(facts.column_tags)) {
        Some(record) => listed.insert("column_tags"@, record),
        None => listed,
    }
}

/// The entity of a table, carrying what is known of it. None where nothing is
/// known, or where it cannot be built.
pub open spec fn table_entity_of(table: Seq<Seq<char>>, facts: TableFacts) -> Option<Entity> {
    if facts.nothing_known() {
        None
    } else {
        match typed_uid_of("Table"@, dotted(table)) {
            Some(uid) => entity_of(uid, table_attributes(facts), Set::empty()),
            None => None,
        }
    }
}

/// A set of names as a value.
pub fn names_expr(names: &NameSet) -> (r: RestrictedExpression)
    ensures
        r == names_value(names.listed()),
{
    let n: usize = names.len();
    let mut items: Vec<RestrictedExpression> = Vec::new();
    let mut i: usize = 0;
    while i < n
        invariant
            i <= n,
            n == names.listed().len(),
            items@.len() == i,
            forall|j: int| 0 <= j < i ==> #[trigger] items@[j] == string_value(names.listed()[j]),
        decreases n - i,
    {
        items.push(string_expr(names.name_at(i)));
        i += 1;
    }
    proof {
        let listed = names.listed();
        assert(items@ =~= Seq::new(listed.len(), |i: int| string_value(listed[i])));
    }
    set_expr(items)
}

/// The entity of a table, so that a policy can resolve the table's owner, readers,
/// writers, tags and column tags. None where nothing is known of the table; an
/// entity that cannot be built is left out, so that authorization stays closed.
pub fn table_entity(table: &TableReference, facts: &TableFacts) -> (r: Option<Entity>)
    ensures
        r == table_entity_of(table@, *facts),
{
    if facts.is_empty() {
        return None;
    }
    let uid = match typed_uid("Table", table.to_text().as_str()) {
        Ok(uid) => uid,
        Err(_) => return None,
    };
    let mut attrs: Vec<(String, RestrictedExpression)> = Vec::new();
    assert(pair_map(attrs@) =~= Map::empty());
    match &facts.owner {
        Some(owner) => push_pair(&mut attrs, "owner", string_expr(owner.as_str())),
        None => {},
    }
    push_pair(&mut attrs, "readers", names_expr(&facts.readers));
    push_pair(&mut attrs, "writers", names_expr(&facts.writers));
    push_pair(&mut attrs, "tags", names_expr(&facts.tags));
    let n: usize = facts.column_tags.len();
    let ghost keys = facts.column_tags.keys();
    let mut fields: Vec<(String, RestrictedExpression)> = Vec::new();
    let mut i: usize = 0;
    while i < n
        invariant
            i <= n,
            n == keys.len(),
            keys == facts.column_tags.keys(),
            fields@.len() == i,
            forall|j: int|
                0 <= j < i ==> (#[trigger] fields@[j]).0@ == keys[j] && fields@[j].1 == names_value(
                    facts.column_tags@[keys[j]].listed(),
                ),
        decreases n - i,
    {
        let column = facts.column_tags.key_at(i).to_owned();
        fields.push((column, names_expr(facts.column_tags.value_at(i))));
        i += 1;
    }
    assert(pairs(fields@) =~= column_tag_fields(facts.column_tags));
    match record_expr(fields) {
        Ok(record) => push_pair(&mut attrs, "column_tags", record),
        Err(_) => {},
    }
    let parents: Vec<cedar_policy::EntityUid> = Vec::new();
    assert(parents@.to_set() =~= Set::<cedar_policy::EntityUid>::empty());
    match entity(&uid, attrs, parents) {
        Ok(e) => Some(e),
        Err(_) => None,
    }
}

/// Append a pair.
fn push_pair(list: &mut Vec<(String, RestrictedExpression)>, key: &str, value: RestrictedExpression)
    ensures
        pair_map(final(list)@) == pair_map(old(list)@).insert(key@, value),
{
    list.push((key.to_owned(), value));
    assert(list@.drop_last() =~= old(list)@);
}

// ---------------------------------------------------------------------------
// Tags
// ---------------------------------------------------------------------------

/// Governed tags as values.
pub open spec fn tag_values(tags: Map<Seq<char>, String>) -> Map<Seq<char>, RestrictedExpression> {
    tags.map_values(|v: String| string_value(v@))
}

/// Lower governed tags.
pub(crate) fn native_tags(tags: &NameMap<String>) -> (r: Vec<(String, RestrictedExpression)>)
    ensures
        pair_map(r@) == tag_values(tags@),
{
    let n: usize = tags.len();
    let ghost keys = tags.keys();
    let mut list: Vec<(String, RestrictedExpression)> = Vec::new();
    let mut i: usize = 0;
    while i < n
        invariant
            i <= n,
            n == keys.len(),
            keys == tags.keys(),
            list@.len() == i,
            forall|j: int|
                0 <= j < i ==> (#[trigger] list@[j]).0@ == keys[j] && list@[j].1 == string_value(
                    tags@[keys[j]]@,
                ),
        decreases n - i,
    {
        list.push((tags.key_at(i).to_owned(), string_expr(tags.value_at(i).as_str())));
        i += 1;
    }
    proof {
        assert(tag_values(tags@).dom() =~= keys.to_set());
        assert forall|j: int| 0 <= j < keys.len() implies (#[trigger] list@[j]).1 == tag_values(
            tags@,
        )[keys[j]] by {
            assert(keys.to_set().contains(keys[j]));
        }
        lemma_pair_map(list@, keys, tag_values(tags@));
    }
    list
}

/// Whether a column carries governed tags.
pub open spec fn is_tagged(facts: TableFacts, column: Seq<char>) -> bool {
    facts.governed_column_tags@.contains_key(column) && facts.governed_column_tags@[column]@
        != Map::<Seq<char>, String>::empty()
}

/// The columns that carry governed tags, in order.
pub open spec fn tagged(facts: TableFacts, columns: Seq<Seq<char>>) -> Seq<Seq<char>>
    decreases columns.len(),
{
    if columns.len() == 0 {
        Seq::empty()
    } else {
        let before = tagged(facts, columns.drop_last());
        if is_tagged(facts, columns.last()) {
            before.push(columns.last())
        } else {
            before
        }
    }
}

/// The columns that can be masked: those the scan reads that carry governed tags.
pub fn mask_candidate_columns(fields: &Vec<Field>, facts: &TableFacts) -> (r: Vec<String>)
    ensures
        texts(r@) == tagged(*facts, field_names(fields@)),
{
    let ghost columns = field_names(fields@);
    let mut candidates: Vec<String> = Vec::new();
    let mut i: usize = 0;
    assert(texts(candidates@) =~= tagged(*facts, columns.take(0)));
    while i < fields.len()
        invariant
            i <= fields@.len(),
            columns == field_names(fields@),
            texts(candidates@) == tagged(*facts, columns.take(i as int)),
        decreases fields@.len() - i,
    {
        let name = &fields[i].name;
        let ghost before = candidates@;
        let hit = match facts.governed_column_tags.get(name.as_str()) {
            Some(tags) => !tags.is_empty(),
            None => false,
        };
        if hit {
            candidates.push(name.clone());
            assert(texts(candidates@) =~= texts(before).push(name@));
        }
        proof {
            assert(columns.take(i + 1).drop_last() =~= columns.take(i as int));
            assert(columns.take(i + 1).last() == name@);
        }
        i += 1;
    }
    assert(columns.take(i as int) =~= columns);
    candidates
}

// ---------------------------------------------------------------------------
// Partial evaluation over the table
// ---------------------------------------------------------------------------

/// A question put to partial evaluation: what a principal may read of a table.
pub struct TableQuery<'a> {
    /// The policies in force.
    pub policies: &'a PolicySet,
    /// The schema the policies are typed by.
    pub schema: &'a Schema,
    /// The context of the request.
    pub context: &'a Context,
    /// The table.
    pub table: &'a TableReference,
    /// Who reads it.
    pub principal: &'a PrincipalIdentity,
    /// What is known of the table.
    pub facts: Option<&'a TableFacts>,
}

/// The principal for partial evaluation: attributes known, no ancestors.
pub open spec fn principal_partial(q: TableQuery) -> Option<PartialEntity> {
    match uid_of(q.principal.uid@) {
        Some(uid) => partial_entity_of(
            uid,
            Some(lowered_map(q.principal.attributes@)),
            Some(Set::empty()),
            None,
            *q.schema,
        ),
        None => None,
    }
}

/// The governed tags of a table; none where nothing is known of it.
pub open spec fn table_tags(facts: Option<&TableFacts>) -> Map<Seq<char>, String> {
    match facts {
        Some(facts) => facts.governed_tags@,
        None => Map::empty(),
    }
}

/// The table for partial evaluation: its tags known, so that conditions on them
/// fold; its attributes unknown, so that conditions on them survive.
pub open spec fn table_partial(q: TableQuery) -> Option<PartialEntity> {
    match typed_uid_of("Table"@, dotted(q.table@)) {
        Some(uid) => partial_entity_of(
            uid,
            None,
            None,
            Some(tag_values(table_tags(q.facts))),
            *q.schema,
        ),
        None => None,
    }
}

/// The request to read the table.
pub open spec fn read_request(q: TableQuery) -> Option<PartialRequest> {
    match (
        uid_of(q.principal.uid@),
        typed_uid_of("Action"@, "read_table"@),
        typed_uid_of("Table"@, dotted(q.table@)),
    ) {
        (Some(who), Some(action), Some(what)) => partial_request_of(
            who,
            action,
            what,
            *q.context,
            *q.schema,
        ),
        _ => None,
    }
}

/// A principal and a resource, as all that partial evaluation knows of.
pub open spec fn known_pair(
    who: Option<PartialEntity>,
    what: Option<PartialEntity>,
    schema: Schema,
) -> Option<PartialEntities> {
    match (who, what) {
        (Some(who), Some(what)) => partial_entities_of(seq![who, what], schema),
        _ => None,
    }
}

/// What partial evaluation decides about the rows of the table: a decision, no
/// decision yet (`Some(None)`), or `None` where it cannot run.
pub open spec fn table_decision(q: TableQuery) -> Option<Option<Decision>> {
    match (read_request(q), known_pair(principal_partial(q), table_partial(q), *q.schema)) {
        (Some(request), Some(known)) => decision_of(*q.policies, request, known, *q.schema),
        _ => None,
    }
}

/// The policies that partial evaluation leaves over the rows of the table.
pub open spec fn table_leftovers(q: TableQuery) -> Multiset<Policy> {
    match (read_request(q), known_pair(principal_partial(q), table_partial(q), *q.schema)) {
        (Some(request), Some(known)) => residuals_of(*q.policies, request, known, *q.schema),
        _ => Multiset::empty(),
    }
}

/// Whether a list holds policies of one effect only.
pub open spec fn all_effect(policies: Seq<Policy>, wanted: PolicyEffect) -> bool {
    forall|i: int| 0 <= i < policies.len() ==> effect_of(#[trigger] policies[i]) == wanted
}

/// Whether a list of permits and a list of forbids are a multiset of policies,
/// sorted by effect.
pub open spec fn sorted_by_effect(
    permits: Seq<Policy>,
    forbids: Seq<Policy>,
    all: Multiset<Policy>,
) -> bool {
    &&& permits.to_multiset().add(forbids.to_multiset()) == all
    &&& all_effect(permits, PolicyEffect::Permit)
    &&& all_effect(forbids, PolicyEffect::Forbid)
}

/// What partial evaluation says about the rows of a table.
pub struct TableResiduals {
    /// The decision, where it is fully resolved.
    pub decision: Option<Decision>,
    /// The permits left over.
    pub permits: Vec<Policy>,
    /// The forbids left over.
    pub forbids: Vec<Policy>,
}

/// The principal for partial evaluation.
pub(crate) fn principal_partial_entity(q: &TableQuery) -> (r: Result<PartialEntity, PolicyError>)
    ensures
        match r {
            Ok(e) => principal_partial(*q) == Some(e),
            Err(e) => principal_partial(*q) is None && if uid_of(q.principal.uid@) is None {
                e.names_uid(q.principal.uid@)
            } else {
                e is Engine
            },
        },
{
    let uid = match parse_uid(q.principal.uid.as_str()) {
        Ok(uid) => uid,
        Err(e) => return Err(e),
    };
    let attrs = lower_attributes(&q.principal.attributes);
    let ancestors: Vec<cedar_policy::EntityUid> = Vec::new();
    assert(ancestors@.to_set() =~= Set::<cedar_policy::EntityUid>::empty());
    match partial_entity(&uid, Some(attrs), Some(ancestors), None, q.schema) {
        Ok(e) => Ok(e),
        Err(reason) => Err(PolicyError::Engine(reason)),
    }
}

/// The uid of an entity of a type this module names.
pub(crate) fn named_uid(entity_type: &str, id: &str) -> (r: Result<cedar_policy::EntityUid, PolicyError>)
    ensures
        match r {
            Ok(uid) => typed_uid_of(entity_type@, id@) == Some(uid),
            Err(e) => typed_uid_of(entity_type@, id@) is None && e is Engine,
        },
{
    match typed_uid(entity_type, id) {
        Ok(uid) => Ok(uid),
        Err(reason) => Err(PolicyError::Engine(reason)),
    }
}

/// Split policies by effect.
fn split_by_effect(answer: PartialAnswer) -> (r: TableResiduals)
    ensures
        r.decision == answer.decision,
        sorted_by_effect(r.permits@, r.forbids@, answer.residuals@.to_multiset()),
{
    let ghost all = answer.residuals@;
    let mut rest: Vec<Policy> = answer.residuals;
    let mut permits: Vec<Policy> = Vec::new();
    let mut forbids: Vec<Policy> = Vec::new();
    proof {
        broadcast use vstd::multiset::group_multiset_axioms;
        Seq::<Policy>::empty().to_multiset_ensures();
        all.to_multiset_ensures();
        assert(permits@.to_multiset().add(forbids@.to_multiset()).add(rest@.to_multiset())
            =~= all.to_multiset());
    }
    while rest.len() > 0
        invariant
            permits@.to_multiset().add(forbids@.to_multiset()).add(rest@.to_multiset())
                == all.to_multiset(),
            all_effect(permits@, PolicyEffect::Permit),
            all_effect(forbids@, PolicyEffect::Forbid),
        decreases rest@.len(),
    {
        let ghost old_rest = rest@;
        let ghost old_permits = permits@;
        let ghost old_forbids = forbids@;
        if let Some(policy) = rest.pop() {
            proof {
                old_rest.to_multiset_ensures();
                rest@.to_multiset_ensures();
                assert(old_rest =~= rest@.push(policy));
                permits@.to_multiset_ensures();
                forbids@.to_multiset_ensures();
            }
            match effect(&policy) {
                PolicyEffect::Permit => permits.push(policy),
                PolicyEffect::Forbid => forbids.push(policy),
            }
            proof {
                broadcast use vstd::multiset::group_multiset_axioms;
                assert(permits@.to_multiset().add(forbids@.to_multiset()).add(rest@.to_multiset())
                    =~= old_permits.to_multiset().add(old_forbids.to_multiset()).add(
                    old_rest.to_multiset(),
                ));
            }
        }
    }
    proof {
        broadcast use vstd::multiset::group_multiset_axioms;
        rest@.to_multiset_ensures();
        assert(rest@.to_multiset() =~= Multiset::empty());
        assert(permits@.to_multiset().add(forbids@.to_multiset()) =~= all.to_multiset());
    }
    TableResiduals { decision: answer.decision, permits, forbids }
}

/// Partially evaluate the request to read the table, with the table's governed
/// tags known and its attributes unknown.
pub fn table_residuals(q: &TableQuery) -> (r: Result<TableResiduals, PolicyError>)
    ensures
        match r {
            Ok(found) => table_decision(*q) == Some(found.decision) && sorted_by_effect(
                found.permits@,
                found.forbids@,
                table_leftovers(*q),
            ),
            Err(e) => table_decision(*q) is None && if typed_uid_of("Action"@, "read_table"@)
                is Some && uid_of(q.principal.uid@) is None {
                e.names_uid(q.principal.uid@)
            } else {
                e is Engine
            },
        },
{
    let action = match named_uid("Action", "read_table") {
        Ok(uid) => uid,
        Err(e) => return Err(e),
    };
    let who = match parse_uid(q.principal.uid.as_str()) {
        Ok(uid) => uid,
        Err(e) => return Err(e),
    };
    let what = match named_uid("Table", q.table.to_text().as_str()) {
        Ok(uid) => uid,
        Err(e) => return Err(e),
    };
    let request = match partial_request(&who, &action, &what, q.context, q.schema) {
        Ok(request) => request,
        Err(reason) => return Err(PolicyError::Engine(reason)),
    };
    let person = match principal_partial_entity(q) {
        Ok(e) => e,
        Err(e) => return Err(e),
    };
    // An untagged table's tags are known to be none: a condition on a tag then
    // folds to false instead of staying unknown.
    let tags = match q.facts {
        Some(facts) => native_tags(&facts.governed_tags),
        None => {
            let none: Vec<(String, RestrictedExpression)> = Vec::new();
            assert(pair_map(none@) =~= tag_values(Map::empty()));
            none
        },
    };
    let thing = match partial_entity(&what, None, None, Some(tags), q.schema) {
        Ok(e) => e,
        Err(reason) => return Err(PolicyError::Engine(reason)),
    };
    let known = match pair_of(person, thing, q.schema) {
        Ok(known) => known,
        Err(e) => return Err(e),
    };
    match evaluate(q.policies, &request, &known, q.schema) {
        Ok(answer) => Ok(split_by_effect(answer)),
        Err(reason) => Err(PolicyError::Engine(reason)),
    }
}

/// A principal and a resource, as all that partial evaluation knows of.
pub(crate) fn pair_of(who: PartialEntity, what: PartialEntity, schema: &Schema) -> (r: Result<
    PartialEntities,
    PolicyError,
>)
    ensures
        match r {
            Ok(known) => known_pair(Some(who), Some(what), *schema) == Some(known),
            Err(e) => known_pair(Some(who), Some(what), *schema) is None && e is Engine,
        },
{
    let mut entities: Vec<PartialEntity> = Vec::new();
    entities.push(who);
    entities.push(what);
    assert(entities@ =~= seq![who, what]);
    match partial_entities(entities, schema) {
        Ok(known) => Ok(known),
        Err(reason) => Err(PolicyError::Engine(reason)),
    }
}

} // verus!
