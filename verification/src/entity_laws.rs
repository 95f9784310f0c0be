//! What a Cedar authorizer is told of principals, groups and tables.

use cedar_policy::{Context, Entities, Entity, EntityUid, RestrictedExpression};
use vstd::prelude::*;

use crate::cedar::{
    column_tag_fields, is_tagged, names_value, table_attributes, table_entity_of, tag_values,
    tagged,
};
use crate::cedar_entity::{
    group_entities, lowered, lowered_all, lowered_map, principal_entity_of, uids_of,
};
use crate::cedar_gate::{
    can_ask, entities_for, hierarchy_or_empty, lowers_to, request_for, tool_context_of, PlanRequest,
};
use crate::facts::{EvalContext, TableFacts};
use crate::names::{texts, NameMap, NameSet};
use crate::outside::{
    bool_value, context_of, entity_of, hierarchy_of, long_value, plain_entity_of, record_value,
    request_of, set_value, string_value, typed_uid_of, uid_of,
};
use crate::plan_actions::ActionModel;
use crate::principal::{Group, PrincipalIdentity};
use crate::table::{dotted, TableReference};
use crate::types::{attr_models, lemma_set_view, AttrModel, AttrValue};

verus! {

// ---------------------------------------------------------------------------
// Values
// ---------------------------------------------------------------------------

proof fn lemma_lowered_all(items: Seq<AttrModel>)
    ensures
        lowered_all(items).len() == items.len(),
        forall|i: int| 0 <= i < items.len() ==> #[trigger] lowered_all(items)[i] == lowered(items[i]),
    decreases items,
{
    if items.len() > 0 {
        lemma_lowered_all(items.drop_last());
        assert forall|i: int| 0 <= i < items.len() implies #[trigger] lowered_all(items)[i]
            == lowered(items[i]) by {
            if i < items.len() - 1 {
                assert(lowered_all(items)[i] == lowered_all(items.drop_last())[i]);
                assert(items.drop_last()[i] == items[i]);
            }
        }
    }
}

/// **An attribute keeps its value.** A text, an integer and a boolean are handed over
/// as they are, and a set member by member, none left out.
pub proof fn law_attributes_keep_their_values(value: AttrValue)
    ensures
        match value {
            AttrValue::String(s) => lowered(value@) == string_value(s@),
            AttrValue::Long(n) => lowered(value@) == long_value(n as int),
            AttrValue::Bool(b) => lowered(value@) == bool_value(b),
            AttrValue::SetOf(items) => exists|members: Seq<RestrictedExpression>|
                {
                    &&& lowered(value@) == #[trigger] set_value(members)
                    &&& members.len() == items@.len()
                    &&& forall|i: int|
                        0 <= i < items@.len() ==> #[trigger] members[i] == lowered(items@[i]@)
                },
        },
{
    if let AttrValue::SetOf(items) = value {
        lemma_set_view(items);
        let members = lowered_all(attr_models(items@));
        lemma_lowered_all(attr_models(items@));
        assert forall|i: int| 0 <= i < items@.len() implies #[trigger] members[i] == lowered(
            items@[i]@,
        ) by {
            assert(attr_models(items@)[i] == items@[i]@);
        }
        assert(lowered(value@) == set_value(members));
    }
}

/// **Every attribute goes along, and no other.**
pub proof fn law_every_attribute_goes_along(attrs: Map<Seq<char>, AttrValue>, key: Seq<char>)
    ensures
        lowered_map(attrs).contains_key(key) == attrs.contains_key(key),
        attrs.contains_key(key) ==> lowered_map(attrs)[key] == lowered(attrs[key]@),
{
}

/// **A set of names has a member for each name and no other.** Whatever the list of
/// names, its value is the set of as many texts as there are names, one for each.
pub proof fn law_sets_hold_every_name(names: Seq<Seq<char>>, members: Seq<RestrictedExpression>)
    requires
        members.len() == names.len(),
        forall|i: int| 0 <= i < names.len() ==> #[trigger] members[i] == string_value(names[i]),
    ensures
        names_value(names) == set_value(members),
        forall|name: Seq<char>| #[trigger]
            names.contains(name) ==> members.contains(string_value(name)),
        forall|member: RestrictedExpression| #[trigger]
            members.contains(member) ==> exists|name: Seq<char>| #[trigger]
                names.contains(name) && member == string_value(name),
{
    assert(members =~= Seq::new(names.len(), |i: int| string_value(names[i])));
    assert forall|name: Seq<char>| #[trigger] names.contains(name) implies members.contains(
        string_value(name),
    ) by {
        assert(members[names.index_of(name)] == string_value(name));
    }
    assert forall|member: RestrictedExpression| #[trigger]
        members.contains(member) implies exists|name: Seq<char>| #[trigger]
        names.contains(name) && member == string_value(name) by {
        let i = members.index_of(member);
        assert(names.contains(names[i]));
    }
}

/// **Every governed tag goes along, and no other.**
pub proof fn law_every_tag_goes_along(tags: Map<Seq<char>, String>, key: Seq<char>)
    ensures
        tag_values(tags).contains_key(key) == tags.contains_key(key),
        tags.contains_key(key) ==> tag_values(tags)[key] == string_value(tags[key]@),
{
}

// ---------------------------------------------------------------------------
// Principals and groups
// ---------------------------------------------------------------------------

/// **No membership is lost, and none is made up.** A uid is among the parents of an
/// entity exactly where one of the listed texts denotes it.
pub proof fn law_every_membership_counts(list: Seq<Seq<char>>, uid: EntityUid)
    ensures
        uids_of(list).contains(uid) <==> exists|i: int|
            0 <= i < list.len() && uid_of(#[trigger] list[i]) == Some(uid),
    decreases list.len(),
{
    if list.len() > 0 {
        let rest = list.drop_last();
        let before = uids_of(rest);
        law_every_membership_counts(rest, uid);
        if before.contains(uid) {
            let i = choose|i: int| 0 <= i < rest.len() && uid_of(#[trigger] rest[i]) == Some(uid);
            assert(uid_of(list[i]) == Some(uid));
            assert(uids_of(list)[before.index_of(uid)] == uid);
        }
        if uid_of(list.last()) == Some(uid) {
            assert(uid_of(list[list.len() - 1]) == Some(uid));
            assert(uids_of(list)[before.len() as int] == uid);
        }
        if uids_of(list).contains(uid) && !before.contains(uid) {
            let k = uids_of(list).index_of(uid);
            if k < before.len() {
                assert(before[k] == uid);
            }
        }
        if exists|i: int| 0 <= i < list.len() && uid_of(#[trigger] list[i]) == Some(uid) {
            let i = choose|i: int| 0 <= i < list.len() && uid_of(#[trigger] list[i]) == Some(uid);
            if i < rest.len() {
                assert(uid_of(rest[i]) == Some(uid));
            }
        }
    }
}

/// Whether `parents` are the uids that the texts of a list denote.
pub open spec fn denoted_by(parents: Set<EntityUid>, list: Seq<String>) -> bool {
    forall|uid: EntityUid| #[trigger]
        parents.contains(uid) <==> exists|i: int|
            0 <= i < list.len() && uid_of((#[trigger] list[i])@) == Some(uid)
}

proof fn lemma_denoted(parents: Set<EntityUid>, list: Seq<String>)
    requires
        denoted_by(parents, list),
    ensures
        uids_of(texts(list)).to_set() == parents,
{
    let all = texts(list);
    assert forall|uid: EntityUid| uids_of(all).contains(uid) <==> #[trigger] parents.contains(
        uid,
    ) by {
        law_every_membership_counts(all, uid);
        if uids_of(all).contains(uid) {
            let i = choose|i: int| 0 <= i < all.len() && uid_of(#[trigger] all[i]) == Some(uid);
            assert(uid_of(list[i]@) == Some(uid));
        }
        if parents.contains(uid) {
            let i = choose|i: int|
                0 <= i < list.len() && uid_of((#[trigger] list[i])@) == Some(uid);
            assert(uid_of(all[i]) == Some(uid));
        }
    }
    assert(uids_of(all).to_set() =~= parents);
}

/// **A principal is known by its attributes and its groups.** Its entity has every
/// attribute and, as parents, the groups whose uids parse; only where that entity
/// cannot be built is it the bare uid.
pub proof fn law_principals_keep_attributes_and_groups(
    principal: PrincipalIdentity,
    uid: EntityUid,
    attrs: Map<Seq<char>, RestrictedExpression>,
    parents: Set<EntityUid>,
)
    requires
        attrs.dom() == principal.attributes@.dom(),
        forall|key: Seq<char>| #[trigger]
            attrs.contains_key(key) ==> attrs[key] == lowered(principal.attributes@[key]@),
        denoted_by(parents, principal.groups@),
    ensures
        principal_entity_of(uid, principal) == match entity_of(uid, attrs, parents) {
            Some(entity) => entity,
            None => plain_entity_of(uid, Set::empty()),
        },
{
    lemma_denoted(parents, principal.groups@);
    assert(lowered_map(principal.attributes@) =~= attrs);
}

/// **A group is known by its parents.** A group whose uid parses has one entity, with
/// the parents whose uids parse; a group whose uid does not parse has none.
pub proof fn law_groups_keep_their_parents(group: Group, parents: Set<EntityUid>)
    requires
        denoted_by(parents, group.parents@),
    ensures
        group_entities(seq![group]) == match uid_of(group.uid@) {
            Some(uid) => seq![plain_entity_of(uid, parents)],
            None => Seq::empty(),
        },
{
    lemma_denoted(parents, group.parents@);
    let one = seq![group];
    assert(one.drop_last() =~= Seq::<Group>::empty());
    assert(one.last() == group);
    assert(group_entities(one.drop_last()) =~= Seq::<Entity>::empty());
    match uid_of(group.uid@) {
        Some(uid) => {
            assert(group_entities(one) =~= seq![plain_entity_of(uid, parents)]);
        },
        None => {},
    }
}

/// **Groups do not hide each other.** The entities of two lists of groups together are
/// those of the one and those of the other.
pub proof fn law_groups_stand_side_by_side(one: Seq<Group>, other: Seq<Group>)
    ensures
        group_entities(one + other) == group_entities(one) + group_entities(other),
    decreases other.len(),
{
    if other.len() == 0 {
        assert(one + other =~= one);
        assert(group_entities(one) + group_entities(other) =~= group_entities(one));
    } else {
        law_groups_stand_side_by_side(one, other.drop_last());
        assert((one + other).drop_last() =~= one + other.drop_last());
        assert((one + other).last() == other.last());
        assert(group_entities(one + other) =~= group_entities(one) + group_entities(other));
    }
}

// ---------------------------------------------------------------------------
// Tables
// ---------------------------------------------------------------------------

/// **A table of which anything is known is known.** Any one fact suffices.
pub proof fn law_any_fact_is_something_known(facts: TableFacts, name: Seq<char>)
    ensures
        facts.nothing_known() ==> {
            &&& facts.owner is None
            &&& !facts.readers@.contains(name)
            &&& !facts.writers@.contains(name)
            &&& !facts.tags@.contains(name)
            &&& !facts.column_tags@.contains_key(name)
            &&& !facts.governed_tags@.contains_key(name)
            &&& !facts.governed_column_tags@.contains_key(name)
            &&& facts.policies@.len() == 0
        },
        facts.owner is Some || facts.readers@.contains(name) || facts.writers@.contains(name)
            || facts.tags@.contains(name) || facts.column_tags@.contains_key(name)
            || facts.governed_tags@.contains_key(name) || facts.governed_column_tags@.contains_key(
            name,
        ) || facts.policies@.len() > 0 ==> !facts.nothing_known(),
{
}

/// **A table of which nothing is known is nothing.** Only an owner, a name, a tag or a
/// policy makes a table known.
pub proof fn law_no_fact_is_nothing_known(facts: TableFacts)
    requires
        facts.owner is None,
        facts.readers@ =~= Set::<Seq<char>>::empty(),
        facts.writers@ =~= Set::<Seq<char>>::empty(),
        facts.tags@ =~= Set::<Seq<char>>::empty(),
        facts.column_tags@ =~= Map::<Seq<char>, NameSet>::empty(),
        facts.governed_tags@ =~= Map::<Seq<char>, String>::empty(),
        facts.governed_column_tags@ =~= Map::<Seq<char>, NameMap<String>>::empty(),
        facts.policies@.len() == 0,
    ensures
        facts.nothing_known(),
{
}

/// **Column tags are told column by column.** Each column is a field of its own name,
/// and the field's value is the set of the column's tags.
pub proof fn law_column_tags_are_told_by_column(tags: NameMap<NameSet>, i: int)
    requires
        0 <= i < tags.keys().len(),
    ensures
        column_tag_fields(tags).len() == tags.keys().len(),
        column_tag_fields(tags)[i].0 == tags.keys()[i],
        column_tag_fields(tags)[i].1 == names_value(tags@[tags.keys()[i]].listed()),
{
}

/// **The facts of a table are told under their own names.** Owner, readers, writers,
/// tags and column tags each have their attribute, and there is no other.
pub proof fn law_facts_are_told_under_their_names(facts: TableFacts, key: Seq<char>)
    ensures
        ({
            let told = table_attributes(facts);
            let record = record_value(column_tag_fields(facts.column_tags));
            &&& told.contains_key("owner"@) == (facts.owner is Some)
            &&& facts.owner is Some ==> told["owner"@] == string_value(facts.owner->0@)
            &&& told.contains_key("readers"@)
            &&& told["readers"@] == names_value(facts.readers.listed())
            &&& told.contains_key("writers"@)
            &&& told["writers"@] == names_value(facts.writers.listed())
            &&& told.contains_key("tags"@)
            &&& told["tags"@] == names_value(facts.tags.listed())
            &&& told.contains_key("column_tags"@) == (record is Some)
            &&& record is Some ==> told["column_tags"@] == record->0
            &&& told.contains_key(key) ==> key == "owner"@ || key == "readers"@ || key
                == "writers"@ || key == "tags"@ || key == "column_tags"@
        }),
{
    reveal_strlit("owner");
    reveal_strlit("readers");
    reveal_strlit("writers");
    reveal_strlit("tags");
    reveal_strlit("column_tags");
    assert("readers"@[0] != "writers"@[0]);
    assert("owner"@.len() == 5 && "readers"@.len() == 7 && "writers"@.len() == 7 && "tags"@.len()
        == 4 && "column_tags"@.len() == 11);
}

/// **A table's entity carries its facts.** A table of which something is known has the
/// entity of its dotted name, with its facts as attributes and no parents; a table of
/// which nothing is known has none.
pub proof fn law_tables_carry_their_facts(table: Seq<Seq<char>>, facts: TableFacts)
    ensures
        facts.nothing_known() ==> table_entity_of(table, facts) is None,
        !facts.nothing_known() ==> table_entity_of(table, facts) == match typed_uid_of(
            "Table"@,
            dotted(table),
        ) {
            Some(uid) => entity_of(uid, table_attributes(facts), Set::empty()),
            None => None,
        },
{
}

/// **A tag on the column makes it a tagged column.**
pub proof fn law_one_tag_is_enough(facts: TableFacts, column: Seq<char>)
    ensures
        is_tagged(facts, column) <==> facts.governed_column_tags@.contains_key(column) && exists|
            key: Seq<char>,
        | #[trigger] facts.governed_column_tags@[column]@.contains_key(key),
{
    let tags = facts.governed_column_tags@[column]@;
    if forall|key: Seq<char>| !#[trigger] tags.contains_key(key) {
        assert(tags =~= Map::<Seq<char>, String>::empty());
    }
}

/// **Tagged columns are found one by one.** Those of two scans together are those of
/// the one and those of the other, and a single column is found exactly where it is
/// tagged.
pub proof fn law_tagged_columns_are_found_one_by_one(
    facts: TableFacts,
    one: Seq<Seq<char>>,
    other: Seq<Seq<char>>,
    column: Seq<char>,
)
    ensures
        tagged(facts, one + other) == tagged(facts, one) + tagged(facts, other),
        tagged(facts, seq![column]) == if is_tagged(facts, column) {
            seq![column]
        } else {
            Seq::empty()
        },
        tagged(facts, Seq::empty()) == Seq::<Seq<char>>::empty(),
    decreases other.len(),
{
    let single = seq![column];
    assert(single.drop_last() =~= Seq::<Seq<char>>::empty());
    assert(single.last() == column);
    assert(tagged(facts, single.drop_last()) =~= Seq::<Seq<char>>::empty());
    assert(Seq::<Seq<char>>::empty().push(column) =~= seq![column]);
    if other.len() == 0 {
        assert(one + other =~= one);
        assert(tagged(facts, one) + tagged(facts, other) =~= tagged(facts, one));
    } else {
        law_tagged_columns_are_found_one_by_one(facts, one, other.drop_last(), column);
        assert((one + other).drop_last() =~= one + other.drop_last());
        assert((one + other).last() == other.last());
        assert(tagged(facts, one + other) =~= tagged(facts, one) + tagged(facts, other));
    }
}

// ---------------------------------------------------------------------------
// Requests
// ---------------------------------------------------------------------------

/// **A request goes out with the principal, its groups and the table's facts.** The
/// principal's entity comes first, those of its groups behind it, and last the
/// table's, where facts of that very table are recorded.
pub proof fn law_requests_go_out_with_all_that_is_known(
    principal: PrincipalIdentity,
    table: TableReference,
    eval: &EvalContext,
)
    ensures
        entities_for(principal, None, eval) == seq![
            principal_entity_of(uid_of(principal.uid@)->0, principal),
        ] + group_entities(principal.group_hierarchy@),
        ({
            let known = eval.catalog_facts.facts();
            let key = dotted(table@);
            let without = entities_for(principal, None, eval);
            entities_for(principal, Some(table), eval) == if known.contains_key(key) {
                match table_entity_of(table@, known[key]) {
                    Some(entity) => without.push(entity),
                    None => without,
                }
            } else {
                without
            }
        }),
{
}

/// **Entities that form no hierarchy are left out, and others are not.**
pub proof fn law_a_hierarchy_is_kept_whole(entities: Seq<Entity>, hierarchy: Entities)
    ensures
        hierarchy_of(entities) == Some(hierarchy) ==> hierarchy_or_empty(entities) == Some(
            hierarchy,
        ),
        hierarchy_of(entities) is None ==> hierarchy_or_empty(entities) == hierarchy_of(
            Seq::empty(),
        ),
{
}

/// **A tool is judged on every taint observed.** The context of a tool request holds
/// one field, and its value has a member for each taint and no other.
pub proof fn law_tools_are_judged_on_every_taint(
    taints: Seq<Seq<char>>,
    members: Seq<RestrictedExpression>,
)
    requires
        members.len() == taints.len(),
        forall|i: int| 0 <= i < taints.len() ==> #[trigger] members[i] == string_value(taints[i]),
    ensures
        tool_context_of(taints) == context_of(seq![("observed_taints"@, set_value(members))]),
        forall|taint: Seq<char>| #[trigger]
            taints.contains(taint) ==> members.contains(string_value(taint)),
{
    law_sets_hold_every_name(taints, members);
}

/// **A request says who does what to which resource.** It is built of the uid of the
/// principal, of the action's, and of the resource's, in the given context, and it is
/// not built where one of them is missing.
pub proof fn law_requests_say_who_does_what(
    principal: PrincipalIdentity,
    action: Seq<char>,
    resource_type: Seq<char>,
    name: Seq<char>,
    context: Context,
    who: EntityUid,
    what: EntityUid,
    target: EntityUid,
)
    ensures
        uid_of(principal.uid@) == Some(who) && typed_uid_of("Action"@, action) == Some(what)
            && typed_uid_of(resource_type, name) == Some(target) ==> request_for(
            principal,
            action,
            resource_type,
            name,
            context,
        ) == request_of(who, what, target, context),
        uid_of(principal.uid@) is None || typed_uid_of("Action"@, action) is None || typed_uid_of(
            resource_type,
            name,
        ) is None ==> request_for(principal, action, resource_type, name, context) is None,
{
}

/// **Every modelled action is asked about under its own name.** Reading, writing and
/// creating a table ask about that table, and its facts go along; a catalog statement
/// asks about its securable; what is not modelled is not asked about.
pub proof fn law_actions_are_asked_about_by_name(
    action: ActionModel,
    principal: PrincipalIdentity,
    context: Context,
    r: Option<PlanRequest>,
)
    requires
        lowers_to(action, principal, context, r),
    ensures
        match action {
            ActionModel::ReadTable(table, _) => r is Some && request_for(
                principal,
                "read_table"@,
                "Table"@,
                dotted(table),
                context,
            ) == Some(r->0.request) && r->0.table is Some && r->0.table->0@ == table,
            ActionModel::WriteTable(table) => r is Some && request_for(
                principal,
                "write_table"@,
                "Table"@,
                dotted(table),
                context,
            ) == Some(r->0.request) && r->0.table is Some && r->0.table->0@ == table,
            ActionModel::CreateTable(table) => r is Some && request_for(
                principal,
                "create_table"@,
                "Table"@,
                dotted(table),
                context,
            ) == Some(r->0.request) && r->0.table is Some && r->0.table->0@ == table,
            ActionModel::UnityDdl { action: id, resource_type, name } => r is Some && request_for(
                principal,
                id,
                resource_type,
                name,
                context,
            ) == Some(r->0.request) && r->0.table is None,
            ActionModel::DenyUnsupported(_) => r is None,
        },
{
}

/// **What can be asked is asked.** An action fails to be asked about only where its
/// request cannot be built.
pub proof fn law_askable_actions_are_asked_about(
    action: ActionModel,
    principal: PrincipalIdentity,
    context: Context,
)
    ensures
        can_ask(action, principal, context) <==> match action {
            ActionModel::ReadTable(table, _) => request_for(
                principal,
                "read_table"@,
                "Table"@,
                dotted(table),
                context,
            ) is Some,
            ActionModel::WriteTable(table) => request_for(
                principal,
                "write_table"@,
                "Table"@,
                dotted(table),
                context,
            ) is Some,
            ActionModel::CreateTable(table) => request_for(
                principal,
                "create_table"@,
                "Table"@,
                dotted(table),
                context,
            ) is Some,
            ActionModel::UnityDdl { action: id, resource_type, name } => request_for(
                principal,
                id,
                resource_type,
                name,
                context,
            ) is Some,
            ActionModel::DenyUnsupported(_) => true,
        },
{
}

/// **Taints are those of every column read.** A classification of any column that is
/// read counts, wherever the column stands, and nothing else does.
pub proof fn law_every_classified_column_taints(
    facts: TableFacts,
    accessed: Seq<Seq<char>>,
    tag: Seq<char>,
)
    ensures
        facts.tainted_by(accessed, tag) <==> exists|column: Seq<char>| #[trigger]
            accessed.contains(column) && facts.column_tags@.contains_key(column)
                && facts.column_tags@[column]@.contains(tag),
{
    if exists|column: Seq<char>| #[trigger]
        accessed.contains(column) && facts.column_tags@.contains_key(column)
            && facts.column_tags@[column]@.contains(tag) {
        let column = choose|column: Seq<char>| #[trigger]
            accessed.contains(column) && facts.column_tags@.contains_key(column)
                && facts.column_tags@[column]@.contains(tag);
        assert(accessed[accessed.index_of(column)] == column);
    }
    if facts.tainted_by(accessed, tag) {
        let i = choose|i: int|
            0 <= i < accessed.len() && facts.column_tags@.contains_key(#[trigger] accessed[i])
                && facts.column_tags@[accessed[i]]@.contains(tag);
        assert(accessed.contains(accessed[i]));
    }
}

/// **Reading more never taints less.**
pub proof fn law_reading_more_never_taints_less(
    facts: TableFacts,
    fewer: Seq<Seq<char>>,
    more: Seq<Seq<char>>,
    tag: Seq<char>,
)
    requires
        forall|column: Seq<char>| #[trigger] fewer.contains(column) ==> more.contains(column),
        facts.tainted_by(fewer, tag),
    ensures
        facts.tainted_by(more, tag),
{
    law_every_classified_column_taints(facts, fewer, tag);
    law_every_classified_column_taints(facts, more, tag);
}

} // verus!
