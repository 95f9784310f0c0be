//! Lower a neutral [`PrincipalIdentity`] to the entities a Cedar authorizer
//! resolves attributes and group membership against.

use cedar_policy::{Entity, EntityUid, RestrictedExpression};
use vstd::prelude::*;

use crate::error::PolicyError;
use crate::names::{texts, NameMap};
use crate::outside::{
    bool_expr, bool_value, entity, entity_of, long_expr, long_value, pair_map, plain_entity,
    plain_entity_of, read_uid, set_expr, set_value, string_expr, string_value, uid_of,
};
use crate::principal::{Group, PrincipalIdentity};
use crate::types::{attr_models, lemma_set_view, AttrModel, AttrValue};

verus! {

/// The value that an attribute is lowered to.
pub open spec fn lowered(value: AttrModel) -> RestrictedExpression
    decreases value,
{
    match value {
        AttrModel::Text(s) => string_value(s),
        AttrModel::Long(n) => long_value(n),
        AttrModel::Bool(b) => bool_value(b),
        AttrModel::SetOf(items) => set_value(lowered_all(items)),
    }
}

/// The values that a list of attributes is lowered to.
pub open spec fn lowered_all(items: Seq<AttrModel>) -> Seq<RestrictedExpression>
    decreases items,
{
    if items.len() == 0 {
        Seq::empty()
    } else {
        lowered_all(items.drop_last()).push(lowered(items.last()))
    }
}

/// Parse a uid (e.g. `User::"alice"`).
pub fn parse_uid(uid: &str) -> (r: Result<EntityUid, PolicyError>)
    ensures
        match r {
            Ok(parsed) => uid_of(uid@) == Some(parsed),
            Err(e) => uid_of(uid@) is None && e.names_uid(uid@),
        },
{
    match read_uid(uid) {
        Ok(parsed) => Ok(parsed),
        Err(reason) => Err(PolicyError::InvalidUid { uid: uid.to_owned(), reason }),
    }
}

/// Lower an attribute value.
pub fn to_restricted_expr(value: &AttrValue) -> (r: RestrictedExpression)
    ensures
        r == lowered(value@),
    decreases value,
{
    match value {
        AttrValue::String(s) => string_expr(s.as_str()),
        AttrValue::Long(n) => long_expr(*n),
        AttrValue::Bool(b) => bool_expr(*b),
        AttrValue::SetOf(items) => {
            let ghost models = attr_models(items@);
            let mut exprs: Vec<RestrictedExpression> = Vec::new();
            let mut i: usize = 0;
            assert(exprs@ =~= lowered_all(models.take(0)));
            while i < items.len()
                invariant
                    i <= items@.len(),
                    models == attr_models(items@),
                    exprs@ == lowered_all(models.take(i as int)),
                    *value == AttrValue::SetOf(*items),
                decreases items@.len() - i,
            {
                assert(decreases_to!(value => value->SetOf_0@[i as int]));
                proof {
                    assert(models.take(i + 1).drop_last() =~= models.take(i as int));
                    assert(models.take(i + 1).last() == items@[i as int]@);
                }
                exprs.push(to_restricted_expr(&items[i]));
                i += 1;
            }
            proof {
                lemma_set_view(*items);
                assert(models.take(i as int) =~= models);
            }
            set_expr(exprs)
        },
    }
}

/// The lowered values of a map of attributes.
pub open spec fn lowered_map(attrs: Map<Seq<char>, AttrValue>) -> Map<
    Seq<char>,
    RestrictedExpression,
> {
    attrs.map_values(|v: AttrValue| lowered(v@))
}

/// A list of pairs with distinct keys is the map that it lists.
pub proof fn lemma_pair_map(
    list: Seq<(String, RestrictedExpression)>,
    keys: Seq<Seq<char>>,
    listed: Map<Seq<char>, RestrictedExpression>,
)
    requires
        list.len() == keys.len(),
        keys.no_duplicates(),
        listed.dom() == keys.to_set(),
        forall|i: int|
            0 <= i < keys.len() ==> (#[trigger] list[i]).0@ == keys[i] && list[i].1
                == listed[keys[i]],
    ensures
        pair_map(list) == listed,
    decreases list.len(),
{
    if list.len() == 0 {
        assert(keys.to_set() =~= Set::<Seq<char>>::empty());
        assert(listed =~= Map::<Seq<char>, RestrictedExpression>::empty());
    } else {
        let last = keys.last();
        let rest = keys.drop_last();
        let fewer = listed.remove(last);
        assert forall|k: Seq<char>| keys.contains(k) <==> (rest.contains(k) || k == last) by {
            assert(keys[keys.len() - 1] == last);
            if rest.contains(k) {
                assert(keys[rest.index_of(k)] == k);
            }
            if keys.contains(k) && k != last {
                assert(rest[keys.index_of(k)] == k);
            }
        }
        assert(!rest.contains(last)) by {
            if rest.contains(last) {
                assert(keys[rest.index_of(last)] == keys[keys.len() - 1]);
            }
        }
        assert(fewer.dom() =~= rest.to_set());
        assert forall|i: int| 0 <= i < rest.len() implies (#[trigger] list.drop_last()[i]).0@
            == rest[i] && list.drop_last()[i].1 == fewer[rest[i]] by {
            assert(list[i].0@ == keys[i]);
            assert(rest[i] != last);
        }
        lemma_pair_map(list.drop_last(), rest, fewer);
        assert(list[list.len() - 1].0@ == last);
        assert(listed.contains_key(last));
        assert(pair_map(list) =~= listed);
    }
}

/// Lower a map of attributes.
pub fn lower_attributes(attrs: &NameMap<AttrValue>) -> (r: Vec<(String, RestrictedExpression)>)
    ensures
        pair_map(r@) == lowered_map(attrs@),
{
    let n: usize = attrs.len();
    let ghost keys = attrs.keys();
    let mut list: Vec<(String, RestrictedExpression)> = Vec::new();
    let mut i: usize = 0;
    while i < n
        invariant
            i <= n,
            n == keys.len(),
            keys == attrs.keys(),
            list@.len() == i,
            forall|j: int|
                0 <= j < i ==> (#[trigger] list@[j]).0@ == keys[j] && list@[j].1 == lowered(
                    attrs@[keys[j]]@,
                ),
        decreases n - i,
    {
        list.push((attrs.key_at(i).to_owned(), to_restricted_expr(attrs.value_at(i))));
        i += 1;
    }
    proof {
        assert(lowered_map(attrs@).dom() =~= keys.to_set());
        assert forall|j: int| 0 <= j < keys.len() implies (#[trigger] list@[j]).1 == lowered_map(
            attrs@,
        )[keys[j]] by {
            assert(keys.to_set().contains(keys[j]));
        }
        lemma_pair_map(list@, keys, lowered_map(attrs@));
    }
    list
}

/// The uids that a list of texts denotes, those that denote none left out.
pub open spec fn uids_of(list: Seq<Seq<char>>) -> Seq<EntityUid>
    decreases list.len(),
{
    if list.len() == 0 {
        Seq::empty()
    } else {
        let before = uids_of(list.drop_last());
        match uid_of(list.last()) {
            Some(uid) => before.push(uid),
            None => before,
        }
    }
}

/// The uids of a list of texts, those that do not parse left out: a membership
/// that cannot be expressed does not resolve.
fn readable_uids(list: &Vec<String>) -> (r: Vec<EntityUid>)
    ensures
        r@ == uids_of(texts(list@)),
{
    let ghost all = texts(list@);
    let mut uids: Vec<EntityUid> = Vec::new();
    let mut i: usize = 0;
    assert(uids@ =~= uids_of(all.take(0)));
    while i < list.len()
        invariant
            i <= list@.len(),
            all == texts(list@),
            uids@ == uids_of(all.take(i as int)),
        decreases list@.len() - i,
    {
        proof {
            assert(all.take(i + 1).drop_last() =~= all.take(i as int));
            assert(all.take(i + 1).last() == list@[i as int]@);
        }
        match read_uid(list[i].as_str()) {
            Ok(uid) => uids.push(uid),
            Err(_) => {},
        }
        i += 1;
    }
    assert(all.take(i as int) =~= all);
    uids
}

/// The entity of the principal `uid`: its attributes and its direct groups as
/// parents; without either where an attribute has no value.
pub open spec fn principal_entity_of(uid: EntityUid, principal: PrincipalIdentity) -> Entity {
    match entity_of(
        uid,
        lowered_map(principal.attributes@),
        uids_of(texts(principal.groups@)).to_set(),
    ) {
        Some(entity) => entity,
        None => plain_entity_of(uid, Set::empty()),
    }
}

/// The entities of the groups of a hierarchy, in order, those left out whose uid
/// does not parse.
pub open spec fn group_entities(groups: Seq<Group>) -> Seq<Entity>
    decreases groups.len(),
{
    if groups.len() == 0 {
        Seq::empty()
    } else {
        let before = group_entities(groups.drop_last());
        let group = groups.last();
        match uid_of(group.uid@) {
            Some(uid) => before.push(
                plain_entity_of(uid, uids_of(texts(group.parents@)).to_set()),
            ),
            None => before,
        }
    }
}

/// The entity of the principal, so that an authorizer resolves its attributes and
/// its membership in groups. An attribute that has no value leaves the bare uid,
/// so that authorization stays closed.
fn principal_entity(principal: &PrincipalIdentity) -> (r: Result<Entity, PolicyError>)
    ensures
        match r {
            Ok(e) => uid_of(principal.uid@) is Some && e == principal_entity_of(
                uid_of(principal.uid@)->0,
                *principal,
            ),
            Err(e) => uid_of(principal.uid@) is None && e.names_uid(principal.uid@),
        },
{
    let uid = match parse_uid(principal.uid.as_str()) {
        Ok(uid) => uid,
        Err(e) => return Err(e),
    };
    let attrs = lower_attributes(&principal.attributes);
    let parents = readable_uids(&principal.groups);
    match entity(&uid, attrs, parents) {
        Ok(e) => Ok(e),
        Err(_) => {
            let none: Vec<EntityUid> = Vec::new();
            assert(none@.to_set() =~= Set::<EntityUid>::empty());
            Ok(plain_entity(&uid, none))
        },
    }
}

/// The principal's entity **and** those of its group hierarchy: what makes group
/// membership resolve without a static entity bundle.
///
/// A group whose uid does not parse is left out, and does not fail the whole.
pub fn principal_entities(principal: &PrincipalIdentity) -> (r: Result<Vec<Entity>, PolicyError>)
    ensures
        match r {
            Ok(entities) => uid_of(principal.uid@) is Some && entities@ == seq![
                principal_entity_of(uid_of(principal.uid@)->0, *principal),
            ] + group_entities(principal.group_hierarchy@),
            Err(e) => uid_of(principal.uid@) is None && e.names_uid(principal.uid@),
        },
{
    let own = match principal_entity(principal) {
        Ok(own) => own,
        Err(e) => return Err(e),
    };
    let ghost groups = principal.group_hierarchy@;
    let mut entities: Vec<Entity> = Vec::new();
    entities.push(own);
    let mut i: usize = 0;
    assert(entities@ =~= seq![own] + group_entities(groups.take(0)));
    while i < principal.group_hierarchy.len()
        invariant
            i <= groups.len(),
            groups == principal.group_hierarchy@,
            entities@ == seq![own] + group_entities(groups.take(i as int)),
        decreases groups.len() - i,
    {
        let group = &principal.group_hierarchy[i];
        let ghost before = entities@;
        proof {
            assert(groups.take(i + 1).drop_last() =~= groups.take(i as int));
            assert(groups.take(i + 1).last() == *group);
        }
        match read_uid(group.uid.as_str()) {
            Ok(uid) => {
                let parents = readable_uids(&group.parents);
                entities.push(plain_entity(&uid, parents));
            },
            Err(_) => {},
        }
        assert(entities@ =~= seq![own] + group_entities(groups.take(i + 1)));
        i += 1;
    }
    assert(groups.take(i as int) =~= groups);
    Ok(entities)
}

} // verus!
