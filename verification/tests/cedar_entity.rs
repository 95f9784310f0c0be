use breakwater::{
    parse_uid, principal_entities, AttrValue, Group, PolicyError, PrincipalEnrichment,
    PrincipalIdentity,
};
use cedar_policy::EvalResult;

#[test]
fn builds_principal_entity_with_attributes() {
    let id = PrincipalIdentity::new("User::\"alice\"")
        .with_attribute("region", "eu")
        .with_attribute_value("clearance", AttrValue::Long(3));
    let entities = principal_entities(&id).unwrap();
    assert_eq!(entities.len(), 1);
    assert_eq!(entities[0].uid(), parse_uid("User::\"alice\"").unwrap());
}

#[test]
fn builds_group_closure_from_hierarchy() {
    let id = PrincipalIdentity::new("User::\"alice\"").enriched(PrincipalEnrichment {
        groups: vec!["UserGroup::\"privileged_readers\"".into()],
        group_hierarchy: vec![
            Group {
                uid: "UserGroup::\"privileged_readers\"".into(),
                parents: vec!["UserGroup::\"readers\"".into()],
            },
            Group { uid: "UserGroup::\"readers\"".into(), parents: vec![] },
        ],
        ..Default::default()
    });
    // principal + 2 group entities.
    assert_eq!(principal_entities(&id).unwrap().len(), 3);
}

#[test]
fn invalid_group_uid_is_skipped_not_fatal() {
    let id = PrincipalIdentity::new("User::\"alice\"").enriched(PrincipalEnrichment {
        group_hierarchy: vec![Group { uid: "not a valid uid".into(), parents: vec![] }],
        ..Default::default()
    });
    // Only the principal entity survives; the malformed group is dropped.
    assert_eq!(principal_entities(&id).unwrap().len(), 1);
}

#[test]
fn invalid_principal_uid_errors() {
    let id = PrincipalIdentity::new("not a valid uid");
    assert!(principal_entities(&id).is_err());
}

#[test]
fn set_attribute_lowers_to_cedar_set() {
    let id = PrincipalIdentity::new("User::\"alice\"").with_attribute_value(
        "regions",
        AttrValue::SetOf(vec![
            AttrValue::String("eu".into()),
            AttrValue::String("us".into()),
        ]),
    );
    assert_eq!(principal_entities(&id).unwrap().len(), 1);
}

#[test]
fn every_attribute_kind_reaches_the_entity() {
    let id = PrincipalIdentity::new("User::\"alice\"")
        .with_attribute("region", "eu")
        .with_attribute_value("clearance", AttrValue::Long(3))
        .with_attribute_value("admin", AttrValue::Bool(true))
        .with_attribute_value("regions", AttrValue::SetOf(vec![AttrValue::from("us")]));
    let entities = principal_entities(&id).unwrap();
    let value = |name: &str| entities[0].attr(name).unwrap().unwrap();
    assert_eq!(value("region"), EvalResult::String("eu".to_string()));
    assert_eq!(value("clearance"), EvalResult::Long(3));
    assert_eq!(value("admin"), EvalResult::Bool(true));
    match value("regions") {
        EvalResult::Set(items) => {
            assert_eq!(items.len(), 1);
            assert!(items.contains(&EvalResult::String("us".to_string())));
        }
        other => panic!("expected a set, got {other:?}"),
    }
    assert!(entities[0].attr("absent").is_none());
}

#[test]
fn group_entities_come_in_order_with_their_parents() {
    let id = PrincipalIdentity::new("User::\"alice\"").enriched(PrincipalEnrichment {
        group_hierarchy: vec![
            Group { uid: "UserGroup::\"a\"".into(), parents: vec!["UserGroup::\"b\"".into()] },
            Group { uid: "broken".into(), parents: vec![] },
            Group { uid: "UserGroup::\"b\"".into(), parents: vec!["also broken".into()] },
        ],
        ..Default::default()
    });
    let entities = principal_entities(&id).unwrap();
    assert_eq!(entities.len(), 3);
    assert_eq!(entities[1].uid(), parse_uid("UserGroup::\"a\"").unwrap());
    assert_eq!(entities[2].uid(), parse_uid("UserGroup::\"b\"").unwrap());
    assert_eq!(
        entities[1].clone().into_inner().2.into_iter().collect::<Vec<_>>(),
        vec![parse_uid("UserGroup::\"b\"").unwrap()]
    );
    assert!(entities[2].clone().into_inner().2.is_empty());
}

#[test]
fn invalid_uid_is_named_in_the_error() {
    match parse_uid("nobody") {
        Err(PolicyError::InvalidUid { uid, reason }) => {
            assert_eq!(uid, "nobody");
            let cedar = "nobody".parse::<cedar_policy::EntityUid>().unwrap_err();
            assert_eq!(reason, cedar.to_string());
            let text = PolicyError::InvalidUid { uid, reason: "why".to_string() }.message();
            assert_eq!(text, "invalid principal/entity uid 'nobody': why");
        }
        other => panic!("expected an invalid uid, got {other:?}"),
    }
}
