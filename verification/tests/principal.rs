use breakwater::{
    AgentClaims, AttrValue, Group, IdentityError, NameMap, PrincipalClaims, PrincipalEnrichment,
    PrincipalIdentity,
};

#[test]
fn carries_attributes() {
    let id = PrincipalIdentity::new("User::\"alice\"")
        .with_attribute("role", "analyst")
        .with_attribute("region", "eu");
    assert_eq!(id.attributes.len(), 2);
    assert_eq!(id.uid, "User::\"alice\"");
    assert_eq!(id.attributes.get("role"), Some(&AttrValue::String("analyst".into())));
}

#[test]
fn with_attribute_value_carries_non_string() {
    let id = PrincipalIdentity::new("User::\"alice\"")
        .with_attribute_value("clearance", AttrValue::Long(3))
        .with_attribute_value("admin", AttrValue::Bool(true));
    assert_eq!(id.attributes.get("clearance"), Some(&AttrValue::Long(3)));
    assert_eq!(id.attributes.get("admin"), Some(&AttrValue::Bool(true)));
}

#[test]
fn no_attributes_by_default() {
    let id = PrincipalIdentity::new("User::\"bob\"");
    assert!(id.attributes.is_empty());
    assert!(id.groups.is_empty());
}

#[test]
fn enriched_sets_groups_and_hierarchy() {
    // alice is in privileged_readers, which is in readers: all by enrichment.
    let id = PrincipalIdentity::new("User::\"alice\"").enriched(PrincipalEnrichment {
        groups: vec!["UserGroup::\"privileged_readers\"".into()],
        group_hierarchy: vec![
            Group {
                uid: "UserGroup::\"privileged_readers\"".into(),
                parents: vec!["UserGroup::\"readers\"".into()],
            },
            Group { uid: "UserGroup::\"readers\"".into(), parents: vec![] },
        ],
        ..Default::default()
    });
    assert_eq!(id.groups, vec!["UserGroup::\"privileged_readers\""]);
    assert_eq!(id.group_hierarchy().len(), 2);
}

#[test]
fn enriched_idp_attributes_override_client_asserted() {
    let mut attributes = NameMap::new();
    attributes.insert("role".to_string(), AttrValue::String("idp-authoritative".to_string()));
    let id = PrincipalIdentity::new("User::\"alice\"")
        .with_attribute("role", "client-claimed")
        .enriched(PrincipalEnrichment { attributes, ..Default::default() });
    assert_eq!(
        id.attributes.get("role"),
        Some(&AttrValue::String("idp-authoritative".into()))
    );
}

#[test]
fn enrichment_keeps_other_attributes_and_the_uid() {
    let mut attributes = NameMap::new();
    attributes.insert("team".to_string(), AttrValue::Bool(true));
    let id = PrincipalIdentity::new("User::\"alice\"")
        .with_attribute("region", "eu")
        .enriched(PrincipalEnrichment { attributes, ..Default::default() });
    assert_eq!(id.uid, "User::\"alice\"");
    assert_eq!(id.attributes.len(), 2);
    assert_eq!(id.attributes.get("region"), Some(&AttrValue::String("eu".into())));
    assert_eq!(id.attributes.get("team"), Some(&AttrValue::Bool(true)));
}

#[test]
fn setting_an_attribute_twice_keeps_the_second_value() {
    let id = PrincipalIdentity::new("u").with_attribute("a", "1").with_attribute("a", "2");
    assert_eq!(id.attributes.len(), 1);
    assert_eq!(id.attributes.get("a"), Some(&AttrValue::String("2".into())));
    assert_eq!(id.attributes.get("b"), None);
}

#[test]
fn attribute_values_convert_from_plain_values() {
    assert_eq!(AttrValue::from("x"), AttrValue::String("x".to_string()));
    assert_eq!(AttrValue::from("y".to_string()), AttrValue::String("y".to_string()));
    assert_eq!(AttrValue::from(7i64), AttrValue::Long(7));
    assert_eq!(AttrValue::from(false), AttrValue::Bool(false));
    let set = AttrValue::SetOf(vec![AttrValue::from("eu"), AttrValue::from(1i64)]);
    assert_eq!(set.clone(), set);
    assert_ne!(set, AttrValue::SetOf(vec![]));
}

#[test]
fn claims_default_to_none() {
    let claims = PrincipalClaims::default();
    assert!(claims.claims.is_empty());
    assert!(claims.agent.is_none());
    let agent = AgentClaims::default();
    assert_eq!(agent.agent_type, None);
    assert_eq!(agent.agent_model, None);
    assert_eq!(agent.delegator, None);
}

#[test]
fn identity_error_says_what_failed() {
    assert_eq!(
        IdentityError::Provider("boom".into()).message(),
        "identity provider error: boom"
    );
}
