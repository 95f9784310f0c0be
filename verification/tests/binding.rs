use breakwater::{
    BindingKind, ColumnMatch, FunctionArg, NameMap, NameSet, PolicyBinding, TagCondition,
};

fn tags(pairs: &[(&str, &str)]) -> NameMap<String> {
    let mut map = NameMap::new();
    for (k, v) in pairs {
        map.insert(k.to_string(), v.to_string());
    }
    map
}

#[test]
fn tag_condition_key_presence_and_value() {
    let key_only = TagCondition { key: "pii".into(), value: None };
    let key_value = TagCondition { key: "pii".into(), value: Some("ssn".into()) };

    // key-only: present key satisfies regardless of value.
    assert!(key_only.matches(&tags(&[("pii", "anything")])));
    assert!(!key_only.matches(&tags(&[("other", "x")])));

    // key+value: value must be equal (case-sensitive).
    assert!(key_value.matches(&tags(&[("pii", "ssn")])));
    assert!(!key_value.matches(&tags(&[("pii", "SSN")])));
    assert!(!key_value.matches(&tags(&[("pii", "email")])));
    assert!(!key_value.matches(&tags(&[("nope", "ssn")])));
}

#[test]
fn binding_eq_round_trip() {
    let b = PolicyBinding {
        name: "mask_ssn".into(),
        kind: BindingKind::ColumnMask,
        to_principals: vec!["account users".into()],
        except_principals: vec!["User::\"admin\"".into()],
        when_condition: vec![TagCondition {
            key: "classification".into(),
            value: Some("regulated".into()),
        }],
        match_columns: vec![ColumnMatch {
            condition: TagCondition { key: "pii".into(), value: Some("ssn".into()) },
            alias: "col".into(),
        }],
        function: "hr.security.mask_ssn".into(),
        using_args: vec![
            FunctionArg::Alias("col".into()),
            FunctionArg::Constant("X".into()),
        ],
    };
    assert_eq!(b.clone(), b);
}

#[test]
fn name_map_keeps_the_last_value_of_a_key() {
    let mut map = tags(&[("a", "1"), ("b", "2"), ("a", "3")]);
    assert_eq!(map.len(), 2);
    assert_eq!(map.get("a"), Some(&"3".to_string()));
    assert_eq!(map.key_at(0), "a");
    assert_eq!(map.value_at(1), "2");
    assert!(map.contains_key("b"));
    assert!(!map.contains_key("c"));
    map.extend(tags(&[("b", "4"), ("c", "5")]));
    assert_eq!(map.len(), 3);
    assert_eq!(map.get("b"), Some(&"4".to_string()));
    assert_eq!(map.clone(), map);
    assert!(NameMap::<String>::default().is_empty());
}

#[test]
fn name_set_holds_a_name_once() {
    let mut set = NameSet::new();
    assert!(set.is_empty());
    set.insert("pii".to_string());
    set.insert("pii".to_string());
    assert_eq!(set.len(), 1);
    let mut other = NameSet::new();
    other.insert("secret".to_string());
    other.insert("pii".to_string());
    set.extend(&other);
    assert_eq!(set.len(), 2);
    assert!(set.contains("secret"));
    assert!(!set.contains("other"));
    assert_eq!(set.name_at(0), "pii");
    assert_eq!(set.clone(), set);
}
