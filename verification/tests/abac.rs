use breakwater::abac::{matched_columns, normalize_name};
use breakwater::expr::{col, lit_str};
use breakwater::{
    AbacPolicyEngine, BindingKind, CatalogFactSink, ColumnMatch, Decision, DefaultPrincipalMatcher,
    EvalContext, Expr, Field, FunctionArg, NameMap, Plan, PlanNode, PolicyBinding, PolicyEngine,
    PolicyError, PrincipalIdentity, PrincipalMatcher, ResolvedFunctions, TableFacts, TablePolicy,
    TableReference, TagCondition, DEFAULT_MASK,
};

fn principal(uid: &str, groups: &[&str]) -> PrincipalIdentity {
    let mut p = PrincipalIdentity::new(uid);
    p.groups = groups.iter().map(|g| g.to_string()).collect();
    p
}

fn schema(columns: &[&str]) -> Vec<Field> {
    columns
        .iter()
        .map(|name| Field {
            qualifier: Some(TableReference::bare("t")),
            name: name.to_string(),
            data_type: "Utf8".to_string(),
        })
        .collect()
}

fn tags(pairs: &[(&str, &str)]) -> NameMap<String> {
    let mut map = NameMap::new();
    for (k, v) in pairs {
        map.insert(k.to_string(), v.to_string());
    }
    map
}

fn column_tags(columns: &[(&str, &[(&str, &str)])]) -> NameMap<NameMap<String>> {
    let mut map = NameMap::new();
    for (column, pairs) in columns {
        map.insert(column.to_string(), tags(pairs));
    }
    map
}

/// A catalog in which the named functions resolve, or every lookup fails.
fn resolver(fail: bool) -> ResolvedFunctions {
    let mut functions = ResolvedFunctions::new();
    for name in ["f", "hr.mask", "hr.rf", "hr.first", "hr.second"] {
        let outcome = if fail { Err(format!("no such function {name}")) } else { Ok(()) };
        functions.record(name, outcome);
    }
    functions
}

fn eval_with(facts: TableFacts, functions: Option<ResolvedFunctions>) -> EvalContext {
    let mut sink = CatalogFactSink::new();
    sink.record(TableReference::bare("t"), facts);
    EvalContext { catalog_facts: sink, correlation_id: None, function_resolver: functions }
}

#[test]
fn matcher_uid_group_except_all_users_and_normalization() {
    let m = DefaultPrincipalMatcher;
    let alice = principal("User::\"alice\"", &["UserGroup::\"analysts\""]);

    // uid match, both directions of normalization.
    assert!(m.matches("alice", &alice));
    assert!(m.matches("User::\"alice\"", &alice));
    // group match.
    assert!(m.matches("analysts", &alice));
    assert!(m.matches("UserGroup::\"analysts\"", &alice));
    // all-users sentinel.
    assert!(m.matches("account users", &alice));
    // no match, case-sensitive.
    assert!(!m.matches("bob", &alice));
    assert!(!m.matches("Alice", &alice));
}

#[test]
fn except_overrides_to() {
    let engine = AbacPolicyEngine::new();
    let binding = PolicyBinding {
        name: "p".into(),
        kind: BindingKind::RowFilter,
        to_principals: vec!["account users".into()],
        except_principals: vec!["alice".into()],
        when_condition: vec![],
        match_columns: vec![],
        function: "f".into(),
        using_args: vec![],
    };
    assert!(!engine.principal_applies(&binding, &principal("alice", &[])));
    assert!(engine.principal_applies(&binding, &principal("bob", &[])));
}

fn constrain_rows(facts: TableFacts, binding: PolicyBinding) -> TablePolicy {
    let mut f = facts;
    f.policies = vec![binding];
    let engine = AbacPolicyEngine::new();
    let eval = eval_with(f, Some(resolver(false)));
    engine
        .constrain(
            &TableReference::bare("t"),
            &schema(&["id", "ssn"]),
            &principal("alice", &[]),
            &eval,
        )
        .unwrap()
}

fn row_filter_binding(when: Vec<TagCondition>) -> PolicyBinding {
    PolicyBinding {
        name: "rf".into(),
        kind: BindingKind::RowFilter,
        to_principals: vec!["account users".into()],
        except_principals: vec![],
        when_condition: when,
        match_columns: vec![],
        function: "f".into(),
        using_args: vec![],
    }
}

fn condition(key: &str, value: Option<&str>) -> TagCondition {
    TagCondition { key: key.into(), value: value.map(|v| v.to_string()) }
}

#[test]
fn when_empty_always_applies() {
    let tp = constrain_rows(TableFacts::default(), row_filter_binding(vec![]));
    assert_eq!(tp.row_filters.len(), 1);
}

#[test]
fn when_key_only_and_key_value_and_missing() {
    let facts = TableFacts {
        governed_tags: tags(&[("classification", "regulated")]),
        ..Default::default()
    };
    // key-only present.
    let tp = constrain_rows(
        facts.clone(),
        row_filter_binding(vec![condition("classification", None)]),
    );
    assert_eq!(tp.row_filters.len(), 1);
    // key+value equal.
    let tp = constrain_rows(
        facts.clone(),
        row_filter_binding(vec![condition("classification", Some("regulated"))]),
    );
    assert_eq!(tp.row_filters.len(), 1);
    // missing key => does not apply.
    let tp = constrain_rows(facts.clone(), row_filter_binding(vec![condition("absent", None)]));
    assert!(tp.row_filters.is_empty());
}

#[test]
fn when_multi_condition_is_conjunction() {
    let facts =
        TableFacts { governed_tags: tags(&[("a", "1"), ("b", "2")]), ..Default::default() };
    // Both hold => applies.
    let tp = constrain_rows(
        facts.clone(),
        row_filter_binding(vec![condition("a", Some("1")), condition("b", Some("2"))]),
    );
    assert_eq!(tp.row_filters.len(), 1);
    // One fails => does not apply.
    let tp = constrain_rows(
        facts,
        row_filter_binding(vec![condition("a", Some("1")), condition("b", Some("WRONG"))]),
    );
    assert!(tp.row_filters.is_empty());
}

#[test]
fn matched_columns_intersects_schema() {
    // ssn + email are pii-tagged in facts, but only ssn is in this scan.
    let facts = TableFacts {
        governed_column_tags: column_tags(&[
            ("ssn", &[("pii", "ssn")]),
            ("email", &[("pii", "email")]),
        ]),
        ..Default::default()
    };
    let m = ColumnMatch { condition: condition("pii", None), alias: "c".into() };
    let matched = matched_columns(&m, &facts, &schema(&["id", "ssn"]));
    assert_eq!(matched, vec!["ssn".to_string()]);
}

fn mask_binding(function: &str, extra: Vec<FunctionArg>) -> PolicyBinding {
    PolicyBinding {
        name: "mask".into(),
        kind: BindingKind::ColumnMask,
        to_principals: vec!["account users".into()],
        except_principals: vec![],
        when_condition: vec![],
        match_columns: vec![ColumnMatch { condition: condition("pii", None), alias: "col".into() }],
        function: function.into(),
        using_args: extra,
    }
}

fn pii_ssn_facts() -> TableFacts {
    TableFacts {
        governed_column_tags: column_tags(&[("ssn", &[("pii", "ssn")])]),
        ..Default::default()
    }
}

fn constrain_with(
    facts: TableFacts,
    functions: Option<ResolvedFunctions>,
) -> Result<TablePolicy, PolicyError> {
    let engine = AbacPolicyEngine::new();
    let eval = eval_with(facts, functions);
    engine.constrain(
        &TableReference::bare("t"),
        &schema(&["id", "ssn"]),
        &principal("alice", &[]),
        &eval,
    )
}

#[test]
fn mask_binding_produces_call_over_matched_column() {
    let mut facts = pii_ssn_facts();
    facts.policies = vec![mask_binding("hr.mask", vec![FunctionArg::Constant("X".into())])];
    let tp = constrain_with(facts, Some(resolver(false))).unwrap();
    let mask = tp.column_masks.get("ssn").expect("ssn masked");
    // arg 0 is the column; the constant extra rides along.
    assert_eq!(mask, &Expr::Call("hr.mask".to_string(), vec![col("ssn"), lit_str("X")]));
}

#[test]
fn row_filter_maps_alias_and_constant_args() {
    let mut facts = pii_ssn_facts();
    facts.policies = vec![PolicyBinding {
        name: "rf".into(),
        kind: BindingKind::RowFilter,
        to_principals: vec!["account users".into()],
        except_principals: vec![],
        when_condition: vec![],
        match_columns: vec![ColumnMatch { condition: condition("pii", None), alias: "c".into() }],
        function: "hr.rf".into(),
        using_args: vec![FunctionArg::Alias("c".into()), FunctionArg::Constant("eu".into())],
    }];
    let tp = constrain_with(facts, Some(resolver(false))).unwrap();
    assert_eq!(tp.row_filters.len(), 1);
    // Alias resolved to the ssn column; constant present.
    assert_eq!(
        tp.row_filters[0],
        Expr::Call("hr.rf".to_string(), vec![col("ssn"), lit_str("eu")])
    );
}

#[test]
fn unresolvable_filter_fn_errors() {
    let mut facts = pii_ssn_facts();
    facts.policies = vec![row_filter_binding(vec![])];
    // Resolver present but failing => Err (never run unfiltered).
    let err = constrain_with(facts, Some(resolver(true))).unwrap_err();
    assert!(err.message().contains("no such function"));
}

#[test]
fn missing_resolver_for_filter_errors() {
    let mut facts = pii_ssn_facts();
    facts.policies = vec![row_filter_binding(vec![])];
    // No resolver at all => Err (fail-closed).
    let err = constrain_with(facts, None).unwrap_err();
    assert!(err.message().contains("fail-closed"));
    assert_eq!(
        err.message(),
        "row-filter policy \"rf\" names function \"f\" but no CatalogFunctionResolver is wired; \
         refusing to run the query unfiltered (fail-closed)"
    );
}

#[test]
fn unresolvable_mask_fn_falls_back_to_default() {
    let mut facts = pii_ssn_facts();
    facts.policies = vec![mask_binding("hr.mask", vec![])];
    let tp = constrain_with(facts, Some(resolver(true))).unwrap();
    let mask = tp.column_masks.get("ssn").expect("ssn masked");
    assert_eq!(mask, &lit_str(DEFAULT_MASK));
}

#[test]
fn missing_resolver_for_mask_falls_back_to_default() {
    let mut facts = pii_ssn_facts();
    facts.policies = vec![mask_binding("hr.mask", vec![])];
    let tp = constrain_with(facts, None).unwrap();
    assert_eq!(tp.column_masks.get("ssn"), Some(&lit_str(DEFAULT_MASK)));
}

#[test]
fn first_mask_binding_wins_per_column() {
    let mut facts = pii_ssn_facts();
    facts.policies = vec![mask_binding("hr.first", vec![]), mask_binding("hr.second", vec![])];
    let tp = constrain_with(facts, Some(resolver(false))).unwrap();
    let mask = tp.column_masks.get("ssn").expect("ssn masked");
    // A resolved call, not the default literal.
    assert_ne!(mask, &lit_str(DEFAULT_MASK));
    assert_eq!(mask, &Expr::Call("hr.first".to_string(), vec![col("ssn")]));
}

#[test]
fn non_matching_principal_gets_no_constraints() {
    let mut facts = pii_ssn_facts();
    facts.policies = vec![PolicyBinding {
        to_principals: vec!["bob".into()],
        ..mask_binding("hr.mask", vec![])
    }];
    let tp = constrain_with(facts, Some(resolver(false))).unwrap();
    assert!(tp.is_empty(), "alice is not bob; nothing should apply");
}

#[test]
fn no_facts_for_table_is_empty_policy() {
    let engine = AbacPolicyEngine::new();
    let eval = EvalContext::default();
    let tp = engine
        .constrain(
            &TableReference::bare("absent"),
            &schema(&["id"]),
            &principal("alice", &[]),
            &eval,
        )
        .unwrap();
    assert!(tp.is_empty());
}

#[test]
fn is_allowed_always_allows() {
    let engine = AbacPolicyEngine::new();
    let plan = Plan {
        node: PlanNode::Other("EmptyRelation".to_string()),
        subqueries: vec![],
        inputs: vec![],
    };
    let d = engine
        .is_allowed(&plan, &principal("alice", &[]), &EvalContext::default())
        .unwrap();
    assert_eq!(d, Decision::Allow);
}

fn assert_send_sync<T: Send + Sync>() {}

#[test]
fn engine_is_send_sync() {
    assert_send_sync::<AbacPolicyEngine>();
}

#[test]
fn wrapped_and_plain_names_are_the_same_principal() {
    let m = DefaultPrincipalMatcher;
    for uid in ["alice", "User::\"alice\"", "Ns::User::\"alice\""] {
        for name in ["alice", "User::\"alice\"", "Other::\"alice\""] {
            assert!(m.matches(name, &principal(uid, &[])), "{name} {uid}");
        }
    }
    assert!(!m.matches("alic", &principal("alice", &[])));
}

struct Nobody;

impl PrincipalMatcher for Nobody {
    fn matches(&self, _name: &str, _principal: &PrincipalIdentity) -> bool {
        false
    }
}

#[test]
fn a_wrapper_is_stripped_to_its_inner_text() {
    for (name, plain) in [
        ("User::\"alice\"", "alice"),
        ("alice", "alice"),
        ("\"alice\"", "\"alice\""),
        ("User::\"a::b\"", "a::b"),
        ("Acme::User::\"a::\"", "a::"),
        ("User::\"\"", ""),
        ("User::alice", "alice"),
        ("Acme::User::alice", "alice"),
        ("User::\"", "\""),
        ("User::al\"", "al\""),
        ("User::", ""),
        ("", ""),
    ] {
        assert_eq!(normalize_name(name), plain, "{name}");
    }
    // Stripping again changes nothing where there is one separator at most.
    for name in ["User::\"alice\"", "User::\"", "al:ice", "\"x\""] {
        let once = normalize_name(name);
        assert_eq!(normalize_name(once), once, "{name}");
        assert!(!once.contains("::"));
    }
    // A name that holds the separator matches its wrapped form, both ways.
    let m = DefaultPrincipalMatcher;
    assert!(m.matches("a::b", &principal("User::\"a::b\"", &[])));
    assert!(m.matches("User::\"a::b\"", &principal("a::b", &[])));
    assert!(m.matches("a::b", &principal("x", &["Group::\"a::b\""])));
    assert!(!m.matches("a::c", &principal("User::\"a::b\"", &[])));
}

#[test]
fn a_matcher_of_the_host_decides() {
    let engine = AbacPolicyEngine::with_matcher(Nobody);
    let binding = mask_binding("f", vec![]);
    assert!(!engine.principal_applies(&binding, &principal("alice", &[])));
    let mut facts = pii_ssn_facts();
    facts.policies = vec![binding];
    let eval = eval_with(facts, None);
    let tp = engine
        .constrain(&TableReference::bare("t"), &schema(&["ssn"]), &principal("a", &[]), &eval)
        .unwrap();
    assert!(tp.is_empty());
}

#[test]
fn a_filter_error_stops_the_bindings_behind_it() {
    let mut facts = pii_ssn_facts();
    facts.policies = vec![
        mask_binding("hr.mask", vec![]),
        row_filter_binding(vec![]),
        mask_binding("hr.second", vec![]),
    ];
    assert_eq!(
        constrain_with(facts, None).unwrap_err(),
        PolicyError::NoFunctionResolver { policy: "rf".to_string(), function: "f".to_string() }
    );
}

#[test]
fn an_alias_that_matches_no_column_is_left_out() {
    let mut facts = pii_ssn_facts();
    facts.policies = vec![PolicyBinding {
        using_args: vec![FunctionArg::Alias("gone".into()), FunctionArg::Constant("k".into())],
        ..row_filter_binding(vec![])
    }];
    let tp = constrain_with(facts, Some(resolver(false))).unwrap();
    assert_eq!(tp.row_filters, vec![Expr::Call("f".to_string(), vec![lit_str("k")])]);
}

#[test]
fn functions_in_use_are_those_of_the_bindings_that_apply() {
    let mut facts = pii_ssn_facts();
    facts.policies = vec![
        mask_binding("hr.mask", vec![]),
        PolicyBinding { to_principals: vec!["bob".into()], ..mask_binding("hr.second", vec![]) },
        row_filter_binding(vec![]),
    ];
    let engine = AbacPolicyEngine::new();
    let eval = eval_with(facts, None);
    let names = engine.required_functions(
        &TableReference::bare("t"),
        &schema(&["id", "ssn"]),
        &principal("alice", &[]),
        &eval,
    );
    assert_eq!(names, vec!["hr.mask".to_string(), "f".to_string()]);
}
