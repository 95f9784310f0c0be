use breakwater::expr::{binary, col, lit_bool, lit_i64, lit_str};
use breakwater::govern::{GovernRun, TablePolicies};
use breakwater::session::would_constrain;
use breakwater::{
    govern_plan, AbacPolicyEngine, BindingKind, CatalogFactSink, ColumnMatch, Decision,
    EvalContext, Expr, FactStore, Field, FunctionArg, InMemoryFactStore, NameMap, NameSet,
    Operator, Plan, PlanNode, PolicyBinding, PolicyEngine, PolicyError, PrincipalIdentity,
    ProjectionItem, ResolvedFunctions, StaticPolicyEngine, TableFacts, TablePolicy,
    TableReference, TagCondition,
};

fn principal() -> PrincipalIdentity {
    PrincipalIdentity::new("User::\"alice\"")
}

fn field(table: &str, name: &str, data_type: &str) -> Field {
    Field {
        qualifier: Some(TableReference::bare(table)),
        name: name.to_string(),
        data_type: data_type.to_string(),
    }
}

fn columns(table: &str) -> Vec<Field> {
    vec![
        field(table, "id", "Int64"),
        field(table, "region", "Utf8"),
        field(table, "ssn", "Utf8"),
    ]
}

fn scan_of(table: &str) -> Plan {
    Plan {
        node: PlanNode::TableScan { table: TableReference::bare(table), fields: columns(table) },
        subqueries: vec![],
        inputs: vec![],
    }
}

fn join(left: Plan, right: Plan) -> Plan {
    Plan {
        node: PlanNode::Other("Join".to_string()),
        subqueries: vec![],
        inputs: vec![left, right],
    }
}

fn masks(pairs: Vec<(&str, Expr)>) -> NameMap<Expr> {
    let mut map = NameMap::new();
    for (name, mask) in pairs {
        map.insert(name.to_string(), mask);
    }
    map
}

fn region_is(value: &str) -> Expr {
    binary(col("region"), Operator::Eq, lit_str(value))
}

/// An engine with a fixed reply for each table, and an option to fail.
struct PerTablePolicy {
    filters: Vec<(String, Expr)>,
    masks: Vec<(String, Expr)>,
    fail: bool,
}

impl PolicyEngine for PerTablePolicy {
    fn is_allowed(
        &self,
        _plan: &Plan,
        _principal: &PrincipalIdentity,
        _eval: &EvalContext,
    ) -> Result<Decision, PolicyError> {
        Ok(Decision::Allow)
    }

    fn constrain(
        &self,
        table: &TableReference,
        _fields: &Vec<Field>,
        _principal: &PrincipalIdentity,
        _eval: &EvalContext,
    ) -> Result<TablePolicy, PolicyError> {
        if self.fail {
            return Err(PolicyError::Engine("policy boom".to_string()));
        }
        let mut policy = TablePolicy::default();
        for (name, filter) in &self.filters {
            if name == table.table() {
                policy.row_filters.push(filter.clone());
            }
        }
        for (name, mask) in &self.masks {
            policy.column_masks.insert(name.clone(), mask.clone());
        }
        Ok(policy)
    }

    fn tool_policy(
        &self,
        _action: &str,
        _principal: &PrincipalIdentity,
        _observed_taints: &NameSet,
    ) -> Result<Decision, PolicyError> {
        Ok(Decision::Allow)
    }
}

fn engine(filters: Vec<(&str, Expr)>, masks: Vec<(&str, Expr)>) -> PerTablePolicy {
    PerTablePolicy {
        filters: filters.into_iter().map(|(n, e)| (n.to_string(), e)).collect(),
        masks: masks.into_iter().map(|(n, e)| (n.to_string(), e)).collect(),
        fail: false,
    }
}

fn govern(plan: Plan, policy: &PerTablePolicy, eval: &EvalContext) -> Result<Plan, PolicyError> {
    let mut store: Option<InMemoryFactStore> = None;
    govern_plan(plan, policy, &principal(), eval, &mut store)
}

#[test]
fn static_engine_returns_its_decision() {
    let plan = Plan {
        node: PlanNode::Other("EmptyRelation".to_string()),
        subqueries: vec![],
        inputs: vec![],
    };
    let allow = StaticPolicyEngine::new(Decision::Allow);
    let deny = StaticPolicyEngine::new(Decision::Deny);
    let eval = EvalContext::default();
    assert_eq!(allow.is_allowed(&plan, &principal(), &eval).unwrap(), Decision::Allow);
    assert_eq!(deny.is_allowed(&plan, &principal(), &eval).unwrap(), Decision::Deny);
    assert_eq!(
        deny.tool_policy("send_external", &principal(), &NameSet::new()).unwrap(),
        Decision::Allow
    );
}

#[test]
fn no_policy_leaves_plan_unchanged() {
    let governed = govern(scan_of("t"), &engine(vec![], vec![]), &EvalContext::default()).unwrap();
    match &governed.node {
        PlanNode::TableScan { table, fields } => {
            assert_eq!(table.table(), "t");
            assert_eq!(fields, &columns("t"));
        }
        other => panic!("expected the scan, got {other:?}"),
    }
    assert!(governed.inputs.is_empty());
}

fn tagged_eval(tags: &[(&str, &str)]) -> EvalContext {
    let mut column_tags = NameMap::new();
    for (column, tag) in tags {
        let mut set = NameSet::new();
        set.insert(tag.to_string());
        column_tags.insert(column.to_string(), set);
    }
    let mut sink = CatalogFactSink::new();
    sink.record(
        TableReference::bare("t"),
        TableFacts { column_tags, ..Default::default() },
    );
    EvalContext {
        catalog_facts: sink,
        correlation_id: Some("session-1".to_string()),
        function_resolver: None,
    }
}

#[test]
fn records_taint_when_tagged_column_is_projected() {
    let eval = tagged_eval(&[("ssn", "pii")]);
    let mut store = Some(InMemoryFactStore::new());
    govern_plan(scan_of("t"), &engine(vec![], vec![]), &principal(), &eval, &mut store).unwrap();
    let store = store.unwrap();
    assert!(store.observed_taints("session-1").contains("pii"));
    assert!(store.observed_taints("session-2").is_empty());
}

#[test]
fn no_taint_when_tagged_column_not_projected() {
    let eval = tagged_eval(&[("email", "pii")]);
    let mut store = Some(InMemoryFactStore::new());
    govern_plan(scan_of("t"), &engine(vec![], vec![]), &principal(), &eval, &mut store).unwrap();
    assert!(store.unwrap().observed_taints("session-1").is_empty());
}

#[test]
fn taints_are_recorded_for_tables_of_a_secured_view_too() {
    let mut eval = tagged_eval(&[("ssn", "pii")]);
    eval.catalog_facts.mark_governed(TableReference::bare("t"));
    let mut store = Some(InMemoryFactStore::new());
    govern_plan(scan_of("t"), &engine(vec![], vec![]), &principal(), &eval, &mut store).unwrap();
    assert!(store.unwrap().observed_taints("session-1").contains("pii"));
}

#[test]
fn taints_accrue_and_recording_again_changes_nothing() {
    let mut store = InMemoryFactStore::new();
    let mut pii = NameSet::new();
    pii.insert("pii".to_string());
    store.record_taints("s", &pii);
    store.record_taints("s", &pii);
    assert_eq!(store.observed_taints("s").len(), 1);
    let mut secret = NameSet::new();
    secret.insert("secret".to_string());
    store.record_taints("s", &secret);
    assert_eq!(store.observed_taints("s").len(), 2);
    assert!(store.observed_taints("other").is_empty());
}

#[test]
fn injects_row_filter() {
    let governed = govern(
        scan_of("t"),
        &engine(vec![("t", region_is("eu"))], vec![]),
        &EvalContext::default(),
    )
    .unwrap();
    match &governed.node {
        PlanNode::Filter(predicate) => assert_eq!(predicate, &region_is("eu")),
        other => panic!("expected a filter, got {other:?}"),
    }
    assert!(matches!(governed.inputs[0].node, PlanNode::TableScan { .. }));
}

#[test]
fn injects_column_mask_as_non_identity_projection() {
    let governed = govern(
        scan_of("t"),
        &engine(vec![], vec![("ssn", lit_str("***"))]),
        &EvalContext::default(),
    )
    .unwrap();
    let PlanNode::Projection(items) = &governed.node else {
        panic!("expected a projection, got {governed:?}");
    };
    assert_eq!(items.len(), 3);
    match (&items[0], &items[2]) {
        (
            ProjectionItem::Keep { name: kept, .. },
            ProjectionItem::Mask { mask, name, qualifier, .. },
        ) => {
            assert_eq!(kept, "id");
            assert_eq!(mask, &lit_str("***"));
            assert_eq!(name, "ssn");
            assert_eq!(qualifier, &Some(TableReference::bare("t")));
        }
        other => panic!("expected a kept and a masked column, got {other:?}"),
    }
}

#[test]
fn mask_preserves_column_name_and_data_type() {
    // An integer column under a string mask is cast back to its own type.
    let governed = govern(
        scan_of("t"),
        &engine(vec![], vec![("id", lit_str("0"))]),
        &EvalContext::default(),
    )
    .unwrap();
    let PlanNode::Projection(items) = &governed.node else {
        panic!("expected a projection, got {governed:?}");
    };
    match &items[0] {
        ProjectionItem::Mask { data_type, name, .. } => {
            assert_eq!(name, "id");
            assert_eq!(data_type, "Int64", "masked column must keep the original type");
        }
        other => panic!("expected a mask, got {other:?}"),
    }
}

#[test]
fn deny_override_keeps_negated_condition() {
    let negated = Expr::Not(Box::new(region_is("blocked")));
    let governed = govern(
        scan_of("t"),
        &engine(vec![("t", negated.clone())], vec![]),
        &EvalContext::default(),
    )
    .unwrap();
    match &governed.node {
        PlanNode::Filter(predicate) => {
            assert!(matches!(predicate, Expr::Not(_)));
            assert_eq!(predicate, &negated);
        }
        other => panic!("expected a filter, got {other:?}"),
    }
}

fn count_filters(plan: &Plan) -> usize {
    let own = if matches!(plan.node, PlanNode::Filter(_)) { 1 } else { 0 };
    own + plan.inputs.iter().map(count_filters).sum::<usize>()
}

#[test]
fn multi_table_join_governs_each_scan_independently() {
    let plan = join(scan_of("a"), scan_of("b"));
    let governed =
        govern(plan, &engine(vec![("a", region_is("eu"))], vec![]), &EvalContext::default())
            .unwrap();
    // Exactly one filter was injected (for `a`), not two: `b` is ungoverned.
    assert_eq!(count_filters(&governed), 1);
    assert!(matches!(governed.inputs[0].node, PlanNode::Filter(_)));
    assert!(matches!(governed.inputs[1].node, PlanNode::TableScan { .. }));
}

/// The plan of `SELECT id FROM a WHERE id IN (SELECT id FROM b)`.
fn in_subquery() -> Plan {
    let subquery = Plan {
        node: PlanNode::Other("Subquery:".to_string()),
        subqueries: vec![],
        inputs: vec![scan_of("b")],
    };
    Plan {
        node: PlanNode::Other("Filter: a.id IN (<subquery>)".to_string()),
        subqueries: vec![subquery],
        inputs: vec![scan_of("a")],
    }
}

#[test]
fn a_scan_inside_a_subquery_is_governed() {
    let policy = engine(vec![("b", region_is("eu"))], vec![]);
    let governed = govern(in_subquery(), &policy, &EvalContext::default()).unwrap();
    assert!(matches!(&governed.inputs[0].node, PlanNode::TableScan { .. }));
    let inside = &governed.subqueries[0].inputs[0];
    assert!(matches!(&inside.node, PlanNode::Filter(e) if *e == region_is("eu")));
    assert!(matches!(
        &inside.inputs[0].node,
        PlanNode::TableScan { table, .. } if table.table() == "b"
    ));
    // The subquery's scan is asked about before the input's.
    let run = GovernRun::new(&in_subquery());
    assert_eq!(run.count(), 2);
    assert_eq!(run.scan(0).table.table(), "b");
    assert_eq!(run.scan(1).table.table(), "a");
}

#[test]
fn a_dry_run_tells_what_would_be_constrained() {
    let mut policies = TablePolicies::new();
    assert!(!would_constrain(&in_subquery(), &policies));
    let mut policy = TablePolicy::default();
    policy.row_filters.push(lit_bool(false));
    policies.insert(TableReference::bare("b"), policy);
    assert!(would_constrain(&in_subquery(), &policies));
    assert!(!would_constrain(&scan_of("a"), &policies));
}

#[test]
fn table_policy_error_propagates() {
    let policy = PerTablePolicy { filters: vec![], masks: vec![], fail: true };
    let result = govern(scan_of("t"), &policy, &EvalContext::default());
    assert_eq!(result.unwrap_err(), PolicyError::Engine("policy boom".to_string()));
}

#[test]
fn filters_stand_over_masks() {
    let governed = govern(
        scan_of("t"),
        &engine(
            vec![("t", region_is("eu")), ("t", lit_bool(true))],
            vec![("ssn", lit_str("***"))],
        ),
        &EvalContext::default(),
    )
    .unwrap();
    match &governed.node {
        PlanNode::Filter(predicate) => {
            assert_eq!(predicate, &binary(region_is("eu"), Operator::And, lit_bool(true)))
        }
        other => panic!("expected a filter, got {other:?}"),
    }
    assert!(matches!(governed.inputs[0].node, PlanNode::Projection(_)));
    assert!(matches!(governed.inputs[0].inputs[0].node, PlanNode::TableScan { .. }));
}

#[test]
fn a_run_asks_once_for_each_table() {
    let plan = join(scan_of("a"), join(scan_of("b"), scan_of("a")));
    let mut sink = CatalogFactSink::new();
    sink.mark_governed(TableReference::bare("b"));
    let mut run = GovernRun::new(&plan);
    assert_eq!(run.count(), 3);
    let first = run.question(&sink).expect("a is asked about");
    assert_eq!(run.scan(first).table.table(), "a");
    run.answer(TablePolicy { row_filters: vec![lit_i64(1)], column_masks: masks(vec![]) });
    assert_eq!(run.question(&sink), None);
    let policies: TablePolicies = run.finish();
    assert!(!policies.is_empty());
    assert!(policies.get(&TableReference::bare("a")).is_some());
    assert!(policies.get(&TableReference::bare("b")).is_none());
}

#[test]
fn a_table_without_constraints_is_asked_about_again() {
    let plan = join(scan_of("a"), scan_of("a"));
    let sink = CatalogFactSink::new();
    let mut run = GovernRun::new(&plan);
    assert_eq!(run.question(&sink), Some(0));
    run.answer(TablePolicy::default());
    assert_eq!(run.question(&sink), Some(1));
    run.answer(TablePolicy::default());
    assert_eq!(run.question(&sink), None);
    assert!(run.finish().is_empty());
}

/// Facts for `t`: ssn is pii, region carries a tag; a mask and a row filter for
/// analysts.
fn eval_for(kind: &str) -> EvalContext {
    let binding = |name: &str, kind: BindingKind, key: &str, function: &str, args| PolicyBinding {
        name: name.into(),
        kind,
        to_principals: vec!["analysts".into()],
        except_principals: vec![],
        when_condition: vec![],
        match_columns: vec![ColumnMatch {
            condition: TagCondition { key: key.into(), value: None },
            alias: "c".into(),
        }],
        function: function.into(),
        using_args: args,
    };
    let mask = binding("mask_pii", BindingKind::ColumnMask, "pii", "hr.redact", vec![]);
    let row = binding(
        "eu_only",
        BindingKind::RowFilter,
        "region_tag",
        "hr.keep_eu",
        vec![FunctionArg::Alias("c".into())],
    );
    let policies = match kind {
        "both" => vec![mask, row],
        "mask" => vec![mask],
        _ => vec![],
    };
    let tag = |key: &str, value: &str| {
        let mut map = NameMap::new();
        map.insert(key.to_string(), value.to_string());
        map
    };
    let mut governed_column_tags = NameMap::new();
    governed_column_tags.insert("ssn".to_string(), tag("pii", "ssn"));
    governed_column_tags.insert("region".to_string(), tag("region_tag", "geo"));
    let mut sink = CatalogFactSink::new();
    sink.record(
        TableReference::bare("t"),
        TableFacts { governed_column_tags, policies, ..Default::default() },
    );
    let mut functions = ResolvedFunctions::new();
    functions.record("hr.redact", Ok(()));
    functions.record("hr.keep_eu", Ok(()));
    EvalContext { catalog_facts: sink, correlation_id: None, function_resolver: Some(functions) }
}

fn analyst() -> PrincipalIdentity {
    let mut p = principal();
    p.groups = vec!["analysts".to_string()];
    p
}

fn run_abac(who: &PrincipalIdentity, eval: &EvalContext) -> Plan {
    let mut store: Option<InMemoryFactStore> = None;
    govern_plan(scan_of("t"), &AbacPolicyEngine::new(), who, eval, &mut store).unwrap()
}

#[test]
fn matching_principal_gets_masked_and_filtered() {
    let governed = run_abac(&analyst(), &eval_for("both"));
    match &governed.node {
        PlanNode::Filter(predicate) => assert_eq!(
            predicate,
            &Expr::Call("hr.keep_eu".to_string(), vec![col("region")])
        ),
        other => panic!("expected a filter, got {other:?}"),
    }
    let PlanNode::Projection(items) = &governed.inputs[0].node else {
        panic!("expected a projection, got {governed:?}");
    };
    match &items[2] {
        ProjectionItem::Mask { mask, .. } => {
            assert_eq!(mask, &Expr::Call("hr.redact".to_string(), vec![col("ssn")]))
        }
        other => panic!("expected a mask, got {other:?}"),
    }
}

#[test]
fn non_matching_principal_sees_raw_data() {
    let outsider = PrincipalIdentity::new("User::\"bob\"");
    let governed = run_abac(&outsider, &eval_for("both"));
    assert!(matches!(governed.node, PlanNode::TableScan { .. }));
}

#[test]
fn mask_only_leaves_all_rows_but_redacts_column() {
    let governed = run_abac(&analyst(), &eval_for("mask"));
    assert_eq!(count_filters(&governed), 0);
    assert!(matches!(governed.node, PlanNode::Projection(_)));
}
