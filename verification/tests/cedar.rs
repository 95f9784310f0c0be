use std::str::FromStr;

use breakwater::cedar::{mask_candidate_columns, table_entity};
use breakwater::cedar_gate::{
    plan_requests, policy_fetch_request, request_entities, settled, tool_request, PlanGate,
    PlanRequest,
};
use breakwater::cedar_rules::{
    constrain_table, read_arguments, row_rule, table_rules, RowRule,
};
use breakwater::cedar::TableQuery;
use breakwater::expr::{binary, col, lit_bool, lit_i64, lit_str};
use breakwater::{
    plan_actions, CatalogFactSink, Decision, EvalContext, Expr, Field, Group, NameMap, NameSet,
    Operator, Plan, PlanNode, PolicyError, PrincipalEnrichment, PrincipalIdentity, ResidualError,
    ResolvedFunctions, TableFacts, TablePolicy, TableReference, WriteOp, DEFAULT_MASK,
};
use cedar_policy::{Authorizer, Context, PolicySet, Schema};

const SCHEMA: &str = r#"
    entity UserGroup in [UserGroup];
    entity User in [UserGroup] { region: String, clearance: String } tags String;
    entity Table { region: String } tags String;
    entity Column in [Table] { name: String } tags String;
    action read_table appliesTo { principal: [User], resource: [Table], context: {} };
    action read_column appliesTo { principal: [User], resource: [Column], context: {} };
"#;

const POLICY: &str = r#"
    @id("region_rows")
    permit (principal, action == Action::"read_table", resource)
    when { resource.region == principal.region };

    @id("mask_ssn")
    @mask_fn("hr.security.mask_ssn")
    @using_columns("4")
    forbid (principal, action == Action::"read_column", resource)
    when { resource.hasTag("pii") && resource.getTag("pii") == "ssn" }
    unless { principal.clearance == "high" };

    @id("mask_secret")
    forbid (principal, action == Action::"read_column", resource)
    when { resource.hasTag("classification") && resource.getTag("classification") == "secret" };
"#;

fn schema() -> Schema {
    Schema::from_cedarschema_str(SCHEMA).expect("valid schema").0
}

fn policies(src: &str) -> PolicySet {
    PolicySet::from_str(src).expect("valid policy set")
}

fn table() -> TableReference {
    TableReference::full("prod", "customers", "accounts")
}

fn field(name: &str) -> Field {
    Field { qualifier: Some(table()), name: name.to_string(), data_type: "Utf8".to_string() }
}

fn fields() -> Vec<Field> {
    vec![field("region"), field("ssn"), field("salary")]
}

fn tags(pairs: &[(&str, &str)]) -> NameMap<String> {
    let mut map = NameMap::new();
    for (k, v) in pairs {
        map.insert(k.to_string(), v.to_string());
    }
    map
}

fn column_tags(columns: &[(&str, &[(&str, &str)])]) -> NameMap<NameMap<String>> {
    let mut map = NameMap::new();
    for (column, pairs) in columns {
        map.insert(column.to_string(), tags(pairs));
    }
    map
}

fn eval_with(facts: TableFacts, functions: Option<ResolvedFunctions>) -> EvalContext {
    let mut sink = CatalogFactSink::new();
    sink.record(table(), facts);
    EvalContext { catalog_facts: sink, correlation_id: None, function_resolver: functions }
}

/// A catalog that has the function the policy names.
fn functions() -> Option<ResolvedFunctions> {
    let mut functions = ResolvedFunctions::new();
    functions.record("hr.security.mask_ssn", Ok(()));
    Some(functions)
}

fn eval_columns(columns: &[(&str, &[(&str, &str)])]) -> EvalContext {
    let facts = TableFacts { governed_column_tags: column_tags(columns), ..Default::default() };
    eval_with(facts, functions())
}

fn alice() -> PrincipalIdentity {
    PrincipalIdentity::new("User::\"alice\"").with_attribute("region", "eu")
}

fn alice_eu() -> PrincipalIdentity {
    alice().with_attribute("clearance", "standard")
}

fn carol_high() -> PrincipalIdentity {
    PrincipalIdentity::new("User::\"carol\"")
        .with_attribute("region", "eu")
        .with_attribute("clearance", "high")
}

fn constrain_by(src: &str, who: &PrincipalIdentity, eval: &EvalContext) -> TablePolicy {
    let schema = schema();
    constrain_table(
        &policies(src),
        Some(&schema),
        &Context::empty(),
        &table(),
        &fields(),
        who,
        eval,
    )
}

fn constrain(who: &PrincipalIdentity, eval: &EvalContext) -> TablePolicy {
    constrain_by(POLICY, who, eval)
}

fn region_eu() -> Expr {
    binary(col("region"), Operator::Eq, lit_str("eu"))
}

// --- Fine-grained governance -----------------------------------------------

#[test]
fn row_filter_residual_becomes_predicate() {
    // `resource.region == principal.region` folds to `region = 'eu'`.
    let tp = constrain(&alice_eu(), &eval_columns(&[]));
    assert_eq!(tp.row_filters, vec![region_eu()]);
    assert!(tp.column_masks.is_empty());
}

#[test]
fn policy_named_fn_masks_tagged_column() {
    let tp = constrain(&alice_eu(), &eval_columns(&[("ssn", &[("pii", "ssn")])]));
    assert_eq!(
        tp.column_masks.get("ssn"),
        Some(&Expr::Call("hr.security.mask_ssn".to_string(), vec![col("ssn"), lit_i64(4)]))
    );
}

#[test]
fn high_clearance_principal_sees_unmasked() {
    let tp = constrain(&carol_high(), &eval_columns(&[("ssn", &[("pii", "ssn")])]));
    assert!(!tp.column_masks.contains_key("ssn"));
}

#[test]
fn default_literal_masks_when_no_fn_named() {
    let eval = eval_columns(&[("salary", &[("classification", "secret")])]);
    let tp = constrain(&alice_eu(), &eval);
    assert_eq!(tp.column_masks.get("salary"), Some(&lit_str(DEFAULT_MASK)));
}

#[test]
fn untagged_column_is_not_masked() {
    let tp = constrain(&alice_eu(), &eval_columns(&[]));
    assert!(tp.column_masks.is_empty());
}

#[test]
fn no_schema_denies_all_rows() {
    let tp = constrain_table(
        &policies(POLICY),
        None,
        &Context::empty(),
        &table(),
        &fields(),
        &alice_eu(),
        &eval_columns(&[]),
    );
    assert_eq!(tp.row_filters, vec![lit_bool(false)]);
}

#[test]
fn named_fn_without_resolver_fails_closed_to_default() {
    let facts = TableFacts {
        governed_column_tags: column_tags(&[("ssn", &[("pii", "ssn")])]),
        ..Default::default()
    };
    let tp = constrain(&alice_eu(), &eval_with(facts, None));
    assert_eq!(tp.column_masks.get("ssn"), Some(&lit_str(DEFAULT_MASK)));
}

#[test]
fn a_function_the_catalog_lacks_falls_back_to_the_default_mask() {
    let facts = TableFacts {
        governed_column_tags: column_tags(&[("ssn", &[("pii", "ssn")])]),
        ..Default::default()
    };
    let tp = constrain(&alice_eu(), &eval_with(facts, Some(ResolvedFunctions::new())));
    assert_eq!(tp.column_masks.get("ssn"), Some(&lit_str(DEFAULT_MASK)));
}

#[test]
fn a_column_outside_the_scan_is_not_masked() {
    let eval = eval_columns(&[("email", &[("classification", "secret")])]);
    assert!(constrain(&alice_eu(), &eval).column_masks.is_empty());
}

const TAGGED: &str = r#"
    permit (principal, action == Action::"read_table", resource)
    when { resource.hasTag("classification") && resource.getTag("classification") == "internal" };
"#;

fn eval_tagged(pairs: &[(&str, &str)]) -> EvalContext {
    eval_with(TableFacts { governed_tags: tags(pairs), ..Default::default() }, None)
}

#[test]
fn a_table_tag_that_matches_folds_away() {
    let tp = constrain_by(TAGGED, &alice_eu(), &eval_tagged(&[("classification", "internal")]));
    assert!(tp.is_empty(), "got {tp:?}");
}

#[test]
fn a_table_without_the_tag_hides_every_row() {
    for eval in [
        eval_tagged(&[("classification", "public")]),
        eval_tagged(&[]),
        EvalContext::default(),
    ] {
        let tp = constrain_by(TAGGED, &alice_eu(), &eval);
        assert_eq!(tp.row_filters, vec![lit_bool(false)]);
        assert!(tp.column_masks.is_empty());
    }
}

#[test]
fn a_tag_conditioned_forbid_fires_on_matching_tables_only() {
    let src = r#"
        permit (principal, action == Action::"read_table", resource);
        forbid (principal, action == Action::"read_table", resource)
        when { resource.hasTag("frozen") };
    "#;
    let tp = constrain_by(src, &alice_eu(), &eval_tagged(&[("frozen", "yes")]));
    assert_eq!(tp.row_filters, vec![lit_bool(false)]);
    let tp = constrain_by(src, &alice_eu(), &eval_tagged(&[("other", "yes")]));
    assert!(tp.is_empty());
}

#[test]
fn a_tag_folds_and_a_column_comparison_survives() {
    let src = r#"
        permit (principal, action == Action::"read_table", resource)
        when { resource.hasTag("classification") && resource.region == principal.region };
    "#;
    let tp = constrain_by(src, &alice_eu(), &eval_tagged(&[("classification", "x")]));
    assert_eq!(tp.row_filters, vec![region_eu()]);
}

#[test]
fn a_surviving_forbid_hides_every_row() {
    let src = r#"
        permit (principal, action == Action::"read_table", resource);
        forbid (principal, action == Action::"read_table", resource)
        when { resource.region == "eu" };
    "#;
    let tp = constrain_by(src, &alice_eu(), &eval_columns(&[("salary", &[("classification", "secret")])]));
    assert_eq!(tp.row_filters, vec![lit_bool(false)]);
    assert!(tp.column_masks.is_empty());
}

#[test]
fn surviving_permits_are_a_union() {
    let src = r#"
        permit (principal, action == Action::"read_table", resource) when { resource.region == "eu" };
        permit (principal, action == Action::"read_table", resource) when { resource.region == "us" };
    "#;
    let tp = constrain_by(src, &alice_eu(), &eval_columns(&[]));
    assert_eq!(tp.row_filters.len(), 1);
    let us = || binary(col("region"), Operator::Eq, lit_str("us"));
    let one = binary(region_eu(), Operator::Or, us());
    let other = binary(us(), Operator::Or, region_eu());
    assert!(tp.row_filters[0] == one || tp.row_filters[0] == other);
}

#[test]
fn an_untranslatable_permit_hides_every_row_and_masks_still_apply() {
    let src = r#"
        permit (principal, action == Action::"read_table", resource) when { resource.region == "eu" };
        permit (principal, action == Action::"read_table", resource) when { ["a"].contains(resource.region) };
        forbid (principal, action == Action::"read_column", resource) when { resource.hasTag("pii") };
    "#;
    let tp = constrain_by(src, &alice_eu(), &eval_columns(&[("ssn", &[("pii", "x")])]));
    assert_eq!(tp.row_filters, vec![lit_bool(false)]);
    assert_eq!(tp.column_masks.get("ssn"), Some(&lit_str(DEFAULT_MASK)));
}

#[test]
fn a_principal_outside_the_schema_sees_nothing() {
    // No clearance: the principal does not conform, and evaluation fails.
    let tp = constrain(&alice(), &eval_columns(&[("ssn", &[("other", "x")])]));
    assert_eq!(tp.row_filters, vec![lit_bool(false)]);
    assert_eq!(tp.column_masks.get("ssn"), Some(&lit_str(DEFAULT_MASK)));
    let nobody = PrincipalIdentity::new("not a uid");
    assert_eq!(constrain(&nobody, &eval_columns(&[])).row_filters, vec![lit_bool(false)]);
}

#[test]
fn a_forbid_that_stays_undecided_masks_the_column() {
    // The principal's tags are not known to partial evaluation, so the forbid
    // survives it.
    let src = r#"
        permit (principal, action == Action::"read_table", resource);
        @mask_fn("hr.security.mask_ssn")
        forbid (principal, action == Action::"read_column", resource)
        when { resource.hasTag("pii") && principal.hasTag("contractor") };
    "#;
    let tp = constrain_by(src, &alice_eu(), &eval_columns(&[("ssn", &[("pii", "x")])]));
    assert_eq!(
        tp.column_masks.get("ssn"),
        Some(&Expr::Call("hr.security.mask_ssn".to_string(), vec![col("ssn")]))
    );
    // Settled by the column's tags, it protects nothing.
    let tp = constrain_by(src, &alice_eu(), &eval_columns(&[("ssn", &[("other", "x")])]));
    assert!(tp.column_masks.is_empty());
}

#[test]
fn a_permit_of_the_whole_table_outweighs_one_left_over() {
    let src = r#"
        permit (principal, action == Action::"read_table", resource) when { principal.region == "eu" };
        permit (principal, action == Action::"read_table", resource) when { resource.region == "us" };
    "#;
    assert!(constrain_by(src, &alice_eu(), &eval_columns(&[])).is_empty());
}

#[test]
fn a_permit_may_name_the_function_that_filters_its_rows() {
    let src = r#"
        @row_filter_fn("hr.security.own_region")
        @using_columns("region, 4")
        permit (principal, action == Action::"read_table", resource)
        when { resource.region == principal.region };
    "#;
    let call = || {
        Expr::Call("hr.security.own_region".to_string(), vec![col("region"), lit_i64(4)])
    };
    let mut functions = ResolvedFunctions::new();
    functions.record("hr.security.own_region", Ok(()));
    let tp = constrain_by(src, &alice_eu(), &eval_with(TableFacts::default(), Some(functions)));
    assert_eq!(tp.row_filters, vec![call()]);

    // Joined with a permit that is filtered by its own condition.
    let both = format!(
        "{src} permit (principal, action == Action::\"read_table\", resource) when {{ resource.region == \"eu\" }};"
    );
    let mut functions = ResolvedFunctions::new();
    functions.record("hr.security.own_region", Ok(()));
    let eval = eval_with(TableFacts::default(), Some(functions));
    let tp = constrain_by(&both, &alice_eu(), &eval);
    let one = binary(call(), Operator::Or, region_eu());
    let other = binary(region_eu(), Operator::Or, call());
    assert_eq!(tp.row_filters.len(), 1);
    assert!(tp.row_filters[0] == one || tp.row_filters[0] == other);

    // A function that cannot be had hides every row.
    for functions in [None, Some(ResolvedFunctions::new())] {
        let tp = constrain_by(&both, &alice_eu(), &eval_with(TableFacts::default(), functions));
        assert_eq!(tp.row_filters, vec![lit_bool(false)]);
    }
}

#[test]
fn the_first_forbid_that_fires_gives_the_mask() {
    let src = r#"
        @mask_fn("first") forbid (principal, action == Action::"read_column", resource)
        when { resource.hasTag("no") };
        @mask_fn("second") @using_columns(" a , ,7,b") forbid (principal, action == Action::"read_column", resource)
        when { resource.hasTag("pii") };
        @mask_fn("third") forbid (principal, action == Action::"read_column", resource);
    "#;
    let facts = TableFacts {
        governed_column_tags: column_tags(&[("ssn", &[("pii", "x")])]),
        ..Default::default()
    };
    let set = policies(src);
    let schema = schema();
    let context = Context::empty();
    let (name, who) = (table(), alice_eu());
    let q = TableQuery {
        policies: &set,
        schema: &schema,
        context: &context,
        table: &name,
        principal: &who,
        facts: Some(&facts),
    };
    let rules = table_rules(&q, &fields());
    // No permit for rows: denied outright, and no mask is decided.
    assert!(matches!(rules.rows, RowRule::DenyAll));
    let all = format!("{src} permit (principal, action == Action::\"read_table\", resource);");
    let set = policies(&all);
    let q = TableQuery { policies: &set, ..q };
    let rules = table_rules(&q, &fields());
    assert_eq!(rules.required_functions(), vec!["second".to_string()]);
    let mut functions = ResolvedFunctions::new();
    functions.record("second", Ok(()));
    let tp = rules.finish(&Some(functions));
    assert_eq!(
        tp.column_masks.get("ssn"),
        Some(&Expr::Call(
            "second".to_string(),
            vec![col("ssn"), col("a"), lit_i64(7), col("b")]
        ))
    );
}

#[test]
fn arguments_are_columns_or_integers() {
    assert_eq!(
        read_arguments("a, -12 ,+3,,9223372036854775808, 4x,-"),
        vec![
            col("a"),
            lit_i64(-12),
            lit_i64(3),
            col("9223372036854775808"),
            col("4x"),
            col("-"),
        ]
    );
    assert_eq!(read_arguments("  "), vec![]);
    assert_eq!(read_arguments("\u{3000}a\u{a0},\u{2028}7\t"), vec![col("a"), lit_i64(7)]);
    assert_eq!(read_arguments("\u{200b}"), vec![col("\u{200b}")]);
    assert_eq!(read_arguments("9223372036854775807"), vec![lit_i64(i64::MAX)]);
    assert_eq!(read_arguments("-9223372036854775808"), vec![lit_i64(i64::MIN)]);
}

fn filters(rule: RowRule) -> Vec<Expr> {
    match rule {
        RowRule::Filters(filters) => filters,
        RowRule::DenyAll => panic!("expected filters"),
    }
}

#[test]
fn row_rules_follow_from_what_evaluation_left() {
    let eu = || Ok(Some(region_eu()));
    let bad = || Err(ResidualError::UnsupportedUnary);
    assert!(matches!(row_rule(None, true, vec![eu()]), RowRule::DenyAll));
    assert!(matches!(row_rule(Some(Decision::Deny), false, vec![]), RowRule::DenyAll));
    assert_eq!(filters(row_rule(Some(Decision::Allow), false, vec![])), vec![]);
    assert_eq!(filters(row_rule(None, false, vec![eu()])), vec![region_eu()]);
    assert_eq!(
        filters(row_rule(None, false, vec![eu(), eu()])),
        vec![binary(region_eu(), Operator::Or, region_eu())]
    );
    // The order the permits come in changes how the union is written, no more.
    let us = || binary(col("region"), Operator::Eq, lit_str("us"));
    assert_eq!(
        filters(row_rule(None, false, vec![eu(), Ok(Some(us()))])),
        vec![binary(region_eu(), Operator::Or, us())]
    );
    assert_eq!(
        filters(row_rule(None, false, vec![Ok(Some(us())), eu()])),
        vec![binary(us(), Operator::Or, region_eu())]
    );
    // Allowed outright, every row is shown, whatever permits are left over.
    assert_eq!(filters(row_rule(Some(Decision::Allow), false, vec![eu(), bad()])), vec![]);
    assert!(matches!(row_rule(Some(Decision::Allow), true, vec![]), RowRule::DenyAll));
    // A permit of every row is the whole union, a fault hides them all.
    assert_eq!(filters(row_rule(None, false, vec![eu(), Ok(None)])), vec![]);
    assert_eq!(
        filters(row_rule(None, false, vec![eu(), Ok(None), bad()])),
        vec![lit_bool(false)]
    );
}

#[test]
fn candidates_are_the_tagged_columns_of_the_scan() {
    let facts = TableFacts {
        governed_column_tags: column_tags(&[
            ("salary", &[("k", "v")]),
            ("ssn", &[]),
            ("email", &[("k", "v")]),
        ]),
        ..Default::default()
    };
    assert_eq!(mask_candidate_columns(&fields(), &facts), vec!["salary".to_string()]);
}

// --- The coarse gate -----------------------------------------------------------

fn scan_plan() -> Plan {
    Plan {
        node: PlanNode::TableScan {
            table: TableReference::bare("t"),
            fields: vec![field("id"), field("region")],
        },
        subqueries: vec![],
        inputs: vec![],
    }
}

/// The requests of a plan, each in an empty context.
fn requests_of(
    plan: &Plan,
    who: &PrincipalIdentity,
) -> Result<Vec<Option<PlanRequest>>, PolicyError> {
    let contexts = plan_actions(plan).iter().map(|_| Context::empty()).collect();
    plan_requests(plan, who, &contexts)
}

/// Put every request of a plan to an authorizer over `src`.
fn is_allowed(src: &str, plan: &Plan, who: &PrincipalIdentity, eval: &EvalContext) -> Decision {
    let set = policies(src);
    let requests = requests_of(plan, who).unwrap();
    let mut gate = PlanGate::new(requests);
    let mut asked = 0;
    loop {
        let answer = match gate.question() {
            None => break,
            Some(question) => {
                let entities = request_entities(who, &question.table, eval).unwrap();
                let response =
                    Authorizer::new().is_authorized(&question.request, &set, &entities);
                match response.decision() {
                    cedar_policy::Decision::Allow => Decision::Allow,
                    cedar_policy::Decision::Deny => Decision::Deny,
                }
            }
        };
        gate.answer(Some(answer));
        asked += 1;
        assert!(asked < 10);
    }
    gate.verdict()
}

#[test]
fn is_allowed_permits_matching_principal() {
    let src = r#"permit(principal == User::"alice", action == Action::"read_table", resource);"#;
    let decision = is_allowed(src, &scan_plan(), &alice(), &EvalContext::default());
    assert_eq!(decision, Decision::Allow);
}

#[test]
fn is_allowed_denies_non_matching_principal() {
    let src = r#"permit(principal == User::"bob", action == Action::"read_table", resource);"#;
    let decision = is_allowed(src, &scan_plan(), &alice(), &EvalContext::default());
    assert_eq!(decision, Decision::Deny);
}

#[test]
fn is_allowed_fails_closed_on_provider_error() {
    let requests = requests_of(&scan_plan(), &alice()).unwrap();
    let mut gate = PlanGate::new(requests);
    assert!(gate.question().is_some());
    gate.answer(None);
    assert!(gate.question().is_none());
    assert_eq!(gate.verdict(), Decision::Deny);
}

fn eval_with_table_facts(facts: TableFacts) -> EvalContext {
    let mut sink = CatalogFactSink::new();
    sink.record(TableReference::bare("t"), facts);
    EvalContext { catalog_facts: sink, correlation_id: None, function_resolver: None }
}

fn names(items: &[&str]) -> NameSet {
    let mut set = NameSet::new();
    for item in items {
        set.insert(item.to_string());
    }
    set
}

#[test]
fn is_allowed_resolves_resource_tags_from_folded_facts() {
    let src = r#"permit(principal, action == Action::"read_table", resource)
                 when { resource.tags.contains("pii") };"#;
    let facts = TableFacts { tags: names(&["pii"]), ..Default::default() };
    let allow = is_allowed(src, &scan_plan(), &alice(), &eval_with_table_facts(facts));
    assert_eq!(allow, Decision::Allow, "pii-tagged table is permitted");
    let deny = is_allowed(src, &scan_plan(), &alice(), &EvalContext::default());
    assert_eq!(deny, Decision::Deny, "untagged table falls to default-deny");
}

#[test]
fn is_allowed_resolves_resource_readers_from_folded_facts() {
    let src = r#"permit(principal, action == Action::"read_table", resource)
                 when { resource.readers.contains("User::\"alice\"") };"#;
    let facts = TableFacts { readers: names(&["User::\"alice\""]), ..Default::default() };
    let allow = is_allowed(src, &scan_plan(), &alice(), &eval_with_table_facts(facts));
    assert_eq!(allow, Decision::Allow);
}

#[test]
fn is_allowed_resolves_group_membership_with_empty_bundle() {
    let src = r#"permit(principal in UserGroup::"readers", action == Action::"read_table", resource);"#;
    let enriched = alice().enriched(PrincipalEnrichment {
        groups: vec!["UserGroup::\"privileged_readers\"".into()],
        group_hierarchy: vec![
            Group {
                uid: "UserGroup::\"privileged_readers\"".into(),
                parents: vec!["UserGroup::\"readers\"".into()],
            },
            Group { uid: "UserGroup::\"readers\"".into(), parents: vec![] },
        ],
        ..Default::default()
    });
    let eval = EvalContext::default();
    assert_eq!(is_allowed(src, &scan_plan(), &enriched, &eval), Decision::Allow);
    assert_eq!(
        is_allowed(src, &scan_plan(), &alice(), &eval),
        Decision::Deny,
        "no membership without enrichment"
    );
}

/// Who has a region may read.
const LAKEHOUSE_GATE: &str = r#"
    permit (principal, action == Action::"read_table", resource) when { principal has region };
"#;

#[test]
fn lakehouse_gate_allows_principal_with_region() {
    // alice() carries region=eu.
    let decision = is_allowed(LAKEHOUSE_GATE, &scan_plan(), &alice(), &EvalContext::default());
    assert_eq!(decision, Decision::Allow);
}

#[test]
fn lakehouse_gate_denies_principal_without_region() {
    let anon = PrincipalIdentity::new("User::\"anon\"");
    let decision = is_allowed(LAKEHOUSE_GATE, &scan_plan(), &anon, &EvalContext::default());
    assert_eq!(decision, Decision::Deny);
}

#[test]
fn each_action_is_asked_about_in_its_own_context() {
    let note = |text: &str| {
        let value = cedar_policy::RestrictedExpression::new_string(text.to_string());
        Context::from_pairs([("note".to_string(), value)]).unwrap()
    };
    let plan = Plan {
        node: PlanNode::Write { table: TableReference::bare("d"), op: WriteOp::Insert },
        subqueries: vec![],
        inputs: vec![scan_plan()],
    };
    let requests = plan_requests(&plan, &alice(), &vec![note("write"), note("read")]).unwrap();
    let set = policies(
        r#"permit(principal, action == Action::"write_table", resource) when { context.note == "write" };
           permit(principal, action == Action::"read_table", resource) when { context.note == "read" };"#,
    );
    for asked in requests {
        let asked = asked.unwrap();
        let entities = request_entities(&alice(), &asked.table, &EvalContext::default()).unwrap();
        let response = Authorizer::new().is_authorized(&asked.request, &set, &entities);
        assert_eq!(response.decision(), cedar_policy::Decision::Allow);
    }
}

fn create_catalog_plan() -> Plan {
    Plan {
        node: PlanNode::Extension {
            name: "CreateCatalog".to_string(),
            explained: "CreateCatalog: name=demo".to_string(),
        },
        subqueries: vec![],
        inputs: vec![],
    }
}

#[test]
fn uc_ddl_denied_without_permit() {
    let src = r#"permit(principal, action == Action::"read_table", resource);"#;
    let decision = is_allowed(src, &create_catalog_plan(), &alice(), &EvalContext::default());
    assert_eq!(decision, Decision::Deny);
}

#[test]
fn uc_ddl_allowed_with_permit() {
    let src = r#"permit(principal == User::"alice", action == Action::"create_catalog", resource == Catalog::"demo");"#;
    let decision = is_allowed(src, &create_catalog_plan(), &alice(), &EvalContext::default());
    assert_eq!(decision, Decision::Allow);
}

#[test]
fn every_action_of_a_plan_must_be_allowed() {
    let plan = Plan {
        node: PlanNode::Write { table: TableReference::bare("d"), op: WriteOp::Insert },
        subqueries: vec![],
        inputs: vec![scan_plan()],
    };
    let eval = EvalContext::default();
    let reads = r#"permit(principal, action == Action::"read_table", resource);"#;
    assert_eq!(is_allowed(reads, &plan, &alice(), &eval), Decision::Deny);
    let writes = r#"permit(principal, action == Action::"write_table", resource == Table::"d");"#;
    assert_eq!(is_allowed(writes, &plan, &alice(), &eval), Decision::Deny);
    let both = format!("{reads} {writes}");
    assert_eq!(is_allowed(&both, &plan, &alice(), &eval), Decision::Allow);
    // A plan that touches nothing needs no permit.
    let empty = Plan {
        node: PlanNode::Other("EmptyRelation".to_string()),
        subqueries: vec![],
        inputs: vec![],
    };
    assert_eq!(is_allowed("", &empty, &alice(), &eval), Decision::Allow);
}

#[test]
fn a_statement_that_is_not_modelled_is_denied_unasked() {
    let plan = Plan {
        node: PlanNode::OtherDdl("DropTable".to_string()),
        subqueries: vec![],
        inputs: vec![scan_plan()],
    };
    let requests = requests_of(&plan, &alice()).unwrap();
    assert_eq!(requests.len(), 2);
    let gate = PlanGate::new(requests);
    assert!(gate.question().is_none());
    assert_eq!(gate.verdict(), Decision::Deny);
}

#[test]
fn a_gate_that_was_not_asked_through_denies() {
    let requests = requests_of(&scan_plan(), &alice()).unwrap();
    assert_eq!(PlanGate::new(requests).verdict(), Decision::Deny);
}

#[test]
fn an_invalid_principal_makes_no_request() {
    let nobody = PrincipalIdentity::new("nobody");
    match requests_of(&scan_plan(), &nobody) {
        Err(PolicyError::InvalidUid { uid, .. }) => assert_eq!(uid, "nobody"),
        _ => panic!("expected an invalid uid"),
    }
    assert!(request_entities(&nobody, &None, &EvalContext::default()).is_err());
    assert!(policy_fetch_request(&nobody).is_err());
    assert!(tool_request("send", &nobody, &NameSet::new()).is_err());
}

#[test]
fn entities_that_form_no_hierarchy_resolve_nothing() {
    let src = r#"permit(principal, action == Action::"read_table", resource)
                 when { principal.region == "eu" };"#;
    let eval = EvalContext::default();
    assert_eq!(is_allowed(src, &scan_plan(), &alice(), &eval), Decision::Allow);
    let group = |name: &str, parent: &str| Group {
        uid: format!("UserGroup::\"{name}\""),
        parents: vec![format!("UserGroup::\"{parent}\"")],
    };
    // Two groups that contain each other: the principal's own entity goes too.
    let circular = alice().enriched(PrincipalEnrichment {
        group_hierarchy: vec![group("a", "b"), group("b", "a")],
        ..Default::default()
    });
    let entities = request_entities(&circular, &None, &eval).unwrap();
    assert_eq!(entities.iter().count(), 0);
    assert_eq!(is_allowed(src, &scan_plan(), &circular, &eval), Decision::Deny);
}

#[test]
fn requests_name_what_the_plan_touches() {
    let requests = requests_of(&scan_plan(), &alice()).unwrap();
    let question = requests[0].as_ref().unwrap();
    assert_eq!(question.request.action().unwrap().to_string(), "Action::\"read_table\"");
    assert_eq!(question.request.resource().unwrap().to_string(), "Table::\"t\"");
    assert_eq!(question.request.principal().unwrap().to_string(), "User::\"alice\"");
    assert!(question.table.as_ref().unwrap().same(&TableReference::bare("t")));
    let fetch = policy_fetch_request(&alice()).unwrap();
    assert_eq!(fetch.action().unwrap().to_string(), "Action::\"read_table\"");
    assert_eq!(fetch.resource().unwrap().to_string(), "Table::\"_\"");
}

#[test]
fn a_table_entity_carries_the_facts() {
    assert!(table_entity(&table(), &TableFacts::default()).is_none());
    let mut column_tags = NameMap::new();
    column_tags.insert("ssn".to_string(), names(&["pii"]));
    let facts = TableFacts {
        owner: Some("ops".to_string()),
        writers: names(&["w"]),
        column_tags,
        ..Default::default()
    };
    let entity = table_entity(&table(), &facts).unwrap();
    assert_eq!(entity.uid().to_string(), "Table::\"prod.customers.accounts\"");
    let src = r#"permit(principal, action, resource) when {
        resource.owner == "ops" && resource.writers.contains("w") && !resource.tags.contains("w")
        && resource.column_tags.ssn.contains("pii")
    };"#;
    let plan = Plan {
        node: PlanNode::TableScan { table: table(), fields: fields() },
        subqueries: vec![],
        inputs: vec![],
    };
    assert_eq!(is_allowed(src, &plan, &alice(), &eval_with(facts, None)), Decision::Allow);
}

// --- Tools ----------------------------------------------------------------------

const GUARDRAIL: &str = r#"
    @id("no_external_send_with_pii")
    forbid (principal, action == Action::"send_external", resource)
    when { context.observed_taints.contains("pii") };
    permit (principal, action == Action::"send_external", resource);
"#;

fn tool_policy(action: &str, taints: &NameSet) -> Decision {
    let who = alice_eu();
    let request = tool_request(action, &who, taints).unwrap();
    assert_eq!(request.resource().unwrap().to_string(), format!("Tool::\"{action}\""));
    let entities = request_entities(&who, &None, &EvalContext::default()).unwrap();
    let response = Authorizer::new().is_authorized(&request, &policies(GUARDRAIL), &entities);
    settled(Some(match response.decision() {
        cedar_policy::Decision::Allow => Decision::Allow,
        cedar_policy::Decision::Deny => Decision::Deny,
    }))
}

#[test]
fn tool_policy_forbids_send_external_on_pii() {
    // With "pii" observed, the forbid overrides the permit.
    assert_eq!(tool_policy("send_external", &names(&["pii"])), Decision::Deny);
    // A clean session is permitted.
    assert_eq!(tool_policy("send_external", &NameSet::new()), Decision::Allow);
    assert_eq!(tool_policy("send_external", &names(&["other"])), Decision::Allow);
    assert_eq!(tool_policy("delete_all", &NameSet::new()), Decision::Deny);
}

#[test]
fn an_authorizer_that_fails_denies() {
    assert_eq!(settled(None), Decision::Deny);
    assert_eq!(settled(Some(Decision::Allow)), Decision::Allow);
    assert_eq!(settled(Some(Decision::Deny)), Decision::Deny);
}
