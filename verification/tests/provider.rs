use std::sync::Arc;

use breakwater::expr::{binary, col, lit_bool, lit_str};
use breakwater::provider::is_identity;
use breakwater::session::{PolicyEngineExt, PrincipalExt};
use breakwater::{
    authorize_and_govern, govern_plan, govern_provider, govern_provider_from_config, Decision,
    EvalContext, Expr, Field, InMemoryFactStore, NameSet, Operator, Plan, PlanNode, PolicyEngine,
    PolicyError, PrincipalIdentity, ProjectionItem, SessionExtensions, Slot, StaticPolicyEngine,
    TablePolicy, TableReference,
};

/// An engine with one reply for every table.
struct FixedPolicy {
    filters: Vec<Expr>,
    masks: Vec<(&'static str, Expr)>,
    decision: Decision,
}

impl PolicyEngine for FixedPolicy {
    fn is_allowed(
        &self,
        _plan: &Plan,
        _principal: &PrincipalIdentity,
        _eval: &EvalContext,
    ) -> Result<Decision, PolicyError> {
        Ok(self.decision)
    }

    fn constrain(
        &self,
        _table: &TableReference,
        _fields: &Vec<Field>,
        _principal: &PrincipalIdentity,
        _eval: &EvalContext,
    ) -> Result<TablePolicy, PolicyError> {
        let mut policy = TablePolicy::default();
        for filter in &self.filters {
            policy.row_filters.push(filter.clone());
        }
        for (column, mask) in &self.masks {
            policy.column_masks.insert(column.to_string(), mask.clone());
        }
        Ok(policy)
    }

    fn tool_policy(
        &self,
        _action: &str,
        _principal: &PrincipalIdentity,
        _observed_taints: &NameSet,
    ) -> Result<Decision, PolicyError> {
        Ok(self.decision)
    }
}

/// An engine that fails.
struct Broken;

impl PolicyEngine for Broken {
    fn is_allowed(
        &self,
        _plan: &Plan,
        _principal: &PrincipalIdentity,
        _eval: &EvalContext,
    ) -> Result<Decision, PolicyError> {
        Err(PolicyError::Engine("gate down".to_string()))
    }

    fn constrain(
        &self,
        _table: &TableReference,
        _fields: &Vec<Field>,
        _principal: &PrincipalIdentity,
        _eval: &EvalContext,
    ) -> Result<TablePolicy, PolicyError> {
        Err(PolicyError::Engine("down".to_string()))
    }

    fn tool_policy(
        &self,
        _action: &str,
        _principal: &PrincipalIdentity,
        _observed_taints: &NameSet,
    ) -> Result<Decision, PolicyError> {
        Err(PolicyError::Engine("tools down".to_string()))
    }
}

fn principal() -> PrincipalIdentity {
    PrincipalIdentity::new("User::\"alice\"")
}

fn columns(table: &str) -> Vec<Field> {
    [("id", "Int64"), ("region", "Utf8"), ("ssn", "Utf8")]
        .iter()
        .map(|(name, data_type)| Field {
            qualifier: Some(TableReference::bare(table)),
            name: name.to_string(),
            data_type: data_type.to_string(),
        })
        .collect()
}

fn scan(table: &str) -> Plan {
    Plan {
        node: PlanNode::TableScan { table: TableReference::bare(table), fields: columns(table) },
        subqueries: vec![],
        inputs: vec![],
    }
}

fn region_is(value: &str) -> Expr {
    binary(col("region"), Operator::Eq, lit_str(value))
}

fn filter_and_mask() -> FixedPolicy {
    FixedPolicy {
        filters: vec![region_is("eu")],
        masks: vec![("ssn", lit_str("***"))],
        decision: Decision::Allow,
    }
}

fn unconstrained(decision: Decision) -> FixedPolicy {
    FixedPolicy { filters: vec![], masks: vec![], decision }
}

fn secured(policy: &FixedPolicy, eval: &mut EvalContext) -> Option<Plan> {
    govern_provider(
        &TableReference::bare("t"),
        &columns("t"),
        scan("t"),
        policy,
        &principal(),
        eval,
    )
    .unwrap()
}

#[test]
fn select_through_registered_wrapper_is_masked_and_filtered() {
    let mut eval = EvalContext::default();
    let view = secured(&filter_and_mask(), &mut eval).expect("a secured view");
    match &view.node {
        PlanNode::Filter(predicate) => assert_eq!(predicate, &region_is("eu")),
        other => panic!("expected a filter, got {other:?}"),
    }
    let PlanNode::Projection(items) = &view.inputs[0].node else {
        panic!("expected a projection, got {view:?}");
    };
    assert!(matches!(&items[2], ProjectionItem::Mask { mask, .. } if *mask == lit_str("***")));
}

#[test]
fn wrapper_schema_matches_base_names_and_types() {
    let mut eval = EvalContext::default();
    let view = secured(&filter_and_mask(), &mut eval).unwrap();
    let PlanNode::Projection(items) = &view.inputs[0].node else {
        panic!("expected a projection, got {view:?}");
    };
    let base = columns("t");
    assert_eq!(items.len(), base.len());
    for (item, field) in items.iter().zip(base.iter()) {
        match item {
            ProjectionItem::Keep { name, qualifier } => {
                assert_eq!(name, &field.name);
                assert_eq!(qualifier, &field.qualifier);
            }
            ProjectionItem::Mask { name, data_type, qualifier, .. } => {
                assert_eq!(name, &field.name);
                assert_eq!(data_type, &field.data_type);
                assert_eq!(qualifier, &field.qualifier);
            }
        }
    }
}

#[test]
fn empty_policy_returns_same_arc_unwrapped() {
    let mut eval = EvalContext::default();
    assert!(secured(&unconstrained(Decision::Allow), &mut eval).is_none());
    // The table is not marked governed: the planner backstop stays live.
    assert!(!eval.catalog_facts.is_governed(&TableReference::bare("t")));
}

#[test]
fn deny_all_rows_yields_empty_scan() {
    let mut eval = EvalContext::default();
    let policy =
        FixedPolicy { filters: vec![lit_bool(false)], masks: vec![], decision: Decision::Allow };
    let view = secured(&policy, &mut eval).unwrap();
    assert!(matches!(&view.node, PlanNode::Filter(e) if *e == lit_bool(false)));
}

fn count_predicate(plan: &Plan, predicate: &Expr) -> usize {
    let own = match &plan.node {
        PlanNode::Filter(e) if e == predicate => 1,
        _ => 0,
    };
    own + plan.inputs.iter().map(|input| count_predicate(input, predicate)).sum::<usize>()
}

#[test]
fn planner_tier_respects_marker_but_constrains_unmarked_tables() {
    let mut eval = EvalContext::default();
    let view = secured(&filter_and_mask(), &mut eval).unwrap();
    assert!(eval.catalog_facts.is_governed(&TableReference::bare("t")));
    let plan =
        Plan {
            node: PlanNode::Other("Join".to_string()),
            subqueries: vec![],
            inputs: vec![view, scan("u")],
        };
    let planner_tier = FixedPolicy {
        filters: vec![region_is("planner-marker")],
        masks: vec![],
        decision: Decision::Allow,
    };
    let mut store: Option<InMemoryFactStore> = None;
    let governed = govern_plan(plan, &planner_tier, &principal(), &eval, &mut store).unwrap();
    // Exactly the unmarked table (u) gets the planner-tier filter, and the view
    // is enforced once.
    assert_eq!(count_predicate(&governed, &region_is("planner-marker")), 1);
    assert_eq!(count_predicate(&governed, &region_is("eu")), 1);
    assert!(matches!(&governed.inputs[1].node, PlanNode::Filter(_)));
}

#[test]
fn both_placements_give_the_same_plan() {
    let view = secured(&filter_and_mask(), &mut EvalContext::default()).unwrap();
    let mut store: Option<InMemoryFactStore> = None;
    let eval = EvalContext::default();
    let governed =
        govern_plan(scan("t"), &filter_and_mask(), &principal(), &eval, &mut store).unwrap();
    assert_eq!(format!("{view:?}"), format!("{governed:?}"));
}

#[test]
fn from_config_governs_via_extensions_and_fails_closed() {
    let table = TableReference::bare("t");
    let mut eval = EvalContext::default();
    // Fail closed: nothing bound.
    let mut session: SessionExtensions<FixedPolicy, (), ()> = SessionExtensions::new();
    let err = govern_provider_from_config(&session, &table, &columns("t"), scan("t"), &mut eval)
        .unwrap_err();
    assert_eq!(err.message(), "no policy engine bound to session config; cannot govern table");

    // Engine bound but no principal: still closed.
    session.engine = Some(PolicyEngineExt(Arc::new(filter_and_mask())));
    let err = govern_provider_from_config(&session, &table, &columns("t"), scan("t"), &mut eval)
        .unwrap_err();
    assert_eq!(err.message(), "no principal bound to session config; cannot govern table");
    assert!(!eval.catalog_facts.is_governed(&table));

    // Fully bound: a view comes back and the sink is marked.
    session.principal = Some(PrincipalExt(principal()));
    let out = govern_provider_from_config(&session, &table, &columns("t"), scan("t"), &mut eval)
        .unwrap();
    assert!(out.is_some());
    assert!(eval.catalog_facts.is_governed(&table));
}

#[test]
fn a_slot_asks_the_engine_in_it_about_tools() {
    let ask = |slot: &Slot<StaticPolicyEngine, FixedPolicy>| {
        slot.tool_policy("send_external", &principal(), &NameSet::new())
    };
    assert_eq!(ask(&Slot::Host(Arc::new(unconstrained(Decision::Deny)))), Ok(Decision::Deny));
    assert_eq!(ask(&Slot::Host(Arc::new(unconstrained(Decision::Allow)))), Ok(Decision::Allow));
    // An engine without a say in tools allows them, whatever it says of plans.
    let denies_plans = StaticPolicyEngine::new(Decision::Deny);
    assert_eq!(ask(&Slot::Default(denies_plans)), Ok(Decision::Allow));
    let broken: Slot<StaticPolicyEngine, Broken> = Slot::Host(Arc::new(Broken));
    assert_eq!(
        broken.tool_policy("send_external", &principal(), &NameSet::new()),
        Err(PolicyError::Engine("tools down".to_string()))
    );
}

#[test]
fn an_engine_that_fails_secures_nothing() {
    let mut eval = EvalContext::default();
    let out = govern_provider(
        &TableReference::bare("t"),
        &columns("t"),
        scan("t"),
        &Broken,
        &principal(),
        &mut eval,
    );
    assert_eq!(out.unwrap_err(), PolicyError::Engine("down".to_string()));
    assert!(!eval.catalog_facts.is_governed(&TableReference::bare("t")));
}

#[test]
fn an_identity_projection_is_one_that_changes_nothing() {
    assert!(is_identity(&vec![0, 1, 2], 3));
    assert!(is_identity(&vec![], 0));
    assert!(!is_identity(&vec![0, 1], 3));
    assert!(!is_identity(&vec![0, 2, 1], 3));
    assert!(!is_identity(&vec![0, 1, 2, 3], 3));
}

fn pass(policy: &FixedPolicy) -> Result<Plan, PolicyError> {
    let mut store: Option<InMemoryFactStore> = None;
    authorize_and_govern(
        |_: &Plan| Ok(Plan {
            node: PlanNode::Other("Optimized".to_string()),
            subqueries: vec![],
            inputs: vec![],
        }),
        scan("t"),
        policy,
        &principal(),
        &EvalContext::default(),
        &mut store,
    )
}

#[test]
fn an_allowed_plan_comes_back_governed() {
    let plan = pass(&filter_and_mask()).unwrap();
    assert!(matches!(plan.node, PlanNode::Filter(_)));
}

#[test]
fn a_denied_plan_does_not_come_back() {
    assert_eq!(
        pass(&unconstrained(Decision::Deny)).unwrap_err(),
        PolicyError::NotAuthorized("User::\"alice\"".to_string())
    );
}

#[test]
fn a_plan_that_cannot_be_optimized_does_not_come_back() {
    let mut store: Option<InMemoryFactStore> = None;
    let out = authorize_and_govern(
        |_: &Plan| Err(PolicyError::Engine("optimizer".to_string())),
        scan("t"),
        &StaticPolicyEngine::new(Decision::Allow),
        &principal(),
        &EvalContext::default(),
        &mut store,
    );
    assert_eq!(out.unwrap_err(), PolicyError::Engine("optimizer".to_string()));
}
