use breakwater::plan_actions::securable_name;
use breakwater::{plan_actions, Field, Plan, PlanAction, PlanNode, TableReference, WriteOp};

fn field(name: &str, data_type: &str) -> Field {
    Field {
        qualifier: Some(TableReference::bare("t")),
        name: name.to_string(),
        data_type: data_type.to_string(),
    }
}

fn scan(table: &str, fields: Vec<Field>) -> Plan {
    Plan {
        node: PlanNode::TableScan { table: TableReference::bare(table), fields },
        subqueries: vec![],
        inputs: vec![],
    }
}

fn schema() -> Vec<Field> {
    vec![field("id", "Int64"), field("name", "Utf8")]
}

fn over(node: PlanNode, inputs: Vec<Plan>) -> Plan {
    Plan { node, subqueries: vec![], inputs }
}

#[test]
fn subqueries_are_classified_between_a_node_and_its_inputs() {
    // SELECT id FROM a WHERE id IN (SELECT id FROM b)
    let filter = Plan {
        node: PlanNode::Other("Filter: a.id IN (<subquery>)".to_string()),
        subqueries: vec![over(PlanNode::Other("Subquery".to_string()), vec![scan("b", schema())])],
        inputs: vec![scan("a", schema())],
    };
    let insert = PlanNode::Write { table: TableReference::bare("dst"), op: WriteOp::Insert };
    let actions = plan_actions(&over(insert, vec![filter]));
    let tables: Vec<&str> = actions
        .iter()
        .map(|action| match action {
            PlanAction::ReadTable(table, _) | PlanAction::WriteTable(table) => table.table(),
            other => panic!("unexpected {other:?}"),
        })
        .collect();
    assert_eq!(tables, vec!["dst", "b", "a"]);
}

#[test]
fn read_scan_yields_one_read_action_with_columns() {
    let actions = plan_actions(&scan("t", schema()));
    assert_eq!(actions.len(), 1);
    match &actions[0] {
        PlanAction::ReadTable(table, cols) => {
            assert_eq!(table.table(), "t");
            assert_eq!(cols, &["id".to_string(), "name".to_string()]);
        }
        other => panic!("expected ReadTable, got {other:?}"),
    }
}

#[test]
fn projected_scan_limits_columns() {
    let actions = plan_actions(&scan("t", vec![field("id", "Int64")]));
    assert_eq!(actions.len(), 1);
    match &actions[0] {
        PlanAction::ReadTable(_, cols) => assert_eq!(cols, &["id".to_string()]),
        other => panic!("expected ReadTable, got {other:?}"),
    }
}

#[test]
fn empty_relation_yields_no_actions() {
    let plan = over(PlanNode::Other("EmptyRelation".to_string()), vec![]);
    assert!(plan_actions(&plan).is_empty());
}

#[test]
fn insert_yields_write_and_read_actions() {
    let plan = over(
        PlanNode::Write { table: TableReference::bare("dst"), op: WriteOp::Insert },
        vec![over(PlanNode::Other("Projection".to_string()), vec![scan("a", schema())])],
    );
    let actions = plan_actions(&plan);
    assert!(
        actions
            .iter()
            .any(|a| matches!(a, PlanAction::WriteTable(t) if t.table() == "dst"))
    );
    assert!(
        actions
            .iter()
            .any(|a| matches!(a, PlanAction::ReadTable(t, _) if t.table() == "a"))
    );
}

#[test]
fn join_yields_one_read_action_per_table() {
    let plan = over(
        PlanNode::Other("Projection".to_string()),
        vec![over(
            PlanNode::Other("Join".to_string()),
            vec![scan("a", schema()), scan("b", schema())],
        )],
    );
    let reads = plan_actions(&plan)
        .into_iter()
        .filter(|a| matches!(a, PlanAction::ReadTable(..)))
        .count();
    assert_eq!(reads, 2, "each joined table is classified independently");
}

fn ddl_plan(command: &str, securable: &str) -> Plan {
    over(
        PlanNode::Extension {
            name: command.to_string(),
            explained: format!("{command}: name={securable}"),
        },
        vec![],
    )
}

#[test]
fn unity_ddl_extension_yields_matching_action() {
    for (command, expected) in [
        ("CreateCatalog", ("create_catalog", "Catalog")),
        ("DropCatalog", ("drop_catalog", "Catalog")),
        ("CreateSchema", ("create_schema", "Schema")),
        ("DropSchema", ("drop_schema", "Schema")),
    ] {
        let plan = ddl_plan(command, "my_catalog.sales");
        let actions = plan_actions(&plan);
        assert_eq!(actions.len(), 1, "{command} -> one action");
        match &actions[0] {
            PlanAction::UnityDdl { action, resource_type, name } => {
                assert_eq!((*action, *resource_type), expected, "{command}");
                assert_eq!(name, "my_catalog.sales");
            }
            other => panic!("expected UnityDdl for {command}, got {other:?}"),
        }
    }
}

#[test]
fn create_managed_table_lowers_to_table_create() {
    let plan = ddl_plan("CreateManagedTable", "my_catalog.sales.orders");
    let actions = plan_actions(&plan);
    assert_eq!(actions.len(), 1);
    match &actions[0] {
        PlanAction::CreateTable(t) => {
            assert_eq!(t.to_text(), "my_catalog.sales.orders");
        }
        other => panic!("expected CreateTable, got {other:?}"),
    }
}

#[test]
fn unrecognized_extension_is_ignored() {
    let plan = ddl_plan("SomeOtherExtension", "whatever");
    assert!(plan_actions(&plan).is_empty());
}

#[test]
fn unmodeled_ddl_yields_deny_unsupported() {
    let plan = over(PlanNode::OtherDdl("DropTable".to_string()), vec![]);
    let actions = plan_actions(&plan);
    assert!(
        actions.iter().any(|a| matches!(a, PlanAction::DenyUnsupported(_))),
        "unmodeled DDL must produce a deny sentinel"
    );
    assert_eq!(actions, vec![PlanAction::DenyUnsupported("DDL DropTable".to_string())]);
}

#[test]
fn managed_table_names_are_read_as_sql_identifiers() {
    // Unquoted identifiers fold to lower case, quoted ones are kept.
    let plan = ddl_plan("CreateManagedTable", "Cat.\"Sales\".Orders");
    match &plan_actions(&plan)[0] {
        PlanAction::CreateTable(t) => assert_eq!(t.to_text(), "cat.Sales.orders"),
        other => panic!("expected CreateTable, got {other:?}"),
    }
}

#[test]
fn writes_and_creations_are_classified() {
    let write = |op: WriteOp| {
        plan_actions(&over(PlanNode::Write { table: TableReference::bare("d"), op }, vec![]))
    };
    for op in [WriteOp::Insert, WriteOp::Update, WriteOp::Delete, WriteOp::Truncate] {
        assert_eq!(write(op), vec![PlanAction::WriteTable(TableReference::bare("d"))]);
    }
    assert_eq!(write(WriteOp::Ctas), vec![PlanAction::CreateTable(TableReference::bare("d"))]);
    for node in [
        PlanNode::CreateExternalTable(TableReference::bare("e")),
        PlanNode::CreateMemoryTable(TableReference::bare("e")),
    ] {
        assert_eq!(
            plan_actions(&over(node, vec![])),
            vec![PlanAction::CreateTable(TableReference::bare("e"))]
        );
    }
}

#[test]
fn a_securable_is_the_word_behind_the_first_name() {
    assert_eq!(securable_name("CreateSchema: name=a.b if_not_exists=true"), "a.b");
    assert_eq!(securable_name("CreateSchema: name=  a.b"), "a.b");
    assert_eq!(securable_name("CreateSchema: name=a name=b"), "a");
    assert_eq!(securable_name("x name=name=b"), "");
    assert_eq!(securable_name("CreateSchema"), "");
    assert_eq!(securable_name("name="), "");
}

#[test]
fn table_names_compare_and_render() {
    let full = TableReference::full("c", "s", "t");
    assert_eq!(full.to_text(), "c.s.t");
    assert_eq!(full.table(), "t");
    assert_eq!(TableReference::partial("s", "t").to_text(), "s.t");
    assert!(full.same(&full.clone()));
    assert!(!full.same(&TableReference::bare("t")));
}
