//! Classify what a plan touches into a neutral list of [`PlanAction`]s.
//!
//! Every policy engine needs to know which tables a plan reads and which state
//! it changes. A definition statement that is not modelled is state-changing, and
//! becomes an action that must be denied.

use vstd::prelude::*;

use crate::names::texts;
use crate::plan::{lemma_plan_view, plan_models, NodeModel, Plan, PlanModel, PlanNode, WriteOp};
use crate::table::{field_names, Field, TableReference};
use crate::text::{chars_between, chars_of, find, first_from, first_word, occurs_at, same_text, word_of};

verus! {

/// An access-relevant operation found in a plan.
#[derive(Debug, PartialEq, Eq)]
pub enum PlanAction {
    /// Read a table, accessing the listed columns.
    ReadTable(TableReference, Vec<String>),
    /// Write (insert/update/delete/truncate) into a table.
    WriteTable(TableReference),
    /// Create a table.
    CreateTable(TableReference),
    /// Catalog DDL on a `Catalog` or `Schema` securable: the action's id, the
    /// securable's type, and its name.
    UnityDdl { action: &'static str, resource_type: &'static str, name: String },
    /// A state-changing operation that is not modelled, and must be denied. The
    /// text says which.
    DenyUnsupported(String),
}

/// The mathematical model of a [`PlanAction`].
#[verifier::ext_equal]
pub enum ActionModel {
    ReadTable(Seq<Seq<char>>, Seq<Seq<char>>),
    WriteTable(Seq<Seq<char>>),
    CreateTable(Seq<Seq<char>>),
    UnityDdl { action: Seq<char>, resource_type: Seq<char>, name: Seq<char> },
    DenyUnsupported(Seq<char>),
}

impl View for PlanAction {
    type V = ActionModel;

    open spec fn view(&self) -> ActionModel {
        match self {
            PlanAction::ReadTable(table, columns) => ActionModel::ReadTable(
                table@,
                texts(columns@),
            ),
            PlanAction::WriteTable(table) => ActionModel::WriteTable(table@),
            PlanAction::CreateTable(table) => ActionModel::CreateTable(table@),
            PlanAction::UnityDdl { action, resource_type, name } => ActionModel::UnityDdl {
                action: action@,
                resource_type: resource_type@,
                name: name@,
            },
            PlanAction::DenyUnsupported(what) => ActionModel::DenyUnsupported(what@),
        }
    }
}

/// The models of a list of actions.
pub open spec fn action_models(actions: Seq<PlanAction>) -> Seq<ActionModel> {
    Seq::new(actions.len(), |i: int| actions[i]@)
}

// ---------------------------------------------------------------------------
// Securable names
// ---------------------------------------------------------------------------

/// The key before a securable's name in an extension node's explanation.
pub const NAME_KEY: &'static str = "name=";

/// What stands between the first `key` in `s` and the second, or the end.
pub open spec fn behind(s: Seq<char>, key: Seq<char>) -> Option<Seq<char>> {
    if exists|k: int| first_from(s, key, 0, k) {
        let start = (choose|k: int| first_from(s, key, 0, k)) + key.len();
        if exists|j: int| first_from(s, key, start, j) {
            Some(s.subrange(start, choose|j: int| first_from(s, key, start, j)))
        } else {
            Some(s.skip(start))
        }
    } else {
        None
    }
}

/// There is one first occurrence at most.
proof fn lemma_first_unique(s: Seq<char>, key: Seq<char>, from: int, j: int, k: int)
    requires
        first_from(s, key, from, j),
        first_from(s, key, from, k),
    ensures
        j == k,
{
    if j < k {
        assert(!occurs_at(s, key, j));
    }
    if k < j {
        assert(!occurs_at(s, key, k));
    }
}

/// The securable named by an explanation of the shape
/// `<Command>: name=<securable> …`. Empty where it names none.
pub open spec fn securable(explained: Seq<char>) -> Seq<char> {
    match behind(explained, NAME_KEY@) {
        Some(rest) => first_word(rest),
        None => Seq::empty(),
    }
}

/// Read the securable's name from an extension node's explanation. Where the
/// `name=` token cannot be found the name is empty, which still classifies the
/// action.
pub fn securable_name(explained: &str) -> (r: String)
    ensures
        r@ == securable(explained@),
{
    let chars: Vec<char> = chars_of(explained);
    let key: Vec<char> = chars_of(NAME_KEY);
    let n: usize = chars.len();
    let k: usize = match find(&chars, &key, 0) {
        Some(k) => k,
        None => {
            assert forall|k: int| !first_from(explained@, NAME_KEY@, 0, k) by {
                if first_from(explained@, NAME_KEY@, 0, k) {
                    assert(occurs_at(chars@, key@, k));
                }
            }
            return String::new();
        },
    };
    assert(occurs_at(chars@, key@, k as int));
    let start: usize = k + key.len();
    proof {
        let chosen = choose|j: int| first_from(explained@, NAME_KEY@, 0, j);
        assert(first_from(explained@, NAME_KEY@, 0, k as int));
        lemma_first_unique(explained@, NAME_KEY@, 0, chosen, k as int);
    }
    let end: usize = match find(&chars, &key, start) {
        Some(j) => {
            proof {
                let chosen = choose|i: int| first_from(explained@, NAME_KEY@, start as int, i);
                assert(first_from(explained@, NAME_KEY@, start as int, j as int));
                lemma_first_unique(explained@, NAME_KEY@, start as int, chosen, j as int);
            }
            j
        },
        None => {
            proof {
                assert forall|j: int| !first_from(explained@, NAME_KEY@, start as int, j) by {
                    if first_from(explained@, NAME_KEY@, start as int, j) {
                        assert(occurs_at(chars@, key@, j));
                    }
                }
                assert(explained@.skip(start as int) =~= explained@.subrange(
                    start as int,
                    chars@.len() as int,
                ));
            }
            n
        },
    };
    word_of(&chars_between(&chars, start, end))
}

/// The parts of the table name that a text denotes as an SQL identifier.
pub uninterp spec fn parsed_table(text: Seq<char>) -> Seq<Seq<char>>;

/// Read a table name: `datafusion_common::TableReference::parse_str` takes the
/// text for an SQL identifier of one to three parts, turns unquoted parts to
/// lower case, and falls back to a bare name. `parsed_table` names the parts it
/// finds.
#[verifier::external_body]
fn parse_table(text: &str) -> (r: TableReference)
    ensures
        r@ == parsed_table(text@),
{
    match datafusion_common::TableReference::parse_str(text) {
        datafusion_common::TableReference::Bare { table } => {
            TableReference::Bare { table: table.to_string() }
        },
        datafusion_common::TableReference::Partial { schema, table } => {
            TableReference::Partial { schema: schema.to_string(), table: table.to_string() }
        },
        datafusion_common::TableReference::Full { catalog: c, schema: s, table: t } => {
            TableReference::Full { catalog: c.to_string(), schema: s.to_string(), table: t.to_string() }
        },
    }
}

// ---------------------------------------------------------------------------
// Actions
// ---------------------------------------------------------------------------

/// The action id and the securable's type of a catalog DDL command.
pub open spec fn catalog_ddl(command: Seq<char>) -> Option<(Seq<char>, Seq<char>)> {
    if command == "CreateCatalog"@ {
        Some(("create_catalog"@, "Catalog"@))
    } else if command == "DropCatalog"@ {
        Some(("drop_catalog"@, "Catalog"@))
    } else if command == "CreateSchema"@ {
        Some(("create_schema"@, "Schema"@))
    } else if command == "DropSchema"@ {
        Some(("drop_schema"@, "Schema"@))
    } else {
        None
    }
}

/// The action of one node, if it has one.
pub open spec fn node_action(node: NodeModel) -> Option<ActionModel> {
    match node {
        NodeModel::TableScan { table, fields } => Some(
            ActionModel::ReadTable(table, Seq::new(fields.len(), |i: int| fields[i].name)),
        ),
        NodeModel::CreateExternalTable(table) => Some(ActionModel::CreateTable(table)),
        NodeModel::CreateMemoryTable(table) => Some(ActionModel::CreateTable(table)),
        NodeModel::OtherDdl(name) => Some(ActionModel::DenyUnsupported("DDL "@ + name)),
        NodeModel::Write { table, op } => if op == WriteOp::Ctas {
            Some(ActionModel::CreateTable(table))
        } else {
            Some(ActionModel::WriteTable(table))
        },
        NodeModel::Extension { name, explained } => if name == "CreateManagedTable"@ {
            Some(ActionModel::CreateTable(parsed_table(securable(explained))))
        } else {
            match catalog_ddl(name) {
                Some((action, resource_type)) => Some(
                    ActionModel::UnityDdl { action, resource_type, name: securable(explained) },
                ),
                None => None,
            }
        },
        _ => None,
    }
}

/// The actions of a plan: its own node's first, then those of its subqueries and of
/// its inputs, in order.
pub open spec fn actions_of(plan: PlanModel) -> Seq<ActionModel>
    decreases plan,
{
    let below = actions_of_all(plan.subqueries) + actions_of_all(plan.inputs);
    match node_action(plan.node) {
        Some(action) => seq![action] + below,
        None => below,
    }
}

/// The actions of a list of plans, in order.
pub open spec fn actions_of_all(plans: Seq<PlanModel>) -> Seq<ActionModel>
    decreases plans,
{
    if plans.len() == 0 {
        Seq::empty()
    } else {
        actions_of_all(plans.drop_last()) + actions_of(plans.last())
    }
}

/// Recognize a catalog DDL command by its name.
fn recognize_unity_ddl(name: &str) -> (r: Option<(&'static str, &'static str)>)
    ensures
        match r {
            Some((action, resource_type)) => catalog_ddl(name@) == Some(
                (action@, resource_type@),
            ),
            None => catalog_ddl(name@) is None,
        },
{
    if same_text(name, "CreateCatalog") {
        Some(("create_catalog", "Catalog"))
    } else if same_text(name, "DropCatalog") {
        Some(("drop_catalog", "Catalog"))
    } else if same_text(name, "CreateSchema") {
        Some(("create_schema", "Schema"))
    } else if same_text(name, "DropSchema") {
        Some(("drop_schema", "Schema"))
    } else {
        None
    }
}

/// The names of a scan's fields.
pub fn column_names(fields: &Vec<Field>) -> (r: Vec<String>)
    ensures
        texts(r@) == field_names(fields@),
{
    let mut names: Vec<String> = Vec::new();
    let mut i: usize = 0;
    while i < fields.len()
        invariant
            i <= fields@.len(),
            names@.len() == i,
            forall|j: int| 0 <= j < i ==> (#[trigger] names@[j])@ == fields@[j].name@,
        decreases fields@.len() - i,
    {
        names.push(fields[i].name.clone());
        i += 1;
    }
    assert(texts(names@) =~= field_names(fields@));
    names
}

/// The action of one node.
fn classify(node: &PlanNode) -> (r: Option<PlanAction>)
    ensures
        match r {
            Some(action) => node_action(node@) == Some(action@),
            None => node_action(node@) is None,
        },
{
    match node {
        PlanNode::TableScan { table, fields } => {
            let columns = column_names(fields);
            let action = PlanAction::ReadTable(table.clone(), columns);
            assert(action@->ReadTable_1 =~= node_action(node@)->0->ReadTable_1);
            Some(action)
        },
        PlanNode::CreateExternalTable(table) => Some(PlanAction::CreateTable(table.clone())),
        PlanNode::CreateMemoryTable(table) => Some(PlanAction::CreateTable(table.clone())),
        // Any other definition statement is denied rather than let through.
        PlanNode::OtherDdl(name) => {
            let mut what = "DDL ".to_owned();
            what.append(name.as_str());
            Some(PlanAction::DenyUnsupported(what))
        },
        PlanNode::Write { table, op } => {
            if *op == WriteOp::Ctas {
                Some(PlanAction::CreateTable(table.clone()))
            } else {
                Some(PlanAction::WriteTable(table.clone()))
            }
        },
        PlanNode::Extension { name, explained } => {
            if same_text(name.as_str(), "CreateManagedTable") {
                // The securable of a managed table is a table, not a catalog or
                // a schema.
                let text = securable_name(explained.as_str());
                Some(PlanAction::CreateTable(parse_table(text.as_str())))
            } else {
                match recognize_unity_ddl(name.as_str()) {
                    Some((action, resource_type)) => Some(
                        PlanAction::UnityDdl {
                            action,
                            resource_type,
                            name: securable_name(explained.as_str()),
                        },
                    ),
                    None => None,
                }
            }
        },
        PlanNode::Projection(_) | PlanNode::Filter(_) | PlanNode::Other(_) => None,
    }
}

/// Append the actions of `plan` to `actions`.
fn visit(plan: &Plan, actions: &mut Vec<PlanAction>)
    ensures
        action_models(final(actions)@) == action_models(old(actions)@) + actions_of(plan@),
    decreases plan,
{
    let ghost start = action_models(actions@);
    proof {
        lemma_plan_view(*plan);
    }
    match classify(&plan.node) {
        Some(action) => {
            actions.push(action);
            assert(action_models(actions@) =~= start + seq![action@]);
        },
        None => {
            assert(action_models(actions@) =~= start + Seq::<ActionModel>::empty());
        },
    }
    visit_all(&plan.subqueries, actions);
    visit_all(&plan.inputs, actions);
    assert(action_models(actions@) =~= start + actions_of(plan@));
}

/// Append the actions of each of `plans` to `actions`.
fn visit_all(plans: &Vec<Plan>, actions: &mut Vec<PlanAction>)
    ensures
        action_models(final(actions)@) == action_models(old(actions)@) + actions_of_all(
            plan_models(plans@),
        ),
    decreases plans,
{
    let ghost own = action_models(actions@);
    let ghost all = plan_models(plans@);
    let mut i: usize = 0;
    assert(own =~= own + actions_of_all(all.take(0)));
    while i < plans.len()
        invariant
            i <= plans@.len(),
            all == plan_models(plans@),
            action_models(actions@) == own + actions_of_all(all.take(i as int)),
        decreases plans@.len() - i,
    {
        assert(decreases_to!(plans => plans@[i as int]));
        visit(&plans[i], actions);
        proof {
            assert(all.take(i + 1).drop_last() =~= all.take(i as int));
            assert(all.take(i + 1).last() == plans@[i as int]@);
            assert(action_models(actions@) =~= own + actions_of_all(all.take(i + 1)));
        }
        i += 1;
    }
    assert(all.take(i as int) =~= all);
}

/// The actions that must be authorized for `plan` to run.
pub fn plan_actions(plan: &Plan) -> (r: Vec<PlanAction>)
    ensures
        action_models(r@) == actions_of(plan@),
{
    let mut actions: Vec<PlanAction> = Vec::new();
    visit(plan, &mut actions);
    assert(action_models(Seq::<PlanAction>::empty()) =~= Seq::<ActionModel>::empty());
    assert(action_models(actions@) =~= actions_of(plan@));
    actions
}

} // verus!
