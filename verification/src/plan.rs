//! A query plan, as far as policy looks into it.
//!
//! A plan is a tree of nodes. Policy reads the nodes that touch tables or change
//! state, and adds projections and filters of its own; every other node is
//! carried through. A plan inside a node's expressions is read like any other.

use vstd::prelude::*;

use crate::expr::{Expr, ExprModel};
use crate::table::{
    field_models, qualifier_model, Field, FieldModel, TableReference,
};

verus! {

/// The kind of a data-changing statement.
#[derive(Debug, Clone, Copy, PartialEq, Eq, Structural)]
pub enum WriteOp {
    Insert,
    Update,
    Delete,
    Truncate,
    /// Create a table from a query.
    Ctas,
}

/// One column of a projection that policy puts over a scan.
#[derive(Debug)]
pub enum ProjectionItem {
    /// The column as it is.
    Keep { qualifier: Option<TableReference>, name: String },
    /// A replacement under the column's own qualified name, cast to the column's
    /// own data type.
    Mask { mask: Expr, data_type: String, qualifier: Option<TableReference>, name: String },
}

/// The mathematical model of a [`ProjectionItem`].
#[verifier::ext_equal]
pub enum ItemModel {
    Keep { qualifier: Option<Seq<Seq<char>>>, name: Seq<char> },
    Mask {
        mask: ExprModel,
        data_type: Seq<char>,
        qualifier: Option<Seq<Seq<char>>>,
        name: Seq<char>,
    },
}

impl View for ProjectionItem {
    type V = ItemModel;

    open spec fn view(&self) -> ItemModel {
        match self {
            ProjectionItem::Keep { qualifier, name } => ItemModel::Keep {
                qualifier: qualifier_model(*qualifier),
                name: name@,
            },
            ProjectionItem::Mask { mask, data_type, qualifier, name } => ItemModel::Mask {
                mask: mask@,
                data_type: data_type@,
                qualifier: qualifier_model(*qualifier),
                name: name@,
            },
        }
    }
}

/// The models of a projection's items.
pub open spec fn item_models(items: Seq<ProjectionItem>) -> Seq<ItemModel> {
    Seq::new(items.len(), |i: int| items[i]@)
}

/// What a node of a plan does.
#[derive(Debug)]
pub enum PlanNode {
    /// Read a table; `fields` is the scan's output.
    TableScan { table: TableReference, fields: Vec<Field> },
    /// Create a table over files.
    CreateExternalTable(TableReference),
    /// Create a table in memory.
    CreateMemoryTable(TableReference),
    /// Any other definition statement, by its name.
    OtherDdl(String),
    /// Change a table's rows.
    Write { table: TableReference, op: WriteOp },
    /// A node of an extension: its name, and the line that explains it.
    Extension { name: String, explained: String },
    /// A projection that policy put in.
    Projection(Vec<ProjectionItem>),
    /// A row filter that policy put in.
    Filter(Expr),
    /// Any other node, by its name.
    Other(String),
}

/// The mathematical model of a [`PlanNode`].
#[verifier::ext_equal]
pub enum NodeModel {
    TableScan { table: Seq<Seq<char>>, fields: Seq<FieldModel> },
    CreateExternalTable(Seq<Seq<char>>),
    CreateMemoryTable(Seq<Seq<char>>),
    OtherDdl(Seq<char>),
    Write { table: Seq<Seq<char>>, op: WriteOp },
    Extension { name: Seq<char>, explained: Seq<char> },
    Projection(Seq<ItemModel>),
    Filter(ExprModel),
    Other(Seq<char>),
}

impl View for PlanNode {
    type V = NodeModel;

    open spec fn view(&self) -> NodeModel {
        match self {
            PlanNode::TableScan { table, fields } => NodeModel::TableScan {
                table: table@,
                fields: field_models(fields@),
            },
            PlanNode::CreateExternalTable(table) => NodeModel::CreateExternalTable(table@),
            PlanNode::CreateMemoryTable(table) => NodeModel::CreateMemoryTable(table@),
            PlanNode::OtherDdl(name) => NodeModel::OtherDdl(name@),
            PlanNode::Write { table, op } => NodeModel::Write { table: table@, op: *op },
            PlanNode::Extension { name, explained } => NodeModel::Extension {
                name: name@,
                explained: explained@,
            },
            PlanNode::Projection(items) => NodeModel::Projection(item_models(items@)),
            PlanNode::Filter(predicate) => NodeModel::Filter(predicate@),
            PlanNode::Other(name) => NodeModel::Other(name@),
        }
    }
}

/// A plan: a node over the plans it reads from. `subqueries` are the plans that
/// stand inside the node's expressions, such as the one of `x IN (SELECT ..)`.
#[derive(Debug)]
pub struct Plan {
    pub node: PlanNode,
    pub subqueries: Vec<Plan>,
    pub inputs: Vec<Plan>,
}

/// The mathematical model of a [`Plan`].
#[verifier::ext_equal]
pub struct PlanModel {
    pub node: NodeModel,
    pub subqueries: Seq<PlanModel>,
    pub inputs: Seq<PlanModel>,
}

/// The model of a node that reads nothing.
pub open spec fn bare_model(node: NodeModel) -> PlanModel {
    PlanModel { node, subqueries: Seq::empty(), inputs: Seq::empty() }
}

impl View for Plan {
    type V = PlanModel;

    open spec fn view(&self) -> PlanModel
        decreases self,
    {
        PlanModel {
            node: self.node@,
            subqueries: Seq::new(
                self.subqueries@.len(),
                |i: int|
                    if 0 <= i < self.subqueries@.len() {
                        self.subqueries@[i].view()
                    } else {
                        bare_model(self.node@)
                    },
            ),
            inputs: Seq::new(
                self.inputs@.len(),
                |i: int|
                    if 0 <= i < self.inputs@.len() {
                        self.inputs@[i].view()
                    } else {
                        bare_model(self.node@)
                    },
            ),
        }
    }
}

/// The models of a list of plans.
pub open spec fn plan_models(plans: Seq<Plan>) -> Seq<PlanModel> {
    Seq::new(plans.len(), |i: int| plans[i]@)
}

/// A plan's model, with the models of its subqueries and its inputs as lists.
pub proof fn lemma_plan_view(plan: Plan)
    ensures
        plan@ == (PlanModel {
            node: plan.node@,
            subqueries: plan_models(plan.subqueries@),
            inputs: plan_models(plan.inputs@),
        }),
{
    assert(plan@.subqueries =~= plan_models(plan.subqueries@));
    assert(plan@.inputs =~= plan_models(plan.inputs@));
}

} // verus!
