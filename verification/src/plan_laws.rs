//! How plans are read and rewritten, node by node.

use vstd::prelude::*;

use crate::engine::PolicyEngine;
use crate::error::PolicyError;
use crate::expr::ExprModel;
use crate::fact_store::FactStore;
use crate::facts::{EvalContext, TableFacts};
use crate::govern::{
    asks, conjunction, enforced, fails_at, gathered, over, projected, projection, rewritten,
    rewritten_all, scan_taints, scans_of, scans_of_all, stored, taints_of, with_taints, ScanModel,
};
use crate::plan::{ItemModel, NodeModel, PlanModel, WriteOp};
use crate::plan_actions::{actions_of, actions_of_all, node_action, parsed_table, securable, ActionModel};
use crate::policy::PolicyModel;
use crate::principal::PrincipalIdentity;
use crate::table::{dotted, FieldModel};

verus! {

// ---------------------------------------------------------------------------
// What a node does
// ---------------------------------------------------------------------------

/// **A scan reads its table and the columns it yields, all of them.**
pub proof fn law_scans_read_every_column(table: Seq<Seq<char>>, fields: Seq<FieldModel>, i: int)
    ensures
        ({
            let action = node_action(NodeModel::TableScan { table, fields });
            &&& action is Some && action->0 is ReadTable
            &&& action->0->ReadTable_0 == table
            &&& action->0->ReadTable_1.len() == fields.len()
            &&& 0 <= i < fields.len() ==> action->0->ReadTable_1[i] == fields[i].name
        }),
{
}

/// **Every statement that changes state is seen for what it is.** A write of rows is a
/// write of its table; a table made of files, in memory, by a query or by the catalog is
/// a creation of that table; a definition that is not modelled must be denied.
pub proof fn law_changes_of_state_are_seen(
    table: Seq<Seq<char>>,
    op: WriteOp,
    name: Seq<char>,
    explained: Seq<char>,
)
    ensures
        node_action(NodeModel::CreateExternalTable(table)) == Some(ActionModel::CreateTable(table)),
        node_action(NodeModel::CreateMemoryTable(table)) == Some(ActionModel::CreateTable(table)),
        node_action(NodeModel::OtherDdl(name)) == Some(
            ActionModel::DenyUnsupported("DDL "@ + name),
        ),
        op == WriteOp::Ctas ==> node_action(NodeModel::Write { table, op }) == Some(
            ActionModel::CreateTable(table),
        ),
        op != WriteOp::Ctas ==> node_action(NodeModel::Write { table, op }) == Some(
            ActionModel::WriteTable(table),
        ),
        node_action(NodeModel::Extension { name: "CreateManagedTable"@, explained }) == Some(
            ActionModel::CreateTable(parsed_table(securable(explained))),
        ),
{
}

proof fn lemma_commands_differ()
    ensures
        "CreateManagedTable"@ != "CreateCatalog"@,
        "CreateManagedTable"@ != "DropCatalog"@,
        "CreateManagedTable"@ != "CreateSchema"@,
        "CreateManagedTable"@ != "DropSchema"@,
        "CreateCatalog"@ != "DropCatalog"@,
        "CreateCatalog"@ != "CreateSchema"@,
        "CreateCatalog"@ != "DropSchema"@,
        "DropCatalog"@ != "CreateSchema"@,
        "DropCatalog"@ != "DropSchema"@,
        "CreateSchema"@ != "DropSchema"@,
{
    reveal_strlit("CreateManagedTable");
    reveal_strlit("CreateCatalog");
    reveal_strlit("DropCatalog");
    reveal_strlit("CreateSchema");
    reveal_strlit("DropSchema");
    assert("CreateManagedTable"@.len() == 18);
    assert("CreateCatalog"@.len() == 13);
    assert("DropCatalog"@.len() == 11);
    assert("CreateSchema"@.len() == 12);
    assert("DropSchema"@.len() == 10);
}

/// **A catalog statement acts on the securable it names.** Creating and dropping a
/// catalog or a schema each have their own action, on a securable of that type.
pub proof fn law_catalog_statements_act_on_their_securable(explained: Seq<char>)
    ensures
        node_action(NodeModel::Extension { name: "CreateCatalog"@, explained }) == Some(
            ActionModel::UnityDdl {
                action: "create_catalog"@,
                resource_type: "Catalog"@,
                name: securable(explained),
            },
        ),
        node_action(NodeModel::Extension { name: "DropCatalog"@, explained }) == Some(
            ActionModel::UnityDdl {
                action: "drop_catalog"@,
                resource_type: "Catalog"@,
                name: securable(explained),
            },
        ),
        node_action(NodeModel::Extension { name: "CreateSchema"@, explained }) == Some(
            ActionModel::UnityDdl {
                action: "create_schema"@,
                resource_type: "Schema"@,
                name: securable(explained),
            },
        ),
        node_action(NodeModel::Extension { name: "DropSchema"@, explained }) == Some(
            ActionModel::UnityDdl {
                action: "drop_schema"@,
                resource_type: "Schema"@,
                name: securable(explained),
            },
        ),
{
    lemma_commands_differ();
}

/// **Nothing else is an action.** An extension of another name, a node that policy put
/// in and any other node have none.
pub proof fn law_other_nodes_do_nothing(
    name: Seq<char>,
    explained: Seq<char>,
    items: Seq<ItemModel>,
    predicate: ExprModel,
)
    ensures
        name != "CreateManagedTable"@ && name != "CreateCatalog"@ && name != "DropCatalog"@
            && name != "CreateSchema"@ && name != "DropSchema"@ ==> node_action(
            NodeModel::Extension { name, explained },
        ) is None,
        node_action(NodeModel::Projection(items)) is None,
        node_action(NodeModel::Filter(predicate)) is None,
        node_action(NodeModel::Other(name)) is None,
{
}

/// **A plan's actions are its nodes' actions, each once.** A node's own comes first,
/// then those of its subqueries, then those of its inputs; those of several plans are
/// those of each, in order.
pub proof fn law_actions_are_found_node_by_node(
    plan: PlanModel,
    one: Seq<PlanModel>,
    other: Seq<PlanModel>,
)
    ensures
        ({
            let below = actions_of_all(plan.subqueries) + actions_of_all(plan.inputs);
            match node_action(plan.node) {
                Some(own) => actions_of(plan) == seq![own] + below,
                None => actions_of(plan) == below,
            }
        }),
        actions_of_all(seq![plan]) == actions_of(plan),
        actions_of_all(one + other) == actions_of_all(one) + actions_of_all(other),
        actions_of_all(Seq::empty()) == Seq::<ActionModel>::empty(),
    decreases other.len(),
{
    let single = seq![plan];
    assert(single.drop_last() =~= Seq::<PlanModel>::empty());
    assert(single.last() == plan);
    assert(actions_of_all(single.drop_last()) =~= Seq::<ActionModel>::empty());
    assert(actions_of_all(single) =~= actions_of(plan));
    if other.len() == 0 {
        assert(one + other =~= one);
        assert(actions_of_all(one) + actions_of_all(other) =~= actions_of_all(one));
    } else {
        law_actions_are_found_node_by_node(plan, one, other.drop_last());
        assert((one + other).drop_last() =~= one + other.drop_last());
        assert((one + other).last() == other.last());
        assert(actions_of_all(one + other) =~= actions_of_all(one) + actions_of_all(other));
    }
}

/// **A plan's scans are found node by node, each once.** A node's own comes first, then
/// those of its subqueries, then those of its inputs; those of several plans are those
/// of each, in order.
pub proof fn law_scans_are_found_node_by_node(
    plan: PlanModel,
    one: Seq<PlanModel>,
    other: Seq<PlanModel>,
)
    ensures
        ({
            let below = scans_of_all(plan.subqueries) + scans_of_all(plan.inputs);
            if plan.node is TableScan {
                scans_of(plan) == seq![
                    ScanModel {
                        table: plan.node->TableScan_table,
                        fields: plan.node->TableScan_fields,
                    },
                ] + below
            } else {
                scans_of(plan) == below
            }
        }),
        scans_of_all(seq![plan]) == scans_of(plan),
        scans_of_all(one + other) == scans_of_all(one) + scans_of_all(other),
        scans_of_all(Seq::empty()) == Seq::<ScanModel>::empty(),
    decreases other.len(),
{
    let single = seq![plan];
    assert(single.drop_last() =~= Seq::<PlanModel>::empty());
    assert(single.last() == plan);
    assert(scans_of_all(single.drop_last()) =~= Seq::<ScanModel>::empty());
    assert(scans_of_all(single) =~= scans_of(plan));
    if other.len() == 0 {
        assert(one + other =~= one);
        assert(scans_of_all(one) + scans_of_all(other) =~= scans_of_all(one));
    } else {
        law_scans_are_found_node_by_node(plan, one, other.drop_last());
        assert((one + other).drop_last() =~= one + other.drop_last());
        assert((one + other).last() == other.last());
        assert(scans_of_all(one + other) =~= scans_of_all(one) + scans_of_all(other));
    }
}

// ---------------------------------------------------------------------------
// What governing does to a plan
// ---------------------------------------------------------------------------

proof fn lemma_rewritten_all(plans: Seq<PlanModel>, policies: Map<Seq<Seq<char>>, PolicyModel>)
    ensures
        rewritten_all(plans, policies).len() == plans.len(),
        forall|i: int|
            0 <= i < plans.len() ==> #[trigger] rewritten_all(plans, policies)[i] == rewritten(
                plans[i],
                policies,
            ),
    decreases plans.len(),
{
    if plans.len() > 0 {
        lemma_rewritten_all(plans.drop_last(), policies);
        assert forall|i: int| 0 <= i < plans.len() implies #[trigger] rewritten_all(
            plans,
            policies,
        )[i] == rewritten(plans[i], policies) by {
            if i < plans.len() - 1 {
                assert(rewritten_all(plans, policies)[i] == rewritten_all(
                    plans.drop_last(),
                    policies,
                )[i]);
                assert(plans.drop_last()[i] == plans[i]);
            }
        }
    }
}

/// **Governing touches scans only.** A node that is not the scan of a table with a
/// policy keeps its place, with its subqueries and its inputs governed one by one.
pub proof fn law_governing_touches_scans_only(
    plan: PlanModel,
    policies: Map<Seq<Seq<char>>, PolicyModel>,
    i: int,
)
    requires
        plan.node is TableScan ==> !policies.contains_key(plan.node->TableScan_table),
    ensures
        rewritten(plan, policies).node == plan.node,
        rewritten(plan, policies).subqueries.len() == plan.subqueries.len(),
        rewritten(plan, policies).inputs.len() == plan.inputs.len(),
        0 <= i < plan.subqueries.len() ==> rewritten(plan, policies).subqueries[i] == rewritten(
            plan.subqueries[i],
            policies,
        ),
        0 <= i < plan.inputs.len() ==> rewritten(plan, policies).inputs[i] == rewritten(
            plan.inputs[i],
            policies,
        ),
{
    lemma_rewritten_all(plan.subqueries, policies);
    lemma_rewritten_all(plan.inputs, policies);
}

/// **A scan with a policy stands under that policy.** Over it stands what its own
/// policy asks for, on its own columns, and under it the scan as it was.
pub proof fn law_a_scan_stands_under_its_own_policy(
    table: Seq<Seq<char>>,
    fields: Seq<FieldModel>,
    policies: Map<Seq<Seq<char>>, PolicyModel>,
)
    requires
        policies.contains_key(table),
    ensures
        ({
            let scan = PlanModel {
                node: NodeModel::TableScan { table, fields },
                subqueries: Seq::empty(),
                inputs: Seq::empty(),
            };
            rewritten(scan, policies) == enforced(scan, fields, policies[table])
        }),
{
    assert(rewritten_all(Seq::empty(), policies) =~= Seq::<PlanModel>::empty());
}

/// **Filters stand over masks, and masks over the scan.** Where there are row filters
/// the outermost node filters by their conjunction; where there are masks a projection
/// stands right over the scan; and nothing else is put in.
pub proof fn law_filters_stand_over_masks(
    plan: PlanModel,
    fields: Seq<FieldModel>,
    policy: PolicyModel,
    i: int,
    column: Seq<char>,
)
    ensures
        ({
            let whole = enforced(plan, fields, policy);
            let filtered = policy.row_filters.len() > 0;
            let under = if filtered {
                whole.inputs[0]
            } else {
                whole
            };
            &&& filtered ==> {
                &&& whole.node == NodeModel::Filter(conjunction(policy.row_filters))
                &&& whole.subqueries.len() == 0
                &&& whole.inputs.len() == 1
            }
            &&& policy.column_masks.contains_key(column) ==> {
                &&& under.node is Projection
                &&& under.subqueries.len() == 0
                &&& under.inputs == seq![plan]
                &&& under.node->Projection_0.len() == fields.len()
            }
            &&& (forall|c: Seq<char>| !#[trigger] policy.column_masks.contains_key(c)) ==> under
                == plan
        }),
{
    if forall|c: Seq<char>| !#[trigger] policy.column_masks.contains_key(c) {
        assert(policy.column_masks =~= Map::<Seq<char>, ExprModel>::empty());
    }
    if policy.column_masks.contains_key(column) {
        assert(policy.column_masks != Map::<Seq<char>, ExprModel>::empty());
    }
}

/// **A masked column keeps its name, its qualifier and its type, and no other column is
/// changed.**
pub proof fn law_only_the_value_of_a_masked_column_changes(
    field: FieldModel,
    masks: Map<Seq<char>, ExprModel>,
)
    ensures
        masks.contains_key(field.name) ==> projected(field, masks) == (ItemModel::Mask {
            mask: masks[field.name],
            data_type: field.data_type,
            qualifier: field.qualifier,
            name: field.name,
        }),
        !masks.contains_key(field.name) ==> projected(field, masks) == (ItemModel::Keep {
            qualifier: field.qualifier,
            name: field.name,
        }),
{
}

/// **The columns keep their places.**
pub proof fn law_columns_keep_their_places(
    fields: Seq<FieldModel>,
    masks: Map<Seq<char>, ExprModel>,
    i: int,
)
    requires
        0 <= i < fields.len(),
    ensures
        projection(fields, masks).len() == fields.len(),
        projection(fields, masks)[i] == projected(fields[i], masks),
{
}

/// **A node over an input has that one input.**
pub proof fn law_over_is_over(node: NodeModel, input: PlanModel)
    ensures
        over(node, input).node == node,
        over(node, input).subqueries.len() == 0,
        over(node, input).inputs == seq![input],
{
}

// ---------------------------------------------------------------------------
// Which policies are gathered
// ---------------------------------------------------------------------------

/// **The first constraint on a table is the one enforced.** Of a table that is not
/// marked, the policy is the first reply with something to enforce to a scan of it; a
/// later reply does not take its place.
pub proof fn law_the_first_constraint_is_enforced(
    scans: Seq<ScanModel>,
    replies: Seq<PolicyModel>,
    marked: Set<Seq<char>>,
    n: nat,
    i: int,
)
    requires
        0 <= i < n,
        !marked.contains(dotted(scans[i].table)),
        !replies[i].nothing(),
        forall|j: int|
            0 <= j < i && (#[trigger] scans[j]).table == scans[i].table ==> replies[j].nothing(),
    ensures
        gathered(scans, replies, marked, n).contains_key(scans[i].table),
        gathered(scans, replies, marked, n)[scans[i].table] == replies[i],
    decreases n,
{
    if i < n - 1 {
        law_the_first_constraint_is_enforced(scans, replies, marked, (n - 1) as nat, i);
    } else {
        lemma_not_yet_gathered(scans, replies, marked, (n - 1) as nat, scans[i].table);
    }
}

proof fn lemma_not_yet_gathered(
    scans: Seq<ScanModel>,
    replies: Seq<PolicyModel>,
    marked: Set<Seq<char>>,
    n: nat,
    table: Seq<Seq<char>>,
)
    requires
        forall|j: int|
            0 <= j < n && (#[trigger] scans[j]).table == table ==> replies[j].nothing(),
    ensures
        !gathered(scans, replies, marked, n).contains_key(table),
    decreases n,
{
    if n > 0 {
        lemma_not_yet_gathered(scans, replies, marked, (n - 1) as nat, table);
        assert(scans[n - 1].table == table ==> replies[n - 1].nothing());
    }
}

/// **A table without a constraint has no policy.** Where every reply to a scan of it
/// has nothing to enforce, nothing is enforced on it.
pub proof fn law_no_constraint_no_policy(
    scans: Seq<ScanModel>,
    replies: Seq<PolicyModel>,
    marked: Set<Seq<char>>,
    n: nat,
    table: Seq<Seq<char>>,
)
    requires
        forall|j: int|
            0 <= j < n && (#[trigger] scans[j]).table == table ==> replies[j].nothing(),
    ensures
        !gathered(scans, replies, marked, n).contains_key(table),
{
    lemma_not_yet_gathered(scans, replies, marked, n, table);
}

/// **The engine is asked about every scan that is not settled.** A scan is passed over
/// only where its table has a policy already or is marked.
pub proof fn law_unsettled_scans_are_asked_about(
    policies: Map<Seq<Seq<char>>, PolicyModel>,
    marked: Set<Seq<char>>,
    table: Seq<Seq<char>>,
)
    ensures
        asks(policies, marked, table) <==> !policies.contains_key(table) && !marked.contains(
            dotted(table),
        ),
{
}

/// **A query fails only where the engine does.** The error is the engine's own, about a
/// scan of the plan whose table is not marked.
pub proof fn law_only_the_engine_fails_a_plan<E: PolicyEngine>(
    engine: E,
    plan: PlanModel,
    principal: PrincipalIdentity,
    eval: EvalContext,
    i: int,
    e: PolicyError,
)
    requires
        fails_at(engine, plan, principal, eval, i, e),
    ensures
        0 <= i < scans_of(plan).len(),
        !eval.catalog_facts.governed().contains(dotted(scans_of(plan)[i].table)),
        engine.may_constrain(
            scans_of(plan)[i].table,
            scans_of(plan)[i].fields,
            principal,
            eval,
            Err(e),
        ),
{
}

// ---------------------------------------------------------------------------
// Taints
// ---------------------------------------------------------------------------

/// **Every classified column read leaves its trace.** A tag is among the taints of a
/// plan's first scans exactly where one of them reads a column that the facts of its
/// own table classify so.
pub proof fn law_every_classified_read_leaves_a_trace(
    facts: Map<Seq<char>, TableFacts>,
    scans: Seq<ScanModel>,
    n: nat,
    tag: Seq<char>,
)
    requires
        n <= scans.len(),
    ensures
        taints_of(facts, scans, n).contains(tag) <==> exists|i: int, k: int|
            #![trigger scans[i].fields[k]]
            {
                let known = facts[dotted(scans[i].table)].column_tags@;
                &&& 0 <= i < n
                &&& 0 <= k < scans[i].fields.len()
                &&& facts.contains_key(dotted(scans[i].table))
                &&& known.contains_key(scans[i].fields[k].name)
                &&& known[scans[i].fields[k].name]@.contains(tag)
            },
    decreases n,
{
    if n > 0 {
        law_every_classified_read_leaves_a_trace(facts, scans, (n - 1) as nat, tag);
        let last = scans[n - 1];
        lemma_scan_taints(facts, last, tag);
        if scan_taints(facts, last).contains(tag) {
            let k = choose|k: int|
                #![trigger last.fields[k]]
                {
                    let known = facts[dotted(last.table)].column_tags@;
                    &&& 0 <= k < last.fields.len()
                    &&& facts.contains_key(dotted(last.table))
                    &&& known.contains_key(last.fields[k].name)
                    &&& known[last.fields[k].name]@.contains(tag)
                };
            assert(scans[n - 1].fields[k] == last.fields[k]);
        }
        if exists|i: int, k: int|
            #![trigger scans[i].fields[k]]
            {
                let known = facts[dotted(scans[i].table)].column_tags@;
                &&& 0 <= i < n
                &&& 0 <= k < scans[i].fields.len()
                &&& facts.contains_key(dotted(scans[i].table))
                &&& known.contains_key(scans[i].fields[k].name)
                &&& known[scans[i].fields[k].name]@.contains(tag)
            } {
            let (i, k) = choose|i: int, k: int|
                #![trigger scans[i].fields[k]]
                {
                    let known = facts[dotted(scans[i].table)].column_tags@;
                    &&& 0 <= i < n
                    &&& 0 <= k < scans[i].fields.len()
                    &&& facts.contains_key(dotted(scans[i].table))
                    &&& known.contains_key(scans[i].fields[k].name)
                    &&& known[scans[i].fields[k].name]@.contains(tag)
                };
            assert(scans[i].fields[k] == scans[i].fields[k]);
        }
    }
}

proof fn lemma_scan_taints(facts: Map<Seq<char>, TableFacts>, scan: ScanModel, tag: Seq<char>)
    ensures
        scan_taints(facts, scan).contains(tag) <==> exists|k: int|
            #![trigger scan.fields[k]]
            {
                let known = facts[dotted(scan.table)].column_tags@;
                &&& 0 <= k < scan.fields.len()
                &&& facts.contains_key(dotted(scan.table))
                &&& known.contains_key(scan.fields[k].name)
                &&& known[scan.fields[k].name]@.contains(tag)
            },
{
    let columns = Seq::new(scan.fields.len(), |i: int| scan.fields[i].name);
    let known = facts[dotted(scan.table)].column_tags@;
    if scan_taints(facts, scan).contains(tag) {
        let k = choose|k: int|
            0 <= k < columns.len() && known.contains_key(#[trigger] columns[k])
                && known[columns[k]]@.contains(tag);
        assert(scan.fields[k].name == columns[k]);
    }
    if exists|k: int|
        #![trigger scan.fields[k]]
        0 <= k < scan.fields.len() && facts.contains_key(dotted(scan.table))
            && known.contains_key(scan.fields[k].name) && known[scan.fields[k].name]@.contains(
            tag,
        ) {
        let k = choose|k: int|
            #![trigger scan.fields[k]]
            0 <= k < scan.fields.len() && facts.contains_key(dotted(scan.table))
                && known.contains_key(scan.fields[k].name) && known[scan.fields[k].name]@.contains(
                tag,
            );
        assert(columns[k] == scan.fields[k].name);
    }
}

/// **Taints are added to the session that read, and to no other.** Nothing is recorded
/// without a session or without a ledger, and nothing recorded is lost.
pub proof fn law_taints_go_to_the_session_that_read<S: FactStore>(
    before: Option<S>,
    eval: EvalContext,
    session: Seq<char>,
    taints: Set<Seq<char>>,
    tag: Seq<char>,
)
    ensures
        with_taints(before, eval, session, taints).contains(tag) <==> stored(
            before,
            session,
        ).contains(tag) || (before is Some && eval.correlation_id is Some
            && eval.correlation_id->0@ == session && taints.contains(tag)),
{
}

/// **A ledger's taints are the ledger's.**
pub proof fn law_no_ledger_no_taints<S: FactStore>(store: Option<S>, session: Seq<char>)
    ensures
        match store {
            Some(s) => stored(store, session) == s.taints(session),
            None => stored(store, session) == Set::<Seq<char>>::empty(),
        },
{
}

} // verus!
