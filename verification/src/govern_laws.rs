//! What holds of every governed plan, and of every classified one.

use vstd::prelude::*;

use crate::expr::{binary_model, ExprModel, Operator, Value};
use crate::govern::{
    conjunction, constrained, enforced, gathered, governed_with, over, projected, projection,
    rewritten, rewritten_all, scans_of, scans_of_all, ScanModel,
};
use crate::meaning::{expr_value, Row};
use crate::plan::{ItemModel, NodeModel, PlanModel};
use crate::plan_actions::{actions_of, actions_of_all, node_action};
use crate::policy::PolicyModel;
use crate::table::{dotted, FieldModel};

verus! {

// ---------------------------------------------------------------------------
// What is left alone
// ---------------------------------------------------------------------------

/// Whether none of the scans is of a table with a policy.
pub open spec fn untouched(
    scans: Seq<ScanModel>,
    policies: Map<Seq<Seq<char>>, PolicyModel>,
) -> bool {
    forall|i: int| 0 <= i < scans.len() ==> !policies.contains_key((#[trigger] scans[i]).table)
}

proof fn lemma_untouched_parts(
    left: Seq<ScanModel>,
    right: Seq<ScanModel>,
    policies: Map<Seq<Seq<char>>, PolicyModel>,
)
    requires
        untouched(left + right, policies),
    ensures
        untouched(left, policies),
        untouched(right, policies),
{
    assert forall|i: int| 0 <= i < left.len() implies !policies.contains_key(
        (#[trigger] left[i]).table,
    ) by {
        assert((left + right)[i] == left[i]);
    }
    assert forall|i: int| 0 <= i < right.len() implies !policies.contains_key(
        (#[trigger] right[i]).table,
    ) by {
        assert((left + right)[left.len() + i] == right[i]);
    }
}

/// **Ungoverned plans are left alone.** A plan that scans no table with a policy
/// comes out as it went in.
pub proof fn law_ungoverned_plan_is_unchanged(
    plan: PlanModel,
    policies: Map<Seq<Seq<char>>, PolicyModel>,
)
    requires
        untouched(scans_of(plan), policies),
    ensures
        rewritten(plan, policies) == plan,
    decreases plan,
{
    let inside = scans_of_all(plan.subqueries);
    let below = scans_of_all(plan.inputs);
    match plan.node {
        NodeModel::TableScan { table, fields } => {
            let own = seq![ScanModel { table, fields }];
            assert(scans_of(plan) == own + (inside + below));
            lemma_untouched_parts(own, inside + below, policies);
            assert(own[0].table == table);
        },
        _ => {},
    }
    lemma_untouched_parts(inside, below, policies);
    lemma_all_unchanged(plan.subqueries, policies);
    lemma_all_unchanged(plan.inputs, policies);
}

proof fn lemma_all_unchanged(
    plans: Seq<PlanModel>,
    policies: Map<Seq<Seq<char>>, PolicyModel>,
)
    requires
        untouched(scans_of_all(plans), policies),
    ensures
        rewritten_all(plans, policies) == plans,
    decreases plans,
{
    if plans.len() > 0 {
        lemma_untouched_parts(scans_of_all(plans.drop_last()), scans_of(plans.last()), policies);
        lemma_all_unchanged(plans.drop_last(), policies);
        law_ungoverned_plan_is_unchanged(plans.last(), policies);
        assert(rewritten_all(plans, policies) =~= plans);
    } else {
        assert(rewritten_all(plans, policies) =~= plans);
    }
}

/// **The two tiers exclude each other.** A table that a secured view already
/// enforces never gets a policy from the engine's replies.
pub proof fn law_marked_tables_get_no_policy(
    scans: Seq<ScanModel>,
    replies: Seq<PolicyModel>,
    marked: Set<Seq<char>>,
    n: nat,
    table: Seq<Seq<char>>,
)
    requires
        marked.contains(dotted(table)),
    ensures
        !gathered(scans, replies, marked, n).contains_key(table),
    decreases n,
{
    if n > 0 {
        law_marked_tables_get_no_policy(scans, replies, marked, (n - 1) as nat, table);
    }
}

/// **A secured plan is not governed twice.** Where every scanned table is marked,
/// governing changes nothing, whatever the engine replies.
pub proof fn law_marked_plan_is_unchanged(
    plan: PlanModel,
    replies: Seq<PolicyModel>,
    marked: Set<Seq<char>>,
)
    requires
        forall|i: int|
            0 <= i < scans_of(plan).len() ==> marked.contains(
                dotted((#[trigger] scans_of(plan)[i]).table),
            ),
    ensures
        governed_with(plan, marked, replies) == plan,
{
    let scans = scans_of(plan);
    let policies = gathered(scans, replies, marked, scans.len());
    assert forall|i: int| 0 <= i < scans.len() implies !policies.contains_key(
        (#[trigger] scans[i]).table,
    ) by {
        law_marked_tables_get_no_policy(scans, replies, marked, scans.len(), scans[i].table);
    }
    law_ungoverned_plan_is_unchanged(plan, policies);
}

/// Whether the engine replied with nothing to enforce to every question.
pub open spec fn all_nothing(replies: Seq<PolicyModel>) -> bool {
    forall|i: int| 0 <= i < replies.len() ==> (#[trigger] replies[i]).nothing()
}

/// **Nothing to enforce, nothing changed.** Where the engine has no constraint
/// for any scan, the plan comes out as it went in.
pub proof fn law_no_policy_leaves_plan_unchanged(
    plan: PlanModel,
    replies: Seq<PolicyModel>,
    marked: Set<Seq<char>>,
)
    requires
        replies.len() == scans_of(plan).len(),
        all_nothing(replies),
    ensures
        governed_with(plan, marked, replies) == plan,
{
    let scans = scans_of(plan);
    lemma_nothing_gathered(scans, replies, marked, scans.len());
    law_ungoverned_plan_is_unchanged(plan, gathered(scans, replies, marked, scans.len()));
}

proof fn lemma_nothing_gathered(
    scans: Seq<ScanModel>,
    replies: Seq<PolicyModel>,
    marked: Set<Seq<char>>,
    n: nat,
)
    requires
        n <= replies.len(),
        all_nothing(replies),
    ensures
        gathered(scans, replies, marked, n) == Map::<Seq<Seq<char>>, PolicyModel>::empty(),
    decreases n,
{
    if n > 0 {
        lemma_nothing_gathered(scans, replies, marked, (n - 1) as nat);
        assert(replies[n - 1].nothing());
    }
}

// ---------------------------------------------------------------------------
// What is enforced
// ---------------------------------------------------------------------------

/// **No constraint is dropped.** A table that is not marked, and for a scan of
/// which the engine replied with a constraint, has a policy.
pub proof fn law_constrained_tables_get_a_policy(
    scans: Seq<ScanModel>,
    replies: Seq<PolicyModel>,
    marked: Set<Seq<char>>,
    n: nat,
    i: int,
)
    requires
        0 <= i < n,
        !marked.contains(dotted(scans[i].table)),
        !replies[i].nothing(),
    ensures
        gathered(scans, replies, marked, n).contains_key(scans[i].table),
    decreases n,
{
    if i < n - 1 {
        law_constrained_tables_get_a_policy(scans, replies, marked, (n - 1) as nat, i);
    }
}

/// The output columns of a policy's own nodes over a scan. A kept column is the
/// input's column of that qualified name.
pub open spec fn output(plan: PlanModel) -> Option<Seq<FieldModel>>
    decreases plan,
{
    match plan.node {
        NodeModel::TableScan { fields, .. } => Some(fields),
        NodeModel::Filter(_) => if plan.inputs.len() == 1 {
            output(plan.inputs[0])
        } else {
            None
        },
        NodeModel::Projection(items) => if plan.inputs.len() == 1 {
            match output(plan.inputs[0]) {
                Some(fields) => Some(Seq::new(items.len(), |i: int| item_field(items[i], fields))),
                None => None,
            }
        } else {
            None
        },
        _ => None,
    }
}

/// Whether a field has this qualified name.
pub open spec fn is_named(field: FieldModel, qualifier: Option<Seq<Seq<char>>>, name: Seq<char>) -> bool {
    field.qualifier == qualifier && field.name == name
}

/// The column that a projection's item yields.
pub open spec fn item_field(item: ItemModel, fields: Seq<FieldModel>) -> FieldModel {
    match item {
        ItemModel::Mask { mask, data_type, qualifier, name } => FieldModel {
            qualifier,
            name,
            data_type,
        },
        ItemModel::Keep { qualifier, name } => {
            let i = choose|i: int| 0 <= i < fields.len() && is_named(#[trigger] fields[i], qualifier, name);
            FieldModel { qualifier, name, data_type: fields[i].data_type }
        },
    }
}

/// **Governance does not show in the schema.** A scan under enforcement yields
/// the scan's own columns: the same qualified names, in the same order, with the
/// same data types. (A schema's qualified names are distinct.)
pub proof fn law_enforcement_keeps_schema(
    scan: PlanModel,
    fields: Seq<FieldModel>,
    policy: PolicyModel,
)
    requires
        output(scan) == Some(fields),
        forall|i: int, j: int|
            0 <= i < j < fields.len() ==> !is_named(
                #[trigger] fields[i],
                (#[trigger] fields[j]).qualifier,
                fields[j].name,
            ),
    ensures
        output(enforced(scan, fields, policy)) == Some(fields),
{
    let masks = policy.column_masks;
    let items = projection(fields, masks);
    let masked = if masks == Map::<Seq<char>, ExprModel>::empty() {
        scan
    } else {
        over(NodeModel::Projection(items), scan)
    };
    assert(output(masked) == Some(fields)) by {
        if masks != Map::<Seq<char>, ExprModel>::empty() {
            assert(masked.inputs[0] == scan);
            let shown = Seq::new(items.len(), |i: int| item_field(items[i], fields));
            assert forall|i: int| 0 <= i < fields.len() implies shown[i] == fields[i] by {
                let field = fields[i];
                assert(items[i] == projected(field, masks));
                if !masks.contains_key(field.name) {
                    let k = choose|k: int|
                        0 <= k < fields.len() && is_named(
                            #[trigger] fields[k],
                            field.qualifier,
                            field.name,
                        );
                    assert(is_named(fields[i], field.qualifier, field.name));
                    assert(0 <= k < fields.len() && is_named(
                        fields[k],
                        field.qualifier,
                        field.name,
                    ));
                    assert(k == i) by {
                        if k < i {
                            assert(!is_named(fields[k], fields[i].qualifier, fields[i].name));
                        }
                        if i < k {
                            assert(!is_named(fields[i], fields[k].qualifier, fields[k].name));
                        }
                    }
                }
            }
            assert(shown =~= fields);
        }
    }
    if policy.row_filters.len() > 0 {
        let whole = over(NodeModel::Filter(conjunction(policy.row_filters)), masked);
        assert(whole.inputs[0] == masked);
    }
}

/// **A masked column is replaced, and only a masked one.** Right over a scan with
/// masks stands a projection that yields the mask for each masked column and every
/// other column as it is; the row filters, where there are any, stand over it.
pub proof fn law_masked_columns_are_replaced(
    scan: PlanModel,
    fields: Seq<FieldModel>,
    policy: PolicyModel,
    i: int,
)
    requires
        0 <= i < fields.len(),
        policy.column_masks != Map::<Seq<char>, ExprModel>::empty(),
    ensures
        ({
            let whole = enforced(scan, fields, policy);
            let masked = if policy.row_filters.len() == 0 {
                whole
            } else {
                whole.inputs[0]
            };
            let item = masked.node->Projection_0[i];
            &&& policy.row_filters.len() > 0 ==> whole.node == NodeModel::Filter(
                conjunction(policy.row_filters),
            )
            &&& masked.node is Projection
            &&& masked.inputs == seq![scan]
            &&& if policy.column_masks.contains_key(fields[i].name) {
                item is Mask && item->mask == policy.column_masks[fields[i].name]
            } else {
                item is Keep
            }
        }),
{
}

/// **Governing neither drops nor adds a scan.** The scans of a governed plan are
/// those of the plan, in order.
pub proof fn law_governing_keeps_scans(
    plan: PlanModel,
    policies: Map<Seq<Seq<char>>, PolicyModel>,
)
    ensures
        scans_of(rewritten(plan, policies)) == scans_of(plan),
    decreases plan,
{
    let kept = PlanModel {
        node: plan.node,
        subqueries: rewritten_all(plan.subqueries, policies),
        inputs: rewritten_all(plan.inputs, policies),
    };
    lemma_all_keep_scans(plan.subqueries, policies);
    lemma_all_keep_scans(plan.inputs, policies);
    assert(scans_of(kept) == scans_of(plan));
    match plan.node {
        NodeModel::TableScan { table, fields } => {
            if policies.contains_key(table) {
                let policy = policies[table];
                let masked = if policy.column_masks == Map::<Seq<char>, ExprModel>::empty() {
                    kept
                } else {
                    over(NodeModel::Projection(projection(fields, policy.column_masks)), kept)
                };
                lemma_over_keeps_scans(
                    NodeModel::Projection(projection(fields, policy.column_masks)),
                    kept,
                );
                lemma_over_keeps_scans(
                    NodeModel::Filter(conjunction(policy.row_filters)),
                    masked,
                );
            }
        },
        _ => {},
    }
}

proof fn lemma_over_keeps_scans(node: NodeModel, input: PlanModel)
    requires
        !(node is TableScan),
    ensures
        scans_of(over(node, input)) == scans_of(input),
{
    let inputs = seq![input];
    assert(inputs.drop_last() =~= Seq::<PlanModel>::empty());
    assert(scans_of_all(inputs.drop_last()) =~= Seq::<ScanModel>::empty());
    assert(inputs.last() == input);
    assert(scans_of_all(inputs) =~= scans_of(input));
    assert(scans_of_all(Seq::empty()) =~= Seq::<ScanModel>::empty());
    assert(scans_of(over(node, input)) =~= scans_of(input));
}

proof fn lemma_all_keep_scans(plans: Seq<PlanModel>, policies: Map<Seq<Seq<char>>, PolicyModel>)
    ensures
        scans_of_all(rewritten_all(plans, policies)) == scans_of_all(plans),
    decreases plans,
{
    if plans.len() > 0 {
        lemma_all_keep_scans(plans.drop_last(), policies);
        law_governing_keeps_scans(plans.last(), policies);
        let before = rewritten_all(plans.drop_last(), policies);
        let last = rewritten(plans.last(), policies);
        assert(before.push(last).drop_last() =~= before);
        assert(before.push(last).last() == last);
    }
}

/// Whether `part` is `plan` or stands somewhere in it: in a subquery or under an
/// input.
pub open spec fn part_of(part: PlanModel, plan: PlanModel) -> bool
    decreases plan,
{
    part == plan || part_of_any(part, plan.subqueries) || part_of_any(part, plan.inputs)
}

/// Whether `part` stands in one of `plans`.
pub open spec fn part_of_any(part: PlanModel, plans: Seq<PlanModel>) -> bool
    decreases plans,
{
    plans.len() > 0 && (part_of_any(part, plans.drop_last()) || part_of(part, plans.last()))
}

/// The plan of a scan with what is inside and under it governed.
pub open spec fn governed_parts(
    plan: PlanModel,
    policies: Map<Seq<Seq<char>>, PolicyModel>,
) -> PlanModel {
    PlanModel {
        node: plan.node,
        subqueries: rewritten_all(plan.subqueries, policies),
        inputs: rewritten_all(plan.inputs, policies),
    }
}

/// **Every scan a plan reads is governed.** A scan anywhere in a plan, in a subquery
/// of an expression too, is among the scans that the engine is asked about, and
/// where its table has a policy it stands in the governed plan under that policy's
/// enforcement.
pub proof fn law_every_scan_is_governed(
    plan: PlanModel,
    scan: PlanModel,
    policies: Map<Seq<Seq<char>>, PolicyModel>,
)
    requires
        part_of(scan, plan),
        scan.node is TableScan,
    ensures
        scans_of(plan).contains(
            ScanModel { table: scan.node->TableScan_table, fields: scan.node->TableScan_fields },
        ),
        policies.contains_key(scan.node->TableScan_table) ==> part_of(
            enforced(
                governed_parts(scan, policies),
                scan.node->TableScan_fields,
                policies[scan.node->TableScan_table],
            ),
            rewritten(plan, policies),
        ),
{
    lemma_part_scanned(plan, scan);
    lemma_part_rewritten(plan, scan, policies);
}

proof fn lemma_part_scanned(plan: PlanModel, scan: PlanModel)
    requires
        part_of(scan, plan),
        scan.node is TableScan,
    ensures
        scans_of(plan).contains(
            ScanModel { table: scan.node->TableScan_table, fields: scan.node->TableScan_fields },
        ),
    decreases plan,
{
    let wanted = ScanModel {
        table: scan.node->TableScan_table,
        fields: scan.node->TableScan_fields,
    };
    let inside = scans_of_all(plan.subqueries);
    let under = scans_of_all(plan.inputs);
    let below = inside + under;
    if scan == plan {
        assert(scans_of(plan)[0] == wanted);
    } else {
        if part_of_any(scan, plan.subqueries) {
            lemma_any_part_scanned(plan.subqueries, scan);
            assert(below[inside.index_of(wanted)] == wanted);
        } else {
            lemma_any_part_scanned(plan.inputs, scan);
            assert(below[inside.len() + under.index_of(wanted)] == wanted);
        }
        let at = below.index_of(wanted);
        match plan.node {
            NodeModel::TableScan { table, fields } => {
                assert((seq![ScanModel { table, fields }] + below)[at + 1] == wanted);
            },
            _ => {},
        }
    }
}

proof fn lemma_any_part_scanned(plans: Seq<PlanModel>, scan: PlanModel)
    requires
        part_of_any(scan, plans),
        scan.node is TableScan,
    ensures
        scans_of_all(plans).contains(
            ScanModel { table: scan.node->TableScan_table, fields: scan.node->TableScan_fields },
        ),
    decreases plans,
{
    let wanted = ScanModel {
        table: scan.node->TableScan_table,
        fields: scan.node->TableScan_fields,
    };
    let before = scans_of_all(plans.drop_last());
    let last = scans_of(plans.last());
    if part_of_any(scan, plans.drop_last()) {
        lemma_any_part_scanned(plans.drop_last(), scan);
        assert((before + last)[before.index_of(wanted)] == wanted);
    } else {
        lemma_part_scanned(plans.last(), scan);
        assert((before + last)[before.len() + last.index_of(wanted)] == wanted);
    }
}

proof fn lemma_part_rewritten(
    plan: PlanModel,
    part: PlanModel,
    policies: Map<Seq<Seq<char>>, PolicyModel>,
)
    requires
        part_of(part, plan),
    ensures
        part_of(rewritten(part, policies), rewritten(plan, policies)),
    decreases plan,
{
    if part != plan {
        let kept = governed_parts(plan, policies);
        if part_of_any(part, plan.subqueries) {
            lemma_any_part_rewritten(plan.subqueries, part, policies);
        } else {
            lemma_any_part_rewritten(plan.inputs, part, policies);
        }
        match plan.node {
            NodeModel::TableScan { table, fields } => {
                if policies.contains_key(table) {
                    lemma_part_under_enforcement(
                        rewritten(part, policies),
                        kept,
                        fields,
                        policies[table],
                    );
                }
            },
            _ => {},
        }
    }
}

proof fn lemma_any_part_rewritten(
    plans: Seq<PlanModel>,
    part: PlanModel,
    policies: Map<Seq<Seq<char>>, PolicyModel>,
)
    requires
        part_of_any(part, plans),
    ensures
        part_of_any(rewritten(part, policies), rewritten_all(plans, policies)),
    decreases plans,
{
    let before = rewritten_all(plans.drop_last(), policies);
    let last = rewritten(plans.last(), policies);
    assert(before.push(last).drop_last() =~= before);
    assert(before.push(last).last() == last);
    if part_of_any(part, plans.drop_last()) {
        lemma_any_part_rewritten(plans.drop_last(), part, policies);
    } else {
        lemma_part_rewritten(plans.last(), part, policies);
    }
}

proof fn lemma_part_over(part: PlanModel, node: NodeModel, input: PlanModel)
    requires
        part_of(part, input),
    ensures
        part_of(part, over(node, input)),
{
    assert(seq![input].last() == input);
    assert(part_of_any(part, seq![input]));
}

proof fn lemma_part_under_enforcement(
    part: PlanModel,
    plan: PlanModel,
    fields: Seq<FieldModel>,
    policy: PolicyModel,
)
    requires
        part_of(part, plan),
    ensures
        part_of(part, enforced(plan, fields, policy)),
{
    let items = NodeModel::Projection(projection(fields, policy.column_masks));
    lemma_part_over(part, items, plan);
    let masked = if policy.column_masks == Map::<Seq<char>, ExprModel>::empty() {
        plan
    } else {
        over(items, plan)
    };
    lemma_part_over(part, NodeModel::Filter(conjunction(policy.row_filters)), masked);
}

/// How many nodes a plan has.
pub open spec fn size(plan: PlanModel) -> nat
    decreases plan,
{
    1 + size_all(plan.subqueries) + size_all(plan.inputs)
}

/// How many nodes a list of plans has.
pub open spec fn size_all(plans: Seq<PlanModel>) -> nat
    decreases plans,
{
    if plans.len() == 0 {
        0
    } else {
        size_all(plans.drop_last()) + size(plans.last())
    }
}

/// Whether every policy has something to enforce.
pub open spec fn all_constrain(policies: Map<Seq<Seq<char>>, PolicyModel>) -> bool {
    forall|table: Seq<Seq<char>>| #[trigger]
        policies.contains_key(table) ==> !policies[table].nothing()
}

/// **Only constraints change a plan, and each does.** Under policies that have
/// something to enforce, a plan is changed exactly where one of its scans is of a
/// table with a policy: what a dry run reports to be constrained is what enforcing
/// would change.
pub proof fn law_constraining_changes_the_plan(
    plan: PlanModel,
    policies: Map<Seq<Seq<char>>, PolicyModel>,
)
    requires
        all_constrain(policies),
    ensures
        constrained(plan, policies) <==> rewritten(plan, policies) != plan,
{
    if constrained(plan, policies) {
        lemma_grows(plan, policies);
    } else {
        law_ungoverned_plan_is_unchanged(plan, policies);
    }
}

proof fn lemma_over_size(node: NodeModel, input: PlanModel)
    ensures
        size(over(node, input)) == size(input) + 1,
{
    let inputs = seq![input];
    assert(inputs.drop_last() =~= Seq::<PlanModel>::empty());
    assert(inputs.last() == input);
    assert(size_all(inputs.drop_last()) == 0);
    assert(size_all(inputs) == size(input));
    assert(size_all(Seq::<PlanModel>::empty()) == 0);
}

proof fn lemma_grows(plan: PlanModel, policies: Map<Seq<Seq<char>>, PolicyModel>)
    requires
        all_constrain(policies),
    ensures
        size(rewritten(plan, policies)) >= size(plan),
        !untouched(scans_of(plan), policies) ==> size(rewritten(plan, policies)) > size(plan),
    decreases plan,
{
    let kept = governed_parts(plan, policies);
    let inside = scans_of_all(plan.subqueries);
    let under = scans_of_all(plan.inputs);
    lemma_all_grow(plan.subqueries, policies);
    lemma_all_grow(plan.inputs, policies);
    if untouched(inside, policies) && untouched(under, policies) {
        lemma_untouched_whole(inside, under, policies);
    }
    match plan.node {
        NodeModel::TableScan { table, fields } => {
            let own = seq![ScanModel { table, fields }];
            if policies.contains_key(table) {
                let policy = policies[table];
                let items = NodeModel::Projection(projection(fields, policy.column_masks));
                let masked = if policy.column_masks == Map::<Seq<char>, ExprModel>::empty() {
                    kept
                } else {
                    over(items, kept)
                };
                lemma_over_size(items, kept);
                lemma_over_size(NodeModel::Filter(conjunction(policy.row_filters)), masked);
            } else if untouched(inside + under, policies) {
                lemma_untouched_whole(own, inside + under, policies);
            }
        },
        _ => {},
    }
}

proof fn lemma_all_grow(plans: Seq<PlanModel>, policies: Map<Seq<Seq<char>>, PolicyModel>)
    requires
        all_constrain(policies),
    ensures
        size_all(rewritten_all(plans, policies)) >= size_all(plans),
        !untouched(scans_of_all(plans), policies) ==> size_all(rewritten_all(plans, policies))
            > size_all(plans),
    decreases plans,
{
    if plans.len() > 0 {
        let rest = plans.drop_last();
        lemma_all_grow(rest, policies);
        lemma_grows(plans.last(), policies);
        let before = rewritten_all(rest, policies);
        let last = rewritten(plans.last(), policies);
        assert(before.push(last).drop_last() =~= before);
        assert(before.push(last).last() == last);
        if untouched(scans_of_all(rest), policies) && untouched(scans_of(plans.last()), policies) {
            lemma_untouched_whole(scans_of_all(rest), scans_of(plans.last()), policies);
        }
    }
}

proof fn lemma_untouched_whole(
    left: Seq<ScanModel>,
    right: Seq<ScanModel>,
    policies: Map<Seq<Seq<char>>, PolicyModel>,
)
    requires
        untouched(left, policies),
        untouched(right, policies),
    ensures
        untouched(left + right, policies),
{
    assert forall|i: int| 0 <= i < (left + right).len() implies !policies.contains_key(
        (#[trigger] (left + right)[i]).table,
    ) by {
        if i < left.len() {
            assert((left + right)[i] == left[i]);
        } else {
            assert((left + right)[i] == right[i - left.len()]);
        }
    }
}

/// **What is gathered constrains.** Every policy that comes of the engine's replies
/// has something to enforce, and is the policy of a scanned table.
pub proof fn law_gathered_policies_constrain(
    scans: Seq<ScanModel>,
    replies: Seq<PolicyModel>,
    marked: Set<Seq<char>>,
    n: nat,
)
    requires
        n <= scans.len(),
    ensures
        all_constrain(gathered(scans, replies, marked, n)),
        forall|table: Seq<Seq<char>>| #[trigger]
            gathered(scans, replies, marked, n).contains_key(table) ==> exists|i: int|
                0 <= i < n && (#[trigger] scans[i]).table == table,
    decreases n,
{
    if n > 0 {
        law_gathered_policies_constrain(scans, replies, marked, (n - 1) as nat);
        let before = gathered(scans, replies, marked, (n - 1) as nat);
        let now = gathered(scans, replies, marked, n);
        assert forall|table: Seq<Seq<char>>| #[trigger] now.contains_key(table) implies exists|
            i: int,
        |
            0 <= i < n && (#[trigger] scans[i]).table == table by {
            if table == scans[n - 1].table {
            } else {
                assert(before.contains_key(table));
                let i = choose|i: int| 0 <= i < n - 1 && (#[trigger] scans[i]).table == table;
                assert(scans[i].table == table);
            }
        }
    }
}

/// **Row filters act together.** The predicate over a scan is true of exactly the
/// rows of which every row filter is true.
pub proof fn law_row_filters_are_conjunctive(filters: Seq<ExprModel>, row: Row)
    requires
        filters.len() > 0,
    ensures
        expr_value(conjunction(filters), row) == Some(Value::Boolean(true)) <==> forall|i: int|
            0 <= i < filters.len() ==> expr_value(#[trigger] filters[i], row) == Some(
                Value::Boolean(true),
            ),
    decreases filters.len(),
{
    let yes = Some(Value::Boolean(true));
    if filters.len() > 1 {
        let rest = filters.drop_last();
        law_row_filters_are_conjunctive(rest, row);
        assert(conjunction(filters) == binary_model(
            conjunction(rest),
            Operator::And,
            filters.last(),
        ));
        if expr_value(conjunction(filters), row) == yes {
            assert forall|i: int| 0 <= i < filters.len() implies expr_value(
                #[trigger] filters[i],
                row,
            ) == yes by {
                if i < rest.len() {
                    assert(rest[i] == filters[i]);
                }
            }
        } else if forall|i: int|
            0 <= i < filters.len() ==> expr_value(#[trigger] filters[i], row) == yes {
            assert forall|i: int| 0 <= i < rest.len() implies expr_value(#[trigger] rest[i], row)
                == yes by {
                assert(rest[i] == filters[i]);
            }
            assert(filters[filters.len() - 1] == filters.last());
        }
    } else {
        assert(conjunction(filters) == filters[0]);
    }
}

// ---------------------------------------------------------------------------
// What is classified
// ---------------------------------------------------------------------------

/// Whether `node` is a node of `plan`, of its subqueries or of its inputs.
pub open spec fn has_node(plan: PlanModel, node: NodeModel) -> bool
    decreases plan,
{
    plan.node == node || any_has_node(plan.subqueries, node) || any_has_node(plan.inputs, node)
}

/// Whether `node` is a node of one of `plans`.
pub open spec fn any_has_node(plans: Seq<PlanModel>, node: NodeModel) -> bool
    decreases plans,
{
    plans.len() > 0 && (any_has_node(plans.drop_last(), node) || has_node(plans.last(), node))
}

/// **Nothing access-relevant goes unseen.** The action of every node of a plan,
/// however deep and in a subquery or not, is among the plan's actions: every scan,
/// every write, every definition, and every statement that must be denied.
pub proof fn law_every_node_is_classified(plan: PlanModel, node: NodeModel)
    requires
        has_node(plan, node),
        node_action(node) is Some,
    ensures
        actions_of(plan).contains(node_action(node)->0),
    decreases plan,
{
    let action = node_action(node)->0;
    let inside = actions_of_all(plan.subqueries);
    let under = actions_of_all(plan.inputs);
    let below = inside + under;
    if plan.node == node {
        assert(actions_of(plan)[0] == action);
    } else {
        if any_has_node(plan.subqueries, node) {
            lemma_any_classified(plan.subqueries, node);
            assert(below[inside.index_of(action)] == action);
        } else {
            lemma_any_classified(plan.inputs, node);
            assert(below[inside.len() + under.index_of(action)] == action);
        }
        let at = below.index_of(action);
        match node_action(plan.node) {
            Some(own) => {
                assert((seq![own] + below)[at + 1] == action);
            },
            None => {},
        }
    }
}

proof fn lemma_any_classified(plans: Seq<PlanModel>, node: NodeModel)
    requires
        any_has_node(plans, node),
        node_action(node) is Some,
    ensures
        actions_of_all(plans).contains(node_action(node)->0),
    decreases plans,
{
    let action = node_action(node)->0;
    let before = actions_of_all(plans.drop_last());
    let last = actions_of(plans.last());
    if any_has_node(plans.drop_last(), node) {
        lemma_any_classified(plans.drop_last(), node);
        assert((before + last)[before.index_of(action)] == action);
    } else {
        law_every_node_is_classified(plans.last(), node);
        assert((before + last)[before.len() + last.index_of(action)] == action);
    }
}

} // verus!
