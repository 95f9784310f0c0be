//! Fine-grained governance: put row filters and column masks into a plan before
//! it is optimized.
//!
//! Governing a plan has two phases. The first goes through the plan's scans and
//! asks the policy engine for the [`TablePolicy`] of each table; the second wraps
//! every governed scan in a mask projection and a row filter. [`GovernRun`] is
//! the first phase as a sequence of questions and answers, for hosts that ask
//! their engine asynchronously.

use vstd::prelude::*;

use crate::expr::{binary, binary_model, models, Expr, ExprModel, Operator};
use crate::engine::PolicyEngine;
use crate::error::PolicyError;
use crate::fact_store::FactStore;
use crate::facts::{CatalogFactSink, EvalContext, TableFacts};
use crate::names::NameMap;
use crate::plan::{
    item_models, lemma_plan_view, plan_models, ItemModel, NodeModel, Plan, PlanModel, PlanNode,
    ProjectionItem,
};
use crate::plan_actions::column_names;
use crate::policy::{mask_models, PolicyModel, TablePolicy};
use crate::principal::PrincipalIdentity;
use crate::table::{
    clone_qualifier, dotted, field_models, field_names, Field, FieldModel, TableReference,
};

verus! {

// ---------------------------------------------------------------------------
// The enforcement shape
// ---------------------------------------------------------------------------

/// The conjunction of a list of predicates, from the left.
pub open spec fn conjunction(filters: Seq<ExprModel>) -> ExprModel
    recommends
        filters.len() > 0,
    decreases filters.len(),
{
    if filters.len() <= 1 {
        filters[0]
    } else {
        binary_model(conjunction(filters.drop_last()), Operator::And, filters.last())
    }
}

/// A column of the mask projection: its mask under its own qualified name and
/// cast to its own type, or the column as it is.
pub open spec fn projected(field: FieldModel, masks: Map<Seq<char>, ExprModel>) -> ItemModel {
    if masks.contains_key(field.name) {
        ItemModel::Mask {
            mask: masks[field.name],
            data_type: field.data_type,
            qualifier: field.qualifier,
            name: field.name,
        }
    } else {
        ItemModel::Keep { qualifier: field.qualifier, name: field.name }
    }
}

/// The mask projection over the columns `fields`.
pub open spec fn projection(fields: Seq<FieldModel>, masks: Map<Seq<char>, ExprModel>) -> Seq<
    ItemModel,
> {
    Seq::new(fields.len(), |i: int| projected(fields[i], masks))
}

/// The plan over one input.
pub open spec fn over(node: NodeModel, input: PlanModel) -> PlanModel {
    PlanModel { node, subqueries: Seq::empty(), inputs: seq![input] }
}

/// A plan under a table's enforcement: the mask projection where there are
/// masks, and above it the conjunction of the row filters where there are any.
pub open spec fn enforced(plan: PlanModel, fields: Seq<FieldModel>, policy: PolicyModel) -> PlanModel {
    let masked = if policy.column_masks == Map::<Seq<char>, ExprModel>::empty() {
        plan
    } else {
        over(NodeModel::Projection(projection(fields, policy.column_masks)), plan)
    };
    if policy.row_filters.len() == 0 {
        masked
    } else {
        over(NodeModel::Filter(conjunction(policy.row_filters)), masked)
    }
}

/// The mask projection over `fields`.
pub fn mask_projection(fields: &Vec<Field>, masks: &NameMap<Expr>) -> (r: Vec<ProjectionItem>)
    ensures
        item_models(r@) == projection(field_models(fields@), mask_models(masks@)),
{
    let mut items: Vec<ProjectionItem> = Vec::new();
    let mut i: usize = 0;
    while i < fields.len()
        invariant
            i <= fields@.len(),
            items@.len() == i,
            forall|j: int|
                0 <= j < i ==> (#[trigger] items@[j])@ == projected(
                    fields@[j]@,
                    mask_models(masks@),
                ),
        decreases fields@.len() - i,
    {
        let field = &fields[i];
        let item = match masks.get(field.name.as_str()) {
            Some(mask) => ProjectionItem::Mask {
                mask: mask.clone(),
                data_type: field.data_type.clone(),
                qualifier: clone_qualifier(&field.qualifier),
                name: field.name.clone(),
            },
            None => ProjectionItem::Keep {
                qualifier: clone_qualifier(&field.qualifier),
                name: field.name.clone(),
            },
        };
        items.push(item);
        i += 1;
    }
    assert(item_models(items@) =~= projection(field_models(fields@), mask_models(masks@)));
    items
}

/// The conjunction of the row filters, if there are any.
pub fn row_predicate(filters: &Vec<Expr>) -> (r: Option<Expr>)
    ensures
        match r {
            Some(e) => filters@.len() > 0 && e@ == conjunction(models(filters@)),
            None => filters@.len() == 0,
        },
{
    if filters.len() == 0 {
        return None;
    }
    let ghost all = models(filters@);
    let mut predicate = filters[0].clone();
    let mut i: usize = 1;
    proof {
        assert(all.take(1)[0] == all[0]);
    }
    while i < filters.len()
        invariant
            1 <= i <= filters@.len(),
            all == models(filters@),
            predicate@ == conjunction(all.take(i as int)),
        decreases filters@.len() - i,
    {
        proof {
            assert(all.take(i + 1).drop_last() =~= all.take(i as int));
            assert(all.take(i + 1).last() == filters@[i as int]@);
        }
        predicate = binary(predicate, Operator::And, filters[i].clone());
        i += 1;
    }
    assert(all.take(i as int) =~= all);
    Some(predicate)
}

/// A plan over one input.
fn plan_over(node: PlanNode, input: Plan) -> (r: Plan)
    ensures
        r@ == over(node@, input@),
{
    let mut inputs: Vec<Plan> = Vec::new();
    inputs.push(input);
    let r = Plan { node, subqueries: Vec::new(), inputs };
    proof {
        lemma_plan_view(r);
        assert(plan_models(r.subqueries@) =~= Seq::empty());
        assert(plan_models(r.inputs@) =~= seq![input@]);
    }
    r
}

/// Put a table's enforcement over the plan that reads it. `fields` are the
/// columns the plan yields, which the projection reproduces.
pub fn apply_table_policy(plan: Plan, fields: &Vec<Field>, policy: &TablePolicy) -> (r: Plan)
    ensures
        r@ == enforced(plan@, field_models(fields@), policy@),
{
    let mut r = plan;
    proof {
        crate::policy::lemma_masks_empty(policy.column_masks@);
    }
    if !policy.column_masks.is_empty() {
        r = plan_over(PlanNode::Projection(mask_projection(fields, &policy.column_masks)), r);
    }
    match row_predicate(&policy.row_filters) {
        Some(predicate) => plan_over(PlanNode::Filter(predicate), r),
        None => r,
    }
}

// ---------------------------------------------------------------------------
// Scans
// ---------------------------------------------------------------------------

/// A scan of a table, with the columns it reads.
#[derive(Debug)]
pub struct Scan {
    pub table: TableReference,
    pub fields: Vec<Field>,
}

/// The mathematical model of a [`Scan`].
#[verifier::ext_equal]
pub struct ScanModel {
    pub table: Seq<Seq<char>>,
    pub fields: Seq<FieldModel>,
}

impl View for Scan {
    type V = ScanModel;

    open spec fn view(&self) -> ScanModel {
        ScanModel { table: self.table@, fields: field_models(self.fields@) }
    }
}

/// The models of a list of scans.
pub open spec fn scan_models(scans: Seq<Scan>) -> Seq<ScanModel> {
    Seq::new(scans.len(), |i: int| scans[i]@)
}

/// The scans of a plan: its own node's, then those of its subqueries and of its
/// inputs.
pub open spec fn scans_of(plan: PlanModel) -> Seq<ScanModel>
    decreases plan,
{
    let below = scans_of_all(plan.subqueries) + scans_of_all(plan.inputs);
    match plan.node {
        NodeModel::TableScan { table, fields } => seq![ScanModel { table, fields }] + below,
        _ => below,
    }
}

/// The scans of a list of plans, in order.
pub open spec fn scans_of_all(plans: Seq<PlanModel>) -> Seq<ScanModel>
    decreases plans,
{
    if plans.len() == 0 {
        Seq::empty()
    } else {
        scans_of_all(plans.drop_last()) + scans_of(plans.last())
    }
}

/// A copy of a list of fields.
fn clone_fields(fields: &Vec<Field>) -> (r: Vec<Field>)
    ensures
        field_models(r@) == field_models(fields@),
{
    let mut copied: Vec<Field> = Vec::new();
    let mut i: usize = 0;
    while i < fields.len()
        invariant
            i <= fields@.len(),
            copied@.len() == i,
            forall|j: int| 0 <= j < i ==> (#[trigger] copied@[j])@ == fields@[j]@,
        decreases fields@.len() - i,
    {
        copied.push(fields[i].clone());
        i += 1;
    }
    assert(field_models(copied@) =~= field_models(fields@));
    copied
}

/// Append the scans of `plan` to `scans`.
fn collect_scans(plan: &Plan, scans: &mut Vec<Scan>)
    ensures
        scan_models(final(scans)@) == scan_models(old(scans)@) + scans_of(plan@),
    decreases plan,
{
    let ghost start = scan_models(scans@);
    proof {
        lemma_plan_view(*plan);
    }
    match &plan.node {
        PlanNode::TableScan { table, fields } => {
            let scan = Scan { table: table.clone(), fields: clone_fields(fields) };
            scans.push(scan);
            assert(scan_models(scans@) =~= start + seq![scan@]);
        },
        _ => {
            assert(scan_models(scans@) =~= start + Seq::<ScanModel>::empty());
        },
    }
    collect_all(&plan.subqueries, scans);
    collect_all(&plan.inputs, scans);
    assert(scan_models(scans@) =~= start + scans_of(plan@));
}

/// Append the scans of each of `plans` to `scans`.
fn collect_all(plans: &Vec<Plan>, scans: &mut Vec<Scan>)
    ensures
        scan_models(final(scans)@) == scan_models(old(scans)@) + scans_of_all(plan_models(plans@)),
    decreases plans,
{
    let ghost own = scan_models(scans@);
    let ghost all = plan_models(plans@);
    let mut i: usize = 0;
    assert(own =~= own + scans_of_all(all.take(0)));
    while i < plans.len()
        invariant
            i <= plans@.len(),
            all == plan_models(plans@),
            scan_models(scans@) == own + scans_of_all(all.take(i as int)),
        decreases plans@.len() - i,
    {
        assert(decreases_to!(plans => plans@[i as int]));
        collect_scans(&plans[i], scans);
        proof {
            assert(all.take(i + 1).drop_last() =~= all.take(i as int));
            assert(all.take(i + 1).last() == plans@[i as int]@);
            assert(scan_models(scans@) =~= own + scans_of_all(all.take(i + 1)));
        }
        i += 1;
    }
    assert(all.take(i as int) =~= all);
}

/// The scans of `plan`.
pub fn table_scans(plan: &Plan) -> (r: Vec<Scan>)
    ensures
        scan_models(r@) == scans_of(plan@),
{
    let mut scans: Vec<Scan> = Vec::new();
    collect_scans(plan, &mut scans);
    assert(scan_models(Seq::<Scan>::empty()) =~= Seq::<ScanModel>::empty());
    assert(scan_models(scans@) =~= scans_of(plan@));
    scans
}

// ---------------------------------------------------------------------------
// Policies by table
// ---------------------------------------------------------------------------

/// The policies of the governed tables.
#[derive(Debug)]
pub struct TablePolicies {
    entries: Vec<(TableReference, TablePolicy)>,
}

/// The policies of a list of entries, the later entries over the earlier.
pub open spec fn entry_policies(entries: Seq<(TableReference, TablePolicy)>) -> Map<
    Seq<Seq<char>>,
    PolicyModel,
>
    decreases entries.len(),
{
    if entries.len() == 0 {
        Map::empty()
    } else {
        entry_policies(entries.drop_last()).insert(entries.last().0@, entries.last().1@)
    }
}

impl View for TablePolicies {
    type V = Map<Seq<Seq<char>>, PolicyModel>;

    closed spec fn view(&self) -> Map<Seq<Seq<char>>, PolicyModel> {
        entry_policies(self.entries@)
    }
}

impl TablePolicies {
    /// No policies.
    pub fn new() -> (r: Self)
        ensures
            r@ == Map::<Seq<Seq<char>>, PolicyModel>::empty(),
    {
        TablePolicies { entries: Vec::new() }
    }

    /// The policy of `table`, if it has one.
    pub fn get(&self, table: &TableReference) -> (r: Option<&TablePolicy>)
        ensures
            match r {
                Some(policy) => self@.contains_key(table@) && self@[table@] == policy@,
                None => !self@.contains_key(table@),
            },
    {
        let mut n: usize = self.entries.len();
        assert(self.entries@.take(n as int) =~= self.entries@);
        while n > 0
            invariant
                n <= self.entries@.len(),
                ({
                    let rest = entry_policies(self.entries@.take(n as int));
                    self@.contains_key(table@) == rest.contains_key(table@) && (
                    rest.contains_key(table@) ==> self@[table@] == rest[table@])
                }),
            decreases n,
        {
            proof {
                let now = self.entries@.take(n as int);
                assert(now.drop_last() =~= self.entries@.take(n - 1));
                assert(now.last() == self.entries@[n - 1]);
            }
            if self.entries[n - 1].0.same(table) {
                return Some(&self.entries[n - 1].1);
            }
            n -= 1;
        }
        None
    }

    /// Set the policy of `table`.
    pub fn insert(&mut self, table: TableReference, policy: TablePolicy)
        ensures
            final(self)@ == old(self)@.insert(table@, policy@),
    {
        self.entries.push((table, policy));
        proof {
            assert(self.entries@.drop_last() =~= old(self).entries@);
        }
    }

    /// Whether no table has a policy.
    pub fn is_empty(&self) -> (r: bool)
        ensures
            r == (self@ == Map::<Seq<Seq<char>>, PolicyModel>::empty()),
    {
        proof {
            if self.entries@.len() > 0 {
                assert(self@.contains_key(self.entries@.last().0@));
            }
        }
        self.entries.len() == 0
    }
}

// ---------------------------------------------------------------------------
// The first phase
// ---------------------------------------------------------------------------

/// Whether the engine is asked about the scan of `table`: the table has no
/// policy yet, and no secured view enforces its constraints already.
pub open spec fn asks(
    policies: Map<Seq<Seq<char>>, PolicyModel>,
    governed: Set<Seq<char>>,
    table: Seq<Seq<char>>,
) -> bool {
    !policies.contains_key(table) && !governed.contains(dotted(table))
}

/// The policies after the first `n` scans, where `replies[i]` is the engine's
/// reply about scan `i` (and of no account where it is not asked).
pub open spec fn gathered(
    scans: Seq<ScanModel>,
    replies: Seq<PolicyModel>,
    governed: Set<Seq<char>>,
    n: nat,
) -> Map<Seq<Seq<char>>, PolicyModel>
    decreases n,
{
    if n == 0 {
        Map::empty()
    } else {
        let before = gathered(scans, replies, governed, (n - 1) as nat);
        let table = scans[n - 1].table;
        if asks(before, governed, table) && !replies[n - 1].nothing() {
            before.insert(table, replies[n - 1])
        } else {
            before
        }
    }
}

/// The first phase of governing a plan, between two questions to the engine.
#[derive(Debug)]
pub struct GovernRun {
    scans: Vec<Scan>,
    next: usize,
    policies: TablePolicies,
}

impl GovernRun {
    /// The plan's scans.
    pub closed spec fn scans(&self) -> Seq<ScanModel> {
        scan_models(self.scans@)
    }

    /// How many scans are dealt with.
    pub closed spec fn position(&self) -> nat {
        self.next as nat
    }

    /// The policies gathered so far.
    pub closed spec fn policies(&self) -> Map<Seq<Seq<char>>, PolicyModel> {
        self.policies@
    }

    #[verifier::type_invariant]
    spec fn in_range(self) -> bool {
        self.next <= self.scans@.len()
    }

    /// Start on a plan.
    pub fn new(plan: &Plan) -> (r: Self)
        ensures
            r.scans() == scans_of(plan@),
            r.position() == 0,
            r.policies() == Map::<Seq<Seq<char>>, PolicyModel>::empty(),
    {
        GovernRun { scans: table_scans(plan), next: 0, policies: TablePolicies::new() }
    }

    /// The scan to ask the engine about next, and `None` where there is none.
    /// Scans that need no question are passed over.
    pub fn question(&mut self, facts: &CatalogFactSink) -> (r: Option<usize>)
        ensures
            final(self).scans() == old(self).scans(),
            final(self).policies() == old(self).policies(),
            old(self).position() <= final(self).position() <= final(self).scans().len(),
            forall|i: int|
                old(self).position() <= i < final(self).position() ==> !asks(
                    old(self).policies(),
                    facts.governed(),
                    (#[trigger] old(self).scans()[i]).table,
                ),
            match r {
                Some(i) => i == final(self).position() && i < final(self).scans().len() && asks(
                    final(self).policies(),
                    facts.governed(),
                    final(self).scans()[i as int].table,
                ),
                None => final(self).position() == final(self).scans().len(),
            },
    {
        proof {
            use_type_invariant(&*self);
        }
        while self.next < self.scans.len()
            invariant
                self.scans == old(self).scans,
                self.policies == old(self).policies,
                old(self).next <= self.next <= self.scans@.len(),
                forall|i: int|
                    old(self).position() <= i < self.next ==> !asks(
                        old(self).policies(),
                        facts.governed(),
                        (#[trigger] old(self).scans()[i]).table,
                    ),
            decreases self.scans@.len() - self.next,
        {
            let table = &self.scans[self.next].table;
            assert(old(self).scans()[self.next as int].table == table@);
            if self.policies.get(table).is_none() && !facts.is_governed(table) {
                return Some(self.next);
            }
            self.next = self.next + 1;
        }
        None
    }

    /// The scan at position `i`.
    pub fn scan(&self, i: usize) -> (r: &Scan)
        requires
            i < self.scans().len(),
        ensures
            r@ == self.scans()[i as int],
    {
        &self.scans[i]
    }

    /// The number of scans.
    pub fn count(&self) -> (r: usize)
        ensures
            r == self.scans().len(),
    {
        self.scans.len()
    }

    /// Take the engine's reply about the scan in question.
    pub fn answer(&mut self, reply: TablePolicy)
        requires
            old(self).position() < old(self).scans().len(),
        ensures
            final(self).scans() == old(self).scans(),
            final(self).position() == old(self).position() + 1,
            final(self).policies() == if reply@.nothing() {
                old(self).policies()
            } else {
                old(self).policies().insert(
                    old(self).scans()[old(self).position() as int].table,
                    reply@,
                )
            },
    {
        proof {
            use_type_invariant(&*self);
        }
        let count: usize = self.scans.len();
        assert(self.next < count);
        let table = self.scans[self.next].table.clone();
        self.next = self.next + 1;
        if !reply.is_empty() {
            let mut policies = TablePolicies::new();
            std::mem::swap(&mut policies, &mut self.policies);
            policies.insert(table, reply);
            self.policies = policies;
        }
    }

    /// The policies gathered.
    pub fn finish(self) -> (r: TablePolicies)
        ensures
            r@ == self.policies(),
    {
        self.policies
    }
}

// ---------------------------------------------------------------------------
// The second phase
// ---------------------------------------------------------------------------

/// A plan in which every scan of a table with a policy is under its enforcement,
/// those in subqueries too.
pub open spec fn rewritten(plan: PlanModel, policies: Map<Seq<Seq<char>>, PolicyModel>) -> PlanModel
    decreases plan,
{
    let kept = PlanModel {
        node: plan.node,
        subqueries: rewritten_all(plan.subqueries, policies),
        inputs: rewritten_all(plan.inputs, policies),
    };
    match plan.node {
        NodeModel::TableScan { table, fields } => if policies.contains_key(table) {
            enforced(kept, fields, policies[table])
        } else {
            kept
        },
        _ => kept,
    }
}

/// The same of a list of plans.
pub open spec fn rewritten_all(
    plans: Seq<PlanModel>,
    policies: Map<Seq<Seq<char>>, PolicyModel>,
) -> Seq<PlanModel>
    decreases plans,
{
    if plans.len() == 0 {
        Seq::empty()
    } else {
        rewritten_all(plans.drop_last(), policies).push(rewritten(plans.last(), policies))
    }
}

/// Whether some scan of the plan is of a table with a policy.
pub open spec fn constrained(plan: PlanModel, policies: Map<Seq<Seq<char>>, PolicyModel>) -> bool {
    exists|i: int|
        0 <= i < scans_of(plan).len() && policies.contains_key((#[trigger] scans_of(plan)[i]).table)
}

/// Put every scan of a table with a policy under its enforcement.
pub fn rewrite(plan: Plan, policies: &TablePolicies) -> (r: Plan)
    ensures
        r@ == rewritten(plan@, policies@),
    decreases plan,
{
    proof {
        lemma_plan_view(plan);
    }
    let kept = Plan {
        node: plan.node,
        subqueries: rewrite_all(plan.subqueries, policies),
        inputs: rewrite_all(plan.inputs, policies),
    };
    proof {
        lemma_plan_view(kept);
    }
    let columns = match &kept.node {
        PlanNode::TableScan { table, fields } => match policies.get(table) {
            Some(policy) => Some((clone_fields(fields), policy)),
            None => None,
        },
        _ => None,
    };
    match columns {
        Some((columns, policy)) => apply_table_policy(kept, &columns, policy),
        None => kept,
    }
}

/// The same of a list of plans.
fn rewrite_all(plans: Vec<Plan>, policies: &TablePolicies) -> (r: Vec<Plan>)
    ensures
        plan_models(r@) == rewritten_all(plan_models(plans@), policies@),
    decreases plans,
{
    let ghost all = plans@;
    let ghost below = plan_models(all);
    let mut rest: Vec<Plan> = plans;
    let mut done: Vec<Plan> = Vec::new();
    let ghost mut i: int = 0;
    proof {
        assert(plan_models(done@) =~= rewritten_all(below.take(0), policies@));
        assert(rest@ =~= all.skip(0));
    }
    while rest.len() > 0
        invariant
            0 <= i <= all.len(),
            rest@ == all.skip(i),
            all == plans@,
            below == plan_models(all),
            plan_models(done@) == rewritten_all(below.take(i), policies@),
        decreases rest@.len(),
    {
        let ghost before = done@;
        let plan = rest.remove(0);
        proof {
            assert(plan == all[i]);
            assert(decreases_to!(plans => plans@[i]));
        }
        let governed = rewrite(plan, policies);
        done.push(governed);
        proof {
            assert(below.take(i + 1).drop_last() =~= below.take(i));
            assert(below.take(i + 1).last() == all[i]@);
            assert(plan_models(done@) =~= plan_models(before).push(governed@));
            assert(rest@ =~= all.skip(i + 1));
            i = i + 1;
        }
    }
    assert(below.take(i) =~= below);
    done
}

// ---------------------------------------------------------------------------
// Taints
// ---------------------------------------------------------------------------

/// The classifications that a scan meets, by the facts known of its table.
pub open spec fn scan_taints(facts: Map<Seq<char>, TableFacts>, scan: ScanModel) -> Set<Seq<char>> {
    let columns = Seq::new(scan.fields.len(), |i: int| scan.fields[i].name);
    if facts.contains_key(dotted(scan.table)) {
        Set::new(|tag: Seq<char>| facts[dotted(scan.table)].tainted_by(columns, tag))
    } else {
        Set::empty()
    }
}

/// The classifications that the first `n` scans meet.
pub open spec fn taints_of(
    facts: Map<Seq<char>, TableFacts>,
    scans: Seq<ScanModel>,
    n: nat,
) -> Set<Seq<char>>
    decreases n,
{
    if n == 0 {
        Set::empty()
    } else {
        taints_of(facts, scans, (n - 1) as nat).union(scan_taints(facts, scans[n - 1]))
    }
}

/// The taints a store holds of a session; none where there is no store.
pub open spec fn stored<S: FactStore>(store: Option<S>, session: Seq<char>) -> Set<Seq<char>> {
    match store {
        Some(s) => s.taints(session),
        None => Set::empty(),
    }
}

/// The taints of a session after `taints` were recorded for the session that
/// `eval` names: added to that session's, where there is a store.
pub open spec fn with_taints<S: FactStore>(
    before: Option<S>,
    eval: EvalContext,
    session: Seq<char>,
    taints: Set<Seq<char>>,
) -> Set<Seq<char>> {
    match eval.correlation_id {
        Some(id) => if before is Some && id@ == session {
            stored(before, session).union(taints)
        } else {
            stored(before, session)
        },
        None => stored(before, session),
    }
}

/// Record the classifications of the columns a scan reads. Does nothing unless
/// there is a session and a store.
pub fn record_taints<S: FactStore>(scan: &Scan, eval: &EvalContext, store: &mut Option<S>)
    ensures
        (*final(store) is Some) == (*old(store) is Some),
        forall|session: Seq<char>| #[trigger]
            stored(*final(store), session) == with_taints(
                *old(store),
                *eval,
                session,
                scan_taints(eval.catalog_facts.facts(), scan@),
            ),
{
    let ghost start = *store;
    let ghost met = scan_taints(eval.catalog_facts.facts(), scan@);
    let id = match &eval.correlation_id {
        Some(id) => id,
        None => return,
    };
    let facts = match eval.catalog_facts.get(&scan.table) {
        Some(facts) => facts,
        None => {
            proof {
                assert forall|session: Seq<char>| #[trigger] stored(start, session) == with_taints(
                    start,
                    *eval,
                    session,
                    met,
                ) by {
                    assert(stored(start, session).union(met) =~= stored(start, session));
                }
            }
            return ;
        },
    };
    let accessed = column_names(&scan.fields);
    let taints = facts.taints_for_columns(&accessed);
    proof {
        assert(Seq::new(scan@.fields.len(), |i: int| scan@.fields[i].name) =~= field_names(
            scan.fields@,
        ));
        assert(taints@ =~= met);
    }
    match store {
        Some(s) => {
            s.record_taints(id.as_str(), &taints);
        },
        None => {},
    }
    proof {
        assert forall|session: Seq<char>| #[trigger] stored(*store, session) == with_taints(
            start,
            *eval,
            session,
            met,
        ) by {
            if start is Some {
                if id@ == session {
                } else {
                    assert(store->0.taints(session) == start->0.taints(session));
                }
            }
        }
    }
}

// ---------------------------------------------------------------------------
// Both phases
// ---------------------------------------------------------------------------

/// Replies behind the first `n` are of no account to the first `n` scans.
proof fn lemma_gathered_prefix(
    scans: Seq<ScanModel>,
    one: Seq<PolicyModel>,
    other: Seq<PolicyModel>,
    governed: Set<Seq<char>>,
    n: nat,
)
    requires
        forall|i: int| 0 <= i < n ==> one[i] == #[trigger] other[i],
    ensures
        gathered(scans, one, governed, n) == gathered(scans, other, governed, n),
    decreases n,
{
    if n > 0 {
        lemma_gathered_prefix(scans, one, other, governed, (n - 1) as nat);
        assert(one[n - 1] == other[n - 1]);
    }
}

/// Scans the engine is not asked about add no policy.
proof fn lemma_gathered_skips(
    scans: Seq<ScanModel>,
    replies: Seq<PolicyModel>,
    governed: Set<Seq<char>>,
    n: nat,
    m: nat,
)
    requires
        n <= m <= scans.len(),
        forall|i: int|
            n <= i < m ==> !asks(
                gathered(scans, replies, governed, n),
                governed,
                (#[trigger] scans[i]).table,
            ),
    ensures
        gathered(scans, replies, governed, m) == gathered(scans, replies, governed, n),
    decreases m - n,
{
    if n < m {
        lemma_gathered_skips(scans, replies, governed, n, (m - 1) as nat);
        assert(!asks(gathered(scans, replies, governed, n), governed, scans[m - 1].table));
    }
}

/// What a plan becomes for given replies of the engine.
pub open spec fn governed_with(
    plan: PlanModel,
    marked: Set<Seq<char>>,
    replies: Seq<PolicyModel>,
) -> PlanModel {
    let scans = scans_of(plan);
    rewritten(plan, gathered(scans, replies, marked, scans.len()))
}

/// Whether the engine is asked about scan `i`, given its replies about the scans
/// before.
pub open spec fn asked_about(
    plan: PlanModel,
    marked: Set<Seq<char>>,
    replies: Seq<PolicyModel>,
    i: int,
) -> bool {
    let scans = scans_of(plan);
    asks(gathered(scans, replies, marked, i as nat), marked, scans[i].table)
}

/// Whether `reply` may be what the engine replies about `scan`.
pub open spec fn may_reply<E: PolicyEngine>(
    engine: E,
    scan: ScanModel,
    principal: PrincipalIdentity,
    eval: EvalContext,
    reply: PolicyModel,
) -> bool {
    exists|policy: TablePolicy| #[trigger]
        engine.may_constrain(scan.table, scan.fields, principal, eval, Ok(policy)) && policy@
            == reply
}

/// Whether `replies` are the engine's, one for each scan it is asked about.
pub open spec fn replied<E: PolicyEngine>(
    engine: E,
    plan: PlanModel,
    principal: PrincipalIdentity,
    eval: EvalContext,
    replies: Seq<PolicyModel>,
) -> bool {
    let marked = eval.catalog_facts.governed();
    let scans = scans_of(plan);
    &&& replies.len() == scans.len()
    &&& forall|i: int|
        0 <= i < scans.len() && asked_about(plan, marked, replies, i) ==> may_reply(
            engine,
            scans[i],
            principal,
            eval,
            #[trigger] replies[i],
        )
}

/// Whether `governed` is what a plan becomes for the engine's replies.
pub open spec fn governed_by<E: PolicyEngine>(
    engine: E,
    plan: PlanModel,
    principal: PrincipalIdentity,
    eval: EvalContext,
    governed: PlanModel,
) -> bool {
    exists|replies: Seq<PolicyModel>| #[trigger]
        replied(engine, plan, principal, eval, replies) && governed == governed_with(
            plan,
            eval.catalog_facts.governed(),
            replies,
        )
}

/// Whether `e` is what the engine fails with on scan `i`, which no secured view
/// enforces.
pub open spec fn fails_at<E: PolicyEngine>(
    engine: E,
    plan: PlanModel,
    principal: PrincipalIdentity,
    eval: EvalContext,
    i: int,
    e: PolicyError,
) -> bool {
    let scan = scans_of(plan)[i];
    &&& 0 <= i < scans_of(plan).len()
    &&& !eval.catalog_facts.governed().contains(dotted(scan.table))
    &&& engine.may_constrain(scan.table, scan.fields, principal, eval, Err(e))
}

/// Whether a store holds what it held before and the taints of the first `n` scans.
pub open spec fn tainted_up_to<S: FactStore>(
    before: Option<S>,
    after: Option<S>,
    eval: EvalContext,
    plan: PlanModel,
    n: nat,
) -> bool {
    forall|session: Seq<char>| #[trigger]
        stored(after, session) == with_taints(
            before,
            eval,
            session,
            taints_of(eval.catalog_facts.facts(), scans_of(plan), n),
        )
}

/// Govern a plan with an engine that answers at once.
///
/// Each scan's taints are recorded, whether or not its table is governed. An
/// error of the engine is the outcome: the query fails rather than run
/// ungoverned.
pub fn govern_plan<E: PolicyEngine, S: FactStore>(
    plan: Plan,
    policy: &E,
    principal: &PrincipalIdentity,
    eval: &EvalContext,
    store: &mut Option<S>,
) -> (r: Result<Plan, PolicyError>)
    ensures
        match r {
            Ok(governed) => governed_by(*policy, plan@, *principal, *eval, governed@)
                && tainted_up_to(
                *old(store),
                *final(store),
                *eval,
                plan@,
                scans_of(plan@).len(),
            ),
            Err(e) => exists|i: int| #[trigger]
                fails_at(*policy, plan@, *principal, *eval, i, e) && tainted_up_to(
                    *old(store),
                    *final(store),
                    *eval,
                    plan@,
                    (i + 1) as nat,
                ),
        },
        (*final(store) is Some) == (*old(store) is Some),
{
    let ghost start = *store;
    let ghost facts = eval.catalog_facts.facts();
    let ghost marked = eval.catalog_facts.governed();
    let ghost scans = scans_of(plan@);
    let ghost mut replies: Seq<PolicyModel> = Seq::empty();
    let mut run = GovernRun::new(&plan);
    let mut recorded: usize = 0;
    proof {
        assert forall|session: Seq<char>| #[trigger] stored(*store, session) == with_taints(
            start,
            *eval,
            session,
            taints_of(facts, scans, 0),
        ) by {
            assert(stored(start, session).union(Set::<Seq<char>>::empty()) =~= stored(
                start,
                session,
            ));
        }
    }
    loop
        invariant_except_break
            run.scans() == scans,
            scans == scans_of(plan@),
            start == *old(store),
            recorded == run.position(),
            run.position() <= scans.len(),
            replies.len() == run.position(),
            run.policies() == gathered(scans, replies, marked, run.position()),
            forall|i: int|
                0 <= i < replies.len() && asked_about(plan@, marked, replies, i) ==> may_reply(
                    *policy,
                    scans[i],
                    *principal,
                    *eval,
                    #[trigger] replies[i],
                ),
            marked == eval.catalog_facts.governed(),
            facts == eval.catalog_facts.facts(),
            (*store is Some) == (start is Some),
            forall|session: Seq<char>| #[trigger]
                stored(*store, session) == with_taints(
                    start,
                    *eval,
                    session,
                    taints_of(facts, scans, recorded as nat),
                ),
        ensures
            replies.len() == scans.len(),
            run.policies() == gathered(scans, replies, marked, scans.len()),
            forall|i: int|
                0 <= i < replies.len() && asked_about(plan@, marked, replies, i) ==> may_reply(
                    *policy,
                    scans[i],
                    *principal,
                    *eval,
                    #[trigger] replies[i],
                ),
            (*store is Some) == (start is Some),
            forall|session: Seq<char>| #[trigger]
                stored(*store, session) == with_taints(
                    start,
                    *eval,
                    session,
                    taints_of(facts, scans, scans.len()),
                ),
        decreases scans.len() - run.position(),
    {
        let ghost before = run;
        let asked = run.question(&eval.catalog_facts);
        let count: usize = run.count();
        let upto: usize = match asked {
            Some(i) => i + 1,
            None => count,
        };
        proof {
            let filler = Seq::new(
                (run.position() - before.position()) as nat,
                |i: int| arbitrary::<PolicyModel>(),
            );
            let longer = replies + filler;
            lemma_gathered_prefix(scans, replies, longer, marked, before.position());
            lemma_gathered_skips(scans, longer, marked, before.position(), run.position());
            assert forall|i: int|
                0 <= i < longer.len() && asked_about(plan@, marked, longer, i) implies may_reply(
                *policy,
                scans[i],
                *principal,
                *eval,
                #[trigger] longer[i],
            ) by {
                if i < replies.len() {
                    lemma_gathered_prefix(scans, replies, longer, marked, i as nat);
                    assert(asked_about(plan@, marked, replies, i));
                    assert(longer[i] == replies[i]);
                } else {
                    lemma_gathered_skips(scans, longer, marked, before.position(), i as nat);
                }
            }
            replies = longer;
        }
        while recorded < upto
            invariant
                recorded <= upto <= scans.len(),
                run.scans() == scans,
                facts == eval.catalog_facts.facts(),
                (*store is Some) == (start is Some),
                forall|session: Seq<char>| #[trigger]
                    stored(*store, session) == with_taints(
                        start,
                        *eval,
                        session,
                        taints_of(facts, scans, recorded as nat),
                    ),
            decreases upto - recorded,
        {
            let ghost mid = *store;
            record_taints(run.scan(recorded), eval, store);
            proof {
                let now = taints_of(facts, scans, (recorded + 1) as nat);
                let was = taints_of(facts, scans, recorded as nat);
                let here = scan_taints(facts, scans[recorded as int]);
                assert forall|session: Seq<char>| #[trigger] stored(*store, session) == with_taints(
                    start,
                    *eval,
                    session,
                    now,
                ) by {
                    assert(stored(mid, session) == with_taints(start, *eval, session, was));
                    assert(stored(start, session).union(was).union(here) =~= stored(
                        start,
                        session,
                    ).union(now));
                }
            }
            recorded += 1;
        }
        match asked {
            None => {
                break ;
            },
            Some(i) => {
                let scan = run.scan(i);
                let reply = match policy.constrain(&scan.table, &scan.fields, principal, eval) {
                    Ok(reply) => reply,
                    Err(e) => {
                        proof {
                            assert(scans_of(plan@)[i as int] == scan@);
                            assert(fails_at(*policy, plan@, *principal, *eval, i as int, e));
                            assert(tainted_up_to(start, *store, *eval, plan@, (i + 1) as nat));
                        }
                        return Err(e);
                    },
                };
                let ghost given = reply@;
                proof {
                    assert(scans[i as int] == scan@);
                    assert(policy.may_constrain(
                        scan@.table,
                        scan@.fields,
                        *principal,
                        *eval,
                        Ok(reply),
                    ));
                    assert(may_reply(*policy, scans[i as int], *principal, *eval, given));
                }
                run.answer(reply);
                proof {
                    let longer = replies.push(given);
                    lemma_gathered_prefix(scans, replies, longer, marked, i as nat);
                    assert(longer[i as int] == given);
                    assert forall|j: int|
                        0 <= j < longer.len() && asked_about(
                            plan@,
                            marked,
                            longer,
                            j,
                        ) implies may_reply(
                        *policy,
                        scans[j],
                        *principal,
                        *eval,
                        #[trigger] longer[j],
                    ) by {
                        if j < replies.len() {
                            lemma_gathered_prefix(scans, replies, longer, marked, j as nat);
                            assert(asked_about(plan@, marked, replies, j));
                            assert(longer[j] == replies[j]);
                        }
                    }
                    replies = longer;
                }
            },
        }
    }
    let policies = run.finish();
    let governed = rewrite(plan, &policies);
    proof {
        assert(replied(*policy, plan@, *principal, *eval, replies));
        assert(governed@ == governed_with(plan@, marked, replies));
        assert(tainted_up_to(start, *store, *eval, plan@, scans.len()));
    }
    Ok(governed)
}

} // verus!
