//! Which residuals have a row predicate, which predicate that is, and why the others
//! have none.

use cedar_policy::Policy;
use vstd::prelude::*;

use crate::expr::{Expr, ExprModel, Operator, Value};
use crate::outside::conditions_of;
use crate::residual::{ClauseModel, EntityModel, PatternElem, ResidualModel, ResidualOp};
use crate::translate::{
    clauses_translated, denotes_resource, outcome, policy_predicate, predicate_of, row_operator,
    sql_pattern, translated, FaultModel, ResidualError,
};

verus! {

// ---------------------------------------------------------------------------
// The grammar
// ---------------------------------------------------------------------------

/// Whether a node is the resource: the variable, the unknown called `resource`, or the
/// literal of the given entity.
pub open spec fn is_resource(node: ResidualModel, resource: Option<EntityModel>) -> bool {
    ||| node is Resource
    ||| node is Unknown && node->Unknown_0 == "resource"@
    ||| node is Entity && resource is Some && node->Entity_0.entity_type == resource->0.entity_type
        && node->Entity_0.id == resource->0.id
}

/// The residuals that are row predicates: boolean, integer and string literals,
/// attributes of the resource, and whatever negation, `like`, the boolean combinators
/// and the comparisons make of these.
pub open spec fn in_grammar(node: ResidualModel, resource: Option<EntityModel>) -> bool
    decreases node,
{
    match node {
        ResidualModel::Bool(_) | ResidualModel::Long(_) | ResidualModel::Text(_) => true,
        ResidualModel::GetAttr(base, _) => is_resource(*base, resource),
        ResidualModel::Not(inner) => in_grammar(*inner, resource),
        ResidualModel::Like(inner, _) => in_grammar(*inner, resource),
        ResidualModel::Binary(op, left, right) => op != ResidualOp::Other && in_grammar(
            *left,
            resource,
        ) && in_grammar(*right, resource),
        _ => false,
    }
}

/// **The resource is known by its variable, its unknown and its uid.**
pub proof fn law_the_resource_is_known(node: ResidualModel, resource: Option<EntityModel>)
    ensures
        denotes_resource(node, resource) <==> is_resource(node, resource),
{
    if node is Entity && resource is Some {
        assert((node->Entity_0 == resource->0) == (node->Entity_0.entity_type
            == resource->0.entity_type && node->Entity_0.id == resource->0.id)) by {
            if node->Entity_0.entity_type == resource->0.entity_type && node->Entity_0.id
                == resource->0.id {
                assert(node->Entity_0 =~= resource->0);
            }
        }
    }
}

/// **The whole grammar is translated, and nothing else.** A residual has a row predicate
/// exactly where it is in the grammar.
pub proof fn law_the_whole_grammar_is_translated(
    node: ResidualModel,
    resource: Option<EntityModel>,
)
    ensures
        translated(node, resource) is Ok <==> in_grammar(node, resource),
    decreases node,
{
    match node {
        ResidualModel::GetAttr(base, _) => {
            law_the_resource_is_known(*base, resource);
        },
        ResidualModel::Not(inner) => {
            law_the_whole_grammar_is_translated(*inner, resource);
        },
        ResidualModel::Like(inner, _) => {
            law_the_whole_grammar_is_translated(*inner, resource);
        },
        ResidualModel::Binary(op, left, right) => {
            law_the_whole_grammar_is_translated(*left, resource);
            law_the_whole_grammar_is_translated(*right, resource);
        },
        _ => {},
    }
}

/// **A negation is translated exactly where what it negates is**, to the negation of its
/// predicate; a fault below it is handed on.
pub proof fn law_negations_are_translated(
    inner: ResidualModel,
    resource: Option<EntityModel>,
)
    ensures
        translated(ResidualModel::Not(Box::new(inner)), resource) is Ok <==> translated(
            inner,
            resource,
        ) is Ok,
        translated(inner, resource) is Ok ==> translated(
            ResidualModel::Not(Box::new(inner)),
            resource,
        ) == Ok::<ExprModel, FaultModel>(
            ExprModel::Not(Box::new(translated(inner, resource)->Ok_0)),
        ),
        translated(inner, resource) is Err ==> translated(
            ResidualModel::Not(Box::new(inner)),
            resource,
        ) == translated(inner, resource),
{
}

/// **A `like` is translated exactly where its operand is**, to `LIKE` on the operand's
/// predicate with the pattern's SQL text; a fault below it is handed on.
pub proof fn law_likes_are_translated(
    inner: ResidualModel,
    pattern: Seq<PatternElem>,
    resource: Option<EntityModel>,
)
    ensures
        translated(inner, resource) is Ok ==> translated(
            ResidualModel::Like(Box::new(inner), pattern),
            resource,
        ) == Ok::<ExprModel, FaultModel>(
            ExprModel::Like(Box::new(translated(inner, resource)->Ok_0), sql_pattern(pattern)),
        ),
        translated(inner, resource) is Err ==> translated(
            ResidualModel::Like(Box::new(inner), pattern),
            resource,
        ) == translated(inner, resource),
{
}

/// **Literals and attributes stand for themselves.**
pub proof fn law_leaves_stand_for_themselves(
    b: bool,
    n: int,
    text: Seq<char>,
    base: ResidualModel,
    resource: Option<EntityModel>,
)
    ensures
        translated(ResidualModel::Bool(b), resource) == Ok::<ExprModel, FaultModel>(
            ExprModel::Literal(Value::Boolean(b)),
        ),
        translated(ResidualModel::Long(n), resource) == Ok::<ExprModel, FaultModel>(
            ExprModel::Literal(Value::Int64(n)),
        ),
        translated(ResidualModel::Text(text), resource) == Ok::<ExprModel, FaultModel>(
            ExprModel::Literal(Value::Utf8(text)),
        ),
        is_resource(base, resource) ==> translated(
            ResidualModel::GetAttr(Box::new(base), text),
            resource,
        ) == Ok::<ExprModel, FaultModel>(ExprModel::Column(text)),
{
    law_the_resource_is_known(base, resource);
}

/// **Every other node is a fault of its own kind.**
pub proof fn law_each_fault_is_told(
    entity: EntityModel,
    base: ResidualModel,
    name: Seq<char>,
    left: ResidualModel,
    right: ResidualModel,
    resource: Option<EntityModel>,
)
    ensures
        translated(ResidualModel::Entity(entity), resource) == Err::<ExprModel, FaultModel>(
            FaultModel::EntityLiteral,
        ),
        translated(ResidualModel::OtherLiteral, resource) == Err::<ExprModel, FaultModel>(
            FaultModel::UnsupportedLiteral,
        ),
        translated(ResidualModel::OtherUnary, resource) == Err::<ExprModel, FaultModel>(
            FaultModel::UnsupportedUnary,
        ),
        translated(
            ResidualModel::Binary(ResidualOp::Other, Box::new(left), Box::new(right)),
            resource,
        ) == Err::<ExprModel, FaultModel>(FaultModel::UnsupportedBinary),
        translated(ResidualModel::Resource, resource) == Err::<ExprModel, FaultModel>(
            FaultModel::UnsupportedExpression,
        ),
        translated(ResidualModel::Unknown(name), resource) == Err::<ExprModel, FaultModel>(
            FaultModel::UnsupportedExpression,
        ),
        translated(ResidualModel::Other, resource) == Err::<ExprModel, FaultModel>(
            FaultModel::UnsupportedExpression,
        ),
        !is_resource(base, resource) ==> translated(
            ResidualModel::GetAttr(Box::new(base), name),
            resource,
        ) == Err::<ExprModel, FaultModel>(FaultModel::NonResourceAttribute(name)),
{
    law_the_resource_is_known(base, resource);
}

/// **An operation is translated operand by operand.** Where both operands have a
/// predicate the whole has one: the same operator on both, but for a conjunction, from
/// which an operand that is `true` drops out. Else the fault is the left operand's, or
/// the right one's where the left has none.
pub proof fn law_operations_are_translated(
    op: ResidualOp,
    left: ResidualModel,
    right: ResidualModel,
    resource: Option<EntityModel>,
)
    requires
        op != ResidualOp::Other,
    ensures
        ({
            let whole = translated(
                ResidualModel::Binary(op, Box::new(left), Box::new(right)),
                resource,
            );
            let l = translated(left, resource);
            let r = translated(right, resource);
            let yes = ResidualModel::Bool(true);
            &&& l is Err ==> whole == l
            &&& l is Ok && r is Err ==> whole == r
            &&& l is Ok && r is Ok && op == ResidualOp::And && left == yes ==> whole == r
            &&& l is Ok && r is Ok && op == ResidualOp::And && left != yes && right == yes
                ==> whole == l
            &&& l is Ok && r is Ok && (op != ResidualOp::And || (left != yes && right != yes)) ==> {
                &&& whole is Ok
                &&& whole->Ok_0 is Binary
                &&& *whole->Ok_0->Binary_0 == l->Ok_0
                &&& *whole->Ok_0->Binary_2 == r->Ok_0
                &&& match op {
                    ResidualOp::And => whole->Ok_0->Binary_1 == Operator::And,
                    ResidualOp::Or => whole->Ok_0->Binary_1 == Operator::Or,
                    ResidualOp::Eq => whole->Ok_0->Binary_1 == Operator::Eq,
                    ResidualOp::NotEq => whole->Ok_0->Binary_1 == Operator::NotEq,
                    ResidualOp::Less => whole->Ok_0->Binary_1 == Operator::Lt,
                    ResidualOp::LessEq => whole->Ok_0->Binary_1 == Operator::LtEq,
                    ResidualOp::Greater => whole->Ok_0->Binary_1 == Operator::Gt,
                    ResidualOp::GreaterEq => whole->Ok_0->Binary_1 == Operator::GtEq,
                    ResidualOp::Other => true,
                }
            }
        }),
{
}

/// **Only an operator without a row form has none.**
pub proof fn law_operators_have_row_forms(op: ResidualOp)
    ensures
        row_operator(op) is None <==> op == ResidualOp::Other,
{
}

/// **Patterns are written out element by element.** A wildcard is `%`; a character is
/// itself, behind a `\` where SQL would read it otherwise.
pub proof fn law_patterns_are_written_out(
    one: Seq<PatternElem>,
    other: Seq<PatternElem>,
    c: char,
)
    ensures
        sql_pattern(Seq::empty()) == Seq::<char>::empty(),
        sql_pattern(one + other) == sql_pattern(one) + sql_pattern(other),
        sql_pattern(seq![PatternElem::Wildcard]) == seq!['%'],
        c == '%' || c == '_' || c == '\\' ==> sql_pattern(seq![PatternElem::Char(c)]) == seq![
            '\\',
            c,
        ],
        c != '%' && c != '_' && c != '\\' ==> sql_pattern(seq![PatternElem::Char(c)]) == seq![c],
    decreases other.len(),
{
    let wild = seq![PatternElem::Wildcard];
    let single = seq![PatternElem::Char(c)];
    assert(wild.drop_last() =~= Seq::<PatternElem>::empty());
    assert(single.drop_last() =~= Seq::<PatternElem>::empty());
    assert(wild.last() == PatternElem::Wildcard);
    assert(single.last() == PatternElem::Char(c));
    assert(sql_pattern(Seq::empty()) =~= Seq::<char>::empty());
    if other.len() == 0 {
        assert(one + other =~= one);
        assert(sql_pattern(one) + sql_pattern(other) =~= sql_pattern(one));
    } else {
        law_patterns_are_written_out(one, other.drop_last(), c);
        assert((one + other).drop_last() =~= one + other.drop_last());
        assert((one + other).last() == other.last());
        assert(sql_pattern(one + other) =~= sql_pattern(one) + sql_pattern(other));
    }
}

// ---------------------------------------------------------------------------
// Clauses
// ---------------------------------------------------------------------------

/// Whether a clause from index `i` on is `unless { true }`.
pub open spec fn shut_from(clauses: Seq<ClauseModel>, i: int) -> bool {
    exists|j: int|
        i <= j < clauses.len() && (#[trigger] clauses[j]).unless && clauses[j].condition
            == ResidualModel::Bool(true)
}

proof fn lemma_one_clause_more(
    clauses: Seq<ClauseModel>,
    clause: ClauseModel,
    i: nat,
    acc: Option<ExprModel>,
    resource: Option<EntityModel>,
)
    requires
        i <= clauses.len(),
    ensures
        ({
            let before = clauses_translated(clauses, i, acc, resource);
            let after = clauses_translated(clauses.push(clause), i, acc, resource);
            &&& before is Err ==> after == before
            &&& before is Ok && shut_from(clauses, i as int) ==> after == before && before
                == Ok::<Option<ExprModel>, FaultModel>(
                Some(ExprModel::Literal(Value::Boolean(false))),
            )
            &&& before is Ok && !shut_from(clauses, i as int) ==> after == clauses_translated(
                clauses.push(clause),
                clauses.len(),
                before->Ok_0,
                resource,
            )
        }),
    decreases clauses.len() - i,
{
    if i < clauses.len() {
        let here = clauses[i as int];
        let more = clauses.push(clause);
        assert(more[i as int] == here);
        let shut_here = here.unless && here.condition == ResidualModel::Bool(true);
        assert(shut_from(clauses, i as int) == (shut_here || shut_from(clauses, (i + 1) as int))) by {
            if shut_here {
                assert(clauses[i as int].unless);
            }
        }
        if here.condition == ResidualModel::Bool(true) {
            if !here.unless {
                lemma_one_clause_more(clauses, clause, i + 1, acc, resource);
            }
        } else if translated(here.condition, resource) is Ok {
            let e = translated(here.condition, resource)->Ok_0;
            lemma_one_clause_more(
                clauses,
                clause,
                i + 1,
                Some(crate::translate::also(acc, here.unless, e)),
                resource,
            );
        }
    } else {
        assert(!shut_from(clauses, i as int));
    }
}

/// **Each clause adds its own condition.** `when { c }` adds the predicate of `c` by
/// `AND`, and `unless { c }` its negation. `when { true }` adds nothing, and
/// `unless { true }` leaves no row, whatever follows it. A clause whose condition has no
/// predicate is the fault, unless an earlier one was or no row is left already.
pub proof fn law_each_clause_adds_its_condition(
    clauses: Seq<ClauseModel>,
    clause: ClauseModel,
    resource: Option<EntityModel>,
)
    ensures
        ({
            let before = predicate_of(clauses, resource);
            let after = predicate_of(clauses.push(clause), resource);
            let own = translated(clause.condition, resource);
            let plain = clause.condition != ResidualModel::Bool(true);
            let conjunct = if clause.unless {
                ExprModel::Not(Box::new(own->Ok_0))
            } else {
                own->Ok_0
            };
            &&& before is Err ==> after == before
            &&& before is Ok && shut_from(clauses, 0) ==> after == before && before == Ok::<
                Option<ExprModel>,
                FaultModel,
            >(Some(ExprModel::Literal(Value::Boolean(false))))
            &&& before is Ok && !shut_from(clauses, 0) ==> {
                &&& !plain && clause.unless ==> after == Ok::<Option<ExprModel>, FaultModel>(
                    Some(ExprModel::Literal(Value::Boolean(false))),
                )
                &&& !plain && !clause.unless ==> after == before
                &&& plain && own is Err ==> after == Err::<Option<ExprModel>, FaultModel>(
                    own->Err_0,
                )
                &&& plain && own is Ok && before->Ok_0 is None ==> after == Ok::<
                    Option<ExprModel>,
                    FaultModel,
                >(Some(conjunct))
                &&& plain && own is Ok && before->Ok_0 is Some ==> after == Ok::<
                    Option<ExprModel>,
                    FaultModel,
                >(
                    Some(
                        ExprModel::Binary(
                            Box::new(before->Ok_0->0),
                            Operator::And,
                            Box::new(conjunct),
                        ),
                    ),
                )
            }
        }),
{
    lemma_one_clause_more(clauses, clause, 0, None, resource);
    if predicate_of(clauses, resource) is Ok && !shut_from(clauses, 0) {
        let more = clauses.push(clause);
        assert(more[clauses.len() as int] == clause);
        reveal_with_fuel(clauses_translated, 2);
    }
}

/// **No clause, no restriction.**
pub proof fn law_no_clause_no_restriction(resource: Option<EntityModel>)
    ensures
        predicate_of(Seq::empty(), resource) == Ok::<Option<ExprModel>, FaultModel>(None),
{
}

/// **Clauses in the grammar have a predicate.** Where every condition is in the grammar
/// the clauses are read without fault, and they restrict nothing exactly where each of
/// them is `when { true }`.
pub proof fn law_clauses_in_the_grammar_are_translated(
    clauses: Seq<ClauseModel>,
    resource: Option<EntityModel>,
)
    requires
        forall|j: int|
            0 <= j < clauses.len() ==> in_grammar((#[trigger] clauses[j]).condition, resource),
    ensures
        predicate_of(clauses, resource) is Ok,
        predicate_of(clauses, resource)->Ok_0 is None <==> forall|j: int|
            0 <= j < clauses.len() ==> !(#[trigger] clauses[j]).unless && clauses[j].condition
                == ResidualModel::Bool(true),
    decreases clauses.len(),
{
    if clauses.len() > 0 {
        let rest = clauses.drop_last();
        let clause = clauses.last();
        assert(rest.push(clause) =~= clauses);
        assert forall|j: int| 0 <= j < rest.len() implies in_grammar(
            (#[trigger] rest[j]).condition,
            resource,
        ) by {
            assert(rest[j] == clauses[j]);
        }
        law_clauses_in_the_grammar_are_translated(rest, resource);
        assert(clauses[clauses.len() - 1] == clause);
        law_the_whole_grammar_is_translated(clause.condition, resource);
        law_each_clause_adds_its_condition(rest, clause, resource);
        let free = forall|j: int|
            0 <= j < rest.len() ==> !(#[trigger] rest[j]).unless && rest[j].condition
                == ResidualModel::Bool(true);
        let all_free = forall|j: int|
            0 <= j < clauses.len() ==> !(#[trigger] clauses[j]).unless && clauses[j].condition
                == ResidualModel::Bool(true);
        let own_free = !clause.unless && clause.condition == ResidualModel::Bool(true);
        assert(all_free == (free && own_free)) by {
            if all_free {
                assert forall|j: int| 0 <= j < rest.len() implies !(#[trigger] rest[j]).unless
                    && rest[j].condition == ResidualModel::Bool(true) by {
                    assert(rest[j] == clauses[j]);
                }
            }
            if free && own_free {
                assert forall|j: int| 0 <= j < clauses.len() implies !(
                #[trigger] clauses[j]).unless && clauses[j].condition == ResidualModel::Bool(
                    true,
                ) by {
                    if j < rest.len() {
                        assert(rest[j] == clauses[j]);
                    }
                }
            }
        }
        if free {
            assert(!shut_from(rest, 0));
        }
    }
}

/// **A policy is read by its clauses**, and one whose clauses cannot be read has no
/// predicate.
pub proof fn law_policies_are_read_by_their_clauses(
    policy: Policy,
    resource: Option<EntityModel>,
)
    ensures
        match conditions_of(policy) {
            Some(clauses) => policy_predicate(policy, resource) == predicate_of(clauses, resource),
            None => policy_predicate(policy, resource) == Err::<Option<ExprModel>, FaultModel>(
                FaultModel::Unreadable,
            ),
        },
{
}

/// **A result stands for itself.** Different outcomes are told apart: a predicate from no
/// predicate, and each error from every other.
pub proof fn law_outcomes_are_told_apart(
    r: Result<Option<Expr>, ResidualError>,
    text: String,
)
    ensures
        r is Ok && r->Ok_0 is Some ==> outcome(r) == Ok::<Option<ExprModel>, FaultModel>(
            Some(r->Ok_0->0@),
        ),
        r is Ok && r->Ok_0 is None ==> outcome(r) == Ok::<Option<ExprModel>, FaultModel>(None),
        r is Err ==> outcome(r) == Err::<Option<ExprModel>, FaultModel>(r->Err_0@),
        ResidualError::Unreadable(text)@ == FaultModel::Unreadable,
        ResidualError::NonResourceAttribute(text)@ == FaultModel::NonResourceAttribute(text@),
        ResidualError::UnsupportedUnary@ == FaultModel::UnsupportedUnary,
        ResidualError::UnsupportedBinary@ == FaultModel::UnsupportedBinary,
        ResidualError::EntityLiteral@ == FaultModel::EntityLiteral,
        ResidualError::UnsupportedLiteral@ == FaultModel::UnsupportedLiteral,
        ResidualError::UnsupportedExpression@ == FaultModel::UnsupportedExpression,
{
}

} // verus!
