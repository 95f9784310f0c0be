//! What residuals and row predicates mean, and that translation keeps it.
//!
//! A row assigns values to column names, and the same row is the attribute
//! record of the resource. A residual has a value where its evaluation meets no
//! error; a predicate has a value where the three-valued logic of SQL does not
//! leave it unknown.

use vstd::prelude::*;

use crate::expr::{ExprModel, Operator, Value};
use crate::residual::{ClauseModel, EntityModel, PatternElem, ResidualModel, ResidualOp};
use crate::translate::{
    also, clauses_translated, denotes_resource, predicate_of, sql_elem, sql_pattern, translated,
};

verus! {

/// The values of a row's columns.
pub type Row = Map<Seq<char>, Value>;

/// Whether `text` matches a residual's `like` pattern.
pub open spec fn wildcard_match(pattern: Seq<PatternElem>, text: Seq<char>) -> bool
    decreases pattern.len() + text.len(),
{
    if pattern.len() == 0 {
        text.len() == 0
    } else {
        match pattern[0] {
            PatternElem::Wildcard => wildcard_match(pattern.drop_first(), text) || (text.len() > 0
                && wildcard_match(pattern, text.drop_first())),
            PatternElem::Char(c) => text.len() > 0 && text[0] == c && wildcard_match(
                pattern.drop_first(),
                text.drop_first(),
            ),
        }
    }
}

/// Whether `text` matches an SQL `LIKE` pattern whose escape character is `\`.
pub open spec fn like_match(pattern: Seq<char>, text: Seq<char>) -> bool
    decreases pattern.len() + text.len(),
{
    if pattern.len() == 0 {
        text.len() == 0
    } else if pattern[0] == '%' {
        like_match(pattern.drop_first(), text) || (text.len() > 0 && like_match(
            pattern,
            text.drop_first(),
        ))
    } else if pattern[0] == '_' {
        text.len() > 0 && like_match(pattern.drop_first(), text.drop_first())
    } else if pattern[0] == '\\' && pattern.len() > 1 {
        text.len() > 0 && text[0] == pattern[1] && like_match(
            pattern.skip(2),
            text.drop_first(),
        )
    } else {
        text.len() > 0 && text[0] == pattern[0] && like_match(
            pattern.drop_first(),
            text.drop_first(),
        )
    }
}

/// Whether two values are of one kind, and so can be compared.
pub open spec fn same_kind(a: Value, b: Value) -> bool {
    match (a, b) {
        (Value::Utf8(_), Value::Utf8(_)) => true,
        (Value::Int64(_), Value::Int64(_)) => true,
        (Value::Boolean(_), Value::Boolean(_)) => true,
        _ => false,
    }
}

/// The value of an equality or an order comparison.
pub open spec fn compared(op: Operator, a: Option<Value>, b: Option<Value>) -> Option<Value> {
    match (a, b) {
        (Some(x), Some(y)) => match (op, x, y) {
            (Operator::Eq, _, _) => if same_kind(x, y) {
                Some(Value::Boolean(x == y))
            } else {
                None
            },
            (Operator::NotEq, _, _) => if same_kind(x, y) {
                Some(Value::Boolean(x != y))
            } else {
                None
            },
            (Operator::Lt, Value::Int64(m), Value::Int64(n)) => Some(Value::Boolean(m < n)),
            (Operator::LtEq, Value::Int64(m), Value::Int64(n)) => Some(Value::Boolean(m <= n)),
            (Operator::Gt, Value::Int64(m), Value::Int64(n)) => Some(Value::Boolean(m > n)),
            (Operator::GtEq, Value::Int64(m), Value::Int64(n)) => Some(Value::Boolean(m >= n)),
            _ => None,
        },
        _ => None,
    }
}

/// The negation of a boolean value.
pub open spec fn negated(v: Option<Value>) -> Option<Value> {
    match v {
        Some(Value::Boolean(b)) => Some(Value::Boolean(!b)),
        _ => None,
    }
}

/// The value of a residual: `&&` and `||` read their right operand only where
/// the left one does not decide.
pub open spec fn residual_value(
    node: ResidualModel,
    resource: Option<EntityModel>,
    row: Row,
) -> Option<Value>
    decreases node,
{
    match node {
        ResidualModel::Bool(b) => Some(Value::Boolean(b)),
        ResidualModel::Long(n) => Some(Value::Int64(n)),
        ResidualModel::Text(s) => Some(Value::Utf8(s)),
        ResidualModel::GetAttr(base, attr) => if denotes_resource(*base, resource)
            && row.contains_key(attr) {
            Some(row[attr])
        } else {
            None
        },
        ResidualModel::Not(inner) => negated(residual_value(*inner, resource, row)),
        ResidualModel::Binary(op, left, right) => {
            let l = residual_value(*left, resource, row);
            let r = residual_value(*right, resource, row);
            match op {
                ResidualOp::And => match (l, r) {
                    (Some(Value::Boolean(false)), _) => l,
                    (Some(Value::Boolean(true)), Some(Value::Boolean(_))) => r,
                    _ => None,
                },
                ResidualOp::Or => match (l, r) {
                    (Some(Value::Boolean(true)), _) => l,
                    (Some(Value::Boolean(false)), Some(Value::Boolean(_))) => r,
                    _ => None,
                },
                ResidualOp::Eq => compared(Operator::Eq, l, r),
                ResidualOp::NotEq => compared(Operator::NotEq, l, r),
                ResidualOp::Less => compared(Operator::Lt, l, r),
                ResidualOp::LessEq => compared(Operator::LtEq, l, r),
                ResidualOp::Greater => compared(Operator::Gt, l, r),
                ResidualOp::GreaterEq => compared(Operator::GtEq, l, r),
                ResidualOp::Other => None,
            }
        },
        ResidualModel::Like(inner, pattern) => match residual_value(*inner, resource, row) {
            Some(Value::Utf8(s)) => Some(Value::Boolean(wildcard_match(pattern, s))),
            _ => None,
        },
        _ => None,
    }
}

/// The value of a row predicate; `None` is SQL's unknown. `AND` is false where
/// either operand is, `OR` is true where either operand is. The value of a
/// catalog function's call is the catalog's business, and unknown here.
pub open spec fn expr_value(e: ExprModel, row: Row) -> Option<Value>
    decreases e,
{
    match e {
        ExprModel::Column(name) => if row.contains_key(name) {
            Some(row[name])
        } else {
            None
        },
        ExprModel::Literal(value) => Some(value),
        ExprModel::Not(inner) => negated(expr_value(*inner, row)),
        ExprModel::Binary(left, op, right) => {
            let l = expr_value(*left, row);
            let r = expr_value(*right, row);
            let no = Some(Value::Boolean(false));
            let yes = Some(Value::Boolean(true));
            match op {
                Operator::And => if l == no || r == no {
                    no
                } else if l == yes && r == yes {
                    yes
                } else {
                    None
                },
                Operator::Or => if l == yes || r == yes {
                    yes
                } else if l == no && r == no {
                    no
                } else {
                    None
                },
                _ => compared(op, l, r),
            }
        },
        ExprModel::Like(inner, pattern) => match expr_value(*inner, row) {
            Some(Value::Utf8(s)) => Some(Value::Boolean(like_match(pattern, s))),
            _ => None,
        },
        ExprModel::Call(_, _) => None,
    }
}

/// A pattern's SQL text starts with the text of its first element.
proof fn lemma_sql_pattern_front(pattern: Seq<PatternElem>)
    requires
        pattern.len() > 0,
    ensures
        sql_pattern(pattern) == sql_elem(pattern[0]) + sql_pattern(pattern.drop_first()),
    decreases pattern.len(),
{
    if pattern.len() == 1 {
        assert(pattern.drop_last() =~= Seq::<PatternElem>::empty());
        assert(pattern.drop_first() =~= Seq::<PatternElem>::empty());
        assert(sql_pattern(pattern.drop_last()) =~= Seq::<char>::empty());
        assert(sql_pattern(pattern) =~= sql_elem(pattern[0]) + sql_pattern(pattern.drop_first()));
    } else {
        lemma_sql_pattern_front(pattern.drop_last());
        assert(pattern.drop_last().drop_first() =~= pattern.drop_first().drop_last());
        assert(pattern.drop_first().last() == pattern.last());
        assert(sql_pattern(pattern) =~= sql_elem(pattern[0]) + sql_pattern(pattern.drop_first()));
    }
}

/// **Patterns keep their meaning.** A text matches a residual's `like` pattern
/// exactly where it matches the SQL `LIKE` pattern written for it: no literal
/// character of the residual turns into an SQL metacharacter.
pub proof fn law_like_keeps_meaning(pattern: Seq<PatternElem>, text: Seq<char>)
    ensures
        like_match(sql_pattern(pattern), text) == wildcard_match(pattern, text),
    decreases pattern.len() + text.len(),
{
    let sql = sql_pattern(pattern);
    if pattern.len() > 0 {
        let rest = sql_pattern(pattern.drop_first());
        lemma_sql_pattern_front(pattern);
        match pattern[0] {
            PatternElem::Wildcard => {
                assert(sql[0] == '%');
                assert(sql.drop_first() =~= rest);
                law_like_keeps_meaning(pattern.drop_first(), text);
                if text.len() > 0 {
                    law_like_keeps_meaning(pattern, text.drop_first());
                }
            },
            PatternElem::Char(c) => {
                if text.len() > 0 {
                    law_like_keeps_meaning(pattern.drop_first(), text.drop_first());
                }
                if c == '%' || c == '_' || c == '\\' {
                    assert(sql[0] == '\\' && sql[1] == c);
                    assert(sql.skip(2) =~= rest);
                } else {
                    assert(sql[0] == c);
                    assert(sql.drop_first() =~= rest);
                }
            },
        }
    }
}

/// **Translation keeps the meaning of a condition.** Where a residual has a row
/// predicate, the predicate has the residual's value on every row on which the
/// residual evaluates without error.
pub proof fn law_translation_keeps_meaning(
    node: ResidualModel,
    resource: Option<EntityModel>,
    row: Row,
)
    requires
        translated(node, resource) is Ok,
        residual_value(node, resource, row) is Some,
    ensures
        expr_value(translated(node, resource)->Ok_0, row) == residual_value(node, resource, row),
    decreases node,
{
    match node {
        ResidualModel::Not(inner) => {
            law_translation_keeps_meaning(*inner, resource, row);
        },
        ResidualModel::Binary(op, left, right) => {
            law_translation_keeps_meaning(*left, resource, row);
            if residual_value(*right, resource, row) is Some {
                law_translation_keeps_meaning(*right, resource, row);
            }
        },
        ResidualModel::Like(inner, pattern) => {
            law_translation_keeps_meaning(*inner, resource, row);
            if let Some(Value::Utf8(s)) = residual_value(*inner, resource, row) {
                law_like_keeps_meaning(pattern, s);
            }
        },
        _ => {},
    }
}

/// Whether every clause from index `i` on evaluates to a boolean.
pub open spec fn evaluates_from(
    clauses: Seq<ClauseModel>,
    i: nat,
    resource: Option<EntityModel>,
    row: Row,
) -> bool {
    forall|j: int|
        i <= j < clauses.len() ==> match residual_value(
            (#[trigger] clauses[j]).condition,
            resource,
            row,
        ) {
            Some(Value::Boolean(_)) => true,
            _ => false,
        }
}

/// Whether the clauses from index `i` on are satisfied: every `when` condition
/// is true, and every `unless` condition is false.
pub open spec fn satisfied_from(
    clauses: Seq<ClauseModel>,
    i: nat,
    resource: Option<EntityModel>,
    row: Row,
) -> bool {
    forall|j: int|
        i <= j < clauses.len() ==> residual_value((#[trigger] clauses[j]).condition, resource, row)
            == Some(Value::Boolean(!clauses[j].unless))
}

proof fn lemma_clauses_keep_meaning(
    clauses: Seq<ClauseModel>,
    i: nat,
    acc: Option<ExprModel>,
    resource: Option<EntityModel>,
    row: Row,
    so_far: bool,
)
    requires
        evaluates_from(clauses, i, resource, row),
        clauses_translated(clauses, i, acc, resource) is Ok,
        match acc {
            Some(e) => expr_value(e, row) == Some(Value::Boolean(so_far)),
            None => so_far,
        },
    ensures
        match clauses_translated(clauses, i, acc, resource)->Ok_0 {
            Some(e) => expr_value(e, row) == Some(
                Value::Boolean(so_far && satisfied_from(clauses, i, resource, row)),
            ),
            None => so_far && satisfied_from(clauses, i, resource, row),
        },
    decreases clauses.len() - i,
{
    if i < clauses.len() {
        let clause = clauses[i as int];
        let value = residual_value(clause.condition, resource, row);
        let own = value == Some(Value::Boolean(!clause.unless));
        assert(satisfied_from(clauses, i, resource, row) == (own && satisfied_from(
            clauses,
            i + 1,
            resource,
            row,
        ))) by {
            if own && satisfied_from(clauses, i + 1, resource, row) {
                assert forall|j: int| i <= j < clauses.len() implies residual_value(
                    (#[trigger] clauses[j]).condition,
                    resource,
                    row,
                ) == Some(Value::Boolean(!clauses[j].unless)) by {
                    if j > i {
                    }
                }
            }
        }
        if clause.condition == ResidualModel::Bool(true) {
            if !clause.unless {
                lemma_clauses_keep_meaning(clauses, i + 1, acc, resource, row, so_far);
            }
        } else {
            law_translation_keeps_meaning(clause.condition, resource, row);
            let e = translated(clause.condition, resource)->Ok_0;
            reveal_with_fuel(expr_value, 3);
            lemma_clauses_keep_meaning(
                clauses,
                i + 1,
                Some(also(acc, clause.unless, e)),
                resource,
                row,
                so_far && own,
            );
        }
    }
}

/// **A clause list keeps its meaning.** Where the clauses have a predicate, it is
/// true of exactly the rows that satisfy every `when` and no `unless`; where they
/// have none, every row satisfies them. This speaks of the rows on which each
/// condition evaluates to a boolean.
pub proof fn law_clauses_keep_meaning(
    clauses: Seq<ClauseModel>,
    resource: Option<EntityModel>,
    row: Row,
)
    requires
        evaluates_from(clauses, 0, resource, row),
        predicate_of(clauses, resource) is Ok,
    ensures
        match predicate_of(clauses, resource)->Ok_0 {
            Some(e) => expr_value(e, row) == Some(
                Value::Boolean(satisfied_from(clauses, 0, resource, row)),
            ),
            None => satisfied_from(clauses, 0, resource, row),
        },
{
    lemma_clauses_keep_meaning(clauses, 0, None, resource, row, true);
}

} // verus!
