//! Lower a residual condition to a row predicate.
//!
//! `resource.<attr>` becomes the column `<attr>`, and the residual's operators
//! become the operators of [`Expr`]. The grammar is restricted on purpose:
//! equality, comparison, boolean combinators and `like`. Everything outside it
//! is an error, which the caller treats as fail-closed.

use cedar_policy::pst::Expr as PstExpr;
use cedar_policy::Policy;
use vstd::prelude::*;

use crate::constraint::ConstraintTranslator;
use crate::outside::{
    clauses, conditions_of, element, element_of, elements_of, inner, leaf, operator, tree_of,
    InnerNode,
};
use crate::expr::{binary, binary_model, col, lit_bool, lit_i64, lit_str, Expr, ExprModel, Operator, Value};
use crate::text::same_text;
use crate::residual::{
    clause_models, Clause, ClauseModel, EntityModel, EntityName, PatternElem, ResidualExpr,
    ResidualModel, ResidualOp,
};

verus! {

/// Why a residual has no row predicate.
#[derive(Debug, PartialEq, Eq)]
pub enum ResidualError {
    /// The residual could not be read at all; the text says why.
    Unreadable(String),
    /// An attribute of something other than the resource.
    NonResourceAttribute(String),
    /// A unary operator other than negation.
    UnsupportedUnary,
    /// A binary operator that is neither a comparison nor a combinator.
    UnsupportedBinary,
    /// An entity literal outside an attribute access on the resource.
    EntityLiteral,
    /// A literal that is neither a string, an integer nor a boolean.
    UnsupportedLiteral,
    /// Any other expression.
    UnsupportedExpression,
}

/// The mathematical model of a [`ResidualError`].
pub enum FaultModel {
    Unreadable,
    NonResourceAttribute(Seq<char>),
    UnsupportedUnary,
    UnsupportedBinary,
    EntityLiteral,
    UnsupportedLiteral,
    UnsupportedExpression,
}

impl View for ResidualError {
    type V = FaultModel;

    open spec fn view(&self) -> FaultModel {
        match self {
            ResidualError::Unreadable(_) => FaultModel::Unreadable,
            ResidualError::NonResourceAttribute(attr) => FaultModel::NonResourceAttribute(attr@),
            ResidualError::UnsupportedUnary => FaultModel::UnsupportedUnary,
            ResidualError::UnsupportedBinary => FaultModel::UnsupportedBinary,
            ResidualError::EntityLiteral => FaultModel::EntityLiteral,
            ResidualError::UnsupportedLiteral => FaultModel::UnsupportedLiteral,
            ResidualError::UnsupportedExpression => FaultModel::UnsupportedExpression,
        }
    }
}

// ---------------------------------------------------------------------------
// The translation, as a function on models
// ---------------------------------------------------------------------------

/// Whether `node` stands for the resource: the `resource` variable, the unknown
/// of that name, or the literal of the very entity the residual was taken for.
pub open spec fn denotes_resource(node: ResidualModel, resource: Option<EntityModel>) -> bool {
    match node {
        ResidualModel::Resource => true,
        ResidualModel::Unknown(name) => name == "resource"@,
        ResidualModel::Entity(entity) => resource == Some(entity),
        _ => false,
    }
}

/// The SQL `LIKE` text of one pattern element: `%` for a wildcard, and the
/// metacharacters `%`, `_` and `\` behind a `\`.
pub open spec fn sql_elem(elem: PatternElem) -> Seq<char> {
    match elem {
        PatternElem::Wildcard => seq!['%'],
        PatternElem::Char(c) => if c == '%' || c == '_' || c == '\\' {
            seq!['\\', c]
        } else {
            seq![c]
        },
    }
}

/// The SQL `LIKE` pattern of a whole pattern.
pub open spec fn sql_pattern(pattern: Seq<PatternElem>) -> Seq<char>
    decreases pattern.len(),
{
    if pattern.len() == 0 {
        Seq::empty()
    } else {
        sql_pattern(pattern.drop_last()) + sql_elem(pattern.last())
    }
}

/// The row operator of a residual operator.
pub open spec fn row_operator(op: ResidualOp) -> Option<Operator> {
    match op {
        ResidualOp::And => Some(Operator::And),
        ResidualOp::Or => Some(Operator::Or),
        ResidualOp::Eq => Some(Operator::Eq),
        ResidualOp::NotEq => Some(Operator::NotEq),
        ResidualOp::Less => Some(Operator::Lt),
        ResidualOp::LessEq => Some(Operator::LtEq),
        ResidualOp::Greater => Some(Operator::Gt),
        ResidualOp::GreaterEq => Some(Operator::GtEq),
        ResidualOp::Other => None,
    }
}

/// `left && right`, where an operand that is the literal `true` drops out.
pub open spec fn conjoin(
    left: ResidualModel,
    left_expr: ExprModel,
    right: ResidualModel,
    right_expr: ExprModel,
) -> ExprModel {
    if left == ResidualModel::Bool(true) {
        if right == ResidualModel::Bool(true) {
            ExprModel::Literal(Value::Boolean(true))
        } else {
            right_expr
        }
    } else if right == ResidualModel::Bool(true) {
        left_expr
    } else {
        binary_model(left_expr, Operator::And, right_expr)
    }
}

/// The row predicate of a residual, or the first fault met from left to right.
pub open spec fn translated(node: ResidualModel, resource: Option<EntityModel>) -> Result<
    ExprModel,
    FaultModel,
>
    decreases node,
{
    match node {
        ResidualModel::Bool(b) => Ok(ExprModel::Literal(Value::Boolean(b))),
        ResidualModel::Long(n) => Ok(ExprModel::Literal(Value::Int64(n))),
        ResidualModel::Text(s) => Ok(ExprModel::Literal(Value::Utf8(s))),
        ResidualModel::Entity(_) => Err(FaultModel::EntityLiteral),
        ResidualModel::OtherLiteral => Err(FaultModel::UnsupportedLiteral),
        ResidualModel::GetAttr(base, attr) => if denotes_resource(*base, resource) {
            Ok(ExprModel::Column(attr))
        } else {
            Err(FaultModel::NonResourceAttribute(attr))
        },
        ResidualModel::Not(inner) => match translated(*inner, resource) {
            Ok(e) => Ok(ExprModel::Not(Box::new(e))),
            Err(fault) => Err(fault),
        },
        ResidualModel::OtherUnary => Err(FaultModel::UnsupportedUnary),
        ResidualModel::Binary(op, left, right) => match row_operator(op) {
            None => Err(FaultModel::UnsupportedBinary),
            Some(row_op) => match (translated(*left, resource), translated(*right, resource)) {
                (Err(fault), _) => Err(fault),
                (Ok(_), Err(fault)) => Err(fault),
                (Ok(l), Ok(r)) => if op == ResidualOp::And {
                    Ok(conjoin(*left, l, *right, r))
                } else {
                    Ok(binary_model(l, row_op, r))
                },
            },
        },
        ResidualModel::Like(inner, pattern) => match translated(*inner, resource) {
            Ok(e) => Ok(ExprModel::Like(Box::new(e), sql_pattern(pattern))),
            Err(fault) => Err(fault),
        },
        ResidualModel::Resource | ResidualModel::Unknown(_) | ResidualModel::Other => Err(
            FaultModel::UnsupportedExpression,
        ),
    }
}

/// What the clauses from index `i` on add to the predicate `acc` of the clauses
/// before: `Ok(None)` is no restriction at all.
///
/// `when { c }` adds the conjunct `c`, `unless { c }` adds `!c`. `when { true }`
/// adds nothing. `unless { true }` turns the whole into `false`, and no clause
/// behind it is read.
pub open spec fn clauses_translated(
    clauses: Seq<ClauseModel>,
    i: nat,
    acc: Option<ExprModel>,
    resource: Option<EntityModel>,
) -> Result<Option<ExprModel>, FaultModel>
    decreases clauses.len() - i,
{
    if i >= clauses.len() {
        Ok(acc)
    } else {
        let clause = clauses[i as int];
        if clause.condition == ResidualModel::Bool(true) {
            if clause.unless {
                Ok(Some(ExprModel::Literal(Value::Boolean(false))))
            } else {
                clauses_translated(clauses, i + 1, acc, resource)
            }
        } else {
            match translated(clause.condition, resource) {
                Err(fault) => Err(fault),
                Ok(e) => clauses_translated(
                    clauses,
                    i + 1,
                    Some(also(acc, clause.unless, e)),
                    resource,
                ),
            }
        }
    }
}

/// The conjunction of `acc` with `e`, or with `!e` where `unless` is set.
pub open spec fn also(acc: Option<ExprModel>, unless: bool, e: ExprModel) -> ExprModel {
    let own = if unless {
        ExprModel::Not(Box::new(e))
    } else {
        e
    };
    match acc {
        Some(before) => binary_model(before, Operator::And, own),
        None => own,
    }
}

/// The predicate of a clause list.
pub open spec fn predicate_of(clauses: Seq<ClauseModel>, resource: Option<EntityModel>) -> Result<
    Option<ExprModel>,
    FaultModel,
> {
    clauses_translated(clauses, 0, None, resource)
}

/// The model of an optional expression.
pub open spec fn option_model(e: Option<Expr>) -> Option<ExprModel> {
    match e {
        Some(e) => Some(e@),
        None => None,
    }
}

/// What a result of the translator stands for.
pub open spec fn outcome(r: Result<Option<Expr>, ResidualError>) -> Result<
    Option<ExprModel>,
    FaultModel,
> {
    match r {
        Ok(Some(e)) => Ok(Some(e@)),
        Ok(None) => Ok(None),
        Err(e) => Err(e@),
    }
}

// ---------------------------------------------------------------------------
// The translation, executable
// ---------------------------------------------------------------------------

/// Reads a residual and lowers its condition to an [`Expr`].
#[derive(Debug, Default)]
pub struct CedarResidualTranslator {
    resource: Option<EntityName>,
}

impl CedarResidualTranslator {
    /// The entity that stands for the resource besides the `resource` variable.
    pub closed spec fn resource(&self) -> Option<EntityModel> {
        match self.resource {
            Some(name) => Some(name@),
            None => None,
        }
    }

    /// A translator that knows the resource by its variable and by the unknown
    /// of that name only.
    pub fn new() -> (r: Self)
        ensures
            r.resource() is None,
    {
        CedarResidualTranslator { resource: None }
    }

    /// A translator that also takes the literal of the entity `uid` for the
    /// resource: the form it has where partial evaluation knew the resource's
    /// uid but not its attributes.
    pub fn with_resource_uid(uid: EntityName) -> (r: Self)
        ensures
            r.resource() == Some(uid@),
    {
        CedarResidualTranslator { resource: Some(uid) }
    }

    /// Whether a node denotes the resource.
    fn base_is_resource(&self, node: &ResidualExpr) -> (r: bool)
        ensures
            r == denotes_resource(node@, self.resource()),
    {
        match node {
            ResidualExpr::Resource => true,
            ResidualExpr::Unknown(name) => same_text(name.as_str(), "resource"),
            ResidualExpr::Entity(entity) => match &self.resource {
                Some(uid) => {
                    uid.entity_type == entity.entity_type && uid.id == entity.id
                },
                None => false,
            },
            _ => false,
        }
    }

    /// The row predicate of a clause list: the conjunction of its clauses, where
    /// `unless { c }` is `when { !c }`. `Ok(None)` means that the clauses restrict
    /// nothing.
    pub fn clauses_to_predicate(&self, clauses: &Vec<Clause>) -> (r: Result<
        Option<Expr>,
        ResidualError,
    >)
        ensures
            outcome(r) == predicate_of(clause_models(clauses@), self.resource()),
    {
        let ghost all = clause_models(clauses@);
        let mut predicate: Option<Expr> = None;
        let mut i: usize = 0;
        while i < clauses.len()
            invariant
                i <= clauses@.len(),
                all == clause_models(clauses@),
                predicate_of(all, self.resource()) == clauses_translated(
                    all,
                    i as nat,
                    option_model(predicate),
                    self.resource(),
                ),
            decreases clauses@.len() - i,
        {
            let clause = &clauses[i];
            assert(all[i as int] == clause@);
            if is_true_literal(&clause.condition) {
                if clause.unless {
                    return Ok(Some(lit_bool(false)));
                }
            } else {
                let mut expr = match self.translate_expr(&clause.condition) {
                    Ok(e) => e,
                    Err(fault) => return Err(fault),
                };
                if clause.unless {
                    expr = Expr::Not(Box::new(expr));
                }
                predicate = Some(
                    match predicate {
                        Some(acc) => binary(acc, Operator::And, expr),
                        None => expr,
                    },
                );
            }
            i += 1;
        }
        Ok(predicate)
    }

    /// Translate one node.
    pub fn translate_expr(&self, node: &ResidualExpr) -> (r: Result<Expr, ResidualError>)
        ensures
            match r {
                Ok(e) => translated(node@, self.resource()) == Ok::<ExprModel, FaultModel>(e@),
                Err(e) => translated(node@, self.resource()) == Err::<ExprModel, FaultModel>(e@),
            },
        decreases node, 1nat,
    {
        match node {
            ResidualExpr::Bool(b) => Ok(lit_bool(*b)),
            ResidualExpr::Long(n) => Ok(lit_i64(*n)),
            ResidualExpr::Text(s) => Ok(lit_str(s.as_str())),
            ResidualExpr::Entity(_) => Err(ResidualError::EntityLiteral),
            ResidualExpr::OtherLiteral => Err(ResidualError::UnsupportedLiteral),
            ResidualExpr::GetAttr(base, attr) => if self.base_is_resource(base) {
                Ok(col(attr.as_str()))
            } else {
                Err(ResidualError::NonResourceAttribute(attr.clone()))
            },
            ResidualExpr::Not(inner) => match self.translate_expr(inner) {
                Ok(e) => Ok(Expr::Not(Box::new(e))),
                Err(fault) => Err(fault),
            },
            ResidualExpr::OtherUnary => Err(ResidualError::UnsupportedUnary),
            ResidualExpr::Binary(op, left, right) => self.translate_binary(node),
            ResidualExpr::Like(inner, pattern) => {
                let sql = like_pattern(pattern);
                match self.translate_expr(inner) {
                    Ok(e) => Ok(Expr::Like(Box::new(e), sql)),
                    Err(fault) => Err(fault),
                }
            },
            ResidualExpr::Resource | ResidualExpr::Unknown(_) | ResidualExpr::Other => Err(
                ResidualError::UnsupportedExpression,
            ),
        }
    }

    /// Translate a binary operation.
    fn translate_binary(&self, node: &ResidualExpr) -> (r: Result<Expr, ResidualError>)
        requires
            node is Binary,
        ensures
            match r {
                Ok(e) => translated(node@, self.resource()) == Ok::<ExprModel, FaultModel>(e@),
                Err(e) => translated(node@, self.resource()) == Err::<ExprModel, FaultModel>(e@),
            },
        decreases node, 0nat,
    {
        let (op, left, right) = match node {
            ResidualExpr::Binary(op, left, right) => (*op, left, right),
            _ => return Err(ResidualError::UnsupportedExpression),
        };
        let row_op: Operator = match op {
            ResidualOp::And => Operator::And,
            ResidualOp::Or => Operator::Or,
            ResidualOp::Eq => Operator::Eq,
            ResidualOp::NotEq => Operator::NotEq,
            ResidualOp::Less => Operator::Lt,
            ResidualOp::LessEq => Operator::LtEq,
            ResidualOp::Greater => Operator::Gt,
            ResidualOp::GreaterEq => Operator::GtEq,
            ResidualOp::Other => return Err(ResidualError::UnsupportedBinary),
        };
        let l = match self.translate_expr(left) {
            Ok(e) => e,
            Err(fault) => return Err(fault),
        };
        let r = match self.translate_expr(right) {
            Ok(e) => e,
            Err(fault) => return Err(fault),
        };
        if op == ResidualOp::And {
            // Fold away the `true &&` guards that partial evaluation may leave.
            let left_true = is_true_literal(left);
            let right_true = is_true_literal(right);
            if left_true && right_true {
                Ok(lit_bool(true))
            } else if left_true {
                Ok(r)
            } else if right_true {
                Ok(l)
            } else {
                Ok(binary(l, Operator::And, r))
            }
        } else {
            Ok(binary(l, row_op, r))
        }
    }
}

/// Whether a node is the literal `true`.
fn is_true_literal(node: &ResidualExpr) -> (r: bool)
    ensures
        r == (node@ == ResidualModel::Bool(true)),
{
    match node {
        ResidualExpr::Bool(b) => *b,
        _ => false,
    }
}

/// The SQL `LIKE` pattern of a residual's pattern.
fn like_pattern(pattern: &Vec<PatternElem>) -> (sql: String)
    ensures
        sql@ == sql_pattern(pattern@),
{
    let mut sql = String::new();
    let mut i: usize = 0;
    while i < pattern.len()
        invariant
            i <= pattern@.len(),
            sql@ == sql_pattern(pattern@.take(i as int)),
        decreases pattern@.len() - i,
    {
        let ghost before = sql@;
        match pattern[i] {
            PatternElem::Wildcard => sql.push('%'),
            PatternElem::Char(c) => {
                if c == '%' || c == '_' || c == '\\' {
                    sql.push('\\');
                }
                sql.push(c);
            },
        }
        proof {
            assert(pattern@.take(i + 1).drop_last() =~= pattern@.take(i as int));
            assert(sql@ =~= before + sql_elem(pattern@[i as int]));
        }
        i += 1;
    }
    assert(pattern@.take(i as int) =~= pattern@);
    sql
}

// ---------------------------------------------------------------------------
// From a policy
// ---------------------------------------------------------------------------

/// Read a Cedar expression as a residual tree.
fn read_expr(expr: &PstExpr) -> (r: ResidualExpr)
    ensures
        r@ == tree_of(*expr),
    decreases tree_of(*expr),
{
    if let Some(r) = leaf(expr) {
        return r;
    }
    let ghost tree = tree_of(*expr);
    match inner(expr) {
        InnerNode::GetAttr(base, attr) => {
            assert(decreases_to!(tree => *tree->GetAttr_0));
            ResidualExpr::GetAttr(Box::new(read_expr(&base)), attr)
        },
        InnerNode::Not(operand) => {
            assert(decreases_to!(tree => *tree->Not_0));
            ResidualExpr::Not(Box::new(read_expr(&operand)))
        },
        InnerNode::OtherUnary => ResidualExpr::OtherUnary,
        InnerNode::Binary(op, left, right) => {
            assert(decreases_to!(tree => *tree->Binary_1));
            assert(decreases_to!(tree => *tree->Binary_2));
            ResidualExpr::Binary(
                operator(&op),
                Box::new(read_expr(&left)),
                Box::new(read_expr(&right)),
            )
        },
        InnerNode::Like(operand, pattern) => {
            let mut elems: Vec<PatternElem> = Vec::new();
            let mut i: usize = 0;
            while i < pattern.len()
                invariant
                    i <= pattern@.len(),
                    elems@.len() == i,
                    forall|j: int| 0 <= j < i ==> #[trigger] elems@[j] == element_of(pattern@[j]),
                decreases pattern@.len() - i,
            {
                elems.push(element(&pattern[i]));
                i += 1;
            }
            assert(elems@ =~= elements_of(pattern@));
            assert(decreases_to!(tree => *tree->Like_0));
            ResidualExpr::Like(Box::new(read_expr(&operand)), elems)
        },
        InnerNode::Other => ResidualExpr::Other,
    }
}

/// Read the clauses of a Cedar policy's condition.
pub fn read_clauses(policy: &Policy) -> (r: Result<Vec<Clause>, ResidualError>)
    ensures
        match r {
            Ok(list) => conditions_of(*policy) == Some(clause_models(list@)),
            Err(e) => conditions_of(*policy) is None && e is Unreadable,
        },
{
    let typed = match clauses(policy) {
        Ok(typed) => typed,
        Err(reason) => return Err(ResidualError::Unreadable(reason)),
    };
    let mut list: Vec<Clause> = Vec::new();
    let mut i: usize = 0;
    while i < typed.len()
        invariant
            i <= typed@.len(),
            list@.len() == i,
            forall|j: int|
                0 <= j < i ==> (#[trigger] list@[j])@ == (ClauseModel {
                    unless: typed@[j].unless,
                    condition: tree_of(typed@[j].condition),
                }),
        decreases typed@.len() - i,
    {
        let clause = &typed[i];
        list.push(Clause { unless: clause.unless, condition: read_expr(&clause.condition) });
        i += 1;
    }
    assert(clause_models(list@) =~= conditions_of(*policy)->0);
    Ok(list)
}

/// The predicate of a policy's condition.
pub open spec fn policy_predicate(policy: Policy, resource: Option<EntityModel>) -> Result<
    Option<ExprModel>,
    FaultModel,
> {
    match conditions_of(policy) {
        Some(clauses) => predicate_of(clauses, resource),
        None => Err(FaultModel::Unreadable),
    }
}

impl ConstraintTranslator for CedarResidualTranslator {
    type Residual = Policy;

    /// The row predicate of a residual policy's condition.
    fn to_predicate(&self, residual: &Policy) -> (r: Result<Option<Expr>, ResidualError>)
        ensures
            outcome(r) == policy_predicate(*residual, self.resource()),
    {
        match read_clauses(residual) {
            Ok(clauses) => self.clauses_to_predicate(&clauses),
            Err(e) => Err(e),
        }
    }
}

} // verus!
