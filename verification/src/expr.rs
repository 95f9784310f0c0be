//! The predicate language that policy engines produce and plans carry.
//!
//! An [`Expr`] is what a row filter or a column mask is made of: column
//! references, literals, comparisons, boolean combinators, `LIKE`, and calls of
//! catalog functions. A host renders it into the expression type of its query
//! engine, one node for one node.

use vstd::prelude::*;

verus! {

/// A literal value.
#[derive(Debug, PartialEq, Eq)]
pub enum Scalar {
    /// A string.
    Utf8(String),
    /// A 64-bit signed integer.
    Int64(i64),
    /// A boolean.
    Boolean(bool),
}

/// What a [`Scalar`] denotes. Columns of a row hold values of this kind too.
pub enum Value {
    Utf8(Seq<char>),
    Int64(int),
    Boolean(bool),
}

/// A binary operator.
#[derive(Debug, Clone, Copy, PartialEq, Eq, Structural)]
pub enum Operator {
    And,
    Or,
    Eq,
    NotEq,
    Lt,
    LtEq,
    Gt,
    GtEq,
}

/// A predicate or value expression over the columns of one table.
#[derive(Debug, PartialEq, Eq)]
pub enum Expr {
    /// A column, by the name it is written with.
    Column(String),
    /// A literal.
    Literal(Scalar),
    /// Logical negation.
    Not(Box<Expr>),
    /// A binary operation.
    Binary(Box<Expr>, Operator, Box<Expr>),
    /// `expr LIKE pattern`, with `\` as the escape character.
    Like(Box<Expr>, String),
    /// A call of a catalog function, by its catalog-qualified name.
    Call(String, Vec<Expr>),
}

/// The mathematical model of an [`Expr`].
#[verifier::ext_equal]
pub enum ExprModel {
    Column(Seq<char>),
    Literal(Value),
    Not(Box<ExprModel>),
    Binary(Box<ExprModel>, Operator, Box<ExprModel>),
    Like(Box<ExprModel>, Seq<char>),
    Call(Seq<char>, Seq<ExprModel>),
}

impl View for Scalar {
    type V = Value;

    open spec fn view(&self) -> Value {
        match self {
            Scalar::Utf8(s) => Value::Utf8(s@),
            Scalar::Int64(n) => Value::Int64(*n as int),
            Scalar::Boolean(b) => Value::Boolean(*b),
        }
    }
}

impl View for Expr {
    type V = ExprModel;

    open spec fn view(&self) -> ExprModel
        decreases self,
    {
        match self {
            Expr::Column(name) => ExprModel::Column(name@),
            Expr::Literal(value) => ExprModel::Literal(value@),
            Expr::Not(inner) => ExprModel::Not(Box::new((**inner).view())),
            Expr::Binary(left, op, right) => ExprModel::Binary(
                Box::new((**left).view()),
                *op,
                Box::new((**right).view()),
            ),
            Expr::Like(inner, pattern) => ExprModel::Like(Box::new((**inner).view()), pattern@),
            Expr::Call(function, args) => ExprModel::Call(
                function@,
                Seq::new(
                    args@.len(),
                    |i: int|
                        if 0 <= i < args@.len() {
                            args@[i].view()
                        } else {
                            ExprModel::Literal(Value::Boolean(false))
                        },
                ),
            ),
        }
    }
}

/// The models of a list of expressions.
pub open spec fn models(exprs: Seq<Expr>) -> Seq<ExprModel> {
    Seq::new(exprs.len(), |i: int| exprs[i]@)
}

/// A call's model, with its arguments' models as a list.
pub proof fn lemma_call_view(function: String, args: Vec<Expr>)
    ensures
        Expr::Call(function, args)@ == ExprModel::Call(function@, models(args@)),
{
    assert(Expr::Call(function, args)@->Call_1 =~= models(args@));
}

impl Clone for Scalar {
    fn clone(&self) -> (r: Self)
        ensures
            r@ == self@,
    {
        match self {
            Scalar::Utf8(s) => Scalar::Utf8(s.clone()),
            Scalar::Int64(n) => Scalar::Int64(*n),
            Scalar::Boolean(b) => Scalar::Boolean(*b),
        }
    }
}

impl Clone for Expr {
    fn clone(&self) -> (r: Self)
        ensures
            r@ == self@,
        decreases self,
    {
        match self {
            Expr::Column(name) => Expr::Column(name.clone()),
            Expr::Literal(value) => Expr::Literal(value.clone()),
            Expr::Not(inner) => Expr::Not(Box::new((&**inner).clone())),
            Expr::Binary(left, op, right) => Expr::Binary(
                Box::new((&**left).clone()),
                *op,
                Box::new((&**right).clone()),
            ),
            Expr::Like(inner, pattern) => Expr::Like(
                Box::new((&**inner).clone()),
                pattern.clone(),
            ),
            Expr::Call(function, args) => {
                let mut copied: Vec<Expr> = Vec::new();
                let mut i: usize = 0;
                while i < args.len()
                    invariant
                        i <= args@.len(),
                        copied@.len() == i,
                        forall|j: int| 0 <= j < i ==> (#[trigger] copied@[j])@ == args@[j]@,
                        *self == Expr::Call(*function, *args),
                    decreases args@.len() - i,
                {
                    assert(decreases_to!(self => self->Call_1@[i as int]));
                    copied.push((&args[i]).clone());
                    i += 1;
                }
                proof {
                    lemma_call_view(*function, *args);
                    lemma_call_view(*function, copied);
                    assert(models(copied@) =~= models(args@));
                }
                Expr::Call(function.clone(), copied)
            },
        }
    }
}

/// A reference to the column `name`.
pub fn col(name: &str) -> (r: Expr)
    ensures
        r@ == ExprModel::Column(name@),
{
    Expr::Column(name.to_owned())
}

/// A string literal.
pub fn lit_str(value: &str) -> (r: Expr)
    ensures
        r@ == ExprModel::Literal(Value::Utf8(value@)),
{
    Expr::Literal(Scalar::Utf8(value.to_owned()))
}

/// An integer literal.
pub fn lit_i64(value: i64) -> (r: Expr)
    ensures
        r@ == ExprModel::Literal(Value::Int64(value as int)),
{
    Expr::Literal(Scalar::Int64(value))
}

/// A boolean literal.
pub fn lit_bool(value: bool) -> (r: Expr)
    ensures
        r@ == ExprModel::Literal(Value::Boolean(value)),
{
    Expr::Literal(Scalar::Boolean(value))
}

/// The model of `left op right`.
pub open spec fn binary_model(left: ExprModel, op: Operator, right: ExprModel) -> ExprModel {
    ExprModel::Binary(Box::new(left), op, Box::new(right))
}

/// `left op right`.
pub fn binary(left: Expr, op: Operator, right: Expr) -> (r: Expr)
    ensures
        r@ == binary_model(left@, op, right@),
{
    Expr::Binary(Box::new(left), op, Box::new(right))
}

} // verus!
