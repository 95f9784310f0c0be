//! The condition a policy is left with after partial evaluation, as a plain tree.
//!
//! Partial evaluation with a concrete principal folds everything it knows into
//! literals. What survives is a tree over the attributes of the resource, and
//! this module holds that tree: the operators that have a meaning as a row
//! predicate by name, everything else as a node that cannot be translated.

use vstd::prelude::*;

verus! {

/// The type name and the id of an entity, e.g. `Table` and `prod.sales.orders`.
#[derive(Debug, PartialEq, Eq)]
pub struct EntityName {
    /// The entity type's name.
    pub entity_type: String,
    /// The entity's id within its type, unescaped.
    pub id: String,
}

/// The binary operators of a residual.
#[derive(Debug, Clone, Copy, PartialEq, Eq, Structural)]
pub enum ResidualOp {
    And,
    Or,
    Eq,
    NotEq,
    Less,
    LessEq,
    Greater,
    GreaterEq,
    /// An operator with no counterpart in a row predicate (set membership, tag
    /// access, arithmetic, hierarchy, …).
    Other,
}

/// One element of a `like` pattern.
#[derive(Debug, Clone, Copy, PartialEq, Eq, Structural)]
pub enum PatternElem {
    /// Any run of characters, the empty run included.
    Wildcard,
    /// The character itself.
    Char(char),
}

/// A node of a residual condition.
#[derive(Debug, PartialEq, Eq)]
pub enum ResidualExpr {
    /// A boolean literal.
    Bool(bool),
    /// An integer literal.
    Long(i64),
    /// A string literal.
    Text(String),
    /// An entity literal.
    Entity(EntityName),
    /// A literal of some other kind.
    OtherLiteral,
    /// The request's resource.
    Resource,
    /// An unknown, by its name.
    Unknown(String),
    /// `base.attr`.
    GetAttr(Box<ResidualExpr>, String),
    /// Logical negation.
    Not(Box<ResidualExpr>),
    /// A unary operation other than negation.
    OtherUnary,
    /// A binary operation.
    Binary(ResidualOp, Box<ResidualExpr>, Box<ResidualExpr>),
    /// `expr like pattern`.
    Like(Box<ResidualExpr>, Vec<PatternElem>),
    /// Any other expression.
    Other,
}

/// A `when` or an `unless` clause.
#[derive(Debug, PartialEq, Eq)]
pub struct Clause {
    /// Whether this is an `unless` clause.
    pub unless: bool,
    /// The clause's condition.
    pub condition: ResidualExpr,
}

/// The mathematical model of an [`EntityName`].
#[verifier::ext_equal]
pub struct EntityModel {
    pub entity_type: Seq<char>,
    pub id: Seq<char>,
}

/// The mathematical model of a [`ResidualExpr`].
#[verifier::ext_equal]
pub enum ResidualModel {
    Bool(bool),
    Long(int),
    Text(Seq<char>),
    Entity(EntityModel),
    OtherLiteral,
    Resource,
    Unknown(Seq<char>),
    GetAttr(Box<ResidualModel>, Seq<char>),
    Not(Box<ResidualModel>),
    OtherUnary,
    Binary(ResidualOp, Box<ResidualModel>, Box<ResidualModel>),
    Like(Box<ResidualModel>, Seq<PatternElem>),
    Other,
}

/// The mathematical model of a [`Clause`].
#[verifier::ext_equal]
pub struct ClauseModel {
    pub unless: bool,
    pub condition: ResidualModel,
}

impl View for EntityName {
    type V = EntityModel;

    open spec fn view(&self) -> EntityModel {
        EntityModel { entity_type: self.entity_type@, id: self.id@ }
    }
}

impl View for ResidualExpr {
    type V = ResidualModel;

    open spec fn view(&self) -> ResidualModel
        decreases self,
    {
        match self {
            ResidualExpr::Bool(b) => ResidualModel::Bool(*b),
            ResidualExpr::Long(n) => ResidualModel::Long(*n as int),
            ResidualExpr::Text(s) => ResidualModel::Text(s@),
            ResidualExpr::Entity(e) => ResidualModel::Entity(e@),
            ResidualExpr::OtherLiteral => ResidualModel::OtherLiteral,
            ResidualExpr::Resource => ResidualModel::Resource,
            ResidualExpr::Unknown(name) => ResidualModel::Unknown(name@),
            ResidualExpr::GetAttr(base, attr) => ResidualModel::GetAttr(
                Box::new((**base).view()),
                attr@,
            ),
            ResidualExpr::Not(inner) => ResidualModel::Not(Box::new((**inner).view())),
            ResidualExpr::OtherUnary => ResidualModel::OtherUnary,
            ResidualExpr::Binary(op, left, right) => ResidualModel::Binary(
                *op,
                Box::new((**left).view()),
                Box::new((**right).view()),
            ),
            ResidualExpr::Like(inner, pattern) => ResidualModel::Like(
                Box::new((**inner).view()),
                pattern@,
            ),
            ResidualExpr::Other => ResidualModel::Other,
        }
    }
}

impl View for Clause {
    type V = ClauseModel;

    open spec fn view(&self) -> ClauseModel {
        ClauseModel { unless: self.unless, condition: self.condition@ }
    }
}

/// The models of a list of clauses.
pub open spec fn clause_models(clauses: Seq<Clause>) -> Seq<ClauseModel> {
    Seq::new(clauses.len(), |i: int| clauses[i]@)
}

} // verus!
