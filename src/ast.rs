//! The statements that both interpreters consume.
use vstd::prelude::*;
use crate::number::Number;

verus! {

/// An expression over declared dimensions (or units), used in declarations.
#[derive(Debug, PartialEq)]
pub enum DimensionExpression {
    Dimension(String),
    Multiply(Box<DimensionExpression>, Box<DimensionExpression>),
    Divide(Box<DimensionExpression>, Box<DimensionExpression>),
}

#[derive(Clone, Copy, Debug, PartialEq, Eq)]
pub enum BinaryOperator {
    Add,
    Sub,
    Mul,
    Div,
}

/// An arithmetic expression.
#[derive(Debug, PartialEq)]
pub enum Expression {
    Scalar(Number),
    Identifier(String),
    Negate(Box<Expression>),
    BinaryOperator(BinaryOperator, Box<Expression>, Box<Expression>),
}

/// One statement of a program.
#[derive(Debug, PartialEq)]
pub enum Statement {
    /// An expression whose value is the statement's result.
    Expression(Expression),
    /// `let <name> = <expr>`
    DeclareVariable(String, Expression),
    /// `dimension <name>`, optionally `= <expr> = <expr> ...` for a derived dimension.
    DeclareDimension(String, Vec<DimensionExpression>),
    /// `unit <name> : <dimension-expr>`
    DeclareUnit(String, DimensionExpression),
}

/// A dimension expression as a mathematical value.
pub enum DimModel {
    Dimension(Seq<char>),
    Multiply(Box<DimModel>, Box<DimModel>),
    Divide(Box<DimModel>, Box<DimModel>),
}

/// An expression as a mathematical value.
pub enum ExprModel {
    Scalar(Number),
    Identifier(Seq<char>),
    Negate(Box<ExprModel>),
    Binary(BinaryOperator, Box<ExprModel>, Box<ExprModel>),
}

/// A statement as a mathematical value.
pub enum StmtModel {
    Expression(ExprModel),
    DeclareVariable(Seq<char>, ExprModel),
    DeclareDimension(Seq<char>, Seq<DimModel>),
    DeclareUnit(Seq<char>, DimModel),
}

pub open spec fn dim_models(v: Seq<DimensionExpression>) -> Seq<DimModel> {
    v.map_values(|d: DimensionExpression| d.model())
}

pub open spec fn stmt_models(v: Seq<Statement>) -> Seq<StmtModel> {
    v.map_values(|s: Statement| s.model())
}

impl Expression {
    pub open spec fn model(&self) -> ExprModel
        decreases self,
    {
        match self {
            Expression::Scalar(n) => ExprModel::Scalar(*n),
            Expression::Identifier(n) => ExprModel::Identifier(n@),
            Expression::Negate(a) => ExprModel::Negate(Box::new(a.model())),
            Expression::BinaryOperator(op, a, b) => ExprModel::Binary(
                *op,
                Box::new(a.model()),
                Box::new(b.model()),
            ),
        }
    }
}

impl Statement {
    pub open spec fn model(&self) -> StmtModel {
        match self {
            Statement::Expression(e) => StmtModel::Expression(e.model()),
            Statement::DeclareVariable(n, e) => StmtModel::DeclareVariable(n@, e.model()),
            Statement::DeclareDimension(n, alts) => StmtModel::DeclareDimension(n@, dim_models(alts@)),
            Statement::DeclareUnit(n, e) => StmtModel::DeclareUnit(n@, e.model()),
        }
    }
}

impl DimensionExpression {
    pub open spec fn model(&self) -> DimModel
        decreases self,
    {
        match self {
            DimensionExpression::Dimension(n) => DimModel::Dimension(n@),
            DimensionExpression::Multiply(a, b) => DimModel::Multiply(
                Box::new(a.model()),
                Box::new(b.model()),
            ),
            DimensionExpression::Divide(a, b) => DimModel::Divide(Box::new(a.model()), Box::new(b.model())),
        }
    }

    /// A copy of this expression.
    pub fn duplicate(&self) -> (r: DimensionExpression)
        ensures
            r == *self,
        decreases self,
    {
        match self {
            DimensionExpression::Dimension(n) => DimensionExpression::Dimension(n.clone()),
            DimensionExpression::Multiply(a, b) => DimensionExpression::Multiply(
                Box::new(a.duplicate()),
                Box::new(b.duplicate()),
            ),
            DimensionExpression::Divide(a, b) => DimensionExpression::Divide(
                Box::new(a.duplicate()),
                Box::new(b.duplicate()),
            ),
        }
    }
}

/// A copy of a list of dimension expressions.
pub fn duplicate_all(v: &Vec<DimensionExpression>) -> (r: Vec<DimensionExpression>)
    ensures
        r@ == v@,
{
    let mut r: Vec<DimensionExpression> = Vec::new();
    let mut i: usize = 0;
    while i < v.len()
        invariant
            i <= v@.len(),
            r@ == v@.subrange(0, i as int),
        decreases v@.len() - i,
    {
        r.push(v[i].duplicate());
        assert(r@ =~= v@.subrange(0, i + 1));
        i = i + 1;
    }
    assert(v@.subrange(0, i as int) =~= v@);
    r
}

} // verus!
