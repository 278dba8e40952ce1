use vstd::prelude::*;
use crate::expr::{BinOp, Operator};
use crate::token::TokenRecord;

verus! {

/// A binary operator as the grammar knows it.  Lowering later maps it
/// either to an arithmetic `BinOp` or to a comparison `Operator`.
#[derive(Debug, PartialEq, Eq, Clone, Copy, Structural)]
pub enum BinaryOperator {
    Add,
    Subtract,
    Multiply,
    Divide,
    And,
    Or,
    Equal,
    NotEqual,
    LessThan,
    GreaterThan,
    LessThanOrEqual,
    GreaterThanOrEqual,
}

impl BinaryOperator {
    /// The arithmetic operator this maps to, if it is arithmetic.
    pub fn as_bin_op(self) -> (r: Option<BinOp>)
        ensures
            r == match self {
                BinaryOperator::Add => Some(BinOp::Add),
                BinaryOperator::Subtract => Some(BinOp::Sub),
                BinaryOperator::Multiply => Some(BinOp::Mul),
                BinaryOperator::Divide => Some(BinOp::Div),
                _ => None::<BinOp>,
            },
    {
        match self {
            BinaryOperator::Add => Some(BinOp::Add),
            BinaryOperator::Subtract => Some(BinOp::Sub),
            BinaryOperator::Multiply => Some(BinOp::Mul),
            BinaryOperator::Divide => Some(BinOp::Div),
            _ => None,
        }
    }

    /// The comparison operator this maps to, if it is a comparison.
    pub fn as_operator(self) -> (r: Option<Operator>)
        ensures
            r == match self {
                BinaryOperator::Equal => Some(Operator::Equal),
                BinaryOperator::NotEqual => Some(Operator::NotEqual),
                BinaryOperator::LessThan => Some(Operator::LessThan),
                BinaryOperator::GreaterThan => Some(Operator::GreaterThan),
                BinaryOperator::LessThanOrEqual => Some(Operator::LessThanEqual),
                BinaryOperator::GreaterThanOrEqual => Some(Operator::GreaterThanEqual),
                _ => None::<Operator>,
            },
    {
        match self {
            BinaryOperator::Equal => Some(Operator::Equal),
            BinaryOperator::NotEqual => Some(Operator::NotEqual),
            BinaryOperator::LessThan => Some(Operator::LessThan),
            BinaryOperator::GreaterThan => Some(Operator::GreaterThan),
            BinaryOperator::LessThanOrEqual => Some(Operator::LessThanEqual),
            BinaryOperator::GreaterThanOrEqual => Some(Operator::GreaterThanEqual),
            _ => None,
        }
    }
}

/// A unary operator of the surface grammar.  Lowering rejects both.
#[derive(Debug, PartialEq, Eq, Clone, Copy, Structural)]
pub enum UnaryOperator {
    Negate,
    Not,
}

/// A node of the syntax tree the parser builds.  Every leaf keeps the
/// token it came from, so a diagnostic can point back into the source.
#[derive(Debug)]
#[allow(inconsistent_fields)]
pub enum Expression {
    Include { id: TokenRecord },
    Return { expr: Box<Expression> },
    Function { id: TokenRecord, args: Vec<TokenRecord>, block: Vec<Expression> },
    For { id: TokenRecord, expr: Box<Expression>, block: Vec<Expression> },
    Until { expr: Box<Expression>, block: Vec<Expression> },
    If { expr: Box<Expression>, block: Vec<Expression>, else_block: Option<Vec<Expression>> },
    Let { id: TokenRecord, expr: Box<Expression> },
    Binary {
        left: Box<Expression>,
        op: BinaryOperator,
        op_token: TokenRecord,
        right: Box<Expression>,
    },
    Unary { op: UnaryOperator, op_token: TokenRecord, expr: Box<Expression> },
    Assignment { region: TokenRecord, left: Box<Expression>, right: Box<Expression> },
    Identifier(TokenRecord),
    String(TokenRecord),
    Integer(TokenRecord),
    Float(TokenRecord),
    Bool(TokenRecord),
    Array(Vec<Expression>),
    Closure { args: Vec<TokenRecord>, block: Vec<Expression> },
    Call { region: TokenRecord, left: Box<Expression>, args: Vec<Expression> },
    Index { region: TokenRecord, left: Box<Expression>, index: Box<Expression> },
}

/// A parsed call or index postfix, not yet attached to the expression it
/// applies to.  The parser reads the base object first, then folds each
/// postfix over it with `apply`.
pub enum PostFixExpr {
    Call(TokenRecord, Vec<Expression>),
    Index(TokenRecord, Box<Expression>),
}

impl PostFixExpr {
    /// Attaches this postfix to the expression on its left.
    pub fn apply(self, left: Expression) -> (r: Expression)
        ensures
            match self {
                PostFixExpr::Call(region, args) => r matches Expression::Call {
                    region: r2,
                    left: l2,
                    args: a2,
                } && r2 == region && *l2 == left && a2 == args,
                PostFixExpr::Index(region, index) => r matches Expression::Index {
                    region: r2,
                    left: l2,
                    index: i2,
                } && r2 == region && *l2 == left && i2 == index,
            },
    {
        match self {
            PostFixExpr::Call(region, args) => Expression::Call {
                region,
                left: Box::new(left),
                args,
            },
            PostFixExpr::Index(region, index) => Expression::Index {
                region,
                left: Box::new(left),
                index,
            },
        }
    }
}

} // verus!
