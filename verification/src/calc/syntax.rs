//! The calculator's abstract syntax: binary operators, expression trees, and
//! parsed commands, together with their mathematical views.

use vstd::prelude::*;

verus! {

/// A binary operator of the expression grammar.
#[derive(Debug, Clone, Copy, PartialEq, Eq, Structural)]
pub enum BinOp {
    /// Addition, `+`.
    Add,
    /// Subtraction, `-`.
    Subtract,
    /// Multiplication, `*`.
    Multiply,
    /// Division, `/`.
    Divide,
    /// Exponentiation, `^`.
    Power,
}

/// An arithmetic expression: a literal, a variable reference, or a binary
/// operation whose two operands are owned subtrees.
///
/// A literal carries the numeric value of the digits as written; what word of
/// the value domain it denotes is the embedding's affair (see
/// [`crate::calc::context`]).
#[derive(Debug, PartialEq, Eq)]
pub enum Expression {
    /// A numeric literal, by its integer value.
    Num(u64),
    /// A reference to a variable, by name.
    Variable(String),
    /// A binary operation over two subexpressions.
    BinOp {
        /// The operator.
        op: BinOp,
        /// The left operand.
        lhs: Box<Expression>,
        /// The right operand.
        rhs: Box<Expression>,
    },
}

/// The mathematical view of an [`Expression`]: the same tree with variable
/// names as character sequences.
pub enum ExprV {
    /// A numeric literal.
    Num(u64),
    /// A variable reference.
    Variable(Seq<char>),
    /// A binary operation.
    BinOp { op: BinOp, lhs: Box<ExprV>, rhs: Box<ExprV> },
}

/// The view of an expression tree, recursively.
pub open spec fn expr_view(e: Expression) -> ExprV
    decreases e,
{
    match e {
        Expression::Num(n) => ExprV::Num(n),
        Expression::Variable(x) => ExprV::Variable(x@),
        Expression::BinOp { op, lhs, rhs } => ExprV::BinOp {
            op: op,
            lhs: Box::new(expr_view(*lhs)),
            rhs: Box::new(expr_view(*rhs)),
        },
    }
}

impl View for Expression {
    type V = ExprV;

    open spec fn view(&self) -> ExprV {
        expr_view(*self)
    }
}

impl Clone for Expression {
    /// A deep copy of the tree, equal to the original.
    fn clone(&self) -> (res: Self)
        ensures
            res == self,
        decreases self,
    {
        match self {
            Expression::Num(n) => Expression::Num(*n),
            Expression::Variable(x) => Expression::Variable(x.clone()),
            Expression::BinOp { op, lhs, rhs } => Expression::BinOp {
                op: *op,
                lhs: Box::new((**lhs).clone()),
                rhs: Box::new((**rhs).clone()),
            },
        }
    }
}

/// A parsed input line: an optional explicit variable name and the expression
/// to evaluate. Immutable once constructed.
#[derive(Debug, PartialEq, Eq)]
pub struct Command {
    /// The explicit name, or `None` for an anonymous result.
    pub variable: Option<String>,
    /// The expression to evaluate.
    pub expression: Expression,
}

/// The mathematical view of a [`Command`].
pub struct CommandV {
    /// The explicit name, if any.
    pub variable: Option<Seq<char>>,
    /// The expression tree.
    pub expression: ExprV,
}

impl View for Command {
    type V = CommandV;

    open spec fn view(&self) -> CommandV {
        CommandV {
            variable: match self.variable {
                Option::Some(x) => Option::Some(x@),
                Option::None => Option::None,
            },
            expression: self.expression@,
        }
    }
}

impl Clone for Command {
    /// A deep copy of the command, equal to the original.
    fn clone(&self) -> (res: Self)
        ensures
            res == self,
    {
        Command {
            variable: match &self.variable {
                Option::Some(x) => Option::Some(x.clone()),
                Option::None => Option::None,
            },
            expression: self.expression.clone(),
        }
    }
}

/// An evaluation failure. Errors from subexpressions short-circuit: the first
/// failure in evaluation order is reported and nothing is stored.
#[derive(Debug, PartialEq, Eq)]
pub enum EvalError {
    /// The expression referenced a variable that the context does not hold.
    UndefinedVariable(String),
    /// The right operand of a division evaluated to the zero word.
    DivisionByZero,
}

/// The mathematical view of an [`EvalError`].
pub enum EvalErrorV {
    /// An undefined variable, by name.
    UndefinedVariable(Seq<char>),
    /// A division by zero.
    DivisionByZero,
}

impl Clone for EvalError {
    /// A copy of the error, equal to the original.
    fn clone(&self) -> (res: Self)
        ensures
            res == self,
    {
        match self {
            EvalError::UndefinedVariable(x) => EvalError::UndefinedVariable(x.clone()),
            EvalError::DivisionByZero => EvalError::DivisionByZero,
        }
    }
}

impl View for EvalError {
    type V = EvalErrorV;

    open spec fn view(&self) -> EvalErrorV {
        match self {
            EvalError::UndefinedVariable(x) => EvalErrorV::UndefinedVariable(x@),
            EvalError::DivisionByZero => EvalErrorV::DivisionByZero,
        }
    }
}

/// A parse failure: the line does not belong to the command grammar.
#[derive(Debug, Clone, Copy, PartialEq, Eq, Structural)]
pub struct ParseError;

} // verus!
