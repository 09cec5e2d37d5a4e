//! The syntax tree: statements and expressions, each subtree owned by its
//! parent.

use vstd::prelude::*;
use crate::lexer::Token;

verus! {

/// The binary operators of the language.
#[derive(Debug, PartialEq, Eq, Clone, Copy, Structural)]
pub enum ASTBinaryOperatorKind {
    Plus,
    Minus,
    Multiply,
    Divide,
    Pow,
    IntegerDivide,
    Eof,
}

impl ASTBinaryOperatorKind {
    /// How tightly the operator binds: additive operators least, the power
    /// operator most.
    pub open spec fn binding_power(self) -> u8 {
        match self {
            ASTBinaryOperatorKind::Eof => 1,
            ASTBinaryOperatorKind::Plus => 1,
            ASTBinaryOperatorKind::Minus => 1,
            ASTBinaryOperatorKind::Multiply => 2,
            ASTBinaryOperatorKind::Divide => 2,
            ASTBinaryOperatorKind::IntegerDivide => 2,
            ASTBinaryOperatorKind::Pow => 3,
        }
    }

    /// The operator's name, as the renderers show it.
    pub open spec fn spelled(self) -> &'static str {
        match self {
            ASTBinaryOperatorKind::Plus => "Plus",
            ASTBinaryOperatorKind::Minus => "Minus",
            ASTBinaryOperatorKind::Multiply => "Multiply",
            ASTBinaryOperatorKind::Divide => "Divide",
            ASTBinaryOperatorKind::Pow => "Pow",
            ASTBinaryOperatorKind::IntegerDivide => "IntegerDivide",
            ASTBinaryOperatorKind::Eof => "Eof",
        }
    }

    /// The operator's name.
    pub fn name(self) -> (r: &'static str)
        ensures
            r == self.spelled(),
    {
        match self {
            ASTBinaryOperatorKind::Plus => "Plus",
            ASTBinaryOperatorKind::Minus => "Minus",
            ASTBinaryOperatorKind::Multiply => "Multiply",
            ASTBinaryOperatorKind::Divide => "Divide",
            ASTBinaryOperatorKind::Pow => "Pow",
            ASTBinaryOperatorKind::IntegerDivide => "IntegerDivide",
            ASTBinaryOperatorKind::Eof => "Eof",
        }
    }
}

/// A binary operator and the token it was read from.
#[derive(Debug, PartialEq)]
pub struct ASTBinaryOperator {
    pub kind: ASTBinaryOperatorKind,
    pub token: Token,
}

impl ASTBinaryOperator {
    pub fn new(kind: ASTBinaryOperatorKind, token: Token) -> (r: Self)
        ensures
            r == (ASTBinaryOperator { kind, token }),
    {
        ASTBinaryOperator { kind, token }
    }

    pub fn precedence(&self) -> (r: u8)
        ensures
            r == self.kind.binding_power(),
    {
        match self.kind {
            ASTBinaryOperatorKind::Eof => 1,
            ASTBinaryOperatorKind::Plus => 1,
            ASTBinaryOperatorKind::Minus => 1,
            ASTBinaryOperatorKind::Multiply => 2,
            ASTBinaryOperatorKind::Divide => 2,
            ASTBinaryOperatorKind::IntegerDivide => 2,
            ASTBinaryOperatorKind::Pow => 3,
        }
    }
}

#[derive(Debug, PartialEq)]
pub struct ASTBinaryExpression {
    pub left: Box<ASTExpression>,
    pub operator: ASTBinaryOperator,
    pub right: Box<ASTExpression>,
}

/// A numeric literal, held as its decimal text.
#[derive(Debug, PartialEq)]
pub struct ASTNumberExpression {
    pub number: String,
}

#[derive(Debug, PartialEq)]
pub struct ASTVariableExpression {
    pub name: String,
}

impl ASTVariableExpression {
    pub fn new(name: String) -> (r: Self)
        ensures
            r.name == name,
    {
        ASTVariableExpression { name }
    }
}

/// An expression in round brackets.
#[derive(Debug, PartialEq)]
pub struct ASTParenthesizedExpression {
    pub expression: Box<ASTExpression>,
}

/// An expression in curly brackets: a block.
#[derive(Debug, PartialEq)]
pub struct ASTStartEndExpression {
    pub expression: Box<ASTExpression>,
}

#[derive(Debug, PartialEq)]
pub enum ASTExpressionKind {
    Number(ASTNumberExpression),
    Binary(ASTBinaryExpression),
    Parenthesized(ASTParenthesizedExpression),
    StartEnd(ASTStartEndExpression),
    Variable(String),
}

#[derive(Debug, PartialEq)]
pub struct ASTExpression {
    pub kind: ASTExpressionKind,
}

impl ASTExpression {
    /// The numeric literal with decimal text `number`.
    pub open spec fn number_node(number: String) -> ASTExpression {
        ASTExpression { kind: ASTExpressionKind::Number(ASTNumberExpression { number }) }
    }

    /// The reference to the variable `name`.
    pub open spec fn variable_node(name: String) -> ASTExpression {
        ASTExpression { kind: ASTExpressionKind::Variable(name) }
    }

    /// `left operator right`.
    pub open spec fn binary_node(
        operator: ASTBinaryOperator,
        left: ASTExpression,
        right: ASTExpression,
    ) -> ASTExpression {
        ASTExpression {
            kind: ASTExpressionKind::Binary(
                ASTBinaryExpression { left: Box::new(left), operator, right: Box::new(right) },
            ),
        }
    }

    /// `( expression )`.
    pub open spec fn parenthesized_node(expression: ASTExpression) -> ASTExpression {
        ASTExpression {
            kind: ASTExpressionKind::Parenthesized(
                ASTParenthesizedExpression { expression: Box::new(expression) },
            ),
        }
    }

    /// `{ expression }`.
    pub open spec fn start_end_node(expression: ASTExpression) -> ASTExpression {
        ASTExpression {
            kind: ASTExpressionKind::StartEnd(
                ASTStartEndExpression { expression: Box::new(expression) },
            ),
        }
    }

    pub fn new(kind: ASTExpressionKind) -> (r: Self)
        ensures
            r.kind == kind,
    {
        ASTExpression { kind }
    }

    pub fn number(number: String) -> (r: Self)
        ensures
            r == Self::number_node(number),
    {
        ASTExpression::new(ASTExpressionKind::Number(ASTNumberExpression { number }))
    }

    pub fn variable(name: String) -> (r: Self)
        ensures
            r == Self::variable_node(name),
    {
        ASTExpression::new(ASTExpressionKind::Variable(name))
    }

    pub fn binary(operator: ASTBinaryOperator, left: ASTExpression, right: ASTExpression) -> (r:
        Self)
        ensures
            r == Self::binary_node(operator, left, right),
    {
        ASTExpression::new(
            ASTExpressionKind::Binary(
                ASTBinaryExpression { left: Box::new(left), operator, right: Box::new(right) },
            ),
        )
    }

    pub fn parenthesized(expression: ASTExpression) -> (r: Self)
        ensures
            r == Self::parenthesized_node(expression),
    {
        ASTExpression::new(
            ASTExpressionKind::Parenthesized(
                ASTParenthesizedExpression { expression: Box::new(expression) },
            ),
        )
    }

    pub fn start_end(expression: ASTExpression) -> (r: Self)
        ensures
            r == Self::start_end_node(expression),
    {
        ASTExpression::new(
            ASTExpressionKind::StartEnd(ASTStartEndExpression { expression: Box::new(expression) }),
        )
    }
}

#[derive(Debug, PartialEq)]
pub enum ASTStatementKind {
    Expression(ASTExpression),
}

#[derive(Debug, PartialEq)]
pub struct ASTStatement {
    pub kind: ASTStatementKind,
}

impl ASTStatement {
    /// The statement that holds `expr` alone.
    pub open spec fn expression_node(expr: ASTExpression) -> ASTStatement {
        ASTStatement { kind: ASTStatementKind::Expression(expr) }
    }

    pub fn new(kind: ASTStatementKind) -> (r: Self)
        ensures
            r.kind == kind,
    {
        ASTStatement { kind }
    }

    pub fn expression(expr: ASTExpression) -> (r: Self)
        ensures
            r == Self::expression_node(expr),
    {
        ASTStatement::new(ASTStatementKind::Expression(expr))
    }
}

/// A program: its statements in order.
pub struct Ast {
    pub statements: Vec<ASTStatement>,
}

impl Ast {
    pub fn new() -> (r: Self)
        ensures
            r.statements@.len() == 0,
    {
        Self { statements: Vec::new() }
    }

    pub fn add_statement(&mut self, statement: ASTStatement)
        ensures
            final(self).statements@ == old(self).statements@.push(statement),
    {
        self.statements.push(statement);
    }
}

} // verus!
