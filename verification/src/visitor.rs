//! The traversal contract shared by every consumer of a tree.
//!
//! A visitor collects items. What it collects for an expression depends on
//! the expression alone, so a walk over a program adds, statement by
//! statement, what each statement's expression produces.

use vstd::prelude::*;
use crate::ast::{
    ASTBinaryExpression, ASTExpression, ASTExpressionKind, ASTNumberExpression,
    ASTParenthesizedExpression, ASTStartEndExpression, ASTStatement, ASTStatementKind,
    ASTVariableExpression, Ast,
};

verus! {

/// A consumer of trees, with one method for each kind of node.
pub trait ASTVisitor: Sized {
    /// What the visitor collects.
    type Item;

    /// The items collected so far, oldest first.
    spec fn collected(&self) -> Seq<Self::Item>;

    /// The items that a visit of `expression` adds.
    spec fn produced_by(expression: ASTExpression) -> Seq<Self::Item>;

    /// Visits the expression that the statement holds.
    fn visit_statement(&mut self, statement: &ASTStatement)
        ensures
            final(self).collected() == old(self).collected() + (match statement.kind {
                ASTStatementKind::Expression(expression) => Self::produced_by(expression),
            }),
    ;

    /// Visits an expression of any kind.
    fn visit_expression(&mut self, expression: &ASTExpression)
        ensures
            final(self).collected() == old(self).collected() + Self::produced_by(*expression),
    ;

    /// Visits a numeric literal.
    fn visit_number(&mut self, number: &ASTNumberExpression)
        ensures
            final(self).collected() == old(self).collected() + Self::produced_by(
                ASTExpression { kind: ASTExpressionKind::Number(*number) },
            ),
    ;

    /// Visits a variable taken by itself. A visitor may treat some names
    /// apart before it comes here, so what this adds is the visitor's own
    /// affair.
    fn visit_variable(&mut self, variable: &ASTVariableExpression);

    /// Visits a binary expression: its left operand, then its right one.
    fn visit_binary_expression(&mut self, binary_expression: &ASTBinaryExpression)
        ensures
            final(self).collected() == old(self).collected() + Self::produced_by(
                ASTExpression { kind: ASTExpressionKind::Binary(*binary_expression) },
            ),
    ;

    /// Visits an expression in round brackets.
    fn visit_parenthesized_expression(
        &mut self,
        parenthesized_expression: &ASTParenthesizedExpression,
    )
        ensures
            final(self).collected() == old(self).collected() + Self::produced_by(
                ASTExpression { kind: ASTExpressionKind::Parenthesized(*parenthesized_expression) },
            ),
    ;

    /// Visits an expression in curly brackets.
    fn visit_start_end_expression(&mut self, start_end_expression: &ASTStartEndExpression)
        ensures
            final(self).collected() == old(self).collected() + Self::produced_by(
                ASTExpression { kind: ASTExpressionKind::StartEnd(*start_end_expression) },
            ),
    ;
}

/// The items that a visit of `statement` adds.
pub open spec fn produced_by_statement<V: ASTVisitor>(statement: ASTStatement) -> Seq<V::Item> {
    match statement.kind {
        ASTStatementKind::Expression(expression) => V::produced_by(expression),
    }
}

/// The items that a walk over `statements` adds.
pub open spec fn produced_by_all<V: ASTVisitor>(statements: Seq<ASTStatement>) -> Seq<V::Item>
    decreases statements.len(),
{
    if statements.len() == 0 {
        Seq::empty()
    } else {
        produced_by_all::<V>(statements.drop_last()) + produced_by_statement::<V>(
            statements.last(),
        )
    }
}

impl Ast {
    /// Walks the program: the visitor visits every statement, in order.
    pub fn visit<V: ASTVisitor>(&self, visitor: &mut V)
        ensures
            final(visitor).collected() == old(visitor).collected() + produced_by_all::<V>(
                self.statements@,
            ),
    {
        let n: usize = self.statements.len();
        let mut i: usize = 0;
        assert(self.statements@.subrange(0, 0) =~= Seq::<ASTStatement>::empty());
        assert(visitor.collected() =~= old(visitor).collected() + produced_by_all::<V>(
            self.statements@.subrange(0, 0),
        ));
        while i < n
            invariant
                n == self.statements@.len(),
                i <= n,
                visitor.collected() == old(visitor).collected() + produced_by_all::<V>(
                    self.statements@.subrange(0, i as int),
                ),
            decreases n - i,
        {
            let ghost done = self.statements@.subrange(0, i as int);
            visitor.visit_statement(&self.statements[i]);
            proof {
                let next = self.statements@.subrange(0, i + 1);
                assert(next.drop_last() =~= done);
                assert(next.last() == self.statements@[i as int]);
                assert(visitor.collected() =~= old(visitor).collected() + produced_by_all::<V>(
                    next,
                ));
            }
            i += 1;
        }
        assert(self.statements@.subrange(0, n as int) =~= self.statements@);
    }
}

} // verus!
