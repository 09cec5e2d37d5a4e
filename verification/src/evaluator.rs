//! The evaluator: it walks a tree and lays out, in order, the steps that
//! compute its value on a stack of numbers.
//!
//! Operands come before the operator that combines them, the left one
//! first. Brackets of either kind leave no step: grouping only shapes the
//! tree.

use vstd::prelude::*;
use crate::ast::{
    ASTBinaryExpression, ASTBinaryOperator, ASTBinaryOperatorKind, ASTExpression, ASTExpressionKind,
    ASTNumberExpression, ASTParenthesizedExpression, ASTStartEndExpression, ASTStatement,
    ASTStatementKind, ASTVariableExpression, Ast,
};
use crate::chars::same_text;
use crate::visitor::ASTVisitor;

verus! {

/// One step of an evaluation.
#[derive(Debug, PartialEq)]
pub enum EvalStep {
    /// Push the value of this decimal text.
    Number(String),
    /// Push this whole number.
    Whole(u8),
    /// Push the value bound to this name, or "no value" where none is bound.
    Lookup(String),
    /// Take the right operand, then the left one, and push the result of the
    /// operator. An operand that is "no value" is fatal. Addition,
    /// subtraction and multiplication are the usual ones; both division
    /// operators divide without rounding, and a zero divisor gives what the
    /// number format gives; the power operator first cuts its exponent down
    /// to a whole number that is not negative.
    Apply(ASTBinaryOperatorKind),
}

/// The step for a reference to the variable `name`: the two reserved names
/// stand for fixed numbers, every other name is looked up.
pub open spec fn variable_step(name: String) -> EvalStep {
    if name@ == seq!['x'] {
        EvalStep::Whole(1)
    } else if name@ == seq!['y'] {
        EvalStep::Whole(3)
    } else {
        EvalStep::Lookup(name)
    }
}

/// The steps that evaluate `expr`.
pub open spec fn steps_of(expr: ASTExpression) -> Seq<EvalStep>
    decreases expr,
{
    match expr.kind {
        ASTExpressionKind::Number(n) => seq![EvalStep::Number(n.number)],
        ASTExpressionKind::Variable(name) => seq![variable_step(name)],
        ASTExpressionKind::Binary(b) => steps_of(*b.left) + steps_of(*b.right) + seq![
            EvalStep::Apply(b.operator.kind),
        ],
        ASTExpressionKind::Parenthesized(p) => steps_of(*p.expression),
        ASTExpressionKind::StartEnd(s) => steps_of(*s.expression),
    }
}

/// The steps that evaluate `statement`.
pub open spec fn statement_steps(statement: ASTStatement) -> Seq<EvalStep> {
    match statement.kind {
        ASTStatementKind::Expression(expr) => steps_of(expr),
    }
}

/// The height of the stack after `steps`, run on a stack of height `depth`;
/// `None` where a step finds too few operands.
pub open spec fn depth_after(steps: Seq<EvalStep>, depth: int) -> Option<int>
    decreases steps.len(),
{
    if steps.len() == 0 {
        Some(depth)
    } else {
        let rest = steps.subrange(1, steps.len() as int);
        match steps[0] {
            EvalStep::Apply(_) => if depth >= 2 {
                depth_after(rest, depth - 1)
            } else {
                None
            },
            _ => depth_after(rest, depth + 1),
        }
    }
}

/// Running `a` and then `b` is running `a + b`.
pub proof fn lemma_depth_after_concat(a: Seq<EvalStep>, b: Seq<EvalStep>, depth: int)
    ensures
        depth_after(a + b, depth) == match depth_after(a, depth) {
            Some(d) => depth_after(b, d),
            None => None,
        },
    decreases a.len(),
{
    if a.len() == 0 {
        assert(a + b =~= b);
    } else {
        let rest = a.subrange(1, a.len() as int);
        assert((a + b).subrange(1, (a + b).len() as int) =~= rest + b);
        assert((a + b)[0] == a[0]);
        match a[0] {
            EvalStep::Apply(_) => {
                if depth >= 2 {
                    lemma_depth_after_concat(rest, b, depth - 1);
                }
            },
            _ => {
                lemma_depth_after_concat(rest, b, depth + 1);
            },
        }
    }
}

/// The steps of an expression never find the stack too short, and leave it
/// one number higher than they found it.
pub proof fn lemma_steps_push_one(expr: ASTExpression, depth: int)
    requires
        depth >= 0,
    ensures
        depth_after(steps_of(expr), depth) == Some(depth + 1),
    decreases expr,
{
    match expr.kind {
        ASTExpressionKind::Binary(b) => {
            let l = steps_of(*b.left);
            let r = steps_of(*b.right);
            let op = seq![EvalStep::Apply(b.operator.kind)];
            lemma_steps_push_one(*b.left, depth);
            lemma_steps_push_one(*b.right, depth + 1);
            lemma_depth_after_concat(l, r, depth);
            lemma_depth_after_concat(l + r, op, depth);
            assert(op.subrange(1, 1) =~= Seq::<EvalStep>::empty());
            assert(depth_after(op.subrange(1, 1), depth + 1) == Some(depth + 1));
        },
        ASTExpressionKind::Parenthesized(p) => {
            lemma_steps_push_one(*p.expression, depth);
        },
        ASTExpressionKind::StartEnd(s) => {
            lemma_steps_push_one(*s.expression, depth);
        },
        _ => {
            let one = steps_of(expr);
            assert(one.subrange(1, 1) =~= Seq::<EvalStep>::empty());
            assert(depth_after(one.subrange(1, 1), depth + 1) == Some(depth + 1));
        },
    }
}

/// Brackets of either kind are transparent: a group evaluates by the steps
/// of its inside.
pub proof fn lemma_grouping_is_transparent(inner: ASTExpression)
    ensures
        steps_of(ASTExpression::parenthesized_node(inner)) == steps_of(inner),
        steps_of(ASTExpression::start_end_node(inner)) == steps_of(inner),
{
}

/// A bracketed pair evaluates in the order it is written: the left
/// operand, the right operand, then the operator, exactly as the bare pair
/// does.
pub proof fn lemma_bracketed_pair_steps(
    operator: ASTBinaryOperator,
    left: ASTExpression,
    right: ASTExpression,
)
    ensures
        steps_of(ASTExpression::parenthesized_node(ASTExpression::binary_node(operator, left, right)))
            == steps_of(left) + steps_of(right) + seq![EvalStep::Apply(operator.kind)],
        steps_of(ASTExpression::parenthesized_node(ASTExpression::binary_node(operator, left, right)))
            == steps_of(ASTExpression::binary_node(operator, left, right)),
{
    let pair = ASTExpression::binary_node(operator, left, right);
    assert(steps_of(pair) == steps_of(left) + steps_of(right) + seq![
        EvalStep::Apply(operator.kind),
    ]);
}

/// A name other than the two reserved ones is looked up: its step is never
/// a number of the evaluator's own choosing.
pub proof fn lemma_unreserved_name_is_looked_up(name: String)
    requires
        name@ != seq!['x'],
        name@ != seq!['y'],
    ensures
        steps_of(ASTExpression::variable_node(name)) == seq![EvalStep::Lookup(name)],
{
}

/// Collects the steps of the expressions it visits.
pub struct ASTEvaluator {
    pub steps: Vec<EvalStep>,
}

impl ASTEvaluator {
    pub fn new() -> (r: Self)
        ensures
            r.steps@.len() == 0,
    {
        Self { steps: Vec::new() }
    }
}

impl ASTVisitor for ASTEvaluator {
    type Item = EvalStep;

    open spec fn collected(&self) -> Seq<EvalStep> {
        self.steps@
    }

    open spec fn produced_by(expression: ASTExpression) -> Seq<EvalStep> {
        steps_of(expression)
    }

    fn visit_statement(&mut self, statement: &ASTStatement) {
        match &statement.kind {
            ASTStatementKind::Expression(expr) => {
                self.visit_expression(expr);
            },
        }
    }

    fn visit_expression(&mut self, expression: &ASTExpression)
        decreases *expression,
    {
        match &expression.kind {
            ASTExpressionKind::Number(number) => {
                self.visit_number(number);
            },
            ASTExpressionKind::Binary(expr) => {
                self.visit_binary_expression(expr);
            },
            ASTExpressionKind::Parenthesized(expr) => {
                self.visit_parenthesized_expression(expr);
            },
            ASTExpressionKind::StartEnd(expr) => {
                self.visit_start_end_expression(expr);
            },
            ASTExpressionKind::Variable(variable_name) => {
                proof {
                    reveal_strlit("x");
                    reveal_strlit("y");
                    assert("x"@ =~= seq!['x']);
                    assert("y"@ =~= seq!['y']);
                }
                if same_text(variable_name.as_str(), "x") {
                    self.steps.push(EvalStep::Whole(1));
                } else if same_text(variable_name.as_str(), "y") {
                    self.steps.push(EvalStep::Whole(3));
                } else {
                    let variable_expression = ASTVariableExpression::new(variable_name.clone());
                    self.visit_variable(&variable_expression);
                }
                assert(final(self).steps@ =~= old(self).steps@ + steps_of(*expression));
            },
        }
    }

    fn visit_number(&mut self, number: &ASTNumberExpression)
        ensures
            final(self).steps@ == old(self).steps@.push(EvalStep::Number(number.number)),
    {
        self.steps.push(EvalStep::Number(number.number.clone()));
    }

    fn visit_variable(&mut self, variable: &ASTVariableExpression)
        ensures
            final(self).steps@ == old(self).steps@.push(EvalStep::Lookup(variable.name)),
    {
        self.steps.push(EvalStep::Lookup(variable.name.clone()));
    }

    fn visit_binary_expression(&mut self, binary_expression: &ASTBinaryExpression)
        ensures
            final(self).steps@ == old(self).steps@ + steps_of(*binary_expression.left) + steps_of(
                *binary_expression.right,
            ) + seq![EvalStep::Apply(binary_expression.operator.kind)],
        decreases *binary_expression,
    {
        self.visit_expression(&binary_expression.left);
        self.visit_expression(&binary_expression.right);
        self.steps.push(EvalStep::Apply(binary_expression.operator.kind));
        assert(final(self).steps@ =~= old(self).steps@ + steps_of(*binary_expression.left)
            + steps_of(*binary_expression.right) + seq![
            EvalStep::Apply(binary_expression.operator.kind),
        ]);
    }

    fn visit_parenthesized_expression(
        &mut self,
        parenthesized_expression: &ASTParenthesizedExpression,
    )
        ensures
            final(self).steps@ == old(self).steps@ + steps_of(*parenthesized_expression.expression),
        decreases *parenthesized_expression,
    {
        self.visit_expression(&parenthesized_expression.expression);
    }

    fn visit_start_end_expression(&mut self, start_end_expression: &ASTStartEndExpression)
        ensures
            final(self).steps@ == old(self).steps@ + steps_of(*start_end_expression.expression),
        decreases *start_end_expression,
    {
        self.visit_expression(&start_end_expression.expression);
    }
}

impl Ast {
    /// The steps that evaluate the program, statement by statement. The
    /// program's result is the number that the steps of the last statement
    /// leave; a program without statements has no result.
    pub fn evaluate(&self) -> (plan: Vec<Vec<EvalStep>>)
        ensures
            plan@.len() == self.statements@.len(),
            forall|i: int|
                0 <= i < plan@.len() ==> (#[trigger] plan@[i])@ == statement_steps(
                    self.statements@[i],
                ),
    {
        let mut plan: Vec<Vec<EvalStep>> = Vec::new();
        let n: usize = self.statements.len();
        let mut i: usize = 0;
        while i < n
            invariant
                n == self.statements@.len(),
                i <= n,
                plan@.len() == i,
                forall|k: int|
                    0 <= k < i ==> (#[trigger] plan@[k])@ == statement_steps(self.statements@[k]),
            decreases n - i,
        {
            let mut evaluator = ASTEvaluator::new();
            evaluator.visit_statement(&self.statements[i]);
            assert(evaluator.steps@ =~= statement_steps(self.statements@[i as int]));
            plan.push(evaluator.steps);
            i += 1;
        }
        plan
    }
}

} // verus!
