//! The renderers: they walk a tree and lay out, in order, the pieces of its
//! display, once as plain text and once as tagged text.
//!
//! A piece is fixed text, a variable's name, or a number's decimal text; how
//! a number is shown is left to whoever writes the pieces out.

use vstd::prelude::*;
use crate::ast::{
    ASTBinaryExpression, ASTBinaryOperator, ASTExpression, ASTExpressionKind, ASTNumberExpression,
    ASTParenthesizedExpression, ASTStartEndExpression, ASTStatement, ASTStatementKind,
    ASTVariableExpression, Ast,
};
use crate::visitor::{produced_by_all, ASTVisitor};

verus! {

/// One piece of a rendered tree.
#[derive(Debug, PartialEq)]
pub enum Fragment {
    /// Text that is the same for every tree.
    Fixed(&'static str),
    /// The name of a variable.
    Name(String),
    /// The decimal text of a number.
    Number(String),
}

/// The line that opens a tagged rendering.
pub open spec fn xml_declaration() -> &'static str {
    "<?xml version=\"1.0\" encoding=\"UTF-8\"?>\n"
}

/// The pieces of `expr` in the plain rendering.
pub open spec fn plain_of(expr: ASTExpression) -> Seq<Fragment>
    decreases expr,
{
    match expr.kind {
        ASTExpressionKind::Number(n) => seq![
            Fragment::Fixed("Real("),
            Fragment::Number(n.number),
            Fragment::Fixed(")"),
        ],
        ASTExpressionKind::Variable(name) => seq![
            Fragment::Fixed("Variable("),
            Fragment::Name(name),
            Fragment::Fixed(")"),
        ],
        ASTExpressionKind::Binary(b) => seq![Fragment::Fixed(b.operator.kind.spelled()), Fragment::Fixed("(")] + plain_of(*b.left) + seq![
            Fragment::Fixed(","),
        ] + plain_of(*b.right) + seq![Fragment::Fixed(")")],
        ASTExpressionKind::Parenthesized(p) => seq![Fragment::Fixed("(")] + plain_of(
            *p.expression,
        ) + seq![Fragment::Fixed(")")],
        ASTExpressionKind::StartEnd(s) => seq![Fragment::Fixed("{")] + plain_of(*s.expression) + seq![
            Fragment::Fixed("}"),
        ],
    }
}

/// The pieces of `expr` in the tagged rendering.
pub open spec fn xml_of(expr: ASTExpression) -> Seq<Fragment>
    decreases expr,
{
    match expr.kind {
        ASTExpressionKind::Number(n) => seq![
            Fragment::Fixed("<real>"),
            Fragment::Number(n.number),
            Fragment::Fixed("</real>\n"),
        ],
        ASTExpressionKind::Variable(name) => seq![
            Fragment::Fixed("<variable>"),
            Fragment::Name(name),
            Fragment::Fixed("</variable>\n"),
        ],
        ASTExpressionKind::Binary(b) => seq![Fragment::Fixed("<"), Fragment::Fixed(b.operator.kind.spelled()), Fragment::Fixed(">"), Fragment::Fixed("\n")] + xml_of(*b.left) + seq![
            Fragment::Fixed("\n"),
        ] + xml_of(*b.right) + seq![Fragment::Fixed("</"), Fragment::Fixed(b.operator.kind.spelled()), Fragment::Fixed(">\n")],
        ASTExpressionKind::Parenthesized(p) => seq![Fragment::Fixed("<paren>")] + xml_of(
            *p.expression,
        ) + seq![Fragment::Fixed("</paren>\n")],
        ASTExpressionKind::StartEnd(s) => seq![Fragment::Fixed("{")] + xml_of(*s.expression) + seq![
            Fragment::Fixed("}"),
        ],
    }
}

/// The plain rendering of a bracketed pair of numbers shows what was
/// parsed: the brackets, the operator's name, and the two numbers in the
/// order they were written.
pub proof fn lemma_bracketed_pair_rendering(operator: ASTBinaryOperator, a: String, b: String)
    ensures
        plain_of(
            ASTExpression::parenthesized_node(
                ASTExpression::binary_node(
                    operator,
                    ASTExpression::number_node(a),
                    ASTExpression::number_node(b),
                ),
            ),
        ) == seq![
            Fragment::Fixed("("),
            Fragment::Fixed(operator.kind.spelled()),
            Fragment::Fixed("("),
            Fragment::Fixed("Real("),
            Fragment::Number(a),
            Fragment::Fixed(")"),
            Fragment::Fixed(","),
            Fragment::Fixed("Real("),
            Fragment::Number(b),
            Fragment::Fixed(")"),
            Fragment::Fixed(")"),
            Fragment::Fixed(")"),
        ],
{
    let left = ASTExpression::number_node(a);
    let right = ASTExpression::number_node(b);
    let pair = ASTExpression::binary_node(operator, left, right);
    assert(plain_of(left) == seq![
        Fragment::Fixed("Real("),
        Fragment::Number(a),
        Fragment::Fixed(")"),
    ]);
    assert(plain_of(right) == seq![
        Fragment::Fixed("Real("),
        Fragment::Number(b),
        Fragment::Fixed(")"),
    ]);
    assert(plain_of(pair) =~= seq![
        Fragment::Fixed(operator.kind.spelled()),
        Fragment::Fixed("("),
        Fragment::Fixed("Real("),
        Fragment::Number(a),
        Fragment::Fixed(")"),
        Fragment::Fixed(","),
        Fragment::Fixed("Real("),
        Fragment::Number(b),
        Fragment::Fixed(")"),
        Fragment::Fixed(")"),
    ]);
    assert(plain_of(ASTExpression::parenthesized_node(pair)) =~= seq![Fragment::Fixed("(")]
        + plain_of(pair) + seq![Fragment::Fixed(")")]);
}

/// Collects the plain rendering of what it visits.
pub struct ASTPrinter {
    pub output: Vec<Fragment>,
}

impl ASTPrinter {
    pub fn new() -> (r: Self)
        ensures
            r.output@.len() == 0,
    {
        Self { output: Vec::new() }
    }

    /// Adds one piece of fixed text.
    fn emit(&mut self, text: &'static str)
        ensures
            final(self).output@ == old(self).output@.push(Fragment::Fixed(text)),
    {
        self.output.push(Fragment::Fixed(text));
    }
}

impl ASTVisitor for ASTPrinter {
    type Item = Fragment;

    open spec fn collected(&self) -> Seq<Fragment> {
        self.output@
    }

    open spec fn produced_by(expression: ASTExpression) -> Seq<Fragment> {
        plain_of(expression)
    }

    fn visit_statement(&mut self, statement: &ASTStatement) {
        match &statement.kind {
            ASTStatementKind::Expression(expr) => {
                self.visit_expression(expr);
            },
        }
    }

    fn visit_expression(&mut self, expression: &ASTExpression)
        decreases *expression,
    {
        match &expression.kind {
            ASTExpressionKind::Number(number) => {
                self.visit_number(number);
            },
            ASTExpressionKind::Binary(expr) => {
                self.visit_binary_expression(expr);
            },
            ASTExpressionKind::Parenthesized(expr) => {
                self.visit_parenthesized_expression(expr);
            },
            ASTExpressionKind::StartEnd(expr) => {
                self.visit_start_end_expression(expr);
            },
            ASTExpressionKind::Variable(variable_name) => {
                let variable_expression = ASTVariableExpression::new(variable_name.clone());
                self.visit_variable(&variable_expression);
            },
        }
    }

    fn visit_number(&mut self, number: &ASTNumberExpression)
        ensures
            final(self).output@ == old(self).output@ + seq![
                Fragment::Fixed("Real("),
                Fragment::Number(number.number),
                Fragment::Fixed(")"),
            ],
    {
        self.emit("Real(");
        self.output.push(Fragment::Number(number.number.clone()));
        self.emit(")");
        assert(final(self).output@ =~= old(self).output@ + seq![
            Fragment::Fixed("Real("),
            Fragment::Number(number.number),
            Fragment::Fixed(")"),
        ]);
    }

    fn visit_variable(&mut self, variable: &ASTVariableExpression)
        ensures
            final(self).output@ == old(self).output@ + seq![
                Fragment::Fixed("Variable("),
                Fragment::Name(variable.name),
                Fragment::Fixed(")"),
            ],
    {
        self.emit("Variable(");
        self.output.push(Fragment::Name(variable.name.clone()));
        self.emit(")");
        assert(final(self).output@ =~= old(self).output@ + seq![
            Fragment::Fixed("Variable("),
            Fragment::Name(variable.name),
            Fragment::Fixed(")"),
        ]);
    }

    fn visit_binary_expression(&mut self, binary_expression: &ASTBinaryExpression)
        decreases *binary_expression,
    {
        self.emit(binary_expression.operator.kind.name());
        self.emit("(");
        self.visit_expression(&binary_expression.left);
        self.emit(",");
        self.visit_expression(&binary_expression.right);
        self.emit(")");
        assert(final(self).output@ =~= old(self).output@ + plain_of(
            ASTExpression { kind: ASTExpressionKind::Binary(*binary_expression) },
        ));
    }

    fn visit_parenthesized_expression(
        &mut self,
        parenthesized_expression: &ASTParenthesizedExpression,
    )
        decreases *parenthesized_expression,
    {
        self.emit("(");
        self.visit_expression(&parenthesized_expression.expression);
        self.emit(")");
        assert(final(self).output@ =~= old(self).output@ + plain_of(
            ASTExpression { kind: ASTExpressionKind::Parenthesized(*parenthesized_expression) },
        ));
    }

    fn visit_start_end_expression(&mut self, start_end_expression: &ASTStartEndExpression)
        decreases *start_end_expression,
    {
        self.emit("{");
        self.visit_expression(&start_end_expression.expression);
        self.emit("}");
        assert(final(self).output@ =~= old(self).output@ + plain_of(
            ASTExpression { kind: ASTExpressionKind::StartEnd(*start_end_expression) },
        ));
    }
}

/// Collects the tagged rendering of what it visits.
pub struct ASTXMLPrinter {
    pub output: Vec<Fragment>,
}

impl ASTXMLPrinter {
    pub fn new() -> (r: Self)
        ensures
            r.output@.len() == 0,
    {
        Self { output: Vec::new() }
    }

    /// Adds one piece of fixed text.
    fn emit(&mut self, text: &'static str)
        ensures
            final(self).output@ == old(self).output@.push(Fragment::Fixed(text)),
    {
        self.output.push(Fragment::Fixed(text));
    }
}

impl ASTVisitor for ASTXMLPrinter {
    type Item = Fragment;

    open spec fn collected(&self) -> Seq<Fragment> {
        self.output@
    }

    open spec fn produced_by(expression: ASTExpression) -> Seq<Fragment> {
        xml_of(expression)
    }

    fn visit_statement(&mut self, statement: &ASTStatement) {
        match &statement.kind {
            ASTStatementKind::Expression(expr) => {
                self.visit_expression(expr);
            },
        }
    }

    fn visit_expression(&mut self, expression: &ASTExpression)
        decreases *expression,
    {
        match &expression.kind {
            ASTExpressionKind::Number(number) => {
                self.visit_number(number);
            },
            ASTExpressionKind::Binary(expr) => {
                self.visit_binary_expression(expr);
            },
            ASTExpressionKind::Parenthesized(expr) => {
                self.visit_parenthesized_expression(expr);
            },
            ASTExpressionKind::StartEnd(expr) => {
                self.visit_start_end_expression(expr);
            },
            ASTExpressionKind::Variable(variable_name) => {
                let variable_expression = ASTVariableExpression::new(variable_name.clone());
                self.visit_variable(&variable_expression);
            },
        }
    }

    fn visit_number(&mut self, number: &ASTNumberExpression)
        ensures
            final(self).output@ == old(self).output@ + seq![
                Fragment::Fixed("<real>"),
                Fragment::Number(number.number),
                Fragment::Fixed("</real>\n"),
            ],
    {
        self.emit("<real>");
        self.output.push(Fragment::Number(number.number.clone()));
        self.emit("</real>\n");
        assert(final(self).output@ =~= old(self).output@ + seq![
            Fragment::Fixed("<real>"),
            Fragment::Number(number.number),
            Fragment::Fixed("</real>\n"),
        ]);
    }

    fn visit_variable(&mut self, variable: &ASTVariableExpression)
        ensures
            final(self).output@ == old(self).output@ + seq![
                Fragment::Fixed("<variable>"),
                Fragment::Name(variable.name),
                Fragment::Fixed("</variable>\n"),
            ],
    {
        self.emit("<variable>");
        self.output.push(Fragment::Name(variable.name.clone()));
        self.emit("</variable>\n");
        assert(final(self).output@ =~= old(self).output@ + seq![
            Fragment::Fixed("<variable>"),
            Fragment::Name(variable.name),
            Fragment::Fixed("</variable>\n"),
        ]);
    }

    fn visit_binary_expression(&mut self, binary_expression: &ASTBinaryExpression)
        decreases *binary_expression,
    {
        self.emit("<");
        self.emit(binary_expression.operator.kind.name());
        self.emit(">");
        self.emit("\n");
        self.visit_expression(&binary_expression.left);
        self.emit("\n");
        self.visit_expression(&binary_expression.right);
        self.emit("</");
        self.emit(binary_expression.operator.kind.name());
        self.emit(">\n");
        assert(final(self).output@ =~= old(self).output@ + xml_of(
            ASTExpression { kind: ASTExpressionKind::Binary(*binary_expression) },
        ));
    }

    fn visit_parenthesized_expression(
        &mut self,
        parenthesized_expression: &ASTParenthesizedExpression,
    )
        decreases *parenthesized_expression,
    {
        self.emit("<paren>");
        self.visit_expression(&parenthesized_expression.expression);
        self.emit("</paren>\n");
        assert(final(self).output@ =~= old(self).output@ + xml_of(
            ASTExpression { kind: ASTExpressionKind::Parenthesized(*parenthesized_expression) },
        ));
    }

    fn visit_start_end_expression(&mut self, start_end_expression: &ASTStartEndExpression)
        decreases *start_end_expression,
    {
        self.emit("{");
        self.visit_expression(&start_end_expression.expression);
        self.emit("}");
        assert(final(self).output@ =~= old(self).output@ + xml_of(
            ASTExpression { kind: ASTExpressionKind::StartEnd(*start_end_expression) },
        ));
    }
}

impl Ast {
    /// The plain rendering of the program.
    pub fn visualize(&self) -> (pieces: Vec<Fragment>)
        ensures
            pieces@ == produced_by_all::<ASTPrinter>(self.statements@),
    {
        let mut printer = ASTPrinter::new();
        self.visit(&mut printer);
        assert(printer.output@ =~= produced_by_all::<ASTPrinter>(self.statements@));
        printer.output
    }

    /// The tagged rendering of the program, inside its envelope.
    #[allow(non_snake_case)]
    pub fn visualizeXML(&self) -> (pieces: Vec<Fragment>)
        ensures
            pieces@ == seq![Fragment::Fixed(xml_declaration()), Fragment::Fixed("<program>\n")]
                + produced_by_all::<ASTXMLPrinter>(self.statements@) + seq![Fragment::Fixed("</program>")],
    {
        let mut printer = ASTXMLPrinter::new();
        printer.emit("<?xml version=\"1.0\" encoding=\"UTF-8\"?>\n");
        printer.emit("<program>\n");
        self.visit(&mut printer);
        printer.emit("</program>");
        assert(printer.output@ =~= seq![
            Fragment::Fixed(xml_declaration()),
            Fragment::Fixed("<program>\n"),
        ] + produced_by_all::<ASTXMLPrinter>(self.statements@) + seq![Fragment::Fixed("</program>")]);
        printer.output
    }
}

} // verus!
