use exprlang::ast::{
    ASTBinaryOperator, ASTBinaryOperatorKind, ASTExpression, ASTExpressionKind, ASTStatement,
    ASTStatementKind, ASTVariableExpression, Ast,
};
use exprlang::evaluator::{ASTEvaluator, EvalStep};
use exprlang::lexer::{tokenize, TextSpan, Token, TokenKind};
use exprlang::parser::{parse_program, ParseError, Parser};
use exprlang::printer::{ASTPrinter, ASTXMLPrinter, Fragment};
use exprlang::visitor::ASTVisitor;
use std::collections::HashMap;

fn parse(input: &str) -> Ast {
    let mut ast = Ast::new();
    let mut parser = Parser::new(tokenize(input));
    while let Some(statement) = parser.try_next_statement().unwrap() {
        ast.add_statement(statement);
    }
    ast
}

fn run(steps: &[EvalStep], variables: &HashMap<String, f64>) -> Option<f64> {
    let mut stack: Vec<Option<f64>> = Vec::new();
    for step in steps {
        match step {
            EvalStep::Number(text) => stack.push(Some(text.parse::<f64>().unwrap_or(0.0))),
            EvalStep::Whole(n) => stack.push(Some(f64::from(*n))),
            EvalStep::Lookup(name) => stack.push(variables.get(name).cloned()),
            EvalStep::Apply(kind) => {
                let right = stack.pop().unwrap().unwrap();
                let left = stack.pop().unwrap().unwrap();
                stack.push(Some(match kind {
                    ASTBinaryOperatorKind::Plus => left + right,
                    ASTBinaryOperatorKind::Minus => left - right,
                    ASTBinaryOperatorKind::Multiply => left * right,
                    ASTBinaryOperatorKind::Divide => left / right,
                    ASTBinaryOperatorKind::Pow => left.powf((right as u32).into()),
                    ASTBinaryOperatorKind::IntegerDivide => left / right,
                    ASTBinaryOperatorKind::Eof => 0.0,
                }));
            }
        }
    }
    assert_eq!(stack.len(), 1);
    stack.pop().unwrap()
}

fn evaluate(input: &str) -> Option<f64> {
    let variables = HashMap::new();
    let mut last = None;
    for steps in parse(input).evaluate() {
        last = run(&steps, &variables);
    }
    last
}

fn show(pieces: &[Fragment]) -> String {
    let mut out = String::new();
    for piece in pieces {
        match piece {
            Fragment::Fixed(text) => out.push_str(text),
            Fragment::Name(name) => out.push_str(name),
            Fragment::Number(text) => {
                let number = text.parse::<f64>().unwrap_or(0.0);
                if number.fract() == 0.0 {
                    out.push_str(&format!("{}.0", number));
                } else {
                    out.push_str(&format!("{}", number));
                }
            }
        }
    }
    out
}

fn number(text: &str) -> ASTExpression {
    ASTExpression::number(text.to_string())
}

fn operator(kind: ASTBinaryOperatorKind, token: TokenKind, at: usize, text: &str) -> ASTBinaryOperator {
    ASTBinaryOperator::new(
        kind,
        Token::new(token, TextSpan::new(at, at + text.chars().count(), text.to_string())),
    )
}

fn only_expression(ast: Ast) -> ASTExpression {
    assert_eq!(ast.statements.len(), 1);
    match ast.statements.into_iter().next().unwrap().kind {
        ASTStatementKind::Expression(expression) => expression,
    }
}

#[test]
fn multiplication_binds_tighter_than_addition() {
    assert_eq!(evaluate("2 + 3 * 4"), Some(14.0));
    assert_eq!(evaluate("2 * 3 + 4"), Some(10.0));
}

#[test]
fn brackets_override_precedence() {
    assert_eq!(evaluate("(2 + 3) * 4"), Some(20.0));
    assert_eq!(evaluate("2 + 3 * (2 + 4)"), Some(20.0));
}

#[test]
fn equal_precedence_groups_to_the_right() {
    assert_eq!(evaluate("8 - 3 - 2"), Some(7.0));
    let tree = only_expression(parse("8 - 3 - 2"));
    assert_eq!(
        tree,
        ASTExpression::binary(
            operator(ASTBinaryOperatorKind::Minus, TokenKind::Minus, 2, "-"),
            number("8.0"),
            ASTExpression::binary(
                operator(ASTBinaryOperatorKind::Minus, TokenKind::Minus, 6, "-"),
                number("3.0"),
                number("2.0"),
            ),
        )
    );
}

#[test]
fn power_truncates_its_exponent() {
    assert_eq!(evaluate("2 ^ 3"), Some(8.0));
    assert_eq!(evaluate("2 ^ 3.9"), Some(8.0));
    assert_eq!(evaluate("2 * 3 ^ 2"), Some(18.0));
}

#[test]
fn division_is_floating_point_for_both_operators() {
    assert_eq!(evaluate("7 / 2"), Some(3.5));
    assert_eq!(evaluate("7 // 2"), Some(3.5));
    assert_eq!(evaluate("1 / 0"), Some(f64::INFINITY));
}

#[test]
fn block_wraps_a_binary_expression_and_is_transparent() {
    let tree = only_expression(parse("{ 2 + 2 }"));
    match &tree.kind {
        ASTExpressionKind::StartEnd(block) => {
            assert!(matches!(block.expression.kind, ASTExpressionKind::Binary(_)));
        }
        other => panic!("not a block: {:?}", other),
    }
    assert_eq!(evaluate("{ 2 + 2 }"), Some(4.0));
    assert_eq!(evaluate("2 + 2"), Some(4.0));
    assert_eq!(parse("{ 2 + 2 }").evaluate(), parse("2 + 2").evaluate());
}

#[test]
fn bracketed_pair_keeps_its_shape_and_its_steps() {
    let tree = only_expression(parse("(6 / 3)"));
    assert_eq!(
        tree,
        ASTExpression::parenthesized(ASTExpression::binary(
            operator(ASTBinaryOperatorKind::Divide, TokenKind::Slash, 3, "/"),
            number("6.0"),
            number("3.0"),
        ))
    );
    assert_eq!(
        parse("(6 / 3)").evaluate(),
        vec![vec![
            EvalStep::Number("6.0".to_string()),
            EvalStep::Number("3.0".to_string()),
            EvalStep::Apply(ASTBinaryOperatorKind::Divide),
        ]]
    );
    assert_eq!(evaluate("(6 / 3)"), Some(2.0));
    assert_eq!(show(&parse("(6 / 3)").visualize()), "(Divide(Real(6.0),Real(3.0)))");
}

#[test]
fn unbound_variable_has_no_value() {
    assert_eq!(evaluate("foo"), None);
    assert_eq!(
        parse("foo").evaluate(),
        vec![vec![EvalStep::Lookup("foo".to_string())]]
    );
    assert_ne!(evaluate("foo"), Some(0.0));
}

#[test]
fn bound_variable_has_its_value() {
    let mut variables = HashMap::new();
    variables.insert("foo".to_string(), 2.5);
    let plan = parse("foo * 2").evaluate();
    assert_eq!(run(&plan[0], &variables), Some(5.0));
}

#[test]
fn reserved_names_are_fixed_numbers() {
    assert_eq!(evaluate("x"), Some(1.0));
    assert_eq!(evaluate("y"), Some(3.0));
    assert_eq!(evaluate("x + y"), Some(4.0));
    assert_eq!(
        parse("x + y").evaluate(),
        vec![vec![
            EvalStep::Whole(1),
            EvalStep::Whole(3),
            EvalStep::Apply(ASTBinaryOperatorKind::Plus),
        ]]
    );
    let mut variables = HashMap::new();
    variables.insert("x".to_string(), 10.0);
    assert_eq!(run(&parse("x").evaluate()[0], &variables), Some(1.0));
}

#[test]
fn empty_input_has_no_statements_and_no_result() {
    let ast = parse("");
    assert_eq!(ast.statements.len(), 0);
    assert_eq!(ast.evaluate().len(), 0);
    assert_eq!(evaluate(""), None);
    assert_eq!(evaluate("   "), None);
}

#[test]
fn result_is_that_of_the_last_statement() {
    let ast = parse("1 + 1 5");
    assert_eq!(ast.statements.len(), 2);
    assert_eq!(evaluate("1 + 1 5"), Some(5.0));
}

#[test]
fn parser_drops_whitespace() {
    assert_eq!(parse(" 2  +\t3 \n").statements.len(), 1);
    assert_eq!(parse(" 2  +\t3 \n").evaluate(), parse("2+3").evaluate());
    let spaced = only_expression(parse("2 + 3"));
    assert_eq!(
        spaced,
        ASTExpression::binary(
            operator(ASTBinaryOperatorKind::Plus, TokenKind::Plus, 2, "+"),
            number("2.0"),
            number("3.0"),
        )
    );
    let blank = Token::new(TokenKind::Whitespace, TextSpan::new(0, 1, " ".to_string()));
    let mut parser = Parser::new(vec![blank.clone(), blank.clone(), blank]);
    assert_eq!(parser.try_next_statement(), Ok(None));
}

#[test]
fn unparseable_token_ends_the_program() {
    assert_eq!(parse("#").statements.len(), 0);
    assert_eq!(parse(") 1").statements.len(), 0);
    let ast = parse("1 = 2");
    assert_eq!(ast.statements.len(), 1);
    assert_eq!(evaluate("1 = 2"), Some(1.0));
}

#[test]
fn missing_right_operand_gives_no_statement() {
    assert_eq!(parse("2 +").statements.len(), 0);
}

#[test]
fn unclosed_group_is_an_error() {
    let mut parser = Parser::new(tokenize("(2 + 3"));
    assert_eq!(parser.try_next_statement(), Err(ParseError::UnterminatedGroup));
    let mut parser = Parser::new(tokenize("{2 + 3)"));
    assert_eq!(parser.try_next_statement(), Err(ParseError::UnterminatedGroup));
    let mut parser = Parser::new(tokenize("(2 + 3}"));
    assert_eq!(parser.try_next_statement(), Err(ParseError::UnterminatedGroup));
}

#[test]
fn group_cut_off_by_the_end_of_the_tokens_is_an_error() {
    let mut tokens = tokenize("(2 + 3");
    tokens.pop();
    let mut parser = Parser::new(tokens);
    assert_eq!(parser.try_next_statement(), Err(ParseError::UnterminatedGroup));
}

#[test]
fn empty_group_is_no_expression() {
    let mut parser = Parser::new(tokenize("( )"));
    assert_eq!(parser.try_next_statement(), Ok(None));
}

#[test]
fn whole_program_is_parsed_in_order() {
    let ast = parse_program(tokenize("1 (2) {3}")).unwrap();
    assert_eq!(
        ast.statements,
        vec![
            ASTStatement::expression(number("1.0")),
            ASTStatement::expression(ASTExpression::parenthesized(number("2.0"))),
            ASTStatement::expression(ASTExpression::start_end(number("3.0"))),
        ]
    );
    assert_eq!(parse_program(tokenize("")).unwrap().statements.len(), 0);
    assert_eq!(parse_program(tokenize("1 # 2")).unwrap().statements.len(), 1);
    assert_eq!(parse_program(Vec::new()).unwrap().statements.len(), 0);
}

#[test]
fn whole_program_stops_at_an_unclosed_group() {
    assert_eq!(
        parse_program(tokenize("1 (2")).map(|ast| ast.statements),
        Err(ParseError::UnterminatedGroup)
    );
}

#[test]
fn next_statement_reads_until_none_is_left() {
    let mut parser = Parser::new(tokenize("1 (2) {3}"));
    assert_eq!(parser.next_statement(), Some(ASTStatement::expression(number("1.0"))));
    assert_eq!(
        parser.next_statement(),
        Some(ASTStatement::expression(ASTExpression::parenthesized(number("2.0"))))
    );
    assert_eq!(
        parser.next_statement(),
        Some(ASTStatement::expression(ASTExpression::start_end(number("3.0"))))
    );
    assert_eq!(parser.next_statement(), None);
    assert_eq!(parser.next_statement(), None);
}

#[test]
fn precedence_table() {
    let table = [
        (ASTBinaryOperatorKind::Plus, 1),
        (ASTBinaryOperatorKind::Minus, 1),
        (ASTBinaryOperatorKind::Eof, 1),
        (ASTBinaryOperatorKind::Multiply, 2),
        (ASTBinaryOperatorKind::Divide, 2),
        (ASTBinaryOperatorKind::IntegerDivide, 2),
        (ASTBinaryOperatorKind::Pow, 3),
    ];
    for (kind, level) in table {
        assert_eq!(operator(kind, TokenKind::Bad, 0, "?").precedence(), level);
    }
}

#[test]
fn operator_names() {
    assert_eq!(ASTBinaryOperatorKind::Plus.name(), "Plus");
    assert_eq!(ASTBinaryOperatorKind::IntegerDivide.name(), "IntegerDivide");
    assert_eq!(ASTBinaryOperatorKind::Eof.name(), "Eof");
}

#[test]
fn constructors_build_the_named_nodes() {
    assert_eq!(ASTVariableExpression::new("v".to_string()).name, "v");
    assert_eq!(
        ASTExpression::variable("v".to_string()).kind,
        ASTExpressionKind::Variable("v".to_string())
    );
    let statement = ASTStatement::new(ASTStatementKind::Expression(number("1.0")));
    assert_eq!(statement, ASTStatement::expression(number("1.0")));
}

#[test]
fn evaluator_steps_put_operands_before_operators() {
    let mut evaluator = ASTEvaluator::new();
    evaluator.visit_expression(&only_expression(parse("2 + 3 * z")));
    assert_eq!(
        evaluator.steps,
        vec![
            EvalStep::Number("2.0".to_string()),
            EvalStep::Number("3.0".to_string()),
            EvalStep::Lookup("z".to_string()),
            EvalStep::Apply(ASTBinaryOperatorKind::Multiply),
            EvalStep::Apply(ASTBinaryOperatorKind::Plus),
        ]
    );
}

#[test]
fn plain_rendering_shows_the_tree() {
    assert_eq!(
        show(&parse("2 + 3 * (2 + 4)").visualize()),
        "Plus(Real(2.0),Multiply(Real(3.0),(Plus(Real(2.0),Real(4.0)))))"
    );
    assert_eq!(show(&parse("{a} 1.5").visualize()), "{Variable(a)}Real(1.5)");
    assert_eq!(show(&parse("").visualize()), "");
}

#[test]
fn tagged_rendering_shows_the_tree() {
    assert_eq!(
        show(&parse("(a) + 2").visualizeXML()),
        "<?xml version=\"1.0\" encoding=\"UTF-8\"?>\n<program>\n<Plus>\n<paren><variable>a</variable>\n</paren>\n\n<real>2.0</real>\n</Plus>\n</program>"
    );
    assert_eq!(
        show(&parse("").visualizeXML()),
        "<?xml version=\"1.0\" encoding=\"UTF-8\"?>\n<program>\n</program>"
    );
    assert_eq!(show(&parse("{1}").visualizeXML()),
        "<?xml version=\"1.0\" encoding=\"UTF-8\"?>\n<program>\n{<real>1.0</real>\n}</program>");
}

#[test]
fn walk_visits_every_statement_in_order() {
    let ast = parse("1 a");
    let mut evaluator = ASTEvaluator::new();
    ast.visit(&mut evaluator);
    assert_eq!(
        evaluator.steps,
        vec![EvalStep::Number("1.0".to_string()), EvalStep::Lookup("a".to_string())]
    );
    let mut printer = ASTPrinter::new();
    ast.visit(&mut printer);
    assert_eq!(show(&printer.output), "Real(1.0)Variable(a)");
}

#[test]
fn printers_collect_pieces_in_order() {
    let mut plain = ASTPrinter::new();
    plain.visit_expression(&number("4.0"));
    assert_eq!(
        plain.output,
        vec![
            Fragment::Fixed("Real("),
            Fragment::Number("4.0".to_string()),
            Fragment::Fixed(")"),
        ]
    );
    let mut tagged = ASTXMLPrinter::new();
    tagged.visit_expression(&ASTExpression::variable("k".to_string()));
    assert_eq!(
        tagged.output,
        vec![
            Fragment::Fixed("<variable>"),
            Fragment::Name("k".to_string()),
            Fragment::Fixed("</variable>\n"),
        ]
    );
}
