//! The parser: precedence climbing over a token sequence.
//!
//! A binary operator is taken while it binds at least as tightly as the
//! operator to its left, and its right operand is parsed with the operator's
//! own binding power as the new threshold. Chains of operators of one
//! binding power therefore group to the right: `8 - 3 - 2` is `8 - (3 - 2)`.

use vstd::prelude::*;
use crate::ast::{ASTBinaryOperator, ASTBinaryOperatorKind, ASTExpression, ASTStatement, Ast};
use crate::lexer::{Token, TokenKind};

verus! {

/// Why parsing stopped for good.
#[derive(Debug, PartialEq, Eq, Clone, Copy, Structural)]
pub enum ParseError {
    /// A `(` or `{` was followed by an expression and then by something
    /// other than its closing bracket: another token, or the end of the
    /// tokens.
    UnterminatedGroup,
}

/// What one parsing function makes of the tokens in front of it.
pub enum ParseOutcome {
    /// An expression.
    Parsed(ASTExpression),
    /// No expression can be read here.
    Nothing,
    /// A group is not closed.
    Unterminated,
}

/// An outcome and the position of the first token not consumed.
pub struct ParseStep {
    pub outcome: ParseOutcome,
    pub next: int,
}

/// The outcome that an executable result stands for.
pub open spec fn outcome_of(r: Result<Option<ASTExpression>, ParseError>) -> ParseOutcome {
    match r {
        Ok(Some(e)) => ParseOutcome::Parsed(e),
        Ok(None) => ParseOutcome::Nothing,
        Err(_) => ParseOutcome::Unterminated,
    }
}

/// Whether a token of this kind takes part in parsing.
pub open spec fn significant(token: Token) -> bool {
    !(token.kind is Whitespace)
}

/// The binary operator at `pos`, if the token there is one.
pub open spec fn operator_at(tokens: Seq<Token>, pos: int) -> Option<ASTBinaryOperator> {
    if 0 <= pos < tokens.len() {
        let token = tokens[pos];
        match token.kind {
            TokenKind::Plus => Some(ASTBinaryOperator { kind: ASTBinaryOperatorKind::Plus, token }),
            TokenKind::Minus => Some(
                ASTBinaryOperator { kind: ASTBinaryOperatorKind::Minus, token },
            ),
            TokenKind::Asterisk => Some(
                ASTBinaryOperator { kind: ASTBinaryOperatorKind::Multiply, token },
            ),
            TokenKind::Slash => Some(
                ASTBinaryOperator { kind: ASTBinaryOperatorKind::Divide, token },
            ),
            TokenKind::Pow => Some(ASTBinaryOperator { kind: ASTBinaryOperatorKind::Pow, token }),
            TokenKind::IntegerDivide => Some(
                ASTBinaryOperator { kind: ASTBinaryOperatorKind::IntegerDivide, token },
            ),
            _ => None,
        }
    } else {
        None
    }
}

/// A primary expression at `pos`: a number, a variable, or a group. Any other
/// token is consumed and yields nothing.
pub open spec fn primary_at(tokens: Seq<Token>, pos: int) -> ParseStep
    decreases tokens.len() - pos, 0int,
{
    if 0 <= pos < tokens.len() {
        match tokens[pos].kind {
            TokenKind::Real(text) => ParseStep {
                outcome: ParseOutcome::Parsed(ASTExpression::number_node(text)),
                next: pos + 1,
            },
            TokenKind::Variable(name) => ParseStep {
                outcome: ParseOutcome::Parsed(ASTExpression::variable_node(name)),
                next: pos + 1,
            },
            TokenKind::LeftParen => group_at(tokens, pos + 1, false),
            TokenKind::Begin => group_at(tokens, pos + 1, true),
            _ => ParseStep { outcome: ParseOutcome::Nothing, next: pos + 1 },
        }
    } else {
        ParseStep { outcome: ParseOutcome::Nothing, next: pos }
    }
}

/// The inside of a group whose opening bracket stands just before `pos`, and
/// its closing bracket: `}` for a block, `)` otherwise. Where the bracket
/// is missing, because another token stands in its place or the tokens have
/// run out, the group is unterminated. Where the inside is no expression,
/// neither is the group.
pub open spec fn group_at(tokens: Seq<Token>, pos: int, block: bool) -> ParseStep
    decreases tokens.len() - pos, 3int,
{
    let inner = binary_at(tokens, pos, 0);
    match inner.outcome {
        ParseOutcome::Parsed(e) => {
            if 0 <= inner.next < tokens.len() {
                let closing = tokens[inner.next].kind;
                if block && closing is End {
                    ParseStep {
                        outcome: ParseOutcome::Parsed(ASTExpression::start_end_node(e)),
                        next: inner.next + 1,
                    }
                } else if !block && closing is RightParen {
                    ParseStep {
                        outcome: ParseOutcome::Parsed(ASTExpression::parenthesized_node(e)),
                        next: inner.next + 1,
                    }
                } else {
                    ParseStep { outcome: ParseOutcome::Unterminated, next: inner.next + 1 }
                }
            } else {
                ParseStep { outcome: ParseOutcome::Unterminated, next: inner.next }
            }
        },
        _ => inner,
    }
}

/// A primary expression at `pos` and the operators behind it that bind at
/// least as tightly as `min`.
pub open spec fn binary_at(tokens: Seq<Token>, pos: int, min: u8) -> ParseStep
    decreases tokens.len() - pos, 2int,
{
    let first = primary_at(tokens, pos);
    match first.outcome {
        ParseOutcome::Parsed(left) => {
            if pos < first.next <= tokens.len() {
                rest_at(tokens, first.next, left, min)
            } else {
                first
            }
        },
        _ => first,
    }
}

/// The operators from `pos` on that extend the operand `left`.
pub open spec fn rest_at(tokens: Seq<Token>, pos: int, left: ASTExpression, min: u8) -> ParseStep
    decreases tokens.len() - pos, 1int,
{
    match operator_at(tokens, pos) {
        Some(operator) => {
            if operator.kind.binding_power() >= min {
                let right = binary_at(tokens, pos + 1, operator.kind.binding_power());
                match right.outcome {
                    ParseOutcome::Parsed(r) => {
                        if pos < right.next <= tokens.len() {
                            rest_at(
                                tokens,
                                right.next,
                                ASTExpression::binary_node(operator, left, r),
                                min,
                            )
                        } else {
                            right
                        }
                    },
                    _ => right,
                }
            } else {
                ParseStep { outcome: ParseOutcome::Parsed(left), next: pos }
            }
        },
        None => ParseStep { outcome: ParseOutcome::Parsed(left), next: pos },
    }
}

/// The statement at `pos`: one expression, or nothing where no token is left.
pub open spec fn statement_at(tokens: Seq<Token>, pos: int) -> ParseStep {
    if 0 <= pos < tokens.len() {
        binary_at(tokens, pos, 0)
    } else {
        ParseStep { outcome: ParseOutcome::Nothing, next: pos }
    }
}

/// The result that stands for the outcome of parsing a statement.
pub open spec fn statement_result(outcome: ParseOutcome) -> Result<
    Option<ASTStatement>,
    ParseError,
> {
    match outcome {
        ParseOutcome::Parsed(e) => Ok(Some(ASTStatement::expression_node(e))),
        ParseOutcome::Nothing => Ok(None),
        ParseOutcome::Unterminated => Err(ParseError::UnterminatedGroup),
    }
}

/// A bracketed pair parses to itself, whatever its operator: where a `(`,
/// a number, a binary operator, a number and a `)` stand in a row (or the
/// same between `{` and `}`), the primary expression read at the opening
/// bracket is the group around that operator applied to the two numbers, left
/// one first, and all five tokens are consumed.
pub proof fn lemma_bracketed_pair(tokens: Seq<Token>, pos: int, a: String, b: String, block: bool)
    requires
        0 <= pos,
        pos + 4 < tokens.len(),
        if block {
            tokens[pos].kind is Begin && tokens[pos + 4].kind is End
        } else {
            tokens[pos].kind is LeftParen && tokens[pos + 4].kind is RightParen
        },
        tokens[pos + 1].kind == TokenKind::Real(a),
        operator_at(tokens, pos + 2) is Some,
        tokens[pos + 3].kind == TokenKind::Real(b),
    ensures
        primary_at(tokens, pos) == ({
            let pair = ASTExpression::binary_node(
                operator_at(tokens, pos + 2).unwrap(),
                ASTExpression::number_node(a),
                ASTExpression::number_node(b),
            );
            ParseStep {
                outcome: ParseOutcome::Parsed(
                    if block {
                        ASTExpression::start_end_node(pair)
                    } else {
                        ASTExpression::parenthesized_node(pair)
                    },
                ),
                next: pos + 5,
            }
        }),
{
    let operator = operator_at(tokens, pos + 2).unwrap();
    let power = operator.kind.binding_power();
    let left = ASTExpression::number_node(a);
    let right = ASTExpression::number_node(b);
    let pair = ASTExpression::binary_node(operator, left, right);
    assert(operator_at(tokens, pos + 4) is None);
    assert(primary_at(tokens, pos + 3) == ParseStep {
        outcome: ParseOutcome::Parsed(right),
        next: pos + 4,
    });
    assert(rest_at(tokens, pos + 4, right, power) == ParseStep {
        outcome: ParseOutcome::Parsed(right),
        next: pos + 4,
    });
    assert(binary_at(tokens, pos + 3, power) == rest_at(tokens, pos + 4, right, power));
    assert(rest_at(tokens, pos + 4, pair, 0) == ParseStep {
        outcome: ParseOutcome::Parsed(pair),
        next: pos + 4,
    });
    assert(rest_at(tokens, pos + 2, left, 0) == rest_at(tokens, pos + 4, pair, 0));
    assert(primary_at(tokens, pos + 1) == ParseStep {
        outcome: ParseOutcome::Parsed(left),
        next: pos + 2,
    });
    assert(binary_at(tokens, pos + 1, 0) == rest_at(tokens, pos + 2, left, 0));
    assert(primary_at(tokens, pos) == group_at(tokens, pos + 1, block));
}

/// How two operators in a row group. Where three numbers stand with an
/// operator between each two and no operator behind them, the second
/// operator takes the middle number if it binds at least as tightly as the
/// first (so operators of one binding power group to the right); otherwise
/// the first operator takes it.
pub proof fn lemma_two_operators(tokens: Seq<Token>, pos: int, a: String, b: String, c: String)
    requires
        0 <= pos,
        pos + 4 < tokens.len(),
        tokens[pos].kind == TokenKind::Real(a),
        operator_at(tokens, pos + 1) is Some,
        tokens[pos + 2].kind == TokenKind::Real(b),
        operator_at(tokens, pos + 3) is Some,
        tokens[pos + 4].kind == TokenKind::Real(c),
        operator_at(tokens, pos + 5) is None,
    ensures
        binary_at(tokens, pos, 0) == ({
            let first = operator_at(tokens, pos + 1).unwrap();
            let second = operator_at(tokens, pos + 3).unwrap();
            let x = ASTExpression::number_node(a);
            let y = ASTExpression::number_node(b);
            let z = ASTExpression::number_node(c);
            ParseStep {
                outcome: ParseOutcome::Parsed(
                    if second.kind.binding_power() >= first.kind.binding_power() {
                        ASTExpression::binary_node(
                            first,
                            x,
                            ASTExpression::binary_node(second, y, z),
                        )
                    } else {
                        ASTExpression::binary_node(
                            second,
                            ASTExpression::binary_node(first, x, y),
                            z,
                        )
                    },
                ),
                next: pos + 5,
            }
        }),
{
    let first = operator_at(tokens, pos + 1).unwrap();
    let second = operator_at(tokens, pos + 3).unwrap();
    let p1 = first.kind.binding_power();
    let p2 = second.kind.binding_power();
    let x = ASTExpression::number_node(a);
    let y = ASTExpression::number_node(b);
    let z = ASTExpression::number_node(c);
    assert(primary_at(tokens, pos) == ParseStep { outcome: ParseOutcome::Parsed(x), next: pos + 1 });
    assert(primary_at(tokens, pos + 2) == ParseStep {
        outcome: ParseOutcome::Parsed(y),
        next: pos + 3,
    });
    assert(primary_at(tokens, pos + 4) == ParseStep {
        outcome: ParseOutcome::Parsed(z),
        next: pos + 5,
    });
    assert(binary_at(tokens, pos, 0) == rest_at(tokens, pos + 1, x, 0));
    assert(binary_at(tokens, pos + 2, p1) == rest_at(tokens, pos + 3, y, p1));
    assert(binary_at(tokens, pos + 4, p2) == rest_at(tokens, pos + 5, z, p2));
    assert(rest_at(tokens, pos + 5, z, p2) == ParseStep {
        outcome: ParseOutcome::Parsed(z),
        next: pos + 5,
    });
    if p2 >= p1 {
        let inner = ASTExpression::binary_node(second, y, z);
        let whole = ASTExpression::binary_node(first, x, inner);
        assert(rest_at(tokens, pos + 5, inner, p1) == ParseStep {
            outcome: ParseOutcome::Parsed(inner),
            next: pos + 5,
        });
        assert(rest_at(tokens, pos + 3, y, p1) == rest_at(tokens, pos + 5, inner, p1));
        assert(rest_at(tokens, pos + 5, whole, 0) == ParseStep {
            outcome: ParseOutcome::Parsed(whole),
            next: pos + 5,
        });
        assert(rest_at(tokens, pos + 1, x, 0) == rest_at(tokens, pos + 5, whole, 0));
    } else {
        let inner = ASTExpression::binary_node(first, x, y);
        let whole = ASTExpression::binary_node(second, inner, z);
        assert(rest_at(tokens, pos + 3, y, p1) == ParseStep {
            outcome: ParseOutcome::Parsed(y),
            next: pos + 3,
        });
        assert(rest_at(tokens, pos + 1, x, 0) == rest_at(tokens, pos + 3, inner, 0));
        assert(rest_at(tokens, pos + 5, whole, 0) == ParseStep {
            outcome: ParseOutcome::Parsed(whole),
            next: pos + 5,
        });
        assert(rest_at(tokens, pos + 3, inner, 0) == rest_at(tokens, pos + 5, whole, 0));
    }
}

/// The statements read from `pos` on, until none is left; the error of
/// the first group that is not closed.
pub open spec fn statements_from(tokens: Seq<Token>, pos: int) -> Result<
    Seq<ASTStatement>,
    ParseError,
>
    decreases tokens.len() - pos,
{
    let step = statement_at(tokens, pos);
    match step.outcome {
        ParseOutcome::Parsed(e) => {
            let first = seq![ASTStatement::expression_node(e)];
            if pos < step.next <= tokens.len() {
                match statements_from(tokens, step.next) {
                    Ok(rest) => Ok(first + rest),
                    Err(error) => Err(error),
                }
            } else {
                Ok(first)
            }
        },
        ParseOutcome::Nothing => Ok(Seq::empty()),
        ParseOutcome::Unterminated => Err(ParseError::UnterminatedGroup),
    }
}

/// The end marker starts no statement: where it is the next token, as it is
/// at once in the tokens of an empty text, no statement is read.
pub proof fn lemma_end_marker_is_no_statement(tokens: Seq<Token>, pos: int)
    requires
        0 <= pos < tokens.len(),
        tokens[pos].kind is Eof,
    ensures
        statement_result(statement_at(tokens, pos).outcome) == Ok::<
            Option<ASTStatement>,
            ParseError,
        >(None),
        statement_at(tokens, pos).next == pos + 1,
        statements_from(tokens, pos) == Ok::<Seq<ASTStatement>, ParseError>(Seq::empty()),
{
    assert(primary_at(tokens, pos) == ParseStep { outcome: ParseOutcome::Nothing, next: pos + 1 });
}

/// Reads statements from a token sequence, one per call.
pub struct Parser {
    tokens: Vec<Token>,
    current: usize,
}

impl Parser {
    /// The tokens being read, whitespace left out.
    pub closed spec fn tokens(&self) -> Seq<Token> {
        self.tokens@
    }

    /// The position of the next token to read.
    pub closed spec fn position(&self) -> int {
        self.current as int
    }

    /// Keeps the tokens that are not whitespace, in their order, and starts
    /// in front of the first.
    pub fn new(tokens: Vec<Token>) -> (r: Self)
        ensures
            r.tokens() == tokens@.filter(|t: Token| significant(t)),
            forall|i: int| 0 <= i < r.tokens().len() ==> significant(#[trigger] r.tokens()[i]),
            r.position() == 0,
    {
        let mut kept: Vec<Token> = Vec::new();
        let n: usize = tokens.len();
        let mut i: usize = 0;
        let ghost keep = |t: Token| significant(t);
        assert(tokens@.subrange(0, 0) =~= Seq::<Token>::empty());
        while i < n
            invariant
                n == tokens@.len(),
                i <= n,
                keep == (|t: Token| significant(t)),
                kept@ == tokens@.subrange(0, i as int).filter(keep),
            decreases n - i,
        {
            let ghost before = tokens@.subrange(0, i as int);
            proof {
                assert(tokens@.subrange(0, i + 1) =~= before.push(tokens@[i as int]));
                assert(before.push(tokens@[i as int]).drop_last() =~= before);
                reveal(Seq::filter);
            }
            let is_space: bool = match &tokens[i].kind {
                TokenKind::Whitespace => true,
                _ => false,
            };
            if !is_space {
                kept.push(tokens[i].clone());
            }
            i += 1;
        }
        proof {
            assert(tokens@.subrange(0, n as int) =~= tokens@);
            assert forall|k: int| 0 <= k < kept@.len() implies significant(#[trigger] kept@[k]) by {
                tokens@.lemma_filter_pred(keep, k);
            }
        }
        Self { tokens: kept, current: 0 }
    }

    /// The binary operator at the current position, if the token there is
    /// one. Nothing is consumed.
    fn parse_binary_operator(&self) -> (r: Option<ASTBinaryOperator>)
        ensures
            r == operator_at(self.tokens(), self.position()),
            r is Some ==> self.position() < usize::MAX,
    {
        if self.current >= self.tokens.len() {
            return None;
        }
        let token: &Token = &self.tokens[self.current];
        let kind: Option<ASTBinaryOperatorKind> = match &token.kind {
            TokenKind::Plus => Some(ASTBinaryOperatorKind::Plus),
            TokenKind::Minus => Some(ASTBinaryOperatorKind::Minus),
            TokenKind::Asterisk => Some(ASTBinaryOperatorKind::Multiply),
            TokenKind::Slash => Some(ASTBinaryOperatorKind::Divide),
            TokenKind::Pow => Some(ASTBinaryOperatorKind::Pow),
            TokenKind::IntegerDivide => Some(ASTBinaryOperatorKind::IntegerDivide),
            _ => None,
        };
        match kind {
            Some(kind) => Some(ASTBinaryOperator::new(kind, token.clone())),
            None => None,
        }
    }

    /// Reads the closing bracket of a group whose inside is `inner`.
    fn close_group(&mut self, inner: ASTExpression, block: bool) -> (r: Result<
        Option<ASTExpression>,
        ParseError,
    >)
        ensures
            final(self).tokens() == old(self).tokens(),
            old(self).position() < old(self).tokens().len() ==> {
                let closing = old(self).tokens()[old(self).position()].kind;
                &&& final(self).position() == old(self).position() + 1
                &&& block && closing is End ==> r == Ok::<Option<ASTExpression>, ParseError>(
                    Some(ASTExpression::start_end_node(inner)),
                )
                &&& !block && closing is RightParen ==> r == Ok::<
                    Option<ASTExpression>,
                    ParseError,
                >(Some(ASTExpression::parenthesized_node(inner)))
                &&& !(block && closing is End) && !(!block && closing is RightParen) ==> r == Err::<
                    Option<ASTExpression>,
                    ParseError,
                >(ParseError::UnterminatedGroup)
            },
            old(self).position() >= old(self).tokens().len() ==> {
                &&& final(self).position() == old(self).position()
                &&& r == Err::<Option<ASTExpression>, ParseError>(ParseError::UnterminatedGroup)
            },
    {
        if self.current >= self.tokens.len() {
            return Err(ParseError::UnterminatedGroup);
        }
        let closed: bool = match &self.tokens[self.current].kind {
            TokenKind::End => block,
            TokenKind::RightParen => !block,
            _ => false,
        };
        self.current = self.current + 1;
        if !closed {
            Err(ParseError::UnterminatedGroup)
        } else if block {
            Ok(Some(ASTExpression::start_end(inner)))
        } else {
            Ok(Some(ASTExpression::parenthesized(inner)))
        }
    }

    /// Reads the inside of a group and its closing bracket.
    fn parse_group(&mut self, block: bool) -> (r: Result<Option<ASTExpression>, ParseError>)
        ensures
            final(self).tokens() == old(self).tokens(),
            outcome_of(r) == group_at(old(self).tokens(), old(self).position(), block).outcome,
            final(self).position() == group_at(
                old(self).tokens(),
                old(self).position(),
                block,
            ).next,
            old(self).position() <= final(self).position(),
            r matches Ok(Some(_)) ==> old(self).position() < final(self).position()
                <= final(self).tokens().len(),
        decreases old(self).tokens().len() - old(self).position(), 3int,
    {
        match self.parse_binary_expression(0) {
            Ok(Some(inner)) => self.close_group(inner, block),
            Ok(None) => Ok(None),
            Err(e) => Err(e),
        }
    }

    /// Reads one primary expression.
    fn parse_primary_expression(&mut self) -> (r: Result<Option<ASTExpression>, ParseError>)
        ensures
            final(self).tokens() == old(self).tokens(),
            outcome_of(r) == primary_at(old(self).tokens(), old(self).position()).outcome,
            final(self).position() == primary_at(old(self).tokens(), old(self).position()).next,
            old(self).position() <= final(self).position(),
            r matches Ok(Some(_)) ==> old(self).position() < final(self).position()
                <= final(self).tokens().len(),
        decreases old(self).tokens().len() - old(self).position(), 0int,
    {
        if self.current >= self.tokens.len() {
            return Ok(None);
        }
        let at: usize = self.current;
        self.current = at + 1;
        match &self.tokens[at].kind {
            TokenKind::Real(text) => Ok(Some(ASTExpression::number(text.clone()))),
            TokenKind::Variable(name) => Ok(Some(ASTExpression::variable(name.clone()))),
            TokenKind::LeftParen => self.parse_group(false),
            TokenKind::Begin => self.parse_group(true),
            _ => Ok(None),
        }
    }

    /// Reads one expression whose operators bind at least as tightly as
    /// `precedence`.
    fn parse_binary_expression(&mut self, precedence: u8) -> (r: Result<
        Option<ASTExpression>,
        ParseError,
    >)
        ensures
            final(self).tokens() == old(self).tokens(),
            outcome_of(r) == binary_at(old(self).tokens(), old(self).position(), precedence).outcome,
            final(self).position() == binary_at(
                old(self).tokens(),
                old(self).position(),
                precedence,
            ).next,
            old(self).position() <= final(self).position(),
            r matches Ok(Some(_)) ==> old(self).position() < final(self).position()
                <= final(self).tokens().len(),
        decreases old(self).tokens().len() - old(self).position(), 2int,
    {
        let ghost tokens = self.tokens@;
        let ghost start = self.current as int;
        let ghost target = binary_at(tokens, start, precedence);
        let mut left: ASTExpression = match self.parse_primary_expression() {
            Ok(Some(e)) => e,
            Ok(None) => {
                return Ok(None);
            },
            Err(e) => {
                return Err(e);
            },
        };
        let mut more: bool = true;
        while more
            invariant
                self.tokens@ == tokens,
                start < self.current <= tokens.len(),
                target == rest_at(tokens, self.current as int, left, precedence),
                !more ==> target == (ParseStep {
                    outcome: ParseOutcome::Parsed(left),
                    next: self.current as int,
                }),
                target == binary_at(tokens, start, precedence),
                start == old(self).position(),
                tokens == old(self).tokens(),
            decreases tokens.len() - self.current + (if more { 1int } else { 0int }),
        {
            let found: Option<ASTBinaryOperator> = self.parse_binary_operator();
            match found {
                Some(operator) => {
                    let operator_precedence: u8 = operator.precedence();
                    if operator_precedence < precedence {
                        more = false;
                    } else {
                        self.current = self.current + 1;
                        match self.parse_binary_expression(operator_precedence) {
                            Ok(Some(right)) => {
                                left = ASTExpression::binary(operator, left, right);
                            },
                            Ok(None) => {
                                return Ok(None);
                            },
                            Err(e) => {
                                return Err(e);
                            },
                        }
                    }
                },
                None => {
                    more = false;
                },
            }
        }
        Ok(Some(left))
    }

    /// Reads one expression.
    fn parse_expression(&mut self) -> (r: Result<Option<ASTExpression>, ParseError>)
        ensures
            final(self).tokens() == old(self).tokens(),
            outcome_of(r) == binary_at(old(self).tokens(), old(self).position(), 0).outcome,
            final(self).position() == binary_at(old(self).tokens(), old(self).position(), 0).next,
            old(self).position() <= final(self).position(),
            r matches Ok(Some(_)) ==> old(self).position() < final(self).position()
                <= final(self).tokens().len(),
    {
        self.parse_binary_expression(0)
    }

    /// Reads one statement.
    fn parse_statement(&mut self) -> (r: Result<Option<ASTStatement>, ParseError>)
        ensures
            final(self).tokens() == old(self).tokens(),
            r == statement_result(statement_at(old(self).tokens(), old(self).position()).outcome),
            final(self).position() == statement_at(old(self).tokens(), old(self).position()).next,
            old(self).position() <= final(self).position(),
            r matches Ok(Some(_)) ==> old(self).position() < final(self).position()
                <= final(self).tokens().len(),
    {
        if self.current >= self.tokens.len() {
            return Ok(None);
        }
        match self.parse_expression() {
            Ok(Some(expr)) => Ok(Some(ASTStatement::expression(expr))),
            Ok(None) => Ok(None),
            Err(e) => Err(e),
        }
    }

    /// Reads the next statement. `Ok(None)` says that no statement is left:
    /// the tokens have run out, or a token stands where an expression cannot
    /// start. The error says that a group is not closed.
    pub fn try_next_statement(&mut self) -> (r: Result<Option<ASTStatement>, ParseError>)
        ensures
            final(self).tokens() == old(self).tokens(),
            r == statement_result(statement_at(old(self).tokens(), old(self).position()).outcome),
            final(self).position() == statement_at(old(self).tokens(), old(self).position()).next,
            old(self).position() <= final(self).position(),
            r matches Ok(Some(_)) ==> old(self).position() < final(self).position()
                <= final(self).tokens().len(),
    {
        self.parse_statement()
    }

    /// Reads the next statement where no group is left open; `None` says
    /// that no statement is left.
    pub fn next_statement(&mut self) -> (r: Option<ASTStatement>)
        requires
            !(statement_at(old(self).tokens(), old(self).position()).outcome is Unterminated),
        ensures
            final(self).tokens() == old(self).tokens(),
            Ok::<Option<ASTStatement>, ParseError>(r) == statement_result(
                statement_at(old(self).tokens(), old(self).position()).outcome,
            ),
            final(self).position() == statement_at(old(self).tokens(), old(self).position()).next,
            old(self).position() <= final(self).position(),
    {
        match self.parse_statement() {
            Ok(statement) => statement,
            Err(_) => None,
        }
    }
}

/// Parses a whole token sequence: the program of its statements, in order,
/// or the error of the first group that is not closed.
pub fn parse_program(tokens: Vec<Token>) -> (r: Result<Ast, ParseError>)
    ensures
        match statements_from(tokens@.filter(|t: Token| significant(t)), 0) {
            Ok(statements) => r is Ok && r.unwrap().statements@ == statements,
            Err(error) => r == Err::<Ast, ParseError>(error),
        },
{
    let ghost kept = tokens@.filter(|t: Token| significant(t));
    let mut parser = Parser::new(tokens);
    let mut ast = Ast::new();
    assert(ast.statements@ =~= Seq::<ASTStatement>::empty());
    loop
        invariant
            kept == tokens@.filter(|t: Token| significant(t)),
            parser.tokens() == kept,
            0 <= parser.position(),
            statements_from(kept, 0) == (match statements_from(kept, parser.position()) {
                Ok(rest) => Ok::<Seq<ASTStatement>, ParseError>(ast.statements@ + rest),
                Err(error) => Err(error),
            }),
        decreases kept.len() - parser.position(),
    {
        let ghost done = ast.statements@;
        let ghost pos = parser.position();
        match parser.try_next_statement() {
            Ok(Some(statement)) => {
                ast.add_statement(statement);
                proof {
                    match statements_from(kept, parser.position()) {
                        Ok(rest) => {
                            assert(done + (seq![statement] + rest) =~= ast.statements@ + rest);
                        },
                        Err(_) => {},
                    }
                }
            },
            Ok(None) => {
                assert(done + Seq::<ASTStatement>::empty() =~= done);
                return Ok(ast);
            },
            Err(error) => {
                return Err(error);
            },
        }
    }
}

} // verus!
