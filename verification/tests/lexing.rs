use exprlang::lexer::{tokenize, Lexer, TextSpan, Token, TokenKind};

fn kinds(input: &str) -> Vec<TokenKind> {
    tokenize(input).into_iter().map(|t| t.kind).collect()
}

fn decimal(text: &str) -> TokenKind {
    TokenKind::Real(text.to_string())
}

fn name(text: &str) -> TokenKind {
    TokenKind::Variable(text.to_string())
}

#[test]
fn empty_input_gives_only_the_end_marker() {
    let tokens = tokenize("");
    assert_eq!(
        tokens,
        vec![Token::new(TokenKind::Eof, TextSpan::new(0, 0, "\0".to_string()))]
    );
}

#[test]
fn end_marker_comes_once_then_nothing() {
    let mut lexer = Lexer::new("1");
    assert_eq!(
        lexer.next_token(),
        Some(Token::new(decimal("1.0"), TextSpan::new(0, 1, "1".to_string())))
    );
    let eof = lexer.next_token().unwrap();
    assert_eq!(eof.kind, TokenKind::Eof);
    assert_eq!(eof.span.start, 0);
    assert_eq!(eof.span.end, 0);
    assert_eq!(eof.span.literal, "\0");
    assert_eq!(lexer.next_token(), None);
    assert_eq!(lexer.next_token(), None);
}

#[test]
fn whole_number_gets_a_decimal_point() {
    assert_eq!(kinds("12"), vec![decimal("12.0"), TokenKind::Eof]);
    assert_eq!("12.0".parse::<f64>().unwrap(), 12.0);
}

#[test]
fn fractional_number_keeps_its_text() {
    assert_eq!(kinds("3.25"), vec![decimal("3.25"), TokenKind::Eof]);
    assert_eq!(kinds("7."), vec![decimal("7."), TokenKind::Eof]);
    assert_eq!("7.".parse::<f64>().unwrap(), 7.0);
}

#[test]
fn second_point_ends_the_number() {
    assert_eq!(
        kinds("1.2.3"),
        vec![decimal("1.2"), TokenKind::Bad, decimal("3.0"), TokenKind::Eof]
    );
}

#[test]
fn number_spans_count_characters() {
    let tokens = tokenize("10 2.5");
    assert_eq!(tokens[0].span, TextSpan::new(0, 2, "10".to_string()));
    assert_eq!(tokens[1].span, TextSpan::new(2, 3, " ".to_string()));
    assert_eq!(tokens[2].span, TextSpan::new(3, 6, "2.5".to_string()));
    assert_eq!(tokens[2].span.length(), 3);
}

#[test]
fn keywords_and_identifiers() {
    assert_eq!(
        kinds("for print var fort x1y2"),
        vec![
            TokenKind::For,
            TokenKind::Whitespace,
            TokenKind::Print,
            TokenKind::Whitespace,
            TokenKind::Define,
            TokenKind::Whitespace,
            name("fort"),
            TokenKind::Whitespace,
            name("x1y2"),
            TokenKind::Eof,
        ]
    );
}

#[test]
fn identifier_stops_at_punctuation() {
    assert_eq!(
        kinds("ab+c"),
        vec![name("ab"), TokenKind::Plus, name("c"), TokenKind::Eof]
    );
}

#[test]
fn every_punctuation_mark() {
    assert_eq!(
        kinds("+-*=;/(){}^"),
        vec![
            TokenKind::Plus,
            TokenKind::Minus,
            TokenKind::Asterisk,
            TokenKind::Assing,
            TokenKind::Term,
            TokenKind::Slash,
            TokenKind::LeftParen,
            TokenKind::RightParen,
            TokenKind::Begin,
            TokenKind::End,
            TokenKind::Pow,
            TokenKind::Eof,
        ]
    );
}

#[test]
fn double_slash_is_one_token() {
    let tokens = tokenize("7//2");
    assert_eq!(tokens[1].kind, TokenKind::IntegerDivide);
    assert_eq!(tokens[1].span, TextSpan::new(1, 3, "//".to_string()));
    assert_eq!(
        kinds("1///2"),
        vec![
            decimal("1.0"),
            TokenKind::IntegerDivide,
            TokenKind::Slash,
            decimal("2.0"),
            TokenKind::Eof
        ]
    );
    assert_eq!(kinds("/"), vec![TokenKind::Slash, TokenKind::Eof]);
}

#[test]
fn unknown_characters_are_marked_bad() {
    assert_eq!(
        kinds("#.!"),
        vec![TokenKind::Bad, TokenKind::Bad, TokenKind::Bad, TokenKind::Eof]
    );
}

#[test]
fn whitespace_is_kept_one_character_per_token() {
    assert_eq!(
        kinds(" \t\n"),
        vec![
            TokenKind::Whitespace,
            TokenKind::Whitespace,
            TokenKind::Whitespace,
            TokenKind::Eof
        ]
    );
}

#[test]
fn character_classes() {
    assert!(Lexer::is_number_start(&'0'));
    assert!(Lexer::is_number_start(&'9'));
    assert!(!Lexer::is_number_start(&'a'));
    assert!(!Lexer::is_number_start(&'\u{0663}'));
    assert!(Lexer::is_whitespace(&' '));
    assert!(Lexer::is_whitespace(&'\u{00a0}'));
    assert!(!Lexer::is_whitespace(&'x'));
}

#[test]
fn positions_count_scalar_values_not_bytes() {
    let tokens = tokenize("\u{e9}t\u{e9}+1");
    assert_eq!(tokens[0].kind, name("\u{e9}t\u{e9}"));
    assert_eq!(tokens[0].span, TextSpan::new(0, 3, "\u{e9}t\u{e9}".to_string()));
    assert_eq!(tokens[1].span, TextSpan::new(3, 4, "+".to_string()));
    assert_eq!(tokens[2].span, TextSpan::new(4, 5, "1".to_string()));
}

#[test]
fn current_char_and_consume_walk_the_text() {
    let mut lexer = Lexer::new("ab");
    assert_eq!(lexer.current_char(), Some('a'));
    assert_eq!(lexer.consume(), Some('a'));
    assert_eq!(lexer.current_char(), Some('b'));
    assert_eq!(lexer.consume(), Some('b'));
    assert_eq!(lexer.current_char(), None);
    assert_eq!(lexer.consume(), None);
    assert_eq!(lexer.next_token().unwrap().kind, TokenKind::Eof);
}

#[test]
fn literals_spell_the_source() {
    for source in [
        "",
        "2 + 3 * (2 + 4)",
        "  for x1 = 3.5.2 // {y}; #\u{e9}\n\t1.",
        "8-3-2^print var",
    ] {
        let tokens = tokenize(source);
        let mut spelled = String::new();
        for token in &tokens[..tokens.len() - 1] {
            spelled.push_str(&token.span.literal);
        }
        assert_eq!(spelled, source);
        assert_eq!(tokens[tokens.len() - 1].kind, TokenKind::Eof);
    }
}

#[test]
fn span_length_is_end_minus_start() {
    assert_eq!(TextSpan::new(4, 9, "hello".to_string()).length(), 5);
    assert_eq!(TextSpan::new(3, 3, String::new()).length(), 0);
}

#[test]
fn token_clone_is_equal() {
    let token = Token::new(name("abc"), TextSpan::new(1, 4, "abc".to_string()));
    assert_eq!(token.clone(), token);
}
