//! Tokens and the lexer that cuts a source text into them.
//!
//! Positions count characters (Unicode scalar values), never bytes.

use vstd::prelude::*;
use vstd::string::*;
use crate::chars::{
    decimal_digit, has_alphabetic, has_alphanumeric, has_white_space, is_decimal_digit,
    same_text, unicode_alphabetic, unicode_alphanumeric, unicode_white_space,
};

verus! {

/// What a token is. A numeric literal carries its decimal text, always with
/// a decimal point; an identifier carries its name.
#[derive(Debug, PartialEq)]
pub enum TokenKind {
    Real(String),
    Variable(String),
    To,
    Assing,
    Define,
    For,
    Term,
    Begin,
    End,
    Print,
    Pow,
    Plus,
    Minus,
    Asterisk,
    Slash,
    IntegerDivide,
    LeftParen,
    RightParen,
    Bad,
    Whitespace,
    Eof,
}

/// The mathematical value of a [`TokenKind`].
pub enum TokenKindView {
    Real(Seq<char>),
    Variable(Seq<char>),
    To,
    Assing,
    Define,
    For,
    Term,
    Begin,
    End,
    Print,
    Pow,
    Plus,
    Minus,
    Asterisk,
    Slash,
    IntegerDivide,
    LeftParen,
    RightParen,
    Bad,
    Whitespace,
    Eof,
}

impl View for TokenKind {
    type V = TokenKindView;

    open spec fn view(&self) -> TokenKindView {
        match *self {
            TokenKind::Real(text) => TokenKindView::Real(text@),
            TokenKind::Variable(name) => TokenKindView::Variable(name@),
            TokenKind::To => TokenKindView::To,
            TokenKind::Assing => TokenKindView::Assing,
            TokenKind::Define => TokenKindView::Define,
            TokenKind::For => TokenKindView::For,
            TokenKind::Term => TokenKindView::Term,
            TokenKind::Begin => TokenKindView::Begin,
            TokenKind::End => TokenKindView::End,
            TokenKind::Print => TokenKindView::Print,
            TokenKind::Pow => TokenKindView::Pow,
            TokenKind::Plus => TokenKindView::Plus,
            TokenKind::Minus => TokenKindView::Minus,
            TokenKind::Asterisk => TokenKindView::Asterisk,
            TokenKind::Slash => TokenKindView::Slash,
            TokenKind::IntegerDivide => TokenKindView::IntegerDivide,
            TokenKind::LeftParen => TokenKindView::LeftParen,
            TokenKind::RightParen => TokenKindView::RightParen,
            TokenKind::Bad => TokenKindView::Bad,
            TokenKind::Whitespace => TokenKindView::Whitespace,
            TokenKind::Eof => TokenKindView::Eof,
        }
    }
}

impl Clone for TokenKind {
    fn clone(&self) -> (r: Self)
        ensures
            r == *self,
    {
        match self {
            TokenKind::Real(text) => TokenKind::Real(text.clone()),
            TokenKind::Variable(name) => TokenKind::Variable(name.clone()),
            TokenKind::To => TokenKind::To,
            TokenKind::Assing => TokenKind::Assing,
            TokenKind::Define => TokenKind::Define,
            TokenKind::For => TokenKind::For,
            TokenKind::Term => TokenKind::Term,
            TokenKind::Begin => TokenKind::Begin,
            TokenKind::End => TokenKind::End,
            TokenKind::Print => TokenKind::Print,
            TokenKind::Pow => TokenKind::Pow,
            TokenKind::Plus => TokenKind::Plus,
            TokenKind::Minus => TokenKind::Minus,
            TokenKind::Asterisk => TokenKind::Asterisk,
            TokenKind::Slash => TokenKind::Slash,
            TokenKind::IntegerDivide => TokenKind::IntegerDivide,
            TokenKind::LeftParen => TokenKind::LeftParen,
            TokenKind::RightParen => TokenKind::RightParen,
            TokenKind::Bad => TokenKind::Bad,
            TokenKind::Whitespace => TokenKind::Whitespace,
            TokenKind::Eof => TokenKind::Eof,
        }
    }
}

/// A half-open range of character positions and the text it covers.
#[derive(Debug, PartialEq)]
pub struct TextSpan {
    pub start: usize,
    pub end: usize,
    pub literal: String,
}

impl TextSpan {
    pub fn new(start: usize, end: usize, literal: String) -> (r: Self)
        ensures
            r.start == start,
            r.end == end,
            r.literal == literal,
    {
        Self { start, end, literal }
    }

    /// A span is well formed when it does not end before it starts.
    pub open spec fn wf(&self) -> bool {
        self.start <= self.end
    }

    /// The number of characters the span covers.
    pub fn length(&self) -> (n: usize)
        requires
            self.wf(),
        ensures
            n == self.end - self.start,
    {
        self.end - self.start
    }
}

impl Clone for TextSpan {
    fn clone(&self) -> (r: Self)
        ensures
            r == *self,
    {
        TextSpan { start: self.start, end: self.end, literal: self.literal.clone() }
    }
}

/// The smallest lexical unit: a kind and the place it was read from.
#[derive(Debug, PartialEq)]
pub struct Token {
    pub kind: TokenKind,
    pub span: TextSpan,
}

/// The mathematical value of a [`Token`].
pub struct TokenView {
    pub kind: TokenKindView,
    pub start: int,
    pub end: int,
    pub literal: Seq<char>,
}

impl View for Token {
    type V = TokenView;

    open spec fn view(&self) -> TokenView {
        TokenView {
            kind: self.kind@,
            start: self.span.start as int,
            end: self.span.end as int,
            literal: self.span.literal@,
        }
    }
}

impl Token {
    pub fn new(kind: TokenKind, span: TextSpan) -> (r: Self)
        ensures
            r.kind == kind,
            r.span == span,
    {
        Self { kind, span }
    }
}

impl Clone for Token {
    fn clone(&self) -> (r: Self)
        ensures
            r == *self,
    {
        Token { kind: self.kind.clone(), span: self.span.clone() }
    }
}

/// The first position at or after `i` that holds no decimal digit.
pub open spec fn digits_end(s: Seq<char>, i: int) -> int
    decreases s.len() - i,
{
    if 0 <= i < s.len() && decimal_digit(s[i]) {
        digits_end(s, i + 1)
    } else {
        i
    }
}

/// The first position at or after `i` that holds no alphanumeric character.
/// A word is its alphabetic first character and the run that ends here.
pub open spec fn word_end(s: Seq<char>, i: int) -> int
    decreases s.len() - i,
{
    if 0 <= i < s.len() && unicode_alphanumeric(s[i]) {
        word_end(s, i + 1)
    } else {
        i
    }
}

/// Whether the numeric literal that starts at `i` has a decimal point.
pub open spec fn number_has_point(s: Seq<char>, i: int) -> bool {
    let d = digits_end(s, i);
    d < s.len() && s[d] == '.'
}

/// Where the numeric literal that starts at `i` ends: after its digits, one
/// optional point, and the digits behind the point.
pub open spec fn number_end(s: Seq<char>, i: int) -> int {
    if number_has_point(s, i) {
        digits_end(s, digits_end(s, i) + 1)
    } else {
        digits_end(s, i)
    }
}

/// The decimal text of the numeric literal that starts at `i`: the text as
/// written, with `.0` added where it has no point.
pub open spec fn number_text(s: Seq<char>, i: int) -> Seq<char> {
    let written = s.subrange(i, number_end(s, i));
    if number_has_point(s, i) {
        written
    } else {
        written + seq!['.', '0']
    }
}

/// The kind of a maximal alphanumeric word: a keyword or an identifier.
pub open spec fn word_kind(w: Seq<char>) -> TokenKindView {
    if w == seq!['f', 'o', 'r'] {
        TokenKindView::For
    } else if w == seq!['p', 'r', 'i', 'n', 't'] {
        TokenKindView::Print
    } else if w == seq!['v', 'a', 'r'] {
        TokenKindView::Define
    } else {
        TokenKindView::Variable(w)
    }
}

/// Whether the two characters at `i` are `//`.
pub open spec fn double_slash(s: Seq<char>, i: int) -> bool {
    s[i] == '/' && i + 1 < s.len() && s[i + 1] == '/'
}

/// The kind of the punctuation token at `i`.
pub open spec fn punctuation_kind(s: Seq<char>, i: int) -> TokenKindView {
    let c = s[i];
    if c == '+' {
        TokenKindView::Plus
    } else if c == '-' {
        TokenKindView::Minus
    } else if c == '*' {
        TokenKindView::Asterisk
    } else if c == '=' {
        TokenKindView::Assing
    } else if c == ';' {
        TokenKindView::Term
    } else if c == '/' {
        if double_slash(s, i) {
            TokenKindView::IntegerDivide
        } else {
            TokenKindView::Slash
        }
    } else if c == '(' {
        TokenKindView::LeftParen
    } else if c == ')' {
        TokenKindView::RightParen
    } else if c == '{' {
        TokenKindView::Begin
    } else if c == '}' {
        TokenKindView::End
    } else if c == '^' {
        TokenKindView::Pow
    } else {
        TokenKindView::Bad
    }
}

/// Where the token that starts at `i` ends, for `0 <= i < s.len()`.
pub open spec fn token_end(s: Seq<char>, i: int) -> int {
    let c = s[i];
    if decimal_digit(c) {
        number_end(s, i)
    } else if unicode_white_space(c) {
        i + 1
    } else if unicode_alphabetic(c) {
        word_end(s, i + 1)
    } else if double_slash(s, i) {
        i + 2
    } else {
        i + 1
    }
}

/// The kind of the token that starts at `i`, for `0 <= i < s.len()`.
pub open spec fn token_kind(s: Seq<char>, i: int) -> TokenKindView {
    let c = s[i];
    if decimal_digit(c) {
        TokenKindView::Real(number_text(s, i))
    } else if unicode_white_space(c) {
        TokenKindView::Whitespace
    } else if unicode_alphabetic(c) {
        word_kind(s.subrange(i, word_end(s, i + 1)))
    } else {
        punctuation_kind(s, i)
    }
}

/// The token that starts at `i`, for `0 <= i < s.len()`.
pub open spec fn token_at(s: Seq<char>, i: int) -> TokenView {
    TokenView {
        kind: token_kind(s, i),
        start: i,
        end: token_end(s, i),
        literal: s.subrange(i, token_end(s, i)),
    }
}

/// The token that marks the end of the input.
pub open spec fn end_token() -> TokenView {
    TokenView { kind: TokenKindView::Eof, start: 0, end: 0, literal: seq!['\0'] }
}

/// The tokens of `s` from position `i` on, without the end marker.
pub open spec fn scan(s: Seq<char>, i: int) -> Seq<TokenView>
    decreases s.len() - i,
{
    if 0 <= i < token_end(s, i) <= s.len() {
        seq![token_at(s, i)] + scan(s, token_end(s, i))
    } else {
        Seq::empty()
    }
}

/// The literals of `tokens`, one after the other.
pub open spec fn joined(tokens: Seq<TokenView>) -> Seq<char>
    decreases tokens.len(),
{
    if tokens.len() == 0 {
        Seq::empty()
    } else {
        tokens[0].literal + joined(tokens.subrange(1, tokens.len() as int))
    }
}

/// A run of digits ends at or after its start and inside the text.
pub proof fn lemma_digits_end_bounds(s: Seq<char>, i: int)
    requires
        0 <= i <= s.len(),
    ensures
        i <= digits_end(s, i) <= s.len(),
    decreases s.len() - i,
{
    if i < s.len() && decimal_digit(s[i]) {
        lemma_digits_end_bounds(s, i + 1);
    }
}

/// A run of alphanumeric characters ends at or after its start and inside
/// the text.
pub proof fn lemma_word_end_bounds(s: Seq<char>, i: int)
    requires
        0 <= i <= s.len(),
    ensures
        i <= word_end(s, i) <= s.len(),
    decreases s.len() - i,
{
    if i < s.len() && unicode_alphanumeric(s[i]) {
        lemma_word_end_bounds(s, i + 1);
    }
}

/// Every token holds at least one character and ends inside the text.
pub proof fn lemma_token_end_bounds(s: Seq<char>, i: int)
    requires
        0 <= i < s.len(),
    ensures
        i < token_end(s, i) <= s.len(),
{
    lemma_digits_end_bounds(s, i);
    if decimal_digit(s[i]) {
        lemma_digits_end_bounds(s, i + 1);
        let d = digits_end(s, i);
        if number_has_point(s, i) {
            lemma_digits_end_bounds(s, d + 1);
        }
    } else if unicode_alphabetic(s[i]) {
        lemma_word_end_bounds(s, i + 1);
    }
}

/// Lexing loses nothing: the literals of the tokens read from position `i`
/// on, whitespace included and the end marker left out, spell the text from
/// `i` to its end.
pub proof fn lemma_scan_round_trip(s: Seq<char>, i: int)
    requires
        0 <= i <= s.len(),
    ensures
        joined(scan(s, i)) == s.subrange(i, s.len() as int),
    decreases s.len() - i,
{
    if i < s.len() {
        lemma_token_end_bounds(s, i);
        let e = token_end(s, i);
        lemma_scan_round_trip(s, e);
        let all = scan(s, i);
        assert(all.subrange(1, all.len() as int) =~= scan(s, e));
        assert(s.subrange(i, e) + s.subrange(e, s.len() as int) =~= s.subrange(
            i,
            s.len() as int,
        ));
    } else {
        assert(s.subrange(i, s.len() as int) =~= Seq::<char>::empty());
    }
}

/// Cuts a source text into tokens, one per call of [`Lexer::next_token`].
pub struct Lexer<'a> {
    input: &'a str,
    current_pos: usize,
    finished: bool,
}

impl<'a> Lexer<'a> {
    /// The text being read.
    pub closed spec fn source(&self) -> Seq<char> {
        self.input@
    }

    /// The position of the next character to read.
    pub closed spec fn position(&self) -> int {
        self.current_pos as int
    }

    /// Whether the end marker has been handed out.
    pub closed spec fn finished(&self) -> bool {
        self.finished
    }

    pub fn new(input: &'a str) -> (r: Self)
        ensures
            r.source() == input@,
            r.position() == 0,
            !r.finished(),
    {
        Self { input, current_pos: 0, finished: false }
    }

    /// Whether a numeric literal may start with `c`.
    pub fn is_number_start(c: &char) -> (r: bool)
        ensures
            r == decimal_digit(*c),
    {
        is_decimal_digit(*c)
    }

    /// Whether `c` is white space.
    pub fn is_whitespace(c: &char) -> (r: bool)
        ensures
            r == unicode_white_space(*c),
    {
        has_white_space(*c)
    }

    /// The character at the current position, if there is one.
    pub fn current_char(&self) -> (r: Option<char>)
        ensures
            r == if self.position() < self.source().len() {
                Some(self.source()[self.position()])
            } else {
                None
            },
    {
        if self.current_pos < self.input.unicode_len() {
            Some(self.input.get_char(self.current_pos))
        } else {
            None
        }
    }

    /// Hands out the character at the current position and steps over it;
    /// at the end of the text nothing changes.
    pub fn consume(&mut self) -> (r: Option<char>)
        ensures
            final(self).source() == old(self).source(),
            final(self).finished() == old(self).finished(),
            r == if old(self).position() < old(self).source().len() {
                Some(old(self).source()[old(self).position()])
            } else {
                None
            },
            final(self).position() == if r is Some {
                old(self).position() + 1
            } else {
                old(self).position()
            },
    {
        if self.current_pos < self.input.unicode_len() {
            let c: char = self.input.get_char(self.current_pos);
            self.current_pos = self.current_pos + 1;
            Some(c)
        } else {
            None
        }
    }

    /// Steps over the decimal digits that start at `from`.
    fn scan_digits(&self, from: usize, len: usize) -> (end: usize)
        requires
            len == self.source().len(),
            from <= len,
        ensures
            end == digits_end(self.source(), from as int),
            from <= end <= len,
    {
        let mut i: usize = from;
        let mut more: bool = true;
        while more
            invariant
                len == self.input@.len(),
                from <= i <= len,
                digits_end(self.input@, i as int) == digits_end(self.input@, from as int),
                !more ==> digits_end(self.input@, i as int) == i,
            decreases len - i + (if more { 1int } else { 0int }),
        {
            if i < len && is_decimal_digit(self.input.get_char(i)) {
                i += 1;
            } else {
                more = false;
            }
        }
        i
    }

    /// Steps over the alphanumeric characters that start at `from`.
    fn scan_word(&self, from: usize, len: usize) -> (end: usize)
        requires
            len == self.source().len(),
            from <= len,
        ensures
            end == word_end(self.source(), from as int),
            from <= end <= len,
    {
        let mut i: usize = from;
        let mut more: bool = true;
        while more
            invariant
                len == self.input@.len(),
                from <= i <= len,
                word_end(self.input@, i as int) == word_end(self.input@, from as int),
                !more ==> word_end(self.input@, i as int) == i,
            decreases len - i + (if more { 1int } else { 0int }),
        {
            if i < len && has_alphanumeric(self.input.get_char(i)) {
                i += 1;
            } else {
                more = false;
            }
        }
        i
    }

    /// Reads the numeric literal at the current position and returns its
    /// decimal text.
    fn consume_number(&mut self, len: usize) -> (text: String)
        requires
            len == old(self).source().len(),
            old(self).position() < len,
        ensures
            final(self).source() == old(self).source(),
            final(self).finished() == old(self).finished(),
            final(self).position() == number_end(old(self).source(), old(self).position()),
            old(self).position() <= final(self).position() <= len,
            text@ == number_text(old(self).source(), old(self).position()),
    {
        let start: usize = self.current_pos;
        let whole_end: usize = self.scan_digits(start, len);
        let mut end: usize = whole_end;
        let mut is_whole_number: bool = true;
        if whole_end < len && self.input.get_char(whole_end) == '.' {
            end = self.scan_digits(whole_end + 1, len);
            is_whole_number = false;
        }
        self.current_pos = end;
        let mut text: String = String::from_str(self.input.substring_char(start, end));
        if is_whole_number {
            proof {
                reveal_strlit(".0");
            }
            text.append(".0");
            assert(".0"@ =~= seq!['.', '0']);
        }
        text
    }

    /// Reads the punctuation token at the current position.
    fn consume_punctuation(&mut self, len: usize) -> (kind: TokenKind)
        requires
            len == old(self).source().len(),
            old(self).position() < len,
        ensures
            final(self).source() == old(self).source(),
            final(self).finished() == old(self).finished(),
            final(self).position() == if double_slash(old(self).source(), old(self).position()) {
                old(self).position() + 2
            } else {
                old(self).position() + 1
            },
            kind@ == punctuation_kind(old(self).source(), old(self).position()),
    {
        let c: char = self.input.get_char(self.current_pos);
        self.current_pos = self.current_pos + 1;
        if c == '+' {
            TokenKind::Plus
        } else if c == '-' {
            TokenKind::Minus
        } else if c == '*' {
            TokenKind::Asterisk
        } else if c == '=' {
            TokenKind::Assing
        } else if c == ';' {
            TokenKind::Term
        } else if c == '/' {
            if self.current_pos < len && self.input.get_char(self.current_pos) == '/' {
                self.current_pos = self.current_pos + 1;
                TokenKind::IntegerDivide
            } else {
                TokenKind::Slash
            }
        } else if c == '(' {
            TokenKind::LeftParen
        } else if c == ')' {
            TokenKind::RightParen
        } else if c == '{' {
            TokenKind::Begin
        } else if c == '}' {
            TokenKind::End
        } else if c == '^' {
            TokenKind::Pow
        } else {
            TokenKind::Bad
        }
    }

    /// Reads the word at the current position, whose first character is
    /// alphabetic, and tells a keyword from an identifier.
    fn consume_word(&mut self, len: usize) -> (kind: TokenKind)
        requires
            len == old(self).source().len(),
            old(self).position() < len,
        ensures
            final(self).source() == old(self).source(),
            final(self).finished() == old(self).finished(),
            final(self).position() == word_end(old(self).source(), old(self).position() + 1),
            old(self).position() < final(self).position() <= len,
            kind@ == word_kind(
                old(self).source().subrange(old(self).position(), final(self).position()),
            ),
    {
        let start: usize = self.current_pos;
        let end: usize = self.scan_word(start + 1, len);
        self.current_pos = end;
        let word: &str = self.input.substring_char(start, end);
        proof {
            reveal_strlit("for");
            reveal_strlit("print");
            reveal_strlit("var");
            assert("for"@ =~= seq!['f', 'o', 'r']);
            assert("print"@ =~= seq!['p', 'r', 'i', 'n', 't']);
            assert("var"@ =~= seq!['v', 'a', 'r']);
        }
        if same_text(word, "for") {
            TokenKind::For
        } else if same_text(word, "print") {
            TokenKind::Print
        } else if same_text(word, "var") {
            TokenKind::Define
        } else {
            TokenKind::Variable(String::from_str(word))
        }
    }

    /// Hands out the next token. After the last token of the text comes the
    /// end marker, once; after the end marker comes nothing.
    pub fn next_token(&mut self) -> (r: Option<Token>)
        ensures
            final(self).source() == old(self).source(),
            old(self).finished() ==> r is None && *final(self) == *old(self),
            !old(self).finished() && old(self).position() >= old(self).source().len() ==> {
                &&& r is Some
                &&& r.unwrap()@ == end_token()
                &&& final(self).finished()
                &&& final(self).position() == old(self).position()
            },
            !old(self).finished() && old(self).position() < old(self).source().len() ==> {
                &&& r is Some
                &&& r.unwrap()@ == token_at(old(self).source(), old(self).position())
                &&& !final(self).finished()
                &&& final(self).position() == token_end(old(self).source(), old(self).position())
                &&& old(self).position() < final(self).position() <= old(self).source().len()
            },
    {
        if self.finished {
            return None;
        }
        let len: usize = self.input.unicode_len();
        if self.current_pos >= len {
            self.finished = true;
            proof {
                reveal_strlit("\0");
            }
            let literal: String = String::from_str("\0");
            assert(literal@ =~= seq!['\0']);
            return Some(Token::new(TokenKind::Eof, TextSpan::new(0, 0, literal)));
        }
        let start: usize = self.current_pos;
        let c: char = self.input.get_char(start);
        proof {
            lemma_token_end_bounds(self.input@, start as int);
        }
        let kind: TokenKind = if Self::is_number_start(&c) {
            TokenKind::Real(self.consume_number(len))
        } else if Self::is_whitespace(&c) {
            self.current_pos = start + 1;
            TokenKind::Whitespace
        } else if has_alphabetic(c) {
            self.consume_word(len)
        } else {
            self.consume_punctuation(len)
        };
        let end: usize = self.current_pos;
        let literal: String = String::from_str(self.input.substring_char(start, end));
        Some(Token::new(kind, TextSpan::new(start, end, literal)))
    }
}

/// Reads all of `input`: its tokens in order, whitespace included, and the
/// end marker last.
pub fn tokenize(input: &str) -> (tokens: Vec<Token>)
    ensures
        tokens@.map_values(|t: Token| t@) == scan(input@, 0).push(end_token()),
{
    let mut lexer = Lexer::new(input);
    let mut tokens: Vec<Token> = Vec::new();
    let ghost s = input@;
    assert(tokens@.map_values(|t: Token| t@) + scan(s, 0) =~= scan(s, 0));
    while !lexer.finished
        invariant
            lexer.source() == s,
            0 <= lexer.position() <= s.len(),
            !lexer.finished() ==> tokens@.map_values(|t: Token| t@) + scan(s, lexer.position())
                == scan(s, 0),
            lexer.finished() ==> tokens@.map_values(|t: Token| t@) == scan(s, 0).push(end_token()),
        decreases s.len() - lexer.position() + (if lexer.finished() { 0int } else { 1int }),
    {
        let ghost before = tokens@.map_values(|t: Token| t@);
        let ghost pos = lexer.position();
        match lexer.next_token() {
            Some(token) => {
                tokens.push(token);
                proof {
                    let after = tokens@.map_values(|t: Token| t@);
                    assert(after =~= before.push(token@));
                    if pos < s.len() {
                        assert(after + scan(s, lexer.position()) =~= before + scan(s, pos));
                    } else {
                        assert(scan(s, pos) =~= Seq::<TokenView>::empty());
                        assert(before + scan(s, pos) =~= before);
                    }
                }
            },
            None => {},
        }
    }
    tokens
}

} // verus!
