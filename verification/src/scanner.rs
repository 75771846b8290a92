//! The lexer: from source text to a sequence of tokens.
//!
//! What the lexer produces is stated by [`lex`], a function of the source
//! text alone. Indentation is not consumed silently: each blank at the head
//! of a line becomes a `SPACE` or `TAB` token of its own, from which the
//! parser measures the width of the line's indentation.

use vstd::prelude::*;
use vstd::string::*;
use crate::error::{BasicError, ErrorType};
use crate::text::{
    char_is_digit, char_is_ident, chars_of, decimal_value, digit_value, is_digit, is_ident_char,
    string_from_chars,
};

verus! {

/// The kinds of token.
#[allow(non_camel_case_types)]
#[derive(Debug, Clone, Copy, PartialEq, Eq, Structural)]
pub enum TokenType {
    // Single-character tokens.
    LeftParen,
    RightParen,
    LeftBrace,
    RightBrace,
    Comma,
    Dot,
    Minus,
    Plus,
    Mod,
    ExactDivision,
    Semicolon,
    Slash,
    Star,
    COLON,
    Pow,
    BANG,
    BangEqual,
    EQUAL,
    EqualEqual,
    GREATER,
    GreaterEqual,
    LESS,
    LessEqual,
    Is,
    In,
    // Literals.
    IDENTIFIER,
    STRING,
    NUMBER,
    // Keywords.
    AND,
    CLASS,
    Break,
    Continue,
    ELSE,
    ELIF,
    FALSE,
    FOR,
    IF,
    OR,
    RETURN,
    SELF,
    TRUE,
    WHILE,
    DEF,
    LAMBDA,
    NOT,
    PRINT,
    SPACE,
    TAB,
    EOF,
    Nil,
    LineBreak,
}

/// What a token carries besides its kind.
///
/// A number with a decimal point keeps its numeral as text; a numeral that
/// starts with the point gets a `0` in front of it.
#[derive(Debug, PartialEq, Eq)]
pub enum Literal {
    Str(String),
    Float(String),
    Int(i64),
    Identifier(String),
    Nil,
}

/// The mathematical value of a [`Literal`].
pub enum LiteralView {
    Str(Seq<char>),
    Float(Seq<char>),
    Int(i64),
    Identifier(Seq<char>),
    Nil,
}

impl View for Literal {
    type V = LiteralView;

    open spec fn view(&self) -> LiteralView {
        match self {
            Literal::Str(s) => LiteralView::Str(s@),
            Literal::Float(s) => LiteralView::Float(s@),
            Literal::Int(i) => LiteralView::Int(*i),
            Literal::Identifier(s) => LiteralView::Identifier(s@),
            Literal::Nil => LiteralView::Nil,
        }
    }
}

impl Clone for Literal {
    fn clone(&self) -> (r: Self)
        ensures
            r == *self,
    {
        match self {
            Literal::Str(s) => Literal::Str(s.clone()),
            Literal::Float(s) => Literal::Float(s.clone()),
            Literal::Int(i) => Literal::Int(*i),
            Literal::Identifier(s) => Literal::Identifier(s.clone()),
            Literal::Nil => Literal::Nil,
        }
    }
}

/// A token: its kind, where it starts (line and column, from zero), what
/// it carries, and its text.
#[derive(Debug, PartialEq, Eq)]
pub struct Token {
    pub token_type: TokenType,
    pub lineno: usize,
    pub col_offset: usize,
    pub literal: Literal,
    pub lexeme: String,
}

/// The mathematical value of a [`Token`].
pub struct TokenView {
    pub token_type: TokenType,
    pub lineno: nat,
    pub col_offset: nat,
    pub literal: LiteralView,
    pub lexeme: Seq<char>,
}

impl View for Token {
    type V = TokenView;

    open spec fn view(&self) -> TokenView {
        TokenView {
            token_type: self.token_type,
            lineno: self.lineno as nat,
            col_offset: self.col_offset as nat,
            literal: self.literal@,
            lexeme: self.lexeme@,
        }
    }
}

impl Clone for Token {
    fn clone(&self) -> (r: Self)
        ensures
            r == *self,
    {
        Token {
            token_type: self.token_type,
            lineno: self.lineno,
            col_offset: self.col_offset,
            literal: self.literal.clone(),
            lexeme: self.lexeme.clone(),
        }
    }
}

/// The values of a sequence of tokens.
pub open spec fn token_views(tokens: Seq<Token>) -> Seq<TokenView> {
    tokens.map_values(|t: Token| t@)
}

// ---------------------------------------------------------------------
// What the lexer computes
// ---------------------------------------------------------------------

/// The number of line feeds before position `i`: the line that `i` is on.
pub open spec fn line_of(s: Seq<char>, i: int) -> nat
    decreases i,
{
    if i <= 0 || i > s.len() {
        0
    } else if s[i - 1] == '\n' {
        line_of(s, i - 1) + 1
    } else {
        line_of(s, i - 1)
    }
}

/// The number of characters between the start of its line and position `i`.
pub open spec fn col_of(s: Seq<char>, i: int) -> nat
    decreases i,
{
    if i <= 0 || i > s.len() {
        0
    } else if s[i - 1] == '\n' {
        0
    } else {
        col_of(s, i - 1) + 1
    }
}

/// `true` for the two characters that indent a line.
pub open spec fn is_blank(c: char) -> bool {
    c == ' ' || c == '\t'
}

/// Whether nothing but blanks stands between the start of its line and
/// position `i`.
pub open spec fn in_indent(s: Seq<char>, i: int) -> bool
    decreases i,
{
    if i <= 0 || i > s.len() {
        true
    } else if s[i - 1] == '\n' {
        true
    } else {
        is_blank(s[i - 1]) && in_indent(s, i - 1)
    }
}

/// The first position at or after `i` that holds a line feed, or the end
/// of the text.
pub open spec fn line_end(s: Seq<char>, i: int) -> int
    decreases s.len() - i,
{
    if 0 <= i < s.len() && s[i] != '\n' {
        line_end(s, i + 1)
    } else {
        i
    }
}

/// The end of the longest run of identifier characters that starts at `i`.
pub open spec fn ident_end(s: Seq<char>, i: int) -> int
    decreases s.len() - i,
{
    if 0 <= i < s.len() && is_ident_char(s[i]) {
        ident_end(s, i + 1)
    } else {
        i
    }
}

/// The end of the longest run, starting at `i`, of digits with at most one
/// decimal point among them; `seen_dot` says that the point has been used.
pub open spec fn number_end(s: Seq<char>, i: int, seen_dot: bool) -> int
    decreases s.len() - i,
{
    if 0 <= i < s.len() && is_digit(s[i]) {
        number_end(s, i + 1, seen_dot)
    } else if 0 <= i < s.len() && s[i] == '.' && !seen_dot {
        number_end(s, i + 1, true)
    } else {
        i
    }
}

/// The first position at or after `i`, on the line of `i`, that holds a
/// double quote; `None` where the line has none.
pub open spec fn quote_pos(s: Seq<char>, i: int) -> Option<int>
    decreases s.len() - i,
{
    if 0 <= i < s.len() {
        if s[i] == '"' {
            Some(i)
        } else if s[i] == '\n' {
            None
        } else {
            quote_pos(s, i + 1)
        }
    } else {
        None
    }
}

/// Whether three double quotes stand at position `i`.
pub open spec fn triple_quote_at(s: Seq<char>, i: int) -> bool {
    0 <= i && i + 2 < s.len() && s[i] == '"' && s[i + 1] == '"' && s[i + 2] == '"'
}

/// The first position at or after `i` where three double quotes stand;
/// `None` where there is none.
pub open spec fn triple_quote_pos(s: Seq<char>, i: int) -> Option<int>
    decreases s.len() - i,
{
    if 0 <= i && i + 2 < s.len() {
        if triple_quote_at(s, i) {
            Some(i)
        } else {
            triple_quote_pos(s, i + 1)
        }
    } else {
        None
    }
}

/// The keyword that `word` spells, if it spells one.
pub open spec fn keyword_kind(word: Seq<char>) -> Option<TokenType> {
    if word == "and"@ {
        Some(TokenType::AND)
    } else if word == "class"@ {
        Some(TokenType::CLASS)
    } else if word == "else"@ {
        Some(TokenType::ELSE)
    } else if word == "False"@ {
        Some(TokenType::FALSE)
    } else if word == "for"@ {
        Some(TokenType::FOR)
    } else if word == "def"@ {
        Some(TokenType::DEF)
    } else if word == "if"@ {
        Some(TokenType::IF)
    } else if word == "lambda"@ {
        Some(TokenType::LAMBDA)
    } else if word == "or"@ {
        Some(TokenType::OR)
    } else if word == "return"@ {
        Some(TokenType::RETURN)
    } else if word == "True"@ {
        Some(TokenType::TRUE)
    } else if word == "while"@ {
        Some(TokenType::WHILE)
    } else if word == "not"@ {
        Some(TokenType::NOT)
    } else if word == "is"@ {
        Some(TokenType::Is)
    } else if word == "in"@ {
        Some(TokenType::In)
    } else if word == "elif"@ {
        Some(TokenType::ELIF)
    } else if word == "break"@ {
        Some(TokenType::Break)
    } else if word == "continue"@ {
        Some(TokenType::Continue)
    } else if word == "print"@ {
        Some(TokenType::PRINT)
    } else {
        None
    }
}

/// The token that the single character `c` spells, if it spells one.
pub open spec fn single_kind(c: char) -> Option<TokenType> {
    if c == '(' {
        Some(TokenType::LeftParen)
    } else if c == ')' {
        Some(TokenType::RightParen)
    } else if c == '{' {
        Some(TokenType::LeftBrace)
    } else if c == '}' {
        Some(TokenType::RightBrace)
    } else if c == ',' {
        Some(TokenType::Comma)
    } else if c == '+' {
        Some(TokenType::Plus)
    } else if c == '-' {
        Some(TokenType::Minus)
    } else if c == '*' {
        Some(TokenType::Star)
    } else if c == '%' {
        Some(TokenType::Mod)
    } else if c == ';' {
        Some(TokenType::Semicolon)
    } else if c == '.' {
        Some(TokenType::Dot)
    } else if c == ':' {
        Some(TokenType::COLON)
    } else if c == '<' {
        Some(TokenType::LESS)
    } else if c == '!' {
        Some(TokenType::BANG)
    } else if c == '/' {
        Some(TokenType::Slash)
    } else if c == '=' {
        Some(TokenType::EQUAL)
    } else if c == '>' {
        Some(TokenType::GREATER)
    } else {
        None
    }
}

/// The character that, directly after `c`, makes a token of two characters
/// with it.
pub open spec fn double_second(c: char) -> Option<char> {
    if c == '<' || c == '=' || c == '!' || c == '>' {
        Some('=')
    } else if c == '/' {
        Some('/')
    } else if c == '*' {
        Some('*')
    } else {
        None
    }
}

/// The token of two characters that starts with `c`, where there is one.
pub open spec fn double_kind(c: char) -> Option<TokenType> {
    if c == '<' {
        Some(TokenType::LessEqual)
    } else if c == '=' {
        Some(TokenType::EqualEqual)
    } else if c == '!' {
        Some(TokenType::BangEqual)
    } else if c == '>' {
        Some(TokenType::GreaterEqual)
    } else if c == '/' {
        Some(TokenType::ExactDivision)
    } else if c == '*' {
        Some(TokenType::Pow)
    } else {
        None
    }
}

/// What the lexer does at one position of the text.
pub enum LexStep {
    /// A token, and the position after it.
    Emit(TokenView, int),
    /// Nothing to emit; the position to go on from.
    Skip(int),
    /// The text from the position to the given end is no token.
    Fail(int),
}

/// The token of kind `kind` that carries `literal` and spans `s[i..end]`.
pub open spec fn token_at(
    s: Seq<char>,
    i: int,
    end: int,
    kind: TokenType,
    literal: LiteralView,
) -> TokenView {
    TokenView {
        token_type: kind,
        lineno: line_of(s, i),
        col_offset: col_of(s, i),
        literal,
        lexeme: s.subrange(i, end),
    }
}

/// The numeral of a number with a decimal point: its text, with a `0` put
/// in front where the text starts with the point.
pub open spec fn numeral(text: Seq<char>) -> Seq<char> {
    if text.len() > 0 && text[0] == '.' {
        seq!['0'] + text
    } else {
        text
    }
}

/// The step at a position that starts a number.
pub open spec fn number_step(s: Seq<char>, i: int) -> LexStep {
    let end = number_end(s, i, false);
    let text = s.subrange(i, end);
    if text.contains('.') {
        LexStep::Emit(token_at(s, i, end, TokenType::NUMBER, LiteralView::Float(numeral(text))), end)
    } else if decimal_value(text) <= i64::MAX {
        LexStep::Emit(
            token_at(s, i, end, TokenType::NUMBER, LiteralView::Int(decimal_value(text) as i64)),
            end,
        )
    } else {
        LexStep::Fail(end)
    }
}

/// The step at a position that starts a word: a keyword or an identifier.
pub open spec fn word_step(s: Seq<char>, i: int) -> LexStep {
    let end = ident_end(s, i);
    let word = s.subrange(i, end);
    match keyword_kind(word) {
        Some(kind) => LexStep::Emit(token_at(s, i, end, kind, LiteralView::Nil), end),
        None => LexStep::Emit(
            token_at(s, i, end, TokenType::IDENTIFIER, LiteralView::Identifier(word)),
            end,
        ),
    }
}

/// The step at a position that holds a double quote.
///
/// Three quotes open a string that runs, over any number of lines, to the
/// next three quotes. One quote opens a string that runs to the next quote
/// on the same line. A string that is not closed is no token.
pub open spec fn string_step(s: Seq<char>, i: int) -> LexStep {
    if triple_quote_at(s, i) {
        match triple_quote_pos(s, i + 3) {
            Some(close) => LexStep::Emit(
                token_at(
                    s,
                    i,
                    close + 3,
                    TokenType::STRING,
                    LiteralView::Str(s.subrange(i + 3, close)),
                ),
                close + 3,
            ),
            None => LexStep::Fail(s.len() as int),
        }
    } else {
        match quote_pos(s, i + 1) {
            Some(close) => LexStep::Emit(
                token_at(
                    s,
                    i,
                    close + 1,
                    TokenType::STRING,
                    LiteralView::Str(s.subrange(i + 1, close)),
                ),
                close + 1,
            ),
            None => LexStep::Fail(line_end(s, i)),
        }
    }
}

/// The step at a position that holds an operator or a punctuation mark.
pub open spec fn operator_step(s: Seq<char>, i: int) -> LexStep {
    let c = s[i];
    if double_second(c) is Some && i + 1 < s.len() && Some(s[i + 1]) == double_second(c) {
        LexStep::Emit(token_at(s, i, i + 2, double_kind(c).unwrap(), LiteralView::Nil), i + 2)
    } else {
        match single_kind(c) {
            Some(kind) => LexStep::Emit(token_at(s, i, i + 1, kind, LiteralView::Nil), i + 1),
            None => LexStep::Fail(i + 1),
        }
    }
}

/// What the lexer does at position `i` of `s`, for `0 <= i < s.len()`.
pub open spec fn lex_step(s: Seq<char>, i: int) -> LexStep {
    let c = s[i];
    if c == '\n' {
        LexStep::Emit(token_at(s, i, i + 1, TokenType::LineBreak, LiteralView::Nil), i + 1)
    } else if c == ' ' {
        if in_indent(s, i) {
            LexStep::Emit(token_at(s, i, i + 1, TokenType::SPACE, LiteralView::Nil), i + 1)
        } else {
            LexStep::Skip(i + 1)
        }
    } else if c == '\t' {
        if in_indent(s, i) {
            LexStep::Emit(token_at(s, i, i + 1, TokenType::TAB, LiteralView::Nil), i + 1)
        } else {
            LexStep::Skip(i + 1)
        }
    } else if c == '\r' {
        LexStep::Skip(i + 1)
    } else if c == '#' {
        LexStep::Skip(line_end(s, i))
    } else if is_digit(c) || (c == '.' && i + 1 < s.len() && is_digit(s[i + 1])) {
        number_step(s, i)
    } else if is_ident_char(c) {
        word_step(s, i)
    } else if c == '"' {
        string_step(s, i)
    } else {
        operator_step(s, i)
    }
}

/// The position that the lexer goes on from after its step at `i`.
pub open spec fn step_end(step: LexStep) -> int {
    match step {
        LexStep::Emit(_, end) => end,
        LexStep::Skip(end) => end,
        LexStep::Fail(end) => end,
    }
}

/// The tokens that close the text: the break of a last line that no line
/// feed ends, and the end-of-input token, both at the end of the text.
pub open spec fn closing_tokens(s: Seq<char>) -> Seq<TokenView> {
    let n = s.len() as int;
    let eof = token_at(s, n, n, TokenType::EOF, LiteralView::Nil);
    if col_of(s, n) > 0 {
        seq![
            TokenView {
                token_type: TokenType::LineBreak,
                lineno: line_of(s, n),
                col_offset: col_of(s, n),
                literal: LiteralView::Nil,
                lexeme: seq!['\n'],
            },
            eof,
        ]
    } else {
        seq![eof]
    }
}

/// The tokens of `s` from position `i` on, or the place where lexing fails:
/// the start and the end of the text that is no token.
pub open spec fn lex_from(s: Seq<char>, i: int) -> Result<Seq<TokenView>, (int, int)>
    decreases s.len() - i,
{
    if i < 0 || i >= s.len() {
        Ok(closing_tokens(s))
    } else {
        let step = lex_step(s, i);
        let end = step_end(step);
        if end <= i || end > s.len() {
            Err((i, i))
        } else {
            match step {
                LexStep::Fail(_) => Err((i, end)),
                LexStep::Skip(_) => lex_from(s, end),
                LexStep::Emit(t, _) => match lex_from(s, end) {
                    Ok(rest) => Ok(seq![t] + rest),
                    Err(e) => Err(e),
                },
            }
        }
    }
}

/// The tokens of `s` from position `i` on that stand before the place
/// where lexing fails, or before the end of the text.
pub open spec fn lexed_before(s: Seq<char>, i: int) -> Seq<TokenView>
    decreases s.len() - i,
{
    if i < 0 || i >= s.len() {
        Seq::empty()
    } else {
        let step = lex_step(s, i);
        let end = step_end(step);
        if end <= i || end > s.len() {
            Seq::empty()
        } else {
            match step {
                LexStep::Fail(_) => Seq::empty(),
                LexStep::Skip(_) => lexed_before(s, end),
                LexStep::Emit(t, _) => seq![t] + lexed_before(s, end),
            }
        }
    }
}

/// The tokens of the source text `s`, or the place where lexing fails.
pub open spec fn lex(s: Seq<char>) -> Result<Seq<TokenView>, (int, int)> {
    lex_from(s, 0)
}

// ---------------------------------------------------------------------
// Facts about the runs that tokens are cut from
// ---------------------------------------------------------------------

/// A line's end is at or after the position it is sought from, within the
/// text, and no line feed stands before it.
pub proof fn lemma_line_end(s: Seq<char>, i: int)
    requires
        0 <= i <= s.len(),
    ensures
        i <= line_end(s, i) <= s.len(),
        forall|k: int| i <= k < line_end(s, i) ==> s[k] != '\n',
        line_end(s, i) < s.len() ==> s[line_end(s, i)] == '\n',
    decreases s.len() - i,
{
    if i < s.len() && s[i] != '\n' {
        lemma_line_end(s, i + 1);
    }
}

/// A word's end is at or after its start, within the text, and the word
/// holds identifier characters only.
pub proof fn lemma_ident_end(s: Seq<char>, i: int)
    requires
        0 <= i <= s.len(),
    ensures
        i <= ident_end(s, i) <= s.len(),
        forall|k: int| i <= k < ident_end(s, i) ==> is_ident_char(s[k]),
        ident_end(s, i) < s.len() ==> !is_ident_char(s[ident_end(s, i)]),
    decreases s.len() - i,
{
    if i < s.len() && is_ident_char(s[i]) {
        lemma_ident_end(s, i + 1);
    }
}

/// A number's end is at or after its start, within the text, and the
/// number holds digits and decimal points only.
pub proof fn lemma_number_end(s: Seq<char>, i: int, seen_dot: bool)
    requires
        0 <= i <= s.len(),
    ensures
        i <= number_end(s, i, seen_dot) <= s.len(),
        forall|k: int| i <= k < number_end(s, i, seen_dot) ==> is_digit(s[k]) || s[k] == '.',
        seen_dot ==> forall|k: int| i <= k < number_end(s, i, seen_dot) ==> is_digit(s[k]),
    decreases s.len() - i,
{
    if i < s.len() && is_digit(s[i]) {
        lemma_number_end(s, i + 1, seen_dot);
    } else if i < s.len() && s[i] == '.' && !seen_dot {
        lemma_number_end(s, i + 1, true);
    }
}

/// A closing quote, where there is one, stands at or after the position it
/// is sought from, on the same line.
pub proof fn lemma_quote_pos(s: Seq<char>, i: int)
    requires
        0 <= i <= s.len(),
    ensures
        quote_pos(s, i) matches Some(q) ==> i <= q < s.len() && s[q] == '"' && (forall|k: int|
            i <= k < q ==> s[k] != '"' && s[k] != '\n'),
    decreases s.len() - i,
{
    if i < s.len() && s[i] != '"' && s[i] != '\n' {
        lemma_quote_pos(s, i + 1);
    }
}

/// Closing triple quotes, where there are any, stand at or after the
/// position they are sought from, within the text.
pub proof fn lemma_triple_quote_pos(s: Seq<char>, i: int)
    requires
        0 <= i <= s.len(),
    ensures
        triple_quote_pos(s, i) matches Some(q) ==> i <= q && q + 3 <= s.len() && triple_quote_at(
            s,
            q,
        ),
    decreases s.len() - i,
{
    if i + 2 < s.len() && !triple_quote_at(s, i) {
        lemma_triple_quote_pos(s, i + 1);
    }
}

/// Every step of the lexer moves forward and stays within the text, so
/// [`lex_from`] never stops for want of progress.
pub proof fn lemma_step_advances(s: Seq<char>, i: int)
    requires
        0 <= i < s.len(),
    ensures
        i < step_end(lex_step(s, i)) <= s.len(),
{
    lemma_line_end(s, i + 1);
    lemma_ident_end(s, i + 1);
    lemma_number_end(s, i + 1, false);
    lemma_number_end(s, i + 1, true);
    lemma_quote_pos(s, i + 1);
    if i + 3 <= s.len() {
        lemma_triple_quote_pos(s, i + 3);
    }
}

// ---------------------------------------------------------------------
// The scanner
// ---------------------------------------------------------------------

/// How far the lexeme under assembly may reach.
#[derive(Debug, Clone, Copy, PartialEq, Eq, Structural)]
pub enum CheckMethod {
    /// To the end of the line at most.
    InLine,
    /// One more character at most.
    Next,
    /// Over any number of lines.
    All,
}

/// What kind of lexeme is under assembly.
#[derive(Debug, Clone, Copy, PartialEq, Eq, Structural)]
pub enum CheckFor {
    String,
    Number,
    Identifier,
    Normal,
}

/// The state in which the scanner assembles a lexeme of several
/// characters: the character that completes or closes the lexeme, how far
/// the lexeme may reach, whether it is complete, and its kind.
#[derive(Debug, Clone, Copy, PartialEq, Eq, Structural)]
pub struct Checker {
    pub current_check_char: Option<char>,
    pub check_method: CheckMethod,
    pub is_checked: bool,
    pub check_for: CheckFor,
}

/// The checker at rest: nothing is under assembly.
pub open spec fn idle_checker() -> Checker {
    Checker {
        current_check_char: None,
        check_method: CheckMethod::InLine,
        is_checked: true,
        check_for: CheckFor::Normal,
    }
}

/// The checker for the lexeme of several characters that starts at
/// position `i`; `None` where a token of one character starts there, or
/// nothing does.
pub open spec fn checker_for(s: Seq<char>, i: int) -> Option<Checker> {
    let c = s[i];
    if double_second(c) is Some {
        Some(
            Checker {
                current_check_char: double_second(c),
                check_method: CheckMethod::Next,
                is_checked: false,
                check_for: CheckFor::Normal,
            },
        )
    } else if c == '"' {
        Some(
            Checker {
                current_check_char: Some('"'),
                check_method: if triple_quote_at(s, i) {
                    CheckMethod::All
                } else {
                    CheckMethod::InLine
                },
                is_checked: false,
                check_for: CheckFor::String,
            },
        )
    } else if c == '.' && i + 1 < s.len() && is_digit(s[i + 1]) {
        Some(
            Checker {
                current_check_char: Some('.'),
                check_method: CheckMethod::InLine,
                is_checked: false,
                check_for: CheckFor::Number,
            },
        )
    } else if is_digit(c) {
        Some(
            Checker {
                current_check_char: None,
                check_method: CheckMethod::InLine,
                is_checked: false,
                check_for: CheckFor::Number,
            },
        )
    } else if is_ident_char(c) {
        Some(
            Checker {
                current_check_char: None,
                check_method: CheckMethod::InLine,
                is_checked: false,
                check_for: CheckFor::Identifier,
            },
        )
    } else {
        None
    }
}

/// The scanner: the source text, the place that the scan has reached, the
/// place where the text ends, the tokens made so far and the checker.
#[derive(Debug)]
pub struct Scanner {
    pub source: String,
    pub lineno: usize,
    pub col_offset: usize,
    pub end_lineno: usize,
    pub end_col_offset: usize,
    pub token: Vec<Token>,
    pub checker: Checker,
}

/// One step of the scanner, as the executable code holds it.
pub enum ScanStep {
    Emit(Token, usize),
    Skip(usize),
    Fail(usize),
}

impl View for ScanStep {
    type V = LexStep;

    open spec fn view(&self) -> LexStep {
        match self {
            ScanStep::Emit(t, end) => LexStep::Emit(t@, *end as int),
            ScanStep::Skip(end) => LexStep::Skip(*end as int),
            ScanStep::Fail(end) => LexStep::Fail(*end as int),
        }
    }
}

/// The tokens `acc` followed by the outcome `rest` of lexing what is left.
pub open spec fn prepend(acc: Seq<TokenView>, rest: Result<Seq<TokenView>, (int, int)>) -> Result<
    Seq<TokenView>,
    (int, int),
> {
    match rest {
        Ok(ts) => Ok(acc + ts),
        Err(e) => Err(e),
    }
}

/// The line and the column of a position are no larger than the position.
pub proof fn lemma_position_bounds(s: Seq<char>, i: int)
    requires
        0 <= i <= s.len(),
    ensures
        line_of(s, i) <= i,
        col_of(s, i) <= i,
    decreases i,
{
    if i > 0 {
        lemma_position_bounds(s, i - 1);
    }
}

/// A run of digits denotes no less than any run it starts with.
pub proof fn lemma_decimal_prefix_le(t: Seq<char>, k: int)
    requires
        0 <= k <= t.len(),
        forall|j: int| 0 <= j < t.len() ==> is_digit(t[j]),
    ensures
        decimal_value(t.subrange(0, k)) <= decimal_value(t),
    decreases t.len() - k,
{
    if k == t.len() {
        assert(t.subrange(0, k) =~= t);
    } else {
        lemma_decimal_prefix_le(t.drop_last(), k);
        assert(t.drop_last().subrange(0, k) =~= t.subrange(0, k));
    }
}

/// The keyword that `word` spells, if it spells one.
pub fn recognize_keywords(word: &String) -> (r: Option<TokenType>)
    ensures
        r == keyword_kind(word@),
{
    if *word == String::from_str("and") {
        Some(TokenType::AND)
    } else if *word == String::from_str("class") {
        Some(TokenType::CLASS)
    } else if *word == String::from_str("else") {
        Some(TokenType::ELSE)
    } else if *word == String::from_str("False") {
        Some(TokenType::FALSE)
    } else if *word == String::from_str("for") {
        Some(TokenType::FOR)
    } else if *word == String::from_str("def") {
        Some(TokenType::DEF)
    } else if *word == String::from_str("if") {
        Some(TokenType::IF)
    } else if *word == String::from_str("lambda") {
        Some(TokenType::LAMBDA)
    } else if *word == String::from_str("or") {
        Some(TokenType::OR)
    } else if *word == String::from_str("return") {
        Some(TokenType::RETURN)
    } else if *word == String::from_str("True") {
        Some(TokenType::TRUE)
    } else if *word == String::from_str("while") {
        Some(TokenType::WHILE)
    } else if *word == String::from_str("not") {
        Some(TokenType::NOT)
    } else if *word == String::from_str("is") {
        Some(TokenType::Is)
    } else if *word == String::from_str("in") {
        Some(TokenType::In)
    } else if *word == String::from_str("elif") {
        Some(TokenType::ELIF)
    } else if *word == String::from_str("break") {
        Some(TokenType::Break)
    } else if *word == String::from_str("continue") {
        Some(TokenType::Continue)
    } else if *word == String::from_str("print") {
        Some(TokenType::PRINT)
    } else {
        None
    }
}

/// The token that the single character `c` spells, if it spells one.
pub fn recognize_token(c: char) -> (r: Option<TokenType>)
    ensures
        r == single_kind(c),
{
    if c == '(' {
        Some(TokenType::LeftParen)
    } else if c == ')' {
        Some(TokenType::RightParen)
    } else if c == '{' {
        Some(TokenType::LeftBrace)
    } else if c == '}' {
        Some(TokenType::RightBrace)
    } else if c == ',' {
        Some(TokenType::Comma)
    } else if c == '+' {
        Some(TokenType::Plus)
    } else if c == '-' {
        Some(TokenType::Minus)
    } else if c == '*' {
        Some(TokenType::Star)
    } else if c == '%' {
        Some(TokenType::Mod)
    } else if c == ';' {
        Some(TokenType::Semicolon)
    } else if c == '.' {
        Some(TokenType::Dot)
    } else if c == ':' {
        Some(TokenType::COLON)
    } else if c == '<' {
        Some(TokenType::LESS)
    } else if c == '!' {
        Some(TokenType::BANG)
    } else if c == '/' {
        Some(TokenType::Slash)
    } else if c == '=' {
        Some(TokenType::EQUAL)
    } else if c == '>' {
        Some(TokenType::GREATER)
    } else {
        None
    }
}

/// The token of two characters that starts with `c`, where there is one.
fn recognize_double(c: char) -> (r: Option<TokenType>)
    ensures
        r == double_kind(c),
        r is Some <==> double_second(c) is Some,
{
    if c == '<' {
        Some(TokenType::LessEqual)
    } else if c == '=' {
        Some(TokenType::EqualEqual)
    } else if c == '!' {
        Some(TokenType::BangEqual)
    } else if c == '>' {
        Some(TokenType::GreaterEqual)
    } else if c == '/' {
        Some(TokenType::ExactDivision)
    } else if c == '*' {
        Some(TokenType::Pow)
    } else {
        None
    }
}

/// Whether three double quotes stand at position `i`.
fn triple_quote_here(chars: &Vec<char>, i: usize) -> (b: bool)
    ensures
        b == triple_quote_at(chars@, i as int),
{
    i < chars.len() && chars.len() - i > 2 && chars[i] == '"' && chars[i + 1] == '"' && chars[i
        + 2] == '"'
}

/// The end of the line that position `i` is on.
fn find_line_end(chars: &Vec<char>, i: usize) -> (end: usize)
    requires
        i <= chars.len(),
    ensures
        end == line_end(chars@, i as int),
        i <= end <= chars.len(),
{
    let mut j: usize = i;
    while j < chars.len() && chars[j] != '\n'
        invariant
            i <= j <= chars.len(),
            line_end(chars@, i as int) == line_end(chars@, j as int),
        decreases chars.len() - j,
    {
        j += 1;
    }
    j
}

/// The scanner for `source`, with no token made yet.
///
/// `end_lineno` and `end_col_offset` are the line and the column at which
/// the text ends.
pub fn build_scanner(source: String) -> (scanner: Scanner)
    ensures
        scanner.source == source,
        scanner.token@.len() == 0,
        scanner.lineno == 0,
        scanner.col_offset == 0,
        scanner.end_lineno == line_of(source@, source@.len() as int),
        scanner.end_col_offset == col_of(source@, source@.len() as int),
        scanner.checker == idle_checker(),
{
    let chars = chars_of(source.as_str());
    let mut line: usize = 0;
    let mut col: usize = 0;
    let mut i: usize = 0;
    while i < chars.len()
        invariant
            i <= chars.len(),
            line == line_of(chars@, i as int),
            col == col_of(chars@, i as int),
        decreases chars.len() - i,
    {
        proof {
            lemma_position_bounds(chars@, i as int);
        }
        if chars[i] == '\n' {
            line += 1;
            col = 0;
        } else {
            col += 1;
        }
        i += 1;
    }
    Scanner {
        source,
        lineno: 0,
        col_offset: 0,
        end_lineno: line,
        end_col_offset: col,
        token: Vec::new(),
        checker: Checker {
            current_check_char: None,
            check_method: CheckMethod::InLine,
            is_checked: true,
            check_for: CheckFor::Normal,
        },
    }
}

impl Scanner {
    /// Starts the assembly of a lexeme.
    fn build_checker(
        &mut self,
        check_char: Option<char>,
        check_method: CheckMethod,
        check_for: CheckFor,
    )
        ensures
            *final(self) == (Scanner {
                checker: Checker {
                    current_check_char: check_char,
                    check_method,
                    is_checked: false,
                    check_for,
                },
                ..*old(self)
            }),
    {
        self.checker = Checker {
            current_check_char: check_char,
            check_method,
            is_checked: false,
            check_for,
        };
    }

    /// Starts the assembly of a number or of a word where `c` starts one,
    /// and says whether it did.
    fn build_checker_for_others(&mut self, c: char) -> (built: bool)
        ensures
            built == (is_digit(c) || is_ident_char(c)),
            is_digit(c) ==> *final(self) == (Scanner {
                checker: Checker {
                    current_check_char: None,
                    check_method: CheckMethod::InLine,
                    is_checked: false,
                    check_for: CheckFor::Number,
                },
                ..*old(self)
            }),
            !is_digit(c) && is_ident_char(c) ==> *final(self) == (Scanner {
                checker: Checker {
                    current_check_char: None,
                    check_method: CheckMethod::InLine,
                    is_checked: false,
                    check_for: CheckFor::Identifier,
                },
                ..*old(self)
            }),
            !built ==> *final(self) == *old(self),
    {
        if char_is_digit(c) {
            self.build_checker(None, CheckMethod::InLine, CheckFor::Number);
            true
        } else if char_is_ident(c) {
            self.build_checker(None, CheckMethod::InLine, CheckFor::Identifier);
            true
        } else {
            false
        }
    }

    /// Looks at the character at position `i`, which starts a lexeme.
    ///
    /// Where a lexeme of several characters starts there, its checker is
    /// set up. The first flag says that the character needs no token of its
    /// own: a lexeme of several characters starts with it, or it is a
    /// carriage return, or it opens a comment. The second flag says that it
    /// opens a comment, so that the rest of the line is to be passed over.
    fn build_checker_for_normal(&mut self, chars: &Vec<char>, i: usize) -> (r: (bool, bool))
        requires
            i < chars.len(),
        ensures
            r.1 == (chars@[i as int] == '#'),
            r.0 == (checker_for(chars@, i as int) is Some || chars@[i as int] == '#' || chars@[i as int]
                == '\r'),
            checker_for(chars@, i as int) matches Some(ch) ==> *final(self) == (Scanner {
                checker: ch,
                ..*old(self)
            }),
            checker_for(chars@, i as int) is None ==> *final(self) == *old(self),
    {
        let c = chars[i];
        if c == '<' || c == '=' || c == '!' || c == '>' {
            self.build_checker(Some('='), CheckMethod::Next, CheckFor::Normal);
            (true, false)
        } else if c == '/' {
            self.build_checker(Some('/'), CheckMethod::Next, CheckFor::Normal);
            (true, false)
        } else if c == '*' {
            self.build_checker(Some('*'), CheckMethod::Next, CheckFor::Normal);
            (true, false)
        } else if c == '#' {
            (true, true)
        } else if c == '\r' {
            (true, false)
        } else if c == '"' {
            if triple_quote_here(chars, i) {
                self.build_checker(Some('"'), CheckMethod::All, CheckFor::String);
            } else {
                self.build_checker(Some('"'), CheckMethod::InLine, CheckFor::String);
            }
            (true, false)
        } else if c == '.' && i + 1 < chars.len() && char_is_digit(chars[i + 1]) {
            self.build_checker(Some('.'), CheckMethod::InLine, CheckFor::Number);
            (true, false)
        } else {
            let built = self.build_checker_for_others(c);
            (built, false)
        }
    }

    /// Handles a character with regard to indentation: says whether the
    /// line is still being indented after it, and whether it is a blank.
    fn check_indent(indent: bool, c: char) -> (r: (bool, bool))
        ensures
            r.0 == (indent && is_blank(c)),
            r.1 == is_blank(c),
    {
        let blank = c == ' ' || c == '\t';
        (indent && blank, blank)
    }

    /// Finds the end of the number that starts at `i`, and whether the
    /// number holds a decimal point.
    fn check_for_number(chars: &Vec<char>, i: usize) -> (r: (usize, bool))
        requires
            i < chars.len(),
        ensures
            r.0 == number_end(chars@, i as int, false),
            i <= r.0 <= chars.len(),
            r.1 == chars@.subrange(i as int, r.0 as int).contains('.'),
            forall|k: int| i <= k < r.0 ==> is_digit(chars@[k]) || chars@[k] == '.',
    {
        let mut j: usize = i;
        let mut seen_dot = false;
        while j < chars.len() && (char_is_digit(chars[j]) || (chars[j] == '.' && !seen_dot))
            invariant
                i <= j <= chars.len(),
                number_end(chars@, i as int, false) == number_end(chars@, j as int, seen_dot),
                seen_dot <==> exists|k: int| i <= k < j && chars@[k] == '.',
                forall|k: int| i <= k < j ==> is_digit(chars@[k]) || chars@[k] == '.',
            decreases chars.len() - j,
        {
            if chars[j] == '.' {
                seen_dot = true;
            }
            j += 1;
        }
        proof {
            let text = chars@.subrange(i as int, j as int);
            if seen_dot {
                let k = choose|k: int| i <= k < j && chars@[k] == '.';
                assert(text[k - i] == '.');
            }
            if text.contains('.') {
                let m = choose|m: int| 0 <= m < text.len() && text[m] == '.';
                assert(chars@[i + m] == '.');
            }
        }
        (j, seen_dot)
    }

    /// Makes the token of the number `chars[i..end]`, or fails where the
    /// number is whole and too large.
    #[verifier::loop_isolation(false)]
    fn add_for_number(
        chars: &Vec<char>,
        i: usize,
        end: usize,
        has_dot: bool,
        line: usize,
        col: usize,
    ) -> (r: ScanStep)
        requires
            i <= end <= chars.len(),
            end == number_end(chars@, i as int, false),
            has_dot == chars@.subrange(i as int, end as int).contains('.'),
            forall|k: int| i <= k < end ==> is_digit(chars@[k]) || chars@[k] == '.',
            line == line_of(chars@, i as int),
            col == col_of(chars@, i as int),
        ensures
            r@ == number_step(chars@, i as int),
    {
        let lexeme = string_from_chars(chars, i, end);
        let ghost text = chars@.subrange(i as int, end as int);
        if has_dot {
            let numeral = if i < end && chars[i] == '.' {
                let mut padded = String::from_str("0");
                padded.append(lexeme.as_str());
                proof {
                    reveal_strlit("0");
                    assert("0"@ =~= seq!['0']);
                }
                padded
            } else {
                lexeme.clone()
            };
            return ScanStep::Emit(
                Token {
                    token_type: TokenType::NUMBER,
                    lineno: line,
                    col_offset: col,
                    literal: Literal::Float(numeral),
                    lexeme,
                },
                end,
            );
        }
        assert forall|k: int| 0 <= k < text.len() implies is_digit(text[k]) by {
            assert(text[k] == chars@[i + k]);
            if text[k] == '.' {
                assert(text.contains('.'));
            }
        }
        let mut value: i64 = 0;
        let mut j: usize = i;
        while j < end
            invariant
                i <= j <= end <= chars.len(),
                text == chars@.subrange(i as int, end as int),
                forall|k: int| 0 <= k < text.len() ==> is_digit(text[k]),
                value == decimal_value(chars@.subrange(i as int, j as int)),
                value >= 0,
            decreases end - j,
        {
            let c = chars[j];
            assert(text[j - i] == c);
            let d: i64 = (c as u32 - '0' as u32) as i64;
            proof {
                assert(d == digit_value(c));
                let next = chars@.subrange(i as int, j + 1);
                assert(next.drop_last() =~= chars@.subrange(i as int, j as int));
                assert(next.last() == c);
                assert(decimal_value(next) == 10 * value + d);
                assert(next =~= text.subrange(0, j + 1 - i));
                lemma_decimal_prefix_le(text, j + 1 - i);
            }
            if value > (i64::MAX - d) / 10 {
                return ScanStep::Fail(end);
            }
            value = value * 10 + d;
            j += 1;
        }
        assert(chars@.subrange(i as int, j as int) == text);
        ScanStep::Emit(
            Token {
                token_type: TokenType::NUMBER,
                lineno: line,
                col_offset: col,
                literal: Literal::Int(value),
                lexeme,
            },
            end,
        )
    }

    /// Finds the end of the word that starts at `i`.
    fn check_for_identifier(chars: &Vec<char>, i: usize) -> (end: usize)
        requires
            i <= chars.len(),
        ensures
            end == ident_end(chars@, i as int),
            i <= end <= chars.len(),
    {
        let mut j: usize = i;
        while j < chars.len() && char_is_ident(chars[j])
            invariant
                i <= j <= chars.len(),
                ident_end(chars@, i as int) == ident_end(chars@, j as int),
            decreases chars.len() - j,
        {
            j += 1;
        }
        j
    }

    /// Makes the token of the word `chars[i..end]`: that of a keyword, or
    /// an identifier.
    fn add_for_identifier(chars: &Vec<char>, i: usize, end: usize, line: usize, col: usize) -> (r:
        ScanStep)
        requires
            i <= end <= chars.len(),
            end == ident_end(chars@, i as int),
            line == line_of(chars@, i as int),
            col == col_of(chars@, i as int),
        ensures
            r@ == word_step(chars@, i as int),
    {
        let lexeme = string_from_chars(chars, i, end);
        match recognize_keywords(&lexeme) {
            Some(kind) => ScanStep::Emit(
                Token {
                    token_type: kind,
                    lineno: line,
                    col_offset: col,
                    literal: Literal::Nil,
                    lexeme,
                },
                end,
            ),
            None => {
                let name = lexeme.clone();
                ScanStep::Emit(
                    Token {
                        token_type: TokenType::IDENTIFIER,
                        lineno: line,
                        col_offset: col,
                        literal: Literal::Identifier(name),
                        lexeme,
                    },
                    end,
                )
            },
        }
    }

    /// Finds the quotes that close the string opened at `i`: their
    /// position, or `None` where the string is not closed.
    fn check_for_string(&self, chars: &Vec<char>, i: usize) -> (close: Option<usize>)
        requires
            i < chars.len(),
            chars@[i as int] == '"',
            (self.checker.check_method == CheckMethod::All) == triple_quote_at(chars@, i as int),
        ensures
            triple_quote_at(chars@, i as int) ==> (match close {
                Some(q) => triple_quote_pos(chars@, i + 3) == Some(q as int) && i + 3 <= q && q + 3
                    <= chars.len(),
                None => triple_quote_pos(chars@, i + 3) is None,
            }),
            !triple_quote_at(chars@, i as int) ==> (match close {
                Some(q) => quote_pos(chars@, i + 1) == Some(q as int) && i < q < chars.len(),
                None => quote_pos(chars@, i + 1) is None,
            }),
    {
        match self.checker.check_method {
            CheckMethod::All => {
                let mut j: usize = i + 3;
                while j < chars.len() && chars.len() - j > 2 && !triple_quote_here(chars, j)
                    invariant
                        i + 3 <= j <= chars.len(),
                        triple_quote_pos(chars@, i + 3) == triple_quote_pos(chars@, j as int),
                    decreases chars.len() - j,
                {
                    j += 1;
                }
                if j < chars.len() && chars.len() - j > 2 {
                    Some(j)
                } else {
                    None
                }
            },
            _ => {
                let mut j: usize = i + 1;
                while j < chars.len() && chars[j] != '"' && chars[j] != '\n'
                    invariant
                        i < j <= chars.len(),
                        quote_pos(chars@, i + 1) == quote_pos(chars@, j as int),
                    decreases chars.len() - j,
                {
                    j += 1;
                }
                if j < chars.len() && chars[j] == '"' {
                    Some(j)
                } else {
                    None
                }
            },
        }
    }

    /// Makes the token of the string that opens at `i` and whose quotes
    /// close at `close`; `width` is the number of quotes on either side.
    fn add_for_string(
        chars: &Vec<char>,
        i: usize,
        close: usize,
        width: usize,
        line: usize,
        col: usize,
    ) -> (r: ScanStep)
        requires
            i + width <= close,
            close + width <= chars.len(),
            line == line_of(chars@, i as int),
            col == col_of(chars@, i as int),
        ensures
            r@ == LexStep::Emit(
                token_at(
                    chars@,
                    i as int,
                    close + width,
                    TokenType::STRING,
                    LiteralView::Str(chars@.subrange(i + width, close as int)),
                ),
                close + width,
            ),
    {
        let lexeme = string_from_chars(chars, i, close + width);
        let body = string_from_chars(chars, i + width, close);
        ScanStep::Emit(
            Token {
                token_type: TokenType::STRING,
                lineno: line,
                col_offset: col,
                literal: Literal::Str(body),
                lexeme,
            },
            close + width,
        )
    }

    /// Makes the token of the operator or punctuation mark at `i`: of two
    /// characters where the checker's character follows, else of one.
    fn check_for_others(&self, chars: &Vec<char>, i: usize, line: usize, col: usize) -> (r:
        ScanStep)
        requires
            i < chars.len(),
            self.checker.current_check_char == double_second(chars@[i as int]),
            line == line_of(chars@, i as int),
            col == col_of(chars@, i as int),
        ensures
            r@ == operator_step(chars@, i as int),
    {
        let c = chars[i];
        let second: bool = match self.checker.current_check_char {
            Some(expected) => i + 1 < chars.len() && chars[i + 1] == expected,
            None => false,
        };
        if second {
            let kind = recognize_double(c);
            let lexeme = string_from_chars(chars, i, i + 2);
            ScanStep::Emit(
                Token {
                    token_type: kind.unwrap(),
                    lineno: line,
                    col_offset: col,
                    literal: Literal::Nil,
                    lexeme,
                },
                i + 2,
            )
        } else {
            match recognize_token(c) {
                Some(kind) => {
                    let lexeme = string_from_chars(chars, i, i + 1);
                    ScanStep::Emit(
                        Token {
                            token_type: kind,
                            lineno: line,
                            col_offset: col,
                            literal: Literal::Nil,
                            lexeme,
                        },
                        i + 1,
                    )
                },
                None => ScanStep::Fail(i + 1),
            }
        }
    }

    /// Assembles the lexeme that starts at `i`, as the checker that was set
    /// up for it says.
    fn check_for_all(&self, chars: &Vec<char>, i: usize, line: usize, col: usize) -> (r: ScanStep)
        requires
            i < chars.len(),
            checker_for(chars@, i as int) == Some(self.checker),
            line == line_of(chars@, i as int),
            col == col_of(chars@, i as int),
        ensures
            r@ == lex_step(chars@, i as int),
    {
        match self.checker.check_for {
            CheckFor::Number => {
                let (end, has_dot) = Self::check_for_number(chars, i);
                Self::add_for_number(chars, i, end, has_dot, line, col)
            },
            CheckFor::Identifier => {
                let end = Self::check_for_identifier(chars, i);
                Self::add_for_identifier(chars, i, end, line, col)
            },
            CheckFor::String => {
                match self.check_for_string(chars, i) {
                    Some(close) => {
                        match self.checker.check_method {
                            CheckMethod::All => Self::add_for_string(chars, i, close, 3, line, col),
                            _ => Self::add_for_string(chars, i, close, 1, line, col),
                        }
                    },
                    None => {
                        match self.checker.check_method {
                            CheckMethod::All => ScanStep::Fail(chars.len()),
                            _ => ScanStep::Fail(find_line_end(chars, i)),
                        }
                    },
                }
            },
            CheckFor::Normal => self.check_for_others(chars, i, line, col),
        }
    }
}

/// The line, the column and the indentation state of position `end`, from
/// those of position `i`.
fn advance_position(
    chars: &Vec<char>,
    i: usize,
    end: usize,
    line: usize,
    col: usize,
    indent: bool,
) -> (r: (usize, usize, bool))
    requires
        i <= end <= chars.len(),
        line == line_of(chars@, i as int),
        col == col_of(chars@, i as int),
        indent == in_indent(chars@, i as int),
    ensures
        r.0 == line_of(chars@, end as int),
        r.1 == col_of(chars@, end as int),
        r.2 == in_indent(chars@, end as int),
{
    let mut line = line;
    let mut col = col;
    let mut indent = indent;
    let mut j: usize = i;
    while j < end
        invariant
            i <= j <= end <= chars.len(),
            line == line_of(chars@, j as int),
            col == col_of(chars@, j as int),
            indent == in_indent(chars@, j as int),
        decreases end - j,
    {
        proof {
            lemma_position_bounds(chars@, j as int);
        }
        let c = chars[j];
        if c == '\n' {
            line += 1;
            col = 0;
            indent = true;
        } else {
            col += 1;
            indent = indent && (c == ' ' || c == '\t');
        }
        j += 1;
    }
    (line, col, indent)
}

impl Scanner {
    /// Appends a token that carries nothing to the tokens made so far.
    fn add_token(&mut self, token_type: TokenType, lexeme: String, line: usize, col: usize)
        ensures
            *final(self) == (Scanner { token: final(self).token, ..*old(self) }),
            token_views(final(self).token@) == token_views(old(self).token@).push(
                TokenView {
                    token_type,
                    lineno: line as nat,
                    col_offset: col as nat,
                    literal: LiteralView::Nil,
                    lexeme: lexeme@,
                },
            ),
    {
        self.add_token_with_literal(
            Token { token_type, lineno: line, col_offset: col, literal: Literal::Nil, lexeme },
        );
    }

    /// Appends a token to the tokens made so far.
    fn add_token_with_literal(&mut self, token: Token)
        ensures
            *final(self) == (Scanner {
                token: final(self).token,
                ..*old(self)
            }),
            final(self).token@ == old(self).token@.push(token),
            token_views(final(self).token@) == token_views(old(self).token@).push(token@),
    {
        self.token.push(token);
        assert(token_views(self.token@) =~= token_views(old(self).token@).push(token@));
    }

    /// Closes a line: the line-break token at the line feed at `i`.
    fn line_checker(chars: &Vec<char>, i: usize, line: usize, col: usize) -> (r: ScanStep)
        requires
            i < chars.len(),
            chars@[i as int] == '\n',
            line == line_of(chars@, i as int),
            col == col_of(chars@, i as int),
        ensures
            r@ == lex_step(chars@, i as int),
    {
        let lexeme = string_from_chars(chars, i, i + 1);
        ScanStep::Emit(
            Token {
                token_type: TokenType::LineBreak,
                lineno: line,
                col_offset: col,
                literal: Literal::Nil,
                lexeme,
            },
            i + 1,
        )
    }

    /// The step of the scanner at position `i`.
    fn scan_step(&mut self, chars: &Vec<char>, i: usize, line: usize, col: usize, indent: bool) -> (r:
        ScanStep)
        requires
            i < chars.len(),
            line == line_of(chars@, i as int),
            col == col_of(chars@, i as int),
            indent == in_indent(chars@, i as int),
        ensures
            r@ == lex_step(chars@, i as int),
            *final(self) == (Scanner { checker: final(self).checker, ..*old(self) }),
            final(self).checker.is_checked,
    {
        let c = chars[i];
        self.checker.is_checked = true;
        if c == '\n' {
            return Self::line_checker(chars, i, line, col);
        }
        let (_, blank) = Self::check_indent(indent, c);
        if blank {
            if !indent {
                return ScanStep::Skip(i + 1);
            }
            let lexeme = string_from_chars(chars, i, i + 1);
            let kind = if c == ' ' {
                TokenType::SPACE
            } else {
                TokenType::TAB
            };
            return ScanStep::Emit(
                Token {
                    token_type: kind,
                    lineno: line,
                    col_offset: col,
                    literal: Literal::Nil,
                    lexeme,
                },
                i + 1,
            );
        }
        let (continue_char, continue_line) = self.build_checker_for_normal(chars, i);
        if continue_line {
            self.checker.is_checked = true;
            return ScanStep::Skip(find_line_end(chars, i));
        }
        if continue_char {
            if c == '\r' {
                self.checker.is_checked = true;
                return ScanStep::Skip(i + 1);
            }
            let step = self.check_for_all(chars, i, line, col);
            self.checker.is_checked = true;
            return step;
        }
        match recognize_token(c) {
            Some(kind) => {
                let lexeme = string_from_chars(chars, i, i + 1);
                ScanStep::Emit(
                    Token {
                        token_type: kind,
                        lineno: line,
                        col_offset: col,
                        literal: Literal::Nil,
                        lexeme,
                    },
                    i + 1,
                )
            },
            None => ScanStep::Fail(i + 1),
        }
    }

    /// Lexes the whole source text.
    ///
    /// On success the scanner holds the tokens of the text, as [`lex`] gives
    /// them, in place of any it held before. Where the text holds a
    /// character that starts no token, a string that is not closed, or a
    /// whole number too large for 64 bits, the scan stops there and reports
    /// the line, the column and the offending text; the scanner then holds
    /// the tokens that stand before that place.
    #[verifier::loop_isolation(false)]
    pub fn scan(&mut self) -> (r: Result<(), ErrorType>)
        ensures
            final(self).source == old(self).source,
            final(self).end_lineno == old(self).end_lineno,
            final(self).end_col_offset == old(self).end_col_offset,
            final(self).checker.is_checked,
            r is Ok ==> final(self).lineno == line_of(
                old(self).source@,
                old(self).source@.len() as int,
            ) && final(self).col_offset == col_of(
                old(self).source@,
                old(self).source@.len() as int,
            ),
            r is Err ==> token_views(final(self).token@) == lexed_before(old(self).source@, 0)
                && final(self).lineno == old(self).lineno && final(self).col_offset == old(
                self,
            ).col_offset,
            match lex(old(self).source@) {
                Ok(tokens) => r is Ok && token_views(final(self).token@) == tokens,
                Err((start, end)) => r matches Err(ErrorType::BasicError(e)) && e.lineno == line_of(
                    old(self).source@,
                    start,
                ) && e.col_offset == col_of(old(self).source@, start) && e.lexeme@ == old(
                    self,
                ).source@.subrange(start, end),
            },
    {
        let chars = chars_of(self.source.as_str());
        let ghost s = chars@;
        self.token = Vec::new();
        self.checker.is_checked = true;
        let mut i: usize = 0;
        let mut line: usize = 0;
        let mut col: usize = 0;
        let mut indent = true;
        assert(token_views(self.token@) =~= Seq::<TokenView>::empty());
        assert(lexed_before(s, 0) =~= token_views(self.token@) + lexed_before(s, 0));
        assert(lex(s) == prepend(token_views(self.token@), lex_from(s, 0))) by {
            match lex_from(s, 0) {
                Ok(ts) => {
                    assert(Seq::<TokenView>::empty() + ts =~= ts);
                },
                Err(_) => {},
            }
        }
        while i < chars.len()
            invariant
                i <= chars.len(),
                s == chars@,
                s == old(self).source@,
                self.source == old(self).source,
                self.end_lineno == old(self).end_lineno,
                self.end_col_offset == old(self).end_col_offset,
                self.checker.is_checked,
                line == line_of(s, i as int),
                col == col_of(s, i as int),
                indent == in_indent(s, i as int),
                lex(s) == prepend(token_views(self.token@), lex_from(s, i as int)),
                lexed_before(s, 0) == token_views(self.token@) + lexed_before(s, i as int),
                self.lineno == old(self).lineno,
                self.col_offset == old(self).col_offset,
            decreases chars.len() - i,
        {
            proof {
                lemma_step_advances(s, i as int);
                lemma_position_bounds(s, i as int);
            }
            let ghost before = token_views(self.token@);
            let step = self.scan_step(&chars, i, line, col, indent);
            match step {
                ScanStep::Fail(end) => {
                    assert(before + lexed_before(s, i as int) =~= before);
                    let lexeme = string_from_chars(&chars, i, end);
                    return Err(
                        ErrorType::BasicError(
                            BasicError { lexeme, col_offset: col as u64, lineno: line as u64 },
                        ),
                    );
                },
                ScanStep::Skip(end) => {
                    let (l, c, ind) = advance_position(&chars, i, end, line, col, indent);
                    line = l;
                    col = c;
                    indent = ind;
                    i = end;
                },
                ScanStep::Emit(token, end) => {
                    let ghost tv = token@;
                    self.add_token_with_literal(token);
                    proof {
                        match lex_from(s, end as int) {
                            Ok(rest) => {
                                assert(before + (seq![tv] + rest) =~= before.push(tv) + rest);
                            },
                            Err(_) => {},
                        }
                        assert(before + (seq![tv] + lexed_before(s, end as int)) =~= before.push(
                            tv,
                        ) + lexed_before(s, end as int));
                    }
                    let (l, c, ind) = advance_position(&chars, i, end, line, col, indent);
                    line = l;
                    col = c;
                    indent = ind;
                    i = end;
                },
            }
        }
        let ghost before = token_views(self.token@);
        if col > 0 {
            let mut lexeme = String::new();
            crate::text::push_char(&mut lexeme, '\n');
            assert(lexeme@ =~= seq!['\n']);
            self.add_token(TokenType::LineBreak, lexeme, line, col);
        }
        let lexeme = string_from_chars(&chars, i, i);
        self.add_token(TokenType::EOF, lexeme, line, col);
        assert(token_views(self.token@) =~= before + closing_tokens(s));
        self.lineno = line;
        self.col_offset = col;
        self.checker.is_checked = true;
        Ok(())
    }
}

/// Lexes `code`: its tokens, or the error of the first place that is no
/// token.
pub fn tokenize(code: String) -> (r: Result<Vec<Token>, ErrorType>)
    ensures
        match lex(code@) {
            Ok(tokens) => r matches Ok(v) && token_views(v@) == tokens,
            Err((start, end)) => r matches Err(ErrorType::BasicError(e)) && e.lineno == line_of(
                code@,
                start,
            ) && e.col_offset == col_of(code@, start) && e.lexeme@ == code@.subrange(start, end),
        },
{
    let mut scanner = build_scanner(code);
    match scanner.scan() {
        Ok(()) => Ok(scanner.token),
        Err(e) => Err(e),
    }
}

/// The tokens of a text end with the end-of-input token, and the line
/// break of the last line stands before it.
pub proof fn lemma_lex_ends_with_eof(s: Seq<char>, i: int)
    ensures
        lex_from(s, i) matches Ok(tokens) ==> tokens.len() > 0 && tokens.last().token_type
            == TokenType::EOF,
    decreases s.len() - i,
{
    if 0 <= i < s.len() {
        let step = lex_step(s, i);
        let end = step_end(step);
        if end > i && end <= s.len() {
            lemma_lex_ends_with_eof(s, end);
        }
    }
}

} // verus!
