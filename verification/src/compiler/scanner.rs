//! The scanner: it turns a source text into tokens, one at each call.
//!
//! [`scan`] defines the token that starts at a position of a source, and
//! [`tokens`] the tokens of a whole source.

use super::tokenizer::{Token, TokenType, TokenTypeView, TokenView};
use crate::text::chars_of;
use crate::value::{is_digit, is_number_literal, is_number_with_point, Value, ValueView};
use vstd::prelude::*;
use vstd::string::*;

verus! {

/// Whether `c` is alphanumeric as Unicode defines it: what
/// `char::is_alphanumeric` returns for `c`.
pub uninterp spec fn is_alphanumeric(c: char) -> bool;

/// Calls `char::is_alphanumeric` of the standard library. Nothing is proved
/// of it: its result depends on the character alone, and is known here
/// only by its name, [`is_alphanumeric`].
#[verifier::external_body]
fn alphanumeric(c: char) -> (result: bool)
    ensures
        result == is_alphanumeric(c),
{
    c.is_alphanumeric()
}

/// The character of `source` at `position`, and the null character where
/// the source has none.
pub open spec fn char_at(source: Seq<char>, position: int) -> char {
    if 0 <= position < source.len() {
        source[position]
    } else {
        '\0'
    }
}

/// Whether the input ends at `position`: the source has no character
/// there, or a null character.
pub open spec fn at_end(source: Seq<char>, position: int) -> bool {
    char_at(source, position) == '\0'
}

/// Whether an identifier or a keyword may start with `c`.
pub open spec fn is_identifier_start(c: char) -> bool {
    ('a' <= c <= 'z') || ('A' <= c <= 'Z') || c == '_'
}

/// The sets of characters of which the scanner takes maximal runs.
pub enum CharClass {
    /// The decimal digits.
    Digit,
    /// What may follow the first character of an identifier.
    IdentifierPart,
    /// Everything but the double quote: the inside of a string.
    StringPart,
    /// Everything but the newline: the inside of a comment.
    CommentPart,
}

impl CharClass {
    /// Whether `c` belongs to the class.
    pub open spec fn has(self, c: char) -> bool {
        match self {
            CharClass::Digit => is_digit(c),
            CharClass::IdentifierPart => is_alphanumeric(c) || c == '_',
            CharClass::StringPart => c != '"',
            CharClass::CommentPart => c != '\n',
        }
    }
}

/// Where the run of characters of `class` that starts at `position` ends:
/// the first position from there on at which the input ends or holds a
/// character outside the class.
pub open spec fn run_end(source: Seq<char>, position: int, class: CharClass) -> int
    decreases source.len() - position,
{
    if !at_end(source, position) && class.has(source[position]) {
        run_end(source, position + 1, class)
    } else {
        position
    }
}

/// A run ends at or after its start and within the source, and everything
/// in it belongs to the class.
pub proof fn lemma_run_end(source: Seq<char>, position: int, class: CharClass)
    requires
        0 <= position <= source.len(),
    ensures
        position <= run_end(source, position, class) <= source.len(),
        forall|i: int|
            position <= i < run_end(source, position, class) ==> class.has(#[trigger] source[i])
                && source[i] != '\0',
        at_end(source, run_end(source, position, class)) || !class.has(
            source[run_end(source, position, class)],
        ),
    decreases source.len() - position,
{
    if !at_end(source, position) && class.has(source[position]) {
        lemma_run_end(source, position + 1, class);
    }
}

/// Where the blanks that start at `position` end: the first position from
/// there on that holds neither white space nor the start of a comment. A
/// comment runs from two slashes to the end of its line.
pub open spec fn blank_end(source: Seq<char>, position: int) -> int
    decreases source.len() - position,
{
    let c = char_at(source, position);
    if c == ' ' || c == '\r' || c == '\t' || c == '\n' {
        blank_end(source, position + 1)
    } else if c == '/' && char_at(source, position + 1) == '/' {
        proof {
            lemma_run_end(source, position + 1, CharClass::CommentPart);
        }
        blank_end(source, run_end(source, position, CharClass::CommentPart))
    } else {
        position
    }
}

/// Blanks end at or after their start and within the source.
pub proof fn lemma_blank_end(source: Seq<char>, position: int)
    requires
        0 <= position <= source.len(),
    ensures
        position <= blank_end(source, position) <= source.len(),
    decreases source.len() - position,
{
    let c = char_at(source, position);
    if c == ' ' || c == '\r' || c == '\t' || c == '\n' {
        lemma_blank_end(source, position + 1);
    } else if c == '/' && char_at(source, position + 1) == '/' {
        lemma_run_end(source, position + 1, CharClass::CommentPart);
        lemma_blank_end(source, run_end(source, position, CharClass::CommentPart));
    }
}

/// The line counter after `text` has gone by: one more for each newline,
/// and no more once the largest number is reached.
pub open spec fn line_after(line: usize, text: Seq<char>) -> usize
    decreases text.len(),
{
    if text.len() == 0 {
        line
    } else {
        let before = line_after(line, text.drop_last());
        if text.last() == '\n' && before < usize::MAX {
            (before + 1) as usize
        } else {
            before
        }
    }
}

/// Where the number literal that starts at `start` ends: after its digits
/// and, if a point and a digit follow them, after the digits behind the point.
pub open spec fn number_end(source: Seq<char>, start: int) -> int {
    let whole = run_end(source, start, CharClass::Digit);
    if char_at(source, whole) == '.' && is_digit(char_at(source, whole + 1)) {
        run_end(source, whole + 1, CharClass::Digit)
    } else {
        whole
    }
}

/// The keyword that `text` spells, if it spells one.
pub open spec fn keyword(text: Seq<char>) -> Option<TokenTypeView> {
    if text == "and"@ {
        Some(TokenTypeView::And)
    } else if text == "class"@ {
        Some(TokenTypeView::Class)
    } else if text == "else"@ {
        Some(TokenTypeView::Else)
    } else if text == "false"@ {
        Some(TokenTypeView::False)
    } else if text == "for"@ {
        Some(TokenTypeView::For)
    } else if text == "fun"@ {
        Some(TokenTypeView::Fun)
    } else if text == "if"@ {
        Some(TokenTypeView::If)
    } else if text == "nil"@ {
        Some(TokenTypeView::Nil)
    } else if text == "or"@ {
        Some(TokenTypeView::Or)
    } else if text == "print"@ {
        Some(TokenTypeView::Print)
    } else if text == "return"@ {
        Some(TokenTypeView::Return)
    } else if text == "super"@ {
        Some(TokenTypeView::Super)
    } else if text == "this"@ {
        Some(TokenTypeView::This)
    } else if text == "true"@ {
        Some(TokenTypeView::True)
    } else if text == "var"@ {
        Some(TokenTypeView::Var)
    } else if text == "while"@ {
        Some(TokenTypeView::While)
    } else {
        None
    }
}

/// The kind of the token that the word `text` is: its keyword, or an identifier.
pub open spec fn word(text: Seq<char>) -> TokenTypeView {
    match keyword(text) {
        Some(kind) => kind,
        None => TokenTypeView::Identifier(text),
    }
}

/// The kind and the length of the token that starts with the character
/// `c`, which is no digit, letter, underscore or quote. `equal_follows`
/// says whether the next character is an equal sign.
pub open spec fn symbol(c: char, equal_follows: bool) -> (TokenTypeView, int) {
    if c == '(' {
        (TokenTypeView::LeftParen, 1)
    } else if c == ')' {
        (TokenTypeView::RightParen, 1)
    } else if c == '{' {
        (TokenTypeView::LeftBrace, 1)
    } else if c == '}' {
        (TokenTypeView::RightBrace, 1)
    } else if c == ';' {
        (TokenTypeView::Semicolon, 1)
    } else if c == ',' {
        (TokenTypeView::Comma, 1)
    } else if c == '.' {
        (TokenTypeView::Dot, 1)
    } else if c == '-' {
        (TokenTypeView::Minus, 1)
    } else if c == '/' {
        (TokenTypeView::Slash, 1)
    } else if c == '+' {
        (TokenTypeView::Plus, 1)
    } else if c == '*' {
        (TokenTypeView::Star, 1)
    } else if c == '!' {
        if equal_follows {
            (TokenTypeView::BangEqual, 2)
        } else {
            (TokenTypeView::Bang, 1)
        }
    } else if c == '=' {
        if equal_follows {
            (TokenTypeView::EqualEqual, 2)
        } else {
            (TokenTypeView::Equal, 1)
        }
    } else if c == '<' {
        if equal_follows {
            (TokenTypeView::LessEqual, 2)
        } else {
            (TokenTypeView::Less, 1)
        }
    } else if c == '>' {
        if equal_follows {
            (TokenTypeView::GreaterEqual, 2)
        } else {
            (TokenTypeView::Greater, 1)
        }
    } else {
        (TokenTypeView::Error("Unexpected character."@), 1)
    }
}

/// What one step of scanning yields.
pub struct Scanned {
    /// The token.
    pub token: TokenView,
    /// Where the token starts: behind the blanks before it.
    pub start: int,
    /// Where scanning goes on.
    pub end: int,
    /// The line counter at `end`.
    pub line: usize,
}

/// The next token of `source` for a scanner that stands at `position` with
/// its line counter at `line`.
///
/// Blanks are skipped first. Then the input ends (`Eof`, as often as it is
/// asked for), or a number, a word, a string or a symbol follows. A token
/// carries the line on which it ends; a string that no quote closes is an
/// error on the line of its opening quote.
pub open spec fn scan(source: Seq<char>, position: int, line: usize) -> Scanned {
    let start = blank_end(source, position);
    let line = line_after(line, source.subrange(position, start));
    let c = char_at(source, start);
    if c == '\0' {
        Scanned { token: TokenView { token_type: TokenTypeView::Eof, line }, start, end: start, line }
    } else if is_digit(c) {
        let end = number_end(source, start);
        let literal = ValueView::Literal(source.subrange(start, end));
        Scanned { token: TokenView { token_type: TokenTypeView::Number(literal), line }, start, end, line }
    } else if is_identifier_start(c) {
        let end = run_end(source, start + 1, CharClass::IdentifierPart);
        Scanned {
            token: TokenView { token_type: word(source.subrange(start, end)), line },
            start,
            end,
            line,
        }
    } else if c == '"' {
        let close = run_end(source, start + 1, CharClass::StringPart);
        let last_line = line_after(line, source.subrange(start + 1, close));
        if at_end(source, close) {
            Scanned {
                token: TokenView {
                    token_type: TokenTypeView::Error("Unterminated string."@),
                    line,
                },
                start,
                end: close,
                line: last_line,
            }
        } else {
            Scanned {
                token: TokenView {
                    token_type: TokenTypeView::String(source.subrange(start + 1, close)),
                    line: last_line,
                },
                start,
                end: close + 1,
                line: last_line,
            }
        }
    } else {
        let (token_type, length) = symbol(c, char_at(source, start + 1) == '=');
        Scanned { token: TokenView { token_type, line }, start, end: start + length, line }
    }
}

/// A step of scanning that yields a token moves forward within the
/// source; at the end of the input it stays where the blanks end.
pub proof fn lemma_scan_progress(source: Seq<char>, position: int, line: usize)
    ensures
        scan(source, position, line).token.token_type is Eof ==> scan(source, position, line).end
            == scan(source, position, line).start,
        !(scan(source, position, line).token.token_type is Eof) ==> 0 <= position < scan(
            source,
            position,
            line,
        ).end <= source.len(),
        0 <= position <= source.len() ==> position <= scan(source, position, line).start <= scan(
            source,
            position,
            line,
        ).end <= source.len(),
{
    if 0 <= position <= source.len() {
        lemma_blank_end(source, position);
        let start = blank_end(source, position);
        let c = char_at(source, start);
        if c == '\0' {
        } else if is_digit(c) {
            lemma_run_end(source, start + 1, CharClass::Digit);
            let whole = run_end(source, start, CharClass::Digit);
            if char_at(source, whole) == '.' && is_digit(char_at(source, whole + 1)) {
                lemma_run_end(source, whole + 1, CharClass::Digit);
            }
        } else if is_identifier_start(c) {
            lemma_run_end(source, start + 1, CharClass::IdentifierPart);
        } else if c == '"' {
            lemma_run_end(source, start + 1, CharClass::StringPart);
        } else {
        }
    }
}

/// Once the input has ended, every further step yields the same `Eof`.
pub proof fn lemma_scan_at_end(source: Seq<char>, position: int, line: usize)
    requires
        0 <= position <= source.len(),
        scan(source, position, line).token.token_type is Eof,
    ensures
        scan(source, scan(source, position, line).end, scan(source, position, line).line) == scan(
            source,
            position,
            line,
        ),
{
    let step = scan(source, position, line);
    lemma_blank_end(source, position);
    assert(source.subrange(step.start, step.start) =~= Seq::<char>::empty());
}

/// The tokens of `source` that a scanner has yet to yield when it stands at
/// `position` with its line counter at `line`: all up to the end of the
/// input, in order, without the `Eof` that follows them.
pub open spec fn tokens_from(source: Seq<char>, position: int, line: usize) -> Seq<TokenView>
    decreases source.len() - position,
{
    let step = scan(source, position, line);
    if step.token.token_type is Eof {
        Seq::empty()
    } else {
        proof {
            lemma_scan_progress(source, position, line);
        }
        seq![step.token] + tokens_from(source, step.end, step.line)
    }
}

/// The line of the `Eof` that follows the tokens of [`tokens_from`].
pub open spec fn eof_line(source: Seq<char>, position: int, line: usize) -> usize
    decreases source.len() - position,
{
    let step = scan(source, position, line);
    if step.token.token_type is Eof {
        step.token.line
    } else {
        proof {
            lemma_scan_progress(source, position, line);
        }
        eof_line(source, step.end, step.line)
    }
}

/// The tokens of `source`, without the `Eof` at their end.
pub open spec fn tokens(source: Seq<char>) -> Seq<TokenView> {
    tokens_from(source, 0, 1)
}

/// A stretch of characters of one class that cannot go on is a run of
/// that class.
pub proof fn lemma_run_end_is(source: Seq<char>, from: int, to: int, class: CharClass)
    requires
        0 <= from <= to <= source.len(),
        forall|i: int| from <= i < to ==> class.has(#[trigger] source[i]) && source[i] != '\0',
        at_end(source, to) || !class.has(source[to]),
    ensures
        run_end(source, from, class) == to,
    decreases to - from,
{
    if from < to {
        lemma_run_end_is(source, from + 1, to, class);
    }
}

/// The text of a token is the stretch of the source from which it was
/// scanned.
pub proof fn lemma_lexeme_is_source_text(source: Seq<char>, position: int, line: usize)
    requires
        0 <= position <= source.len(),
    ensures
        ({
            let step = scan(source, position, line);
            !(step.token.token_type is Error) ==> step.token.token_type.lexeme()
                == source.subrange(step.start, step.end)
        }),
{
    reveal_strlit("\"");
    reveal_strlit("(");
    reveal_strlit(")");
    reveal_strlit("{");
    reveal_strlit("}");
    reveal_strlit(";");
    reveal_strlit(",");
    reveal_strlit(".");
    reveal_strlit("-");
    reveal_strlit("/");
    reveal_strlit("+");
    reveal_strlit("*");
    reveal_strlit("!");
    reveal_strlit("!=");
    reveal_strlit("=");
    reveal_strlit("==");
    reveal_strlit("<");
    reveal_strlit("<=");
    reveal_strlit(">");
    reveal_strlit(">=");
    lemma_blank_end(source, position);
    lemma_scan_progress(source, position, line);
    let step = scan(source, position, line);
    let start = step.start;
    let c = char_at(source, start);
    let text = source.subrange(step.start, step.end);
    if c == '\0' {
        assert(text =~= Seq::<char>::empty());
    } else if is_digit(c) {
    } else if is_identifier_start(c) {
    } else if c == '"' {
        lemma_run_end(source, start + 1, CharClass::StringPart);
        let close = run_end(source, start + 1, CharClass::StringPart);
        if !at_end(source, close) {
            assert(text =~= "\""@ + source.subrange(start + 1, close) + "\""@);
        }
    } else {
        let (token_type, length) = symbol(c, char_at(source, start + 1) == '=');
        if !(token_type is Error) {
            assert(text =~= token_type.lexeme());
        }
    }
}

/// The payload of every number token is a number literal.
pub proof fn lemma_scanned_number_is_literal(source: Seq<char>, position: int, line: usize)
    requires
        0 <= position <= source.len(),
    ensures
        scan(source, position, line).token.token_type matches TokenTypeView::Number(value)
            ==> value.is_number(),
{
    lemma_blank_end(source, position);
    let start = blank_end(source, position);
    if is_digit(char_at(source, start)) {
        lemma_run_end(source, start, CharClass::Digit);
        let whole = run_end(source, start, CharClass::Digit);
        let end = number_end(source, start);
        if end != whole {
            lemma_run_end(source, whole + 1, CharClass::Digit);
        }
        let literal = source.subrange(start, end);
        assert(is_number_with_point(literal, whole - start));
    }
}

/// Every number among the tokens of a source is a number literal.
pub proof fn lemma_tokens_hold_numbers(source: Seq<char>, position: int, line: usize)
    requires
        0 <= position <= source.len(),
    ensures
        forall|i: int|
            0 <= i < tokens_from(source, position, line).len() ==> (#[trigger] tokens_from(
                source,
                position,
                line,
            )[i]).token_type.holds_number(),
    decreases source.len() - position,
{
    let step = scan(source, position, line);
    lemma_scan_progress(source, position, line);
    lemma_scanned_number_is_literal(source, position, line);
    if !(step.token.token_type is Eof) {
        lemma_tokens_hold_numbers(source, step.end, step.line);
    }
}

/// No token of a source is `Eof`: the end of the input comes behind them.
pub proof fn lemma_tokens_hold_no_eof(source: Seq<char>, position: int, line: usize)
    ensures
        forall|i: int|
            0 <= i < tokens_from(source, position, line).len() ==> !((#[trigger] tokens_from(
                source,
                position,
                line,
            )[i]).token_type is Eof),
    decreases source.len() - position,
{
    let step = scan(source, position, line);
    lemma_scan_progress(source, position, line);
    if !(step.token.token_type is Eof) {
        lemma_tokens_hold_no_eof(source, step.end, step.line);
    }
}

/// A source that is nothing but a number literal has one token, the
/// literal as it stands, on line 1, and ends on that line.
pub proof fn lemma_tokens_of_number_literal(literal: Seq<char>)
    requires
        is_number_literal(literal),
    ensures
        tokens(literal) == seq![
            TokenView {
                token_type: TokenTypeView::Number(ValueView::Literal(literal)),
                line: 1,
            },
        ],
        eof_line(literal, 0, 1) == 1,
{
    let length = literal.len() as int;
    let point = choose|point: int| #[trigger] is_number_with_point(literal, point);
    assert(is_digit(literal[0]));
    assert(literal.subrange(0, 0) =~= Seq::<char>::empty());
    assert(literal.subrange(length, length) =~= Seq::<char>::empty());
    assert(literal.subrange(0, length) =~= literal);
    lemma_run_end_is(literal, 0, point, CharClass::Digit);
    if point < length {
        assert(is_digit(literal[point + 1]));
        lemma_run_end_is(literal, point + 1, length, CharClass::Digit);
    }
    assert(number_end(literal, 0) == length);
    let first = scan(literal, 0, 1);
    assert(first.token == TokenView {
        token_type: TokenTypeView::Number(ValueView::Literal(literal)),
        line: 1,
    });
    assert(first.end == length && first.line == 1);
    let last = scan(literal, length, 1);
    assert(last.token == TokenView { token_type: TokenTypeView::Eof, line: 1 });
    assert(tokens_from(literal, length, 1) =~= Seq::<TokenView>::empty());
    assert(tokens_from(literal, 0, 1) =~= seq![first.token] + tokens_from(literal, length, 1));
    assert(eof_line(literal, length, 1) == 1);
    assert(eof_line(literal, 0, 1) == eof_line(literal, length, 1));
}

/// A scanner: a source text and a cursor that moves over it token by token.
pub struct Scanner {
    source: String,
    chars: Vec<char>,
    start: usize,
    current: usize,
    line: usize,
}

/// What a [`Scanner`] is in contracts.
pub struct ScannerView {
    /// The characters of the source.
    pub source: Seq<char>,
    /// Where the token last scanned starts.
    pub start: usize,
    /// Where the next step of scanning begins.
    pub current: usize,
    /// The line counter: the line of the character at `current`.
    pub line: usize,
}

impl ScannerView {
    /// What the next step of scanning yields: see [`scan`].
    pub open spec fn step(self) -> Scanned {
        scan(self.source, self.current as int, self.line)
    }

    /// Whether the input goes on with the character `expected`.
    pub open spec fn next_is(self, expected: char) -> bool {
        !at_end(self.source, self.current as int) && self.source[self.current as int] == expected
    }
}

impl View for Scanner {
    type V = ScannerView;

    closed spec fn view(&self) -> ScannerView {
        ScannerView {
            source: self.source@,
            start: self.start,
            current: self.current,
            line: self.line,
        }
    }
}

impl Scanner {
    /// The invariant of a scanner: its cursor lies within the source, behind
    /// the start of the last token.
    pub closed spec fn well_formed(&self) -> bool {
        &&& self.chars@ == self.source@
        &&& self.start <= self.current <= self.chars.len()
    }

    /// What [`Scanner::well_formed`] says of the view.
    pub proof fn lemma_well_formed(&self)
        requires
            self.well_formed(),
        ensures
            self@.start <= self@.current <= self@.source.len() <= usize::MAX,
    {
    }

    /// A scanner at the start of `source`, on line 1.
    pub fn new(source: String) -> (scanner: Scanner)
        ensures
            scanner.well_formed(),
            scanner@ == (ScannerView { source: source@, start: 0, current: 0, line: 1 }),
    {
        let chars = chars_of(source.as_str());
        Scanner { source, chars, start: 0, current: 0, line: 1 }
    }

    /// The next token: see [`scan`].
    pub fn scan_token(&mut self) -> (token: Token)
        requires
            old(self).well_formed(),
        ensures
            final(self).well_formed(),
            token@ == old(self)@.step().token,
            final(self)@.source == old(self)@.source,
            final(self)@.start == old(self)@.step().start,
            final(self)@.current == old(self)@.step().end,
            final(self)@.line == old(self)@.step().line,
    {
        self.skip_whitespace();
        self.start = self.current;
        if self.is_at_end() {
            return self.make_token(TokenType::Eof);
        }
        let c: char = self.advance();
        if c == '(' {
            self.make_token(TokenType::LeftParen)
        } else if c == ')' {
            self.make_token(TokenType::RightParen)
        } else if c == '{' {
            self.make_token(TokenType::LeftBrace)
        } else if c == '}' {
            self.make_token(TokenType::RightBrace)
        } else if c == ';' {
            self.make_token(TokenType::Semicolon)
        } else if c == ',' {
            self.make_token(TokenType::Comma)
        } else if c == '.' {
            self.make_token(TokenType::Dot)
        } else if c == '-' {
            self.make_token(TokenType::Minus)
        } else if c == '/' {
            self.make_token(TokenType::Slash)
        } else if c == '+' {
            self.make_token(TokenType::Plus)
        } else if c == '*' {
            self.make_token(TokenType::Star)
        } else if c == '!' {
            self.add_matched('=', TokenType::BangEqual, TokenType::Bang)
        } else if c == '=' {
            self.add_matched('=', TokenType::EqualEqual, TokenType::Equal)
        } else if c == '<' {
            self.add_matched('=', TokenType::LessEqual, TokenType::Less)
        } else if c == '>' {
            self.add_matched('=', TokenType::GreaterEqual, TokenType::Greater)
        } else if c == '"' {
            self.string_tok()
        } else if '0' <= c && c <= '9' {
            self.number_tok()
        } else if ('a' <= c && c <= 'z') || ('A' <= c && c <= 'Z') || c == '_' {
            self.identifier_tok()
        } else {
            self.error_token("Unexpected character.")
        }
    }

    /// The token `expected` if the next character is `to_match`, which is
    /// then taken, and the token `fallback` if not.
    fn add_matched(&mut self, to_match: char, expected: TokenType, fallback: TokenType) -> (token:
        Token)
        requires
            old(self).well_formed(),
        ensures
            final(self).well_formed(),
            final(self)@.source == old(self)@.source,
            final(self)@.start == old(self)@.start,
            final(self)@.line == old(self)@.line,
            token@.line == old(self)@.line,
            old(self)@.next_is(to_match) ==> final(self)@.current == old(self)@.current + 1
                && token@.token_type == expected@,
            !old(self)@.next_is(to_match) ==> final(self)@.current == old(self)@.current
                && token@.token_type == fallback@,
    {
        if self.match_char(to_match) {
            self.make_token(expected)
        } else {
            self.make_token(fallback)
        }
    }

    /// An error token with `message`, on the current line.
    fn error_token(&self, message: &str) -> (token: Token)
        ensures
            token@ == (TokenView { token_type: TokenTypeView::Error(message@), line: self@.line }),
    {
        self.make_error(message.to_owned())
    }

    /// The rest of a string whose opening quote has just been taken.
    fn string_tok(&mut self) -> (token: Token)
        requires
            old(self).well_formed(),
            old(self)@.start + 1 == old(self)@.current,
        ensures
            final(self).well_formed(),
            final(self)@.source == old(self)@.source,
            final(self)@.start == old(self)@.start,
            ({
                let source = old(self)@.source;
                let open = old(self)@.current as int;
                let close = run_end(source, open, CharClass::StringPart);
                let last_line = line_after(old(self)@.line, source.subrange(open, close));
                &&& final(self)@.line == last_line
                &&& at_end(source, close) ==> final(self)@.current == close && token@ == (TokenView {
                    token_type: TokenTypeView::Error("Unterminated string."@),
                    line: old(self)@.line,
                })
                &&& !at_end(source, close) ==> final(self)@.current == close + 1 && token@ == (
                TokenView {
                    token_type: TokenTypeView::String(source.subrange(open, close)),
                    line: last_line,
                })
            }),
    {
        let ghost source = self@.source;
        let ghost open = self.current as int;
        let first_line: usize = self.line;
        assert(source.subrange(open, open) =~= Seq::<char>::empty());
        while self.peek() != '"' && !self.is_at_end()
            invariant
                self.well_formed(),
                self@.source == source,
                self@.start == old(self)@.start,
                0 <= open <= self@.current,
                run_end(source, self@.current as int, CharClass::StringPart) == run_end(
                    source,
                    open,
                    CharClass::StringPart,
                ),
                self@.line == line_after(first_line, source.subrange(open, self@.current as int)),
            decreases source.len() - self@.current,
        {
            assert(source.subrange(open, self.current + 1).drop_last() =~= source.subrange(
                open,
                self.current as int,
            ));
            if self.peek() == '\n' {
                if self.line < usize::MAX {
                    self.line += 1;
                }
            }
            self.advance();
        }
        if self.is_at_end() {
            let message = "Unterminated string.".to_owned();
            return Token::new(TokenType::Error(message), first_line).unwrap();
        }
        let close: usize = self.current;
        self.advance();
        let value = self.lexeme(self.start + 1, close);
        self.make_token(TokenType::String(value))
    }

    /// The rest of a number whose first digit has just been taken.
    fn number_tok(&mut self) -> (token: Token)
        requires
            old(self).well_formed(),
            old(self)@.start + 1 == old(self)@.current,
            is_digit(old(self)@.source[old(self)@.start as int]),
        ensures
            final(self).well_formed(),
            final(self)@.source == old(self)@.source,
            final(self)@.start == old(self)@.start,
            final(self)@.line == old(self)@.line,
            final(self)@.current == number_end(old(self)@.source, old(self)@.start as int),
            token@ == (TokenView {
                token_type: TokenTypeView::Number(
                    ValueView::Literal(
                        old(self)@.source.subrange(
                            old(self)@.start as int,
                            final(self)@.current as int,
                        ),
                    ),
                ),
                line: old(self)@.line,
            }),
    {
        self.digits();
        if self.peek() == '.' && Self::is_ascii_digit(self.peek_next()) {
            self.advance();
            self.digits();
        }
        let value = self.lexeme(self.start, self.current);
        self.make_token(TokenType::Number(Value::Literal(value)))
    }

    /// Takes the digits that follow.
    fn digits(&mut self)
        requires
            old(self).well_formed(),
        ensures
            final(self).well_formed(),
            final(self)@.source == old(self)@.source,
            final(self)@.start == old(self)@.start,
            final(self)@.line == old(self)@.line,
            final(self)@.current == run_end(
                old(self)@.source,
                old(self)@.current as int,
                CharClass::Digit,
            ),
    {
        while Self::is_ascii_digit(self.peek())
            invariant
                self.well_formed(),
                self@.source == old(self)@.source,
                self@.start == old(self)@.start,
                self@.line == old(self)@.line,
                run_end(self@.source, self@.current as int, CharClass::Digit) == run_end(
                    self@.source,
                    old(self)@.current as int,
                    CharClass::Digit,
                ),
            decreases self@.source.len() - self@.current,
        {
            self.advance();
        }
    }

    /// Whether `c` is a decimal digit.
    fn is_ascii_digit(c: char) -> (digit: bool)
        ensures
            digit == is_digit(c),
    {
        '0' <= c && c <= '9'
    }

    /// The rest of a word whose first character has just been taken.
    fn identifier_tok(&mut self) -> (token: Token)
        requires
            old(self).well_formed(),
            old(self)@.start + 1 == old(self)@.current,
        ensures
            final(self).well_formed(),
            final(self)@.source == old(self)@.source,
            final(self)@.start == old(self)@.start,
            final(self)@.line == old(self)@.line,
            final(self)@.current == run_end(
                old(self)@.source,
                old(self)@.current as int,
                CharClass::IdentifierPart,
            ),
            token@ == (TokenView {
                token_type: word(
                    old(self)@.source.subrange(old(self)@.start as int, final(self)@.current as int),
                ),
                line: old(self)@.line,
            }),
    {
        while !self.is_at_end() && (alphanumeric(self.peek()) || self.peek() == '_')
            invariant
                self.well_formed(),
                self@.source == old(self)@.source,
                self@.start == old(self)@.start,
                self@.line == old(self)@.line,
                old(self)@.current <= self@.current,
                run_end(self@.source, self@.current as int, CharClass::IdentifierPart) == run_end(
                    self@.source,
                    old(self)@.current as int,
                    CharClass::IdentifierPart,
                ),
            decreases self@.source.len() - self@.current,
        {
            self.advance();
        }
        if self.lexeme_is("and") {
            self.make_token(TokenType::And)
        } else if self.lexeme_is("class") {
            self.make_token(TokenType::Class)
        } else if self.lexeme_is("else") {
            self.make_token(TokenType::Else)
        } else if self.lexeme_is("false") {
            self.make_token(TokenType::False)
        } else if self.lexeme_is("for") {
            self.make_token(TokenType::For)
        } else if self.lexeme_is("fun") {
            self.make_token(TokenType::Fun)
        } else if self.lexeme_is("if") {
            self.make_token(TokenType::If)
        } else if self.lexeme_is("nil") {
            self.make_token(TokenType::Nil)
        } else if self.lexeme_is("or") {
            self.make_token(TokenType::Or)
        } else if self.lexeme_is("print") {
            self.make_token(TokenType::Print)
        } else if self.lexeme_is("return") {
            self.make_token(TokenType::Return)
        } else if self.lexeme_is("super") {
            self.make_token(TokenType::Super)
        } else if self.lexeme_is("this") {
            self.make_token(TokenType::This)
        } else if self.lexeme_is("true") {
            self.make_token(TokenType::True)
        } else if self.lexeme_is("var") {
            self.make_token(TokenType::Var)
        } else if self.lexeme_is("while") {
            self.make_token(TokenType::While)
        } else {
            let value = self.lexeme(self.start, self.current);
            self.make_token(TokenType::Identifier(value))
        }
    }

    /// Whether the text of the token under the cursor, from its start up to
    /// the current position, is `word`.
    fn lexeme_is(&self, word: &str) -> (same: bool)
        requires
            self.well_formed(),
        ensures
            same == (self@.source.subrange(self@.start as int, self@.current as int) == word@),
    {
        let ghost text = self@.source.subrange(self.start as int, self.current as int);
        let length: usize = word.unicode_len();
        if self.current - self.start != length {
            return false;
        }
        let mut index: usize = 0;
        while index < length
            invariant
                self.well_formed(),
                length == word@.len(),
                length == self.current - self.start,
                index <= length,
                text == self@.source.subrange(self.start as int, self.current as int),
                forall|i: int| 0 <= i < index ==> text[i] == word@[i],
            decreases length - index,
        {
            if self.chars[self.start + index] != word.get_char(index) {
                assert(text[index as int] != word@[index as int]);
                return false;
            }
            index += 1;
        }
        assert(text =~= word@);
        true
    }

    /// The characters of the source from `from` up to `to`, as a string.
    fn lexeme(&self, from: usize, to: usize) -> (text: String)
        requires
            self.well_formed(),
            from <= to <= self@.source.len(),
        ensures
            text@ == self@.source.subrange(from as int, to as int),
    {
        self.source.as_str().substring_char(from, to).to_owned()
    }

    /// Takes the next character if it is `expected`, and says whether it did.
    pub fn match_char(&mut self, expected: char) -> (matched: bool)
        requires
            old(self).well_formed(),
        ensures
            final(self).well_formed(),
            matched == old(self)@.next_is(expected),
            final(self)@.source == old(self)@.source,
            final(self)@.start == old(self)@.start,
            final(self)@.line == old(self)@.line,
            final(self)@.current == if matched {
                old(self)@.current + 1
            } else {
                old(self)@.current as int
            },
    {
        if self.is_at_end() {
            return false;
        }
        if self.chars[self.current] != expected {
            return false;
        }
        self.current += 1;
        true
    }

    /// Whether the input ends at the cursor: see [`at_end`].
    pub fn is_at_end(&self) -> (end: bool)
        requires
            self.well_formed(),
        ensures
            end == at_end(self@.source, self@.current as int),
    {
        self.peek() == '\0'
    }

    /// A token of the given kind on the current line.
    fn make_token(&self, token_type: TokenType) -> (token: Token)
        ensures
            token@ == (TokenView { token_type: token_type@, line: self@.line }),
    {
        Token::new(token_type, self.line).unwrap()
    }

    /// Takes the character under the cursor.
    pub fn advance(&mut self) -> (c: char)
        requires
            old(self).well_formed(),
            old(self)@.current < old(self)@.source.len(),
        ensures
            final(self).well_formed(),
            c == old(self)@.source[old(self)@.current as int],
            final(self)@.source == old(self)@.source,
            final(self)@.start == old(self)@.start,
            final(self)@.line == old(self)@.line,
            final(self)@.current == old(self)@.current + 1,
    {
        self.current += 1;
        self.chars[self.current - 1]
    }

    /// Moves the cursor over white space and comments, counting the lines:
    /// see [`blank_end`] and [`line_after`].
    pub fn skip_whitespace(&mut self)
        requires
            old(self).well_formed(),
        ensures
            final(self).well_formed(),
            final(self)@.source == old(self)@.source,
            final(self)@.start == old(self)@.start,
            final(self)@.current == blank_end(old(self)@.source, old(self)@.current as int),
            final(self)@.line == line_after(
                old(self)@.line,
                old(self)@.source.subrange(old(self)@.current as int, final(self)@.current as int),
            ),
    {
        let ghost source = self@.source;
        let ghost begin = self.current as int;
        let first_line: usize = self.line;
        assert(source.subrange(begin, begin) =~= Seq::<char>::empty());
        loop
            invariant
                self.well_formed(),
                self@.source == source,
                self@.start == old(self)@.start,
                0 <= begin <= self@.current,
                blank_end(source, self@.current as int) == blank_end(source, begin),
                self@.line == line_after(first_line, source.subrange(begin, self@.current as int)),
            ensures
                self.well_formed(),
                self@.source == source,
                self@.start == old(self)@.start,
                self@.current == blank_end(source, begin),
                self@.line == line_after(first_line, source.subrange(begin, self@.current as int)),
            decreases source.len() - self@.current,
        {
            let c: char = self.peek();
            if c == ' ' || c == '\r' || c == '\t' {
                assert(source.subrange(begin, self.current + 1).drop_last() =~= source.subrange(
                    begin,
                    self.current as int,
                ));
                self.advance();
            } else if c == '\n' {
                assert(source.subrange(begin, self.current + 1).drop_last() =~= source.subrange(
                    begin,
                    self.current as int,
                ));
                if self.line < usize::MAX {
                    self.line += 1;
                }
                self.advance();
            } else if c == '/' {
                if self.peek_next() == '/' {
                    let ghost slash = self.current as int;
                    while self.peek() != '\n' && !self.is_at_end()
                        invariant
                            self.well_formed(),
                            self@.source == source,
                            self@.start == old(self)@.start,
                            0 <= begin <= slash <= self@.current,
                            self@.current == slash ==> source[slash] == '/',
                            run_end(source, self@.current as int, CharClass::CommentPart)
                                == run_end(source, slash, CharClass::CommentPart),
                            blank_end(source, slash) == blank_end(
                                source,
                                run_end(source, slash, CharClass::CommentPart),
                            ),
                            blank_end(source, slash) == blank_end(source, begin),
                            self@.line == line_after(
                                first_line,
                                source.subrange(begin, self@.current as int),
                            ),
                        decreases source.len() - self@.current,
                    {
                        assert(source.subrange(begin, self.current + 1).drop_last()
                            =~= source.subrange(begin, self.current as int));
                        self.advance();
                    }
                    assert(self@.current > slash);
                } else {
                    break ;
                }
            } else {
                break ;
            }
        }
    }

    /// The character under the cursor: see [`char_at`].
    pub fn peek(&self) -> (c: char)
        requires
            self.well_formed(),
        ensures
            c == char_at(self@.source, self@.current as int),
    {
        if self.current < self.chars.len() {
            self.chars[self.current]
        } else {
            '\0'
        }
    }

    /// The character behind the one under the cursor: see [`char_at`].
    pub fn peek_next(&self) -> (c: char)
        requires
            self.well_formed(),
        ensures
            c == char_at(self@.source, self@.current + 1),
    {
        if self.current < self.chars.len() && self.current + 1 < self.chars.len() {
            self.chars[self.current + 1]
        } else {
            '\0'
        }
    }

    /// An error token with `message`, on the current line.
    fn make_error(&self, message: String) -> (token: Token)
        ensures
            token@ == (TokenView { token_type: TokenTypeView::Error(message@), line: self@.line }),
    {
        Token::new(TokenType::Error(message), self.line).unwrap()
    }
}

} // verus!
