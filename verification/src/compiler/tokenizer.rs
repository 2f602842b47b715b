//! The vocabulary that the scanner and the compiler share: the kinds of
//! tokens, the tokens, and the levels of precedence.

use crate::value::{Value, ValueView};
use crate::vm::InterpreterError;
use std::cmp::Ordering;
use vstd::prelude::*;
use vstd::string::*;
use vstd::std_specs::cmp::{PartialEqSpecImpl, PartialOrdSpecImpl};

verus! {

/// What the scanner hands out in place of a token that it cannot fail to
/// build: a token, or the reason why there is none.
pub type TokenError = Result<Token, InterpreterError>;

/// The lexical kind of a token, with the payload of the kinds that have one.
#[derive(Debug)]
pub enum TokenType {
    // Single-character tokens.
    LeftParen,
    RightParen,
    LeftBrace,
    RightBrace,
    Comma,
    Dot,
    Minus,
    Plus,
    Semicolon,
    Slash,
    Star,
    // One or two character tokens.
    Bang,
    BangEqual,
    Equal,
    EqualEqual,
    Greater,
    GreaterEqual,
    Less,
    LessEqual,
    // Literals.
    Identifier(String),
    String(String),
    Number(Value),
    // Keywords.
    And,
    Class,
    Else,
    False,
    For,
    Fun,
    If,
    Nil,
    Or,
    Print,
    Return,
    Super,
    This,
    True,
    Var,
    While,
    /// A lexical failure, with its message.
    Error(String),
    /// The end of the input.
    Eof,
}

/// What a [`TokenType`] is in contracts: the same kinds, each text as the
/// sequence of its characters.
pub enum TokenTypeView {
    // Single-character tokens.
    LeftParen,
    RightParen,
    LeftBrace,
    RightBrace,
    Comma,
    Dot,
    Minus,
    Plus,
    Semicolon,
    Slash,
    Star,
    // One or two character tokens.
    Bang,
    BangEqual,
    Equal,
    EqualEqual,
    Greater,
    GreaterEqual,
    Less,
    LessEqual,
    // Literals.
    Identifier(Seq<char>),
    String(Seq<char>),
    Number(ValueView),
    // Keywords.
    And,
    Class,
    Else,
    False,
    For,
    Fun,
    If,
    Nil,
    Or,
    Print,
    Return,
    Super,
    This,
    True,
    Var,
    While,
    /// A lexical failure, with its message.
    Error(Seq<char>),
    /// The end of the input.
    Eof,
}

impl TokenTypeView {
    /// Whether two token types are of one kind. The payload counts for
    /// identifiers and strings, and is ignored for numbers and errors.
    pub open spec fn same_kind(self, other: TokenTypeView) -> bool {
        match (self, other) {
            (TokenTypeView::Number(_), TokenTypeView::Number(_)) => true,
            (TokenTypeView::Error(_), TokenTypeView::Error(_)) => true,
            _ => self == other,
        }
    }

    /// Whether the payload of a number token denotes a number, as that of
    /// every number token of the scanner does: see
    /// [`ValueView::is_number`]. This holds of every other token.
    pub open spec fn holds_number(self) -> bool {
        self matches TokenTypeView::Number(value) ==> value.is_number()
    }

    /// The text of the token in the source: the spelling of a symbol or a
    /// keyword, the name of an identifier, a string with its quotes, a
    /// number as it is written. An error, the end of the input and a
    /// number that is no literal have no text.
    pub open spec fn lexeme(self) -> Seq<char> {
        match self {
            TokenTypeView::Identifier(name) => name,
            TokenTypeView::String(text) => "\""@ + text + "\""@,
            TokenTypeView::Number(ValueView::Literal(text)) => text,
            TokenTypeView::Number(ValueView::Bits(_)) => Seq::empty(),
            TokenTypeView::Error(_) => Seq::empty(),
            TokenTypeView::Eof => Seq::empty(),
            TokenTypeView::LeftParen => "("@,
            TokenTypeView::RightParen => ")"@,
            TokenTypeView::LeftBrace => "{"@,
            TokenTypeView::RightBrace => "}"@,
            TokenTypeView::Comma => ","@,
            TokenTypeView::Dot => "."@,
            TokenTypeView::Minus => "-"@,
            TokenTypeView::Plus => "+"@,
            TokenTypeView::Semicolon => ";"@,
            TokenTypeView::Slash => "/"@,
            TokenTypeView::Star => "*"@,
            TokenTypeView::Bang => "!"@,
            TokenTypeView::BangEqual => "!="@,
            TokenTypeView::Equal => "="@,
            TokenTypeView::EqualEqual => "=="@,
            TokenTypeView::Greater => ">"@,
            TokenTypeView::GreaterEqual => ">="@,
            TokenTypeView::Less => "<"@,
            TokenTypeView::LessEqual => "<="@,
            TokenTypeView::And => "and"@,
            TokenTypeView::Class => "class"@,
            TokenTypeView::Else => "else"@,
            TokenTypeView::False => "false"@,
            TokenTypeView::For => "for"@,
            TokenTypeView::Fun => "fun"@,
            TokenTypeView::If => "if"@,
            TokenTypeView::Nil => "nil"@,
            TokenTypeView::Or => "or"@,
            TokenTypeView::Print => "print"@,
            TokenTypeView::Return => "return"@,
            TokenTypeView::Super => "super"@,
            TokenTypeView::This => "this"@,
            TokenTypeView::True => "true"@,
            TokenTypeView::Var => "var"@,
            TokenTypeView::While => "while"@,
        }
    }
}

impl View for TokenType {
    type V = TokenTypeView;

    open spec fn view(&self) -> TokenTypeView {
        match self {
            TokenType::Identifier(name) => TokenTypeView::Identifier(name@),
            TokenType::String(text) => TokenTypeView::String(text@),
            TokenType::Number(value) => TokenTypeView::Number(value@),
            TokenType::Error(message) => TokenTypeView::Error(message@),
            TokenType::LeftParen => TokenTypeView::LeftParen,
            TokenType::RightParen => TokenTypeView::RightParen,
            TokenType::LeftBrace => TokenTypeView::LeftBrace,
            TokenType::RightBrace => TokenTypeView::RightBrace,
            TokenType::Comma => TokenTypeView::Comma,
            TokenType::Dot => TokenTypeView::Dot,
            TokenType::Minus => TokenTypeView::Minus,
            TokenType::Plus => TokenTypeView::Plus,
            TokenType::Semicolon => TokenTypeView::Semicolon,
            TokenType::Slash => TokenTypeView::Slash,
            TokenType::Star => TokenTypeView::Star,
            TokenType::Bang => TokenTypeView::Bang,
            TokenType::BangEqual => TokenTypeView::BangEqual,
            TokenType::Equal => TokenTypeView::Equal,
            TokenType::EqualEqual => TokenTypeView::EqualEqual,
            TokenType::Greater => TokenTypeView::Greater,
            TokenType::GreaterEqual => TokenTypeView::GreaterEqual,
            TokenType::Less => TokenTypeView::Less,
            TokenType::LessEqual => TokenTypeView::LessEqual,
            TokenType::And => TokenTypeView::And,
            TokenType::Class => TokenTypeView::Class,
            TokenType::Else => TokenTypeView::Else,
            TokenType::False => TokenTypeView::False,
            TokenType::For => TokenTypeView::For,
            TokenType::Fun => TokenTypeView::Fun,
            TokenType::If => TokenTypeView::If,
            TokenType::Nil => TokenTypeView::Nil,
            TokenType::Or => TokenTypeView::Or,
            TokenType::Print => TokenTypeView::Print,
            TokenType::Return => TokenTypeView::Return,
            TokenType::Super => TokenTypeView::Super,
            TokenType::This => TokenTypeView::This,
            TokenType::True => TokenTypeView::True,
            TokenType::Var => TokenTypeView::Var,
            TokenType::While => TokenTypeView::While,
            TokenType::Eof => TokenTypeView::Eof,
        }
    }
}

impl Clone for TokenType {
    fn clone(&self) -> (copy: Self)
        ensures
            copy == *self,
    {
        match self {
            TokenType::Identifier(name) => TokenType::Identifier(name.clone()),
            TokenType::String(text) => TokenType::String(text.clone()),
            TokenType::Number(value) => TokenType::Number(value.clone()),
            TokenType::Error(message) => TokenType::Error(message.clone()),
            TokenType::LeftParen => TokenType::LeftParen,
            TokenType::RightParen => TokenType::RightParen,
            TokenType::LeftBrace => TokenType::LeftBrace,
            TokenType::RightBrace => TokenType::RightBrace,
            TokenType::Comma => TokenType::Comma,
            TokenType::Dot => TokenType::Dot,
            TokenType::Minus => TokenType::Minus,
            TokenType::Plus => TokenType::Plus,
            TokenType::Semicolon => TokenType::Semicolon,
            TokenType::Slash => TokenType::Slash,
            TokenType::Star => TokenType::Star,
            TokenType::Bang => TokenType::Bang,
            TokenType::BangEqual => TokenType::BangEqual,
            TokenType::Equal => TokenType::Equal,
            TokenType::EqualEqual => TokenType::EqualEqual,
            TokenType::Greater => TokenType::Greater,
            TokenType::GreaterEqual => TokenType::GreaterEqual,
            TokenType::Less => TokenType::Less,
            TokenType::LessEqual => TokenType::LessEqual,
            TokenType::And => TokenType::And,
            TokenType::Class => TokenType::Class,
            TokenType::Else => TokenType::Else,
            TokenType::False => TokenType::False,
            TokenType::For => TokenType::For,
            TokenType::Fun => TokenType::Fun,
            TokenType::If => TokenType::If,
            TokenType::Nil => TokenType::Nil,
            TokenType::Or => TokenType::Or,
            TokenType::Print => TokenType::Print,
            TokenType::Return => TokenType::Return,
            TokenType::Super => TokenType::Super,
            TokenType::This => TokenType::This,
            TokenType::True => TokenType::True,
            TokenType::Var => TokenType::Var,
            TokenType::While => TokenType::While,
            TokenType::Eof => TokenType::Eof,
        }
    }
}

impl TokenType {
    /// The text of the token in the source: see [`TokenTypeView::lexeme`].
    pub fn lexeme(&self) -> (text: String)
        ensures
            text@ == self@.lexeme(),
    {
        match self {
            TokenType::Identifier(name) => name.clone(),
            TokenType::String(text) => {
                let mut quoted = "\"".to_owned();
                quoted.append(text.as_str());
                quoted.append("\"");
                quoted
            },
            TokenType::Number(Value::Literal(text)) => text.clone(),
            TokenType::Number(Value::Bits(_)) => String::new(),
            TokenType::Error(_) => String::new(),
            TokenType::Eof => String::new(),
            TokenType::LeftParen => "(".to_owned(),
            TokenType::RightParen => ")".to_owned(),
            TokenType::LeftBrace => "{".to_owned(),
            TokenType::RightBrace => "}".to_owned(),
            TokenType::Comma => ",".to_owned(),
            TokenType::Dot => ".".to_owned(),
            TokenType::Minus => "-".to_owned(),
            TokenType::Plus => "+".to_owned(),
            TokenType::Semicolon => ";".to_owned(),
            TokenType::Slash => "/".to_owned(),
            TokenType::Star => "*".to_owned(),
            TokenType::Bang => "!".to_owned(),
            TokenType::BangEqual => "!=".to_owned(),
            TokenType::Equal => "=".to_owned(),
            TokenType::EqualEqual => "==".to_owned(),
            TokenType::Greater => ">".to_owned(),
            TokenType::GreaterEqual => ">=".to_owned(),
            TokenType::Less => "<".to_owned(),
            TokenType::LessEqual => "<=".to_owned(),
            TokenType::And => "and".to_owned(),
            TokenType::Class => "class".to_owned(),
            TokenType::Else => "else".to_owned(),
            TokenType::False => "false".to_owned(),
            TokenType::For => "for".to_owned(),
            TokenType::Fun => "fun".to_owned(),
            TokenType::If => "if".to_owned(),
            TokenType::Nil => "nil".to_owned(),
            TokenType::Or => "or".to_owned(),
            TokenType::Print => "print".to_owned(),
            TokenType::Return => "return".to_owned(),
            TokenType::Super => "super".to_owned(),
            TokenType::This => "this".to_owned(),
            TokenType::True => "true".to_owned(),
            TokenType::Var => "var".to_owned(),
            TokenType::While => "while".to_owned(),
        }
    }
}

impl PartialEq for TokenType {
    /// Equality of kinds: see [`TokenTypeView::same_kind`].
    fn eq(&self, other: &Self) -> (equal: bool) {
        match (self, other) {
            (TokenType::Identifier(left), TokenType::Identifier(right)) => *left == *right,
            (TokenType::String(left), TokenType::String(right)) => *left == *right,
            (TokenType::Number(_), TokenType::Number(_)) => true,
            (TokenType::Error(_), TokenType::Error(_)) => true,
            (TokenType::LeftParen, TokenType::LeftParen) => true,
            (TokenType::RightParen, TokenType::RightParen) => true,
            (TokenType::LeftBrace, TokenType::LeftBrace) => true,
            (TokenType::RightBrace, TokenType::RightBrace) => true,
            (TokenType::Comma, TokenType::Comma) => true,
            (TokenType::Dot, TokenType::Dot) => true,
            (TokenType::Minus, TokenType::Minus) => true,
            (TokenType::Plus, TokenType::Plus) => true,
            (TokenType::Semicolon, TokenType::Semicolon) => true,
            (TokenType::Slash, TokenType::Slash) => true,
            (TokenType::Star, TokenType::Star) => true,
            (TokenType::Bang, TokenType::Bang) => true,
            (TokenType::BangEqual, TokenType::BangEqual) => true,
            (TokenType::Equal, TokenType::Equal) => true,
            (TokenType::EqualEqual, TokenType::EqualEqual) => true,
            (TokenType::Greater, TokenType::Greater) => true,
            (TokenType::GreaterEqual, TokenType::GreaterEqual) => true,
            (TokenType::Less, TokenType::Less) => true,
            (TokenType::LessEqual, TokenType::LessEqual) => true,
            (TokenType::And, TokenType::And) => true,
            (TokenType::Class, TokenType::Class) => true,
            (TokenType::Else, TokenType::Else) => true,
            (TokenType::False, TokenType::False) => true,
            (TokenType::For, TokenType::For) => true,
            (TokenType::Fun, TokenType::Fun) => true,
            (TokenType::If, TokenType::If) => true,
            (TokenType::Nil, TokenType::Nil) => true,
            (TokenType::Or, TokenType::Or) => true,
            (TokenType::Print, TokenType::Print) => true,
            (TokenType::Return, TokenType::Return) => true,
            (TokenType::Super, TokenType::Super) => true,
            (TokenType::This, TokenType::This) => true,
            (TokenType::True, TokenType::True) => true,
            (TokenType::Var, TokenType::Var) => true,
            (TokenType::While, TokenType::While) => true,
            (TokenType::Eof, TokenType::Eof) => true,
            _ => false,
        }
    }
}

impl PartialEqSpecImpl for TokenType {
    open spec fn obeys_eq_spec() -> bool {
        true
    }

    open spec fn eq_spec(&self, other: &Self) -> bool {
        self@.same_kind(other@)
    }
}

/// How strongly an operator binds, from the loosest level to the tightest.
#[derive(Debug, Clone, Copy, PartialEq, Eq, Structural)]
pub enum Precendence {
    /// The level of every token that is no operator.
    Lowest,
    Assignment,  // =
    Or,  // or
    And,  // and
    Equality,  // == !=
    Comparison,  // < > <= >=
    Term,  // + -
    Factor,  // * /
    Unary,  // ! -
    Call,  // . ()
    Primary,
}

impl Precendence {
    /// The place of the level in the order, counted from the loosest.
    pub open spec fn rank(self) -> nat {
        match self {
            Precendence::Lowest => 0,
            Precendence::Assignment => 1,
            Precendence::Or => 2,
            Precendence::And => 3,
            Precendence::Equality => 4,
            Precendence::Comparison => 5,
            Precendence::Term => 6,
            Precendence::Factor => 7,
            Precendence::Unary => 8,
            Precendence::Call => 9,
            Precendence::Primary => 10,
        }
    }

    /// The level that binds one step tighter; `Primary` is its own successor.
    pub open spec fn successor(self) -> Precendence {
        match self {
            Precendence::Lowest => Precendence::Assignment,
            Precendence::Assignment => Precendence::Or,
            Precendence::Or => Precendence::And,
            Precendence::And => Precendence::Equality,
            Precendence::Equality => Precendence::Comparison,
            Precendence::Comparison => Precendence::Term,
            Precendence::Term => Precendence::Factor,
            Precendence::Factor => Precendence::Unary,
            Precendence::Unary => Precendence::Call,
            Precendence::Call => Precendence::Primary,
            Precendence::Primary => Precendence::Primary,
        }
    }

    /// The place of the level in the order, counted from the loosest.
    pub fn level(&self) -> (level: u8)
        ensures
            level == self.rank(),
    {
        match self {
            Precendence::Lowest => 0,
            Precendence::Assignment => 1,
            Precendence::Or => 2,
            Precendence::And => 3,
            Precendence::Equality => 4,
            Precendence::Comparison => 5,
            Precendence::Term => 6,
            Precendence::Factor => 7,
            Precendence::Unary => 8,
            Precendence::Call => 9,
            Precendence::Primary => 10,
        }
    }

    /// The level that binds one step tighter, saturating at `Primary`.
    pub fn increment(&self) -> (next: Precendence)
        ensures
            next == self.successor(),
            next.rank() == if self.rank() < 10 {
                self.rank() + 1
            } else {
                10
            },
    {
        match self {
            Precendence::Lowest => Precendence::Assignment,
            Precendence::Assignment => Precendence::Or,
            Precendence::Or => Precendence::And,
            Precendence::And => Precendence::Equality,
            Precendence::Equality => Precendence::Comparison,
            Precendence::Comparison => Precendence::Term,
            Precendence::Term => Precendence::Factor,
            Precendence::Factor => Precendence::Unary,
            Precendence::Unary => Precendence::Call,
            Precendence::Call => Precendence::Primary,
            Precendence::Primary => Precendence::Primary,
        }
    }
}

impl PartialOrd for Precendence {
    /// The order of the levels is that of their ranks.
    fn partial_cmp(&self, other: &Self) -> (order: Option<Ordering>) {
        let left: u8 = self.level();
        let right: u8 = other.level();
        if left < right {
            Some(Ordering::Less)
        } else if left == right {
            Some(Ordering::Equal)
        } else {
            Some(Ordering::Greater)
        }
    }
}

impl PartialOrdSpecImpl for Precendence {
    open spec fn obeys_partial_cmp_spec() -> bool {
        true
    }

    open spec fn partial_cmp_spec(&self, other: &Self) -> Option<Ordering> {
        if self.rank() < other.rank() {
            Some(Ordering::Less)
        } else if self.rank() == other.rank() {
            Some(Ordering::Equal)
        } else {
            Some(Ordering::Greater)
        }
    }
}

/// The levels are totally ordered by their ranks: two levels of one rank
/// are the same level, and every rank from 0 to 10 belongs to a level.
pub proof fn lemma_precedence_total_order(left: Precendence, right: Precendence)
    ensures
        left.rank() <= 10,
        left.rank() == right.rank() <==> left == right,
        left.rank() < right.rank() || left == right || right.rank() < left.rank(),
{
}

/// `increment` moves to the next tighter level and stops at `Primary`: it
/// never loosens a level, and it leaves only `Primary` where it is.
pub proof fn lemma_increment_tightens(level: Precendence)
    ensures
        level.rank() <= level.successor().rank(),
        level.successor() == level <==> level == Precendence::Primary,
        level != Precendence::Primary ==> level.successor().rank() == level.rank() + 1,
{
}

/// A token: its kind and the line of the source on which it ends.
#[derive(Debug)]
pub struct Token {
    token_type: TokenType,
    line: usize,
}

/// What a [`Token`] is in contracts.
pub struct TokenView {
    pub token_type: TokenTypeView,
    pub line: usize,
}

impl View for Token {
    type V = TokenView;

    closed spec fn view(&self) -> TokenView {
        TokenView { token_type: self.token_type@, line: self.line }
    }
}

impl Clone for Token {
    fn clone(&self) -> (copy: Self)
        ensures
            copy == *self,
    {
        Token { token_type: self.token_type.clone(), line: self.line }
    }
}

impl Token {
    /// A token of the given kind on the given line. It is always there.
    pub fn new(token_type: TokenType, line: usize) -> (token: TokenError)
        ensures
            token matches Ok(t) && t@ == (TokenView { token_type: token_type@, line }),
    {
        Ok(Token { token_type, line })
    }

    /// The kind of the token.
    pub fn token_type(&self) -> (token_type: &TokenType)
        ensures
            token_type@ == self@.token_type,
    {
        &self.token_type
    }

    /// The line of the token.
    pub fn line(&self) -> (line: usize)
        ensures
            line == self@.line,
    {
        self.line
    }
}

impl Default for Token {
    /// The token that stands where none has been scanned yet: `Nil` on line 0.
    fn default() -> (token: Token)
        ensures
            token@ == (TokenView { token_type: TokenTypeView::Nil, line: 0 }),
    {
        Token { token_type: TokenType::Nil, line: 0 }
    }
}

} // verus!
