//! The compiler: a parser by precedence climbing that writes bytecode as
//! it reads the tokens, without a syntax tree in between.
//!
//! [`CompilerView`] says step by step what the compiler does with the
//! tokens of a source. [`grammar`] says the same at one stroke: which
//! token streams the compiler accepts, and what code it writes for them.

use crate::chunk::{Chunk, ChunkView, OpCode};
use crate::compiler::parse_rule::{binary_instruction, get_rule, rule_of, ParseFn};
use crate::compiler::scanner::{
    at_end, blank_end, char_at, eof_line, lemma_blank_end, lemma_run_end, lemma_scan_at_end,
    lemma_scan_progress, line_after, run_end, scan, tokens, tokens_from, CharClass, Scanner,
};
use crate::compiler::tokenizer::{Precendence, Token, TokenError, TokenType, TokenTypeView, TokenView};
use crate::text::{decimal, with_number};
use crate::value::{Value, ValueView};
use crate::vm::InterpreterError;
use vstd::prelude::*;
use vstd::string::*;

pub mod grammar;
pub mod parse_rule;
pub mod scanner;
pub mod tokenizer;

verus! {

/// What the compiler has to say about a source that it rejects.
#[derive(Debug)]
pub struct Diagnostic {
    /// The error: `CompileError` with the line of the offending token.
    pub error: InterpreterError,
    /// What is wrong.
    pub message: String,
    /// The kind of the offending token.
    pub token: TokenType,
}

/// What a [`Diagnostic`] is in contracts.
pub struct DiagnosticView {
    pub error: InterpreterError,
    pub message: Seq<char>,
    pub token: TokenTypeView,
}

impl View for Diagnostic {
    type V = DiagnosticView;

    open spec fn view(&self) -> DiagnosticView {
        DiagnosticView { error: self.error, message: self.message@, token: self.token@ }
    }
}

impl DiagnosticView {
    /// Where the error is, in words: at the end of the input, nowhere for
    /// an error of the scanner, whose message says it all, and else at the
    /// text of the offending token.
    pub open spec fn place(self) -> Seq<char> {
        match self.token {
            TokenTypeView::Eof => " at end"@,
            TokenTypeView::Error(_) => Seq::empty(),
            token => " at '"@ + token.lexeme() + "'"@,
        }
    }

    /// The diagnostic as one line of text: the line, the message and the
    /// place.
    pub open spec fn text(self) -> Seq<char> {
        "Error at line "@ + decimal(self.error.line() as nat) + " : "@ + self.message
            + self.place()
    }
}

impl Diagnostic {
    /// The diagnostic as one line of text: see [`DiagnosticView::text`].
    pub fn to_string(&self) -> (text: String)
        ensures
            text@ == self@.text(),
    {
        let mut text = with_number("Error at line ", self.error.line());
        text.append(" : ");
        text.append(self.message.as_str());
        match &self.token {
            TokenType::Eof => {
                text.append(" at end");
            },
            TokenType::Error(_) => {
                assert(text@ =~= self@.text());
            },
            token => {
                let lexeme = token.lexeme();
                text.append(" at '");
                text.append(lexeme.as_str());
                text.append("'");
                assert(text@ =~= self@.text());
            },
        }
        text
    }
}

/// The views of the diagnostics of `diagnostics`, in the same order.
pub open spec fn diagnostics_of(diagnostics: Seq<Diagnostic>) -> Seq<DiagnosticView> {
    Seq::new(diagnostics.len(), |i: int| diagnostics[i]@)
}

/// The state of the parser: a window of two tokens and two flags.
#[derive(Debug)]
pub struct Parser {
    pub current: Token,
    pub previous: Token,
    pub had_error: bool,
    pub panic_mode: bool,
}

/// What a [`Parser`] is in contracts.
pub struct ParserView {
    /// The token that the parser looks at.
    pub current: TokenView,
    /// The token that the parser has taken last.
    pub previous: TokenView,
    /// Whether a diagnostic has been issued.
    pub had_error: bool,
    /// Whether further diagnostics are held back.
    pub panic_mode: bool,
}

impl View for Parser {
    type V = ParserView;

    open spec fn view(&self) -> ParserView {
        ParserView {
            current: self.current@,
            previous: self.previous@,
            had_error: self.had_error,
            panic_mode: self.panic_mode,
        }
    }
}

impl ParserView {
    /// The parser that has seen nothing yet.
    pub open spec fn start() -> ParserView {
        ParserView {
            current: TokenView { token_type: TokenTypeView::Nil, line: 0 },
            previous: TokenView { token_type: TokenTypeView::Nil, line: 0 },
            had_error: false,
            panic_mode: false,
        }
    }
}

impl Parser {
    /// A parser that has seen nothing yet: both tokens of its window are
    /// the default token, and no flag is set.
    pub fn new() -> (parser: Parser)
        ensures
            parser@ == ParserView::start(),
    {
        Parser {
            current: Token::default(),
            previous: Token::default(),
            had_error: false,
            panic_mode: false,
        }
    }
}

/// A single-pass compiler: it takes the tokens of a source one by one and
/// appends the bytecode of the expression that they form to a chunk.
pub struct Compiler<'a> {
    pub chunk: &'a mut Chunk,
    pub scanner: Scanner,
    pub parser: Parser,
    pub diagnostics: Vec<Diagnostic>,
}

/// What a [`Compiler`] is in contracts: the tokens that it has yet to take,
/// the state of its parser, the chunk as far as it is written, and the
/// diagnostics issued so far.
pub struct CompilerView {
    /// The tokens still to come, without the `Eof` behind them.
    pub rest: Seq<TokenView>,
    /// The line of the `Eof` behind the tokens.
    pub end_line: usize,
    pub parser: ParserView,
    pub chunk: ChunkView,
    pub diagnostics: Seq<DiagnosticView>,
}

impl CompilerView {
    /// The compiler that is about to compile `source` into `chunk`.
    pub open spec fn start(source: Seq<char>, chunk: ChunkView) -> CompilerView {
        CompilerView {
            rest: tokens(source),
            end_line: eof_line(source, 0, 1),
            parser: ParserView::start(),
            chunk,
            diagnostics: Seq::empty(),
        }
    }

    /// How many tokens other than `Eof` lie ahead, the current one included.
    pub open spec fn remaining(self) -> nat {
        self.rest.len() + if self.parser.current.token_type is Eof {
            0nat
        } else {
            1nat
        }
    }

    /// The state in which parsing goes on after a step from `self` to
    /// `next`. The parser never moves backwards
    /// ([`lemma_parser_moves_forward`]), so this is `next`.
    pub open spec fn onward(self, next: CompilerView) -> CompilerView {
        if next.remaining() <= self.remaining() {
            next
        } else {
            self
        }
    }

    /// Issues a diagnostic about `token`, unless one has been issued before:
    /// the first diagnostic holds all later ones back.
    pub open spec fn error_at(self, token: TokenView, message: Seq<char>) -> CompilerView {
        if self.parser.panic_mode {
            self
        } else {
            CompilerView {
                parser: ParserView { panic_mode: true, had_error: true, ..self.parser },
                diagnostics: self.diagnostics.push(
                    DiagnosticView {
                        error: InterpreterError::CompileError(token.line),
                        message,
                        token: token.token_type,
                    },
                ),
                ..self
            }
        }
    }

    /// Issues a diagnostic about the token taken last.
    pub open spec fn error(self, message: Seq<char>) -> CompilerView {
        self.error_at(self.parser.previous, message)
    }

    /// Issues a diagnostic about the token that the parser looks at.
    pub open spec fn error_at_current(self, message: Seq<char>) -> CompilerView {
        self.error_at(self.parser.current, message)
    }

    /// Makes the next token that is no error the current one. Each error
    /// token on the way is reported with its message. Behind the last
    /// token every token is `Eof`.
    pub open spec fn next_token(self) -> CompilerView
        decreases self.rest.len(),
    {
        if self.rest.len() == 0 {
            CompilerView {
                parser: ParserView {
                    current: TokenView { token_type: TokenTypeView::Eof, line: self.end_line },
                    ..self.parser
                },
                ..self
            }
        } else {
            let token = self.rest[0];
            let taken = CompilerView {
                rest: self.rest.drop_first(),
                parser: ParserView { current: token, ..self.parser },
                ..self
            };
            match token.token_type {
                TokenTypeView::Error(message) => taken.error_at_current(message).next_token(),
                _ => taken,
            }
        }
    }

    /// Shifts the window by one token: the current token becomes the
    /// previous one, and the next token that is no error the current one.
    pub open spec fn advance(self) -> CompilerView {
        CompilerView {
            parser: ParserView { previous: self.parser.current, ..self.parser },
            ..self
        }.next_token()
    }

    /// Takes the current token if it is of the kind `token_type`, and
    /// issues a diagnostic with `message` if it is not.
    pub open spec fn consume(self, token_type: TokenTypeView, message: Seq<char>) -> CompilerView {
        if self.parser.current.token_type.same_kind(token_type) {
            self.advance()
        } else {
            self.error_at_current(message)
        }
    }

    /// Appends `byte` with the line of the token taken last.
    pub open spec fn emit_byte(self, byte: OpCode) -> CompilerView {
        CompilerView { chunk: self.chunk.write(byte, self.parser.previous.line), ..self }
    }

    /// Appends `value` to the constant pool, and the instruction that
    /// pushes it with the line of the token taken last.
    pub open spec fn emit_constant(self, value: ValueView) -> CompilerView {
        CompilerView { chunk: self.chunk.write_constant(value, self.parser.previous.line), ..self }
    }

    /// What [`parse_rule::ParseFn::call`] does for each parsing function.
    pub open spec fn apply(self, handler: ParseFn) -> CompilerView
        decreases self.remaining(), 5nat,
    {
        match handler {
            ParseFn::Grouping => self.grouping(),
            ParseFn::Unary => self.unary(),
            ParseFn::Binary => self.binary(),
            ParseFn::Number => self.number(),
        }
    }

    /// A number literal: its constant.
    pub open spec fn number(self) -> CompilerView {
        match self.parser.previous.token_type {
            TokenTypeView::Number(value) => self.emit_constant(value),
            _ => self,
        }
    }

    /// A parenthesized expression: the expression, and the right
    /// parenthesis that must follow it.
    pub open spec fn grouping(self) -> CompilerView
        decreases self.remaining(), 4nat,
    {
        self.parse_precedence(Precendence::Assignment).consume(
            TokenTypeView::RightParen,
            "Expect ')' after expression."@,
        )
    }

    /// A prefix operator: its operand, then its instruction.
    pub open spec fn unary(self) -> CompilerView
        decreases self.remaining(), 4nat,
    {
        let operand = self.parse_precedence(Precendence::Unary);
        match self.parser.previous.token_type {
            TokenTypeView::Minus => operand.emit_byte(OpCode::OpNegate),
            _ => operand,
        }
    }

    /// An infix operator: its right operand, one level tighter than the
    /// operator binds, then its instruction.
    pub open spec fn binary(self) -> CompilerView
        decreases self.remaining(), 4nat,
    {
        let operator = self.parser.previous.token_type;
        let operand = self.parse_precedence(rule_of(operator).precedence.successor());
        match binary_instruction(operator) {
            Some(instruction) => operand.emit_byte(instruction),
            None => operand,
        }
    }

    /// An expression whose operators bind at least as tightly as
    /// `precedence`: the operand that starts with the next token, and then
    /// each infix operator of that strength with its right operand. Where no
    /// expression can start with the next token, a diagnostic says so.
    pub open spec fn parse_precedence(self, precedence: Precendence) -> CompilerView
        decreases self.remaining(), 3nat,
    {
        let taken = self.advance();
        match rule_of(taken.parser.previous.token_type).prefix {
            Some(prefix_rule) => {
                proof {
                    lemma_advance(self);
                }
                taken.onward(taken.apply(prefix_rule)).infix_loop(precedence)
            },
            None => taken.error("Expect expression"@),
        }
    }

    /// The infix operators that follow an operand, as long as they bind at
    /// least as tightly as `precedence`, each with its right operand.
    pub open spec fn infix_loop(self, precedence: Precendence) -> CompilerView
        decreases self.remaining(), 1nat,
    {
        if precedence.rank() <= rule_of(self.parser.current.token_type).precedence.rank() {
            let taken = self.advance();
            match rule_of(taken.parser.previous.token_type).infix {
                Some(infix_rule) => {
                    proof {
                        lemma_advance(self);
                    }
                    taken.onward(taken.apply(infix_rule)).infix_loop(precedence)
                },
                None => taken,
            }
        } else {
            self
        }
    }

    /// A whole expression.
    pub open spec fn expression(self) -> CompilerView {
        self.parse_precedence(Precendence::Assignment)
    }

    /// The compilation of the source: the first token, one expression, the
    /// end of the input, and the `OpReturn` that ends the code.
    pub open spec fn compile(self) -> CompilerView {
        self.advance().expression().consume(
            TokenTypeView::Eof,
            "Expect end of expression."@,
        ).emit_byte(OpCode::OpReturn)
    }

    /// How a compilation that ends in this state has gone: well, or with
    /// the error of the first diagnostic.
    pub open spec fn outcome(self) -> Result<(), InterpreterError> {
        if self.parser.had_error {
            Err(self.diagnostics[0].error)
        } else {
            Ok(())
        }
    }
}

/// The compilation of `source` into a chunk of its own: the state in which
/// the compiler ends.
pub open spec fn compilation(source: Seq<char>) -> CompilerView {
    CompilerView::start(source, ChunkView::empty()).compile()
}

/// Taking the next token keeps the previous one and never adds to what
/// lies ahead.
pub proof fn lemma_next_token(state: CompilerView)
    ensures
        state.next_token().parser.previous == state.parser.previous,
        state.next_token().rest.len() <= state.rest.len(),
        state.rest.len() > 0 ==> state.next_token().rest.len() < state.rest.len(),
        state.rest.len() == 0 ==> state.next_token().parser.current.token_type is Eof,
        state.next_token().end_line == state.end_line,
        state.next_token().chunk == state.chunk,
    decreases state.rest.len(),
{
    if state.rest.len() > 0 {
        let token = state.rest[0];
        let taken = CompilerView {
            rest: state.rest.drop_first(),
            parser: ParserView { current: token, ..state.parser },
            ..state
        };
        match token.token_type {
            TokenTypeView::Error(message) => {
                lemma_next_token(taken.error_at_current(message));
            },
            _ => {},
        }
    }
}

/// Shifting the window makes the current token the previous one and never
/// adds to what lies ahead; it takes away from it unless the current token
/// is `Eof`.
pub proof fn lemma_advance(state: CompilerView)
    ensures
        state.advance().parser.previous == state.parser.current,
        state.advance().remaining() <= state.remaining(),
        !(state.parser.current.token_type is Eof) ==> state.advance().remaining()
            < state.remaining(),
        state.advance().chunk == state.chunk,
{
    lemma_next_token(
        CompilerView {
            parser: ParserView { previous: state.parser.current, ..state.parser },
            ..state
        },
    );
}

/// Whether `longer` begins with `shorter`.
pub open spec fn begins_with<T>(longer: Seq<T>, shorter: Seq<T>) -> bool {
    &&& shorter.len() <= longer.len()
    &&& forall|i: int| 0 <= i < shorter.len() ==> longer[i] == shorter[i]
}

impl CompilerView {
    /// Whether the flags and the diagnostics agree: both flags are set
    /// exactly when there is a diagnostic, and there is never a second one.
    pub open spec fn consistent(self) -> bool {
        &&& self.parser.panic_mode == self.parser.had_error
        &&& self.parser.had_error <==> self.diagnostics.len() == 1
        &&& self.diagnostics.len() <= 1
    }

    /// Whether every number in the state denotes a number: the payload of
    /// each number token, in the window and ahead of it, and each constant
    /// of the chunk.
    pub open spec fn holds_numbers(self) -> bool {
        &&& self.parser.current.token_type.holds_number()
        &&& self.parser.previous.token_type.holds_number()
        &&& forall|i: int|
            0 <= i < self.rest.len() ==> (#[trigger] self.rest[i]).token_type.holds_number()
        &&& forall|i: int|
            0 <= i < self.chunk.constants.len() ==> (#[trigger] self.chunk.constants[i]).is_number()
    }

    /// Whether `self` can come after `earlier` in a compilation. The parser
    /// has not moved backwards. The chunk has only grown, at its end, and
    /// is well formed if it was. The diagnostics have only grown, a flag
    /// that was set is still set, and flags and diagnostics agree if they
    /// did. Every number denotes a number if every number did.
    pub open spec fn extends(self, earlier: CompilerView) -> bool {
        &&& self.remaining() <= earlier.remaining()
        &&& self.end_line == earlier.end_line
        &&& begins_with(self.chunk.code, earlier.chunk.code)
        &&& begins_with(self.chunk.lines, earlier.chunk.lines)
        &&& begins_with(self.chunk.constants, earlier.chunk.constants)
        &&& earlier.chunk.well_formed() ==> self.chunk.well_formed()
        &&& begins_with(self.diagnostics, earlier.diagnostics)
        &&& earlier.parser.had_error ==> self.parser.had_error
        &&& earlier.parser.panic_mode ==> self.parser.panic_mode
        &&& earlier.consistent() ==> self.consistent()
        &&& earlier.holds_numbers() ==> self.holds_numbers()
    }
}

/// Taking the next token keeps the previous one, the chunk and the end of
/// the input, and leads to a state that can come after the first.
pub proof fn lemma_next_token_extends(state: CompilerView)
    ensures
        state.next_token().rest.len() <= state.rest.len(),
        state.next_token().end_line == state.end_line,
        state.next_token().chunk == state.chunk,
        begins_with(state.next_token().diagnostics, state.diagnostics),
        state.parser.had_error ==> state.next_token().parser.had_error,
        state.parser.panic_mode ==> state.next_token().parser.panic_mode,
        state.consistent() ==> state.next_token().consistent(),
        state.holds_numbers() ==> state.next_token().holds_numbers(),
    decreases state.rest.len(),
{
    lemma_next_token(state);
    if state.rest.len() > 0 {
        let token = state.rest[0];
        let taken = CompilerView {
            rest: state.rest.drop_first(),
            parser: ParserView { current: token, ..state.parser },
            ..state
        };
        match token.token_type {
            TokenTypeView::Error(message) => {
                lemma_next_token_extends(taken.error_at_current(message));
            },
            _ => {},
        }
    }
}

/// Every step of the parser leads to a state that can come after the one
/// before it: see [`CompilerView::extends`].
pub proof fn lemma_steps_extend(state: CompilerView, message: Seq<char>, token: TokenView)
    ensures
        state.extends(state),
        state.error_at(token, message).extends(state),
        state.advance().extends(state),
        forall|kind: TokenTypeView| (#[trigger] state.consume(kind, message)).extends(state),
        forall|byte: OpCode|
            state.chunk.admits(byte) ==> (#[trigger] state.emit_byte(byte)).extends(state),
        forall|value: ValueView|
            value.is_number() ==> (#[trigger] state.emit_constant(value)).extends(state),
{
    lemma_advance(state);
    lemma_next_token_extends(
        CompilerView {
            parser: ParserView { previous: state.parser.current, ..state.parser },
            ..state
        },
    );
}

/// What can come after what can come after a state can come after it.
pub proof fn lemma_extends_twice(first: CompilerView, second: CompilerView, third: CompilerView)
    requires
        second.extends(first),
        third.extends(second),
    ensures
        third.extends(first),
{
}

/// The parser never moves backwards, and whatever it does leads to a state
/// that can come after the one it started in. In particular `onward` never
/// holds the parser back.
pub proof fn lemma_parser_moves_forward(state: CompilerView, precedence: Precendence)
    ensures
        state.parse_precedence(precedence).extends(state),
        state.infix_loop(precedence).extends(state),
        forall|handler: ParseFn| (#[trigger] state.apply(handler)).extends(state),
        forall|handler: ParseFn| state.onward(#[trigger] state.apply(handler)) == state.apply(handler),
    decreases state.remaining(), 6nat,
{
    lemma_parse_precedence_extends(state, precedence);
    lemma_infix_loop_extends(state, precedence);
    assert forall|handler: ParseFn| (#[trigger] state.apply(handler)).extends(state) by {
        lemma_apply_extends(state, handler);
    }
}

proof fn lemma_apply_extends(state: CompilerView, handler: ParseFn)
    ensures
        state.apply(handler).extends(state),
    decreases state.remaining(), 5nat,
{
    let none = Seq::<char>::empty();
    let nil = TokenView { token_type: TokenTypeView::Nil, line: 0 };
    lemma_steps_extend(state, none, nil);
    match handler {
        ParseFn::Grouping => {
            let inner = state.parse_precedence(Precendence::Assignment);
            lemma_parse_precedence_extends(state, Precendence::Assignment);
            lemma_steps_extend(inner, "Expect ')' after expression."@, nil);
        },
        ParseFn::Unary => {
            let operand = state.parse_precedence(Precendence::Unary);
            lemma_parse_precedence_extends(state, Precendence::Unary);
            lemma_steps_extend(operand, none, nil);
        },
        ParseFn::Binary => {
            let operator = state.parser.previous.token_type;
            let level = rule_of(operator).precedence.successor();
            let operand = state.parse_precedence(level);
            lemma_parse_precedence_extends(state, level);
            lemma_steps_extend(operand, none, nil);
        },
        ParseFn::Number => {},
    }
}

proof fn lemma_parse_precedence_extends(state: CompilerView, precedence: Precendence)
    ensures
        state.parse_precedence(precedence).extends(state),
    decreases state.remaining(), 3nat,
{
    let nil = TokenView { token_type: TokenTypeView::Nil, line: 0 };
    let taken = state.advance();
    lemma_steps_extend(state, "Expect expression"@, nil);
    lemma_steps_extend(taken, "Expect expression"@, taken.parser.previous);
    match rule_of(taken.parser.previous.token_type).prefix {
        Some(prefix_rule) => {
            lemma_advance(state);
            lemma_apply_extends(taken, prefix_rule);
            let operand = taken.apply(prefix_rule);
            lemma_infix_loop_extends(operand, precedence);
        },
        None => {},
    }
}

proof fn lemma_infix_loop_extends(state: CompilerView, precedence: Precendence)
    ensures
        state.infix_loop(precedence).extends(state),
    decreases state.remaining(), 1nat,
{
    let nil = TokenView { token_type: TokenTypeView::Nil, line: 0 };
    lemma_steps_extend(state, Seq::<char>::empty(), nil);
    if precedence.rank() <= rule_of(state.parser.current.token_type).precedence.rank() {
        let taken = state.advance();
        match rule_of(taken.parser.previous.token_type).infix {
            Some(infix_rule) => {
                lemma_advance(state);
                lemma_apply_extends(taken, infix_rule);
                let operand = taken.apply(infix_rule);
                lemma_infix_loop_extends(operand, precedence);
            },
            None => {},
        }
    }
}

/// A compilation leads to a state that can come after the one it started
/// in. If it starts without a diagnostic, it ends with at most one, and
/// it fails exactly if it ends with one.
pub proof fn lemma_compile_extends(state: CompilerView)
    ensures
        state.compile().extends(state),
        state.consistent() ==> (state.compile().outcome() is Err <==> state.compile().diagnostics.len()
            == 1),
        state.consistent() ==> (state.compile().outcome() is Ok <==> state.compile().diagnostics.len()
            == 0),
{
    let nil = TokenView { token_type: TokenTypeView::Nil, line: 0 };
    let message = "Expect end of expression."@;
    lemma_steps_extend(state, message, nil);
    let first = state.advance();
    lemma_parse_precedence_extends(first, Precendence::Assignment);
    let parsed = first.expression();
    lemma_steps_extend(parsed, message, nil);
    let consumed = parsed.consume(TokenTypeView::Eof, message);
    lemma_steps_extend(consumed, message, nil);
}

/// A source that holds nothing but a string that no quote closes is
/// rejected with one diagnostic, on the line of the opening quote, however
/// many lines follow it.
pub proof fn lemma_unterminated_string_is_rejected(source: Seq<char>)
    requires
        char_at(source, blank_end(source, 0)) == '"',
        at_end(source, run_end(source, blank_end(source, 0) + 1, CharClass::StringPart)),
    ensures
        ({
            let opening_line = line_after(1, source.subrange(0, blank_end(source, 0)));
            let compiled = compilation(source);
            &&& compiled.outcome() == Err::<(), InterpreterError>(
                InterpreterError::CompileError(opening_line),
            )
            &&& compiled.diagnostics == seq![
                DiagnosticView {
                    error: InterpreterError::CompileError(opening_line),
                    message: "Unterminated string."@,
                    token: TokenTypeView::Error("Unterminated string."@),
                },
            ]
        }),
{
    lemma_blank_end(source, 0);
    let quote = blank_end(source, 0);
    let opening_line = line_after(1, source.subrange(0, quote));
    lemma_run_end(source, quote + 1, CharClass::StringPart);
    let close = run_end(source, quote + 1, CharClass::StringPart);
    let first = scan(source, 0, 1);
    let message = "Unterminated string."@;
    let failure = TokenView { token_type: TokenTypeView::Error(message), line: opening_line };
    assert(first.token == failure);
    assert(first.end == close);
    let last = scan(source, close, first.line);
    assert(source.subrange(close, close) =~= Seq::<char>::empty());
    assert(last.token.token_type is Eof);
    assert(tokens_from(source, close, first.line) =~= Seq::<TokenView>::empty());
    assert(tokens_from(source, 0, 1) =~= seq![failure] + tokens_from(source, close, first.line));
    let start = CompilerView::start(source, ChunkView::empty());
    assert(start.rest =~= seq![failure]);
    let diagnostic = DiagnosticView {
        error: InterpreterError::CompileError(opening_line),
        message,
        token: TokenTypeView::Error(message),
    };
    let shifted = CompilerView {
        parser: ParserView { previous: start.parser.current, ..start.parser },
        ..start
    };
    let taken = CompilerView {
        rest: shifted.rest.drop_first(),
        parser: ParserView { current: failure, ..shifted.parser },
        ..shifted
    };
    assert(taken.rest =~= Seq::<TokenView>::empty());
    let reported = taken.error_at_current(message);
    assert(reported.diagnostics =~= seq![diagnostic]);
    assert(shifted.next_token() == reported.next_token());
    let primed = start.advance();
    assert(primed.diagnostics == seq![diagnostic]);
    assert(primed.parser.panic_mode && primed.parser.had_error);
    assert(primed.consistent());
    lemma_steps_extend(primed, message, failure);
    let parsed = primed.expression();
    lemma_parser_moves_forward(primed, Precendence::Assignment);
    lemma_steps_extend(parsed, "Expect end of expression."@, failure);
    let consumed = parsed.consume(TokenTypeView::Eof, "Expect end of expression."@);
    assert(consumed.consistent());
    assert(begins_with(consumed.diagnostics, primed.diagnostics));
    assert(consumed.diagnostics =~= seq![diagnostic]);
}

impl<'a> View for Compiler<'a> {
    type V = CompilerView;

    open spec fn view(&self) -> CompilerView {
        CompilerView {
            rest: tokens_from(
                self.scanner@.source,
                self.scanner@.current as int,
                self.scanner@.line,
            ),
            end_line: eof_line(self.scanner@.source, self.scanner@.current as int, self.scanner@.line),
            parser: self.parser@,
            chunk: self.chunk@,
            diagnostics: diagnostics_of(self.diagnostics@),
        }
    }
}

impl<'a> Compiler<'a> {
    /// The invariant of a compiler: its scanner is well formed, and where
    /// the error flag is set there is a diagnostic.
    pub open spec fn well_formed(&self) -> bool {
        &&& self.scanner.well_formed()
        &&& self.parser.had_error ==> self.diagnostics@.len() > 0
    }

    /// A compiler that is about to compile `source` into `chunk`.
    pub fn new(source: String, chunk: &'a mut Chunk) -> (compiler: Compiler<'a>)
        ensures
            compiler.well_formed(),
            compiler@ == CompilerView::start(source@, old(chunk)@),
            *final(chunk) == *final(compiler.chunk),
    {
        let compiler = Compiler {
            chunk,
            scanner: Scanner::new(source),
            parser: Parser::new(),
            diagnostics: Vec::new(),
        };
        assert(compiler@.diagnostics =~= Seq::<DiagnosticView>::empty());
        compiler
    }

    /// Compiles the source: one expression up to the end of the input, and
    /// the `OpReturn` that ends the code. The result is `Ok` if no
    /// diagnostic was issued, and the error of the first diagnostic if one
    /// was: see [`CompilerView::compile`] and [`CompilerView::outcome`].
    pub fn compile(&mut self) -> (result: Result<(), InterpreterError>)
        requires
            old(self).well_formed(),
        ensures
            final(self).well_formed(),
            final(self)@ == old(self)@.compile(),
            result == final(self)@.outcome(),
            old(self)@.chunk.well_formed() ==> final(self)@.chunk.well_formed(),
            *final(final(self).chunk) == *final(old(self).chunk),
    {
        let first = self.advance();
        let parsed = self.expression();
        self.consume(TokenType::Eof, "Expect end of expression.");
        self.end_compiler();
        if self.parser.had_error {
            Err(self.diagnostics[0].error)
        } else {
            Ok(())
        }
    }

    /// Parses a whole expression.
    fn expression(&mut self) -> (result: Result<(), InterpreterError>)
        requires
            old(self).well_formed(),
        ensures
            final(self).well_formed(),
            final(self)@ == old(self)@.expression(),
            final(self)@.remaining() <= old(self)@.remaining(),
            result is Ok,
            old(self)@.chunk.well_formed() ==> final(self)@.chunk.well_formed(),
            *final(final(self).chunk) == *final(old(self).chunk),
        decreases old(self)@.remaining(), 3nat, 1nat,
    {
        self.parser_precedence(Precendence::Assignment);
        Ok(())
    }

    /// Shifts the window by one token and returns the new current token:
    /// see [`CompilerView::advance`].
    fn advance(&mut self) -> (token: TokenError)
        requires
            old(self).well_formed(),
        ensures
            final(self).well_formed(),
            final(self)@ == old(self)@.advance(),
            final(self)@.remaining() <= old(self)@.remaining(),
            token matches Ok(current) && current@ == final(self)@.parser.current,
            old(self)@.chunk.well_formed() ==> final(self)@.chunk.well_formed(),
            *final(final(self).chunk) == *final(old(self).chunk),
    {
        proof {
            lemma_advance(self@);
        }
        self.parser.previous = self.parser.current.clone();
        let ghost shifted = self@;
        loop
            invariant_except_break
                self@.next_token() == shifted.next_token(),
            invariant
                self.well_formed(),
                self@.chunk == old(self)@.chunk,
                *final(self.chunk) == *final(old(self).chunk),
            ensures
                self.well_formed(),
                self@ == shifted.next_token(),
                *final(self.chunk) == *final(old(self).chunk),
            decreases self@.rest.len(),
        {
            proof {
                self.scanner.lemma_well_formed();
                let scanner = self.scanner@;
                lemma_scan_progress(scanner.source, scanner.current as int, scanner.line);
                if scanner.step().token.token_type is Eof {
                    lemma_scan_at_end(scanner.source, scanner.current as int, scanner.line);
                }
            }
            let ghost before = self@;
            self.parser.current = self.scanner.scan_token();
            let message = match self.parser.current.token_type() {
                TokenType::Error(message) => Some(message.clone()),
                _ => None,
            };
            match message {
                Some(message) => {
                    assert(self@.rest =~= before.rest.drop_first());
                    self.error_at_current(message.as_str());
                },
                None => {
                    assert(before.rest.len() > 0 ==> self@.rest =~= before.rest.drop_first());
                    break ;
                },
            }
        }
        Ok(self.parser.current.clone())
    }

    /// Takes the current token if it is of the kind `token_type`, and
    /// issues a diagnostic with `message` if it is not.
    fn consume(&mut self, token_type: TokenType, message: &str)
        requires
            old(self).well_formed(),
        ensures
            final(self).well_formed(),
            final(self)@ == old(self)@.consume(token_type@, message@),
            final(self)@.remaining() <= old(self)@.remaining(),
            old(self)@.chunk.well_formed() ==> final(self)@.chunk.well_formed(),
            *final(final(self).chunk) == *final(old(self).chunk),
    {
        if *self.parser.current.token_type() == token_type {
            let taken = self.advance();
            return ;
        }
        self.error_at_current(message);
    }

    /// Appends `byte` with the line of the token taken last.
    fn emit_byte(&mut self, byte: OpCode)
        requires
            old(self).well_formed(),
        ensures
            final(self).well_formed(),
            final(self)@ == old(self)@.emit_byte(byte),
            old(self)@.chunk.well_formed() && old(self)@.chunk.admits(byte)
                ==> final(self)@.chunk.well_formed(),
            *final(final(self).chunk) == *final(old(self).chunk),
    {
        self.chunk.write_chunk(byte, self.parser.previous.line());
    }

    /// Appends the instruction that ends the code.
    fn emit_return(&mut self)
        requires
            old(self).well_formed(),
        ensures
            final(self).well_formed(),
            final(self)@ == old(self)@.emit_byte(OpCode::OpReturn),
            old(self)@.chunk.well_formed() ==> final(self)@.chunk.well_formed(),
            *final(final(self).chunk) == *final(old(self).chunk),
    {
        self.emit_byte(OpCode::OpReturn);
    }

    /// Appends `value` to the constant pool, and the instruction that
    /// pushes it with the line of the token taken last.
    fn emit_constant(&mut self, value: Value)
        requires
            old(self).well_formed(),
        ensures
            final(self).well_formed(),
            final(self)@ == old(self)@.emit_constant(value@),
            old(self)@.chunk.well_formed() ==> final(self)@.chunk.well_formed(),
            *final(final(self).chunk) == *final(old(self).chunk),
    {
        self.chunk.write_constant(value, self.parser.previous.line());
    }

    /// Ends the code.
    fn end_compiler(&mut self)
        requires
            old(self).well_formed(),
        ensures
            final(self).well_formed(),
            final(self)@ == old(self)@.emit_byte(OpCode::OpReturn),
            old(self)@.chunk.well_formed() ==> final(self)@.chunk.well_formed(),
            *final(final(self).chunk) == *final(old(self).chunk),
    {
        self.emit_return();
    }

    /// Parses an expression whose operators bind at least as tightly as
    /// `precedence`: see [`CompilerView::parse_precedence`].
    fn parser_precedence(&mut self, precedence: Precendence)
        requires
            old(self).well_formed(),
            precedence != Precendence::Lowest,
        ensures
            final(self).well_formed(),
            final(self)@ == old(self)@.parse_precedence(precedence),
            final(self)@.remaining() <= old(self)@.remaining(),
            old(self)@.chunk.well_formed() ==> final(self)@.chunk.well_formed(),
            *final(final(self).chunk) == *final(old(self).chunk),
        decreases old(self)@.remaining(), 3nat, 0nat,
    {
        let taken = self.advance();
        proof {
            lemma_advance(old(self)@);
        }
        let prefix_rule = get_rule(self.parser.previous.token_type().clone()).prefix;
        if let Some(prefix_rule) = prefix_rule {
            let ghost after_advance = self@;
            let parsed = prefix_rule.call(self);
            let ghost operand = self@;
            while precedence <= get_rule(self.parser.current.token_type().clone()).precedence
                invariant
                    self.well_formed(),
                    precedence != Precendence::Lowest,
                    old(self)@.chunk.well_formed() ==> self@.chunk.well_formed(),
                    self@.remaining() < old(self)@.remaining(),
                    self@.infix_loop(precedence) == operand.infix_loop(precedence),
                    *final(self.chunk) == *final(old(self).chunk),
                decreases self@.remaining(),
            {
                let ghost before = self@;
                let taken = self.advance();
                proof {
                    lemma_advance(before);
                }
                let infix_rule = get_rule(self.parser.previous.token_type().clone()).infix.unwrap();
                let parsed = infix_rule.call(self);
            }
        } else {
            self.error("Expect expression")
        }
    }

    /// Issues a diagnostic about `token`, unless one has been issued before.
    fn error_at(&mut self, token: Token, message: &str)
        requires
            old(self).well_formed(),
        ensures
            final(self).well_formed(),
            final(self)@ == old(self)@.error_at(token@, message@),
            old(self)@.chunk.well_formed() ==> final(self)@.chunk.well_formed(),
            *final(final(self).chunk) == *final(old(self).chunk),
    {
        if self.parser.panic_mode {
            return ;
        }
        self.parser.panic_mode = true;
        self.parser.had_error = true;
        self.diagnostics.push(
            Diagnostic {
                error: InterpreterError::CompileError(token.line()),
                message: message.to_owned(),
                token: token.token_type().clone(),
            },
        );
        assert(self@.diagnostics =~= old(self)@.error_at(token@, message@).diagnostics);
    }

    /// Issues a diagnostic about the token taken last.
    fn error(&mut self, message: &str)
        requires
            old(self).well_formed(),
        ensures
            final(self).well_formed(),
            final(self)@ == old(self)@.error(message@),
            old(self)@.chunk.well_formed() ==> final(self)@.chunk.well_formed(),
            *final(final(self).chunk) == *final(old(self).chunk),
    {
        self.error_at(self.parser.previous.clone(), message);
    }

    /// Issues a diagnostic about the token that the parser looks at.
    fn error_at_current(&mut self, message: &str)
        requires
            old(self).well_formed(),
        ensures
            final(self).well_formed(),
            final(self)@ == old(self)@.error_at_current(message@),
            old(self)@.chunk.well_formed() ==> final(self)@.chunk.well_formed(),
            *final(final(self).chunk) == *final(old(self).chunk),
    {
        self.error_at(self.parser.current.clone(), message);
    }
}

} // verus!
