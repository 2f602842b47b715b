//! The grammar of the language as expression trees, and the proofs that
//! the compiler parses exactly this grammar: it reads every expression as
//! its tree ([`lemma_parse_expression`]), and what it reads without a
//! diagnostic is an expression ([`lemma_read_expression`]).

use crate::chunk::{ChunkView, OpCode};
use crate::compiler::parse_rule::{rule_of, ParseFn};
use crate::compiler::tokenizer::{Precendence, TokenTypeView, TokenView};
use crate::compiler::{
    lemma_advance, lemma_next_token_extends, lemma_parser_moves_forward, lemma_steps_extend,
    CompilerView, ParserView,
};
use crate::value::ValueView;
use vstd::prelude::*;

verus! {

/// The four infix operators.
pub enum Operator {
    Add,
    Subtract,
    Multiply,
    Divide,
}

impl Operator {
    /// The token that writes the operator.
    pub open spec fn token(self) -> TokenTypeView {
        match self {
            Operator::Add => TokenTypeView::Plus,
            Operator::Subtract => TokenTypeView::Minus,
            Operator::Multiply => TokenTypeView::Star,
            Operator::Divide => TokenTypeView::Slash,
        }
    }

    /// The instruction that carries the operator out.
    pub open spec fn instruction(self) -> OpCode {
        match self {
            Operator::Add => OpCode::OpAdd,
            Operator::Subtract => OpCode::OpSubtract,
            Operator::Multiply => OpCode::OpMultiply,
            Operator::Divide => OpCode::OpDivide,
        }
    }

    /// How strongly the operator binds.
    pub open spec fn precedence(self) -> Precendence {
        match self {
            Operator::Add | Operator::Subtract => Precendence::Term,
            Operator::Multiply | Operator::Divide => Precendence::Factor,
        }
    }
}

/// An expression of the language as a tree. Each node holds the lines of
/// the tokens that belong to it alone.
pub enum Expr {
    /// A number literal.
    Number { value: ValueView, line: usize },
    /// An expression between parentheses.
    Grouping { open: usize, inner: Box<Expr>, close: usize },
    /// A minus sign before its operand.
    Negate { line: usize, operand: Box<Expr> },
    /// An infix operator between its operands.
    Binary { left: Box<Expr>, operator: Operator, line: usize, right: Box<Expr> },
}

impl Expr {
    /// The tokens that write the expression.
    pub open spec fn tokens(self) -> Seq<TokenView>
        decreases self,
    {
        match self {
            Expr::Number { value, line } => seq![
                TokenView { token_type: TokenTypeView::Number(value), line },
            ],
            Expr::Grouping { open, inner, close } => seq![
                TokenView { token_type: TokenTypeView::LeftParen, line: open },
            ] + inner.tokens() + seq![
                TokenView { token_type: TokenTypeView::RightParen, line: close },
            ],
            Expr::Negate { line, operand } => seq![
                TokenView { token_type: TokenTypeView::Minus, line },
            ] + operand.tokens(),
            Expr::Binary { left, operator, line, right } => left.tokens() + seq![
                TokenView { token_type: operator.token(), line },
            ] + right.tokens(),
        }
    }

    /// The last of the tokens that write the expression.
    pub open spec fn last_token(self) -> TokenView
        decreases self,
    {
        match self {
            Expr::Number { value, line } => TokenView {
                token_type: TokenTypeView::Number(value),
                line,
            },
            Expr::Grouping { open, inner, close } => TokenView {
                token_type: TokenTypeView::RightParen,
                line: close,
            },
            Expr::Negate { line, operand } => operand.last_token(),
            Expr::Binary { left, operator, line, right } => right.last_token(),
        }
    }

    /// The chunk with the code of the expression at its end: the code of
    /// the operands in the order of the source, and then the instruction
    /// of the operator. A number is a constant of its own; parentheses
    /// leave no trace. Each instruction has the line of the token that was
    /// the last when it was written.
    pub open spec fn emit(self, chunk: ChunkView) -> ChunkView
        decreases self,
    {
        match self {
            Expr::Number { value, line } => chunk.write_constant(value, line),
            Expr::Grouping { open, inner, close } => inner.emit(chunk),
            Expr::Negate { line, operand } => operand.emit(chunk).write(
                OpCode::OpNegate,
                operand.last_token().line,
            ),
            Expr::Binary { left, operator, line, right } => right.emit(left.emit(chunk)).write(
                operator.instruction(),
                right.last_token().line,
            ),
        }
    }

    /// Whether the tree is the reading of its tokens at the level
    /// `precedence`: no operator in it binds less tightly than its place
    /// allows. The operand of a minus sign holds no bare infix operator,
    /// the left operand of an infix operator none that binds less tightly
    /// than the operator, and the right operand none that binds less
    /// tightly or equally.
    pub open spec fn fits(self, precedence: Precendence) -> bool
        decreases self,
    {
        match self {
            Expr::Number { value, line } => true,
            Expr::Grouping { open, inner, close } => inner.fits(Precendence::Assignment),
            Expr::Negate { line, operand } => operand.fits(Precendence::Unary),
            Expr::Binary { left, operator, line, right } => {
                &&& precedence.rank() <= operator.precedence().rank()
                &&& left.fits(operator.precedence())
                &&& right.fits(operator.precedence().successor())
            },
        }
    }

    /// Whether the expression ends before a token of the kind `stop`: the
    /// token is no infix operator that binds more tightly than the
    /// operator at the top of the tree, and so does not belong to the
    /// right operand.
    pub open spec fn closes_before(self, stop: TokenTypeView) -> bool {
        match self {
            Expr::Binary { left, operator, line, right } => rule_of(stop).precedence.rank()
                <= operator.precedence().rank(),
            _ => true,
        }
    }

    /// Whether the tokens of the expression lie ahead of the compiler in
    /// `state`, the first of them as its current token, with the tokens
    /// `follow` behind them, and the first of these is no error.
    pub open spec fn lies_ahead(self, state: CompilerView, follow: Seq<TokenView>) -> bool {
        &&& state.parser.current == self.tokens()[0]
        &&& state.rest == self.tokens().drop_first() + follow
        &&& !(first_of(follow, state.end_line).token_type is Error)
    }

    /// Whether parsing at the level `precedence` from `state` has read
    /// exactly this expression, with the tokens `follow` behind it: the
    /// tree fits the level, its tokens lay ahead, the state after parsing
    /// is the one after this expression, and the token that follows does
    /// not bind tightly enough to go on.
    pub open spec fn is_read(
        self,
        state: CompilerView,
        follow: Seq<TokenView>,
        precedence: Precendence,
    ) -> bool {
        &&& self.fits(precedence)
        &&& self.lies_ahead(state, follow)
        &&& state.parse_precedence(precedence) == self.parsed(state, follow)
        &&& rule_of(first_of(follow, state.end_line).token_type).precedence.rank()
            < precedence.rank()
    }

    /// The state of the compiler once it has parsed the expression from
    /// `state`, where the tokens `follow` come behind the expression.
    pub open spec fn parsed(self, state: CompilerView, follow: Seq<TokenView>) -> CompilerView {
        CompilerView {
            rest: if follow.len() > 0 {
                follow.drop_first()
            } else {
                follow
            },
            parser: ParserView {
                previous: self.last_token(),
                current: first_of(follow, state.end_line),
                ..state.parser
            },
            chunk: self.emit(state.chunk),
            ..state
        }
    }
}

/// The first token of `follow`, and `Eof` on the line `end_line` where
/// `follow` is empty.
pub open spec fn first_of(follow: Seq<TokenView>, end_line: usize) -> TokenView {
    if follow.len() > 0 {
        follow[0]
    } else {
        TokenView { token_type: TokenTypeView::Eof, line: end_line }
    }
}

/// An expression has a first token, with which an expression can start,
/// and no operator in it binds as tightly as a minus sign before its
/// operand.
pub proof fn lemma_first_token(expression: Expr)
    ensures
        expression.tokens().len() > 0,
        rule_of(expression.tokens()[0].token_type).prefix is Some,
        !(expression.tokens()[0].token_type is Error),
        expression.fits(Precendence::Unary) ==> !(expression is Binary),
    decreases expression,
{
    match expression {
        Expr::Binary { left, operator, line, right } => {
            lemma_first_token(*left);
        },
        _ => {},
    }
}

/// A tree that fits a level fits every looser level too.
pub proof fn lemma_fits_looser(expression: Expr, tighter: Precendence, looser: Precendence)
    requires
        expression.fits(tighter),
        looser.rank() <= tighter.rank(),
    ensures
        expression.fits(looser),
{
}

/// A tree that fits a level ends before every token that binds no more
/// tightly than that level.
pub proof fn lemma_fits_closes(expression: Expr, precedence: Precendence, stop: TokenTypeView)
    requires
        expression.fits(precedence),
        rule_of(stop).precedence.rank() <= precedence.rank(),
    ensures
        expression.closes_before(stop),
{
}

impl CompilerView {
    /// The state after the window has shifted by one token that is
    /// no error: see [`lemma_advance_plain`].
    pub open spec fn shifted(self) -> CompilerView {
        CompilerView {
            rest: if self.rest.len() > 0 {
                self.rest.drop_first()
            } else {
                self.rest
            },
            parser: ParserView {
                previous: self.parser.current,
                current: first_of(self.rest, self.end_line),
                ..self.parser
            },
            ..self
        }
    }
}

/// Shifting the window where the next token is no error: the current
/// token becomes the previous one, and the next token the current one.
pub proof fn lemma_advance_plain(state: CompilerView)
    requires
        !(first_of(state.rest, state.end_line).token_type is Error),
    ensures
        state.advance() == state.shifted(),
{
}

/// One step of parsing: where an expression can start with the current
/// token, the parser takes the token, runs its parsing function, and goes
/// on with the infix operators that follow.
pub proof fn lemma_parse_prefix(state: CompilerView, precedence: Precendence, handler: ParseFn)
    requires
        !(first_of(state.rest, state.end_line).token_type is Error),
        rule_of(state.parser.current.token_type).prefix == Some(handler),
    ensures
        state.parse_precedence(precedence) == state.shifted().apply(handler).infix_loop(
            precedence,
        ),
{
    lemma_advance_plain(state);
    lemma_parser_moves_forward(state.shifted(), precedence);
}

/// One turn of the loop over the infix operators: where the current token
/// is an operator that binds tightly enough, the parser takes it, parses
/// its right operand, and goes on with the operators that follow.
pub proof fn lemma_parse_infix(state: CompilerView, precedence: Precendence)
    requires
        !(first_of(state.rest, state.end_line).token_type is Error),
        rule_of(state.parser.current.token_type).infix is Some,
        precedence.rank() <= rule_of(state.parser.current.token_type).precedence.rank(),
    ensures
        state.infix_loop(precedence) == state.shifted().binary().infix_loop(precedence),
{
    lemma_advance_plain(state);
    lemma_parser_moves_forward(state.shifted(), precedence);
    assert(state.shifted().apply(ParseFn::Binary) == state.shifted().binary());
}

/// The loop over the infix operators ends at a token that does not bind
/// tightly enough.
pub proof fn lemma_infix_loop_ends(state: CompilerView, precedence: Precendence)
    requires
        rule_of(state.parser.current.token_type).precedence.rank() < precedence.rank(),
    ensures
        state.infix_loop(precedence) == state,
{
}

/// No token binds as tightly as `Unary`: the infix operators that follow
/// the operand of a minus sign are not its own.
pub proof fn lemma_infix_loop_at_unary(state: CompilerView)
    ensures
        state.infix_loop(Precendence::Unary) == state,
{
}

proof fn lemma_parse_number(
    expression: Expr,
    state: CompilerView,
    follow: Seq<TokenView>,
    precedence: Precendence,
)
    requires
        expression is Number,
        expression.lies_ahead(state, follow),
    ensures
        state.parse_precedence(precedence) == expression.parsed(state, follow).infix_loop(
            precedence,
        ),
{
    assert(state.rest =~= follow);
    lemma_parse_prefix(state, precedence, ParseFn::Number);
    assert(state.shifted().apply(ParseFn::Number) == expression.parsed(state, follow));
}

proof fn lemma_parse_grouping(
    expression: Expr,
    state: CompilerView,
    follow: Seq<TokenView>,
    precedence: Precendence,
)
    requires
        expression matches Expr::Grouping { open, inner, close } && ({
            let behind = seq![TokenView { token_type: TokenTypeView::RightParen, line: close }]
                + follow;
            state.shifted().parse_precedence(Precendence::Assignment) == inner.parsed(
                state.shifted(),
                behind,
            ).infix_loop(Precendence::Assignment)
        }),
        expression.lies_ahead(state, follow),
    ensures
        state.parse_precedence(precedence) == expression.parsed(state, follow).infix_loop(
            precedence,
        ),
{
    match expression {
        Expr::Grouping { open, inner, close } => {
            let right_paren = TokenView { token_type: TokenTypeView::RightParen, line: close };
            let behind = seq![right_paren] + follow;
            lemma_first_token(*inner);
            assert(state.rest =~= inner.tokens() + behind);
            lemma_parse_prefix(state, precedence, ParseFn::Grouping);
            let taken = state.shifted();
            let inside = inner.parsed(taken, behind);
            lemma_infix_loop_ends(inside, Precendence::Assignment);
            assert(inside.rest =~= follow);
            lemma_advance_plain(inside);
            assert(taken.grouping() == inside.shifted());
            assert(inside.shifted() == expression.parsed(state, follow));
        },
        _ => {},
    }
}

proof fn lemma_parse_negate(
    expression: Expr,
    state: CompilerView,
    follow: Seq<TokenView>,
    precedence: Precendence,
)
    requires
        expression matches Expr::Negate { line, operand } && state.shifted().parse_precedence(
            Precendence::Unary,
        ) == operand.parsed(state.shifted(), follow).infix_loop(Precendence::Unary),
        expression.lies_ahead(state, follow),
    ensures
        state.parse_precedence(precedence) == expression.parsed(state, follow).infix_loop(
            precedence,
        ),
{
    match expression {
        Expr::Negate { line, operand } => {
            lemma_first_token(*operand);
            assert(state.rest =~= operand.tokens() + follow);
            lemma_parse_prefix(state, precedence, ParseFn::Unary);
            let taken = state.shifted();
            let inside = operand.parsed(taken, follow);
            lemma_infix_loop_at_unary(inside);
            assert(taken.unary() == inside.emit_byte(OpCode::OpNegate));
            assert(inside.emit_byte(OpCode::OpNegate) == expression.parsed(state, follow));
        },
        _ => {},
    }
}

proof fn lemma_parse_binary(
    expression: Expr,
    state: CompilerView,
    follow: Seq<TokenView>,
    precedence: Precendence,
)
    requires
        expression matches Expr::Binary { left, operator, line, right } && ({
            let behind = seq![TokenView { token_type: operator.token(), line }] + right.tokens()
                + follow;
            let before = left.parsed(state, behind);
            &&& precedence.rank() <= operator.precedence().rank()
            &&& rule_of(first_of(follow, state.end_line).token_type).precedence.rank()
                <= operator.precedence().rank()
            &&& state.parse_precedence(precedence) == before.infix_loop(precedence)
            &&& before.shifted().parse_precedence(operator.precedence().successor())
                == right.parsed(before.shifted(), follow).infix_loop(
                operator.precedence().successor(),
            )
        }),
        !(first_of(follow, state.end_line).token_type is Error),
    ensures
        state.parse_precedence(precedence) == expression.parsed(state, follow).infix_loop(
            precedence,
        ),
{
    match expression {
        Expr::Binary { left, operator, line, right } => {
            let sign = TokenView { token_type: operator.token(), line };
            let behind = seq![sign] + right.tokens() + follow;
            let before = left.parsed(state, behind);
            let level = operator.precedence().successor();
            lemma_first_token(*right);
            assert(before.parser.current == sign);
            assert(before.rest =~= right.tokens() + follow);
            lemma_parse_infix(before, precedence);
            let at_right = before.shifted();
            let inside = right.parsed(at_right, follow);
            lemma_infix_loop_ends(inside, level);
            assert(at_right.parser.previous == sign);
            assert(at_right.binary() == inside.emit_byte(operator.instruction()));
            assert(inside.emit_byte(operator.instruction()) == expression.parsed(state, follow));
        },
        _ => {},
    }
}

/// The compiler parses an expression as the grammar reads it.
///
/// Let the tokens of `expression` lie ahead of the compiler, the first of
/// them as its current token, with the tokens `follow` behind them. If
/// the tree fits the level `precedence` and ends before the token that
/// follows it, then parsing at that level takes exactly the tokens of the
/// expression, writes exactly its code, issues no diagnostic, and goes on
/// with the infix operators that follow the expression.
pub proof fn lemma_parse_expression(
    expression: Expr,
    state: CompilerView,
    follow: Seq<TokenView>,
    precedence: Precendence,
)
    requires
        precedence != Precendence::Lowest,
        expression.fits(precedence),
        expression.closes_before(first_of(follow, state.end_line).token_type),
        expression.lies_ahead(state, follow),
    ensures
        state.parse_precedence(precedence) == expression.parsed(state, follow).infix_loop(
            precedence,
        ),
    decreases expression,
{
    lemma_first_token(expression);
    match expression {
        Expr::Number { value, line } => {
            lemma_parse_number(expression, state, follow, precedence);
        },
        Expr::Grouping { open, inner, close } => {
            let right_paren = TokenView { token_type: TokenTypeView::RightParen, line: close };
            let behind = seq![right_paren] + follow;
            lemma_first_token(*inner);
            assert(state.rest =~= inner.tokens() + behind);
            assert(state.shifted().rest =~= inner.tokens().drop_first() + behind);
            lemma_parse_expression(*inner, state.shifted(), behind, Precendence::Assignment);
            lemma_parse_grouping(expression, state, follow, precedence);
        },
        Expr::Negate { line, operand } => {
            lemma_first_token(*operand);
            assert(state.rest =~= operand.tokens() + follow);
            assert(state.shifted().rest =~= operand.tokens().drop_first() + follow);
            lemma_parse_expression(*operand, state.shifted(), follow, Precendence::Unary);
            lemma_parse_negate(expression, state, follow, precedence);
        },
        Expr::Binary { left, operator, line, right } => {
            let sign = TokenView { token_type: operator.token(), line };
            let behind = seq![sign] + right.tokens() + follow;
            lemma_first_token(*left);
            lemma_first_token(*right);
            assert(expression.tokens()[0] == left.tokens()[0]);
            assert(state.rest =~= left.tokens().drop_first() + behind);
            lemma_fits_looser(*left, operator.precedence(), precedence);
            assert(first_of(behind, state.end_line) == sign);
            lemma_fits_closes(*left, operator.precedence(), sign.token_type);
            lemma_parse_expression(*left, state, behind, precedence);
            let before = left.parsed(state, behind);
            assert(before.rest =~= right.tokens() + follow);
            assert(before.shifted().rest =~= right.tokens().drop_first() + follow);
            lemma_fits_closes(
                *right,
                operator.precedence().successor(),
                first_of(follow, state.end_line).token_type,
            );
            lemma_parse_expression(
                *right,
                before.shifted(),
                follow,
                operator.precedence().successor(),
            );
            lemma_parse_binary(expression, state, follow, precedence);
        },
    }
}

/// A token stream that spells an expression compiles, without a
/// diagnostic, into the code of the expression and the `OpReturn` behind
/// it, which has the line of the end of the input.
pub proof fn lemma_compile_expression(expression: Expr, state: CompilerView)
    requires
        expression.fits(Precendence::Assignment),
        state.rest == expression.tokens(),
    ensures
        state.compile().chunk == expression.emit(state.chunk).write(
            OpCode::OpReturn,
            state.end_line,
        ),
        state.compile().diagnostics == state.diagnostics,
        state.compile().parser.had_error == state.parser.had_error,
        state.compile().parser.panic_mode == state.parser.panic_mode,
{
    lemma_first_token(expression);
    lemma_advance_plain(state);
    let first = state.advance();
    let none = Seq::<TokenView>::empty();
    assert(first.rest =~= expression.tokens().drop_first() + none);
    lemma_parse_expression(expression, first, none, Precendence::Assignment);
    let parsed = expression.parsed(first, none);
    assert(parsed.infix_loop(Precendence::Assignment) == parsed);
    lemma_advance_plain(parsed);
}

/// Where a shift of the window raises no error flag, the token that it
/// takes is no error: a compiler that is not held back reports every error
/// token that it meets.
pub proof fn lemma_shift_without_error(state: CompilerView)
    requires
        state.consistent(),
        !state.advance().parser.had_error,
    ensures
        !(first_of(state.rest, state.end_line).token_type is Error),
        state.advance() == state.shifted(),
        state.shifted().consistent(),
        !state.parser.had_error,
        !state.parser.panic_mode,
{
    let none = Seq::<char>::empty();
    lemma_steps_extend(state, none, state.parser.current);
    let turned = CompilerView {
        parser: ParserView { previous: state.parser.current, ..state.parser },
        ..state
    };
    if state.rest.len() > 0 {
        let token = state.rest[0];
        let taken = CompilerView {
            rest: turned.rest.drop_first(),
            parser: ParserView { current: token, ..turned.parser },
            ..turned
        };
        match token.token_type {
            TokenTypeView::Error(message) => {
                lemma_next_token_extends(taken.error_at_current(message));
            },
            _ => {},
        }
    }
}

/// What does not end with an error did not start with one.
pub proof fn lemma_error_free(earlier: CompilerView, later: CompilerView)
    requires
        later.extends(earlier),
        earlier.consistent(),
        !later.parser.had_error,
    ensures
        !earlier.parser.had_error,
        !earlier.parser.panic_mode,
        later.consistent(),
        !later.parser.panic_mode,
{
}

/// The operator that a token writes between two operands; `Add` for a
/// token that writes none.
pub open spec fn operator_of(token: TokenTypeView) -> Operator {
    match token {
        TokenTypeView::Minus => Operator::Subtract,
        TokenTypeView::Star => Operator::Multiply,
        TokenTypeView::Slash => Operator::Divide,
        _ => Operator::Add,
    }
}

/// A tree that fits a level and ends before an operator fits the level of
/// that operator: it can be its left operand.
pub proof fn lemma_fits_left(expression: Expr, precedence: Precendence, operator: Operator)
    requires
        expression.fits(precedence),
        expression.closes_before(operator.token()),
    ensures
        expression.fits(operator.precedence()),
{
}

/// The step of [`lemma_read_infix`]: an operand that has been read, an
/// operator behind it and a right operand that has been read behind the
/// operator are one expression that has been read.
proof fn lemma_read_binary(
    origin: CompilerView,
    left: Expr,
    behind: Seq<TokenView>,
    right: Expr,
    follow: Seq<TokenView>,
    precedence: Precendence,
) -> (whole: Expr)
    requires
        precedence != Precendence::Lowest,
        left.lies_ahead(origin, behind),
        left.fits(precedence),
        left.closes_before(first_of(behind, origin.end_line).token_type),
        precedence.rank() <= rule_of(
            first_of(behind, origin.end_line).token_type,
        ).precedence.rank(),
        right.is_read(
            left.parsed(origin, behind).shifted(),
            follow,
            rule_of(first_of(behind, origin.end_line).token_type).precedence.successor(),
        ),
    ensures
        whole.fits(precedence),
        whole.lies_ahead(origin, follow),
        whole.closes_before(first_of(follow, origin.end_line).token_type),
        left.parsed(origin, behind).shifted().binary() == whole.parsed(origin, follow),
{
    let sign = first_of(behind, origin.end_line);
    let operator = operator_of(sign.token_type);
    let whole = Expr::Binary {
        left: Box::new(left),
        operator,
        line: sign.line,
        right: Box::new(right),
    };
    let before = left.parsed(origin, behind);
    let at_right = before.shifted();
    assert(operator.token() == sign.token_type);
    assert(rule_of(sign.token_type).precedence == operator.precedence());
    assert(behind.len() > 0);
    lemma_first_token(left);
    lemma_first_token(right);
    lemma_fits_left(left, precedence, operator);
    assert(before.rest == behind.drop_first());
    assert(at_right.parser.current == right.tokens()[0]);
    assert(before.rest.len() > 0);
    assert(at_right.rest == before.rest.drop_first());
    assert(before.rest =~= seq![before.rest[0]] + before.rest.drop_first());
    assert(right.tokens() =~= seq![right.tokens()[0]] + right.tokens().drop_first());
    assert(before.rest =~= right.tokens() + follow);
    assert(behind =~= seq![sign] + behind.drop_first());
    assert(behind =~= seq![sign] + right.tokens() + follow);
    assert(whole.tokens()[0] == left.tokens()[0]);
    assert(whole.tokens().drop_first() + follow =~= left.tokens().drop_first() + behind);
    assert(at_right.binary() == right.parsed(at_right, follow).emit_byte(operator.instruction()));
    whole
}

/// The loop over the infix operators reads an expression.
///
/// Let the compiler have read `left` from `origin`, with the tokens
/// `behind` behind it. If the loop at the level `precedence` ends without
/// an error, then what it has parsed, together with `left`, is one
/// expression that the compiler has read from `origin`.
proof fn lemma_read_infix(
    origin: CompilerView,
    left: Expr,
    behind: Seq<TokenView>,
    precedence: Precendence,
) -> (found: (Expr, Seq<TokenView>))
    requires
        precedence != Precendence::Lowest,
        left.lies_ahead(origin, behind),
        left.fits(precedence),
        left.closes_before(first_of(behind, origin.end_line).token_type),
        left.parsed(origin, behind).consistent(),
        !left.parsed(origin, behind).infix_loop(precedence).parser.had_error,
    ensures
        found.0.fits(precedence),
        found.0.lies_ahead(origin, found.1),
        left.parsed(origin, behind).infix_loop(precedence) == found.0.parsed(origin, found.1),
        rule_of(first_of(found.1, origin.end_line).token_type).precedence.rank()
            < precedence.rank(),
    decreases left.parsed(origin, behind).remaining(), 1nat,
{
    let before = left.parsed(origin, behind);
    let sign = before.parser.current;
    if precedence.rank() <= rule_of(sign.token_type).precedence.rank() {
        let level = rule_of(sign.token_type).precedence.successor();
        let taken = before.advance();
        lemma_advance(before);
        lemma_parser_moves_forward(taken, precedence);
        lemma_parser_moves_forward(taken, level);
        let combined = taken.apply(ParseFn::Binary);
        lemma_parser_moves_forward(combined, precedence);
        let result = combined.infix_loop(precedence);
        assert(before.infix_loop(precedence) == result);
        let none = Seq::<char>::empty();
        lemma_steps_extend(before, none, sign);
        lemma_error_free(combined, result);
        lemma_error_free(taken, combined);
        lemma_shift_without_error(before);
        assert(taken == before.shifted());
        let operand = taken.parse_precedence(level);
        assert(combined.parser.had_error == operand.parser.had_error);
        let (right, follow) = lemma_read_expression(taken, level);
        let whole = lemma_read_binary(origin, left, behind, right, follow, precedence);
        assert(whole.parsed(origin, follow) == combined);
        lemma_read_infix(origin, whole, follow, precedence)
    } else {
        (left, behind)
    }
}

/// The start of an expression reads an expression.
///
/// If the parsing function of the current token ends without an error,
/// then the compiler has read an expression that is no bare infix
/// operation: a number, a group, or a minus sign and its operand.
proof fn lemma_read_prefix(state: CompilerView, handler: ParseFn) -> (found: (
    Expr,
    Seq<TokenView>,
))
    requires
        state.consistent(),
        !state.parser.had_error,
        state.advance() == state.shifted(),
        !(first_of(state.rest, state.end_line).token_type is Error),
        rule_of(state.parser.current.token_type).prefix == Some(handler),
        !state.shifted().apply(handler).parser.had_error,
    ensures
        !(found.0 is Binary),
        found.0.fits(Precendence::Primary),
        found.0.lies_ahead(state, found.1),
        state.shifted().apply(handler) == found.0.parsed(state, found.1),
    decreases state.remaining(), 2nat,
{
    let taken = state.shifted();
    let first = state.parser.current;
    lemma_advance(state);
    let none = Seq::<char>::empty();
    lemma_steps_extend(state, none, first);
    match first.token_type {
        TokenTypeView::Number(value) => {
            let number = Expr::Number { value, line: first.line };
            assert(number.tokens().drop_first() + state.rest =~= state.rest);
            (number, state.rest)
        },
        TokenTypeView::LeftParen => {
            let message = "Expect ')' after expression."@;
            let inside = taken.parse_precedence(Precendence::Assignment);
            lemma_parser_moves_forward(taken, Precendence::Assignment);
            lemma_steps_extend(inside, message, first);
            let closed = inside.consume(TokenTypeView::RightParen, message);
            assert(taken.apply(handler) == closed);
            lemma_error_free(inside, closed);
            lemma_error_free(taken, inside);
            let (inner, behind) = lemma_read_expression(taken, Precendence::Assignment);
            assert(inside.parser.current.token_type is RightParen);
            lemma_shift_without_error(inside);
            let close = inside.parser.current;
            let group = Expr::Grouping {
                open: first.line,
                inner: Box::new(inner),
                close: close.line,
            };
            let follow = behind.drop_first();
            lemma_first_token(inner);
            assert(behind =~= seq![close] + follow);
            assert(state.rest =~= seq![inner.tokens()[0]] + taken.rest);
            assert(inner.tokens() =~= seq![inner.tokens()[0]] + inner.tokens().drop_first());
            assert(group.tokens().drop_first() + follow =~= state.rest);
            assert(closed == group.parsed(state, follow));
            (group, follow)
        },
        _ => {
            assert(first.token_type is Minus);
            let operand = taken.parse_precedence(Precendence::Unary);
            lemma_parser_moves_forward(taken, Precendence::Unary);
            assert(taken.apply(handler) == operand.emit_byte(OpCode::OpNegate));
            lemma_error_free(taken, operand);
            let (inner, follow) = lemma_read_expression(taken, Precendence::Unary);
            let negated = Expr::Negate { line: first.line, operand: Box::new(inner) };
            lemma_first_token(inner);
            assert(state.rest =~= seq![inner.tokens()[0]] + taken.rest);
            assert(inner.tokens() =~= seq![inner.tokens()[0]] + inner.tokens().drop_first());
            assert(negated.tokens().drop_first() + follow =~= state.rest);
            assert(taken.apply(handler) == negated.parsed(state, follow));
            (negated, follow)
        },
    }
}

/// What the compiler parses without an error is an expression.
///
/// If parsing at the level `precedence` ends without an error, then the
/// compiler has read an expression: the tokens that it has taken are
/// those of a tree that fits the level, the code that it has written is
/// the code of that tree, and the token at which it has stopped does not
/// bind tightly enough to go on. The result is the tree and the tokens
/// behind it.
pub proof fn lemma_read_expression(state: CompilerView, precedence: Precendence) -> (found: (
    Expr,
    Seq<TokenView>,
))
    requires
        precedence != Precendence::Lowest,
        state.consistent(),
        !state.parse_precedence(precedence).parser.had_error,
    ensures
        found.0.is_read(state, found.1, precedence),
    decreases state.remaining(), 3nat,
{
    let taken = state.advance();
    let message = "Expect expression"@;
    lemma_advance(state);
    lemma_steps_extend(state, message, state.parser.current);
    lemma_steps_extend(taken, message, taken.parser.previous);
    lemma_parser_moves_forward(taken, precedence);
    match rule_of(taken.parser.previous.token_type).prefix {
        Some(handler) => {
            let operand = taken.apply(handler);
            lemma_parser_moves_forward(operand, precedence);
            let result = operand.infix_loop(precedence);
            assert(state.parse_precedence(precedence) == result);
            lemma_error_free(taken, operand);
            lemma_error_free(operand, result);
            lemma_shift_without_error(state);
            let (left, behind) = lemma_read_prefix(state, handler);
            lemma_fits_looser(left, Precendence::Primary, precedence);
            lemma_read_infix(state, left, behind, precedence)
        },
        None => {
            let failed = taken.error(message);
            assert(state.parse_precedence(precedence) == failed);
            if taken.parser.panic_mode {
                lemma_error_free(state, taken);
            }
            assert(false);
            (Expr::Number { value: ValueView::Bits(0), line: 0 }, Seq::empty())
        },
    }
}

/// What compiles without a diagnostic is an expression.
///
/// If a compilation ends without an error, then the tokens that lay ahead
/// of the compiler are those of an expression, up to an `Eof`. The chunk
/// has grown by the code of that expression and by the `OpReturn` behind
/// it. The result is the tree and the tokens behind it.
pub proof fn lemma_compiled_is_expression(state: CompilerView) -> (found: (Expr, Seq<TokenView>))
    requires
        state.consistent(),
        state.compile().outcome() is Ok,
    ensures
        found.0.fits(Precendence::Assignment),
        state.rest == found.0.tokens() + found.1,
        first_of(found.1, state.end_line).token_type is Eof,
        state.compile().chunk == found.0.emit(state.chunk).write(
            OpCode::OpReturn,
            first_of(found.1, state.end_line).line,
        ),
        state.compile().diagnostics == state.diagnostics,
{
    let message = "Expect end of expression."@;
    let first = state.advance();
    let parsed = first.expression();
    let consumed = parsed.consume(TokenTypeView::Eof, message);
    lemma_steps_extend(state, message, state.parser.current);
    lemma_parser_moves_forward(first, Precendence::Assignment);
    lemma_steps_extend(parsed, message, state.parser.current);
    lemma_error_free(parsed, consumed);
    lemma_error_free(first, parsed);
    lemma_shift_without_error(state);
    let (expression, follow) = lemma_read_expression(first, Precendence::Assignment);
    assert(parsed.parser.current.token_type is Eof);
    lemma_shift_without_error(parsed);
    lemma_first_token(expression);
    assert(state.rest.len() > 0);
    assert(state.rest =~= seq![state.rest[0]] + state.rest.drop_first());
    assert(expression.tokens() =~= seq![expression.tokens()[0]]
        + expression.tokens().drop_first());
    assert(state.rest =~= expression.tokens() + follow);
    (expression, follow)
}

} // verus!
