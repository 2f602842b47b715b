//! The rules of the parser: for each kind of token, what to do where an
//! expression starts with it and where it follows an operand.

use super::tokenizer::{Precendence, TokenType, TokenTypeView};
use super::Compiler;
use crate::chunk::OpCode;
use crate::vm::InterpreterError;
use vstd::prelude::*;

verus! {

/// The parsing functions that a rule can name.
#[derive(Debug, Clone, Copy, PartialEq, Eq, Structural)]
pub enum ParseFn {
    /// A parenthesized expression: [`grouping`].
    Grouping,
    /// A prefix operator and its operand: [`uranary`].
    Unary,
    /// The right operand of an infix operator, and the operator: [`binary`].
    Binary,
    /// A number literal: [`number`].
    Number,
}

/// What the parser does with a token of one kind: how to parse an
/// expression that starts with it, how to go on when it follows an operand,
/// and how strongly it binds as an infix operator.
#[derive(Debug, Clone, Copy)]
pub struct ParseRule {
    pub prefix: Option<ParseFn>,
    pub infix: Option<ParseFn>,
    pub precedence: Precendence,
}

/// The rule of each kind of token.
pub open spec fn rule_of(token: TokenTypeView) -> ParseRule {
    match token {
        TokenTypeView::LeftParen => ParseRule {
            prefix: Some(ParseFn::Grouping),
            infix: None,
            precedence: Precendence::Lowest,
        },
        TokenTypeView::Minus => ParseRule {
            prefix: Some(ParseFn::Unary),
            infix: Some(ParseFn::Binary),
            precedence: Precendence::Term,
        },
        TokenTypeView::Plus => ParseRule {
            prefix: None,
            infix: Some(ParseFn::Binary),
            precedence: Precendence::Term,
        },
        TokenTypeView::Slash | TokenTypeView::Star => ParseRule {
            prefix: None,
            infix: Some(ParseFn::Binary),
            precedence: Precendence::Factor,
        },
        TokenTypeView::Number(_) => ParseRule {
            prefix: Some(ParseFn::Number),
            infix: None,
            precedence: Precendence::Lowest,
        },
        _ => ParseRule { prefix: None, infix: None, precedence: Precendence::Lowest },
    }
}

/// The instruction of an infix operator, if the token is one.
pub open spec fn binary_instruction(operator: TokenTypeView) -> Option<OpCode> {
    match operator {
        TokenTypeView::Plus => Some(OpCode::OpAdd),
        TokenTypeView::Minus => Some(OpCode::OpSubtract),
        TokenTypeView::Star => Some(OpCode::OpMultiply),
        TokenTypeView::Slash => Some(OpCode::OpDivide),
        _ => None,
    }
}

impl ParseFn {
    /// Runs the parsing function that `self` names.
    pub(super) fn call(self, compiler: &mut Compiler) -> (result: Result<(), InterpreterError>)
        requires
            old(compiler).well_formed(),
        ensures
            final(compiler).well_formed(),
            final(compiler)@ == old(compiler)@.apply(self),
            final(compiler)@.remaining() <= old(compiler)@.remaining(),
            old(compiler)@.chunk.well_formed() ==> final(compiler)@.chunk.well_formed(),
            old(compiler)@.chunk.well_formed() ==> final(compiler)@.chunk.well_formed(),
        *final(final(compiler).chunk) == *final(old(compiler).chunk),
        decreases old(compiler)@.remaining(), 5nat,
    {
        match self {
            ParseFn::Grouping => grouping(compiler),
            ParseFn::Unary => uranary(compiler),
            ParseFn::Binary => binary(compiler),
            ParseFn::Number => number(compiler),
        }
    }
}

/// Parses the operand of the prefix operator that has just been taken, and
/// emits the operator's instruction behind the operand's code.
///
/// The only prefix operator is the minus sign. After any other token the
/// operand is parsed all the same, nothing is emitted, and the result is
/// `SourceError`.
pub fn uranary(compiler: &mut Compiler) -> (result: Result<(), InterpreterError>)
    requires
        old(compiler).well_formed(),
    ensures
        final(compiler).well_formed(),
        final(compiler)@ == old(compiler)@.unary(),
        final(compiler)@.remaining() <= old(compiler)@.remaining(),
        result == if old(compiler)@.parser.previous.token_type is Minus {
            Ok::<(), InterpreterError>(())
        } else {
            Err(InterpreterError::SourceError)
        },
        old(compiler)@.chunk.well_formed() ==> final(compiler)@.chunk.well_formed(),
        *final(final(compiler).chunk) == *final(old(compiler).chunk),
    decreases old(compiler)@.remaining(), 4nat,
{
    let operator_type = compiler.parser.previous.token_type().clone();
    compiler.parser_precedence(Precendence::Unary);
    match operator_type {
        TokenType::Minus => {
            compiler.emit_byte(OpCode::OpNegate);
            Ok(())
        },
        _ => Err(InterpreterError::SourceError),
    }
}

/// Parses the expression behind the left parenthesis that has just been
/// taken, and the right parenthesis that must follow it.
fn grouping(compiler: &mut Compiler) -> (result: Result<(), InterpreterError>)
    requires
        old(compiler).well_formed(),
    ensures
        final(compiler).well_formed(),
        final(compiler)@ == old(compiler)@.grouping(),
        final(compiler)@.remaining() <= old(compiler)@.remaining(),
        result is Ok,
        old(compiler)@.chunk.well_formed() ==> final(compiler)@.chunk.well_formed(),
        *final(final(compiler).chunk) == *final(old(compiler).chunk),
    decreases old(compiler)@.remaining(), 4nat,
{
    let parsed = compiler.expression();
    compiler.consume(TokenType::RightParen, "Expect ')' after expression.");
    Ok(())
}

/// Parses the right operand of the infix operator that has just been taken,
/// one level tighter than the operator binds, and emits the operator's
/// instruction behind the operand's code.
///
/// After a token that is no infix operator the operand is parsed all the
/// same, nothing is emitted, and the result is `SourceError`.
fn binary(compiler: &mut Compiler) -> (result: Result<(), InterpreterError>)
    requires
        old(compiler).well_formed(),
    ensures
        final(compiler).well_formed(),
        final(compiler)@ == old(compiler)@.binary(),
        final(compiler)@.remaining() <= old(compiler)@.remaining(),
        result == if binary_instruction(old(compiler)@.parser.previous.token_type) is Some {
            Ok::<(), InterpreterError>(())
        } else {
            Err(InterpreterError::SourceError)
        },
        old(compiler)@.chunk.well_formed() ==> final(compiler)@.chunk.well_formed(),
        *final(final(compiler).chunk) == *final(old(compiler).chunk),
    decreases old(compiler)@.remaining(), 4nat,
{
    let operator_type = compiler.parser.previous.token_type().clone();
    let rule = get_rule(operator_type.clone());
    compiler.parser_precedence(rule.precedence.increment());
    match operator_type {
        TokenType::Plus => {
            compiler.emit_byte(OpCode::OpAdd);
            Ok(())
        },
        TokenType::Minus => {
            compiler.emit_byte(OpCode::OpSubtract);
            Ok(())
        },
        TokenType::Star => {
            compiler.emit_byte(OpCode::OpMultiply);
            Ok(())
        },
        TokenType::Slash => {
            compiler.emit_byte(OpCode::OpDivide);
            Ok(())
        },
        _ => Err(InterpreterError::SourceError),
    }
}

/// Emits the constant of the number literal that has just been taken.
///
/// After a token that is no number nothing is emitted, and the result is
/// `SourceError`.
fn number(compiler: &mut Compiler) -> (result: Result<(), InterpreterError>)
    requires
        old(compiler).well_formed(),
    ensures
        final(compiler).well_formed(),
        final(compiler)@ == old(compiler)@.number(),
        final(compiler)@.remaining() <= old(compiler)@.remaining(),
        result == if old(compiler)@.parser.previous.token_type is Number {
            Ok::<(), InterpreterError>(())
        } else {
            Err(InterpreterError::SourceError)
        },
        old(compiler)@.chunk.well_formed() ==> final(compiler)@.chunk.well_formed(),
        *final(final(compiler).chunk) == *final(old(compiler).chunk),
{
    let value = match compiler.parser.previous.token_type() {
        TokenType::Number(value) => Some(value.clone()),
        _ => None,
    };
    match value {
        Some(value) => {
            compiler.emit_constant(value);
            Ok(())
        },
        None => Err(InterpreterError::SourceError),
    }
}

/// The rule of the kind of `token`: see [`rule_of`].
pub fn get_rule(token: TokenType) -> (rule: ParseRule)
    ensures
        rule == rule_of(token@),
{
    match token {
        TokenType::LeftParen => ParseRule {
            prefix: Some(ParseFn::Grouping),
            infix: None,
            precedence: Precendence::Lowest,
        },
        TokenType::Minus => ParseRule {
            prefix: Some(ParseFn::Unary),
            infix: Some(ParseFn::Binary),
            precedence: Precendence::Term,
        },
        TokenType::Plus => ParseRule {
            prefix: None,
            infix: Some(ParseFn::Binary),
            precedence: Precendence::Term,
        },
        TokenType::Slash | TokenType::Star => ParseRule {
            prefix: None,
            infix: Some(ParseFn::Binary),
            precedence: Precendence::Factor,
        },
        TokenType::Number(_) => ParseRule {
            prefix: Some(ParseFn::Number),
            infix: None,
            precedence: Precendence::Lowest,
        },
        TokenType::And
        | TokenType::RightParen
        | TokenType::LeftBrace
        | TokenType::RightBrace
        | TokenType::Comma
        | TokenType::Dot
        | TokenType::Class
        | TokenType::Else
        | TokenType::False
        | TokenType::Fun
        | TokenType::For
        | TokenType::If
        | TokenType::Nil
        | TokenType::Or
        | TokenType::Print
        | TokenType::Semicolon
        | TokenType::Return
        | TokenType::Super
        | TokenType::This
        | TokenType::True
        | TokenType::Var
        | TokenType::While
        | TokenType::Error(_)
        | TokenType::Eof
        | TokenType::Bang
        | TokenType::BangEqual
        | TokenType::Equal
        | TokenType::EqualEqual
        | TokenType::Greater
        | TokenType::GreaterEqual
        | TokenType::Less
        | TokenType::LessEqual
        | TokenType::Identifier(_)
        | TokenType::String(_) => ParseRule {
            prefix: None,
            infix: None,
            precedence: Precendence::Lowest,
        },
    }
}

} // verus!
