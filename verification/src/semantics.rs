//! What a program means: the value of an expression under the arithmetic
//! of a host, and the proofs that the code of an expression computes this
//! value and that every program that compiles is such an expression.

use crate::chunk::{ChunkView, OpCode};
use crate::compiler::grammar::{lemma_compile_expression, lemma_compiled_is_expression, Expr};
use crate::compiler::scanner::{eof_line, lemma_tokens_hold_no_eof, tokens};
use crate::compiler::tokenizer::Precendence;
use crate::compiler::{begins_with, compilation, CompilerView};
use crate::value::ValueView;
use crate::vm::{binary_action, ActionView, Arithmetic, InterpreterError, VMView};
use vstd::prelude::*;

verus! {

impl Expr {
    /// The value of the expression under the arithmetic of a host.
    pub open spec fn value(self, arithmetic: Arithmetic) -> ValueView
        decreases self,
    {
        match self {
            Expr::Number { value, line } => value,
            Expr::Grouping { open, inner, close } => inner.value(arithmetic),
            Expr::Negate { line, operand } => arithmetic(
                ActionView::Negate(operand.value(arithmetic)),
            ),
            Expr::Binary { left, operator, line, right } => arithmetic(
                binary_action(
                    operator.instruction(),
                    left.value(arithmetic),
                    right.value(arithmetic),
                ),
            ),
        }
    }

    /// How many number literals the expression holds.
    pub open spec fn literals(self) -> nat
        decreases self,
    {
        match self {
            Expr::Number { value, line } => 1,
            Expr::Grouping { open, inner, close } => inner.literals(),
            Expr::Negate { line, operand } => operand.literals(),
            Expr::Binary { left, operator, line, right } => left.literals() + right.literals(),
        }
    }
}

/// Whether the chunk `whole` begins with the chunk `part`: with its code
/// and with its constants.
pub open spec fn holds(whole: ChunkView, part: ChunkView) -> bool {
    &&& begins_with(whole.code, part.code)
    &&& begins_with(whole.constants, part.constants)
}

/// The code of an expression is written behind what the chunk holds, one
/// constant for each number literal, and leaves a well-formed chunk well
/// formed.
pub proof fn lemma_emit_appends(expression: Expr, chunk: ChunkView)
    ensures
        holds(expression.emit(chunk), chunk),
        expression.emit(chunk).code.len() > chunk.code.len(),
        expression.emit(chunk).constants.len() == chunk.constants.len() + expression.literals(),
        expression.emit(chunk).lines.len() - chunk.lines.len() == expression.emit(chunk).code.len()
            - chunk.code.len(),
        chunk.well_formed() && expression.emit(chunk).constants.len() <= usize::MAX
            ==> expression.emit(chunk).well_formed(),
    decreases expression,
{
    match expression {
        Expr::Number { value, line } => {},
        Expr::Grouping { open, inner, close } => {
            lemma_emit_appends(*inner, chunk);
        },
        Expr::Negate { line, operand } => {
            lemma_emit_appends(*operand, chunk);
        },
        Expr::Binary { left, operator, line, right } => {
            lemma_emit_appends(*left, chunk);
            lemma_emit_appends(*right, left.emit(chunk));
        },
    }
}

/// The machine computes the value of an expression from its code.
///
/// Let the machine hold a chunk in which the code of `expression` stands
/// behind the chunk `before`, and let it stand at the start of that code.
/// Then its execution is that of the machine that stands at the end of
/// that code with the value of the expression on top of the stack: no
/// step on the way fails, and every action is answered by `arithmetic`.
pub proof fn lemma_execute_expression(
    expression: Expr,
    before: ChunkView,
    machine: VMView,
    arithmetic: Arithmetic,
)
    requires
        holds(machine.chunk, expression.emit(before)),
        expression.emit(before).constants.len() <= usize::MAX,
        machine.ip == before.code.len(),
    ensures
        machine.execute(arithmetic) == (VMView {
            ip: expression.emit(before).code.len(),
            stack: machine.stack.push(expression.value(arithmetic)),
            ..machine
        }).execute(arithmetic),
    decreases expression,
{
    lemma_emit_appends(expression, before);
    match expression {
        Expr::Number { value, line } => {
            let after = VMView { ip: machine.ip + 1, stack: machine.stack.push(value), ..machine };
            let index = before.constants.len() as usize;
            assert(expression.emit(before).code[machine.ip as int] == OpCode::OpConstant(index));
            assert(expression.emit(before).constants[index as int] == value);
            assert(machine.chunk.code[machine.ip as int] == OpCode::OpConstant(index));
            assert(machine.chunk.constants[index as int] == value);
            assert(machine.run() == after.run());
        },
        Expr::Grouping { open, inner, close } => {
            lemma_execute_expression(*inner, before, machine, arithmetic);
        },
        Expr::Negate { line, operand } => {
            let written = operand.emit(before);
            lemma_emit_appends(*operand, before);
            lemma_execute_expression(*operand, before, machine, arithmetic);
            let value = operand.value(arithmetic);
            let at_sign = VMView {
                ip: written.code.len(),
                stack: machine.stack.push(value),
                ..machine
            };
            assert(expression.emit(before).code[written.code.len() as int] == OpCode::OpNegate);
            assert(machine.chunk.code[written.code.len() as int] == OpCode::OpNegate);
            assert(at_sign.stack.drop_last() =~= machine.stack);
            let popped = VMView { ip: at_sign.ip + 1, stack: machine.stack, ..machine };
            assert(at_sign.run().0 == popped);
        },
        Expr::Binary { left, operator, line, right } => {
            let first = left.emit(before);
            let second = right.emit(first);
            lemma_emit_appends(*left, before);
            lemma_emit_appends(*right, first);
            lemma_execute_expression(*left, before, machine, arithmetic);
            let left_value = left.value(arithmetic);
            let at_right = VMView {
                ip: first.code.len(),
                stack: machine.stack.push(left_value),
                ..machine
            };
            lemma_execute_expression(*right, first, at_right, arithmetic);
            let right_value = right.value(arithmetic);
            let at_sign = VMView {
                ip: second.code.len(),
                stack: at_right.stack.push(right_value),
                ..machine
            };
            assert(expression.emit(before).code[second.code.len() as int]
                == operator.instruction());
            assert(machine.chunk.code[second.code.len() as int] == operator.instruction());
            assert(at_sign.stack.drop_last() =~= at_right.stack);
            assert(at_right.stack.drop_last() =~= machine.stack);
            let popped = VMView { ip: at_sign.ip + 1, stack: machine.stack, ..machine };
            assert(at_sign.run().0 == popped);
        },
    }
}

/// The code of an expression, with the `OpReturn` behind it, reports the
/// value of the expression: precedence, grouping and the order of the
/// operands are those of the tree, whatever the arithmetic.
pub proof fn lemma_run_expression(expression: Expr, end_line: usize, arithmetic: Arithmetic)
    requires
        expression.literals() <= usize::MAX,
    ensures
        VMView::loaded(
            expression.emit(ChunkView::empty()).write(OpCode::OpReturn, end_line),
        ).execute(arithmetic) == Ok::<ValueView, InterpreterError>(expression.value(arithmetic)),
        expression.emit(ChunkView::empty()).write(OpCode::OpReturn, end_line).well_formed(),
{
    let code = expression.emit(ChunkView::empty());
    let chunk = code.write(OpCode::OpReturn, end_line);
    lemma_emit_appends(expression, ChunkView::empty());
    let machine = VMView::loaded(chunk);
    lemma_execute_expression(expression, ChunkView::empty(), machine, arithmetic);
    let value = expression.value(arithmetic);
    let at_return = VMView { ip: code.code.len(), stack: machine.stack.push(value), ..machine };
    assert(chunk.code[code.code.len() as int] == OpCode::OpReturn);
    assert(at_return.stack.drop_last() =~= machine.stack);
}

/// A source whose tokens spell an expression compiles, and the machine
/// that runs the code reports the value of the expression.
pub proof fn lemma_interpret_expression(source: Seq<char>, expression: Expr, arithmetic: Arithmetic)
    requires
        tokens(source) == expression.tokens(),
        expression.fits(Precendence::Assignment),
        expression.literals() <= usize::MAX,
    ensures
        compilation(source).outcome() is Ok,
        compilation(source).chunk == expression.emit(ChunkView::empty()).write(
            OpCode::OpReturn,
            eof_line(source, 0, 1),
        ),
        VMView::loaded(compilation(source).chunk).execute(arithmetic) == Ok::<
            ValueView,
            InterpreterError,
        >(expression.value(arithmetic)),
{
    let start = CompilerView::start(source, ChunkView::empty());
    lemma_compile_expression(expression, start);
    lemma_run_expression(expression, eof_line(source, 0, 1), arithmetic);
}

/// A source that compiles is an expression, and only expressions compile.
///
/// If the source compiles without a diagnostic, then its tokens are those
/// of an expression, and the code is the code of that expression with the
/// `OpReturn` behind it. The result is the tree.
pub proof fn lemma_accepted_is_expression(source: Seq<char>) -> (expression: Expr)
    requires
        compilation(source).outcome() is Ok,
    ensures
        expression.fits(Precendence::Assignment),
        tokens(source) == expression.tokens(),
        compilation(source).chunk == expression.emit(ChunkView::empty()).write(
            OpCode::OpReturn,
            eof_line(source, 0, 1),
        ),
{
    let start = CompilerView::start(source, ChunkView::empty());
    let (expression, follow) = lemma_compiled_is_expression(start);
    lemma_tokens_hold_no_eof(source, 0, 1);
    if follow.len() > 0 {
        assert(tokens(source)[expression.tokens().len() as int] == follow[0]);
    }
    assert(tokens(source) =~= expression.tokens());
    expression
}

/// Every program that compiles runs to its end.
///
/// If the source compiles without a diagnostic into a chunk that a machine
/// can hold, then the execution of the code neither runs out of operands
/// nor past the end of the code, whatever the arithmetic of the host: it
/// reports a value, the value of the expression that the source spells.
pub proof fn lemma_accepted_program_runs(source: Seq<char>, arithmetic: Arithmetic) -> (expression:
    Expr)
    requires
        compilation(source).outcome() is Ok,
        compilation(source).chunk.constants.len() <= usize::MAX,
    ensures
        tokens(source) == expression.tokens(),
        expression.fits(Precendence::Assignment),
        VMView::loaded(compilation(source).chunk).execute(arithmetic) == Ok::<
            ValueView,
            InterpreterError,
        >(expression.value(arithmetic)),
{
    let expression = lemma_accepted_is_expression(source);
    lemma_emit_appends(expression, ChunkView::empty());
    lemma_run_expression(expression, eof_line(source, 0, 1), arithmetic);
    expression
}

} // verus!
