//! The stack machine. It fetches and decodes the instructions of a chunk
//! and keeps the operand stack. Arithmetic is not its business: for each
//! arithmetic instruction it hands the operands to its host as an
//! [`Action`], and the host pushes the result.
//!
//! A host runs a program like this: it calls [`VM::interpret`] with the
//! source and then [`VM::run`] again and again. After each run that ends
//! with an arithmetic action it computes the result and hands it in with
//! [`VM::push`]; the run that ends with [`Action::Report`] is the last.

use crate::chunk::{Chunk, ChunkView, OpCode};
use crate::compiler::parse_rule::ParseFn;
use crate::compiler::scanner::{lemma_tokens_hold_numbers, lemma_tokens_of_number_literal};
use crate::compiler::tokenizer::{Precendence, TokenTypeView, TokenView};
use crate::compiler::{
    compilation, diagnostics_of, lemma_compile_extends, Compiler, CompilerView, Diagnostic,
    DiagnosticView,
};
use crate::text::{decimal, with_number};
use crate::value::{is_number_literal, views_of, Value, ValueView};
use vstd::prelude::*;

verus! {

/// Why the interpretation of a program ended without a result.
#[derive(Debug, Clone, Copy, PartialEq, Eq, Structural)]
pub enum InterpreterError {
    /// The source is lexically or syntactically malformed; the line is that
    /// of the first diagnostic.
    CompileError(usize),
    /// The machine failed at the instruction of this line: an operand was
    /// not there, or the code had ended.
    RuntimeError(usize),
    /// A failure of the scanner, reported apart from compilation.
    ScanningError(usize),
    /// The host could not supply the source text.
    SourceError,
    /// The text ended while a token was still being assembled.
    EndOfFile,
}

impl InterpreterError {
    /// The error in words, with its line where it has one.
    pub open spec fn text(self) -> Seq<char> {
        match self {
            InterpreterError::CompileError(line) => "Compile error at line "@ + decimal(line as nat),
            InterpreterError::RuntimeError(line) => "Runtime error at line "@ + decimal(line as nat),
            InterpreterError::SourceError => "Source error"@,
            InterpreterError::ScanningError(line) => "Scanning error at line "@ + decimal(
                line as nat,
            ),
            InterpreterError::EndOfFile => "End of file"@,
        }
    }

    /// The line of the error, and 0 for an error that has none.
    pub open spec fn spec_line(&self) -> usize {
        match *self {
            InterpreterError::CompileError(line) => line,
            InterpreterError::RuntimeError(line) => line,
            InterpreterError::ScanningError(line) => line,
            InterpreterError::SourceError => 0,
            InterpreterError::EndOfFile => 0,
        }
    }

    /// The line of the error, and 0 for an error that has none.
    #[verifier::when_used_as_spec(spec_line)]
    pub fn line(&self) -> (line: usize)
        ensures
            line == self.spec_line(),
    {
        match self {
            InterpreterError::CompileError(line) => *line,
            InterpreterError::RuntimeError(line) => *line,
            InterpreterError::ScanningError(line) => *line,
            InterpreterError::SourceError => 0,
            InterpreterError::EndOfFile => 0,
        }
    }

    /// The error in words: see [`InterpreterError::text`].
    pub fn to_string(&self) -> (text: String)
        ensures
            text@ == self.text(),
    {
        match self {
            InterpreterError::CompileError(line) => with_number("Compile error at line ", *line),
            InterpreterError::RuntimeError(line) => with_number("Runtime error at line ", *line),
            InterpreterError::SourceError => "Source error".to_owned(),
            InterpreterError::ScanningError(line) => with_number("Scanning error at line ", *line),
            InterpreterError::EndOfFile => "End of file".to_owned(),
        }
    }
}

/// The two states of the machine's execution.
#[derive(Debug, Clone, Copy, PartialEq, Eq, Structural)]
pub enum InterpreterStatus {
    /// More instructions follow.
    Running,
    /// The program has returned: execution is over.
    Returning,
}

/// What the machine asks of its host after an instruction. The machine
/// does not compute with numbers: it hands the operands of each
/// arithmetic instruction to the host, which pushes the result.
#[derive(Debug)]
pub enum Action {
    /// Nothing.
    Proceed,
    /// Push the negation of the value.
    Negate(Value),
    /// Push the sum of the first value and the second.
    Add(Value, Value),
    /// Push the first value less the second.
    Subtract(Value, Value),
    /// Push the product of the first value and the second.
    Multiply(Value, Value),
    /// Push the first value divided by the second.
    Divide(Value, Value),
    /// Report the value: it is the result of the program.
    Report(Value),
}

/// What an [`Action`] is in contracts.
pub enum ActionView {
    Proceed,
    Negate(ValueView),
    Add(ValueView, ValueView),
    Subtract(ValueView, ValueView),
    Multiply(ValueView, ValueView),
    Divide(ValueView, ValueView),
    Report(ValueView),
}

impl View for Action {
    type V = ActionView;

    open spec fn view(&self) -> ActionView {
        match self {
            Action::Proceed => ActionView::Proceed,
            Action::Negate(value) => ActionView::Negate(value@),
            Action::Add(left, right) => ActionView::Add(left@, right@),
            Action::Subtract(left, right) => ActionView::Subtract(left@, right@),
            Action::Multiply(left, right) => ActionView::Multiply(left@, right@),
            Action::Divide(left, right) => ActionView::Divide(left@, right@),
            Action::Report(value) => ActionView::Report(value@),
        }
    }
}

/// The outcome of an instruction: the state in which the machine is after
/// it, and what it asks of its host.
#[derive(Debug)]
pub struct Step {
    pub status: InterpreterStatus,
    pub action: Action,
}

/// What a [`Step`] is in contracts.
pub struct StepView {
    pub status: InterpreterStatus,
    pub action: ActionView,
}

impl View for Step {
    type V = StepView;

    open spec fn view(&self) -> StepView {
        StepView { status: self.status, action: self.action@ }
    }
}

/// The action of a binary instruction on the operands `left` and `right`.
pub open spec fn binary_action(instruction: OpCode, left: ValueView, right: ValueView) -> ActionView {
    match instruction {
        OpCode::OpAdd => ActionView::Add(left, right),
        OpCode::OpSubtract => ActionView::Subtract(left, right),
        OpCode::OpMultiply => ActionView::Multiply(left, right),
        _ => ActionView::Divide(left, right),
    }
}

/// A stack machine: a chunk, the offset of the instruction that comes
/// next, and the operand stack.
pub struct VM {
    chunk: Chunk,
    ip: usize,
    stack: Vec<Value>,
    stack_top: usize,
    diagnostics: Vec<Diagnostic>,
}

/// What a [`VM`] is in contracts.
pub struct VMView {
    pub chunk: ChunkView,
    /// The offset of the instruction that comes next.
    pub ip: nat,
    /// The operand stack, its top last.
    pub stack: Seq<ValueView>,
}

impl VMView {
    /// The machine that holds `chunk` and has yet to execute anything.
    pub open spec fn loaded(chunk: ChunkView) -> VMView {
        VMView { chunk, ip: 0, stack: Seq::empty() }
    }

    /// The invariant of a machine: its chunk is well formed, and the
    /// instruction pointer lies within the code or at its end.
    pub open spec fn well_formed(self) -> bool {
        &&& self.chunk.well_formed()
        &&& self.ip <= self.chunk.code.len()
    }

    /// The line of the instruction fetched last, and 0 before the first.
    pub open spec fn line(self) -> usize {
        if 0 < self.ip <= self.chunk.lines.len() {
            self.chunk.lines[self.ip - 1]
        } else {
            0
        }
    }

    /// The machine with `value` on top of its stack.
    pub open spec fn push(self, value: ValueView) -> VMView {
        VMView { stack: self.stack.push(value), ..self }
    }

    /// The machine without the top of its stack, and the value that was
    /// there. On an empty stack nothing changes and the result is a
    /// `RuntimeError` with the line of the instruction fetched last.
    pub open spec fn pop(self) -> (VMView, Result<ValueView, InterpreterError>) {
        if self.stack.len() == 0 {
            (self, Err(InterpreterError::RuntimeError(self.line())))
        } else {
            (VMView { stack: self.stack.drop_last(), ..self }, Ok(self.stack.last()))
        }
    }

    /// The next instruction, with the pointer moved behind it. Behind the
    /// last instruction nothing changes and the result is a `RuntimeError`
    /// with the line of that instruction: the code has ended without a
    /// return.
    pub open spec fn read_byte(self) -> (VMView, Result<OpCode, InterpreterError>) {
        if self.ip < self.chunk.code.len() {
            (VMView { ip: self.ip + 1, ..self }, Ok(self.chunk.code[self.ip as int]))
        } else {
            (self, Err(InterpreterError::RuntimeError(self.line())))
        }
    }

    /// The effect of `instruction`.
    ///
    /// `OpConstant` pushes its constant. An arithmetic instruction pops its
    /// operands, the right one first, and asks the host for the result.
    /// `OpReturn` pops the result of the program and ends the execution.
    /// An operand that is not there is a `RuntimeError`; what was popped
    /// before stays popped.
    pub open spec fn interpret_opcode(self, instruction: OpCode) -> (
        VMView,
        Result<StepView, InterpreterError>,
    ) {
        match instruction {
            OpCode::OpConstant(index) => (
                self.push(self.chunk.constants[index as int]),
                Ok(StepView { status: InterpreterStatus::Running, action: ActionView::Proceed }),
            ),
            OpCode::OpNegate => {
                let (popped, value) = self.pop();
                match value {
                    Ok(value) => (
                        popped,
                        Ok(
                            StepView {
                                status: InterpreterStatus::Running,
                                action: ActionView::Negate(value),
                            },
                        ),
                    ),
                    Err(error) => (popped, Err(error)),
                }
            },
            OpCode::OpReturn => {
                let (popped, value) = self.pop();
                match value {
                    Ok(value) => (
                        popped,
                        Ok(
                            StepView {
                                status: InterpreterStatus::Returning,
                                action: ActionView::Report(value),
                            },
                        ),
                    ),
                    Err(error) => (popped, Err(error)),
                }
            },
            _ => {
                let (without_right, right) = self.pop();
                match right {
                    Ok(right) => {
                        let (without_left, left) = without_right.pop();
                        match left {
                            Ok(left) => (
                                without_left,
                                Ok(
                                    StepView {
                                        status: InterpreterStatus::Running,
                                        action: binary_action(instruction, left, right),
                                    },
                                ),
                            ),
                            Err(error) => (without_left, Err(error)),
                        }
                    },
                    Err(error) => (without_right, Err(error)),
                }
            },
        }
    }

    /// Execution up to the next point at which the host has to act: the
    /// instructions that ask nothing of it are carried out one after the
    /// other, and the first that asks for something, or fails, ends the run.
    pub open spec fn run(self) -> (VMView, Result<StepView, InterpreterError>)
        decreases self.chunk.code.len() - self.ip,
    {
        let (fetched, instruction) = self.read_byte();
        match instruction {
            Ok(instruction) => {
                let (executed, step) = fetched.interpret_opcode(instruction);
                if step matches Ok(done) && done.action is Proceed && done.status is Running {
                    executed.run()
                } else {
                    (executed, step)
                }
            },
            Err(error) => (fetched, Err(error)),
        }
    }
}

/// The arithmetic of a host: the value that it pushes for each action
/// that asks for one.
pub type Arithmetic = spec_fn(ActionView) -> ValueView;

/// A run that ends with a step has fetched at least one instruction, and
/// no run moves the pointer backwards or changes the chunk.
pub proof fn lemma_run_moves(machine: VMView)
    ensures
        machine.run().0.chunk == machine.chunk,
        machine.run().0.ip >= machine.ip,
        machine.run().1 is Ok ==> machine.ip < machine.run().0.ip <= machine.chunk.code.len(),
    decreases machine.chunk.code.len() - machine.ip,
{
    let (fetched, instruction) = machine.read_byte();
    match instruction {
        Ok(instruction) => {
            let (executed, step) = fetched.interpret_opcode(instruction);
            if step matches Ok(done) && done.action is Proceed && done.status is Running {
                lemma_run_moves(executed);
            }
        },
        Err(error) => {},
    }
}

impl VMView {
    /// The execution of the code from this state on, with a host that
    /// answers each action by `arithmetic`: the value that the program
    /// reports, or the error that ends it.
    pub open spec fn execute(self, arithmetic: Arithmetic) -> Result<ValueView, InterpreterError>
        decreases self.chunk.code.len() - self.ip,
    {
        let (stopped, result) = self.run();
        match result {
            Err(error) => Err(error),
            Ok(step) => match step.action {
                ActionView::Report(value) => Ok(value),
                action => {
                    proof {
                        lemma_run_moves(self);
                    }
                    stopped.push(arithmetic(action)).execute(arithmetic)
                },
            },
        }
    }
}

/// A program that is nothing but a number literal compiles, into the code
/// that pushes the literal and returns, and the machine that runs this
/// code reports the literal exactly as it stands in the source, whatever
/// the arithmetic of the host.
pub proof fn lemma_literal_round_trip(literal: Seq<char>, arithmetic: Arithmetic)
    requires
        is_number_literal(literal),
    ensures
        compilation(literal).outcome() is Ok,
        compilation(literal).chunk == (ChunkView {
            code: seq![OpCode::OpConstant(0), OpCode::OpReturn],
            lines: seq![1usize, 1usize],
            constants: seq![ValueView::Literal(literal)],
        }),
        VMView::loaded(compilation(literal).chunk).run().1 == Ok::<StepView, InterpreterError>(
            StepView {
                status: InterpreterStatus::Returning,
                action: ActionView::Report(ValueView::Literal(literal)),
            },
        ),
        VMView::loaded(compilation(literal).chunk).execute(arithmetic) == Ok::<
            ValueView,
            InterpreterError,
        >(ValueView::Literal(literal)),
{
    lemma_tokens_of_number_literal(literal);
    let number = TokenView {
        token_type: TokenTypeView::Number(ValueView::Literal(literal)),
        line: 1,
    };
    let end = TokenView { token_type: TokenTypeView::Eof, line: 1 };
    let start = CompilerView::start(literal, ChunkView::empty());
    assert(start.rest =~= seq![number]);
    let first = start.advance();
    assert(first.rest =~= Seq::<TokenView>::empty());
    assert(first.parser.current == number);
    let taken = first.advance();
    assert(taken.parser.previous == number && taken.parser.current == end);
    let operand = taken.apply(ParseFn::Number);
    assert(taken.onward(operand) == operand);
    assert(operand.infix_loop(Precendence::Assignment) == operand);
    assert(first.expression() == operand);
    let compiled = start.compile();
    let chunk = ChunkView {
        code: seq![OpCode::OpConstant(0), OpCode::OpReturn],
        lines: seq![1usize, 1usize],
        constants: seq![ValueView::Literal(literal)],
    };
    assert(compiled.chunk.code =~= chunk.code);
    assert(compiled.chunk.lines =~= chunk.lines);
    assert(compiled.chunk.constants =~= chunk.constants);
    let loaded = VMView::loaded(chunk);
    let pushed = VMView { ip: 1, stack: seq![ValueView::Literal(literal)], ..loaded };
    assert(loaded.read_byte().0.interpret_opcode(OpCode::OpConstant(0)).0.stack =~= pushed.stack);
    assert(loaded.run() == pushed.run());
}

/// An instruction that pops, met on an empty stack, ends the run with a
/// `RuntimeError` on the line of that instruction: nothing is executed
/// with a value that is not there.
pub proof fn lemma_underflow_is_runtime_error(machine: VMView)
    requires
        machine.well_formed(),
        machine.ip < machine.chunk.code.len(),
        !(machine.chunk.code[machine.ip as int] is OpConstant),
        machine.stack.len() == 0,
    ensures
        machine.run().1 == Err::<StepView, InterpreterError>(
            InterpreterError::RuntimeError(machine.chunk.lines[machine.ip as int]),
        ),
        machine.run().0 == (VMView { ip: machine.ip + 1, ..machine }),
{
}

impl View for VM {
    type V = VMView;

    closed spec fn view(&self) -> VMView {
        VMView { chunk: self.chunk@, ip: self.ip as nat, stack: views_of(self.stack@) }
    }
}

impl VM {
    /// The invariant of a machine: see [`VMView::well_formed`].
    pub closed spec fn well_formed(&self) -> bool {
        &&& self@.well_formed()
        &&& self.stack_top == self.stack@.len()
    }

    /// What [`VM::well_formed`] says of the view.
    pub proof fn lemma_well_formed(&self)
        requires
            self.well_formed(),
        ensures
            self@.well_formed(),
    {
    }

    /// The diagnostics of the last call of [`VM::interpret`], in contracts.
    pub closed spec fn diagnostics_view(&self) -> Seq<DiagnosticView> {
        diagnostics_of(self.diagnostics@)
    }

    /// A machine with an empty chunk and an empty stack.
    pub fn new() -> (vm: VM)
        ensures
            vm.well_formed(),
            vm@ == VMView::loaded(ChunkView::empty()),
            vm.diagnostics_view() == Seq::<DiagnosticView>::empty(),
    {
        let vm = VM {
            chunk: Chunk::new(),
            ip: 0,
            stack: Vec::new(),
            stack_top: 0,
            diagnostics: Vec::new(),
        };
        assert(vm@.stack =~= Seq::<ValueView>::empty());
        assert(vm.diagnostics_view() =~= Seq::<DiagnosticView>::empty());
        vm
    }

    /// Compiles `source` and makes the machine ready to run the code.
    ///
    /// Whatever the machine held before is dropped. If the source compiles,
    /// the machine holds its code, at the first instruction and with an
    /// empty stack, and [`VM::run`] executes it. If it does not, the result
    /// is the error of the first diagnostic, the machine holds an empty
    /// chunk, and nothing is there to execute. The diagnostics of the
    /// compilation are kept either way. Every constant of the code is a
    /// number literal.
    pub fn interpret(&mut self, source: String) -> (result: Result<(), InterpreterError>)
        ensures
            final(self).well_formed(),
            result == compilation(source@).outcome(),
            final(self).diagnostics_view() == compilation(source@).diagnostics,
            final(self)@ == VMView::loaded(
                if result is Ok {
                    compilation(source@).chunk
                } else {
                    ChunkView::empty()
                },
            ),
            forall|i: int|
                0 <= i < final(self)@.chunk.constants.len() ==> (
                #[trigger] final(self)@.chunk.constants[i]).is_number(),
    {
        proof {
            let start = CompilerView::start(source@, ChunkView::empty());
            lemma_tokens_hold_numbers(source@, 0, 1);
            lemma_compile_extends(start);
            assert(start.holds_numbers());
        }
        let mut chunk = Chunk::new();
        let mut compiler = Compiler::new(source, &mut chunk);
        let result = compiler.compile();
        self.diagnostics = compiler.diagnostics;
        self.ip = 0;
        self.stack = Vec::new();
        self.stack_top = 0;
        self.chunk = match result {
            Ok(()) => chunk,
            Err(_) => Chunk::new(),
        };
        assert(self@.stack =~= Seq::<ValueView>::empty());
        result
    }

    /// The diagnostics of the last call of [`VM::interpret`].
    pub fn diagnostics(&self) -> (diagnostics: &Vec<Diagnostic>)
        ensures
            diagnostics_of(diagnostics@) == self.diagnostics_view(),
    {
        &self.diagnostics
    }

    /// Makes the machine ready to run `chunk`: whatever it held before is
    /// dropped, and it stands at the first instruction with an empty stack.
    pub fn load(&mut self, chunk: Chunk)
        requires
            chunk@.well_formed(),
        ensures
            final(self).well_formed(),
            final(self)@ == VMView::loaded(chunk@),
            final(self).diagnostics_view() == old(self).diagnostics_view(),
    {
        self.chunk = chunk;
        self.ip = 0;
        self.stack = Vec::new();
        self.stack_top = 0;
        assert(self@.stack =~= Seq::<ValueView>::empty());
    }

    /// Executes instructions up to the next point at which the host has to
    /// act: see [`VMView::run`]. After an arithmetic action the host pushes
    /// the result and calls `run` again; after `Report` the program is over.
    pub fn run(&mut self) -> (result: Result<Step, InterpreterError>)
        requires
            old(self).well_formed(),
        ensures
            final(self).well_formed(),
            final(self)@ == old(self)@.run().0,
            match result {
                Ok(step) => old(self)@.run().1 == Ok::<StepView, InterpreterError>(step@),
                Err(error) => old(self)@.run().1 == Err::<StepView, InterpreterError>(error),
            },
    {
        loop
            invariant
                self.well_formed(),
                self@.run() == old(self)@.run(),
            decreases self@.chunk.code.len() - self@.ip,
        {
            let instruction = match self.read_byte() {
                Ok(instruction) => instruction,
                Err(error) => {
                    return Err(error);
                },
            };
            let step = match self.interpret_opcode(instruction) {
                Ok(step) => step,
                Err(error) => {
                    return Err(error);
                },
            };
            match step.action {
                Action::Proceed => {
                    if let InterpreterStatus::Returning = step.status {
                        return Ok(step);
                    }
                },
                _ => {
                    return Ok(step);
                },
            }
        }
    }

    /// Executes `instruction`: see [`VMView::interpret_opcode`].
    fn interpret_opcode(&mut self, instruction: OpCode) -> (result: Result<Step, InterpreterError>)
        requires
            old(self).well_formed(),
            old(self)@.chunk.admits(instruction),
        ensures
            final(self).well_formed(),
            final(self)@ == old(self)@.interpret_opcode(instruction).0,
            match result {
                Ok(step) => old(self)@.interpret_opcode(instruction).1 == Ok::<
                    StepView,
                    InterpreterError,
                >(step@),
                Err(error) => old(self)@.interpret_opcode(instruction).1 == Err::<
                    StepView,
                    InterpreterError,
                >(error),
            },
    {
        match instruction {
            OpCode::OpReturn => {
                let value = self.pop()?;
                Ok(Step { status: InterpreterStatus::Returning, action: Action::Report(value) })
            },
            OpCode::OpAdd => {
                let right = self.pop()?;
                let left = self.pop()?;
                Ok(Step { status: InterpreterStatus::Running, action: Action::Add(left, right) })
            },
            OpCode::OpSubtract => {
                let right = self.pop()?;
                let left = self.pop()?;
                Ok(
                    Step {
                        status: InterpreterStatus::Running,
                        action: Action::Subtract(left, right),
                    },
                )
            },
            OpCode::OpMultiply => {
                let right = self.pop()?;
                let left = self.pop()?;
                Ok(
                    Step {
                        status: InterpreterStatus::Running,
                        action: Action::Multiply(left, right),
                    },
                )
            },
            OpCode::OpDivide => {
                let right = self.pop()?;
                let left = self.pop()?;
                Ok(Step { status: InterpreterStatus::Running, action: Action::Divide(left, right) })
            },
            OpCode::OpNegate => {
                let value = self.pop()?;
                Ok(Step { status: InterpreterStatus::Running, action: Action::Negate(value) })
            },
            OpCode::OpConstant(index) => {
                let constant = self.read_constant(index);
                let height = self.push(constant);
                Ok(Step { status: InterpreterStatus::Running, action: Action::Proceed })
            },
        }
    }

    /// Fetches the next instruction: see [`VMView::read_byte`].
    fn read_byte(&mut self) -> (result: Result<OpCode, InterpreterError>)
        requires
            old(self).well_formed(),
        ensures
            final(self).well_formed(),
            final(self)@ == old(self)@.read_byte().0,
            result == old(self)@.read_byte().1,
            result matches Ok(instruction) ==> old(self)@.chunk.admits(instruction),
    {
        if self.ip >= self.chunk.code.len() {
            return Err(InterpreterError::RuntimeError(self.line()));
        }
        self.ip += 1;
        Ok(self.chunk.code[self.ip - 1])
    }

    /// The line of the instruction fetched last, and 0 before the first.
    fn line(&self) -> (line: usize)
        requires
            self.well_formed(),
        ensures
            line == self@.line(),
    {
        if 0 < self.ip && self.ip <= self.chunk.linenum.len() {
            self.chunk.linenum[self.ip - 1]
        } else {
            0
        }
    }

    /// The constant at `index` of the chunk's pool.
    fn read_constant(&self, index: usize) -> (value: Value)
        requires
            index < self@.chunk.constants.len(),
        ensures
            value@ == self@.chunk.constants[index as int],
    {
        self.chunk.read_constant(index)
    }

    /// Puts `value` on top of the stack and returns the new height of the
    /// stack. This is how the host hands in the result of an action.
    pub fn push(&mut self, value: Value) -> (height: usize)
        requires
            old(self).well_formed(),
        ensures
            final(self).well_formed(),
            final(self)@ == old(self)@.push(value@),
            height == old(self)@.stack.len() + 1,
    {
        self.stack.push(value);
        self.stack_top = self.stack.len();
        assert(self@.stack =~= old(self)@.stack.push(value@));
        self.stack_top
    }

    /// Takes the value on top of the stack: see [`VMView::pop`].
    pub fn pop(&mut self) -> (result: Result<Value, InterpreterError>)
        requires
            old(self).well_formed(),
        ensures
            final(self).well_formed(),
            final(self)@ == old(self)@.pop().0,
            match result {
                Ok(value) => old(self)@.pop().1 == Ok::<ValueView, InterpreterError>(value@),
                Err(error) => old(self)@.pop().1 == Err::<ValueView, InterpreterError>(error),
            },
    {
        match self.stack.pop() {
            Some(value) => {
                self.stack_top = self.stack.len();
                assert(self@.stack =~= old(self)@.stack.drop_last());
                Ok(value)
            },
            None => Err(InterpreterError::RuntimeError(self.line())),
        }
    }
}

impl Default for VM {
    fn default() -> (vm: VM)
        ensures
            vm.well_formed(),
            vm@ == VMView::loaded(ChunkView::empty()),
    {
        Self::new()
    }
}

} // verus!
