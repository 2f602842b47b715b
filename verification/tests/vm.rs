use klox_rs::chunk::{Chunk, OpCode};
use klox_rs::value::Value;
use klox_rs::vm::{Action, InterpreterError, InterpreterStatus, VM};

fn bits(number: f64) -> Value {
    Value::Bits(number.to_bits())
}

fn number(value: &Value) -> f64 {
    match value {
        Value::Literal(text) => text.parse().unwrap(),
        Value::Bits(bits) => f64::from_bits(*bits),
    }
}

/// Runs the machine as a host does: it carries out each action that the
/// machine asks for and pushes the result.
fn drive(vm: &mut VM) -> Result<f64, InterpreterError> {
    loop {
        let step = vm.run()?;
        let result = match &step.action {
            Action::Proceed => continue,
            Action::Negate(value) => -number(value),
            Action::Add(left, right) => number(left) + number(right),
            Action::Subtract(left, right) => number(left) - number(right),
            Action::Multiply(left, right) => number(left) * number(right),
            Action::Divide(left, right) => number(left) / number(right),
            Action::Report(value) => {
                assert_eq!(step.status, InterpreterStatus::Returning);
                return Ok(number(value));
            }
        };
        assert_eq!(step.status, InterpreterStatus::Running);
        vm.push(bits(result));
    }
}

fn evaluate(source: &str) -> Result<f64, InterpreterError> {
    let mut vm = VM::new();
    vm.interpret(source.to_string())?;
    drive(&mut vm)
}

fn execute(chunk: Chunk) -> Result<f64, InterpreterError> {
    assert!(chunk.is_well_formed());
    let mut vm = VM::new();
    vm.load(chunk);
    drive(&mut vm)
}

#[test]
fn a_literal_evaluates_to_itself() {
    for literal in ["0", "1", "42", "3.25", "0.1", "007", "123456789.125", "1.50"] {
        assert_eq!(evaluate(literal), Ok(literal.parse::<f64>().unwrap()));
    }
}

#[test]
fn a_literal_is_reported_as_written() {
    let mut vm = VM::new();
    assert_eq!(vm.interpret("0.1".to_string()), Ok(()));
    let step = vm.run().unwrap();
    assert_eq!(step.status, InterpreterStatus::Returning);
    assert!(matches!(step.action, Action::Report(Value::Literal(text)) if text == "0.1"));
}

#[test]
fn subtraction_associates_to_the_left() {
    assert_eq!(evaluate("1 - 2 - 3"), Ok(-4.0));
}

#[test]
fn multiplication_binds_tighter_than_addition() {
    assert_eq!(evaluate("2 + 3 * 4"), Ok(14.0));
}

#[test]
fn negation_of_a_group() {
    assert_eq!(evaluate("-(2 + 3)"), Ok(-5.0));
}

#[test]
fn division_takes_its_operands_in_source_order() {
    assert_eq!(evaluate("10 / 2"), Ok(5.0));
}

#[test]
fn subtraction_takes_its_operands_in_source_order() {
    assert_eq!(evaluate("2 - 5"), Ok(-3.0));
}

#[test]
fn more_expressions() {
    assert_eq!(evaluate("(1 + 2) * (3 + 4)"), Ok(21.0));
    assert_eq!(evaluate("1 + 2 * 3 - 4 / 2"), Ok(5.0));
    assert_eq!(evaluate("--3"), Ok(3.0));
    assert_eq!(evaluate("8 / 4 / 2"), Ok(1.0));
    assert_eq!(evaluate("1.5 + 2.25"), Ok(3.75));
    assert_eq!(evaluate("// sum\n1 +\n2 // done"), Ok(3.0));
    assert_eq!(evaluate("1 / 0"), Ok(f64::INFINITY));
}

#[test]
fn a_rejected_source_leaves_nothing_to_execute() {
    let mut vm = VM::new();
    assert_eq!(vm.interpret("(1 + 2".to_string()), Err(InterpreterError::CompileError(1)));
    assert_eq!(vm.diagnostics().len(), 1);
    assert_eq!(vm.diagnostics()[0].message, "Expect ')' after expression.");
    assert_eq!(vm.diagnostics()[0].error, InterpreterError::CompileError(1));
    assert_eq!(vm.run().unwrap_err(), InterpreterError::RuntimeError(0));
}

#[test]
fn unterminated_string_is_rejected_on_its_first_line() {
    let mut vm = VM::new();
    assert_eq!(
        vm.interpret("\n\"abc\n\n".to_string()),
        Err(InterpreterError::CompileError(2))
    );
    assert_eq!(vm.diagnostics()[0].message, "Unterminated string.");
    assert_eq!(evaluate("\"abc"), Err(InterpreterError::CompileError(1)));
}

#[test]
fn interpret_starts_afresh_each_time() {
    let mut vm = VM::new();
    assert_eq!(vm.interpret("1 +".to_string()), Err(InterpreterError::CompileError(1)));
    assert_eq!(vm.diagnostics().len(), 1);
    assert_eq!(vm.interpret("1 + 2".to_string()), Ok(()));
    assert!(vm.diagnostics().is_empty());
    assert_eq!(drive(&mut vm), Ok(3.0));
    assert_eq!(vm.interpret("4".to_string()), Ok(()));
    assert_eq!(drive(&mut vm), Ok(4.0));
}

#[test]
fn bare_add_on_an_empty_stack_is_a_runtime_error() {
    let mut chunk = Chunk::new();
    chunk.write_chunk(OpCode::OpAdd, 7);
    assert_eq!(execute(chunk), Err(InterpreterError::RuntimeError(7)));
}

#[test]
fn every_instruction_that_pops_checks_the_stack() {
    for op in [
        OpCode::OpAdd,
        OpCode::OpSubtract,
        OpCode::OpMultiply,
        OpCode::OpDivide,
        OpCode::OpNegate,
        OpCode::OpReturn,
    ] {
        let mut chunk = Chunk::new();
        chunk.write_chunk(op, 3);
        assert_eq!(execute(chunk), Err(InterpreterError::RuntimeError(3)));
    }
}

#[test]
fn a_binary_instruction_with_one_operand_is_a_runtime_error() {
    let mut chunk = Chunk::new();
    chunk.write_constant(bits(1.0), 1);
    chunk.write_chunk(OpCode::OpSubtract, 2);
    chunk.write_chunk(OpCode::OpReturn, 3);
    let mut vm = VM::new();
    vm.load(chunk);
    assert_eq!(vm.run().unwrap_err(), InterpreterError::RuntimeError(2));
    assert_eq!(vm.pop().unwrap_err(), InterpreterError::RuntimeError(2));
}

#[test]
fn running_past_the_end_of_the_code_is_an_error() {
    assert_eq!(execute(Chunk::new()), Err(InterpreterError::RuntimeError(0)));
    let mut chunk = Chunk::new();
    chunk.write_constant(bits(1.0), 5);
    chunk.write_constant(bits(2.0), 6);
    let mut vm = VM::new();
    vm.load(chunk);
    assert_eq!(vm.run().unwrap_err(), InterpreterError::RuntimeError(6));
    assert_eq!(vm.run().unwrap_err(), InterpreterError::RuntimeError(6));
}

#[test]
fn return_ends_the_execution() {
    let mut chunk = Chunk::new();
    chunk.write_constant(bits(1.0), 1);
    chunk.write_chunk(OpCode::OpReturn, 1);
    let mut vm = VM::new();
    vm.load(chunk);
    let step = vm.run().unwrap();
    assert_eq!(step.status, InterpreterStatus::Returning);
    assert!(matches!(step.action, Action::Report(Value::Bits(b)) if b == 1.0f64.to_bits()));
    assert_eq!(vm.run().unwrap_err(), InterpreterError::RuntimeError(1));
}

#[test]
fn hand_built_arithmetic() {
    let mut chunk = Chunk::new();
    chunk.write_constant(bits(1.2), 1);
    chunk.write_constant(bits(3.4), 1);
    chunk.write_chunk(OpCode::OpAdd, 1);
    chunk.write_constant(bits(5.6), 1);
    chunk.write_chunk(OpCode::OpDivide, 1);
    chunk.write_chunk(OpCode::OpNegate, 1);
    chunk.write_chunk(OpCode::OpReturn, 1);
    assert_eq!(execute(chunk), Ok(-((1.2 + 3.4) / 5.6)));
}

#[test]
fn the_machine_hands_out_operands_in_source_order() {
    let mut chunk = Chunk::new();
    chunk.write_constant(bits(10.0), 1);
    chunk.write_constant(bits(2.0), 1);
    chunk.write_chunk(OpCode::OpDivide, 1);
    let mut vm = VM::new();
    vm.load(chunk);
    let step = vm.run().unwrap();
    assert_eq!(step.status, InterpreterStatus::Running);
    match step.action {
        Action::Divide(left, right) => {
            assert_eq!(number(&left), 10.0);
            assert_eq!(number(&right), 2.0);
        }
        other => panic!("{:?}", other),
    }
}

#[test]
fn push_returns_the_height_and_pop_takes_the_top() {
    let mut vm = VM::new();
    assert_eq!(vm.push(bits(1.0)), 1);
    assert_eq!(vm.push(bits(2.0)), 2);
    assert_eq!(number(&vm.pop().unwrap()), 2.0);
    assert_eq!(vm.push(bits(3.0)), 2);
    assert_eq!(number(&vm.pop().unwrap()), 3.0);
    assert_eq!(number(&vm.pop().unwrap()), 1.0);
    assert_eq!(vm.pop().unwrap_err(), InterpreterError::RuntimeError(0));
    assert_eq!(VM::default().pop().unwrap_err(), InterpreterError::RuntimeError(0));
}

#[test]
fn the_same_constant_can_be_pushed_twice() {
    let mut chunk = Chunk::new();
    chunk.add_constant(bits(4.0));
    chunk.write_raw_constant(0, 1);
    chunk.write_raw_constant(0, 1);
    chunk.write_chunk(OpCode::OpMultiply, 1);
    chunk.write_chunk(OpCode::OpReturn, 1);
    assert_eq!(execute(chunk), Ok(16.0));
}

#[test]
fn every_constant_of_compiled_code_is_a_number() {
    let mut chunk = Chunk::new();
    {
        let mut compiler =
            klox_rs::compiler::Compiler::new("1 + 2.5 * (3 - 007)".to_string(), &mut chunk);
        assert_eq!(compiler.compile(), Ok(()));
    }
    assert_eq!(chunk.constants.values.len(), 4);
    for value in &chunk.constants.values {
        assert!(value.is_number());
    }
}
