use klox_rs::chunk::{Chunk, OpCode};
use klox_rs::value::{is_number_text, Value, ValueArray};
use klox_rs::vm::InterpreterError;

fn bits(number: f64) -> Value {
    Value::Bits(number.to_bits())
}

fn is_bits(value: &Value, number: f64) -> bool {
    matches!(value, Value::Bits(b) if *b == number.to_bits())
}

#[test]
fn new_chunk_is_empty() {
    let chunk = Chunk::new();
    assert!(chunk.code.is_empty());
    assert!(chunk.linenum.is_empty());
    assert!(chunk.constants.values.is_empty());
    assert!(chunk.is_well_formed());
    let default = Chunk::default();
    assert!(default.code.is_empty());
}

#[test]
fn write_chunk_keeps_code_and_lines_aligned() {
    let mut chunk = Chunk::new();
    chunk.write_chunk(OpCode::OpAdd, 3);
    chunk.write_chunk(OpCode::OpReturn, 4);
    assert_eq!(chunk.code, vec![OpCode::OpAdd, OpCode::OpReturn]);
    assert_eq!(chunk.linenum, vec![3, 4]);
    assert!(chunk.is_well_formed());
}

#[test]
fn add_constant_returns_successive_indices_without_sharing() {
    let mut chunk = Chunk::new();
    assert_eq!(chunk.add_constant(bits(1.5)), 0);
    assert_eq!(chunk.add_constant(bits(1.5)), 1);
    assert_eq!(chunk.add_constant(bits(2.0)), 2);
    assert_eq!(chunk.constants.values.len(), 3);
    assert!(chunk.code.is_empty());
    assert!(is_bits(&chunk.read_constant(0), 1.5));
    assert!(is_bits(&chunk.read_constant(1), 1.5));
    assert!(is_bits(&chunk.read_constant(2), 2.0));
}

#[test]
fn write_constant_adds_the_constant_and_its_instruction() {
    let mut chunk = Chunk::new();
    chunk.write_constant(bits(7.0), 1);
    chunk.write_constant(Value::Literal("8".to_string()), 2);
    assert_eq!(chunk.code, vec![OpCode::OpConstant(0), OpCode::OpConstant(1)]);
    assert_eq!(chunk.linenum, vec![1, 2]);
    assert!(is_bits(&chunk.read_constant(0), 7.0));
    assert!(matches!(chunk.read_constant(1), Value::Literal(text) if text == "8"));
    assert!(chunk.is_well_formed());
}

#[test]
fn write_raw_constant_names_an_existing_constant() {
    let mut chunk = Chunk::new();
    chunk.add_constant(bits(1.0));
    chunk.write_raw_constant(0, 9);
    chunk.write_raw_constant(0, 10);
    assert_eq!(chunk.code, vec![OpCode::OpConstant(0), OpCode::OpConstant(0)]);
    assert_eq!(chunk.linenum, vec![9, 10]);
    assert!(chunk.is_well_formed());
}

#[test]
fn a_constant_index_outside_the_pool_is_not_well_formed() {
    let mut chunk = Chunk::new();
    chunk.write_raw_constant(0, 1);
    assert!(!chunk.is_well_formed());
    let mut misaligned = Chunk::new();
    misaligned.code.push(OpCode::OpAdd);
    assert!(!misaligned.is_well_formed());
}

#[test]
fn disassemble_lists_each_instruction() {
    let mut chunk = Chunk::new();
    chunk.write_constant(bits(1.2), 123);
    chunk.write_chunk(OpCode::OpNegate, 123);
    chunk.write_chunk(OpCode::OpReturn, 124);
    let listing = chunk.disassemble("test chunk");
    assert_eq!(listing.name, "test chunk");
    assert_eq!(listing.instructions.len(), 3);
    assert_eq!(listing.instructions[0].line, 123);
    assert_eq!(listing.instructions[0].name, "OP_CONSTANT");
    assert_eq!(listing.instructions[0].offset, 0);
    assert!(is_bits(listing.instructions[0].constant.as_ref().unwrap(), 1.2));
    assert_eq!(listing.instructions[1].line, 123);
    assert_eq!(listing.instructions[1].name, "OP_NEGATE");
    assert_eq!(listing.instructions[1].offset, 1);
    assert!(listing.instructions[1].constant.is_none());
    assert_eq!(listing.instructions[2].line, 124);
    assert_eq!(listing.instructions[2].name, "OP_RETURN");
    assert_eq!(listing.instructions[2].offset, 2);
    assert!(listing.instructions[2].constant.is_none());
}

#[test]
fn disassemble_names_every_instruction() {
    let mut chunk = Chunk::new();
    for op in [OpCode::OpAdd, OpCode::OpSubtract, OpCode::OpMultiply, OpCode::OpDivide] {
        chunk.write_chunk(op, 1);
    }
    let listing = chunk.disassemble("ops");
    let names: Vec<&str> = listing.instructions.iter().map(|row| row.name.as_str()).collect();
    assert_eq!(names, vec!["OP_ADD", "OP_SUBTRACT", "OP_MULTIPLY", "OP_DIVIDE"]);
}

#[test]
fn disassemble_of_an_empty_chunk_has_only_its_name() {
    let listing = Chunk::new().disassemble("");
    assert_eq!(listing.name, "");
    assert!(listing.instructions.is_empty());
}

#[test]
fn opcode_to_string() {
    assert_eq!(OpCode::OpReturn.to_string(), "OpReturn");
    assert_eq!(OpCode::OpConstant(0).to_string(), "OpConstant 0");
    assert_eq!(OpCode::OpConstant(9).to_string(), "OpConstant 9");
    assert_eq!(OpCode::OpConstant(10).to_string(), "OpConstant 10");
    assert_eq!(OpCode::OpConstant(1234567890).to_string(), "OpConstant 1234567890");
    assert_eq!(OpCode::OpConstant(usize::MAX).to_string(), format!("OpConstant {}", usize::MAX));
    assert_eq!(OpCode::OpNegate.to_string(), "OpNegate");
    assert_eq!(OpCode::OpAdd.to_string(), "OpAdd");
    assert_eq!(OpCode::OpSubtract.to_string(), "OpSubtract");
    assert_eq!(OpCode::OpMultiply.to_string(), "OpMultiply");
    assert_eq!(OpCode::OpDivide.to_string(), "OpDivide");
}

#[test]
fn interpreter_error_to_string() {
    assert_eq!(InterpreterError::CompileError(3).to_string(), "Compile error at line 3");
    assert_eq!(InterpreterError::RuntimeError(120).to_string(), "Runtime error at line 120");
    assert_eq!(InterpreterError::ScanningError(0).to_string(), "Scanning error at line 0");
    assert_eq!(InterpreterError::SourceError.to_string(), "Source error");
    assert_eq!(InterpreterError::EndOfFile.to_string(), "End of file");
}

#[test]
fn value_array_write_and_free() {
    let mut array = ValueArray::new();
    assert_eq!(array.write(bits(1.0)), 0);
    assert_eq!(array.write(bits(2.0)), 1);
    assert_eq!(array.values.len(), 2);
    assert!(is_bits(&array.values[1], 2.0));
    array.free();
    assert!(array.values.is_empty());
    assert_eq!(array.write(bits(3.0)), 0);
    assert!(ValueArray::default().values.is_empty());
}

#[test]
fn number_literals_are_recognized() {
    for text in ["0", "1", "42", "007", "3.25", "0.1", "10.0", "123456789012345678901234567890.5"] {
        assert!(is_number_text(text), "{}", text);
        assert!(Value::Literal(text.to_string()).is_number(), "{}", text);
    }
}

#[test]
fn other_texts_are_no_number_literals() {
    for text in ["", ".", "1.", ".5", "1.2.3", "1e5", "-1", "+1", " 1", "1 ", "a", "1a", "1.a", "1..2", "\u{663}"] {
        assert!(!is_number_text(text), "{}", text);
        assert!(!Value::Literal(text.to_string()).is_number(), "{}", text);
    }
}

#[test]
fn every_bit_pattern_is_a_number() {
    assert!(Value::Bits(0).is_number());
    assert!(Value::Bits(u64::MAX).is_number());
    assert!(bits(f64::NAN).is_number());
}

#[test]
fn disassembly_rows_as_text() {
    let mut chunk = Chunk::new();
    chunk.write_constant(bits(1.2), 7);
    chunk.write_chunk(OpCode::OpNegate, 123);
    chunk.write_chunk(OpCode::OpAdd, 9999);
    chunk.write_chunk(OpCode::OpReturn, 12345);
    chunk.write_chunk(OpCode::OpReturn, 0);
    let listing = chunk.disassemble("test chunk");
    assert_eq!(listing.heading(), "== test chunk ==");
    let rows: Vec<String> = listing.instructions.iter().map(|row| row.describe()).collect();
    assert_eq!(
        rows,
        vec![
            "0007 OP_CONSTANT 0",
            "0123 OP_NEGATE 1",
            "9999 OP_ADD 2",
            "12345 OP_RETURN 3",
            "0000 OP_RETURN 4"
        ]
    );
    for row in &listing.instructions {
        assert_eq!(row.describe(), format!("{:04} {} {}", row.line, row.name, row.offset));
    }
}

#[test]
fn interpreter_error_line() {
    assert_eq!(InterpreterError::CompileError(3).line(), 3);
    assert_eq!(InterpreterError::RuntimeError(4).line(), 4);
    assert_eq!(InterpreterError::ScanningError(5).line(), 5);
    assert_eq!(InterpreterError::SourceError.line(), 0);
    assert_eq!(InterpreterError::EndOfFile.line(), 0);
}
