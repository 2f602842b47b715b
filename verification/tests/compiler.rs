use klox_rs::chunk::{Chunk, OpCode};
use klox_rs::compiler::parse_rule::uranary;
use klox_rs::compiler::tokenizer::TokenType;
use klox_rs::compiler::{Compiler, Diagnostic};
use klox_rs::value::Value;
use klox_rs::vm::InterpreterError;

struct Compiled {
    result: Result<(), InterpreterError>,
    chunk: Chunk,
    diagnostics: Vec<Diagnostic>,
}

fn compile(source: &str) -> Compiled {
    let mut chunk = Chunk::new();
    let mut compiler = Compiler::new(source.to_string(), &mut chunk);
    let result = compiler.compile();
    let diagnostics = compiler.diagnostics;
    Compiled { result, chunk, diagnostics }
}

fn literals(chunk: &Chunk) -> Vec<String> {
    chunk
        .constants
        .values
        .iter()
        .map(|value| match value {
            Value::Literal(text) => text.clone(),
            Value::Bits(bits) => panic!("{}", bits),
        })
        .collect()
}

fn code(source: &str) -> Vec<OpCode> {
    let compiled = compile(source);
    assert_eq!(compiled.result, Ok(()));
    assert!(compiled.diagnostics.is_empty());
    assert!(compiled.chunk.is_well_formed());
    compiled.chunk.code
}

fn rejected(source: &str, line: usize, message: &str) -> Diagnostic {
    let mut compiled = compile(source);
    assert_eq!(compiled.result, Err(InterpreterError::CompileError(line)));
    assert_eq!(compiled.diagnostics.len(), 1);
    let diagnostic = compiled.diagnostics.remove(0);
    assert_eq!(diagnostic.error, InterpreterError::CompileError(line));
    assert_eq!(diagnostic.message, message);
    diagnostic
}

#[test]
fn a_number_compiles_to_its_constant_and_return() {
    let compiled = compile("42");
    assert_eq!(compiled.result, Ok(()));
    assert_eq!(compiled.chunk.code, vec![OpCode::OpConstant(0), OpCode::OpReturn]);
    assert_eq!(compiled.chunk.linenum, vec![1, 1]);
    assert_eq!(literals(&compiled.chunk), vec!["42"]);
}

#[test]
fn one_plus_two_compiles_to_postfix_code() {
    let compiled = compile("1 + 2");
    assert_eq!(compiled.result, Ok(()));
    assert_eq!(
        compiled.chunk.code,
        vec![OpCode::OpConstant(0), OpCode::OpConstant(1), OpCode::OpAdd, OpCode::OpReturn]
    );
    assert_eq!(compiled.chunk.linenum, vec![1, 1, 1, 1]);
    assert_eq!(literals(&compiled.chunk), vec!["1", "2"]);
}

#[test]
fn disassembly_of_one_plus_two() {
    let compiled = compile("1 +\n2");
    assert_eq!(compiled.result, Ok(()));
    let listing = compiled.chunk.disassemble("code");
    assert_eq!(listing.name, "code");
    let rows: Vec<(usize, &str, usize, Option<&str>)> = listing
        .instructions
        .iter()
        .map(|row| {
            let constant = match &row.constant {
                Some(Value::Literal(text)) => Some(text.as_str()),
                Some(Value::Bits(bits)) => panic!("{}", bits),
                None => None,
            };
            (row.line, row.name.as_str(), row.offset, constant)
        })
        .collect();
    assert_eq!(
        rows,
        vec![
            (1, "OP_CONSTANT", 0, Some("1")),
            (2, "OP_CONSTANT", 1, Some("2")),
            (2, "OP_ADD", 2, None),
            (2, "OP_RETURN", 3, None),
        ]
    );
}

#[test]
fn subtraction_is_left_associative() {
    assert_eq!(
        code("1 - 2 - 3"),
        vec![
            OpCode::OpConstant(0),
            OpCode::OpConstant(1),
            OpCode::OpSubtract,
            OpCode::OpConstant(2),
            OpCode::OpSubtract,
            OpCode::OpReturn
        ]
    );
}

#[test]
fn factor_binds_tighter_than_term() {
    assert_eq!(
        code("2 + 3 * 4"),
        vec![
            OpCode::OpConstant(0),
            OpCode::OpConstant(1),
            OpCode::OpConstant(2),
            OpCode::OpMultiply,
            OpCode::OpAdd,
            OpCode::OpReturn
        ]
    );
    assert_eq!(
        code("2 * 3 + 4"),
        vec![
            OpCode::OpConstant(0),
            OpCode::OpConstant(1),
            OpCode::OpMultiply,
            OpCode::OpConstant(2),
            OpCode::OpAdd,
            OpCode::OpReturn
        ]
    );
}

#[test]
fn grouping_bounds_precedence_and_emits_nothing() {
    assert_eq!(
        code("(2 + 3) * 4"),
        vec![
            OpCode::OpConstant(0),
            OpCode::OpConstant(1),
            OpCode::OpAdd,
            OpCode::OpConstant(2),
            OpCode::OpMultiply,
            OpCode::OpReturn
        ]
    );
    assert_eq!(code("((1))"), vec![OpCode::OpConstant(0), OpCode::OpReturn]);
}

#[test]
fn unary_minus_follows_its_operand() {
    assert_eq!(
        code("-(2 + 3)"),
        vec![
            OpCode::OpConstant(0),
            OpCode::OpConstant(1),
            OpCode::OpAdd,
            OpCode::OpNegate,
            OpCode::OpReturn
        ]
    );
    assert_eq!(
        code("--1"),
        vec![OpCode::OpConstant(0), OpCode::OpNegate, OpCode::OpNegate, OpCode::OpReturn]
    );
    assert_eq!(
        code("-1 * 2"),
        vec![
            OpCode::OpConstant(0),
            OpCode::OpNegate,
            OpCode::OpConstant(1),
            OpCode::OpMultiply,
            OpCode::OpReturn
        ]
    );
    assert_eq!(
        code("1 - -2"),
        vec![
            OpCode::OpConstant(0),
            OpCode::OpConstant(1),
            OpCode::OpNegate,
            OpCode::OpSubtract,
            OpCode::OpReturn
        ]
    );
}

#[test]
fn division_keeps_operand_order() {
    let compiled = compile("10 / 2");
    assert_eq!(
        compiled.chunk.code,
        vec![OpCode::OpConstant(0), OpCode::OpConstant(1), OpCode::OpDivide, OpCode::OpReturn]
    );
    assert_eq!(literals(&compiled.chunk), vec!["10", "2"]);
}

#[test]
fn equal_literals_take_distinct_slots() {
    let compiled = compile("1 + 1");
    assert_eq!(literals(&compiled.chunk), vec!["1", "1"]);
    assert_eq!(
        compiled.chunk.code,
        vec![OpCode::OpConstant(0), OpCode::OpConstant(1), OpCode::OpAdd, OpCode::OpReturn]
    );
}

#[test]
fn instructions_carry_the_line_of_the_token_taken_last() {
    let compiled = compile("1\n+\n2\n");
    assert_eq!(compiled.result, Ok(()));
    assert_eq!(compiled.chunk.linenum, vec![1, 3, 3, 4]);
}

#[test]
fn compile_appends_to_the_given_chunk() {
    let mut chunk = Chunk::new();
    chunk.write_constant(Value::Bits(0), 9);
    {
        let mut compiler = Compiler::new("5".to_string(), &mut chunk);
        assert_eq!(compiler.compile(), Ok(()));
    }
    assert_eq!(
        chunk.code,
        vec![OpCode::OpConstant(0), OpCode::OpConstant(1), OpCode::OpReturn]
    );
    assert_eq!(chunk.linenum, vec![9, 1, 1]);
}

#[test]
fn missing_right_parenthesis_is_rejected() {
    let diagnostic = rejected("(1 + 2", 1, "Expect ')' after expression.");
    assert!(matches!(diagnostic.token, TokenType::Eof));
}

#[test]
fn empty_source_expects_an_expression() {
    let diagnostic = rejected("", 1, "Expect expression");
    assert!(matches!(diagnostic.token, TokenType::Eof));
}

#[test]
fn missing_operand_expects_an_expression() {
    let diagnostic = rejected("1 +", 1, "Expect expression");
    assert!(matches!(diagnostic.token, TokenType::Eof));
    let diagnostic = rejected("1 + * 2", 1, "Expect expression");
    assert!(matches!(diagnostic.token, TokenType::Star));
    let diagnostic = rejected("\n\n)", 3, "Expect expression");
    assert!(matches!(diagnostic.token, TokenType::RightParen));
}

#[test]
fn trailing_tokens_expect_the_end_of_the_expression() {
    let diagnostic = rejected("1 2", 1, "Expect end of expression.");
    assert!(matches!(diagnostic.token, TokenType::Number(_)));
    let diagnostic = rejected("1\n)", 2, "Expect end of expression.");
    assert!(matches!(diagnostic.token, TokenType::RightParen));
    let diagnostic = rejected("1 + x", 1, "Expect expression");
    assert!(matches!(diagnostic.token, TokenType::Identifier(name) if name == "x"));
}

#[test]
fn unterminated_string_is_rejected_on_the_line_of_its_opening_quote() {
    let diagnostic = rejected("\"abc", 1, "Unterminated string.");
    assert!(matches!(diagnostic.token, TokenType::Error(_)));
    rejected("1 +\n \"abc\n\n\n", 2, "Unterminated string.");
}

#[test]
fn error_tokens_are_reported_not_skipped_in_silence() {
    let diagnostic = rejected("1 @ + 2", 1, "Unexpected character.");
    assert!(matches!(diagnostic.token, TokenType::Error(_)));
}

#[test]
fn only_the_first_diagnostic_is_issued() {
    let compiled = compile("(\n@\n#\n+");
    assert_eq!(compiled.result, Err(InterpreterError::CompileError(2)));
    assert_eq!(compiled.diagnostics.len(), 1);
    assert_eq!(compiled.diagnostics[0].message, "Unexpected character.");
}

#[test]
fn strings_and_keywords_are_no_expressions() {
    let diagnostic = rejected("\"abc\"", 1, "Expect expression");
    assert!(matches!(diagnostic.token, TokenType::String(text) if text == "abc"));
    let diagnostic = rejected("nil", 1, "Expect expression");
    assert!(matches!(diagnostic.token, TokenType::Nil));
}

#[test]
fn uranary_after_another_token_is_a_source_error() {
    let mut chunk = Chunk::new();
    let mut compiler = Compiler::new("1".to_string(), &mut chunk);
    assert_eq!(uranary(&mut compiler), Err(InterpreterError::SourceError));
}

#[test]
fn diagnostic_as_text() {
    assert_eq!(
        rejected("(1 + 2", 1, "Expect ')' after expression.").to_string(),
        "Error at line 1 : Expect ')' after expression. at end"
    );
    assert_eq!(
        rejected("\n\n1 + )", 3, "Expect expression").to_string(),
        "Error at line 3 : Expect expression at ')'"
    );
    assert_eq!(
        rejected("1 2.50", 1, "Expect end of expression.").to_string(),
        "Error at line 1 : Expect end of expression. at '2.50'"
    );
    assert_eq!(
        rejected("1 + while", 1, "Expect expression").to_string(),
        "Error at line 1 : Expect expression at 'while'"
    );
    assert_eq!(
        rejected("1 + \"s\"", 1, "Expect expression").to_string(),
        "Error at line 1 : Expect expression at '\"s\"'"
    );
    assert_eq!(
        rejected("\n\"abc", 2, "Unterminated string.").to_string(),
        "Error at line 2 : Unterminated string."
    );
    assert_eq!(
        rejected("1 ~", 1, "Unexpected character.").to_string(),
        "Error at line 1 : Unexpected character."
    );
}

#[test]
fn diagnostic_text_of_a_long_line_number() {
    let diagnostic = Diagnostic {
        error: InterpreterError::CompileError(1234567),
        message: "m".to_string(),
        token: TokenType::Identifier("x".to_string()),
    };
    assert_eq!(diagnostic.to_string(), "Error at line 1234567 : m at 'x'");
}
