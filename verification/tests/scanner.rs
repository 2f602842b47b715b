use klox_rs::compiler::scanner::Scanner;
use klox_rs::compiler::tokenizer::{Token, TokenType};
use klox_rs::value::Value;

fn scan_all(source: &str) -> Vec<Token> {
    let mut scanner = Scanner::new(source.to_string());
    let mut tokens = Vec::new();
    loop {
        let token = scanner.scan_token();
        let done = matches!(token.token_type(), TokenType::Eof);
        tokens.push(token);
        if done {
            return tokens;
        }
    }
}

fn kinds(source: &str) -> Vec<String> {
    scan_all(source).iter().map(|token| format!("{:?}", token.token_type())).collect()
}

fn lines(source: &str) -> Vec<usize> {
    scan_all(source).iter().map(|token| token.line()).collect()
}

#[test]
fn empty_source_is_eof_on_line_one() {
    let tokens = scan_all("");
    assert_eq!(tokens.len(), 1);
    assert!(matches!(tokens[0].token_type(), TokenType::Eof));
    assert_eq!(tokens[0].line(), 1);
}

#[test]
fn eof_repeats_forever() {
    let mut scanner = Scanner::new("1".to_string());
    assert!(matches!(scanner.scan_token().token_type(), TokenType::Number(_)));
    for _ in 0..5 {
        let token = scanner.scan_token();
        assert!(matches!(token.token_type(), TokenType::Eof));
        assert_eq!(token.line(), 1);
    }
}

#[test]
fn single_character_tokens() {
    assert_eq!(
        kinds("(){};,.-/+*"),
        vec![
            "LeftParen",
            "RightParen",
            "LeftBrace",
            "RightBrace",
            "Semicolon",
            "Comma",
            "Dot",
            "Minus",
            "Slash",
            "Plus",
            "Star",
            "Eof"
        ]
    );
}

#[test]
fn two_character_operators_are_greedy() {
    assert_eq!(
        kinds("! != = == < <= > >="),
        vec![
            "Bang",
            "BangEqual",
            "Equal",
            "EqualEqual",
            "Less",
            "LessEqual",
            "Greater",
            "GreaterEqual",
            "Eof"
        ]
    );
    assert_eq!(kinds("==="), vec!["EqualEqual", "Equal", "Eof"]);
    assert_eq!(kinds("!"), vec!["Bang", "Eof"]);
}

#[test]
fn whitespace_and_comments_are_skipped() {
    assert_eq!(kinds(" \t\r\n 1 // one\n// two\n+"), vec![
        "Number(Literal(\"1\"))",
        "Plus",
        "Eof"
    ]);
    assert_eq!(lines(" \t\r\n 1 // one\n// two\n+"), vec![2, 4, 4]);
}

#[test]
fn comment_at_end_of_input() {
    assert_eq!(kinds("1 // no newline"), vec!["Number(Literal(\"1\"))", "Eof"]);
    assert_eq!(kinds("//"), vec!["Eof"]);
}

#[test]
fn a_single_slash_is_a_token() {
    assert_eq!(kinds("/ /"), vec!["Slash", "Slash", "Eof"]);
}

#[test]
fn number_literals_keep_their_text() {
    let tokens = scan_all("12 3.25 007 1.");
    match tokens[0].token_type() {
        TokenType::Number(Value::Literal(text)) => assert_eq!(text, "12"),
        other => panic!("{:?}", other),
    }
    match tokens[1].token_type() {
        TokenType::Number(Value::Literal(text)) => assert_eq!(text, "3.25"),
        other => panic!("{:?}", other),
    }
    match tokens[2].token_type() {
        TokenType::Number(Value::Literal(text)) => assert_eq!(text, "007"),
        other => panic!("{:?}", other),
    }
    match tokens[3].token_type() {
        TokenType::Number(Value::Literal(text)) => assert_eq!(text, "1"),
        other => panic!("{:?}", other),
    }
    assert!(matches!(tokens[4].token_type(), TokenType::Dot));
    assert!(matches!(tokens[5].token_type(), TokenType::Eof));
}

#[test]
fn number_has_one_point_only() {
    assert_eq!(
        kinds("1.2.3"),
        vec!["Number(Literal(\"1.2\"))", "Dot", "Number(Literal(\"3\"))", "Eof"]
    );
}

#[test]
fn number_literal_starts_behind_the_blanks() {
    let tokens = scan_all("1 + 2");
    match tokens[2].token_type() {
        TokenType::Number(Value::Literal(text)) => assert_eq!(text, "2"),
        other => panic!("{:?}", other),
    }
}

#[test]
fn keywords_and_identifiers() {
    assert_eq!(
        kinds("and class else false for fun if nil or print return super this true var while"),
        vec![
            "And", "Class", "Else", "False", "For", "Fun", "If", "Nil", "Or", "Print", "Return",
            "Super", "This", "True", "Var", "While", "Eof"
        ]
    );
    assert_eq!(
        kinds("andy _x x1 classy If"),
        vec![
            "Identifier(\"andy\")",
            "Identifier(\"_x\")",
            "Identifier(\"x1\")",
            "Identifier(\"classy\")",
            "Identifier(\"If\")",
            "Eof"
        ]
    );
}

#[test]
fn identifiers_take_unicode_letters_and_digits() {
    assert_eq!(kinds("a\u{e9}\u{663}b c"), vec![
        "Identifier(\"a\u{e9}\u{663}b\")",
        "Identifier(\"c\")",
        "Eof"
    ]);
}

#[test]
fn identifier_cannot_start_with_unicode_letter() {
    let tokens = scan_all("\u{e9}");
    match tokens[0].token_type() {
        TokenType::Error(message) => assert_eq!(message, "Unexpected character."),
        other => panic!("{:?}", other),
    }
}

#[test]
fn string_literal_payload_is_between_the_quotes() {
    let tokens = scan_all("  \"abc\" \"\"");
    match tokens[0].token_type() {
        TokenType::String(text) => assert_eq!(text, "abc"),
        other => panic!("{:?}", other),
    }
    match tokens[1].token_type() {
        TokenType::String(text) => assert_eq!(text, ""),
        other => panic!("{:?}", other),
    }
    assert!(matches!(tokens[2].token_type(), TokenType::Eof));
}

#[test]
fn string_counts_embedded_newlines() {
    let tokens = scan_all("\"a\nb\nc\" 1");
    match tokens[0].token_type() {
        TokenType::String(text) => assert_eq!(text, "a\nb\nc"),
        other => panic!("{:?}", other),
    }
    assert_eq!(tokens[0].line(), 3);
    assert_eq!(tokens[1].line(), 3);
}

#[test]
fn unterminated_string_is_an_error_token() {
    let tokens = scan_all("\"abc");
    assert_eq!(tokens.len(), 2);
    match tokens[0].token_type() {
        TokenType::Error(message) => assert_eq!(message, "Unterminated string."),
        other => panic!("{:?}", other),
    }
    assert_eq!(tokens[0].line(), 1);
    assert!(matches!(tokens[1].token_type(), TokenType::Eof));
}

#[test]
fn unterminated_string_reports_the_line_of_its_opening_quote() {
    let tokens = scan_all("1\n\n  \"abc\ndef\n\nghi");
    assert!(matches!(tokens[0].token_type(), TokenType::Number(_)));
    match tokens[1].token_type() {
        TokenType::Error(message) => assert_eq!(message, "Unterminated string."),
        other => panic!("{:?}", other),
    }
    assert_eq!(tokens[1].line(), 3);
    assert!(matches!(tokens[2].token_type(), TokenType::Eof));
    assert_eq!(tokens[2].line(), 6);
}

#[test]
fn unexpected_character_is_an_error_token() {
    let tokens = scan_all("1 @ 2");
    match tokens[1].token_type() {
        TokenType::Error(message) => assert_eq!(message, "Unexpected character."),
        other => panic!("{:?}", other),
    }
    assert!(matches!(tokens[2].token_type(), TokenType::Number(_)));
}

#[test]
fn null_character_ends_the_input() {
    assert_eq!(kinds("1\u{0}2"), vec!["Number(Literal(\"1\"))", "Eof"]);
}

#[test]
fn new_scanner_is_not_at_end_of_nonempty_source() {
    let scanner = Scanner::new("x".to_string());
    assert!(!scanner.is_at_end());
    assert_eq!(scanner.peek(), 'x');
    assert_eq!(scanner.peek_next(), '\0');
    let empty = Scanner::new(String::new());
    assert!(empty.is_at_end());
    assert_eq!(empty.peek(), '\0');
}

#[test]
fn advance_and_match_char_move_the_cursor() {
    let mut scanner = Scanner::new("a=b".to_string());
    assert_eq!(scanner.advance(), 'a');
    assert!(!scanner.match_char('b'));
    assert!(scanner.match_char('='));
    assert_eq!(scanner.peek(), 'b');
    assert_eq!(scanner.advance(), 'b');
    assert!(!scanner.match_char('b'));
    assert!(scanner.is_at_end());
}

#[test]
fn skip_whitespace_stops_at_a_token() {
    let mut scanner = Scanner::new("  // c\n\n x".to_string());
    scanner.skip_whitespace();
    assert_eq!(scanner.peek(), 'x');
    let token = scanner.scan_token();
    assert_eq!(token.line(), 3);
}

#[test]
fn identifier_ends_at_a_character_that_is_not_alphanumeric() {
    assert_eq!(
        kinds("a\u{e9}+b\u{2014}"),
        vec!["Identifier(\"a\u{e9}\")", "Plus", "Identifier(\"b\")", "Error(\"Unexpected character.\")", "Eof"]
    );
}

#[test]
fn lexeme_is_the_text_of_the_token_in_the_source() {
    let source = "(1.5+ab) != \"s\" while";
    let texts: Vec<String> =
        scan_all(source).iter().map(|token| token.token_type().lexeme()).collect();
    assert_eq!(texts, vec!["(", "1.5", "+", "ab", ")", "!=", "\"s\"", "while", ""]);
}
