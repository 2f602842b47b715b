use klox_rs::compiler::parse_rule::{get_rule, ParseFn};
use klox_rs::compiler::tokenizer::{Precendence, Token, TokenType};
use klox_rs::value::Value;

fn levels() -> Vec<Precendence> {
    vec![
        Precendence::Lowest,
        Precendence::Assignment,
        Precendence::Or,
        Precendence::And,
        Precendence::Equality,
        Precendence::Comparison,
        Precendence::Term,
        Precendence::Factor,
        Precendence::Unary,
        Precendence::Call,
        Precendence::Primary,
    ]
}

#[test]
fn increment_moves_to_the_next_level() {
    let all = levels();
    for i in 0..all.len() - 1 {
        assert_eq!(all[i].increment(), all[i + 1]);
    }
}

#[test]
fn increment_saturates_at_primary() {
    assert_eq!(Precendence::Primary.increment(), Precendence::Primary);
    assert_eq!(Precendence::Call.increment().increment(), Precendence::Primary);
}

#[test]
fn precedence_levels_are_totally_ordered() {
    let all = levels();
    for i in 0..all.len() {
        assert_eq!(all[i].level() as usize, i);
        for j in 0..all.len() {
            assert_eq!(all[i] < all[j], i < j);
            assert_eq!(all[i] <= all[j], i <= j);
            assert_eq!(all[i] == all[j], i == j);
            assert_eq!(all[i] > all[j], i > j);
        }
    }
}

#[test]
fn token_type_equality_ignores_number_and_error_payload() {
    assert!(
        TokenType::Number(Value::Literal("1".to_string()))
            == TokenType::Number(Value::Literal("2.5".to_string()))
    );
    assert!(TokenType::Number(Value::Bits(0)) == TokenType::Number(Value::Literal("1".to_string())));
    assert!(TokenType::Error("a".to_string()) == TokenType::Error("b".to_string()));
    assert!(TokenType::Error("a".to_string()) != TokenType::Number(Value::Bits(1)));
}

#[test]
fn token_type_equality_compares_identifier_and_string_payload() {
    assert!(TokenType::Identifier("a".to_string()) == TokenType::Identifier("a".to_string()));
    assert!(TokenType::Identifier("a".to_string()) != TokenType::Identifier("b".to_string()));
    assert!(TokenType::String("a".to_string()) == TokenType::String("a".to_string()));
    assert!(TokenType::String("a".to_string()) != TokenType::String("b".to_string()));
    assert!(TokenType::String("a".to_string()) != TokenType::Identifier("a".to_string()));
}

#[test]
fn token_type_equality_of_plain_kinds() {
    assert!(TokenType::Plus == TokenType::Plus);
    assert!(TokenType::Plus != TokenType::Minus);
    assert!(TokenType::Eof == TokenType::Eof);
    assert!(TokenType::Eof != TokenType::Nil);
}

#[test]
fn token_new_is_always_there() {
    let token = Token::new(TokenType::Plus, 7).unwrap();
    assert!(*token.token_type() == TokenType::Plus);
    assert_eq!(token.line(), 7);
}

#[test]
fn default_token_is_nil_on_line_zero() {
    let token = Token::default();
    assert!(matches!(token.token_type(), TokenType::Nil));
    assert_eq!(token.line(), 0);
}

#[test]
fn token_clone_keeps_kind_payload_and_line() {
    let token = Token::new(TokenType::Identifier("abc".to_string()), 3).unwrap();
    let copy = token.clone();
    assert!(*copy.token_type() == TokenType::Identifier("abc".to_string()));
    assert_eq!(copy.line(), 3);
}

#[test]
fn rules_of_the_operators() {
    let minus = get_rule(TokenType::Minus);
    assert_eq!(minus.prefix, Some(ParseFn::Unary));
    assert_eq!(minus.infix, Some(ParseFn::Binary));
    assert_eq!(minus.precedence, Precendence::Term);
    let plus = get_rule(TokenType::Plus);
    assert_eq!(plus.prefix, None);
    assert_eq!(plus.infix, Some(ParseFn::Binary));
    assert_eq!(plus.precedence, Precendence::Term);
    for token in [TokenType::Star, TokenType::Slash] {
        let rule = get_rule(token);
        assert_eq!(rule.prefix, None);
        assert_eq!(rule.infix, Some(ParseFn::Binary));
        assert_eq!(rule.precedence, Precendence::Factor);
    }
}

#[test]
fn rules_of_the_operands() {
    let paren = get_rule(TokenType::LeftParen);
    assert_eq!(paren.prefix, Some(ParseFn::Grouping));
    assert_eq!(paren.infix, None);
    assert_eq!(paren.precedence, Precendence::Lowest);
    let number = get_rule(TokenType::Number(Value::Literal("1".to_string())));
    assert_eq!(number.prefix, Some(ParseFn::Number));
    assert_eq!(number.infix, None);
    assert_eq!(number.precedence, Precendence::Lowest);
}

#[test]
fn other_tokens_have_no_rule() {
    for token in [
        TokenType::RightParen,
        TokenType::Eof,
        TokenType::Bang,
        TokenType::EqualEqual,
        TokenType::Identifier("x".to_string()),
        TokenType::String("x".to_string()),
        TokenType::Error("x".to_string()),
        TokenType::Nil,
        TokenType::While,
    ] {
        let rule = get_rule(token);
        assert_eq!(rule.prefix, None);
        assert_eq!(rule.infix, None);
        assert_eq!(rule.precedence, Precendence::Lowest);
    }
}

#[test]
fn lexeme_of_symbols_and_keywords() {
    assert_eq!(TokenType::LeftParen.lexeme(), "(");
    assert_eq!(TokenType::RightParen.lexeme(), ")");
    assert_eq!(TokenType::LeftBrace.lexeme(), "{");
    assert_eq!(TokenType::RightBrace.lexeme(), "}");
    assert_eq!(TokenType::Comma.lexeme(), ",");
    assert_eq!(TokenType::Dot.lexeme(), ".");
    assert_eq!(TokenType::Minus.lexeme(), "-");
    assert_eq!(TokenType::Plus.lexeme(), "+");
    assert_eq!(TokenType::Semicolon.lexeme(), ";");
    assert_eq!(TokenType::Slash.lexeme(), "/");
    assert_eq!(TokenType::Star.lexeme(), "*");
    assert_eq!(TokenType::Bang.lexeme(), "!");
    assert_eq!(TokenType::BangEqual.lexeme(), "!=");
    assert_eq!(TokenType::Equal.lexeme(), "=");
    assert_eq!(TokenType::EqualEqual.lexeme(), "==");
    assert_eq!(TokenType::Greater.lexeme(), ">");
    assert_eq!(TokenType::GreaterEqual.lexeme(), ">=");
    assert_eq!(TokenType::Less.lexeme(), "<");
    assert_eq!(TokenType::LessEqual.lexeme(), "<=");
    assert_eq!(TokenType::And.lexeme(), "and");
    assert_eq!(TokenType::While.lexeme(), "while");
    assert_eq!(TokenType::Nil.lexeme(), "nil");
}

#[test]
fn lexeme_of_tokens_with_payload() {
    assert_eq!(TokenType::Identifier("abc".to_string()).lexeme(), "abc");
    assert_eq!(TokenType::String("a b".to_string()).lexeme(), "\"a b\"");
    assert_eq!(TokenType::Number(Value::Literal("1.5".to_string())).lexeme(), "1.5");
    assert_eq!(TokenType::Number(Value::Bits(7)).lexeme(), "");
    assert_eq!(TokenType::Error("bad".to_string()).lexeme(), "");
    assert_eq!(TokenType::Eof.lexeme(), "");
}
