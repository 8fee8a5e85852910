use interpreter::lexer::{lex, LexError, Token, TokenType};

fn kinds(input: &str) -> Vec<TokenType> {
    lex(String::from(input))
        .expect("expected the input to tokenize")
        .into_iter()
        .map(|t| t.value)
        .collect()
}

fn lex_err(input: &str) -> LexError {
    match lex(String::from(input)) {
        Ok(_) => panic!("expected a lexical error"),
        Err(e) => e,
    }
}

#[test]
fn add_function_token_sequence() {
    let toks = lex(String::from("fn add(a: int, b: int) -> int { return; }")).unwrap();
    let expected = [
        TokenType::Function,
        TokenType::Identifier(String::from("add")),
        TokenType::LeftParen,
        TokenType::Identifier(String::from("a")),
        TokenType::Colon,
        TokenType::Int,
        TokenType::Comma,
        TokenType::Identifier(String::from("b")),
        TokenType::Colon,
        TokenType::Int,
        TokenType::RightParen,
        TokenType::Arrow,
        TokenType::Int,
        TokenType::LeftCurly,
        TokenType::Return,
        TokenType::Semicolon,
        TokenType::RightCurly,
    ];
    assert_eq!(toks.len(), expected.len());
    for (t, e) in toks.iter().zip(expected.iter()) {
        // token equality is variant identity only
        assert!(t.value == *e, "mismatch: {:?} vs {:?}", t.value, e);
    }
    // the payloads are carried verbatim
    match &toks[1].value {
        TokenType::Identifier(s) => assert_eq!(s, "add"),
        other => panic!("not an identifier: {:?}", other),
    }
    match &toks[3].value {
        TokenType::Identifier(s) => assert_eq!(s, "a"),
        other => panic!("not an identifier: {:?}", other),
    }
}

#[test]
fn all_keywords_resolve() {
    let toks = kinds("const var int float bool string enum struct fn if else while return");
    let expected = [
        TokenType::Const,
        TokenType::Var,
        TokenType::Int,
        TokenType::Float,
        TokenType::Bool,
        TokenType::String,
        TokenType::Enum,
        TokenType::Struct,
        TokenType::Function,
        TokenType::If,
        TokenType::Else,
        TokenType::While,
        TokenType::Return,
    ];
    assert_eq!(toks.len(), expected.len());
    for (t, e) in toks.iter().zip(expected.iter()) {
        assert!(t == e, "mismatch: {:?} vs {:?}", t, e);
    }
}

#[test]
fn bool_literals_resolve_before_identifiers() {
    let toks = kinds("true false truthy");
    assert!(matches!(toks[0], TokenType::BoolLit(true)));
    assert!(matches!(toks[1], TokenType::BoolLit(false)));
    assert!(matches!(&toks[2], TokenType::Identifier(s) if s == "truthy"));
}

#[test]
fn int_literal_value_round_trips_exactly() {
    let toks = kinds("42");
    assert_eq!(toks.len(), 1);
    match &toks[0] {
        TokenType::IntLit(v) => {
            assert_eq!(*v, 42);
            assert_eq!(v.to_string(), "42");
        },
        other => panic!("not an int literal: {:?}", other),
    }
}

#[test]
fn int_literal_max_value_accepted() {
    let toks = kinds("9223372036854775807");
    assert!(matches!(toks[0], TokenType::IntLit(i64::MAX)));
}

#[test]
fn int_literal_overflow_rejected() {
    match lex_err("9223372036854775808") {
        LexError::InvalidIntLiteral { line, text } => {
            assert_eq!(line, 1);
            assert_eq!(text, "9223372036854775808");
        },
        other => panic!("wrong error: {:?}", other),
    }
}

#[test]
fn int_literal_with_letters_rejected() {
    match lex_err("12ab") {
        LexError::InvalidIntLiteral { line, text } => {
            assert_eq!(line, 1);
            assert_eq!(text, "12ab");
        },
        other => panic!("wrong error: {:?}", other),
    }
}

#[test]
fn float_literal_round_trips_within_tolerance() {
    let toks = kinds("3.25");
    assert_eq!(toks.len(), 1);
    match &toks[0] {
        TokenType::FloatLit(text) => {
            assert_eq!(text, "3.25");
            let v: f64 = text.parse().unwrap();
            assert!((v - 3.25).abs() < 1e-12);
            assert_eq!(v.to_string(), "3.25");
        },
        other => panic!("not a float literal: {:?}", other),
    }
}

#[test]
fn float_literal_leading_dot() {
    let toks = kinds(".5");
    assert_eq!(toks.len(), 1);
    match &toks[0] {
        TokenType::FloatLit(text) => {
            assert_eq!(text, ".5");
            let v: f64 = text.parse().unwrap();
            assert!((v - 0.5).abs() < 1e-12);
        },
        other => panic!("not a float literal: {:?}", other),
    }
}

#[test]
fn float_literal_trailing_dot() {
    let toks = kinds("1.");
    assert_eq!(toks.len(), 1);
    match &toks[0] {
        TokenType::FloatLit(text) => {
            assert_eq!(text, "1.");
            let v: f64 = text.parse().unwrap();
            assert!((v - 1.0).abs() < 1e-12);
        },
        other => panic!("not a float literal: {:?}", other),
    }
}

#[test]
fn float_literal_with_letters_rejected() {
    match lex_err("1.2x") {
        LexError::InvalidFloatLiteral { line, text } => {
            assert_eq!(line, 1);
            assert_eq!(text, "1.2x");
        },
        other => panic!("wrong error: {:?}", other),
    }
}

#[test]
fn bare_period_is_punctuation() {
    let toks = kinds("a.b");
    assert_eq!(toks.len(), 3);
    assert!(matches!(toks[1], TokenType::Period));
}

#[test]
fn arrow_is_greedy() {
    let toks = kinds("->");
    assert_eq!(toks.len(), 1);
    assert!(matches!(toks[0], TokenType::Arrow));
}

#[test]
fn minus_then_gt_when_separated() {
    let toks = kinds("- >");
    assert_eq!(toks.len(), 2);
    assert!(matches!(toks[0], TokenType::Minus));
    assert!(matches!(toks[1], TokenType::Gt));
}

#[test]
fn double_equals_is_one_token() {
    let toks = kinds("==");
    assert_eq!(toks.len(), 1);
    assert!(matches!(toks[0], TokenType::Eq));
}

#[test]
fn single_equals_is_assignment() {
    let toks = kinds("=");
    assert_eq!(toks.len(), 1);
    assert!(matches!(toks[0], TokenType::Assign));
}

#[test]
fn two_separate_equals_stay_separate() {
    let toks = kinds("= =");
    assert_eq!(toks.len(), 2);
    assert!(matches!(toks[0], TokenType::Assign));
    assert!(matches!(toks[1], TokenType::Assign));
}

#[test]
fn remaining_two_char_operators() {
    let toks = kinds("!= <= >= || && ^^");
    let expected = [
        TokenType::Neq,
        TokenType::Lte,
        TokenType::Gte,
        TokenType::Or,
        TokenType::And,
        TokenType::Xor,
    ];
    assert_eq!(toks.len(), expected.len());
    for (t, e) in toks.iter().zip(expected.iter()) {
        assert!(t == e, "mismatch: {:?} vs {:?}", t, e);
    }
}

#[test]
fn single_char_operators_and_punctuation() {
    let toks = kinds("( ) [ ] { } , : ; ' \\ + - * / % ~ | & ^ ! < >");
    let expected = [
        TokenType::LeftParen,
        TokenType::RightParen,
        TokenType::LeftBrack,
        TokenType::RightBrack,
        TokenType::LeftCurly,
        TokenType::RightCurly,
        TokenType::Comma,
        TokenType::Colon,
        TokenType::Semicolon,
        TokenType::SQuote,
        TokenType::Backslash,
        TokenType::Plus,
        TokenType::Minus,
        TokenType::Star,
        TokenType::Slash,
        TokenType::Mod,
        TokenType::BwNot,
        TokenType::BwOr,
        TokenType::BwAnd,
        TokenType::BwXor,
        TokenType::Not,
        TokenType::Lt,
        TokenType::Gt,
    ];
    assert_eq!(toks.len(), expected.len());
    for (t, e) in toks.iter().zip(expected.iter()) {
        assert!(t == e, "mismatch: {:?} vs {:?}", t, e);
    }
}

#[test]
fn string_literal_escapes_decode() {
    let toks = kinds("\"a\\tb\\nc\\\\d\\\"e\"");
    assert_eq!(toks.len(), 1);
    match &toks[0] {
        TokenType::StringLit(s) => assert_eq!(s, "a\tb\nc\\d\"e"),
        other => panic!("not a string literal: {:?}", other),
    }
}

#[test]
fn string_literal_plain() {
    let toks = kinds("\"hello world\"");
    assert_eq!(toks.len(), 1);
    assert!(matches!(&toks[0], TokenType::StringLit(s) if s == "hello world"));
}

#[test]
fn invalid_escape_rejected() {
    match lex_err("\"a\\qb\"") {
        LexError::InvalidEscape { line, found } => {
            assert_eq!(line, 1);
            assert_eq!(found, 'q');
        },
        other => panic!("wrong error: {:?}", other),
    }
}

#[test]
fn unterminated_string_rejected() {
    match lex_err("\"abc") {
        LexError::UnterminatedString { line, partial } => {
            assert_eq!(line, 1);
            assert_eq!(partial, "abc");
        },
        other => panic!("wrong error: {:?}", other),
    }
}

#[test]
fn unterminated_escape_rejected_as_unterminated_string() {
    match lex_err("\"abc\\") {
        LexError::UnterminatedString { partial, .. } => assert_eq!(partial, "abc"),
        other => panic!("wrong error: {:?}", other),
    }
}

#[test]
fn unrecognized_character_rejected() {
    match lex_err("var @") {
        LexError::UnrecognizedChar { line, found } => {
            assert_eq!(line, 1);
            assert_eq!(found, '@');
        },
        other => panic!("wrong error: {:?}", other),
    }
}

#[test]
fn line_numbers_follow_newlines() {
    let toks = lex(String::from("var\nx\n\ny")).unwrap();
    assert_eq!(toks[0].line, 1);
    assert_eq!(toks[1].line, 2);
    assert_eq!(toks[2].line, 4);
}

#[test]
fn string_token_reports_opening_line_and_counts_newlines() {
    let toks = lex(String::from("\"a\nb\" x")).unwrap();
    assert_eq!(toks.len(), 2);
    assert_eq!(toks[0].line, 1);
    assert!(matches!(&toks[0].value, TokenType::StringLit(s) if s == "a\nb"));
    assert_eq!(toks[1].line, 2);
}

#[test]
fn error_line_is_the_offending_line() {
    match lex_err("var x\n1.2q") {
        LexError::InvalidFloatLiteral { line, text } => {
            assert_eq!(line, 2);
            assert_eq!(text, "1.2q");
        },
        other => panic!("wrong error: {:?}", other),
    }
}

#[test]
fn token_equality_ignores_payload_and_line() {
    let a = Token { line: 1, value: TokenType::IntLit(1) };
    let b = Token { line: 7, value: TokenType::IntLit(5) };
    assert!(a == b);
    let c = Token { line: 1, value: TokenType::FloatLit(String::from("1.0")) };
    assert!(a != c);
    assert!(TokenType::Identifier(String::from("x")) == TokenType::Identifier(String::from("y")));
    assert!(TokenType::Identifier(String::from("x")) != TokenType::StringLit(String::from("x")));
}

#[test]
fn underscore_words_are_identifiers() {
    let toks = kinds("_foo bar_baz");
    assert!(matches!(&toks[0], TokenType::Identifier(s) if s == "_foo"));
    assert!(matches!(&toks[1], TokenType::Identifier(s) if s == "bar_baz"));
}

#[test]
fn empty_input_gives_no_tokens() {
    let toks = lex(String::new()).unwrap();
    assert!(toks.is_empty());
}

#[test]
fn whitespace_only_gives_no_tokens() {
    let toks = lex(String::from(" \t\r\n  \n")).unwrap();
    assert!(toks.is_empty());
}
