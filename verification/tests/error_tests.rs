use interpreter::lexer::{lex, TokenType};
use interpreter::parser::{parse, ParseError, ParseErrorKind};

fn parse_err(input: &str) -> ParseError {
    match parse(lex(String::from(input)).expect("expected the input to tokenize")) {
        Ok(_) => panic!("expected a parse error"),
        Err(e) => e,
    }
}

#[test]
fn function_name_missing_at_end_of_input() {
    let e = parse_err("fn");
    assert!(matches!(e.kind, ParseErrorKind::ExpectedFunctionName));
}

#[test]
fn function_params_open_missing() {
    let e = parse_err("fn f;");
    assert!(matches!(e.kind, ParseErrorKind::ExpectedParamsOpen));
}

#[test]
fn function_parameter_type_missing() {
    let e = parse_err("fn f(a: ;) {}");
    assert!(matches!(e.kind, ParseErrorKind::ExpectedParameterType));
}

#[test]
fn function_body_missing_after_return_type() {
    let e = parse_err("fn f() -> int;");
    assert!(matches!(e.kind, ParseErrorKind::ExpectedFunctionBody));
}

#[test]
fn variable_type_missing() {
    let e = parse_err("var x: ;");
    assert!(matches!(e.kind, ParseErrorKind::ExpectedVariableType));
}

#[test]
fn semicolon_missing_after_return_expression() {
    let e = parse_err("fn m() { return 1 }");
    assert!(matches!(e.kind, ParseErrorKind::ExpectedSemicolon));
}

#[test]
fn semicolon_missing_after_initializer() {
    let e = parse_err("var x: int = 1");
    assert!(matches!(e.kind, ParseErrorKind::ExpectedSemicolon));
}

#[test]
fn call_arguments_need_comma_or_close() {
    let e = parse_err("var x: int = f(a b);");
    assert!(matches!(e.kind, ParseErrorKind::ExpectedArgsCommaOrClose));
}

#[test]
fn if_condition_needs_block() {
    let e = parse_err("fn m() { if x return; }");
    assert!(matches!(e.kind, ParseErrorKind::ExpectedIfBody));
}

#[test]
fn else_needs_block_or_if() {
    let e = parse_err("fn m() { if x { } else return; }");
    assert!(matches!(e.kind, ParseErrorKind::ExpectedElseBody));
}

#[test]
fn while_condition_needs_block() {
    let e = parse_err("fn m() { while x return; }");
    assert!(matches!(e.kind, ParseErrorKind::ExpectedWhileBody));
}

#[test]
fn enum_needs_a_name() {
    let e = parse_err("enum 1 { A }");
    assert!(matches!(e.kind, ParseErrorKind::ExpectedEnumName));
}

#[test]
fn enum_needs_a_body() {
    let e = parse_err("enum E A");
    assert!(matches!(e.kind, ParseErrorKind::ExpectedEnumBody));
}

#[test]
fn enum_variant_must_be_identifier() {
    let e = parse_err("enum E { 1 }");
    assert!(matches!(e.kind, ParseErrorKind::ExpectedVariantName));
}

#[test]
fn enum_variants_need_commas() {
    let e = parse_err("enum E { A B }");
    assert!(matches!(e.kind, ParseErrorKind::ExpectedEnumComma));
}

#[test]
fn struct_needs_a_name() {
    let e = parse_err("struct 1 { }");
    assert!(matches!(e.kind, ParseErrorKind::ExpectedStructName));
}

#[test]
fn struct_needs_a_body() {
    let e = parse_err("struct S;");
    assert!(matches!(e.kind, ParseErrorKind::ExpectedStructBody));
}

#[test]
fn struct_field_must_be_identifier() {
    let e = parse_err("struct S { 1: int }");
    assert!(matches!(e.kind, ParseErrorKind::ExpectedFieldName));
}

#[test]
fn struct_field_needs_colon() {
    let e = parse_err("struct S { x int }");
    assert!(matches!(e.kind, ParseErrorKind::ExpectedFieldColon));
}

#[test]
fn struct_field_needs_a_type() {
    let e = parse_err("struct S { x: 1 }");
    assert!(matches!(e.kind, ParseErrorKind::ExpectedFieldType));
}

#[test]
fn struct_fields_need_commas() {
    let e = parse_err("struct S { x: int y: int }");
    assert!(matches!(e.kind, ParseErrorKind::ExpectedStructComma));
}

#[test]
fn unicode_letters_form_identifiers() {
    let toks = lex(String::from("héllo")).unwrap();
    assert_eq!(toks.len(), 1);
    assert!(matches!(&toks[0].value, TokenType::Identifier(s) if s == "héllo"));
}

#[test]
fn leading_zeros_keep_their_value() {
    let toks = lex(String::from("007")).unwrap();
    assert_eq!(toks.len(), 1);
    assert!(matches!(toks[0].value, TokenType::IntLit(7)));
}
