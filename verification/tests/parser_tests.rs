use interpreter::lexer::{lex, TokenType};
use interpreter::parser::{parse, ParseError, ParseErrorKind, Tree, TreeType};

fn parse_src(input: &str) -> Tree {
    parse(lex(String::from(input)).expect("expected the input to tokenize"))
        .expect("expected the input to parse")
}

fn parse_err(input: &str) -> ParseError {
    match parse(lex(String::from(input)).expect("expected the input to tokenize")) {
        Ok(_) => panic!("expected a parse error"),
        Err(e) => e,
    }
}

fn is_ident_leaf(t: &Tree, name: &str) -> bool {
    t.params.is_empty() && matches!(&t.value, TreeType::Leaf(TokenType::Identifier(s)) if s == name)
}

#[test]
fn add_function_parses_to_fixed_shape() {
    let file = parse_src("fn add(a: int, b: int) -> int { return; }");
    assert!(file.value == TreeType::File);
    assert_eq!(file.line, 1);
    assert_eq!(file.params.len(), 1);
    let f = &file.params[0];
    assert!(f.value == TreeType::Function);
    assert_eq!(f.params.len(), 4);
    assert!(is_ident_leaf(&f.params[0], "add"));
    assert!(f.params[1].value == TreeType::Parameters);
    let ps = &f.params[1].params;
    assert_eq!(ps.len(), 2);
    assert!(ps[0].value == TreeType::Parameter);
    assert!(is_ident_leaf(&ps[0].params[0], "a"));
    assert!(matches!(ps[0].params[1].value, TreeType::Leaf(TokenType::Int)));
    assert!(ps[1].value == TreeType::Parameter);
    assert!(is_ident_leaf(&ps[1].params[0], "b"));
    assert!(matches!(ps[1].params[1].value, TreeType::Leaf(TokenType::Int)));
    assert!(matches!(f.params[2].value, TreeType::Leaf(TokenType::Int)));
    assert!(f.params[3].value == TreeType::Body);
    assert_eq!(f.params[3].params.len(), 1);
    assert!(f.params[3].params[0].value == TreeType::Return);
    assert!(f.params[3].params[0].params.is_empty());
}

#[test]
fn var_declaration_without_initializer_has_three_children() {
    let file = parse_src("var x: int;");
    assert_eq!(file.params.len(), 1);
    let a = &file.params[0];
    assert!(a.value == TreeType::Assign);
    assert_eq!(a.params.len(), 3);
    assert!(matches!(a.params[0].value, TreeType::Leaf(TokenType::Var)));
    assert!(is_ident_leaf(&a.params[1], "x"));
    assert!(matches!(a.params[2].value, TreeType::Leaf(TokenType::Int)));
}

#[test]
fn missing_function_name_fails_on_line_one() {
    let e = parse_err("fn () {}");
    assert_eq!(e.line, 1);
    assert!(matches!(e.kind, ParseErrorKind::NotAFunctionName(TokenType::LeftParen)));
}

#[test]
fn function_without_arrow_gets_void_return() {
    let file = parse_src("fn f() {}");
    let f = &file.params[0];
    assert!(f.value == TreeType::Function);
    assert_eq!(f.params.len(), 4);
    assert!(f.params[1].value == TreeType::Parameters);
    assert!(f.params[1].params.is_empty());
    assert!(matches!(f.params[2].value, TreeType::Leaf(TokenType::Void)));
    assert!(f.params[3].value == TreeType::Body);
    assert!(f.params[3].params.is_empty());
}

#[test]
fn const_declaration_uses_const_qualifier() {
    let file = parse_src("const c: float;");
    let a = &file.params[0];
    assert!(a.value == TreeType::Assign);
    assert!(matches!(a.params[0].value, TreeType::Leaf(TokenType::Const)));
    assert!(matches!(a.params[2].value, TreeType::Leaf(TokenType::Float)));
}

#[test]
fn initializer_becomes_fourth_child_with_precedence() {
    let file = parse_src("var x: int = 1 + 2 * 3;");
    let a = &file.params[0];
    assert_eq!(a.params.len(), 4);
    let e = &a.params[3];
    assert!(e.value == TreeType::Expression);
    assert_eq!(e.params.len(), 3);
    assert!(matches!(e.params[0].value, TreeType::Leaf(TokenType::IntLit(1))));
    assert!(matches!(e.params[1].value, TreeType::Leaf(TokenType::Plus)));
    let rhs = &e.params[2];
    assert!(rhs.value == TreeType::Expression);
    assert!(matches!(rhs.params[0].value, TreeType::Leaf(TokenType::IntLit(2))));
    assert!(matches!(rhs.params[1].value, TreeType::Leaf(TokenType::Star)));
    assert!(matches!(rhs.params[2].value, TreeType::Leaf(TokenType::IntLit(3))));
}

#[test]
fn binary_operators_are_left_associative() {
    let file = parse_src("var x: int = 1 - 2 - 3;");
    let e = &file.params[0].params[3];
    assert!(e.value == TreeType::Expression);
    let lhs = &e.params[0];
    assert!(lhs.value == TreeType::Expression);
    assert!(matches!(lhs.params[0].value, TreeType::Leaf(TokenType::IntLit(1))));
    assert!(matches!(lhs.params[2].value, TreeType::Leaf(TokenType::IntLit(2))));
    assert!(matches!(e.params[2].value, TreeType::Leaf(TokenType::IntLit(3))));
}

#[test]
fn parentheses_override_precedence() {
    let file = parse_src("var x: int = (1 + 2) * 3;");
    let e = &file.params[0].params[3];
    assert!(e.value == TreeType::Expression);
    assert!(matches!(e.params[1].value, TreeType::Leaf(TokenType::Star)));
    let lhs = &e.params[0];
    assert!(lhs.value == TreeType::Expression);
    assert!(matches!(lhs.params[1].value, TreeType::Leaf(TokenType::Plus)));
}

#[test]
fn unary_prefix_operator_parses() {
    let file = parse_src("var b: bool = !true;");
    let e = &file.params[0].params[3];
    assert!(e.value == TreeType::Expression);
    assert_eq!(e.params.len(), 2);
    assert!(matches!(e.params[0].value, TreeType::Leaf(TokenType::Not)));
    assert!(matches!(e.params[1].value, TreeType::Leaf(TokenType::BoolLit(true))));
}

#[test]
fn call_with_arguments_parses() {
    let file = parse_src("var y: int = f(a, 1);");
    let e = &file.params[0].params[3];
    assert!(e.value == TreeType::Expression);
    assert_eq!(e.params.len(), 2);
    assert!(is_ident_leaf(&e.params[0], "f"));
    let args = &e.params[1];
    assert!(args.value == TreeType::Parameters);
    assert_eq!(args.params.len(), 2);
    assert!(is_ident_leaf(&args.params[0], "a"));
    assert!(matches!(args.params[1].value, TreeType::Leaf(TokenType::IntLit(1))));
}

#[test]
fn call_with_no_arguments_parses() {
    let file = parse_src("var y: int = f();");
    let e = &file.params[0].params[3];
    assert!(e.value == TreeType::Expression);
    let args = &e.params[1];
    assert!(args.value == TreeType::Parameters);
    assert!(args.params.is_empty());
}

#[test]
fn if_with_else_has_three_children() {
    let file = parse_src("fn m() { if x == 1 { return; } else { return; } }");
    let body = &file.params[0].params[3];
    assert_eq!(body.params.len(), 1);
    let i = &body.params[0];
    assert!(i.value == TreeType::If);
    assert_eq!(i.params.len(), 3);
    assert!(i.params[0].value == TreeType::Expression);
    assert!(i.params[1].value == TreeType::Body);
    assert!(i.params[2].value == TreeType::Body);
}

#[test]
fn if_without_else_has_two_children() {
    let file = parse_src("fn m() { if x { return; } }");
    let i = &file.params[0].params[3].params[0];
    assert!(i.value == TreeType::If);
    assert_eq!(i.params.len(), 2);
}

#[test]
fn else_if_chains_into_nested_if() {
    let file = parse_src("fn m() { if a { return; } else if b { return; } else { return; } }");
    let i = &file.params[0].params[3].params[0];
    assert!(i.value == TreeType::If);
    assert_eq!(i.params.len(), 3);
    let chained = &i.params[2];
    assert!(chained.value == TreeType::If);
    assert_eq!(chained.params.len(), 3);
    assert!(chained.params[2].value == TreeType::Body);
}

#[test]
fn while_statement_parses() {
    let file = parse_src("fn m() { while x < 10 { return; } }");
    let w = &file.params[0].params[3].params[0];
    assert!(w.value == TreeType::While);
    assert_eq!(w.params.len(), 2);
    assert!(w.params[0].value == TreeType::Expression);
    assert!(w.params[1].value == TreeType::Body);
    assert_eq!(w.params[1].params.len(), 1);
}

#[test]
fn return_with_expression_has_one_child() {
    let file = parse_src("fn m() { return 1 + 2; }");
    let r = &file.params[0].params[3].params[0];
    assert!(r.value == TreeType::Return);
    assert_eq!(r.params.len(), 1);
    assert!(r.params[0].value == TreeType::Expression);
}

#[test]
fn enum_declaration_parses() {
    let file = parse_src("enum Color { Red, Green, Blue }");
    let e = &file.params[0];
    assert!(e.value == TreeType::Enum);
    assert_eq!(e.params.len(), 4);
    assert!(is_ident_leaf(&e.params[0], "Color"));
    assert!(is_ident_leaf(&e.params[1], "Red"));
    assert!(is_ident_leaf(&e.params[2], "Green"));
    assert!(is_ident_leaf(&e.params[3], "Blue"));
}

#[test]
fn struct_declaration_parses() {
    let file = parse_src("struct P { x: int, y: float }");
    let s = &file.params[0];
    assert!(s.value == TreeType::Struct);
    assert_eq!(s.params.len(), 3);
    assert!(is_ident_leaf(&s.params[0], "P"));
    let fx = &s.params[1];
    assert!(fx.value == TreeType::Parameter);
    assert!(is_ident_leaf(&fx.params[0], "x"));
    assert!(matches!(fx.params[1].value, TreeType::Leaf(TokenType::Int)));
    let fy = &s.params[2];
    assert!(is_ident_leaf(&fy.params[0], "y"));
    assert!(matches!(fy.params[1].value, TreeType::Leaf(TokenType::Float)));
}

#[test]
fn missing_colon_in_declaration_fails() {
    let e = parse_err("var x int;");
    assert_eq!(e.line, 1);
    assert!(matches!(e.kind, ParseErrorKind::ExpectedAssignColon));
}

#[test]
fn missing_terminator_in_declaration_fails() {
    let e = parse_err("var x: int");
    assert!(matches!(e.kind, ParseErrorKind::ExpectedAssignOrSemicolon));
}

#[test]
fn non_identifier_variable_name_fails() {
    let e = parse_err("var 1: int;");
    assert!(matches!(e.kind, ParseErrorKind::ExpectedVariableName));
}

#[test]
fn missing_param_colon_fails() {
    let e = parse_err("fn f(a int) {}");
    assert!(matches!(e.kind, ParseErrorKind::ExpectedParamColon));
}

#[test]
fn missing_param_comma_fails() {
    let e = parse_err("fn f(a: int b: int) {}");
    assert!(matches!(e.kind, ParseErrorKind::ExpectedParamsComma));
}

#[test]
fn trailing_comma_in_params_fails() {
    let e = parse_err("fn f(a: int,) {}");
    assert!(matches!(e.kind, ParseErrorKind::ExpectedParameterName));
}

#[test]
fn missing_return_type_after_arrow_fails() {
    let e = parse_err("fn f() -> {}");
    assert!(matches!(e.kind, ParseErrorKind::ExpectedReturnType));
}

#[test]
fn missing_body_after_params_fails() {
    let e = parse_err("fn f()");
    assert!(matches!(e.kind, ParseErrorKind::ExpectedBodyOrArrow));
}

#[test]
fn unclosed_body_fails() {
    let e = parse_err("fn f() { return; ");
    assert!(matches!(e.kind, ParseErrorKind::ExpectedBodyClose));
}

#[test]
fn stray_punctuation_at_top_level_fails() {
    let e = parse_err(")");
    assert!(matches!(e.kind, ParseErrorKind::UnexpectedToken(TokenType::RightParen)));
}

#[test]
fn missing_initializer_expression_fails() {
    let e = parse_err("var x: int = ;");
    assert!(matches!(e.kind, ParseErrorKind::ExpectedExpression));
}

#[test]
fn unclosed_parenthesized_expression_fails() {
    let e = parse_err("var x: int = (1;");
    assert!(matches!(e.kind, ParseErrorKind::ExpectedCloseParen));
}

#[test]
fn empty_input_parses_to_empty_file() {
    let file = parse_src("");
    assert!(file.value == TreeType::File);
    assert_eq!(file.line, 1);
    assert!(file.params.is_empty());
}

#[test]
fn several_declarations_keep_source_order() {
    let file = parse_src("var x: int;\nfn f() {}\nenum E { A }");
    assert_eq!(file.params.len(), 3);
    assert!(file.params[0].value == TreeType::Assign);
    assert!(file.params[1].value == TreeType::Function);
    assert!(file.params[2].value == TreeType::Enum);
    assert_eq!(file.params[0].line, 1);
    assert_eq!(file.params[1].line, 2);
    assert_eq!(file.params[2].line, 3);
}

#[test]
fn bare_literal_statement_resolves_to_leaf() {
    let file = parse_src("x 5");
    assert_eq!(file.params.len(), 2);
    assert!(is_ident_leaf(&file.params[0], "x"));
    assert!(matches!(file.params[1].value, TreeType::Leaf(TokenType::IntLit(5))));
}

#[test]
fn tree_kind_equality_ignores_leaf_payload() {
    assert!(TreeType::Leaf(TokenType::Int) == TreeType::Leaf(TokenType::Var));
    assert!(TreeType::Assign != TreeType::Expression);
}

#[test]
fn error_line_tracks_offending_token() {
    let e = parse_err("fn f() {\nvar x int;\n}");
    assert_eq!(e.line, 2);
    assert!(matches!(e.kind, ParseErrorKind::ExpectedAssignColon));
}
