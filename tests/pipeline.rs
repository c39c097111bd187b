use ice::ast::{Expression, Statement, Type, TypeMapping};
use ice::lexer::Lexer;
use ice::parser::Parser;
use ice::tokens::{Location, Token, TokenKind};

fn lex(src: &str) -> Result<Vec<Token>, String> {
    Lexer::new(src.to_string()).lex()
}

fn parse(src: &str) -> Result<Vec<Statement>, Vec<String>> {
    let tokens = lex(src).expect("source should lex");
    Parser::new(tokens).parse()
}

fn render(src: &str) -> Vec<String> {
    parse(src)
        .expect("source should parse")
        .iter()
        .map(|s| s.to_string())
        .collect()
}

fn kinds(src: &str) -> Vec<TokenKind> {
    lex(src).expect("source should lex").iter().map(|t| t.kind).collect()
}

#[test]
fn multiplication_binds_tighter_than_addition() {
    assert_eq!(render("1 + 2 * 3;"), vec!["(1 + (2 * 3));"]);
}

#[test]
fn subtraction_associates_left() {
    assert_eq!(render("1 - 2 - 3;"), vec!["((1 - 2) - 3);"]);
}

#[test]
fn mixed_precedence_chains() {
    assert_eq!(render("8 / 4 / 2;"), vec!["((8 / 4) / 2);"]);
    assert_eq!(render("1 * 2 + 3;"), vec!["((1 * 2) + 3);"]);
    assert_eq!(render("a + b * c - d;"), vec!["((a + (b * c)) - d);"]);
}

#[test]
fn return_without_value() {
    assert_eq!(render("return;"), vec!["return"]);
}

#[test]
fn return_with_value() {
    assert_eq!(render("return 1 + 2;"), vec!["return (1 + 2)"]);
}

#[test]
fn call_with_arguments() {
    assert_eq!(render("foo(1, 2);"), vec!["fcall: foo(1, 2);"]);
}

#[test]
fn call_without_arguments() {
    assert_eq!(render("foo();"), vec!["fcall: foo();"]);
}

#[test]
fn call_with_trailing_comma() {
    assert_eq!(render("foo(1, 2,);"), vec!["fcall: foo(1, 2);"]);
}

#[test]
fn nested_calls() {
    assert_eq!(render("f(g(1), x + 2);"), vec!["fcall: f(fcall: g(1), (x + 2));"]);
}

#[test]
fn function_literal_needs_no_semicolon() {
    let stmts = parse("fn add(a: int, b: int) :: int { return a + b; }").unwrap();
    assert_eq!(stmts.len(), 1);
    match &stmts[0] {
        Statement::ExpressionStatement { expression } => {
            assert_eq!(
                expression.to_string(),
                "fn add(a: int, b: int) -> int { return (a + b) }"
            );
        }
        other => panic!("unexpected statement {:?}", other),
    }
    assert_eq!(
        stmts[0].to_string(),
        "fn add(a: int, b: int) -> int { return (a + b) };"
    );
}

#[test]
fn function_literal_without_return_type() {
    assert_eq!(render("fn f() { }"), vec!["fn f() -> void {  };"]);
    assert_eq!(
        render("fn f() { 1; 2; } 3;"),
        vec!["fn f() -> void { 1; 2; };", "3;"]
    );
}

#[test]
fn immediately_invoked_function_literal() {
    let stmts = parse("fn(x: int) :: int { return x; }(5);").unwrap();
    assert_eq!(stmts.len(), 1);
    match &stmts[0] {
        Statement::ExpressionStatement {
            expression: Expression::FunctionCall { callee, args },
        } => {
            assert!(matches!(**callee, Expression::FunctionLiteral { name: None, .. }));
            assert_eq!(args.len(), 1);
        }
        other => panic!("unexpected statement {:?}", other),
    }
    assert_eq!(
        stmts[0].to_string(),
        "fcall: fn <anon>(x: int) -> int { return x }(5);"
    );
}

#[test]
fn unary_sign_before_atom() {
    assert_eq!(render("-5;"), vec!["(-5);"]);
    assert_eq!(render("-x + 1;"), vec!["((-x) + 1);"]);
    assert_eq!(render("+f(1) * 2;"), vec!["((+fcall: f(1)) * 2);"]);
}

#[test]
fn second_sign_is_rejected() {
    let errs = parse("- -5;").unwrap_err();
    assert_eq!(errs[0], "unexpected token '-' (Minus) at line: 1, col: 3");
}

#[test]
fn unterminated_string_fails_lexing() {
    assert_eq!(lex("x \"abc\n\";").unwrap_err(), "Unclosed string");
    assert_eq!(lex("\"abc\n\"").unwrap_err(), "Unclosed string");
}

#[test]
fn string_at_end_of_input_is_unclosed() {
    assert_eq!(lex("\"abc").unwrap_err(), "Unclosed string");
}

#[test]
fn unknown_lexeme_reports_location() {
    assert_eq!(lex("1 @ 2;").unwrap_err(), "unrecognized lexeme at line: 1, col: 3");
    assert_eq!(lex("x;\n  @").unwrap_err(), "unrecognized lexeme at line: 2, col: 3");
}

#[test]
fn errors_accumulate_across_statements() {
    let errs = parse("1 +; 2; 3 *;").unwrap_err();
    assert_eq!(errs.len(), 2);
    assert_eq!(errs[0], "unexpected token ';' (Semicolon) at line: 1, col: 4");
    assert_eq!(errs[1], "unexpected token ';' (Semicolon) at line: 1, col: 12");
}

#[test]
fn missing_semicolon_is_reported() {
    let errs = parse("1 + 2").unwrap_err();
    assert_eq!(errs, vec!["expected Semicolon at line 1 col 6".to_string()]);
}

#[test]
fn unterminated_function_body() {
    let errs = parse("fn f() { return 1;").unwrap_err();
    assert_eq!(
        errs,
        vec!["unexpected end of input in function body at line: 1, col: 1".to_string()]
    );
}

#[test]
fn only_int_is_a_type() {
    let errs = parse("fn f(a: x) {}").unwrap_err();
    assert_eq!(errs[0], "Expected type at line: 1, col: 9, but got: identifier");
}

#[test]
fn empty_program_parses_to_nothing() {
    assert_eq!(render(""), Vec::<String>::new());
    assert_eq!(render("  // only a comment"), Vec::<String>::new());
}

#[test]
fn rendering_twice_gives_the_same_text() {
    let stmts = parse("fn f(a: int) :: int { return -a * 2; } f(3);").unwrap();
    for s in &stmts {
        assert_eq!(s.to_string(), s.to_string());
    }
}

#[test]
fn operators_and_double_operators() {
    let ts = lex("a ++ b -- c + - * /").unwrap();
    let ks: Vec<TokenKind> = ts.iter().map(|t| t.kind).collect();
    assert_eq!(
        ks,
        vec![
            TokenKind::Id,
            TokenKind::Inc,
            TokenKind::Id,
            TokenKind::Decr,
            TokenKind::Id,
            TokenKind::Plus,
            TokenKind::Minus,
            TokenKind::Star,
            TokenKind::Slash,
            TokenKind::EOF
        ]
    );
    assert_eq!(ts[1].literal, "++");
    assert_eq!(ts[3].literal, "--");
}

#[test]
fn punctuation_kinds() {
    assert_eq!(
        kinds(": ; ( ) { } ,"),
        vec![
            TokenKind::Colon,
            TokenKind::Semicolon,
            TokenKind::LParen,
            TokenKind::RParen,
            TokenKind::LCurly,
            TokenKind::RCurly,
            TokenKind::Comma,
            TokenKind::EOF
        ]
    );
}

#[test]
fn keywords_and_identifiers() {
    let ts = lex("return fn int intx _a1").unwrap();
    let ks: Vec<TokenKind> = ts.iter().map(|t| t.kind).collect();
    assert_eq!(
        ks,
        vec![
            TokenKind::Return,
            TokenKind::Fn,
            TokenKind::Int,
            TokenKind::Id,
            TokenKind::Id,
            TokenKind::EOF
        ]
    );
    assert_eq!(ts[3].literal, "intx");
    assert_eq!(ts[4].literal, "_a1");
}

#[test]
fn numbers_with_dots_are_floats() {
    let ts = lex("1_000.5 42 1.2.3").unwrap();
    assert_eq!(ts[0].kind, TokenKind::Float);
    assert_eq!(ts[0].literal, "1_000.5");
    assert_eq!(ts[1].kind, TokenKind::Int);
    assert_eq!(ts[1].literal, "42");
    assert_eq!(ts[2].kind, TokenKind::Float);
    assert_eq!(ts[2].literal, "1.2.3");
}

#[test]
fn string_literals_keep_quotes_and_escapes() {
    let ts = lex("\"a\\\"b\" x").unwrap();
    assert_eq!(ts[0].kind, TokenKind::String);
    assert_eq!(ts[0].literal, "\"a\\\"b\"");
    assert_eq!(ts[1].kind, TokenKind::Id);
    let ts = lex("\"a\\\\\" y").unwrap();
    assert_eq!(ts[0].literal, "\"a\\\\\"");
    assert_eq!(ts[1].literal, "y");
}

#[test]
fn comments_are_skipped() {
    assert_eq!(render("// c\n1; /* x */ 2;"), vec!["1;", "2;"]);
    assert_eq!(render("/* a * b */ 3; /* c */ /* d */ 4;"), vec!["3;", "4;"]);
}

#[test]
fn token_locations() {
    let ts = lex("ab\n  cd").unwrap();
    assert_eq!((ts[0].location.line, ts[0].location.col), (1, 1));
    assert_eq!((ts[1].location.line, ts[1].location.col), (2, 3));
    assert_eq!(ts[2].kind, TokenKind::EOF);
    assert_eq!(ts[2].literal, "");
    assert_eq!((ts[2].location.line, ts[2].location.col), (2, 5));
}

#[test]
fn exactly_one_end_marker() {
    let ts = lex("").unwrap();
    assert_eq!(ts.len(), 1);
    assert_eq!(ts[0].kind, TokenKind::EOF);
}

#[test]
fn location_moves() {
    let mut l = Location::new(4, 2);
    l.add_col();
    assert_eq!((l.line, l.col), (2, 5));
    l.add_line();
    assert_eq!((l.line, l.col), (3, 1));
    assert_eq!(l.to_string(), "line: 3, col: 1");
}

#[test]
fn token_kind_queries() {
    assert!(TokenKind::Plus.is(TokenKind::Plus));
    assert!(!TokenKind::Plus.is(TokenKind::Minus));
    assert!(TokenKind::Star.is_one_of(&[TokenKind::Plus, TokenKind::Star]));
    assert!(!TokenKind::Id.is_one_of(&[TokenKind::Plus, TokenKind::Star]));
    assert_eq!(TokenKind::EOF.to_string(), "end of file");
    assert_eq!(TokenKind::Int.to_string(), "integer literal");
}

#[test]
fn token_new_keeps_fields() {
    let t = Token::new(TokenKind::Id, "x".to_string(), Location::new(2, 1));
    assert_eq!(t.kind, TokenKind::Id);
    assert_eq!(t.literal, "x");
    assert_eq!((t.location.line, t.location.col), (1, 2));
}

#[test]
fn type_rendering() {
    let t = Type::Function {
        return_type: Box::new(Type::Int),
        param_types: vec![Type::Int, Type::String],
    };
    assert_eq!(t.to_string(), "fn(int, string) -> int");
    assert_eq!(Type::String.to_string(), "string");
    let name = Token::new(TokenKind::Id, "n".to_string(), Location::new(1, 1));
    let p = TypeMapping::new(Expression::Id { name }, Type::Int);
    assert_eq!(p.to_string(), "n: int");
}

#[test]
fn halt_renders_as_eof() {
    assert_eq!(Statement::Halt.to_string(), "EOF");
}

#[test]
fn identifiers_may_use_unicode_letters() {
    let ts = lex("héllo wörld").unwrap();
    assert_eq!(ts.len(), 3);
    assert_eq!(ts[0].kind, TokenKind::Id);
    assert_eq!(ts[0].literal, "héllo");
    assert_eq!(ts[1].literal, "wörld");
    assert_eq!((ts[1].location.line, ts[1].location.col), (1, 7));
}

#[test]
fn tabs_and_carriage_returns_are_whitespace() {
    assert_eq!(render("1;\r\n\t2;"), vec!["1;", "2;"]);
}

#[test]
fn recovery_skips_one_token_per_error() {
    let errs = parse(") ) 1;").unwrap_err();
    assert_eq!(errs.len(), 2);
    assert_eq!(errs[0], "unexpected token ')' (RParen) at line: 1, col: 1");
    assert_eq!(errs[1], "unexpected token ')' (RParen) at line: 1, col: 3");
}

#[test]
fn missing_second_colon_before_return_type() {
    let errs = parse("fn f() : int {}").unwrap_err();
    assert_eq!(errs[0], "expected Colon at line 1 col 10");
}

#[test]
fn parser_on_stream_without_end_marker() {
    let t = Token::new(TokenKind::Int, "7".to_string(), Location::new(1, 1));
    let errs = Parser::new(vec![t]).parse().unwrap_err();
    assert_eq!(errs, vec!["input expected ; after token at line 1 col 1 ".to_string()]);
    assert_eq!(Parser::new(Vec::new()).parse().unwrap().len(), 0);
}

#[test]
fn end_of_input_where_an_operand_is_expected() {
    let errs = parse("1 +").unwrap_err();
    assert_eq!(errs, vec!["unexpected end of input while parsing expression".to_string()]);
    let errs = parse("return -").unwrap_err();
    assert_eq!(errs, vec!["unexpected end of input while parsing expression".to_string()]);
}

#[test]
fn whitespace_class_agrees_with_std() {
    for u in 0..=0x10FFFFu32 {
        if let Some(c) = char::from_u32(u) {
            assert_eq!(ice::text::is_whitespace(c), c.is_whitespace(), "U+{:04X}", u);
        }
    }
}

#[test]
fn comments_after_whitespace_and_between_tokens() {
    assert_eq!(render("  \n /* a */ // b\n  1 /* c */ + 2;"), vec!["(1 + 2);"]);
}

#[test]
fn cloned_trees_render_alike() {
    let stmts = parse("fn f(a: int) :: int { return -a * g(a, 2); }(1); return;").unwrap();
    for s in &stmts {
        assert_eq!(s.clone().to_string(), s.to_string());
    }
    let t = Type::Function { return_type: Box::new(Type::Int), param_types: vec![Type::String] };
    assert_eq!(t.clone().to_string(), "fn(string) -> int");
}
