use violette::codegen::codegen::Codegen;
use violette::codegen::error::CodegenError;
use violette::lexer::lexer::Lexer;
use violette::lexer::span::{ClearSpan, Position, Span};
use violette::lexer::token::Token;
use violette::parser::expression::{Expression, RangeKind};
use violette::parser::parser::Parser;
use violette::parser::{ParseError, Precedence, Statement};
use violette::typechecker::env::Env;
use violette::typechecker::error::BindingKind;
use violette::typechecker::types::Ty;

fn compile_to_c(src: &str) -> Result<String, CodegenError> {
    let lexer = Lexer::new(src);
    let mut parser = Parser::new(lexer);
    let prg = parser.parse_program().expect("the source parses");
    let mut codegen = Codegen::new();
    codegen.emit_program(prg)
}

fn parse_error(src: &str) -> ParseError {
    let lexer = Lexer::new(src);
    let mut parser = Parser::new(lexer);
    match parser.parse_program() {
        Ok(_) => panic!("expected a parse error for {}", src),
        Err(e) => e,
    }
}

fn sp(line: usize, col: usize, end_line: usize, end_col: usize) -> Span {
    Span::new(Position::new(line, col), Position::new(end_line, end_col))
}

#[test]
fn program_with_constant_and_main() {
    let c = compile_to_c("const N = 3\nfun main() {\n    let x = N + 1\n    println(x)\n}\n").unwrap();
    assert_eq!(
        c,
        "#include \"vio_runtime.h\"\n\n#define N 3\n\n\nint main(void) {\n    int64_t x = (N + 1);\n    vio_println_int(x);\n}\n"
    );
}

#[test]
fn top_level_statements_become_main_and_strings_are_dropped() {
    let c = compile_to_c("let s = \"hi\"\nlet t = \"yo\"\nprintln(s)\n").unwrap();
    assert_eq!(
        c,
        "#include \"vio_runtime.h\"\n\nint main(void) {\n    VioString s = vio_str_from_literal(\"hi\", 2);\n    VioString t = vio_str_from_literal(\"yo\", 2);\n    vio_println_string(s);\n    vio_str_drop(t);\n    vio_str_drop(s);\n}\n"
    );
}

#[test]
fn string_literals_are_escaped_and_measured_in_bytes() {
    let c = compile_to_c("let s = \"a\\\"b\\né\"\n").unwrap();
    assert_eq!(
        c,
        "#include \"vio_runtime.h\"\n\nint main(void) {\n    VioString s = vio_str_from_literal(\"a\\\"b\\n\\u{e9}\", 6);\n    vio_str_drop(s);\n}\n"
    );
}

#[test]
fn inclusive_range_loops_with_less_or_equal() {
    let c = compile_to_c("for i in 0..3 {\n    println(i)\n}\n").unwrap();
    assert_eq!(
        c,
        "#include \"vio_runtime.h\"\n\nint main(void) {\n    for (int64_t i = 0; i <= 3; i++) {\n        vio_println_int(i);\n    }\n}\n"
    );
}

#[test]
fn exclusive_range_loops_with_less() {
    let c = compile_to_c("for i in 0:3 {\n    println(i)\n}\n").unwrap();
    assert_eq!(
        c,
        "#include \"vio_runtime.h\"\n\nint main(void) {\n    for (int64_t i = 0; i < 3; i++) {\n        vio_println_int(i);\n    }\n}\n"
    );
}

#[test]
fn struct_and_function_declarations() {
    let c = compile_to_c("struct P {\n    x: int\n}\nfun add(a: int, b: int) [int] {\n    return a + b\n}\n")
        .unwrap();
    assert_eq!(
        c,
        "#include \"vio_runtime.h\"\n\ntypedef struct {\n\tint64_t x;\n} P;\nint64_t add(int64_t a, int64_t b) {\n    return (a + b);\n}\n"
    );
}

#[test]
fn power_and_string_concatenation() {
    let c = compile_to_c("let a = 2 ** 3\nlet s = \"x\" + \"y\"\n").unwrap();
    assert_eq!(
        c,
        "#include \"vio_runtime.h\"\n\nint main(void) {\n    int64_t a = pow(2, 3);\n    VioString s = vio_str_concat(vio_str_from_literal(\"x\", 1), vio_str_from_literal(\"y\", 1));\n    vio_str_drop(s);\n}\n"
    );
}

#[test]
fn if_else_chain() {
    let c = compile_to_c("var x = 1\nif x < 2 {\n    x = 3\n} else if x > 5 {\n    x = 4\n} else {\n    x = 5\n}\n")
        .unwrap();
    assert_eq!(
        c,
        "#include \"vio_runtime.h\"\n\nint main(void) {\n    int64_t x = 1;\n    if ((x < 2)) {\n        (x = 3);\n    }\n    else if ((x > 5)) {\n        (x = 4);\n    }\n    else {\n        (x = 5);\n    }\n}\n"
    );
}

#[test]
fn for_over_something_else_than_a_range_is_unsupported() {
    let e = compile_to_c("for x in y {\n}\n").unwrap_err();
    assert_eq!(e, CodegenError::Unsupported("For-loop expects a range".to_string()));
}

#[test]
fn open_range_is_unsupported() {
    let stmt = Statement::ForRange {
        variable: "i".to_string(),
        iterable: Expression::Range {
            start: Some(Box::new(Expression::IntLiteral { val: 1, span: Span::default() })),
            end: None,
            range_kind: RangeKind::Exclusive,
            span: Span::default(),
        },
        body: vec![],
        span: Span::default(),
    };
    let mut codegen = Codegen::new();
    assert_eq!(
        codegen.emit_for(&stmt),
        Err(CodegenError::Unsupported("Open ranges".to_string()))
    );
}

#[test]
fn printing_a_struct_is_unsupported() {
    let e = compile_to_c("print(P { x: 1 })\n").unwrap_err();
    assert_eq!(e, CodegenError::Unsupported("print for this type".to_string()));
}

#[test]
fn logical_not_is_not_an_operator_of_the_generator() {
    let e = compile_to_c("let b = !true\n").unwrap_err();
    assert_eq!(e, CodegenError::Unexpected("Not an operator".to_string()));
}

#[test]
fn unsupported_expression_is_reported_with_its_debug_text() {
    let expr = Expression::Index {
        left: Box::new(Expression::Identifier { name: "arr".to_string(), span: Span::default() }),
        index: Box::new(Expression::IntLiteral { val: 1, span: Span::default() }),
        span: Span::default(),
    };
    let mut codegen = Codegen::new();
    let e = codegen.emit_expression(&expr).unwrap_err();
    let expected = format!("this expression: {:?}", expr);
    assert!(expected.starts_with("this expression: Index {"));
    assert_eq!(e, CodegenError::Unsupported(expected));
}

#[test]
fn function_generator_rejects_other_statements() {
    let stmt = Statement::Return { value: None, span: Span::default() };
    let mut codegen = Codegen::new();
    let e = codegen.emit_function(&stmt).unwrap_err();
    assert_eq!(e, CodegenError::Unexpected(format!("{:?}", stmt)));
    assert_eq!(e, CodegenError::Unexpected("Return { value: None, span: Span { start: Position { line: 0, col: 0 }, end: Position { line: 0, col: 0 } } }".to_string()));
    let e = codegen.emit_struct(&stmt).unwrap_err();
    assert_eq!(e, CodegenError::Unexpected(format!("{:?}", stmt)));
}

#[test]
fn c_types_of_the_types() {
    let mut codegen = Codegen::new();
    assert_eq!(codegen.c_type(&Ty::Int), "int64_t");
    assert_eq!(codegen.c_type(&Ty::Float), "double");
    assert_eq!(codegen.c_type(&Ty::Bool), "bool");
    assert_eq!(codegen.c_type(&Ty::String), "VioString");
    assert_eq!(codegen.c_type(&Ty::Struct("User".to_string())), "User");
    assert_eq!(codegen.c_type(&Ty::Unit), "void");
    assert_eq!(codegen.c_type(&Ty::Unknown), "unknown");
}

#[test]
fn unexpected_token_is_reported_with_its_place() {
    let e = parse_error("let = 5\n");
    assert_eq!(e, ParseError::UnexpectedToken { token: Token::Assign, span: sp(1, 5, 1, 6) });
}

#[test]
fn nesting_too_deep_is_refused() {
    let src = format!("{}1{}", "(".repeat(300), ")".repeat(300));
    let lexer = Lexer::new(&src);
    let mut parser = Parser::new(lexer);
    let e = parser.parse_expression(Precedence::Lowest).unwrap_err();
    assert!(matches!(e, ParseError::TooDeep { .. }));
}

#[test]
fn struct_literal_is_not_read_in_a_condition() {
    let lexer = Lexer::new("if x {\n}\n");
    let mut parser = Parser::new(lexer);
    let s = parser.parse_statement().unwrap();
    match s {
        Statement::If(i) => {
            assert!(matches!(i.condition, Expression::Identifier { .. }));
            assert!(i.then_block.is_empty());
        }
        other => panic!("expected an if statement, got {:?}", other),
    }
}

#[test]
fn env_lookup_sees_the_latest_binding_and_pop_restores() {
    let mut env = Env::default();
    env.push();
    env.define("x".to_string(), Ty::Int, BindingKind::Var, &Span::default()).unwrap();
    env.push();
    assert_eq!(env.lookup("x").map(|i| i.ty), Some(Ty::Int));
    env.define("x".to_string(), Ty::Bool, BindingKind::Const, &Span::default()).unwrap();
    let inner = env.lookup("x").unwrap();
    assert_eq!(inner.ty, Ty::Bool);
    assert_eq!(inner.kind, BindingKind::Const);
    env.pop();
    let outer = env.lookup("x").unwrap();
    assert_eq!(outer.ty, Ty::Int);
    assert_eq!(outer.kind, BindingKind::Var);
    assert!(env.lookup("y").is_none());
}

#[test]
fn env_define_without_scope_opens_one() {
    let mut env = Env::default();
    assert!(env.define("a".to_string(), Ty::Int, BindingKind::Let, &Span::default()).is_ok());
    assert_eq!(env.lookup("a").map(|i| i.kind), Some(BindingKind::Let));
}

#[test]
fn only_var_bindings_are_mutable() {
    assert!(BindingKind::Var.is_mutable());
    assert!(!BindingKind::Let.is_mutable());
    assert!(!BindingKind::Const.is_mutable());
}

#[test]
fn merging_spans_covers_both() {
    let a = sp(1, 5, 1, 9);
    let b = sp(2, 1, 2, 3);
    let m = a.merge(&b);
    assert_eq!(m, sp(1, 5, 2, 3));
    assert_eq!(b.merge(&a), m);
    assert_eq!(a.merge(&a), a);
    let c = sp(1, 7, 3, 1);
    assert_eq!(a.merge(&b).merge(&c), a.merge(&b.merge(&c)));
}

fn kinds(src: &str) -> Vec<Token> {
    let mut lexer = Lexer::new(src);
    lexer.tokenize().into_iter().map(|t| t.token).collect()
}

#[test]
fn numbers_keep_float_text_and_refuse_too_large_integers() {
    assert_eq!(
        kinds("1.5 2 99999999999999999999"),
        vec![Token::Float("1.5".to_string()), Token::Int(2), Token::Illegal('9'), Token::Eof]
    );
}

#[test]
fn comments_and_blanks_are_skipped_but_line_breaks_are_tokens() {
    assert_eq!(
        kinds("a // note\n\tb"),
        vec![
            Token::Identifier("a".to_string()),
            Token::Newline,
            Token::Identifier("b".to_string()),
            Token::Eof
        ]
    );
}

#[test]
fn unterminated_string_is_illegal() {
    assert_eq!(kinds("\"open"), vec![Token::Illegal('"'), Token::Eof]);
}

#[test]
fn operators_of_two_characters() {
    assert_eq!(
        kinds("x ~> y ** 2 .. 3 == 4 => # |"),
        vec![
            Token::Identifier("x".to_string()),
            Token::Sprout,
            Token::Identifier("y".to_string()),
            Token::Power,
            Token::Int(2),
            Token::DoubleDot,
            Token::Int(3),
            Token::Equals,
            Token::Int(4),
            Token::FatArrow,
            Token::BitOr,
            Token::Pipe,
            Token::Eof
        ]
    );
}

#[test]
fn tokens_carry_their_spans_and_eof_repeats() {
    let mut lexer = Lexer::new("let x");
    let t1 = lexer.next_token();
    assert_eq!(t1.token, Token::Let);
    assert_eq!(t1.span, sp(1, 1, 1, 4));
    let t2 = lexer.next_token();
    assert_eq!(t2.token, Token::Identifier("x".to_string()));
    assert_eq!(t2.span, sp(1, 5, 1, 6));
    let t3 = lexer.next_token();
    assert_eq!(t3.token, Token::Eof);
    assert_eq!(t3.span, sp(1, 6, 1, 6));
    let t4 = lexer.next_token();
    assert_eq!(t4.token, Token::Eof);
    assert_eq!(t4.span, sp(1, 6, 1, 6));
}

#[test]
fn program_keeps_declarations_apart() {
    let lexer = Lexer::new("let a = 1\nfun f() {\n}\nconst B = 2\nstruct S {\n}\nf()\n");
    let mut parser = Parser::new(lexer);
    let prg = parser.parse_program().unwrap();
    assert_eq!(prg.declarations.len(), 3);
    assert!(matches!(prg.declarations[0], Statement::Fun { .. }));
    assert!(matches!(prg.declarations[1], Statement::Const { .. }));
    assert!(matches!(prg.declarations[2], Statement::Struct { .. }));
    assert_eq!(prg.main.len(), 2);
    assert!(matches!(prg.main[0], Statement::Let { .. }));
    assert!(matches!(prg.main[1], Statement::Expression { .. }));
}

#[test]
fn clearing_spans_forgets_layout_and_is_idempotent() {
    let parse = |src: &str| {
        let lexer = Lexer::new(src);
        let mut parser = Parser::new(lexer);
        parser.parse_expression(Precedence::Lowest).unwrap()
    };
    let mut a = parse("f(x, 1) + y");
    let mut b = parse("f( x ,1 )  +   y");
    assert_ne!(a, b);
    a.clear_span();
    b.clear_span();
    assert_eq!(a, b);
    let mut once = parse("f(x, 1) + y");
    let mut twice = parse("f(x, 1) + y");
    once.clear_span();
    twice.clear_span();
    twice.clear_span();
    assert_eq!(once, twice);
}

fn parse_expr(src: &str) -> Expression {
    let lexer = Lexer::new(src);
    let mut parser = Parser::new(lexer);
    parser.parse_expression(Precedence::Lowest).unwrap()
}

fn int_lit(v: isize) -> Box<Expression> {
    Box::new(Expression::IntLiteral { val: v, span: Span::default() })
}

#[test]
fn bracketed_exclusive_range_keeps_its_end() {
    let mut e = parse_expr("(1:10)");
    e.clear_span();
    assert_eq!(
        e,
        Expression::Range {
            start: Some(int_lit(1)),
            end: Some(int_lit(10)),
            range_kind: RangeKind::Exclusive,
            span: Span::default(),
        }
    );
}

#[test]
fn bracketed_inclusive_range_keeps_its_end() {
    let mut e = parse_expr("(1..10)");
    e.clear_span();
    assert_eq!(
        e,
        Expression::Range {
            start: Some(int_lit(1)),
            end: Some(int_lit(10)),
            range_kind: RangeKind::Inclusive,
            span: Span::default(),
        }
    );
}

#[test]
fn range_without_an_end_is_refused() {
    for (src, token, col) in [("(1:)", Token::RightParen, 4), ("a[1:]", Token::RightBracket, 5)] {
        let lexer = Lexer::new(src);
        let mut parser = Parser::new(lexer);
        let e = parser.parse_expression(Precedence::Lowest).unwrap_err();
        assert_eq!(e, ParseError::UnexpectedToken { token, span: sp(1, col, 1, col + 1) });
    }
}

#[test]
fn parse_error_messages_name_the_token_and_the_place() {
    let e = parse_error("let = 5\n");
    assert_eq!(e.message(), "unexpected = at 1:5");
    let src = format!("{}1{}", "(".repeat(300), ")".repeat(300));
    let lexer = Lexer::new(&src);
    let mut parser = Parser::new(lexer);
    let e = parser.parse_expression(Precedence::Lowest).unwrap_err();
    assert!(e.message().starts_with("expression nested too deeply at 1:"));
}

#[test]
fn tokens_read_back_as_their_text() {
    assert_eq!(Token::Assign.text(), "=");
    assert_eq!(Token::Identifier("abc".to_string()).text(), "abc");
    assert_eq!(Token::Comma.text(), ",");
}

#[test]
fn clearing_spans_keeps_lambda_parameter_spans() {
    let mut e = parse_expr("fun(x: int) {\n}");
    e.clear_span();
    match e {
        Expression::Lambda { params, span, .. } => {
            assert_eq!(span, Span::default());
            assert_eq!(params.len(), 1);
            assert_ne!(params[0].span, Span::default());
        }
        other => panic!("expected a lambda, got {:?}", other),
    }
}

#[test]
fn cloned_trees_are_equal_to_their_originals() {
    let lexer = Lexer::new(
        "fun f(x: int) [Win(User) | Fail(NotFound)] {\n    if x > 1 {\n        return g(x, y[2])\n    } else if x == 0 {\n        let y = P { a: 1 }\n    } else {\n        for i in 1:10 {\n            print(i)\n        }\n    }\n}\n",
    );
    let mut parser = Parser::new(lexer);
    let prg = parser.parse_program().expect("the source parses");
    for s in prg.declarations.iter().chain(prg.main.iter()) {
        assert_eq!(s.clone(), *s);
    }
    let e = parse_expr("fun(a: int) {\n    a.b(c)[0]\n}");
    assert_eq!(e.clone(), e);
}
