use violette::lexer::lexer::Lexer;
use violette::lexer::span::{ClearSpan, Span};
use violette::lexer::token::PrimitiveType::{Int, String};
use violette::lexer::token::{PrimitiveType, Token};
use violette::parser::parser::Parser;
use violette::parser::statement::{ElseIf, FunParam, IfStatement, StructParam};
use violette::parser::types::Type::{Primitive, Union};
use violette::parser::types::{Type, TypePath};
use violette::parser::{Expression, Statement};

fn dummy_span() -> Span {
    Span::default()
}

fn assert_stmt_tests(test_cases: Vec<(&str, Statement)>) {
    for (input, expected) in test_cases {
        let lexer = Lexer::new(input);
        let mut parser = Parser::new(lexer);
        let mut actual = parser.parse_statement().unwrap();
        actual.clear_span();
        assert_eq!(actual, expected, "Failing case: {}", input);
    }
}

fn ident(s: &str) -> Expression {
    Expression::Identifier { name: s.to_string(), span: dummy_span() }
}

fn int_lit(n: isize) -> Expression {
    Expression::IntLiteral { val: n, span: dummy_span() }
}

fn infix(l: Expression, op: Token, r: Expression) -> Expression {
    Expression::Infix { left: Box::new(l), operator: op, right: Box::new(r), span: dummy_span() }
}

fn postfix(l: Expression, op: Token) -> Expression {
    Expression::Postfix { left: Box::new(l), operator: op, span: dummy_span() }
}

fn index(l: Expression, i: Expression) -> Expression {
    Expression::Index { left: Box::new(l), index: Box::new(i), span: dummy_span() }
}

fn call(f: Expression, args: Vec<Expression>) -> Expression {
    Expression::Call { function: Box::new(f), args, span: dummy_span() }
}

fn expr_stmt(expr: Expression) -> Statement {
    Statement::Expression { expression: expr, span: dummy_span() }
}

fn let_stmt(name: &str, value: Expression) -> Statement {
    Statement::Let { name: name.to_string(), value, span: dummy_span() }
}

fn const_stmt(name: &str, value: Expression) -> Statement {
    Statement::Const { name: name.to_string(), value, span: dummy_span() }
}

fn if_stmt(
    cond: Expression,
    then: Vec<Statement>,
    elif: Vec<ElseIf>,
    else_block: Vec<Statement>,
) -> Statement {
    Statement::If(IfStatement {
        condition: cond,
        then_block: then,
        else_if: elif,
        else_block,
        span: dummy_span(),
    })
}

fn for_cond(condition: Expression, body: Vec<Statement>) -> Statement {
    Statement::ForCondition { condition, body, span: dummy_span() }
}

fn for_range(var: &str, iter: Expression, body: Vec<Statement>) -> Statement {
    Statement::ForRange { variable: var.to_string(), iterable: iter, body, span: dummy_span() }
}

fn for_counter(init: Statement, cond: Expression, post: Expression, body: Vec<Statement>) -> Statement {
    Statement::ForCounter {
        init: Box::new(init),
        condition: cond,
        post,
        body,
        span: dummy_span(),
    }
}

fn ret(v: Option<Expression>) -> Statement {
    Statement::Return { value: v, span: dummy_span() }
}

fn fun(name: &str, params: Vec<FunParam>, ret: Option<Type>, body: Vec<Statement>) -> Statement {
    Statement::Fun { name: name.to_string(), params, return_type: ret, body, span: dummy_span() }
}

fn struct_def(name: &str, fields: Vec<FunParam>) -> Statement {
    Statement::Struct { name: name.to_string(), fields, span: dummy_span() }
}

#[test]
fn basic_statements() {
    let test_cases = vec![
        ("let x = 5", let_stmt("x", int_lit(5))),
        (
            "const THREE_HOURS_IN_SECONDS = 3 * 24 * 60 ** 2",
            const_stmt(
                "THREE_HOURS_IN_SECONDS",
                infix(
                    infix(int_lit(3), Token::Multiply, int_lit(24)),
                    Token::Multiply,
                    infix(int_lit(60), Token::Power, int_lit(2)),
                ),
            ),
        ),
        (
            "\
if a > 7 {
    let b = a - 3
} else if a < 3 {
    let b = a + 4
} else if a < 5 {
    let b = a - 2
} else {
    let b = a + 5
}",
            if_stmt(
                infix(ident("a"), Token::Greater, int_lit(7)),
                vec![let_stmt("b", infix(ident("a"), Token::Subtract, int_lit(3)))],
                vec![
                    ElseIf {
                        condition: infix(ident("a"), Token::Less, int_lit(3)),
                        block: vec![let_stmt("b", infix(ident("a"), Token::Add, int_lit(4)))],
                        span: Span::default(),
                    },
                    ElseIf {
                        condition: infix(ident("a"), Token::Less, int_lit(5)),
                        block: vec![let_stmt("b", infix(ident("a"), Token::Subtract, int_lit(2)))],
                        span: Span::default(),
                    },
                ],
                vec![let_stmt("b", infix(ident("a"), Token::Add, int_lit(5)))],
            ),
        ),
    ];

    assert_stmt_tests(test_cases);
}

#[test]
fn for_whose_advantage() {
    let test_cases = vec![
        (
            "for i = someVar; i < 10; i++ {
    let a = 5 * i
    let b = i * 3
}",
            for_counter(
                let_stmt("i", ident("someVar")),
                infix(ident("i"), Token::Less, int_lit(10)),
                postfix(ident("i"), Token::Increment),
                vec![
                    let_stmt("a", infix(int_lit(5), Token::Multiply, ident("i"))),
                    let_stmt("b", infix(ident("i"), Token::Multiply, int_lit(3))),
                ],
            ),
        ),
        (
            "for x in thru(1, 10) {
    let a = 5 * x
    let b = x * 3
}",
            for_range(
                "x",
                call(ident("thru"), vec![int_lit(1), int_lit(10)]),
                vec![
                    let_stmt("a", infix(int_lit(5), Token::Multiply, ident("x"))),
                    let_stmt("b", infix(ident("x"), Token::Multiply, int_lit(3))),
                ],
            ),
        ),
        (
            "for left < right {
    left++
    right--
}",
            for_cond(
                infix(ident("left"), Token::Less, ident("right")),
                vec![
                    expr_stmt(postfix(ident("left"), Token::Increment)),
                    expr_stmt(postfix(ident("right"), Token::Decrement)),
                ],
            ),
        ),
    ];

    assert_stmt_tests(test_cases);
}

#[test]
fn fun_fetch_user_ii() {
    let input = "fun fetch_user(db: Sql.databases.psql, count: int) [Win(User) | Fail(NotFound) | Fail(NotConnected)] {
    return count + 5
}";

    assert_stmt_tests(vec![(
        input,
        fun(
            "fetch_user",
            vec![
                FunParam {
                    name: "db".to_string(),
                    param_type: Type::Named(TypePath {
                        segments: vec![
                            "Sql".to_string(),
                            "databases".to_string(),
                            "psql".to_string(),
                        ],
                    }),
                    span: Span::default(),
                },
                FunParam {
                    name: "count".to_string(),
                    param_type: Type::Primitive(PrimitiveType::Int),
                    span: Span::default(),
                },
            ],
            Some(Union(vec![
                Type::Generic {
                    name: "Win".to_string(),
                    param: Box::new(Type::Named(TypePath { segments: vec!["User".to_string()] })),
                },
                Type::Generic {
                    name: "Fail".to_string(),
                    param: Box::new(Type::Named(TypePath {
                        segments: vec!["NotFound".to_string()],
                    })),
                },
                Type::Generic {
                    name: "Fail".to_string(),
                    param: Box::new(Type::Named(TypePath {
                        segments: vec!["NotConnected".to_string()],
                    })),
                },
            ])),
            vec![ret(Some(infix(ident("count"), Token::Add, int_lit(5))))],
        ),
    )]);
}

#[test]
fn binary_search() {
    let test_cases = vec![
        (
            "let ans = arr[mid + 1]",
            let_stmt("ans", index(ident("arr"), infix(ident("mid"), Token::Add, int_lit(1)))),
        ),
        (
            "fun BinarySearch(arr: std.vector, target: int) [Win(int) | Fail(NotFound)] {
    let left = 0
    let right = len(arr)

    for left < right {
        let mid = left + (right - left) / 2

        if arr[mid] < target {
            left = mid + 1
        } else if arr[mid] > target {
            right = mid - 1
        } else {
            return Win(mid)
        }
    }

    return Fail(NotFound)
}",
            fun(
                "BinarySearch",
                vec![
                    FunParam {
                        name: "arr".to_string(),
                        param_type: Type::Named(TypePath {
                            segments: vec!["std".to_string(), "vector".to_string()],
                        }),
                        span: Span::default(),
                    },
                    FunParam {
                        name: "target".to_string(),
                        param_type: Type::Primitive(Int),
                        span: Span::default(),
                    },
                ],
                Some(Union(vec![
                    Type::Generic { name: "Win".to_string(), param: Box::new(Primitive(Int)) },
                    Type::Generic {
                        name: "Fail".to_string(),
                        param: Box::new(Type::Named(TypePath {
                            segments: vec!["NotFound".to_string()],
                        })),
                    },
                ])),
                vec![
                    let_stmt("left", int_lit(0)),
                    let_stmt("right", call(ident("len"), vec![ident("arr")])),
                    for_cond(
                        infix(ident("left"), Token::Less, ident("right")),
                        vec![
                            let_stmt(
                                "mid",
                                infix(
                                    ident("left"),
                                    Token::Add,
                                    infix(
                                        infix(ident("right"), Token::Subtract, ident("left")),
                                        Token::Divide,
                                        int_lit(2),
                                    ),
                                ),
                            ),
                            if_stmt(
                                infix(index(ident("arr"), ident("mid")), Token::Less, ident("target")),
                                vec![expr_stmt(infix(
                                    ident("left"),
                                    Token::Assign,
                                    infix(ident("mid"), Token::Add, int_lit(1)),
                                ))],
                                vec![ElseIf {
                                    condition: infix(
                                        index(ident("arr"), ident("mid")),
                                        Token::Greater,
                                        ident("target"),
                                    ),
                                    block: vec![expr_stmt(infix(
                                        ident("right"),
                                        Token::Assign,
                                        infix(ident("mid"), Token::Subtract, int_lit(1)),
                                    ))],
                                    span: Span::default(),
                                }],
                                vec![ret(Some(call(ident("Win"), vec![ident("mid")])))],
                            ),
                        ],
                    ),
                    ret(Some(call(ident("Fail"), vec![ident("NotFound")]))),
                ],
            ),
        ),
    ];

    assert_stmt_tests(test_cases);
}

#[test]
fn sprouting_stem() {
    let test_cases = vec![(
        "let result = url ~> fetch ~> parse ~> validate",
        let_stmt(
            "result",
            call(
                ident("validate"),
                vec![call(ident("parse"), vec![call(ident("fetch"), vec![ident("url")])])],
            ),
        ),
    )];

    assert_stmt_tests(test_cases);
}

#[test]
fn structuring_answer() {
    let test_cases = vec![(
        "struct Person {
    name: string,
    age: int,
    weight: int
}",
        struct_def(
            "Person",
            vec![
                StructParam {
                    name: "name".to_string(),
                    param_type: Primitive(String),
                    span: Span::default(),
                },
                StructParam { name: "age".to_string(), param_type: Primitive(Int), span: Span::default() },
                StructParam {
                    name: "weight".to_string(),
                    param_type: Primitive(Int),
                    span: Span::default(),
                },
            ],
        ),
    )];

    assert_stmt_tests(test_cases);
}

#[test]
fn function_body_keeps_all_statements() {
    let input = "fun outer() {
            if c {
                y()
            }
            z()
        }";

    let lexer = Lexer::new(input);
    let mut parser = Parser::new(lexer);

    let stmt = parser.parse_statement().expect("outer must be parsed");

    match stmt {
        Statement::Fun { body, .. } => assert_eq!(body.len(), 2),
        other => panic!("expected Fun, got {:?}", other),
    }
}
