use tinyscript::lexer::{tokenize, Token, TokenKind};
use tinyscript::parser::{parse_tokens, ParseError, Parser};
use tinyscript::syntax::{
    AssignStmt, Binary, Decl, DeclStmt, Expr, FnCall, FnDecl, IfStmt, ReturnStmt, Stmt, WhileStmt,
};
use tinyscript::value::Operator;

fn parse(source: &str) -> Result<Vec<Decl>, ParseError> {
    parse_tokens(tokenize(source).unwrap())
}

fn body_of(source: &str) -> Vec<Stmt> {
    let mut decls = parse(&format!("fn main() {{ {} }}", source)).unwrap();
    assert_eq!(decls.len(), 1);
    match decls.remove(0) {
        Decl::FnDecl(f) => {
            assert_eq!(f.name, "main");
            assert!(f.params.is_empty());
            f.body
        }
    }
}

fn expr_of(source: &str) -> Expr {
    let mut body = body_of(&format!("return {};", source));
    assert_eq!(body.len(), 1);
    match body.remove(0) {
        Stmt::Return(ret) => ret.expr,
        other => panic!("not a return: {:?}", other),
    }
}

fn failure_of(source: &str) -> ParseError {
    parse(source).unwrap_err()
}

fn num(n: i32) -> Expr {
    Expr::NumberLiteral(n)
}

fn name(s: &str) -> Expr {
    Expr::Identifier(s.to_string())
}

fn binary(op: Operator, left: Expr, right: Expr) -> Expr {
    Expr::Binary(Binary { op, left: Box::new(left), right: Box::new(right) })
}

fn call(f: &str, args: Vec<Expr>) -> FnCall {
    FnCall { name: f.to_string(), args }
}

#[test]
fn no_tokens_make_an_empty_program() {
    assert_eq!(parse(""), Ok(vec![]));
    assert_eq!(parse_tokens(vec![]), Ok(vec![]));
    assert_eq!(Parser::new(vec![]).parse(), Ok(vec![]));
}

#[test]
fn a_function_has_a_name_parameters_and_a_body() {
    assert_eq!(
        parse("fn add(a, b) { return a + b; }"),
        Ok(vec![Decl::FnDecl(FnDecl {
            name: "add".to_string(),
            params: vec!["a".to_string(), "b".to_string()],
            body: vec![Stmt::Return(ReturnStmt {
                expr: binary(Operator::Plus, name("a"), name("b"))
            })],
        })])
    );
    assert_eq!(
        parse("fn f(x) { }"),
        Ok(vec![Decl::FnDecl(FnDecl {
            name: "f".to_string(),
            params: vec!["x".to_string()],
            body: vec![],
        })])
    );
}

#[test]
fn declarations_are_read_in_order() {
    let decls = parse("fn a() {} fn b() {} fn a() {}").unwrap();
    let names: Vec<String> = decls
        .into_iter()
        .map(|d| match d {
            Decl::FnDecl(f) => f.name,
        })
        .collect();
    assert_eq!(names, vec!["a", "b", "a"]);
}

#[test]
fn literals_are_primary_expressions() {
    assert_eq!(expr_of("42"), num(42));
    assert_eq!(expr_of("007"), num(7));
    assert_eq!(expr_of("2147483647"), num(i32::MAX));
    assert_eq!(expr_of("\"a b\""), Expr::StringLiteral("a b".to_string()));
    assert_eq!(expr_of("\"\""), Expr::StringLiteral(String::new()));
    assert_eq!(expr_of("true"), Expr::BooleanLiteral(true));
    assert_eq!(expr_of("false"), Expr::BooleanLiteral(false));
    assert_eq!(expr_of("null"), Expr::NullLiteral);
    assert_eq!(expr_of("x"), name("x"));
}

#[test]
fn a_number_beyond_the_range_is_refused() {
    assert_eq!(
        failure_of("fn main() { return 2147483648; }"),
        ParseError::ExpectedToken(TokenKind::Number, TokenKind::Number)
    );
    assert_eq!(
        failure_of("fn main() { return 99999999999999999999; }"),
        ParseError::ExpectedToken(TokenKind::Number, TokenKind::Number)
    );
}

#[test]
fn multiplication_binds_more_strongly_than_addition() {
    assert_eq!(
        expr_of("1 + 2 * 3"),
        binary(Operator::Plus, num(1), binary(Operator::Star, num(2), num(3)))
    );
    assert_eq!(
        expr_of("1 * 2 + 3"),
        binary(Operator::Plus, binary(Operator::Star, num(1), num(2)), num(3))
    );
    assert_eq!(
        expr_of("8 / 2 - 1"),
        binary(Operator::Minus, binary(Operator::Slash, num(8), num(2)), num(1))
    );
}

#[test]
fn comparison_binds_most_weakly() {
    assert_eq!(
        expr_of("1 + 2 < 3 * 4"),
        binary(
            Operator::LessThan,
            binary(Operator::Plus, num(1), num(2)),
            binary(Operator::Star, num(3), num(4))
        )
    );
    assert_eq!(
        expr_of("a > b - 1"),
        binary(Operator::GreaterThan, name("a"), binary(Operator::Minus, name("b"), num(1)))
    );
}

#[test]
fn operators_of_one_strength_group_to_the_left() {
    assert_eq!(
        expr_of("1 - 2 - 3"),
        binary(Operator::Minus, binary(Operator::Minus, num(1), num(2)), num(3))
    );
    assert_eq!(
        expr_of("1 - 2 + 3 - 4"),
        binary(
            Operator::Minus,
            binary(Operator::Plus, binary(Operator::Minus, num(1), num(2)), num(3)),
            num(4)
        )
    );
    assert_eq!(
        expr_of("8 / 4 * 2"),
        binary(Operator::Star, binary(Operator::Slash, num(8), num(4)), num(2))
    );
    assert_eq!(
        expr_of("1 < 2 > 3"),
        binary(Operator::GreaterThan, binary(Operator::LessThan, num(1), num(2)), num(3))
    );
}

#[test]
fn calls_take_arguments() {
    assert_eq!(expr_of("f()"), Expr::FnCall(call("f", vec![])));
    assert_eq!(expr_of("f(1)"), Expr::FnCall(call("f", vec![num(1)])));
    assert_eq!(
        expr_of("f(1, g(x), 2 + 3)"),
        Expr::FnCall(call(
            "f",
            vec![num(1), Expr::FnCall(call("g", vec![name("x")])), binary(Operator::Plus, num(2), num(3))]
        ))
    );
    assert_eq!(
        expr_of("f(1) + 2"),
        binary(Operator::Plus, Expr::FnCall(call("f", vec![num(1)])), num(2))
    );
}

#[test]
fn object_literals_have_named_fields() {
    assert_eq!(expr_of("{}"), Expr::ObjectLiteral(vec![]));
    assert_eq!(expr_of("{ a: 1 }"), Expr::ObjectLiteral(vec![("a".to_string(), num(1))]));
    assert_eq!(
        expr_of("{ a: 1, b: { c: x + 1 } }"),
        Expr::ObjectLiteral(vec![
            ("a".to_string(), num(1)),
            (
                "b".to_string(),
                Expr::ObjectLiteral(vec![("c".to_string(), binary(Operator::Plus, name("x"), num(1)))])
            ),
        ])
    );
}

#[test]
fn statements_are_told_by_their_first_tokens() {
    assert_eq!(
        body_of("let x = 1; x = 2; f(x); return; return x;"),
        vec![
            Stmt::Decl(DeclStmt { var: "x".to_string(), val: num(1) }),
            Stmt::Assign(AssignStmt { var: "x".to_string(), val: num(2) }),
            Stmt::FnCall(call("f", vec![name("x")])),
            Stmt::Return(ReturnStmt { expr: Expr::NullLiteral }),
            Stmt::Return(ReturnStmt { expr: name("x") }),
        ]
    );
}

#[test]
fn blocks_nest() {
    assert_eq!(
        body_of("if a < 1 { while true { f(); } return 1; }"),
        vec![Stmt::If(IfStmt {
            cond: binary(Operator::LessThan, name("a"), num(1)),
            body: vec![
                Stmt::While(WhileStmt {
                    cond: Expr::BooleanLiteral(true),
                    body: vec![Stmt::FnCall(call("f", vec![]))],
                }),
                Stmt::Return(ReturnStmt { expr: num(1) }),
            ],
        })]
    );
    assert_eq!(
        body_of("while x { }"),
        vec![Stmt::While(WhileStmt { cond: name("x"), body: vec![] })]
    );
}

#[test]
fn the_end_of_the_tokens_is_told() {
    let mut tokens = tokenize("fn main() { return 1").unwrap();
    tokens.pop();
    assert_eq!(parse_tokens(tokens), Err(ParseError::EndOfFile));
    let mut tokens = tokenize("fn main(").unwrap();
    tokens.pop();
    assert_eq!(parse_tokens(tokens), Err(ParseError::EndOfFile));
    let mut tokens = tokenize("fn").unwrap();
    tokens.pop();
    assert_eq!(parse_tokens(tokens), Err(ParseError::EndOfFile));
}

#[test]
fn an_unexpected_token_is_told_with_the_expected_kind() {
    assert_eq!(
        failure_of("let x = 1;"),
        ParseError::ExpectedToken(TokenKind::FnKeyword, TokenKind::LetKeyword)
    );
    assert_eq!(
        failure_of("fn 1() {}"),
        ParseError::ExpectedToken(TokenKind::Identifier, TokenKind::Number)
    );
    assert_eq!(
        failure_of("fn f {}"),
        ParseError::ExpectedToken(TokenKind::LeftParen, TokenKind::LeftBrace)
    );
    assert_eq!(
        failure_of("fn f(a b) {}"),
        ParseError::ExpectedToken(TokenKind::Comma, TokenKind::Identifier)
    );
    assert_eq!(
        failure_of("fn f(a,) {}"),
        ParseError::ExpectedToken(TokenKind::Identifier, TokenKind::RightParen)
    );
    assert_eq!(
        failure_of("fn f() return 1;"),
        ParseError::ExpectedToken(TokenKind::LeftBrace, TokenKind::ReturnKeyword)
    );
    assert_eq!(
        failure_of("fn f() { return 1 }"),
        ParseError::ExpectedToken(TokenKind::Semicolon, TokenKind::RightBrace)
    );
    assert_eq!(
        failure_of("fn f() { let x 1; }"),
        ParseError::ExpectedToken(TokenKind::Equals, TokenKind::Number)
    );
    assert_eq!(
        failure_of("fn f() { let = 1; }"),
        ParseError::ExpectedToken(TokenKind::Identifier, TokenKind::Equals)
    );
    assert_eq!(
        failure_of("fn f() { x + 1; }"),
        ParseError::ExpectedToken(TokenKind::Equals, TokenKind::Plus)
    );
    assert_eq!(
        failure_of("fn f() { if x return 1; }"),
        ParseError::ExpectedToken(TokenKind::LeftBrace, TokenKind::ReturnKeyword)
    );
    assert_eq!(
        failure_of("fn f() { g(1 2); }"),
        ParseError::ExpectedToken(TokenKind::Comma, TokenKind::Number)
    );
    assert_eq!(
        failure_of("fn f() { return { a 1 }; }"),
        ParseError::ExpectedToken(TokenKind::Colon, TokenKind::Number)
    );
    assert_eq!(
        failure_of("fn f() { return { a: 1 b: 2 }; }"),
        ParseError::ExpectedToken(TokenKind::Comma, TokenKind::Identifier)
    );
}

#[test]
fn an_unfinished_program_runs_into_the_end_token() {
    assert_eq!(failure_of("fn f() {"), ParseError::EndOfFile);
    assert_eq!(
        failure_of("fn f() { return"),
        ParseError::ExpectedToken(TokenKind::Identifier, TokenKind::EndOfFile)
    );
    assert_eq!(
        failure_of("fn f() { x"),
        ParseError::ExpectedToken(TokenKind::Equals, TokenKind::EndOfFile)
    );
}

#[test]
fn a_token_that_starts_no_expression_is_read_as_a_call() {
    assert_eq!(
        failure_of("fn f() { return -1; }"),
        ParseError::ExpectedToken(TokenKind::Identifier, TokenKind::Minus)
    );
    assert_eq!(
        failure_of("fn f() { return (1); }"),
        ParseError::ExpectedToken(TokenKind::Identifier, TokenKind::LeftParen)
    );
    assert_eq!(
        failure_of("fn f() { return 1 + ; }"),
        ParseError::ExpectedToken(TokenKind::Identifier, TokenKind::Semicolon)
    );
}

#[test]
fn an_equals_sign_joins_no_operands() {
    assert_eq!(
        failure_of("fn f() { return 1 = 1; }"),
        ParseError::ExpectedToken(TokenKind::Semicolon, TokenKind::Equals)
    );
}

#[test]
fn quotes_are_taken_off_a_string_token() {
    let strip = |text: &str| {
        let tokens = vec![
            Token { text: "fn".to_string(), kind: TokenKind::FnKeyword },
            Token { text: "f".to_string(), kind: TokenKind::Identifier },
            Token { text: "(".to_string(), kind: TokenKind::LeftParen },
            Token { text: ")".to_string(), kind: TokenKind::RightParen },
            Token { text: "{".to_string(), kind: TokenKind::LeftBrace },
            Token { text: "return".to_string(), kind: TokenKind::ReturnKeyword },
            Token { text: text.to_string(), kind: TokenKind::String },
            Token { text: ";".to_string(), kind: TokenKind::Semicolon },
            Token { text: "}".to_string(), kind: TokenKind::RightBrace },
        ];
        match parse_tokens(tokens).unwrap().remove(0) {
            Decl::FnDecl(mut f) => match f.body.remove(0) {
                Stmt::Return(ret) => ret.expr,
                other => panic!("not a return: {:?}", other),
            },
        }
    };
    assert_eq!(strip("\"abc\""), Expr::StringLiteral("abc".to_string()));
    assert_eq!(strip("\"abc"), Expr::StringLiteral("ab".to_string()));
    assert_eq!(strip("\"\""), Expr::StringLiteral(String::new()));
    assert_eq!(strip("\""), Expr::StringLiteral(String::new()));
    assert_eq!(strip(""), Expr::StringLiteral(String::new()));
}

#[test]
fn a_number_token_must_hold_digits() {
    let tokens = vec![
        Token { text: "fn".to_string(), kind: TokenKind::FnKeyword },
        Token { text: "f".to_string(), kind: TokenKind::Identifier },
        Token { text: "(".to_string(), kind: TokenKind::LeftParen },
        Token { text: ")".to_string(), kind: TokenKind::RightParen },
        Token { text: "{".to_string(), kind: TokenKind::LeftBrace },
        Token { text: "return".to_string(), kind: TokenKind::ReturnKeyword },
        Token { text: "1x".to_string(), kind: TokenKind::Number },
    ];
    assert_eq!(
        parse_tokens(tokens),
        Err(ParseError::ExpectedToken(TokenKind::Number, TokenKind::Number))
    );
}
