use tinyscript::lexer::tokenize;
use tinyscript::parser::parse_tokens;
use tinyscript::printing::TreePrint;
use tinyscript::syntax::{Decl, Expr, FieldAccess, Unary};
use tinyscript::value::Operator;

fn lines(text: &[&str]) -> Vec<String> {
    text.iter().map(|s| s.to_string()).collect()
}

fn decl_of(source: &str) -> Decl {
    parse_tokens(tokenize(source).unwrap()).unwrap().remove(0)
}

#[test]
fn literals_take_one_line() {
    assert_eq!(Expr::NumberLiteral(-12).print(0), lines(&["NumberLiteral(-12)"]));
    assert_eq!(Expr::NumberLiteral(0).print(1), lines(&["  NumberLiteral(0)"]));
    assert_eq!(Expr::BooleanLiteral(true).print(0), lines(&["BooleanLiteral(true)"]));
    assert_eq!(Expr::BooleanLiteral(false).print(2), lines(&["    BooleanLiteral(false)"]));
    assert_eq!(Expr::StringLiteral("a b".to_string()).print(0), lines(&["StringLiteral(a b)"]));
    assert_eq!(Expr::NullLiteral.print(3), lines(&["      NullLiteral"]));
    assert_eq!(Expr::Identifier("x".to_string()).print(0), lines(&["Identifier('x')"]));
}

#[test]
fn a_function_is_listed_with_its_parts() {
    let decl = decl_of("fn add(a, b) { let c = a + b; return c; }");
    assert_eq!(
        decl.print(0),
        lines(&[
            "FnDecl",
            " name:",
            "  add",
            " params:",
            "  a",
            "  b",
            " body:",
            "  DeclStmt",
            "   var:",
            "    c",
            "   val:",
            "    Binary",
            "     left:",
            "      Identifier('a')",
            "     op:",
            "      Plus",
            "     right:",
            "      Identifier('b')",
            "  ReturnStmt",
            "   expr:",
            "    Identifier('c')",
        ])
    );
}

#[test]
fn statements_are_listed_by_kind() {
    let decl = decl_of("fn main() { if x < 1 { f(1, y); } while true { x = 2; } }");
    let Decl::FnDecl(f) = decl;
    assert_eq!(
        f.body[0].print(1),
        lines(&[
            "  IfStmt",
            "   cond:",
            "    Binary",
            "     left:",
            "      Identifier('x')",
            "     op:",
            "      LessThan",
            "     right:",
            "      NumberLiteral(1)",
            "   body:",
            "    FnCall",
            "     name:",
            "      f",
            "     args:",
            "      NumberLiteral(1)",
            "      Identifier('y')",
        ])
    );
    assert_eq!(
        f.body[1].print(0),
        lines(&[
            "WhileStmt",
            " cond:",
            "  BooleanLiteral(true)",
            " body:",
            "  AssignStmt",
            "   var:",
            "    x",
            "   val:",
            "    NumberLiteral(2)",
        ])
    );
}

#[test]
fn containers_list_their_entries() {
    let object = Expr::ObjectLiteral(vec![
        ("a".to_string(), Expr::NumberLiteral(1)),
        ("b".to_string(), Expr::ListLiteral(vec![Expr::NullLiteral, Expr::NumberLiteral(2)])),
    ]);
    assert_eq!(
        object.print(0),
        lines(&[
            "ObjectLiteral",
            " name:",
            "  a",
            " value: ",
            "  NumberLiteral(1)",
            " name:",
            "  b",
            " value: ",
            "  ListLiteral",
            "   value: ",
            "    NullLiteral",
            "   value: ",
            "    NumberLiteral(2)",
        ])
    );
    assert_eq!(Expr::ObjectLiteral(vec![]).print(1), lines(&["  ObjectLiteral"]));
    assert_eq!(Expr::ListLiteral(vec![]).print(0), lines(&["ListLiteral"]));
}

#[test]
fn unary_and_field_access_are_listed() {
    let unary = Expr::Unary(Unary { op: Operator::Minus, expr: Box::new(Expr::NumberLiteral(1)) });
    assert_eq!(
        unary.print(0),
        lines(&["Unary", " expr:", "  NumberLiteral(1)", " op:", "  Minus"])
    );
    let access = Expr::FieldAccess(FieldAccess {
        obj: Box::new(Expr::Identifier("o".to_string())),
        field: "f".to_string(),
    });
    assert_eq!(
        access.print(1),
        lines(&["  FieldAccess", "   obj:", "    Identifier('o')", "   field:", "    f"])
    );
}

#[test]
fn operators_are_named() {
    for (op, name) in [
        (Operator::Plus, "Plus"),
        (Operator::Minus, "Minus"),
        (Operator::Star, "Star"),
        (Operator::Slash, "Slash"),
        (Operator::Equals, "Equals"),
        (Operator::LessThan, "LessThan"),
        (Operator::GreaterThan, "GreaterThan"),
    ] {
        let unary = Expr::Unary(Unary { op, expr: Box::new(Expr::NullLiteral) });
        assert_eq!(unary.print(0)[4], format!("  {}", name));
        assert_eq!(format!("{:?}", op), name);
    }
}
