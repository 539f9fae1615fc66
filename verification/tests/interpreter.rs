use tinyscript::interpreter::{BodyResult, Interpreter, Runtime, RuntimeError};
use tinyscript::lexer::tokenize;
use tinyscript::parser::parse_tokens;
use tinyscript::registry::{Builtin, FnObj, ObjRegistry};
use tinyscript::syntax::{
    AssignStmt, Binary, Decl, DeclStmt, Expr, FieldAccess, FnCall, FnDecl, ReturnStmt, Stmt, Unary,
    WhileStmt,
};
use tinyscript::value::{OperationError, Operator, Value};

fn decls_of(source: &str) -> Vec<Decl> {
    parse_tokens(tokenize(source).expect("the source has tokens")).expect("the tokens parse")
}

fn run_with(source: &str, args: &[&str], input: &[&str], budget: usize) -> (Result<(), RuntimeError>, String) {
    let input = input.iter().map(|s| s.to_string()).collect();
    let mut interpreter = Interpreter::with_input(input, budget);
    let args = args.iter().map(|s| s.to_string()).collect();
    let result = interpreter.interpret(decls_of(source), args);
    (result, interpreter.output().clone())
}

fn run(source: &str) -> (Result<(), RuntimeError>, String) {
    run_with(source, &[], &[], usize::MAX)
}

fn output_of(source: &str) -> String {
    let (result, output) = run(source);
    assert_eq!(result, Ok(()));
    output
}

fn failure_of(source: &str) -> RuntimeError {
    run(source).0.unwrap_err()
}

fn num(n: i32) -> Expr {
    Expr::NumberLiteral(n)
}

fn name(s: &str) -> Expr {
    Expr::Identifier(s.to_string())
}

fn call(f: &str, args: Vec<Expr>) -> Expr {
    Expr::FnCall(FnCall { name: f.to_string(), args })
}

fn call_stmt(f: &str, args: Vec<Expr>) -> Stmt {
    Stmt::FnCall(FnCall { name: f.to_string(), args })
}

fn declare(var: &str, val: Expr) -> Stmt {
    Stmt::Decl(DeclStmt { var: var.to_string(), val })
}

fn main_with(body: Vec<Stmt>) -> Vec<Decl> {
    vec![Decl::FnDecl(FnDecl { name: "main".to_string(), params: vec![], body })]
}

fn run_decls(decls: Vec<Decl>) -> (Result<(), RuntimeError>, String) {
    let mut interpreter = Interpreter::new();
    let result = interpreter.interpret(decls, vec![]);
    (result, interpreter.output().clone())
}

#[test]
fn arithmetic_in_programs_is_that_of_the_machine() {
    assert_eq!(output_of("fn main(){ print(2147483647 + 1); }"), "-2147483648\n");
    assert_eq!(output_of("fn main(){ print(0 - 2147483647 - 2); }"), "2147483647\n");
    assert_eq!(output_of("fn main(){ print(65536 * 65536); }"), "0\n");
    assert_eq!(
        output_of("fn m(){ return 0 - 7; } fn main(){ print(7 / 2); print(m() / 2); }"),
        "3\n-3\n"
    );
}

#[test]
fn dividing_by_zero_fails_the_run() {
    assert_eq!(
        failure_of("fn main(){ print(1 / 0); }"),
        RuntimeError::OperationError(OperationError::InvalidBinary(
            Value::Number(1),
            Operator::Slash,
            Value::Number(0)
        ))
    );
}

#[test]
fn precedence_shows_in_results() {
    assert_eq!(output_of("fn main(){ print(1 + 2 * 3); print(10 - 2 - 3); print(8 / 4 * 2); }"), "7\n5\n4\n");
    assert_eq!(output_of("fn main(){ print(1 + 1 < 3); print(2 * 2 > 4); }"), "true\nfalse\n");
}

#[test]
fn strings_are_joined_and_printed() {
    assert_eq!(output_of("fn main(){ print(\"a\" + \"b\" + \"c\"); }"), "abc\n");
    assert_eq!(output_of("fn main(){ print(\"n = \" + tostring(12)); }"), "n = 12\n");
    assert_eq!(output_of("fn main(){ print(true); print(null); print(\"\"); }"), "true\nnull\n\n");
}

#[test]
fn a_function_without_return_gives_null() {
    assert_eq!(output_of("fn f(){ } fn main(){ print(f()); }"), "null\n");
    assert_eq!(output_of("fn f(){ return; } fn main(){ print(f()); }"), "null\n");
}

#[test]
fn recursion_works() {
    let source = "fn fact(n){ if n < 2 { return 1; } return n * fact(n - 1); } fn main(){ print(fact(10)); }";
    assert_eq!(output_of(source), "3628800\n");
    let source = "fn fib(n){ if n < 2 { return n; } return fib(n - 1) + fib(n - 2); } fn main(){ print(fib(15)); }";
    assert_eq!(output_of(source), "610\n");
}

#[test]
fn return_leaves_every_enclosing_block() {
    let source = "fn find(){ let i = 0; while true { if i > 4 { return i; } i = i + 1; } return 0 - 1; } \
                  fn main(){ print(find()); print(7); }";
    assert_eq!(output_of(source), "5\n7\n");
}

#[test]
fn return_in_main_ends_the_run() {
    assert_eq!(output_of("fn main(){ print(1); return; print(2); }"), "1\n");
    assert_eq!(output_of("fn main(){ if true { return 1; } print(2); }"), "");
}

#[test]
fn a_block_variable_does_not_leak() {
    assert_eq!(
        failure_of("fn main(){ if true { let x = 1; } print(x); }"),
        RuntimeError::UndefinedIdentifier("x".to_string())
    );
    assert_eq!(
        failure_of("fn main(){ let i = 0; while i < 1 { let y = 1; i = i + 1; } print(y); }"),
        RuntimeError::UndefinedIdentifier("y".to_string())
    );
}

#[test]
fn a_callee_does_not_see_the_callers_variables_after_return() {
    assert_eq!(
        failure_of("fn f(){ let inner = 1; } fn main(){ f(); print(inner); }"),
        RuntimeError::UndefinedIdentifier("inner".to_string())
    );
}

#[test]
fn a_block_can_change_an_outer_variable() {
    assert_eq!(output_of("fn main(){ let x = 1; if true { x = 2; } print(x); }"), "2\n");
    assert_eq!(output_of("fn main(){ let x = 1; if true { let x = 2; x = 3; } print(x); }"), "1\n");
}

#[test]
fn parameters_are_bound_in_order() {
    assert_eq!(output_of("fn f(a, b){ print(a); print(b); } fn main(){ f(1, 2); }"), "1\n2\n");
    assert_eq!(output_of("fn f(a, b){ a = b; print(a); } fn main(){ let a = 5; f(1, 2); print(a); }"), "2\n5\n");
}

#[test]
fn a_later_declaration_replaces_an_earlier_one() {
    assert_eq!(output_of("fn f(){ return 1; } fn f(){ return 2; } fn main(){ print(f()); }"), "2\n");
    assert_eq!(output_of("fn print(x){ return x; } fn main(){ print(1); }"), "");
}

#[test]
fn main_gets_the_arguments_as_strings() {
    let (result, output) = run_with("fn main(a, b){ print(a + b); }", &["12", "34"], &[], usize::MAX);
    assert_eq!(result, Ok(()));
    assert_eq!(output, "1234\n");
    let (result, output) = run_with("fn main(){ }", &["x"], &[], usize::MAX);
    assert_eq!(result, Err(RuntimeError::InvalidArgCount(0, 1)));
    assert_eq!(output, "");
}

#[test]
fn a_program_needs_main() {
    assert_eq!(failure_of("fn f(){ }"), RuntimeError::UndefinedIdentifier("main".to_string()));
    assert_eq!(failure_of(""), RuntimeError::UndefinedIdentifier("main".to_string()));
}

#[test]
fn a_wrong_number_of_arguments_fails_before_the_body_runs() {
    let (result, output) = run("fn f(a){ print(\"in f\"); } fn main(){ print(\"before\"); f(1, 2); print(\"after\"); }");
    assert_eq!(result, Err(RuntimeError::InvalidArgCount(1, 2)));
    assert_eq!(output, "before\n");
    let (result, output) = run("fn f(a, b){ print(\"in f\"); } fn main(){ f(); }");
    assert_eq!(result, Err(RuntimeError::InvalidArgCount(2, 0)));
    assert_eq!(output, "");
    assert_eq!(failure_of("fn main(){ print(); }"), RuntimeError::InvalidArgCount(1, 0));
    assert_eq!(failure_of("fn main(){ len(1, 2); }"), RuntimeError::InvalidArgCount(1, 2));
    assert_eq!(failure_of("fn main(){ input(1); }"), RuntimeError::InvalidArgCount(0, 1));
}

#[test]
fn the_arguments_are_evaluated_before_the_count_is_checked() {
    let (result, output) = run("fn f(){ } fn g(){ print(\"g\"); return 1; } fn main(){ f(g()); }");
    assert_eq!(result, Err(RuntimeError::InvalidArgCount(0, 1)));
    assert_eq!(output, "g\n");
}

#[test]
fn an_unknown_name_is_undefined() {
    assert_eq!(failure_of("fn main(){ print(x); }"), RuntimeError::UndefinedIdentifier("x".to_string()));
    assert_eq!(failure_of("fn main(){ f(); }"), RuntimeError::UndefinedIdentifier("f".to_string()));
    assert_eq!(failure_of("fn main(){ let x = g(1); }"), RuntimeError::UndefinedIdentifier("g".to_string()));
}

#[test]
fn an_unknown_function_is_found_before_its_arguments_are_evaluated() {
    let (result, output) = run("fn g(){ print(\"g\"); return 1; } fn main(){ f(g()); }");
    assert_eq!(result, Err(RuntimeError::UndefinedIdentifier("f".to_string())));
    assert_eq!(output, "");
}

#[test]
fn assigning_to_an_undeclared_variable_fails() {
    assert_eq!(
        failure_of("fn main(){ x = 1; }"),
        RuntimeError::UndefinedIdentifier("x".to_string())
    );
    assert_eq!(
        failure_of("fn main(){ if true { let x = 1; } x = 2; }"),
        RuntimeError::UndefinedIdentifier("x".to_string())
    );
    let (result, output) = run("fn main(){ print(1); y = 2; print(y); }");
    assert_eq!(result, Err(RuntimeError::UndefinedIdentifier("y".to_string())));
    assert_eq!(output, "1\n");
}

#[test]
fn a_condition_must_be_a_boolean() {
    assert_eq!(
        failure_of("fn main(){ if 1 { } }"),
        RuntimeError::InvalidArgumentType("boolean".to_string(), "number".to_string())
    );
    assert_eq!(
        failure_of("fn main(){ while \"x\" { } }"),
        RuntimeError::InvalidArgumentType("boolean".to_string(), "string".to_string())
    );
    assert_eq!(
        failure_of("fn main(){ if null { } }"),
        RuntimeError::InvalidArgumentType("boolean".to_string(), "null".to_string())
    );
}

#[test]
fn operators_fail_on_the_wrong_types() {
    assert_eq!(
        failure_of("fn main(){ print(1 + \"a\"); }"),
        RuntimeError::OperationError(OperationError::InvalidBinary(
            Value::Number(1),
            Operator::Plus,
            Value::String("a".to_string())
        ))
    );
    assert_eq!(
        failure_of("fn main(){ print(true < false); }"),
        RuntimeError::OperationError(OperationError::InvalidBinary(
            Value::Boolean(true),
            Operator::LessThan,
            Value::Boolean(false)
        ))
    );
}

#[test]
fn parseint_reads_decimal_integers() {
    assert_eq!(output_of("fn main(){ print(parseint(\"41\") + 1); }"), "42\n");
    assert_eq!(output_of("fn main(){ print(parseint(\"-5\")); print(parseint(\"+5\")); }"), "-5\n5\n");
    assert_eq!(
        failure_of("fn main(){ print(parseint(\"4x\")); }"),
        RuntimeError::InvalidArgumentType("integer".to_string(), "string".to_string())
    );
    assert_eq!(
        failure_of("fn main(){ print(parseint(\"\")); }"),
        RuntimeError::InvalidArgumentType("integer".to_string(), "string".to_string())
    );
    assert_eq!(
        failure_of("fn main(){ print(parseint(4)); }"),
        RuntimeError::InvalidArgumentType("string".to_string(), "number".to_string())
    );
}

#[test]
fn tostring_gives_the_display_form() {
    assert_eq!(output_of("fn main(){ print(tostring(1) + tostring(true) + tostring(null)); }"), "1truenull\n");
    assert_eq!(output_of("fn main(){ print(tostring({ a: 1 }) + \"!\"); }"), "{ a: 1 }!\n");
}

#[test]
fn input_reads_the_lines_in_order() {
    let source = "fn main(){ let a = input(); let b = input(); let c = input(); print(b + a + c + \".\"); }";
    let (result, output) = run_with(source, &[], &["one\n", "two  \r\n"], usize::MAX);
    assert_eq!(result, Ok(()));
    assert_eq!(output, "twoone.\n");
}

#[test]
fn prompt_writes_its_message_and_reads_a_line() {
    let source = "fn main(){ let name = prompt(\"name? \"); print(\"hello \" + name); }";
    let (result, output) = run_with(source, &[], &["  world \n"], usize::MAX);
    assert_eq!(result, Ok(()));
    assert_eq!(output, "name? hello   world\n");
    assert_eq!(
        failure_of("fn main(){ prompt(1); }"),
        RuntimeError::InvalidArgumentType("string".to_string(), "number".to_string())
    );
}

#[test]
fn objects_are_built_and_combined() {
    assert_eq!(output_of("fn main(){ print({}); print({ a: 1, b: \"x\" }); }"), "{}\n{ a: 1, b: x }\n");
    assert_eq!(output_of("fn main(){ print({ a: 1, b: 2, a: 3 }); }"), "{ a: 3, b: 2 }\n");
    assert_eq!(
        output_of("fn main(){ let x = { a: 1, b: 2 }; let y = { b: 3, c: 4 }; print(x + y); print(x - y); print(x); }"),
        "{ a: 1, b: 3, c: 4 }\n{ a: 1 }\n{ a: 1, b: 2 }\n"
    );
    assert_eq!(output_of("fn main(){ print({ a: { b: {} } }); }"), "{ a: { b: {} } }\n");
}

#[test]
fn a_run_out_of_budget_fails() {
    let (result, output) = run_with("fn main(){ while true { } }", &[], &[], 100);
    assert_eq!(result, Err(RuntimeError::OutOfFuel));
    assert_eq!(output, "");
    let (result, _) = run_with("fn f(){ return f(); } fn main(){ f(); }", &[], &[], 50);
    assert_eq!(result, Err(RuntimeError::OutOfFuel));
    let (result, output) = run_with("fn main(){ let i = 0; while i < 10 { i = i + 1; } print(i); }", &[], &[], 12);
    assert_eq!(result, Ok(()));
    assert_eq!(output, "10\n");
    let (result, output) = run_with("fn main(){ let i = 0; while i < 10 { print(i); i = i + 1; } }", &[], &[], 4);
    assert_eq!(result, Err(RuntimeError::OutOfFuel));
    assert_eq!(output, "0\n1\n2\n3\n");
}

#[test]
fn a_budget_of_nothing_allows_no_call() {
    let (result, output) = run_with("fn main(){ print(1); }", &[], &[], 0);
    assert_eq!(result, Err(RuntimeError::OutOfFuel));
    assert_eq!(output, "");
    let (result, output) = run_with("fn main(){ let x = 1 + 2; if x > 2 { x = 0; } }", &[], &[], 0);
    assert_eq!(result, Ok(()));
    assert_eq!(output, "");
}

fn list_program(statements: Vec<Stmt>) -> (Result<(), RuntimeError>, String) {
    let mut body = vec![declare("l", Expr::ListLiteral(vec![num(10), num(20), num(30)]))];
    body.extend(statements);
    run_decls(main_with(body))
}

#[test]
fn lists_are_built_and_printed() {
    let (result, output) = list_program(vec![
        call_stmt("print", vec![name("l")]),
        call_stmt("print", vec![Expr::ListLiteral(vec![])]),
        call_stmt("print", vec![call("len", vec![name("l")])]),
        call_stmt("print", vec![call("get", vec![name("l"), num(0)])]),
        call_stmt("print", vec![call("get", vec![name("l"), num(2)])]),
    ]);
    assert_eq!(result, Ok(()));
    assert_eq!(output, "[ 10, 20, 30 ]\n{}\n3\n10\n30\n");
}

#[test]
fn append_makes_a_list_one_longer() {
    let (result, output) = list_program(vec![
        call_stmt("print", vec![call("len", vec![name("l")])]),
        call_stmt("print", vec![call("append", vec![name("l"), num(40)])]),
        call_stmt("print", vec![call("len", vec![name("l")])]),
        call_stmt("print", vec![name("l")]),
    ]);
    assert_eq!(result, Ok(()));
    assert_eq!(output, "3\nnull\n4\n[ 10, 20, 30, 40 ]\n");
}

#[test]
fn set_replaces_an_item() {
    let (result, output) = list_program(vec![
        call_stmt("print", vec![call("set", vec![name("l"), num(1), Expr::StringLiteral("x".to_string())])]),
        call_stmt("print", vec![name("l")]),
    ]);
    assert_eq!(result, Ok(()));
    assert_eq!(output, "null\n[ 10, x, 30 ]\n");
}

#[test]
fn an_index_out_of_bounds_fails_with_length_and_index() {
    let get = |i: Expr| list_program(vec![call_stmt("print", vec![call("get", vec![name("l"), i])])]);
    assert_eq!(get(num(3)), (Err(RuntimeError::IndexOutOfBounds(3, 3)), String::new()));
    assert_eq!(get(num(100)), (Err(RuntimeError::IndexOutOfBounds(3, 100)), String::new()));
    let minus_one = Expr::Unary(Unary { op: Operator::Minus, expr: Box::new(num(1)) });
    assert_eq!(get(minus_one), (Err(RuntimeError::IndexOutOfBounds(3, -1)), String::new()));
    let lowest = Expr::Binary(Binary {
        op: Operator::Minus,
        left: Box::new(num(-2147483647)),
        right: Box::new(num(1)),
    });
    assert_eq!(get(lowest), (Err(RuntimeError::IndexOutOfBounds(3, -2147483648)), String::new()));
    let (result, output) = list_program(vec![
        call_stmt("set", vec![name("l"), num(3), num(0)]),
    ]);
    assert_eq!((result, output), (Err(RuntimeError::IndexOutOfBounds(3, 3)), String::new()));
    let (result, _) = run_decls(main_with(vec![call_stmt(
        "get",
        vec![Expr::ListLiteral(vec![]), num(0)],
    )]));
    assert_eq!(result, Err(RuntimeError::IndexOutOfBounds(0, 0)));
}

#[test]
fn list_builtins_want_a_list_and_a_number() {
    let wrong = |f: &str, args: Vec<Expr>| run_decls(main_with(vec![call_stmt(f, args)])).0;
    let list_wanted = |got: &str| Err(RuntimeError::InvalidArgumentType("list".to_string(), got.to_string()));
    assert_eq!(wrong("len", vec![num(1)]), list_wanted("number"));
    assert_eq!(wrong("len", vec![Expr::ObjectLiteral(vec![])]), list_wanted("object"));
    assert_eq!(wrong("get", vec![Expr::NullLiteral, num(0)]), list_wanted("null"));
    assert_eq!(wrong("set", vec![Expr::BooleanLiteral(true), num(0), num(0)]), list_wanted("boolean"));
    assert_eq!(wrong("append", vec![Expr::StringLiteral(String::new()), num(0)]), list_wanted("string"));
    assert_eq!(
        wrong("get", vec![Expr::ListLiteral(vec![num(1)]), Expr::StringLiteral("0".to_string())]),
        Err(RuntimeError::InvalidArgumentType("number".to_string(), "string".to_string()))
    );
    assert_eq!(
        wrong("set", vec![Expr::ListLiteral(vec![num(1)]), Expr::NullLiteral, num(0)]),
        Err(RuntimeError::InvalidArgumentType("number".to_string(), "null".to_string()))
    );
}

#[test]
fn a_copied_list_is_the_same_list() {
    let (result, output) = list_program(vec![
        declare("other", name("l")),
        call_stmt("append", vec![name("other"), num(40)]),
        call_stmt("print", vec![call("len", vec![name("l")])]),
        call_stmt("set", vec![name("l"), num(0), num(1)]),
        call_stmt("print", vec![name("other")]),
    ]);
    assert_eq!(result, Ok(()));
    assert_eq!(output, "4\n[ 1, 20, 30, 40 ]\n");
}

#[test]
fn a_list_passed_to_a_function_is_shared() {
    let grow = Decl::FnDecl(FnDecl {
        name: "grow".to_string(),
        params: vec!["list".to_string()],
        body: vec![call_stmt("append", vec![name("list"), num(1)])],
    });
    let mut decls = main_with(vec![
        declare("l", Expr::ListLiteral(vec![])),
        call_stmt("grow", vec![name("l")]),
        call_stmt("grow", vec![name("l")]),
        call_stmt("print", vec![call("len", vec![name("l")])]),
    ]);
    decls.insert(0, grow);
    assert_eq!(run_decls(decls), (Ok(()), "2\n".to_string()));
}

#[test]
fn an_item_got_from_a_list_is_shared_too() {
    let (result, output) = run_decls(main_with(vec![
        declare("inner", Expr::ListLiteral(vec![])),
        declare("outer", Expr::ListLiteral(vec![name("inner")])),
        call_stmt("append", vec![call("get", vec![name("outer"), num(0)]), num(5)]),
        call_stmt("print", vec![name("inner")]),
        call_stmt("print", vec![name("outer")]),
    ]));
    assert_eq!(result, Ok(()));
    assert_eq!(output, "[ 5 ]\n[ [ 5 ] ]\n");
}

#[test]
fn scalars_are_copied_by_value() {
    assert_eq!(output_of("fn main(){ let a = 1; let b = a; b = 2; print(a); print(b); }"), "1\n2\n");
    assert_eq!(output_of("fn main(){ let a = \"x\"; let b = a; b = b + \"y\"; print(a); print(b); }"), "x\nxy\n");
}

#[test]
fn negation_and_equality_evaluate() {
    let minus = |e: Expr| Expr::Unary(Unary { op: Operator::Minus, expr: Box::new(e) });
    let equals = |a: Expr, b: Expr| Expr::Binary(Binary { op: Operator::Equals, left: Box::new(a), right: Box::new(b) });
    let (result, output) = run_decls(main_with(vec![
        call_stmt("print", vec![minus(num(5))]),
        call_stmt("print", vec![minus(minus(num(5)))]),
        call_stmt("print", vec![equals(num(1), num(1))]),
        call_stmt("print", vec![equals(Expr::StringLiteral("a".to_string()), Expr::StringLiteral("b".to_string()))]),
        call_stmt("print", vec![equals(Expr::NullLiteral, Expr::NullLiteral)]),
    ]));
    assert_eq!(result, Ok(()));
    assert_eq!(output, "-5\n5\ntrue\nfalse\ntrue\n");
    let (result, _) = run_decls(main_with(vec![call_stmt("print", vec![minus(Expr::BooleanLiteral(true))])]));
    assert_eq!(
        result,
        Err(RuntimeError::OperationError(OperationError::InvalidUnary(Operator::Minus, Value::Boolean(true))))
    );
}

#[test]
fn field_access_has_no_meaning() {
    let access = Expr::FieldAccess(FieldAccess {
        obj: Box::new(Expr::ObjectLiteral(vec![("a".to_string(), num(1))])),
        field: "a".to_string(),
    });
    let (result, output) = run_decls(main_with(vec![call_stmt("print", vec![access])]));
    assert_eq!(result, Err(RuntimeError::UndefinedIdentifier("a".to_string())));
    assert_eq!(output, "");
}

#[test]
fn printing_a_list_within_itself_runs_out_of_budget() {
    let decls = main_with(vec![
        declare("l", Expr::ListLiteral(vec![num(1)])),
        call_stmt("append", vec![name("l"), name("l")]),
        call_stmt("print", vec![call("len", vec![name("l")])]),
        call_stmt("print", vec![name("l")]),
    ]);
    let mut interpreter = Interpreter::with_input(vec![], 40);
    assert_eq!(interpreter.interpret(decls, vec![]), Err(RuntimeError::OutOfFuel));
    assert_eq!(interpreter.output(), "2\n");
}

#[test]
fn the_interpreter_evaluates_piece_by_piece() {
    let mut interpreter = Interpreter::new();
    interpreter.define_builtins();
    assert_eq!(interpreter.evaluate(&name("x")), Err(RuntimeError::NoScope));
    assert_eq!(
        interpreter.interpret_stmt(&declare("x", num(1))),
        Err(RuntimeError::NoScope)
    );
    assert_eq!(
        interpreter.interpret_stmt(&Stmt::Assign(AssignStmt { var: "x".to_string(), val: num(1) })),
        Err(RuntimeError::NoScope)
    );
    assert_eq!(
        interpreter.evaluate(&Expr::Binary(Binary {
            op: Operator::Star,
            left: Box::new(num(6)),
            right: Box::new(num(7)),
        })),
        Ok(Value::Number(42))
    );
    assert_eq!(
        interpreter.interpret_body(&vec![
            declare("x", num(1)),
            Stmt::Assign(AssignStmt { var: "x".to_string(), val: num(2) }),
            Stmt::Return(ReturnStmt { expr: name("x") }),
            call_stmt("print", vec![num(0)]),
        ]),
        Ok(BodyResult::Return(Value::Number(2)))
    );
    assert_eq!(interpreter.interpret_body(&vec![]), Ok(BodyResult::Fallthrough));
    assert_eq!(
        interpreter.interpret_stmt(&Stmt::While(WhileStmt { cond: Expr::BooleanLiteral(false), body: vec![] })),
        Ok(BodyResult::Fallthrough)
    );
    assert_eq!(interpreter.output(), "");
    assert!(!interpreter.runtime().scope().has_scope());
    assert_eq!(interpreter.runtime().heap().len(), 0);
}

#[test]
fn functions_are_called_directly() {
    let mut interpreter = Interpreter::new();
    let double = FnObj::Defined {
        params: vec!["n".to_string()],
        body: vec![Stmt::Return(ReturnStmt {
            expr: Expr::Binary(Binary {
                op: Operator::Plus,
                left: Box::new(name("n")),
                right: Box::new(name("n")),
            }),
        })],
    };
    assert_eq!(double.param_count(), 1);
    assert_eq!(interpreter.call_fn(&double, vec![Value::Number(21)]), Ok(Value::Number(42)));
    assert_eq!(interpreter.call_fn(&double, vec![]), Err(RuntimeError::InvalidArgCount(1, 0)));
    assert_eq!(
        interpreter.call_fn(&double, vec![Value::Number(1), Value::Number(2)]),
        Err(RuntimeError::InvalidArgCount(1, 2))
    );
    let print = FnObj::Builtin(Builtin::Print);
    assert_eq!(interpreter.call_fn(&print, vec![Value::Number(1)]), Ok(Value::Null));
    assert_eq!(interpreter.call_fn(&print, vec![]), Err(RuntimeError::InvalidArgCount(1, 0)));
    assert_eq!(interpreter.output(), "1\n");
    assert!(!interpreter.runtime().scope().has_scope());
}

#[test]
fn builtins_are_entered_under_their_names() {
    let mut interpreter = Interpreter::new();
    assert!(interpreter.registry().get_func(&"print".to_string()).is_none());
    interpreter.define_builtins();
    for (name, arity) in [
        ("print", 1),
        ("prompt", 1),
        ("input", 0),
        ("parseint", 1),
        ("tostring", 1),
        ("len", 1),
        ("get", 2),
        ("set", 3),
        ("append", 2),
    ] {
        let f = interpreter.registry().get_func(&name.to_string()).expect(name);
        assert_eq!(f.param_count(), arity, "{}", name);
    }
    interpreter.define_fn("say", Builtin::Print);
    assert_eq!(interpreter.registry().get_func(&"say".to_string()).map(|f| f.param_count()), Some(1));
    assert_eq!(Builtin::SetItem.name(), "set");
    assert_eq!(Builtin::SetItem.arity(), 3);
}

#[test]
fn the_registry_keeps_the_last_function_of_a_name() {
    let mut registry = ObjRegistry::new();
    assert!(registry.get_func(&"f".to_string()).is_none());
    registry.register_func("f".to_string(), FnObj::Builtin(Builtin::Len));
    registry.register_func("g".to_string(), FnObj::Builtin(Builtin::Get));
    registry.register_func("f".to_string(), FnObj::Builtin(Builtin::SetItem));
    assert_eq!(registry.get_func(&"f".to_string()).map(|f| f.param_count()), Some(3));
    assert_eq!(registry.get_func(&"g".to_string()).map(|f| f.param_count()), Some(2));
    assert!(registry.get_func(&"h".to_string()).is_none());
}

#[test]
fn the_runtime_reads_and_writes() {
    let mut runtime = Runtime::new(vec!["line one \n".to_string(), "line two".to_string()], false);
    assert_eq!(
        runtime.call_builtin(Builtin::Input, vec![], 0),
        Ok(Value::String("line one".to_string()))
    );
    assert_eq!(
        runtime.call_builtin(Builtin::Prompt, vec![Value::String("> ".to_string())], 0),
        Ok(Value::String("line two".to_string()))
    );
    assert_eq!(runtime.call_builtin(Builtin::Input, vec![], 0), Ok(Value::String(String::new())));
    assert_eq!(runtime.call_builtin(Builtin::Print, vec![Value::Number(-3)], 0), Ok(Value::Null));
    assert_eq!(runtime.output(), "> -3\n");
}

#[test]
fn a_larger_budget_changes_nothing() {
    let source = "fn count(n){ let i = 0; let l = { a: 0 }; while i < n { i = i + 1; } return i; } \
                  fn main(){ print(count(20)); print(tostring({ a: { b: 1 } })); }";
    let (expected, expected_output) = run_with(source, &[], &[], 25);
    assert_eq!(expected, Ok(()));
    assert_eq!(expected_output, "20\n{ a: { b: 1 } }\n");
    for budget in [26, 100, 10_000, usize::MAX] {
        let (result, output) = run_with(source, &[], &[], budget);
        assert_eq!(result, expected);
        assert_eq!(output, expected_output);
    }
}

#[test]
fn no_frame_is_left_after_a_run() {
    let source = "fn f(n){ if n > 0 { let x = n; return f(n - 1); } return 0; } \
                  fn main(){ let a = 1; while a < 5 { let b = f(a); a = a + 1; } }";
    let mut interpreter = Interpreter::new();
    assert_eq!(interpreter.interpret(decls_of(source), vec![]), Ok(()));
    assert!(!interpreter.runtime().scope().has_scope());
}

#[test]
fn a_failed_call_removes_the_innermost_frame() {
    let mut interpreter = Interpreter::new();
    interpreter.define_builtins();
    let failing = FnObj::Defined {
        params: vec!["p".to_string()],
        body: vec![declare("x", num(1)), call_stmt("print", vec![name("missing")])],
    };
    assert_eq!(
        interpreter.call_fn(&failing, vec![Value::Number(7)]),
        Err(RuntimeError::UndefinedIdentifier("missing".to_string()))
    );
    assert_eq!(interpreter.runtime().scope().resolve(&"x".to_string()), None);
    assert_eq!(interpreter.runtime().scope().resolve(&"p".to_string()), Some(&Value::Number(7)));
}

#[test]
fn a_run_stops_where_it_reads_beyond_a_partial_input() {
    let source = "fn main(){ print(\"a\"); let x = input(); print(x); let y = prompt(\"? \"); print(y); }";
    let run_partial = |lines: &[&str]| {
        let input = lines.iter().map(|s| s.to_string()).collect();
        let mut interpreter = Interpreter::with_partial_input(input, usize::MAX);
        let result = interpreter.interpret(decls_of(source), vec![]);
        (result, interpreter.output().clone())
    };
    assert_eq!(run_partial(&[]), (Err(RuntimeError::NeedsInput), "a\n".to_string()));
    assert_eq!(run_partial(&["one\n"]), (Err(RuntimeError::NeedsInput), "a\none\n? ".to_string()));
    assert_eq!(run_partial(&["one\n", "two\n"]), (Ok(()), "a\none\n? two\n".to_string()));
    assert_eq!(run_partial(&["one\n", "two\n", "three\n"]), (Ok(()), "a\none\n? two\n".to_string()));
    let (result, output) = run_with(source, &[], &["one\n"], usize::MAX);
    assert_eq!((result, output), (Ok(()), "a\none\n? \n".to_string()));
    let mut runtime = Runtime::new(vec![], true);
    assert_eq!(runtime.call_builtin(Builtin::Input, vec![], 0), Err(RuntimeError::NeedsInput));
    assert_eq!(
        runtime.call_builtin(Builtin::Prompt, vec![Value::String("> ".to_string())], 0),
        Err(RuntimeError::NeedsInput)
    );
    assert_eq!(runtime.output(), "> ");
}

/// Runs a program in rounds, each from the start: with one more line of input
/// after a round that stopped for input, and with twice the budget after a
/// round that stopped for that. Returns the result and what the rounds wrote,
/// each round adding to what the rounds before had written.
fn run_in_rounds(source: &str, all_lines: &[&str], first_budget: usize) -> (Result<(), RuntimeError>, String, usize) {
    let mut given = 0;
    let mut input_open = true;
    let mut budget = first_budget;
    let mut written = String::new();
    let mut rounds = 0;
    loop {
        rounds += 1;
        let lines: Vec<String> = all_lines[..given].iter().map(|s| s.to_string()).collect();
        let mut interpreter = if input_open {
            Interpreter::with_partial_input(lines, budget)
        } else {
            Interpreter::with_input(lines, budget)
        };
        let result = interpreter.interpret(decls_of(source), vec![]);
        let output = interpreter.output();
        assert!(output.starts_with(&written), "{:?} does not begin with {:?}", output, written);
        written = output.clone();
        match result {
            Err(RuntimeError::NeedsInput) => {
                if given < all_lines.len() {
                    given += 1;
                } else {
                    input_open = false;
                }
            }
            Err(RuntimeError::OutOfFuel) if budget < 1_000_000 => budget = 2 * budget + 1,
            other => return (other, written, rounds),
        }
    }
}

#[test]
fn rounds_write_what_one_run_writes() {
    let source = "fn ask(n){ let i = 0; let sum = 0; while i < n { \
                      let line = prompt(tostring(i) + \"> \"); \
                      sum = sum + parseint(line); i = i + 1; } return sum; } \
                  fn main(){ print(\"start\"); print(ask(3)); let last = input(); print(\"[\" + last + \"]\"); }";
    let lines = ["10\n", "20\n", "12\n"];
    let (expected, expected_output) = run_with(source, &[], &lines, usize::MAX);
    assert_eq!(expected, Ok(()));
    assert_eq!(expected_output, "start\n0> 1> 2> 42\n[]\n");
    for first_budget in [0, 1, 2, 7, 1000] {
        let (result, written, rounds) = run_in_rounds(source, &lines, first_budget);
        assert_eq!(result, expected);
        assert_eq!(written, expected_output);
        assert!(rounds >= 5);
    }
}

#[test]
fn rounds_end_with_the_failure_of_the_run() {
    let source = "fn main(){ print(1); let x = parseint(input()); print(2); print(10 / x); }";
    let (result, written, _) = run_in_rounds(source, &["0\n"], 1);
    assert_eq!(
        result,
        Err(RuntimeError::OperationError(OperationError::InvalidBinary(
            Value::Number(10),
            Operator::Slash,
            Value::Number(0)
        )))
    );
    assert_eq!(written, "1\n2\n");
    let (result, written, _) = run_in_rounds(source, &[], 1);
    assert_eq!(
        result,
        Err(RuntimeError::InvalidArgumentType("integer".to_string(), "string".to_string()))
    );
    assert_eq!(written, "1\n");
}
