use tinyscript::interpreter::{Interpreter, RuntimeError};
use tinyscript::lexer::tokenize;
use tinyscript::parser::parse_tokens;

fn run(source: &str) -> (Result<(), RuntimeError>, String) {
    let tokens = tokenize(source).expect("the source has tokens");
    let decls = parse_tokens(tokens).expect("the tokens have a syntax tree");
    let mut interpreter = Interpreter::new();
    let result = interpreter.interpret(decls, vec![]);
    (result, interpreter.output().clone())
}

#[test]
fn assignment_updates_the_variable() {
    let (result, output) = run("fn main(){ let x = 1; x = x + 1; print(x); }");
    assert!(result.is_ok());
    assert_eq!(output, "2\n");
}

#[test]
fn a_call_returns_its_value() {
    let (result, output) = run("fn add(a,b){ return a+b; } fn main(){ print(add(2,3)); }");
    assert!(result.is_ok());
    assert_eq!(output, "5\n");
}

#[test]
fn a_false_condition_skips_the_body() {
    let (result, output) = run("fn main(){ if false { print(\"no\"); } }");
    assert!(result.is_ok());
    assert_eq!(output, "");
}

#[test]
fn a_loop_runs_while_the_condition_holds() {
    let (result, output) = run("fn main(){ let i = 0; while i < 3 { print(i); i = i + 1; } }");
    assert!(result.is_ok());
    assert_eq!(output, "0\n1\n2\n");
}
