use tinyscript::interpreter::{Interpreter, RuntimeError};
use tinyscript::lexer::tokenize;
use tinyscript::parser::parse_tokens;
use tinyscript::rounds::{next_step, unwritten, NextStep};

#[test]
fn a_finished_run_is_followed_by_nothing() {
    assert_eq!(next_step(Ok(()), true, 10), NextStep::Done);
    assert_eq!(next_step(Ok(()), false, 0), NextStep::Done);
    assert_eq!(next_step(Ok(()), true, usize::MAX), NextStep::Done);
}

#[test]
fn a_run_that_needs_input_is_followed_by_reading() {
    assert_eq!(next_step(Err(RuntimeError::NeedsInput), true, 10), NextStep::ReadInput);
    assert_eq!(next_step(Err(RuntimeError::NeedsInput), true, usize::MAX), NextStep::ReadInput);
    assert_eq!(
        next_step(Err(RuntimeError::NeedsInput), false, 10),
        NextStep::Report(RuntimeError::NeedsInput)
    );
}

#[test]
fn a_run_out_of_budget_is_followed_by_one_with_twice_as_much() {
    assert_eq!(next_step(Err(RuntimeError::OutOfFuel), true, 0), NextStep::MoreBudget(1));
    assert_eq!(next_step(Err(RuntimeError::OutOfFuel), false, 1), NextStep::MoreBudget(2));
    assert_eq!(next_step(Err(RuntimeError::OutOfFuel), true, 4096), NextStep::MoreBudget(8192));
    assert_eq!(
        next_step(Err(RuntimeError::OutOfFuel), true, usize::MAX / 2),
        NextStep::MoreBudget(usize::MAX - 1)
    );
    assert_eq!(
        next_step(Err(RuntimeError::OutOfFuel), true, usize::MAX / 2 + 1),
        NextStep::MoreBudget(usize::MAX)
    );
    assert_eq!(
        next_step(Err(RuntimeError::OutOfFuel), true, usize::MAX - 1),
        NextStep::MoreBudget(usize::MAX)
    );
    assert_eq!(
        next_step(Err(RuntimeError::OutOfFuel), true, usize::MAX),
        NextStep::Report(RuntimeError::OutOfFuel)
    );
}

#[test]
fn a_failure_is_final() {
    assert_eq!(next_step(Err(RuntimeError::NoScope), true, 1), NextStep::Report(RuntimeError::NoScope));
    assert_eq!(
        next_step(Err(RuntimeError::UndefinedIdentifier("x".to_string())), false, 1),
        NextStep::Report(RuntimeError::UndefinedIdentifier("x".to_string()))
    );
    assert_eq!(
        next_step(Err(RuntimeError::IndexOutOfBounds(1, -1)), true, usize::MAX),
        NextStep::Report(RuntimeError::IndexOutOfBounds(1, -1))
    );
}

#[test]
fn what_is_new_comes_after_what_was_written() {
    assert_eq!(unwritten("abcdef", 0), "abcdef");
    assert_eq!(unwritten("abcdef", 2), "cdef");
    assert_eq!(unwritten("abcdef", 6), "");
    assert_eq!(unwritten("abcdef", 7), "abcdef");
    assert_eq!(unwritten("", 0), "");
    assert_eq!(unwritten("a\u{e9}\u{4e2d}b", 2), "\u{4e2d}b");
    assert_eq!(unwritten("a\u{e9}\u{4e2d}b", 4), "");
}

/// Runs a program as the steps say, with `lines` as the input that comes line
/// by line, and returns the result, what was written in all, and the number of
/// rounds.
fn run_by_steps(source: &str, lines: &[&str], first_budget: usize) -> (Result<(), RuntimeError>, String, usize) {
    let mut given = 0;
    let mut input_open = true;
    let mut budget = first_budget;
    let mut written = String::new();
    let mut rounds = 0;
    loop {
        rounds += 1;
        let decls = parse_tokens(tokenize(source).unwrap()).unwrap();
        let input: Vec<String> = lines[..given].iter().map(|s| s.to_string()).collect();
        let mut interpreter = if input_open {
            Interpreter::with_partial_input(input, budget)
        } else {
            Interpreter::with_input(input, budget)
        };
        let result = interpreter.interpret(decls, vec![]);
        let fresh = unwritten(interpreter.output(), written.chars().count()).to_string();
        written.push_str(&fresh);
        assert_eq!(&written, interpreter.output());
        match next_step(result, input_open, budget) {
            NextStep::Done => return (Ok(()), written, rounds),
            NextStep::ReadInput => {
                if given < lines.len() {
                    given += 1;
                } else {
                    input_open = false;
                }
            }
            NextStep::MoreBudget(larger) => {
                assert!(larger > budget);
                budget = larger;
            }
            NextStep::Report(e) => return (Err(e), written, rounds),
        }
    }
}

#[test]
fn steps_lead_to_the_result_of_one_run() {
    let source = "fn main(){ let i = 0; while i < 40 { i = i + 1; } print(i); \
                  let a = prompt(\"a? \"); let b = input(); print(a + b); print(input() + \".\"); }";
    let (result, written, rounds) = run_by_steps(source, &["x\n", "y\n"], 0);
    assert_eq!(result, Ok(()));
    assert_eq!(written, "40\na? xy\n.\n");
    assert!(rounds > 6);
    let mut interpreter = Interpreter::with_input(vec!["x\n".to_string(), "y\n".to_string()], usize::MAX);
    let decls = parse_tokens(tokenize(source).unwrap()).unwrap();
    assert_eq!(interpreter.interpret(decls, vec![]), Ok(()));
    assert_eq!(interpreter.output(), &written);
}

#[test]
fn steps_end_with_the_failure_of_the_run() {
    let source = "fn main(){ print(1); x = input(); print(2); }";
    let (result, written, _) = run_by_steps(source, &["line\n"], 1);
    assert_eq!(result, Err(RuntimeError::UndefinedIdentifier("x".to_string())));
    assert_eq!(written, "1\n");
}
