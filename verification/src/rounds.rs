//! Running a program in rounds. A run stops where it needs more than its
//! budget or more input than is there. It is then run again from the start,
//! with a larger budget or with the next line, and writes again what it wrote
//! and then more. This module says what follows a round, and which part of
//! the output of a round is new.

use vstd::prelude::*;
use crate::budget::{lemma_run_program_prefix, out_of_fuel};
use crate::input::{
    did_the_same, lemma_run_program_input_prefix, lemma_settled_run, needs_input, with_more_input,
};
use crate::interpreter::{unit_result, RuntimeError};
use crate::output::wrote_first;
use crate::registry::FuncsView;
use crate::semantics::{run_program, RuntimeErrorView, RuntimeView};
use crate::syntax::DeclView;

verus! {

/// What follows a round.
#[derive(Debug, PartialEq, Eq)]
pub enum NextStep {
    /// Nothing: the program has run to its end.
    Done,
    /// The next line of input is to be read, then the program run again.
    ReadInput,
    /// The program is to be run again with this budget.
    MoreBudget(usize),
    /// Nothing: the program has failed, with this failure.
    Report(RuntimeError),
}

/// The mathematical content of a [`NextStep`].
pub enum NextStepView {
    Done,
    ReadInput,
    MoreBudget(nat),
    Report(RuntimeErrorView),
}

impl View for NextStep {
    type V = NextStepView;

    open spec fn view(&self) -> NextStepView {
        match self {
            NextStep::Done => NextStepView::Done,
            NextStep::ReadInput => NextStepView::ReadInput,
            NextStep::MoreBudget(budget) => NextStepView::MoreBudget(*budget as nat),
            NextStep::Report(e) => NextStepView::Report(e@),
        }
    }
}

/// The budget to try after `budget`: twice as much, and at least one, up to
/// the largest there is.
pub open spec fn larger_budget(budget: nat) -> nat {
    if budget == 0 {
        1
    } else if 2 * budget > usize::MAX {
        usize::MAX as nat
    } else {
        2 * budget
    }
}

/// What follows a round that gave `result`, on an input after which more lines
/// may follow or not, within `budget`. A round that stopped for input is
/// followed by reading, where more may follow. A round that its budget
/// stopped is followed by a round with a larger budget, where there is one.
/// Every other result is final.
pub open spec fn next_step_spec(
    result: Result<(), RuntimeErrorView>,
    input_open: bool,
    budget: nat,
) -> NextStepView {
    match result {
        Ok(_) => NextStepView::Done,
        Err(e) => if e is NeedsInput && input_open {
            NextStepView::ReadInput
        } else if e is OutOfFuel && budget < usize::MAX {
            NextStepView::MoreBudget(larger_budget(budget))
        } else {
            NextStepView::Report(e)
        },
    }
}

/// What follows a round that gave `result`.
pub fn next_step(result: Result<(), RuntimeError>, input_open: bool, budget: usize) -> (step:
    NextStep)
    ensures
        step@ == next_step_spec(unit_result(result), input_open, budget as nat),
{
    match result {
        Ok(()) => NextStep::Done,
        Err(RuntimeError::NeedsInput) => {
            if input_open {
                NextStep::ReadInput
            } else {
                NextStep::Report(RuntimeError::NeedsInput)
            }
        },
        Err(RuntimeError::OutOfFuel) => {
            if budget == usize::MAX {
                NextStep::Report(RuntimeError::OutOfFuel)
            } else if budget == 0 {
                NextStep::MoreBudget(1)
            } else if budget > usize::MAX / 2 {
                NextStep::MoreBudget(usize::MAX)
            } else {
                NextStep::MoreBudget(2 * budget)
            }
        },
        Err(e) => NextStep::Report(e),
    }
}

/// The part of `output` after its first `written` characters: what a round
/// wrote that the rounds before it had not. Where the output is shorter than
/// that, all of it.
pub open spec fn unwritten_spec(output: Seq<char>, written: nat) -> Seq<char> {
    if written <= output.len() {
        output.skip(written as int)
    } else {
        output
    }
}

/// The part of `output` after its first `written` characters.
pub fn unwritten(output: &str, written: usize) -> (fresh: &str)
    ensures
        fresh@ == unwritten_spec(output@, written as nat),
{
    let len = output.unicode_len();
    if written <= len {
        output.substring_char(written, len)
    } else {
        output
    }
}

/// Rounds add to the output. After a round within `budget` on the state `st`:
/// - where a round with a larger budget follows, that budget is larger, and
///   what this round wrote is the beginning of what that one writes;
/// - where reading follows, what this round wrote is the beginning of what
///   the round on the lines with `extra` after them writes;
/// - where the result is final and neither limit stopped the round, the result
///   and the output are those of the run on any further input within any
///   larger budget.
/// In the first two cases the new part of the next round's output is what
/// `unwritten_spec` gives for the length of this round's output.
pub proof fn lemma_next_round(
    funcs: FuncsView,
    st: RuntimeView,
    decls: Seq<DeclView>,
    args: Seq<Seq<char>>,
    budget: nat,
    more: nat,
    extra: Seq<Seq<char>>,
    open: bool,
)
    requires
        budget <= more,
    ensures
        ({
            let round = run_program(funcs, st, decls, args, budget);
            match next_step_spec(round.0, st.input_open, budget) {
                NextStepView::MoreBudget(next) => {
                    let again = run_program(funcs, st, decls, args, next);
                    &&& budget < next <= usize::MAX
                    &&& wrote_first(round, again)
                    &&& again.1.output == round.1.output + unwritten_spec(
                        again.1.output,
                        round.1.output.len(),
                    )
                },
                NextStepView::ReadInput => {
                    let again = run_program(
                        funcs,
                        with_more_input(st, extra, open),
                        decls,
                        args,
                        budget,
                    );
                    &&& wrote_first(round, again)
                    &&& again.1.output == round.1.output + unwritten_spec(
                        again.1.output,
                        round.1.output.len(),
                    )
                },
                _ => st.input_open && !needs_input(round) && !out_of_fuel(round) ==> did_the_same(
                    round,
                    run_program(funcs, with_more_input(st, extra, open), decls, args, more),
                    extra,
                    open,
                ),
            }
        }),
{
    let round = run_program(funcs, st, decls, args, budget);
    match next_step_spec(round.0, st.input_open, budget) {
        NextStepView::MoreBudget(next) => {
            lemma_run_program_prefix(funcs, st, decls, args, budget, next);
            let again = run_program(funcs, st, decls, args, next);
            assert(again.1.output =~= round.1.output + again.1.output.skip(
                round.1.output.len() as int,
            ));
        },
        NextStepView::ReadInput => {
            lemma_run_program_input_prefix(funcs, st, decls, args, budget, extra, open);
            let again = run_program(funcs, with_more_input(st, extra, open), decls, args, budget);
            assert(again.1.output =~= round.1.output + again.1.output.skip(
                round.1.output.len() as int,
            ));
        },
        _ => {
            if st.input_open && !needs_input(round) && !out_of_fuel(round) {
                lemma_settled_run(funcs, st, decls, args, budget, more, extra, open);
            }
        },
    }
}

} // verus!
