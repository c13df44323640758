//! `run`: the shell's one way to start a program. The program is always the
//! same one; the command's arguments go to it, and its exit code is kept in
//! a variable.

use vstd::prelude::*;
use vstd::string::*;
use crate::arguments::{operands, operands_of};
use crate::decimal::{decimal, decimal_text};
use crate::variables::VariableStore;

verus! {

/// The program that `run` starts.
pub const PROGRAM: &'static str = "/apps/shell/main.bin";

/// The variable that holds the exit code of the program that ran last.
pub const EXIT_CODE_VARIABLE: &'static str = "?";

/// What became of starting the program and waiting for its end.
#[derive(Clone, Debug, PartialEq, Eq)]
pub enum RunOutcome {
    /// It ran and ended with this exit code.
    Exited(i32),
    /// It ran and ended without an exit code, as a program does that a signal
    /// ends.
    NoExitCode,
    /// It was started, and waiting for it failed: the cause.
    WaitFailed(String),
    /// It could not be started: the cause. Nothing was waited for.
    StartFailed(String),
}

/// The view of `RunOutcome`: the same, with each text as its sequence of
/// characters and the exit code as an integer.
pub enum RunOutcomeView {
    Exited(int),
    NoExitCode,
    WaitFailed(Seq<char>),
    StartFailed(Seq<char>),
}

impl DeepView for RunOutcome {
    type V = RunOutcomeView;

    open spec fn deep_view(&self) -> RunOutcomeView {
        match self {
            RunOutcome::Exited(code) => RunOutcomeView::Exited(*code as int),
            RunOutcome::NoExitCode => RunOutcomeView::NoExitCode,
            RunOutcome::WaitFailed(cause) => RunOutcomeView::WaitFailed(cause@),
            RunOutcome::StartFailed(cause) => RunOutcomeView::StartFailed(cause@),
        }
    }
}

/// What `run` prints: nothing where the program ended with an exit code,
/// else one line that starts with the program's path.
pub open spec fn run_output(outcome: RunOutcomeView) -> Seq<char> {
    match outcome {
        RunOutcomeView::Exited(_) => Seq::empty(),
        RunOutcomeView::NoExitCode => PROGRAM@ + ": No child exit code\n"@,
        RunOutcomeView::WaitFailed(cause) => PROGRAM@ + ": Failed to wait: "@ + cause + "\n"@,
        RunOutcomeView::StartFailed(cause) => PROGRAM@ + ": Failed to execute: "@ + cause + "\n"@,
    }
}

/// The variables after `run`: an exit code is assigned, in decimal, to
/// `EXIT_CODE_VARIABLE`, in place of what that variable held; without an exit
/// code the variables stay as they were.
pub open spec fn run_variables(
    store: Map<Seq<char>, Seq<char>>,
    outcome: RunOutcomeView,
) -> Map<Seq<char>, Seq<char>> {
    match outcome {
        RunOutcomeView::Exited(code) => store.insert(EXIT_CODE_VARIABLE@, decimal(code)),
        _ => store,
    }
}

/// The arguments that `run` hands to `PROGRAM`: all that follow the
/// command's name, unchanged and in their order.
pub fn run_arguments(args: &[String]) -> (forwarded: Vec<String>)
    ensures
        forwarded.deep_view() == operands_of(args.deep_view()),
{
    operands(args)
}

/// `run`: records the exit code in `variables` and returns the text to
/// print, given as `outcome` what became of running `PROGRAM` with the
/// arguments that `run_arguments` forwards.
pub fn run(outcome: &RunOutcome, variables: &mut VariableStore) -> (out: String)
    ensures
        out@ == run_output(outcome.deep_view()),
        final(variables)@ == run_variables(old(variables)@, outcome.deep_view()),
{
    match outcome {
        RunOutcome::Exited(code) => {
            let text = decimal_text(*code);
            proof {
                reveal_strlit("?");
            }
            variables.set(EXIT_CODE_VARIABLE, text.as_str());
            String::new()
        },
        RunOutcome::NoExitCode => {
            let mut out = String::from_str(PROGRAM);
            out.append(": No child exit code\n");
            out
        },
        RunOutcome::WaitFailed(cause) => {
            let mut out = String::from_str(PROGRAM);
            out.append(": Failed to wait: ");
            out.append(cause.as_str());
            out.append("\n");
            out
        },
        RunOutcome::StartFailed(cause) => {
            let mut out = String::from_str(PROGRAM);
            out.append(": Failed to execute: ");
            out.append(cause.as_str());
            out.append("\n");
            out
        },
    }
}

} // verus!
