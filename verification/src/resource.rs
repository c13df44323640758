//! Resources that are read whole as text, or created for the effect of
//! creating them. A resource is named by a path, and nothing here tells a
//! file's path from a reserved name that the system answers itself: `cat`
//! reads what it is told to read, `free` and `ps` read two reserved names in
//! the same way, and `poweroff` creates a third.

use vstd::prelude::*;
use vstd::string::*;
use crate::arguments::{operand, operand_or};
use crate::operation::{Operation, OperationKind, OperationView};

verus! {

/// The resource that holds the memory statistics.
pub const MEMORY_RESOURCE: &'static str = "memory:";

/// The resource that holds the list of processes.
pub const CONTEXT_RESOURCE: &'static str = "context:";

/// The resource whose creation switches the machine off.
pub const POWER_OFF_RESOURCE: &'static str = "acpi:off";

/// What became of opening a resource and reading all of it.
#[derive(Clone, Debug, PartialEq, Eq)]
pub enum ReadOutcome {
    /// It was opened and read to its end: the text it held.
    Content(String),
    /// It could not be opened: the cause.
    OpenFailed(String),
    /// It was opened, and reading it failed: the cause. What had been read by
    /// then is not kept.
    ReadFailed(String),
}

/// The view of `ReadOutcome`: the same, with each text as its sequence of characters.
pub enum ReadOutcomeView {
    Content(Seq<char>),
    OpenFailed(Seq<char>),
    ReadFailed(Seq<char>),
}

impl DeepView for ReadOutcome {
    type V = ReadOutcomeView;

    open spec fn deep_view(&self) -> ReadOutcomeView {
        match self {
            ReadOutcome::Content(text) => ReadOutcomeView::Content(text@),
            ReadOutcome::OpenFailed(cause) => ReadOutcomeView::OpenFailed(cause@),
            ReadOutcome::ReadFailed(cause) => ReadOutcomeView::ReadFailed(cause@),
        }
    }
}

/// What is printed once a resource was read: its text and a line break, or
/// one line that names the step that failed, the resource as `subject` and
/// the cause.
pub open spec fn read_report(subject: Seq<char>, outcome: ReadOutcomeView) -> Seq<char> {
    match outcome {
        ReadOutcomeView::Content(text) => text + "\n"@,
        ReadOutcomeView::OpenFailed(cause) => "Failed to open file: "@ + subject + ": "@ + cause
            + "\n"@,
        ReadOutcomeView::ReadFailed(cause) => "Failed to read: "@ + subject + ": "@ + cause
            + "\n"@,
    }
}

/// The text to print once the resource that `subject` names was read.
pub fn report_read(subject: &str, outcome: &ReadOutcome) -> (out: String)
    ensures
        out@ == read_report(subject@, outcome.deep_view()),
{
    match outcome {
        ReadOutcome::Content(text) => {
            let mut out = text.clone();
            out.append("\n");
            out
        },
        ReadOutcome::OpenFailed(cause) => {
            let mut out = String::from_str("Failed to open file: ");
            out.append(subject);
            out.append(": ");
            out.append(cause.as_str());
            out.append("\n");
            out
        },
        ReadOutcome::ReadFailed(cause) => {
            let mut out = String::from_str("Failed to read: ");
            out.append(subject);
            out.append(": ");
            out.append(cause.as_str());
            out.append("\n");
            out
        },
    }
}

/// The path that `cat` reads: its operand, or the empty path without one.
pub fn cat_path(args: &[String]) -> (path: String)
    ensures
        path@ == operand_or(args.deep_view(), Seq::empty()),
{
    match operand(args) {
        Some(text) => text.clone(),
        None => String::new(),
    }
}

/// `cat`: the text to print, given as `outcome` what became of reading the
/// resource at `cat_path(args)`.
pub fn cat(args: &[String], outcome: &ReadOutcome) -> (out: String)
    ensures
        out@ == read_report(operand_or(args.deep_view(), Seq::empty()), outcome.deep_view()),
{
    let path = cat_path(args);
    report_read(path.as_str(), outcome)
}

/// `free`: the text to print, given as `outcome` what became of reading
/// `MEMORY_RESOURCE`.
pub fn free(outcome: &ReadOutcome) -> (out: String)
    ensures
        out@ == read_report("memory"@, outcome.deep_view()),
{
    report_read("memory", outcome)
}

/// `ps`: the text to print, given as `outcome` what became of reading
/// `CONTEXT_RESOURCE`.
pub fn ps(outcome: &ReadOutcome) -> (out: String)
    ensures
        out@ == read_report("context"@, outcome.deep_view()),
{
    report_read("context", outcome)
}

/// What `poweroff` asks for: to create `POWER_OFF_RESOURCE`. Creating it is
/// the command; nothing is written to it.
pub fn poweroff_operation() -> (asked: Operation)
    ensures
        asked.deep_view() == (OperationView {
            kind: OperationKind::Create,
            path: POWER_OFF_RESOURCE@,
        }),
{
    Operation { kind: OperationKind::Create, path: String::from_str(POWER_OFF_RESOURCE) }
}

/// What `poweroff` prints: nothing where `POWER_OFF_RESOURCE` was created,
/// else one line with the cause.
pub open spec fn poweroff_output(failure: Option<Seq<char>>) -> Seq<char> {
    match failure {
        None => Seq::empty(),
        Some(cause) => "Failed to remove power (error: "@ + cause + ")\n"@,
    }
}

/// `poweroff`: the text to print. `failure` is the cause for which
/// `poweroff_operation()` failed, `None` where it succeeded. A success may
/// never be heard of: the machine may be off before the operation returns.
pub fn poweroff(failure: &Option<String>) -> (out: String)
    ensures
        out@ == poweroff_output(failure.deep_view()),
{
    match failure {
        None => String::new(),
        Some(cause) => {
            let mut out = String::from_str("Failed to remove power (error: ");
            out.append(cause.as_str());
            out.append(")\n");
            out
        },
    }
}

} // verus!
