//! The builtins that ask for one operation on the file system: `cd`,
//! `mkdir`, `rm`, `rmdir` and `pwd`.
//!
//! `cd`, `mkdir`, `rm` and `rmdir` work on their operand. Without one,
//! nothing is asked of the file system and a fixed line is printed. With one,
//! one operation is asked for at that path, once, and the builtin is given
//! what became of it: it prints nothing after a success, and after a failure
//! one line with the operation, the path and the cause.

use vstd::prelude::*;
use vstd::string::*;
use crate::arguments::{operand, operand_of};
use crate::operation::{Operation, OperationKind, OperationView};

verus! {

/// The operation that a builtin of this `kind` asks for when it is given
/// `args`: none without an operand, else one, at the operand.
pub open spec fn asked_at_operand(kind: OperationKind, args: Seq<Seq<char>>) -> Option<
    OperationView,
> {
    match operand_of(args) {
        Some(path) => Some(OperationView { kind, path }),
        None => None,
    }
}

/// The operation of this `kind` at the operand of `args`, if there is an
/// operand.
pub fn at_operand(kind: OperationKind, args: &[String]) -> (asked: Option<Operation>)
    ensures
        asked.deep_view() == asked_at_operand(kind, args.deep_view()),
{
    match operand(args) {
        Some(path) => Some(Operation { kind, path: path.clone() }),
        None => None,
    }
}

/// What a builtin prints that asks for one operation at its operand:
/// `missing` on a line where it has no operand; with one, nothing where the
/// operation succeeded, else a line made of `failed`, the path, a colon and
/// the cause. `failure` is the cause for which the operation failed.
pub open spec fn operation_report(
    args: Seq<Seq<char>>,
    failure: Option<Seq<char>>,
    missing: Seq<char>,
    failed: Seq<char>,
) -> Seq<char> {
    match operand_of(args) {
        None => missing + "\n"@,
        Some(path) => match failure {
            None => Seq::empty(),
            Some(cause) => failed + path + ": "@ + cause + "\n"@,
        },
    }
}

/// The text to print once the operation at the operand of `args` was
/// attempted, or was not asked for.
pub fn report_operation(args: &[String], failure: &Option<String>, missing: &str, failed: &str) -> (out:
    String)
    ensures
        out@ == operation_report(args.deep_view(), failure.deep_view(), missing@, failed@),
{
    match operand(args) {
        None => {
            let mut out = String::from_str(missing);
            out.append("\n");
            out
        },
        Some(path) => match failure {
            None => String::new(),
            Some(cause) => {
                let mut out = String::from_str(failed);
                out.append(path.as_str());
                out.append(": ");
                out.append(cause.as_str());
                out.append("\n");
                out
            },
        },
    }
}

/// What `cd` asks for: to make its operand the current directory, and
/// nothing without an operand.
pub fn cd_operation(args: &[String]) -> (asked: Option<Operation>)
    ensures
        asked.deep_view() == asked_at_operand(OperationKind::ChangeDirectory, args.deep_view()),
{
    at_operand(OperationKind::ChangeDirectory, args)
}

/// `cd`: the text to print. `failure` is the cause for which
/// `cd_operation(args)` failed, `None` where it succeeded or nothing was
/// asked for.
pub fn cd(args: &[String], failure: &Option<String>) -> (out: String)
    ensures
        out@ == operation_report(
            args.deep_view(),
            failure.deep_view(),
            "No path given"@,
            "Failed to set current dir to "@,
        ),
{
    report_operation(args, failure, "No path given", "Failed to set current dir to ")
}

/// What `mkdir` asks for: to create a directory at its operand, and nothing
/// without an operand.
pub fn mkdir_operation(args: &[String]) -> (asked: Option<Operation>)
    ensures
        asked.deep_view() == asked_at_operand(OperationKind::CreateDirectory, args.deep_view()),
{
    at_operand(OperationKind::CreateDirectory, args)
}

/// `mkdir`: the text to print. `failure` is the cause for which
/// `mkdir_operation(args)` failed, `None` where it succeeded or nothing was
/// asked for.
pub fn mkdir(args: &[String], failure: &Option<String>) -> (out: String)
    ensures
        out@ == operation_report(
            args.deep_view(),
            failure.deep_view(),
            "No name provided"@,
            "Failed to create: "@,
        ),
{
    report_operation(args, failure, "No name provided", "Failed to create: ")
}

/// What `rm` asks for: to remove the file at its operand, and nothing
/// without an operand.
pub fn rm_operation(args: &[String]) -> (asked: Option<Operation>)
    ensures
        asked.deep_view() == asked_at_operand(OperationKind::RemoveFile, args.deep_view()),
{
    at_operand(OperationKind::RemoveFile, args)
}

/// `rm`: the text to print. `failure` is the cause for which
/// `rm_operation(args)` failed, `None` where it succeeded or nothing was
/// asked for.
pub fn rm(args: &[String], failure: &Option<String>) -> (out: String)
    ensures
        out@ == operation_report(
            args.deep_view(),
            failure.deep_view(),
            "No name provided"@,
            "Failed to remove: "@,
        ),
{
    report_operation(args, failure, "No name provided", "Failed to remove: ")
}

/// What `rmdir` asks for: to remove the directory at its operand, and
/// nothing without an operand.
pub fn rmdir_operation(args: &[String]) -> (asked: Option<Operation>)
    ensures
        asked.deep_view() == asked_at_operand(OperationKind::RemoveDirectory, args.deep_view()),
{
    at_operand(OperationKind::RemoveDirectory, args)
}

/// `rmdir`: the text to print. `failure` is the cause for which
/// `rmdir_operation(args)` failed, `None` where it succeeded or nothing was
/// asked for.
pub fn rmdir(args: &[String], failure: &Option<String>) -> (out: String)
    ensures
        out@ == operation_report(
            args.deep_view(),
            failure.deep_view(),
            "No name provided"@,
            "Failed to remove: "@,
        ),
{
    report_operation(args, failure, "No name provided", "Failed to remove: ")
}

/// What became of asking for the current directory.
#[derive(Clone, Debug, PartialEq, Eq)]
pub enum WorkingDirectory {
    /// Its path.
    Path(String),
    /// There is one, and its path is no valid text.
    NotText,
    /// It could not be had: the cause.
    Unavailable(String),
}

/// The view of `WorkingDirectory`: the same, with each text as its sequence of characters.
pub enum WorkingDirectoryView {
    Path(Seq<char>),
    NotText,
    Unavailable(Seq<char>),
}

impl DeepView for WorkingDirectory {
    type V = WorkingDirectoryView;

    open spec fn deep_view(&self) -> WorkingDirectoryView {
        match self {
            WorkingDirectory::Path(path) => WorkingDirectoryView::Path(path@),
            WorkingDirectory::NotText => WorkingDirectoryView::NotText,
            WorkingDirectory::Unavailable(cause) => WorkingDirectoryView::Unavailable(cause@),
        }
    }
}

/// What `pwd` prints: the current directory, a question mark where its path
/// is no valid text, or the cause for which it could not be had; each on a
/// line.
pub open spec fn pwd_output(outcome: WorkingDirectoryView) -> Seq<char> {
    match outcome {
        WorkingDirectoryView::Path(path) => path + "\n"@,
        WorkingDirectoryView::NotText => "?\n"@,
        WorkingDirectoryView::Unavailable(cause) => "Failed to get current dir: "@ + cause + "\n"@,
    }
}

/// `pwd`: the text to print, given as `outcome` what became of asking for
/// the current directory.
pub fn pwd(outcome: &WorkingDirectory) -> (out: String)
    ensures
        out@ == pwd_output(outcome.deep_view()),
{
    match outcome {
        WorkingDirectory::Path(path) => {
            let mut out = path.clone();
            out.append("\n");
            out
        },
        WorkingDirectory::NotText => String::from_str("?\n"),
        WorkingDirectory::Unavailable(cause) => {
            let mut out = String::from_str("Failed to get current dir: ");
            out.append(cause.as_str());
            out.append("\n");
            out
        },
    }
}

} // verus!
