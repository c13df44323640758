//! The operations that a builtin asks the system for and that either
//! succeed or fail, with nothing to hand back.

use vstd::prelude::*;

verus! {

/// What is to be done at a path.
#[derive(Clone, Copy, PartialEq, Eq, Debug, Structural)]
pub enum OperationKind {
    /// Create the resource that the path names.
    Create,
    /// Make the path the current directory.
    ChangeDirectory,
    /// Create a directory at the path.
    CreateDirectory,
    /// Remove the file at the path.
    RemoveFile,
    /// Remove the directory at the path.
    RemoveDirectory,
}

/// One operation: what is to be done, and where.
#[derive(Clone, Debug, PartialEq, Eq)]
pub struct Operation {
    pub kind: OperationKind,
    pub path: String,
}

/// The view of `Operation`: the same, with each text as its sequence of characters.
pub struct OperationView {
    pub kind: OperationKind,
    pub path: Seq<char>,
}

impl DeepView for Operation {
    type V = OperationView;

    open spec fn deep_view(&self) -> OperationView {
        OperationView { kind: self.kind, path: self.path@ }
    }
}

} // verus!
