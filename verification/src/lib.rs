//! The builtin commands of an interactive shell: `cat`, `cd`, `echo`, `free`,
//! `ls`, `mkdir`, `poweroff`, `ps`, `pwd`, `read`, `rm`, `rmdir`, `run` and
//! `sleep`.
//!
//! A builtin does its work on the system it runs on, and every such step can
//! fail. This library holds what a builtin decides, and leaves the doing to
//! its caller. For each builtin it says two things:
//!
//! - what the builtin asks for, given its arguments: the path to read or to
//!   list, the operation to attempt, the program to run and what to hand to
//!   it, the prompts to show;
//! - what the builtin prints, and what it does to the session's variables,
//!   given its arguments and what became of what it asked for.
//!
//! The caller carries out each request once, and prints the text it gets
//! back on the standard output, which is where results and failures alike
//! go. No failure ends the session: it ends up as a line of that text.
//!
//! Memory statistics, the list of processes and switching the machine off
//! are resources with a path like any file: `free` and `ps` are read as
//! `cat` reads, and `poweroff` creates a resource.
//!
//! The first of a command's arguments is its own name; only `echo` prints
//! all that it is given. Contracts speak of texts as sequences of
//! characters.

pub mod arguments;
pub mod decimal;
pub mod files;
pub mod listing;
pub mod operation;
pub mod order;
pub mod process;
pub mod resource;
pub mod session;
pub mod text;
pub mod variables;
