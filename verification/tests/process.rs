use shell_builtins::process::{run, run_arguments, RunOutcome, EXIT_CODE_VARIABLE, PROGRAM};
use shell_builtins::variables::VariableStore;

fn args(items: &[&str]) -> Vec<String> {
    items.iter().map(|item| item.to_string()).collect()
}

#[test]
fn run_starts_the_one_program() {
    assert_eq!(PROGRAM, "/apps/shell/main.bin");
    assert_eq!(EXIT_CODE_VARIABLE, "?");
}

#[test]
fn run_forwards_the_arguments_after_the_name() {
    assert_eq!(run_arguments(&args(&["run", "-v", "a b", ""])), args(&["-v", "a b", ""]));
    assert_eq!(run_arguments(&args(&["run"])), args(&[]));
    assert_eq!(run_arguments(&args(&[])), args(&[]));
}

#[test]
fn run_records_exit_code_seven() {
    let mut variables = VariableStore::new();
    let out = run(&RunOutcome::Exited(7), &mut variables);
    assert_eq!(out, "");
    assert_eq!(variables.get("?"), Some(&"7".to_string()));
}

#[test]
fn run_overwrites_the_earlier_exit_code() {
    let mut variables = VariableStore::new();
    run(&RunOutcome::Exited(7), &mut variables);
    run(&RunOutcome::Exited(0), &mut variables);
    assert_eq!(variables.get("?"), Some(&"0".to_string()));
    run(&RunOutcome::Exited(-1), &mut variables);
    assert_eq!(variables.get("?"), Some(&"-1".to_string()));
    run(&RunOutcome::Exited(255), &mut variables);
    assert_eq!(variables.get("?"), Some(&"255".to_string()));
}

#[test]
fn run_leaves_other_variables_alone() {
    let mut variables = VariableStore::new();
    variables.set("x", "kept");
    run(&RunOutcome::Exited(3), &mut variables);
    assert_eq!(variables.get("x"), Some(&"kept".to_string()));
    assert_eq!(variables.get("?"), Some(&"3".to_string()));
}

#[test]
fn run_ended_by_a_signal_leaves_the_exit_code_as_it_was() {
    let mut variables = VariableStore::new();
    run(&RunOutcome::Exited(7), &mut variables);
    let out = run(&RunOutcome::NoExitCode, &mut variables);
    assert_eq!(out, "/apps/shell/main.bin: No child exit code\n");
    assert_eq!(variables.get("?"), Some(&"7".to_string()));
}

#[test]
fn run_ended_by_a_signal_sets_nothing() {
    let mut variables = VariableStore::new();
    run(&RunOutcome::NoExitCode, &mut variables);
    assert_eq!(variables.get("?"), None);
}

#[test]
fn run_reports_a_failed_wait() {
    let mut variables = VariableStore::new();
    variables.set("?", "1");
    let out = run(&RunOutcome::WaitFailed("interrupted".to_string()), &mut variables);
    assert_eq!(out, "/apps/shell/main.bin: Failed to wait: interrupted\n");
    assert_eq!(variables.get("?"), Some(&"1".to_string()));
}

#[test]
fn run_reports_a_failed_start() {
    let mut variables = VariableStore::new();
    let out = run(
        &RunOutcome::StartFailed("No such file or directory (os error 2)".to_string()),
        &mut variables,
    );
    assert_eq!(out, "/apps/shell/main.bin: Failed to execute: No such file or directory (os error 2)\n");
    assert_eq!(variables.get("?"), None);
}
