use shell_builtins::session::{echo, read, read_flush_failure, read_prompt, read_prompts, sleep};
use shell_builtins::variables::VariableStore;

fn args(items: &[&str]) -> Vec<String> {
    items.iter().map(|item| item.to_string()).collect()
}

fn line(text: &str) -> Option<String> {
    Some(text.to_string())
}

#[test]
fn echo_trims_the_outer_edges_only() {
    assert_eq!(echo(&args(&["  a   b  "])), "a   b\n");
}

#[test]
fn echo_joins_with_one_space() {
    assert_eq!(echo(&args(&["a", "b"])), "a b\n");
    assert_eq!(echo(&args(&["a", "", "b"])), "a  b\n");
    assert_eq!(echo(&args(&[" a ", " b "])), "a   b\n");
}

#[test]
fn echo_of_nothing_is_an_empty_line() {
    assert_eq!(echo(&args(&[])), "\n");
    assert_eq!(echo(&args(&[""])), "\n");
    assert_eq!(echo(&args(&["   ", "\t"])), "\n");
}

#[test]
fn echo_does_not_expand_variables() {
    assert_eq!(echo(&args(&["$x", "${y}"])), "$x ${y}\n");
}

#[test]
fn read_prompt_is_the_trimmed_name_and_an_equals_sign() {
    assert_eq!(read_prompt("x"), "x=");
    assert_eq!(read_prompt("  name\t"), "name=");
    assert_eq!(read_prompt(""), "=");
}

#[test]
fn read_prompts_come_one_for_each_operand_in_order() {
    assert_eq!(read_prompts(&args(&["read", "b", " a ", "c"])), args(&["b=", "a=", "c="]));
    assert_eq!(read_prompts(&args(&["read"])), args(&[]));
    assert_eq!(read_prompts(&args(&[])), args(&[]));
}

#[test]
fn read_flush_failure_names_the_cause_first() {
    assert_eq!(read_flush_failure("Broken pipe (os error 32)"), "Broken pipe (os error 32): Failed to flush stdout\n");
}

#[test]
fn read_stores_the_trimmed_line() {
    let mut variables = VariableStore::new();
    read(&args(&["read", "x"]), &[line("  42  ")], &mut variables);
    assert_eq!(variables.get("x"), Some(&"42".to_string()));
}

#[test]
fn read_trims_the_name() {
    let mut variables = VariableStore::new();
    read(&args(&["read", "  x "]), &[line("1\n")], &mut variables);
    assert_eq!(variables.get("x"), Some(&"1".to_string()));
    assert_eq!(variables.get("  x "), None);
}

#[test]
fn read_keeps_the_inside_of_the_line() {
    let mut variables = VariableStore::new();
    read(&args(&["read", "x"]), &[line(" a  b \n")], &mut variables);
    assert_eq!(variables.get("x"), Some(&"a  b".to_string()));
}

#[test]
fn read_goes_through_the_operands_in_order() {
    let mut variables = VariableStore::new();
    read(&args(&["read", "a", "b", "c"]), &[line("1"), line("2"), line("3")], &mut variables);
    assert_eq!(variables.get("a"), Some(&"1".to_string()));
    assert_eq!(variables.get("b"), Some(&"2".to_string()));
    assert_eq!(variables.get("c"), Some(&"3".to_string()));
    assert_eq!(variables.get("read"), None);
}

#[test]
fn read_lets_the_later_of_two_equal_names_win() {
    let mut variables = VariableStore::new();
    read(&args(&["read", "x", "x"]), &[line("first"), line("second")], &mut variables);
    assert_eq!(variables.get("x"), Some(&"second".to_string()));
}

#[test]
fn read_skips_a_name_whose_input_had_ended() {
    let mut variables = VariableStore::new();
    variables.set("b", "old");
    read(&args(&["read", "a", "b", "c"]), &[line("1"), None, line("3")], &mut variables);
    assert_eq!(variables.get("a"), Some(&"1".to_string()));
    assert_eq!(variables.get("b"), Some(&"old".to_string()));
    assert_eq!(variables.get("c"), Some(&"3".to_string()));
}

#[test]
fn read_takes_missing_lines_as_ended_input() {
    let mut variables = VariableStore::new();
    read(&args(&["read", "a", "b"]), &[line("1")], &mut variables);
    assert_eq!(variables.get("a"), Some(&"1".to_string()));
    assert_eq!(variables.get("b"), None);
}

#[test]
fn read_without_operands_sets_nothing() {
    let mut variables = VariableStore::new();
    read(&args(&["read"]), &[line("stray")], &mut variables);
    read(&args(&[]), &[line("stray")], &mut variables);
    assert_eq!(variables.get("read"), None);
    assert_eq!(variables.get("stray"), None);
}

#[test]
fn read_overwrites_an_earlier_value() {
    let mut variables = VariableStore::new();
    variables.set("x", "old");
    read(&args(&["read", "x"]), &[line("new")], &mut variables);
    assert_eq!(variables.get("x"), Some(&"new".to_string()));
}

#[test]
fn read_stores_an_empty_line_as_an_empty_value() {
    let mut variables = VariableStore::new();
    read(&args(&["read", "x"]), &[line("   ")], &mut variables);
    assert_eq!(variables.get("x"), Some(&String::new()));
}

#[test]
fn read_stores_nothing_under_a_blank_name() {
    let mut variables = VariableStore::new();
    read(&args(&["read", "  ", "y"]), &[line("lost"), line("kept")], &mut variables);
    assert_eq!(variables.get(""), None);
    assert_eq!(variables.get("  "), None);
    assert_eq!(variables.get("y"), Some(&"kept".to_string()));
}

#[test]
fn sleep_takes_the_number_of_its_operand() {
    assert_eq!(sleep(&args(&["sleep", "3"]), 3), 3);
    assert_eq!(sleep(&args(&["sleep", "3600", "more"]), 3600), 3600);
}

#[test]
fn sleep_is_zero_without_operand() {
    assert_eq!(sleep(&args(&["sleep"]), 5), 0);
    assert_eq!(sleep(&args(&[]), 5), 0);
}

#[test]
fn sleep_is_zero_for_an_operand_that_is_no_number() {
    assert_eq!(sleep(&args(&["sleep", "soon"]), 0), 0);
}
