use shell_builtins::files::{
    at_operand, cd, cd_operation, mkdir, mkdir_operation, pwd, report_operation, rm, rm_operation,
    rmdir, rmdir_operation, WorkingDirectory,
};
use shell_builtins::operation::{Operation, OperationKind};

fn args(items: &[&str]) -> Vec<String> {
    items.iter().map(|item| item.to_string()).collect()
}

fn failure(cause: &str) -> Option<String> {
    Some(cause.to_string())
}

#[test]
fn cd_without_argument_changes_nothing_and_says_so() {
    assert!(cd_operation(&args(&["cd"])).is_none());
    assert_eq!(cd(&args(&["cd"]), &None), "No path given\n");
}

#[test]
fn cd_without_argument_does_not_look_at_the_outcome() {
    assert_eq!(cd(&args(&["cd"]), &failure("ignored")), "No path given\n");
    assert_eq!(cd(&args(&[]), &failure("ignored")), "No path given\n");
}

#[test]
fn cd_asks_to_change_to_its_operand() {
    let asked = cd_operation(&args(&["cd", "/home/user"])).unwrap();
    assert_eq!(asked.kind, OperationKind::ChangeDirectory);
    assert_eq!(asked.path, "/home/user");
    let more = cd_operation(&args(&["cd", "first", "second"])).unwrap();
    assert_eq!(more.path, "first");
}

#[test]
fn cd_prints_nothing_after_a_success() {
    assert_eq!(cd(&args(&["cd", "/home/user"]), &None), "");
}

#[test]
fn cd_reports_a_failure_with_path_and_cause() {
    assert_eq!(
        cd(&args(&["cd", "/nowhere"]), &failure("No such file or directory (os error 2)")),
        "Failed to set current dir to /nowhere: No such file or directory (os error 2)\n"
    );
}

#[test]
fn mkdir_without_argument() {
    assert!(mkdir_operation(&args(&["mkdir"])).is_none());
    assert_eq!(mkdir(&args(&["mkdir"]), &None), "No name provided\n");
}

#[test]
fn mkdir_asks_to_create_a_directory() {
    let asked = mkdir_operation(&args(&["mkdir", "new"])).unwrap();
    assert_eq!(asked.kind, OperationKind::CreateDirectory);
    assert_eq!(asked.path, "new");
    assert_eq!(mkdir(&args(&["mkdir", "new"]), &None), "");
}

#[test]
fn mkdir_reports_a_failure_with_path_and_cause() {
    assert_eq!(
        mkdir(&args(&["mkdir", "new"]), &failure("File exists (os error 17)")),
        "Failed to create: new: File exists (os error 17)\n"
    );
}

#[test]
fn rm_without_argument() {
    assert!(rm_operation(&args(&["rm"])).is_none());
    assert_eq!(rm(&args(&["rm"]), &None), "No name provided\n");
}

#[test]
fn rm_asks_to_remove_a_file() {
    let asked = rm_operation(&args(&["rm", "old.txt"])).unwrap();
    assert_eq!(asked.kind, OperationKind::RemoveFile);
    assert_eq!(asked.path, "old.txt");
    assert_eq!(rm(&args(&["rm", "old.txt"]), &None), "");
}

#[test]
fn rm_reports_a_failure_with_path_and_cause() {
    assert_eq!(
        rm(&args(&["rm", "old.txt"]), &failure("Permission denied (os error 13)")),
        "Failed to remove: old.txt: Permission denied (os error 13)\n"
    );
}

#[test]
fn rmdir_without_argument() {
    assert!(rmdir_operation(&args(&["rmdir"])).is_none());
    assert_eq!(rmdir(&args(&["rmdir"]), &None), "No name provided\n");
}

#[test]
fn rmdir_asks_to_remove_a_directory() {
    let asked = rmdir_operation(&args(&["rmdir", "old"])).unwrap();
    assert_eq!(asked.kind, OperationKind::RemoveDirectory);
    assert_eq!(asked.path, "old");
    assert_eq!(rmdir(&args(&["rmdir", "old"]), &None), "");
}

#[test]
fn rmdir_reports_a_failure_with_path_and_cause() {
    assert_eq!(
        rmdir(&args(&["rmdir", "old"]), &failure("Directory not empty (os error 39)")),
        "Failed to remove: old: Directory not empty (os error 39)\n"
    );
}

#[test]
fn at_operand_takes_the_path_unchanged() {
    let asked = at_operand(OperationKind::RemoveFile, &args(&["rm", "  spaced name  "])).unwrap();
    assert_eq!(asked.path, "  spaced name  ");
    assert!(at_operand(OperationKind::Create, &args(&[])).is_none());
}

#[test]
fn report_operation_builds_the_three_texts() {
    let with = args(&["x", "p"]);
    assert_eq!(report_operation(&args(&["x"]), &None, "Nothing given", "Failed: "), "Nothing given\n");
    assert_eq!(report_operation(&with, &None, "Nothing given", "Failed: "), "");
    assert_eq!(report_operation(&with, &failure("why"), "Nothing given", "Failed: "), "Failed: p: why\n");
}

#[test]
fn pwd_prints_the_current_directory() {
    assert_eq!(pwd(&WorkingDirectory::Path("/home/user".to_string())), "/home/user\n");
}

#[test]
fn pwd_prints_a_question_mark_for_a_path_that_is_no_text() {
    assert_eq!(pwd(&WorkingDirectory::NotText), "?\n");
}

#[test]
fn pwd_reports_a_failure() {
    assert_eq!(
        pwd(&WorkingDirectory::Unavailable("No such file or directory (os error 2)".to_string())),
        "Failed to get current dir: No such file or directory (os error 2)\n"
    );
}

#[test]
fn the_four_builtins_ask_for_four_different_operations() {
    let with = args(&["x", "target"]);
    let asked = [
        cd_operation(&with),
        mkdir_operation(&with),
        rm_operation(&with),
        rmdir_operation(&with),
    ];
    let kinds = [
        OperationKind::ChangeDirectory,
        OperationKind::CreateDirectory,
        OperationKind::RemoveFile,
        OperationKind::RemoveDirectory,
    ];
    for i in 0..4 {
        assert_eq!(asked[i], Some(Operation { kind: kinds[i], path: "target".to_string() }));
    }
}
