use shell_builtins::listing::{ls, ls_path, Entry, EntryKind, Listing};

fn args(items: &[&str]) -> Vec<String> {
    items.iter().map(|item| item.to_string()).collect()
}

fn file(name: &str) -> Entry {
    Entry::Found { name: Some(name.to_string()), kind: EntryKind::Other }
}

fn directory(name: &str) -> Entry {
    Entry::Found { name: Some(name.to_string()), kind: EntryKind::Directory }
}

#[test]
fn ls_lists_its_operand() {
    assert_eq!(ls_path(&args(&["ls", "/etc"])), "/etc");
    assert_eq!(ls_path(&args(&["ls", "a", "b"])), "a");
}

#[test]
fn ls_without_operand_lists_the_current_directory() {
    assert_eq!(ls_path(&args(&["ls"])), ".");
    assert_eq!(ls_path(&args(&[])), ".");
}

#[test]
fn ls_prints_one_entry_on_a_line_in_ascending_order() {
    let listing = Listing::Entries(vec![file("pear"), file("apple"), file("fig")]);
    assert_eq!(ls(&args(&["ls"]), &listing), "apple\nfig\npear\n");
}

#[test]
fn ls_of_an_empty_directory_prints_nothing() {
    assert_eq!(ls(&args(&["ls", "empty"]), &Listing::Entries(vec![])), "");
}

#[test]
fn ls_marks_each_directory_with_one_separator() {
    let listing = Listing::Entries(vec![directory("src"), file("main.rs"), directory("a b")]);
    assert_eq!(ls(&args(&["ls"]), &listing), "a b/\nmain.rs\nsrc/\n");
}

#[test]
fn ls_marks_a_directory_whatever_its_name_holds() {
    let listing = Listing::Entries(vec![directory("odd/"), directory(""), directory("\u{E9}t\u{E9}")]);
    assert_eq!(ls(&args(&["ls"]), &listing), "/\nodd//\n\u{E9}t\u{E9}/\n");
}

#[test]
fn ls_sorts_the_names_as_they_are_printed() {
    let listing = Listing::Entries(vec![file("ab"), directory("a"), file("a0"), file("a")]);
    assert_eq!(ls(&args(&["ls"]), &listing), "a\na/\na0\nab\n");
}

#[test]
fn ls_sorts_by_code_point() {
    let listing = Listing::Entries(vec![file("b"), file("B"), file("a"), file("_"), file("1")]);
    assert_eq!(ls(&args(&["ls"]), &listing), "1\nB\n_\na\nb\n");
}

#[test]
fn ls_gives_the_same_text_for_the_same_directory() {
    let first = Listing::Entries(vec![file("b"), directory("d"), file("a"), file("c")]);
    let again = Listing::Entries(vec![file("b"), directory("d"), file("a"), file("c")]);
    assert_eq!(ls(&args(&["ls"]), &first), ls(&args(&["ls"]), &again));
    assert_eq!(ls(&args(&["ls"]), &first), "a\nb\nc\nd/\n");
}

#[test]
fn ls_does_not_depend_on_the_order_of_arrival() {
    let first = Listing::Entries(vec![file("b"), directory("d"), file("a"), file("c")]);
    let other = Listing::Entries(vec![file("c"), file("a"), file("b"), directory("d")]);
    assert_eq!(ls(&args(&["ls"]), &first), ls(&args(&["ls"]), &other));
}

#[test]
fn ls_reports_a_directory_that_cannot_be_opened() {
    let listing = Listing::OpenFailed("No such file or directory (os error 2)".to_string());
    assert_eq!(
        ls(&args(&["ls", "/nowhere"]), &listing),
        "Failed to open directory: /nowhere: No such file or directory (os error 2)\n"
    );
    assert_eq!(
        ls(&args(&["ls"]), &listing),
        "Failed to open directory: .: No such file or directory (os error 2)\n"
    );
}

#[test]
fn ls_goes_on_after_an_entry_that_cannot_be_read() {
    let listing = Listing::Entries(vec![
        file("z"),
        Entry::Unreadable("Input/output error (os error 5)".to_string()),
        file("a"),
    ]);
    assert_eq!(
        ls(&args(&["ls"]), &listing),
        "Failed to read entry: Input/output error (os error 5)\na\nz\n"
    );
}

#[test]
fn ls_lists_an_entry_of_unknown_kind_as_no_directory() {
    let listing = Listing::Entries(vec![
        directory("d"),
        Entry::Found { name: Some("odd".to_string()), kind: EntryKind::Unknown("denied".to_string()) },
    ]);
    assert_eq!(ls(&args(&["ls"]), &listing), "Failed to read file type: denied\nd/\nodd\n");
}

#[test]
fn ls_leaves_out_an_entry_whose_name_is_no_text() {
    let listing = Listing::Entries(vec![
        file("b"),
        Entry::Found { name: None, kind: EntryKind::Directory },
        file("a"),
    ]);
    assert_eq!(ls(&args(&["ls"]), &listing), "Failed to convert path to string\na\nb\n");
}

#[test]
fn ls_reports_both_failures_of_one_entry_kind_first() {
    let listing = Listing::Entries(vec![Entry::Found {
        name: None,
        kind: EntryKind::Unknown("denied".to_string()),
    }]);
    assert_eq!(
        ls(&args(&["ls"]), &listing),
        "Failed to read file type: denied\nFailed to convert path to string\n"
    );
}

#[test]
fn ls_prints_failures_in_the_order_of_arrival_before_the_names() {
    let listing = Listing::Entries(vec![
        Entry::Unreadable("second".to_string()),
        file("x"),
        Entry::Unreadable("first".to_string()),
    ]);
    assert_eq!(
        ls(&args(&["ls"]), &listing),
        "Failed to read entry: second\nFailed to read entry: first\nx\n"
    );
}

#[test]
fn ls_keeps_names_that_occur_twice() {
    let listing = Listing::Entries(vec![file("a"), directory("a"), file("a")]);
    assert_eq!(ls(&args(&["ls"]), &listing), "a\na\na/\n");
}
