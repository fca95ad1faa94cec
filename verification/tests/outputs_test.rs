use granite::outputs::{
    command_report, describe_path, describe_write, join_names, listing, name_le, risk_label,
    sort_names, write_report,
};
use granite::tools::ToolRisk;

fn names(v: &[&str]) -> Vec<String> {
    v.iter().map(|s| s.to_string()).collect()
}

#[test]
fn lists_dir_entries_sorted() {
    assert_eq!(listing(names(&["b.txt", "a.txt", "sub"])), "a.txt\nb.txt\nsub");
}

#[test]
fn list_dir_on_empty_dir_returns_empty_content() {
    assert_eq!(listing(Vec::new()), "");
}

#[test]
fn sort_orders_by_characters_and_keeps_duplicates() {
    let sorted = sort_names(names(&["b", "B", "a", "ab", "a", ""]));
    assert_eq!(sorted, names(&["", "B", "a", "a", "ab", "b"]));
}

#[test]
fn sort_agrees_with_string_order() {
    let input = names(&["zeta", "Alpha", "alpha", "é", "e", "alp", "10", "9"]);
    let mut expected = input.clone();
    expected.sort();
    assert_eq!(sort_names(input), expected);
}

#[test]
fn name_order_is_dictionary_order() {
    assert!(name_le("a", "b"));
    assert!(name_le("a", "ab"));
    assert!(name_le("", "a"));
    assert!(name_le("x", "x"));
    assert!(!name_le("b", "a"));
    assert!(!name_le("ab", "a"));
}

#[test]
fn join_puts_one_name_per_line() {
    assert_eq!(join_names(&names(&["x"])), "x");
    assert_eq!(join_names(&names(&["x", "y", "z"])), "x\ny\nz");
}

#[test]
fn writes_empty_content() {
    assert!(write_report(0, "empty.txt").contains("wrote 0 bytes"));
    assert_eq!(write_report(11, "out.txt"), "wrote 11 bytes to out.txt");
}

#[test]
fn write_description_fences_the_content() {
    assert_eq!(
        describe_write(Some("a.txt"), Some("hi")),
        "write 2 bytes to a.txt:\n```\nhi\n```"
    );
    assert_eq!(describe_write(None, None), "write 0 bytes to <invalid args>:\n```\n\n```");
    assert_eq!(describe_write(Some("é.txt"), Some("é")), "write 2 bytes to é.txt:\n```\né\n```");
}

#[test]
fn path_description() {
    assert_eq!(describe_path(Some("src/main.rs")), "src/main.rs");
    assert_eq!(describe_path(None), "<invalid args>");
}

#[test]
fn command_report_lists_code_and_streams() {
    assert_eq!(
        command_report(Some(0), b"hello\n", b""),
        "exit code: 0\nstdout:\nhello\n\nstderr:\n"
    );
    assert_eq!(
        command_report(Some(3), b"", b"oops\n"),
        "exit code: 3\nstdout:\n\nstderr:\noops\n"
    );
    assert_eq!(command_report(None, b"", b""), "exit code: -1\nstdout:\n\nstderr:\n");
}

#[test]
fn command_report_replaces_invalid_utf8() {
    assert_eq!(command_report(Some(1), b"a\xffb", b""), "exit code: 1\nstdout:\na\u{fffd}b\nstderr:\n");
}

#[test]
fn risk_labels() {
    assert_eq!(risk_label(ToolRisk::Safe), "safe");
    assert_eq!(risk_label(ToolRisk::Mutating), "mutating");
    assert_eq!(risk_label(ToolRisk::Dangerous), "dangerous");
}
