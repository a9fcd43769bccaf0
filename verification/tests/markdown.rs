use hayabusa_report::options::markdown::join_lines;

fn lines(parts: &[&str]) -> Vec<String> {
    parts.iter().map(|part| part.to_string()).collect()
}

#[test]
fn join_of_nothing_is_empty() {
    assert_eq!(join_lines(&lines(&[]), "\n"), "");
    assert_eq!(join_lines(&lines(&[]), ""), "");
}

#[test]
fn join_of_one_part_is_the_part() {
    assert_eq!(join_lines(&lines(&["only"]), "\n"), "only");
    assert_eq!(join_lines(&lines(&[""]), "\n"), "");
}

#[test]
fn join_puts_the_separator_between_neighbours() {
    assert_eq!(join_lines(&lines(&["a", "b", "c"]), "\n"), "a\nb\nc");
    assert_eq!(join_lines(&lines(&["a", "b", "c"]), ", "), "a, b, c");
    assert_eq!(join_lines(&lines(&["a", "b", "c"]), ""), "abc");
}

#[test]
fn join_keeps_empty_parts() {
    assert_eq!(join_lines(&lines(&["", "", ""]), "\n"), "\n\n");
    assert_eq!(join_lines(&lines(&["a", "", "b", ""]), "\n"), "a\n\nb\n");
    assert_eq!(join_lines(&lines(&["", "a"]), "-"), "-a");
}

#[test]
fn join_agrees_with_the_standard_library() {
    let parts = lines(&["- Analyzed event files: 581", "", "x\ny", "日本語", "\n"]);
    for separator in ["\n", "", "</li>\n<li>", "→"] {
        assert_eq!(join_lines(&parts, separator), parts.join(separator));
    }
}
