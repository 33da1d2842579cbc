use audit_check::split::{blocks_of, join_from, lines_of};
use audit_check::text::{chars_of, string_of};

fn blocks(text: &str) -> Vec<String> {
    blocks_of(&chars_of(text)).iter().map(string_of).collect()
}

fn lines(text: &str) -> Vec<String> {
    lines_of(&chars_of(text)).iter().map(string_of).collect()
}

#[test]
fn blocks_are_cut_at_blank_lines() {
    assert_eq!(blocks("a\nb\n\nc\n\nd"), vec!["a\nb", "c", "d"]);
    assert_eq!(blocks("a"), vec!["a"]);
    assert_eq!(blocks(""), vec![""]);
    assert_eq!(blocks("a\n"), vec!["a\n"]);
    assert_eq!(blocks("a\n\n"), vec!["a", ""]);
    assert_eq!(blocks("\n\na"), vec!["", "a"]);
}

#[test]
fn blocks_are_cut_from_the_left_without_overlap() {
    assert_eq!(blocks("a\n\n\nb"), vec!["a", "\nb"]);
    assert_eq!(blocks("a\n\n\n\nb"), vec!["a", "", "b"]);
    assert_eq!(blocks("\n\n\n"), vec!["", "\n"]);
}

#[test]
fn blocks_are_cut_as_std_splits() {
    for text in ["", "\n", "\n\n", "\n\n\n", "a\n\nb", "a\n\n\n\n\nb\n", "x\r\n\r\ny", "a\n\nb\n\n"] {
        let expected: Vec<String> = text.split("\n\n").map(str::to_string).collect();
        assert_eq!(blocks(text), expected);
    }
}

#[test]
fn lines_are_cut_at_line_endings() {
    assert_eq!(lines("a\nb\nc"), vec!["a", "b", "c"]);
    assert_eq!(lines("a\nb\n"), vec!["a", "b"]);
    assert_eq!(lines("a\r\nb\r\n"), vec!["a", "b"]);
    assert_eq!(lines("a\n\nb"), vec!["a", "", "b"]);
    assert_eq!(lines(""), Vec::<String>::new());
    assert_eq!(lines("\n"), vec![""]);
    assert_eq!(lines("a\rb\n"), vec!["a\rb"]);
    assert_eq!(lines("a\r"), vec!["a\r"]);
    assert_eq!(lines("a\r\r\n"), vec!["a\r"]);
}

#[test]
fn lines_are_cut_as_std_cuts_them() {
    for text in ["", "\n", "a", "a\n", "a\r\n", "a\r", "\r\n\r\n", "a\nb\r\nc\r", "\u{e9}\n\u{203c}"] {
        let expected: Vec<String> = text.lines().map(str::to_string).collect();
        assert_eq!(lines(text), expected);
    }
}

#[test]
fn join_from_leaves_the_first_parts_out() {
    let parts = vec![chars_of("a"), chars_of("b"), chars_of(""), chars_of("d")];
    let sep = chars_of(", ");
    assert_eq!(string_of(&join_from(&parts, 0, &sep)), "a, b, , d");
    assert_eq!(string_of(&join_from(&parts, 1, &sep)), "b, , d");
    assert_eq!(string_of(&join_from(&parts, 3, &sep)), "d");
    assert_eq!(string_of(&join_from(&parts, 4, &sep)), "");
    assert_eq!(string_of(&join_from(&parts, 9, &sep)), "");
    assert_eq!(string_of(&join_from(&Vec::new(), 0, &sep)), "");
}
