use zombies_weapon_tool::text::{
    decimal_of, joined, lines_of, parse_number, pieces, to_lower, to_upper, trimmed,
};

#[test]
fn lines_end_with_a_line_feed() {
    assert_eq!(lines_of("a\r\nb\n\nc"), vec!["a", "b", "", "c"]);
    assert_eq!(lines_of("a\n"), vec!["a"]);
    assert_eq!(lines_of("a\r"), vec!["a\r"]);
    assert!(lines_of("").is_empty());
    let text = "x\r\n\r\ny\rz\n\n";
    let std_lines: Vec<&str> = text.lines().collect();
    assert_eq!(lines_of(text), std_lines);
}

#[test]
fn splitting_and_joining_undo_each_other() {
    let text = "a,,b,";
    let parts = pieces(text, ',');
    assert_eq!(parts, vec!["a", "", "b", ""]);
    assert_eq!(joined(&parts, ','), text);
    assert_eq!(pieces(&joined(&parts, '|'), '|'), parts);
}

#[test]
fn white_space_is_trimmed() {
    assert_eq!(trimmed(" \t a b \u{3000}\n"), "a b");
    assert_eq!(trimmed("\u{a0}\u{2003}"), "");
}

#[test]
fn numbers_are_written_and_read() {
    for n in [0, 9, 10, 1844674407370955161, u64::MAX] {
        assert_eq!(decimal_of(n), n.to_string());
        assert_eq!(parse_number(&n.to_string()), Some(n));
    }
    assert_eq!(parse_number("18446744073709551616"), None);
    assert_eq!(parse_number("+7"), Some(7));
    assert_eq!(parse_number("+"), None);
    assert_eq!(parse_number(""), None);
    assert_eq!(parse_number("1x"), None);
}

#[test]
fn case_of_ascii_letters() {
    assert_eq!(to_upper("ctrl+ä1"), "CTRL+ä1");
    assert_eq!(to_lower("ZH-Cn"), "zh-cn");
}
