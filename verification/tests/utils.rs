use tmux_backup::utils::{
    buf_trim_trailing, cleanup_captured_buffer, drop_last_empty_lines, is_not_whitespace,
    is_whitespace, trim, trim_trailing,
};

#[test]
fn trims_trailing_whitespaces() {
    let input = "  text   ".as_bytes();
    let expected = "  text".as_bytes();

    let actual = trim_trailing(input);
    assert_eq!(actual, expected);
}

#[test]
fn trims_whitespaces() {
    let input = "  text   ".as_bytes();
    let expected = "text".as_bytes();

    let actual = trim(input);
    assert_eq!(actual, expected);
}

#[test]
fn test_buf_trim_trailing() {
    let text = "line1\n\nline3   ";
    let actual = buf_trim_trailing(text.as_bytes());
    let expected = vec!["line1".as_bytes(), "".as_bytes(), "line3".as_bytes()];
    assert_eq!(actual, expected);
}

#[test]
fn test_buf_drop_last_empty_lines() {
    let text = "line1\nline2\n\nline3   ";

    let trimmed_lines = buf_trim_trailing(text.as_bytes());
    let actual = drop_last_empty_lines(&trimmed_lines);
    let expected = trimmed_lines;
    assert_eq!(actual, expected);

    //

    let text = "line1\nline2\n\n\n     ";

    let trimmed_lines = buf_trim_trailing(text.as_bytes());
    let actual = drop_last_empty_lines(&trimmed_lines);
    let expected = vec!["line1".as_bytes(), "line2".as_bytes()];
    assert_eq!(actual, expected);
}

#[test]
fn whitespace_is_tab_or_space() {
    assert!(is_whitespace(&b' '));
    assert!(is_whitespace(&b'\t'));
    assert!(!is_whitespace(&b'\n'));
    assert!(is_not_whitespace(&b'a'));
    assert!(!is_not_whitespace(&b' '));
}

#[test]
fn trim_of_blank_text_is_empty() {
    assert_eq!(trim(" \t ".as_bytes()), "".as_bytes());
    assert_eq!(trim_trailing(" \t ".as_bytes()), "".as_bytes());
    assert_eq!(trim("".as_bytes()), "".as_bytes());
    assert_eq!(trim("\ta b\t".as_bytes()), "a b".as_bytes());
}

#[test]
fn all_empty_lines_are_kept() {
    let lines = buf_trim_trailing("\n  \n".as_bytes());
    assert_eq!(lines.len(), 3);
    assert_eq!(drop_last_empty_lines(&lines), lines);
}

#[test]
fn cleanup_joins_lines_and_resets_the_last() {
    let actual = cleanup_captured_buffer("line1  \nline2\t\n\n\n".as_bytes(), 0);
    assert_eq!(actual, "line1\nline2\u{1b}[0m\n".as_bytes());
}

#[test]
fn cleanup_drops_the_last_lines() {
    let actual = cleanup_captured_buffer("a\nb\nprompt $   \n\n".as_bytes(), 1);
    assert_eq!(actual, "a\nb\u{1b}[0m\n".as_bytes());
    let actual = cleanup_captured_buffer("a\nb\nprompt $   \n\n".as_bytes(), 3);
    assert_eq!(actual, "".as_bytes());
    let actual = cleanup_captured_buffer("a\nb\nprompt $   \n\n".as_bytes(), 7);
    assert_eq!(actual, "".as_bytes());
}

#[test]
fn cleanup_of_empty_capture() {
    let actual = cleanup_captured_buffer("".as_bytes(), 0);
    assert_eq!(actual, "\u{1b}[0m\n".as_bytes());
}
