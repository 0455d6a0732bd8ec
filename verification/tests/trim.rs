use dogwalk::text::trim_lines_to_length;
use dogwalk::text::trim_lines_to_length_from_end;

#[test]
fn long_line_trimmed_from_end_keeps_first_width_chars() {
    let line: String = "x".repeat(20);
    let r = trim_lines_to_length(line, 12);
    assert_eq!(r, "x".repeat(12));
    assert_eq!(r.chars().count(), 12);
}

#[test]
fn long_line_trimmed_from_start_keeps_last_width_chars() {
    let line: String = "x".repeat(20);
    let r = trim_lines_to_length_from_end(line, 12);
    assert_eq!(r, "x".repeat(12));
    assert_eq!(r.chars().count(), 12);
}

#[test]
fn trimming_distinct_chars_keeps_the_right_ends() {
    let r = trim_lines_to_length(String::from("abcdefghij"), 4);
    assert_eq!(r, "abcd");
    let r = trim_lines_to_length_from_end(String::from("abcdefghij"), 4);
    assert_eq!(r, "ghij");
}

#[test]
fn short_line_is_untouched() {
    assert_eq!(trim_lines_to_length(String::from("abc"), 10), "abc");
    assert_eq!(trim_lines_to_length_from_end(String::from("abc"), 10), "abc");
}

#[test]
fn line_exactly_at_width_is_untouched() {
    assert_eq!(trim_lines_to_length(String::from("abcd"), 4), "abcd");
    assert_eq!(trim_lines_to_length_from_end(String::from("abcd"), 4), "abcd");
}

#[test]
fn empty_input_stays_empty() {
    assert_eq!(trim_lines_to_length(String::new(), 5), "");
    assert_eq!(trim_lines_to_length_from_end(String::new(), 5), "");
}

#[test]
fn width_zero_empties_every_long_line() {
    assert_eq!(trim_lines_to_length(String::from("abc"), 0), "");
    assert_eq!(trim_lines_to_length_from_end(String::from("abc"), 0), "");
}

#[test]
fn multi_line_input_keeps_line_count_and_order() {
    let r = trim_lines_to_length(String::from("aaaa\nbb\ncccccc"), 3);
    assert_eq!(r, "aaa\nbb\nccc");
    assert_eq!(r.lines().count(), 3);
    let r = trim_lines_to_length_from_end(String::from("abcd\nbb\nwxyz"), 3);
    assert_eq!(r, "bcd\nbb\nxyz");
    assert_eq!(r.lines().count(), 3);
}

#[test]
fn trailing_newline_closes_the_last_line() {
    assert_eq!(trim_lines_to_length(String::from("abcd\nef\n"), 2), "ab\nef");
}

#[test]
fn mixed_lengths_trim_only_the_long_lines() {
    let r = trim_lines_to_length(String::from("a\nabcdefgh\nab"), 5);
    assert_eq!(r, "a\nabcde\nab");
    let r = trim_lines_to_length_from_end(String::from("a\nabcdefgh\nab"), 5);
    assert_eq!(r, "a\ndefgh\nab");
}
