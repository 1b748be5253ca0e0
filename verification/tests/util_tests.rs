use dne::util::{try_underline, underline};

#[test]
fn should_underline_first_line() {
    let input = "one two three four\nfive six seven";
    let output = underline(input, 8, 12);
    assert_eq!(output, "error at 1\n\none two three four\n        -----");
}

#[test]
fn should_underline_last_line() {
    let input = "one two three four\nfive six seven\neight nine ten";
    let output = underline(input, 40, 43);
    assert_eq!(output, "error at 3\nfive six seven\neight nine ten\n      ----");
}

#[test]
fn should_underline_middle_line() {
    let input = "one two three four\nfive six seven\neight nine ten";
    let output = underline(input, 24, 26);
    assert_eq!(output, "error at 2\none two three four\nfive six seven\n     ---");
}

#[test]
fn should_mark_single_offset_with_caret() {
    let input = "one two";
    let output = underline(input, 4, 4);
    assert_eq!(output, "error at 1\n\none two\n    ^");
}

#[test]
fn should_find_no_line_past_the_end() {
    assert_eq!(try_underline("one\ntwo", 9, 9), None);
    assert_eq!(try_underline("one\ntwo", 8, 8), None);
    assert_eq!(try_underline("one\ntwo\n", 8, 8), None);
    assert_eq!(try_underline("", 0, 0), None);
}

#[test]
fn should_show_a_line_without_its_carriage_return_and_count_it() {
    assert_eq!(underline("one\r\ntwo\r\n", 5, 6), "error at 2\none\ntwo\n--");
    assert_eq!(underline("one\r\ntwo\r\n", 6, 7), "error at 2\none\ntwo\n --");
    assert_eq!(underline("one\r\ntwo\r\n", 3, 3), "error at 1\n\none\n   ^");
    assert_eq!(underline("one\r\ntwo\r\n", 4, 4), "error at 1\n\none\n    ^");
    assert_eq!(underline("one\rtwo", 4, 5), "error at 1\n\none\rtwo\n    --");
}

#[test]
fn should_count_a_line_by_its_bytes() {
    assert_eq!(underline("\u{e9}\u{e9}\nab", 6, 6), "error at 2\n\u{e9}\u{e9}\nab\n ^");
    assert_eq!(underline("\u{e9}\u{e9}\nab", 5, 6), "error at 2\n\u{e9}\u{e9}\nab\n--");
    assert_eq!(underline("\u{e9}\u{e9}\nab", 4, 5), "error at 1\n\n\u{e9}\u{e9}\n    --");
}

#[test]
fn should_take_the_line_that_the_offset_lies_in() {
    assert_eq!(underline("ab\ncd", 3, 4), "error at 2\nab\ncd\n--");
    assert_eq!(underline("ab\ncd", 3, 3), "error at 2\nab\ncd\n^");
    assert_eq!(underline("ab\ncd", 2, 2), "error at 1\n\nab\n  ^");
    assert_eq!(underline("ab\ncd", 4, 4), "error at 2\nab\ncd\n ^");
    assert_eq!(underline("ab\ncd", 5, 5), "error at 2\nab\ncd\n  ^");
    assert_eq!(underline("ab\n\ncd", 3, 3), "error at 2\nab\n\n^");
    assert_eq!(underline("ab\n\ncd", 4, 5), "error at 3\n\ncd\n--");
}

#[test]
fn should_write_no_dash_for_a_span_that_ends_before_it_starts() {
    assert_eq!(underline("ab\ncd", 4, 3), "error at 2\nab\ncd\n ");
}
