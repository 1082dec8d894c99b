use cmux_diff::diff::{
    displayed_row_count, effective_diff_scroll, parse_diff_hunks, raw_line_index_for_scroll,
    scroll_for_raw_line,
};

#[test]
fn scroll_math_respects_wrapped_lines() {
    let body = "abcdefgh\nx";
    assert_eq!(displayed_row_count(body, 4, true), 3);
    assert_eq!(raw_line_index_for_scroll(body, 1, 4, true), 0);
    assert_eq!(raw_line_index_for_scroll(body, 2, 4, true), 1);
    assert_eq!(scroll_for_raw_line(body, 1, 4, true), 2);
}

#[test]
fn scroll_math_respects_unwrapped_lines() {
    let body = "abcdefgh\nijklmnop\nx";
    assert_eq!(displayed_row_count(body, 4, false), 3);
    assert_eq!(effective_diff_scroll(body, 99, 4, 2, false), 1);
    assert_eq!(scroll_for_raw_line(body, 2, 4, false), 2);
}

#[test]
fn parses_hunk_locations_from_unified_diff() {
    let body = "\
diff --git a/src/main.rs b/src/main.rs
@@ -1,2 +4,7 @@
 context
@@ -9 +20,3 @@ fn thing()
";

    let hunks = parse_diff_hunks(body);
    assert_eq!(hunks.len(), 2);
    assert_eq!(hunks[0].line_index, 1);
    assert_eq!(hunks[0].new_start, 4);
    assert_eq!(hunks[1].new_start, 20);
}

#[test]
fn panes_of_no_width_show_nothing() {
    assert_eq!(displayed_row_count("abc", 0, true), 0);
    assert_eq!(raw_line_index_for_scroll("abc\ndef", 5, 0, true), 0);
    assert_eq!(scroll_for_raw_line("abc\ndef", 1, 0, true), 0);
    assert_eq!(effective_diff_scroll("abc\ndef", 3, 0, 10, true), 0);
    assert_eq!(effective_diff_scroll("abc\ndef", 3, 10, 0, true), 0);
}

#[test]
fn an_empty_diff_still_takes_one_row() {
    assert_eq!(displayed_row_count("", 10, true), 1);
    assert_eq!(displayed_row_count("", 10, false), 1);
    assert_eq!(effective_diff_scroll("", 5, 10, 3, true), 0);
}

#[test]
fn empty_lines_take_one_row_when_wrapped() {
    // "a", "", "bbbbb": 1 + 1 + 2 rows at width 3.
    let body = "a\n\nbbbbb";
    assert_eq!(displayed_row_count(body, 3, true), 4);
    assert_eq!(raw_line_index_for_scroll(body, 3, 3, true), 2);
    assert_eq!(scroll_for_raw_line(body, 2, 3, true), 2);
}

#[test]
fn scrolling_past_the_end_selects_the_last_line() {
    let body = "one\ntwo\nthree";
    assert_eq!(raw_line_index_for_scroll(body, 50, 10, false), 2);
    assert_eq!(raw_line_index_for_scroll("", 0, 10, false), 0);
    assert_eq!(scroll_for_raw_line(body, 9, 10, false), 3);
}

#[test]
fn scroll_to_each_line_comes_back_to_it() {
    let body = "abcdefghij\nk\n\nlmnopqrstuvwxyz\nz";
    for wrap in [true, false] {
        for line in 0..5 {
            let scroll = scroll_for_raw_line(body, line, 4, wrap);
            assert_eq!(raw_line_index_for_scroll(body, scroll, 4, wrap), line);
        }
    }
}

#[test]
fn requested_scroll_within_the_text_is_kept() {
    let body = "1\n2\n3\n4\n5\n6";
    assert_eq!(effective_diff_scroll(body, 2, 10, 3, false), 2);
    assert_eq!(effective_diff_scroll(body, 4, 10, 3, false), 3);
    assert_eq!(effective_diff_scroll(body, 4, 10, 10, false), 0);
}

#[test]
fn crlf_line_endings_are_not_counted() {
    assert_eq!(displayed_row_count("abcd\r\nef", 4, true), 2);
}

#[test]
fn hunk_headers_without_a_new_start_are_skipped() {
    let body = "@@ -1 @@\n@@ -1 +x @@\n@@ -3 +7 @@\n@@ -3 ++8 @@\n@@ -3 +09, @@";
    let hunks = parse_diff_hunks(body);
    assert_eq!(hunks.len(), 3);
    assert_eq!((hunks[0].line_index, hunks[0].new_start), (2, 7));
    assert_eq!((hunks[1].line_index, hunks[1].new_start), (3, 8));
    assert_eq!((hunks[2].line_index, hunks[2].new_start), (4, 9));
}

#[test]
fn very_long_diffs_scroll_as_far_as_a_u16_reaches() {
    let body = "x\n".repeat(70_000);
    assert_eq!(effective_diff_scroll(&body, u16::MAX, 80, 10, false), u16::MAX);
    assert_eq!(effective_diff_scroll(&body, 1_000, 80, 10, false), 1_000);
}
