use pastel_todo::display::{clamp_display, table_row, truncate, FRAME_WIDTH, TABLE_WIDTH};

fn visible_width(text: &str) -> usize {
    let mut inside = false;
    let mut count = 0;
    for c in text.chars() {
        if inside {
            if c == 'm' {
                inside = false;
            }
        } else if c == '\x1b' {
            inside = true;
        } else {
            count += 1;
        }
    }
    count
}

#[test]
fn truncate_keeps_short_text() {
    assert_eq!(truncate("Hi", 5), "Hi");
}

#[test]
fn truncate_cuts_long_text_with_dots() {
    assert_eq!(truncate("HelloWorld", 5), "He...");
}

#[test]
fn truncate_to_narrow_width_is_dots_only() {
    assert_eq!(truncate("abcdef", 2), "..");
    assert_eq!(truncate("abcdef", 3), "...");
    assert_eq!(truncate("abcdef", 0), "");
}

#[test]
fn truncate_keeps_text_of_exact_length() {
    assert_eq!(truncate("abcde", 5), "abcde");
    assert_eq!(truncate("abc", 3), "abc");
    assert_eq!(truncate("", 0), "");
}

#[test]
fn truncate_counts_characters_not_bytes() {
    assert_eq!(truncate("héllo wörld", 8), "héllo...");
    assert_eq!(truncate("日本語のテキスト", 8), "日本語のテキスト");
    assert_eq!(truncate("日本語のテキスト", 7), "日本語の...");
}

#[test]
fn truncate_never_exceeds_the_width() {
    for width in 0..12 {
        let out = truncate("a fairly long task text", width);
        assert!(out.chars().count() <= width);
    }
}

#[test]
fn clamp_display_passes_escapes_through() {
    let (text, visible) = clamp_display("\x1b[1mabcdef\x1b[0m", 3);
    assert_eq!(text, "\x1b[1mabc\x1b[0m");
    assert_eq!(visible, 3);
}

#[test]
fn clamp_display_leaves_short_content_alone() {
    let (text, visible) = clamp_display("\x1b[38;5;219mab\x1b[0mcd", 10);
    assert_eq!(text, "\x1b[38;5;219mab\x1b[0mcd");
    assert_eq!(visible, 4);
}

#[test]
fn clamp_display_of_empty_content() {
    let (text, visible) = clamp_display("", 5);
    assert_eq!(text, "");
    assert_eq!(visible, 0);
}

#[test]
fn clamp_display_to_zero_width_keeps_only_escapes() {
    let (text, visible) = clamp_display("ab\x1b[1mcd\x1b[0mef", 0);
    assert_eq!(text, "\x1b[1m\x1b[0m");
    assert_eq!(visible, 0);
}

#[test]
fn clamp_display_keeps_an_unclosed_escape() {
    let (text, visible) = clamp_display("ab\x1b[1", 1);
    assert_eq!(text, "a\x1b[1");
    assert_eq!(visible, 1);
}

#[test]
fn clamp_display_treats_escape_inside_a_sequence_as_part_of_it() {
    let (text, visible) = clamp_display("\x1b[\x1b1mxy", 1);
    assert_eq!(text, "\x1b[\x1b1mx");
    assert_eq!(visible, 1);
}

#[test]
fn table_row_pads_to_the_interior_width() {
    let row = table_row("abc");
    let expected = format!(
        "\x1b[38;5;225m│\x1b[0mabc{}\x1b[38;5;225m│\x1b[0m",
        " ".repeat(TABLE_WIDTH - 3)
    );
    assert_eq!(row, expected);
    assert_eq!(visible_width(&row), FRAME_WIDTH);
}

#[test]
fn table_row_clips_long_content() {
    let content = "x".repeat(100);
    let row = table_row(&content);
    let expected = format!(
        "\x1b[38;5;225m│\x1b[0m{}\x1b[38;5;225m│\x1b[0m",
        "x".repeat(TABLE_WIDTH)
    );
    assert_eq!(row, expected);
    assert_eq!(visible_width(&row), FRAME_WIDTH);
}

#[test]
fn table_row_does_not_count_escape_sequences() {
    let row = table_row("\x1b[1mbold\x1b[0m");
    assert_eq!(visible_width(&row), FRAME_WIDTH);
    assert!(row.contains("\x1b[1mbold\x1b[0m"));
}

#[test]
fn table_row_of_nothing_is_blank() {
    let row = table_row("");
    assert_eq!(visible_width(&row), FRAME_WIDTH);
    assert_eq!(FRAME_WIDTH, 60);
    assert_eq!(TABLE_WIDTH, 58);
}
