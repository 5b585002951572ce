use leonard::text::{
    char_to_byte_index, count_lines, navigator_signaled_done, split_lines, strip_ansi,
    summarize_command_output, trim_text, truncate, truncate_line,
};

#[test]
fn test_truncate_short_text() {
    let text = "Hello, world!";
    let result = truncate(text, 100);
    assert_eq!(result, "Hello, world!");
}

#[test]
fn test_truncate_exact_length() {
    let text = "Hello";
    let result = truncate(text, 5);
    assert_eq!(result, "Hello");
}

#[test]
fn test_truncate_long_text() {
    let text = "Hello, world! This is a longer message that needs truncation.";
    let result = truncate(text, 20);

    assert!(result.starts_with("[...truncated...]"));
    assert!(result.len() <= "[...truncated...]\n".len() + 20);
    assert!(result.contains("truncation."));
}

#[test]
fn test_truncate_utf8_boundary() {
    let text = "Hello \u{1F44B} \u{4E16}\u{754C}";
    let result = truncate(text, 10);

    assert!(!result.is_empty());
    assert!(std::str::from_utf8(result.as_bytes()).is_ok());
}

#[test]
fn test_truncate_zero_max() {
    let text = "Hello, world!";
    let result = truncate(text, 0);

    assert!(result.starts_with("[...truncated...]"));
}

#[test]
fn truncate_keeps_exact_suffix() {
    assert_eq!(truncate("abcdef", 3), "[...truncated...]\ndef");
    assert_eq!(truncate("abcdef", 6), "abcdef");
    assert_eq!(truncate("abcdef", 0), "[...truncated...]\n");
}

#[test]
fn truncate_rounds_up_to_character_boundary() {
    // "é" takes two bytes: a cap of 3 bytes over "aéé" (5 bytes) keeps one "é" only.
    assert_eq!(truncate("a\u{e9}\u{e9}", 3), "[...truncated...]\n\u{e9}");
    assert_eq!(truncate("a\u{e9}\u{e9}", 4), "[...truncated...]\n\u{e9}\u{e9}");
    // a four-byte character that does not fit is dropped whole
    assert_eq!(truncate("x\u{1F44B}", 3), "[...truncated...]\n");
}

#[test]
fn truncate_output_stays_within_cap_plus_marker() {
    let text = "\u{4E16}\u{754C}".repeat(50);
    for cap in 0..40 {
        let r = truncate(&text, cap);
        assert!(r.len() <= cap + "[...truncated...]\n".len());
        let kept = &r["[...truncated...]\n".len()..];
        assert!(text.ends_with(kept));
        assert!(kept.len() <= cap && kept.len() + 3 > cap);
    }
}

#[test]
fn test_truncate_line_short() {
    let text = "Short";
    let result = truncate_line(text, 10);
    assert_eq!(result, "Short");
}

#[test]
fn test_truncate_line_exact() {
    let text = "Exactly10!";
    let result = truncate_line(text, 10);
    assert_eq!(result, "Exactly10!");
}

#[test]
fn test_truncate_line_long() {
    let text = "This is a very long line that should be truncated";
    let result = truncate_line(text, 20);
    assert_eq!(result, "This is a very long ...");
    assert_eq!(result.chars().count(), 23);
}

#[test]
fn test_truncate_line_with_emoji() {
    let text = "Hello \u{1F44B}\u{1F44B}\u{1F44B}\u{1F44B}\u{1F44B}\u{1F44B}\u{1F44B}";
    let result = truncate_line(text, 10);

    assert!(result.chars().count() <= 13);
    assert!(result.ends_with("..."));
}

#[test]
fn test_strip_ansi_no_codes() {
    let input = "Plain text";
    let result = strip_ansi(input);
    assert_eq!(result, "Plain text");
}

#[test]
fn test_strip_ansi_with_color_codes() {
    let input = "\x1b[31mRed text\x1b[0m";
    let result = strip_ansi(input);
    assert_eq!(result, "Red text");
}

#[test]
fn test_strip_ansi_multiple_codes() {
    let input = "\x1b[1m\x1b[32mBold green\x1b[0m normal \x1b[33myellow\x1b[0m";
    let result = strip_ansi(input);
    assert_eq!(result, "Bold green normal yellow");
}

#[test]
fn test_strip_ansi_empty() {
    let input = "";
    let result = strip_ansi(input);
    assert_eq!(result, "");
}

#[test]
fn test_navigator_signaled_done_exact() {
    assert!(navigator_signaled_done("ALL_DONE"));
}

#[test]
fn test_navigator_signaled_done_lowercase() {
    assert!(navigator_signaled_done("all_done"));
}

#[test]
fn test_navigator_signaled_done_mixed_case() {
    assert!(navigator_signaled_done("All_Done"));
    assert!(navigator_signaled_done("aLL_dONE"));
}

#[test]
fn test_navigator_signaled_done_with_whitespace() {
    assert!(navigator_signaled_done("  ALL_DONE  "));
    assert!(navigator_signaled_done("\nALL_DONE\n"));
    assert!(navigator_signaled_done("\t\tALL_DONE\t\t"));
}

#[test]
fn test_navigator_signaled_done_false() {
    assert!(!navigator_signaled_done("Not done yet"));
    assert!(!navigator_signaled_done("ALMOST_DONE"));
    assert!(!navigator_signaled_done("ALL_DONE but more text"));
    assert!(!navigator_signaled_done(""));
}

#[test]
fn completion_token_inside_other_text_does_not_complete() {
    assert!(!navigator_signaled_done("ALL_DONE but more"));
    assert!(!navigator_signaled_done("I think we are ALL_DONE"));
    assert!(navigator_signaled_done("\u{a0} all_done \r\n"));
}

#[test]
fn test_summarize_command_output_none() {
    let result = summarize_command_output(&None);
    assert_eq!(result, "");
}

#[test]
fn test_summarize_command_output_empty() {
    let result = summarize_command_output(&Some(String::new()));
    assert_eq!(result, "");
}

#[test]
fn test_summarize_command_output_short() {
    let output = Some("Command output".to_string());
    let result = summarize_command_output(&output);
    assert_eq!(result, "Command output");
}

#[test]
fn test_summarize_command_output_multiline_short() {
    let output = Some("Line 1\nLine 2\nLine 3".to_string());
    let result = summarize_command_output(&output);
    assert!(result.contains("Line"));
}

#[test]
fn test_summarize_command_output_multiline_long() {
    let output = Some("Line 1\nLine 2\nLine 3\nLine 4\nLine 5".to_string());
    let result = summarize_command_output(&output);
    assert_eq!(result, "5 lines");
}

#[test]
fn test_summarize_command_output_long_single_line() {
    let long_output = Some("x".repeat(150));
    let result = summarize_command_output(&long_output);

    assert!(result.len() <= 103);
    assert!(result.ends_with("..."));
}

#[test]
fn summaries_count_lines_like_std() {
    for s in ["", "a", "a\n", "a\nb", "\n", "a\n\n", "a\r\nb\r\n", "x\ny\nz\nw\n"] {
        assert_eq!(count_lines(s), s.lines().count(), "{:?}", s);
        let ours = split_lines(s);
        let std_lines: Vec<String> = s.lines().map(|l| l.to_string()).collect();
        assert_eq!(ours, std_lines, "{:?}", s);
    }
    assert_eq!(summarize_command_output(&Some("1\n2\n3\n4\n5\n6\n7\n8\n9\n10\n11\n12".to_string())), "12 lines");
}

#[test]
fn trim_matches_std() {
    for s in ["", "  ", " a ", "\u{3000}b\u{2028}", "\ta b\n", "x"] {
        assert_eq!(trim_text(s), s.trim());
    }
}

#[test]
fn char_to_byte_index_counts_utf8_widths() {
    let s = "a\u{e9}\u{4E16}\u{1F44B}z";
    assert_eq!(char_to_byte_index(s, 0), 0);
    assert_eq!(char_to_byte_index(s, 1), 1);
    assert_eq!(char_to_byte_index(s, 2), 3);
    assert_eq!(char_to_byte_index(s, 3), 6);
    assert_eq!(char_to_byte_index(s, 4), 10);
    assert_eq!(char_to_byte_index(s, 5), 11);
    assert_eq!(char_to_byte_index(s, 99), 11);
}
