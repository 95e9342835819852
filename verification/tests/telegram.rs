use arcana::agent::telegram::{split_message, splits_cleanly_exec, truncate_log};

#[test]
fn short_message_is_sent_whole() {
    assert_eq!(split_message("hello", 10), vec!["hello"]);
    assert_eq!(split_message("", 10), vec![""]);
}

#[test]
fn long_message_is_cut_at_the_last_line_break() {
    let text = "line one\nline two\nline three";
    assert_eq!(split_message(text, 20), vec!["line one\nline two", "line three"]);
}

#[test]
fn message_without_line_breaks_is_cut_at_the_limit() {
    assert_eq!(split_message("abcdefghij", 4), vec!["abcd", "efgh", "ij"]);
}

#[test]
fn line_breaks_opening_the_rest_are_dropped() {
    assert_eq!(split_message("abc\n\n\ndef", 4), vec!["abc", "def"]);
}

#[test]
fn line_break_at_the_start_gives_an_empty_chunk() {
    assert_eq!(split_message("\nabcdef", 3), vec!["", "abc", "def"]);
}

#[test]
fn every_chunk_fits_the_limit() {
    let text = "a".repeat(9000) + "\n" + &"b".repeat(100);
    let chunks = split_message(&text, 4000);
    assert!(chunks.iter().all(|c| c.len() <= 4000));
    assert_eq!(chunks.len(), 3);
}

#[test]
fn multibyte_text_is_cut_only_between_characters() {
    assert!(splits_cleanly_exec("你好世界", 6));
    assert_eq!(split_message("你好世界", 6), vec!["你好", "世界"]);
    assert!(!splits_cleanly_exec("你好世界", 4));
}

#[test]
fn log_lines_are_shortened_with_an_ellipsis() {
    assert_eq!(truncate_log("short", 80), "short");
    assert_eq!(truncate_log("abcdefgh", 3), "abc...");
}
