use vm::text::{
    contains_text, decimal_string, same_text, trim_end_matches, trim_start_matches,
};

#[test]
fn decimal_of_small_and_large_numbers() {
    assert_eq!(decimal_string(0), "0");
    assert_eq!(decimal_string(7), "7");
    assert_eq!(decimal_string(10), "10");
    assert_eq!(decimal_string(42), "42");
    assert_eq!(decimal_string(1234567890), "1234567890");
    assert_eq!(decimal_string(usize::MAX), format!("{}", usize::MAX));
}

#[test]
fn trim_end_removes_every_trailing_char() {
    assert_eq!(trim_end_matches("480GB", 'B'), "480G");
    assert_eq!(trim_end_matches("1TBB", 'B'), "1T");
    assert_eq!(trim_end_matches("BBB", 'B'), "");
    assert_eq!(trim_end_matches("", 'B'), "");
    assert_eq!(trim_end_matches("100", 'B'), "100");
    assert_eq!(trim_end_matches("B1", 'B'), "B1");
}

#[test]
fn trim_end_is_idempotent() {
    let once = trim_end_matches("2TBBB", 'B');
    assert_eq!(trim_end_matches(&once, 'B'), once);
}

#[test]
fn trim_start_removes_every_leading_copy() {
    assert_eq!(trim_start_matches("pty:/dev/pts/3", "pty:"), "/dev/pts/3");
    assert_eq!(trim_start_matches("pty:pty:x", "pty:"), "x");
    assert_eq!(trim_start_matches("file:/dev/stdout", "pty:"), "file:/dev/stdout");
    assert_eq!(trim_start_matches("pty", "pty:"), "pty");
    assert_eq!(trim_start_matches("pty:", "pty:"), "");
    assert_eq!(trim_start_matches("abc", ""), "abc");
    assert_eq!(trim_start_matches("x pty:", "pty:"), "x pty:");
}

#[test]
fn same_text_compares_characters() {
    assert!(same_text("tmux", "tmux"));
    assert!(!same_text("tmux", "tmu"));
    assert!(!same_text("tmux", "Tmux"));
    assert!(same_text("", ""));
}

#[test]
fn contains_text_finds_items() {
    let items = vec!["ttyS0".to_string(), "ttyS1".to_string()];
    assert!(contains_text(&items, "ttyS1"));
    assert!(!contains_text(&items, "ttyS2"));
    assert!(!contains_text(&Vec::new(), "ttyS0"));
}
