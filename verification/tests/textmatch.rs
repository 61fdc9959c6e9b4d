use plotstream::text::{char_is_space, contains_text, is_comment_line, starts_with, str_eq};

#[test]
fn equality_is_exact() {
    assert!(str_eq("ok", "ok"));
    assert!(!str_eq("ok", "ok "));
    assert!(!str_eq("ok", "0k"));
    assert!(str_eq("", ""));
    assert!(str_eq("naïve", "naïve"));
}

#[test]
fn prefix_matching() {
    assert!(starts_with("Error: Printer halted", "Error:"));
    assert!(starts_with("Error:", "Error:"));
    assert!(!starts_with("Error", "Error:"));
    assert!(!starts_with(" Error: x", "Error:"));
    assert!(starts_with("anything", ""));
}

#[test]
fn containment_matching() {
    assert!(contains_text("Error: Printer halted. kill()", "Printer halted"));
    assert!(contains_text("Printer halted", "Printer halted"));
    assert!(!contains_text("Printer halte", "Printer halted"));
    assert!(!contains_text("", "Printer halted"));
    assert!(contains_text("abc", ""));
    assert!(contains_text("aab", "ab"));
}

#[test]
fn comment_detection() {
    assert!(is_comment_line("; a comment"));
    assert!(is_comment_line("   ;indented"));
    assert!(is_comment_line("\t;tab"));
    assert!(is_comment_line("\u{a0};unicode space"));
    assert!(!is_comment_line(""));
    assert!(!is_comment_line("   "));
    assert!(!is_comment_line("G1 X0 ; trailing comment"));
}

#[test]
fn whitespace_set() {
    assert!(char_is_space(' '));
    assert!(char_is_space('\t'));
    assert!(char_is_space('\u{3000}'));
    assert!(!char_is_space(';'));
    assert!(!char_is_space('G'));
}
