use maenami::text::{content_tokens, has_prefix, split_on, str_eq, tokenize, unescape};

#[test]
fn tokenize_splits_on_ascii_whitespace() {
    let tokens = tokenize("v 1.0\t2.0  3.0");
    assert_eq!(tokens, vec!["v", "1.0", "2.0", "3.0"]);
}

#[test]
fn tokenize_trims_ends() {
    let tokens = tokenize("  usemtl  steel \r\n");
    assert_eq!(tokens, vec!["usemtl", "steel"]);
}

#[test]
fn tokenize_empty_line_has_no_tokens() {
    assert!(tokenize("").is_empty());
    assert!(tokenize(" \t ").is_empty());
}

#[test]
fn content_tokens_skips_blank_lines() {
    assert!(content_tokens("").is_none());
    assert!(content_tokens("   \t").is_none());
}

#[test]
fn content_tokens_skips_comments() {
    assert!(content_tokens("# a comment").is_none());
    assert!(content_tokens("   # indented comment").is_none());
}

#[test]
fn content_tokens_keeps_directives() {
    let tokens = content_tokens("v 0 0 0").unwrap();
    assert_eq!(tokens, vec!["v", "0", "0", "0"]);
}

#[test]
fn hash_inside_line_is_not_a_comment() {
    let tokens = content_tokens("v 1 # trailing").unwrap();
    assert_eq!(tokens, vec!["v", "1", "#", "trailing"]);
}

#[test]
fn split_on_keeps_empty_segments() {
    assert_eq!(split_on("1//3", '/'), vec!["1", "", "3"]);
    assert_eq!(split_on("", '/'), vec![""]);
    assert_eq!(split_on("/", '/'), vec!["", ""]);
    assert_eq!(split_on("a/b", '/'), vec!["a", "b"]);
}

#[test]
fn split_on_newline_gives_lines() {
    assert_eq!(split_on("a\nb\n", '\n'), vec!["a", "b", ""]);
}

#[test]
fn unescape_collapses_doubled_backslashes() {
    assert_eq!(unescape("tex\\\\maps\\\\a.png"), "tex\\maps\\a.png");
    assert_eq!(unescape("plain.png"), "plain.png");
    assert_eq!(unescape("\\\\\\"), "\\\\");
    assert_eq!(unescape(""), "");
}

#[test]
fn str_eq_compares_contents() {
    assert!(str_eq("abc", "abc"));
    assert!(!str_eq("abc", "abd"));
    assert!(!str_eq("abc", "ab"));
    assert!(str_eq("", ""));
}

#[test]
fn has_prefix_checks_starts() {
    assert!(has_prefix("map_Kd", "map_"));
    assert!(!has_prefix("map", "map_"));
    assert!(!has_prefix("bump_Kd", "map_"));
}
