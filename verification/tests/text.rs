use what_the_alias::text::{
    chars_of, contains, same_text, strip_home_dir_tilde, strip_quotes, strip_semicolon,
};

#[test]
fn chars_of_keeps_every_character_in_order() {
    assert_eq!(chars_of("abc"), vec!['a', 'b', 'c']);
    assert_eq!(chars_of(""), Vec::<char>::new());
    assert_eq!(chars_of("héllo"), vec!['h', 'é', 'l', 'l', 'o']);
}

#[test]
fn same_text_compares_contents() {
    assert!(same_text("zsh", "zsh"));
    assert!(same_text("", ""));
    assert!(!same_text("zsh", "zs"));
    assert!(!same_text("zsh", "zsH"));
    assert!(!same_text("", "a"));
}

#[test]
fn contains_finds_substrings() {
    assert!(contains("source ~/.x", "source"));
    assert!(contains("  if source", "source"));
    assert!(contains("resource", "source"));
    assert!(contains("abc", "bc"));
    assert!(contains("abc", "abc"));
    assert!(!contains("abc", "abcd"));
    assert!(!contains("sourc e", "source"));
    assert!(!contains("", "alias"));
    assert!(contains("héllo wörld", "wör"));
}

#[test]
fn contains_holds_the_empty_string_everywhere() {
    assert!(contains("abc", ""));
    assert!(contains("", ""));
}

#[test]
fn strip_quotes_removes_both_kinds_of_quote() {
    assert_eq!(strip_quotes("gs='git status'"), "gs=git status");
    assert_eq!(strip_quotes("\"~/.x\""), "~/.x");
    assert_eq!(strip_quotes("a\"b'c"), "abc");
    assert_eq!(strip_quotes("'\"'\""), "");
    assert_eq!(strip_quotes("plain"), "plain");
    assert_eq!(strip_quotes(""), "");
    assert_eq!(strip_quotes("`x`"), "`x`");
}

#[test]
fn strip_semicolon_removes_one_trailing_semicolon() {
    assert_eq!(strip_semicolon("ls -la;".to_string()), "ls -la");
    assert_eq!(strip_semicolon("ls -la".to_string()), "ls -la");
    assert_eq!(strip_semicolon("a;b".to_string()), "a;b");
    assert_eq!(strip_semicolon(";".to_string()), "");
    assert_eq!(strip_semicolon("".to_string()), "");
}

#[test]
fn strip_semicolon_leaves_all_but_the_last_of_several() {
    assert_eq!(strip_semicolon("ls;;".to_string()), "ls;");
    assert_eq!(strip_semicolon(";;;".to_string()), ";;");
}

#[test]
fn strip_home_dir_tilde_removes_a_leading_marker() {
    assert_eq!(strip_home_dir_tilde("~/.zshrc"), ".zshrc");
    assert_eq!(strip_home_dir_tilde("~/"), "");
    assert_eq!(strip_home_dir_tilde("~/~/x"), "~/x");
}

#[test]
fn strip_home_dir_tilde_leaves_other_paths() {
    assert_eq!(strip_home_dir_tilde(".zshrc"), ".zshrc");
    assert_eq!(strip_home_dir_tilde("~"), "~");
    assert_eq!(strip_home_dir_tilde("~x/y"), "~x/y");
    assert_eq!(strip_home_dir_tilde("/etc/~/x"), "/etc/~/x");
    assert_eq!(strip_home_dir_tilde(""), "");
}
