use std::path::Path;
use what_the_alias::resolve::{
    expand_home_dir, join, resolve_all, resolve_from, resolve_with, ScanError,
};

#[test]
fn join_puts_a_separator_between() {
    assert_eq!(join("/home/u", ".zshrc"), "/home/u/.zshrc");
    assert_eq!(join("/home/u", "a/b"), "/home/u/a/b");
}

#[test]
fn join_adds_no_second_separator() {
    assert_eq!(join("/home/u/", ".zshrc"), "/home/u/.zshrc");
    assert_eq!(join("/", "etc"), "/etc");
}

#[test]
fn join_lets_a_rooted_path_stand() {
    assert_eq!(join("/home/u", "/etc/profile"), "/etc/profile");
    assert_eq!(join("", "/etc/profile"), "/etc/profile");
}

#[test]
fn join_with_an_empty_part() {
    assert_eq!(join("", "x"), "x");
    assert_eq!(join("/home/u", ""), "/home/u/");
    assert_eq!(join("", ""), "");
}

#[test]
fn join_agrees_with_std_paths() {
    let bases = ["/home/u", "/home/u/", "/", "", "rel", "rel/"];
    let rels = [".zshrc", "a/b", "/etc/profile", "", "~/x", "./x", "../x"];
    for base in bases {
        for rel in rels {
            let expected = Path::new(base).join(rel);
            assert_eq!(join(base, rel), expected.to_str().unwrap());
        }
    }
}

#[test]
fn resolve_from_drops_the_home_marker() {
    assert_eq!(resolve_from("/home/u", "~/.zshrc"), "/home/u/.zshrc");
    assert_eq!(resolve_from("/home/u", "~/.config/aliases"), "/home/u/.config/aliases");
}

#[test]
fn resolve_from_joins_unmarked_paths_onto_home() {
    assert_eq!(resolve_from("/home/u", ".bash_aliases"), "/home/u/.bash_aliases");
    assert_eq!(resolve_from("/home/u", "$HOME/.x"), "/home/u/$HOME/.x");
    assert_eq!(resolve_from("/home/u", "~"), "/home/u/~");
}

#[test]
fn resolve_from_keeps_rooted_paths() {
    assert_eq!(resolve_from("/home/u", "/etc/bashrc"), "/etc/bashrc");
}

#[test]
fn resolve_from_drops_one_marker_only() {
    assert_eq!(resolve_from("/home/u", "~/~/x"), "/home/u/~/x");
}

#[test]
fn resolve_all_keeps_the_order() {
    let paths = vec!["~/.a".to_string(), "/etc/b".to_string(), "c".to_string()];
    assert_eq!(resolve_all("/h", &paths), vec!["/h/.a", "/etc/b", "/h/c"]);
    assert_eq!(resolve_all("/h", &Vec::new()), Vec::<String>::new());
}

#[test]
fn resolve_with_a_home_directory() {
    let home = Some("/home/u".to_string());
    assert_eq!(resolve_with(&home, "~/.zshrc"), Ok("/home/u/.zshrc".to_string()));
}

#[test]
fn resolve_without_a_home_directory_fails() {
    assert_eq!(resolve_with(&None, "~/.zshrc"), Err(ScanError::HomeDirectoryUnavailable));
    assert_eq!(resolve_with(&None, "/etc/profile"), Err(ScanError::HomeDirectoryUnavailable));
}

#[test]
fn expand_home_dir_uses_the_users_home() {
    let expected = match home::home_dir() {
        Some(dir) => match dir.to_str() {
            Some(text) => Ok(resolve_from(text, "~/.zshrc")),
            None => Err(ScanError::HomeDirectoryUnavailable),
        },
        None => Err(ScanError::HomeDirectoryUnavailable),
    };
    assert_eq!(expand_home_dir("~/.zshrc"), expected);
    if let Some(dir) = home::home_dir() {
        if let Some(text) = dir.join(".zshrc").to_str() {
            assert_eq!(expand_home_dir("~/.zshrc"), Ok(text.to_string()));
        }
    }
}
