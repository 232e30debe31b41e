use what_the_alias::remind::{
    binding_from, command, entry_file, format_alias, random_choice, remind_random, reminder_for,
    Binding, Command, Reminder,
};

fn strings(items: &[&str]) -> Vec<String> {
    items.iter().map(|s| s.to_string()).collect()
}

fn binding(name: &str, command: &str) -> Binding {
    Binding { name: name.to_string(), command: command.to_string() }
}

#[test]
fn entry_file_of_supported_shells() {
    assert_eq!(entry_file("zsh"), Some("~/.zshrc"));
    assert_eq!(entry_file("bash"), Some("~/.bashrc"));
}

#[test]
fn entry_file_of_other_shells() {
    assert_eq!(entry_file("fish"), None);
    assert_eq!(entry_file(""), None);
    assert_eq!(entry_file("Zsh"), None);
    assert_eq!(entry_file("zsh "), None);
    assert_eq!(entry_file("-bash"), None);
}

#[test]
fn command_reminder_random() {
    assert_eq!(command(&strings(&["wta", "reminder", "--random"])), Command::RemindRandom);
    assert_eq!(command(&strings(&["wta", "reminder", "--random", "more"])), Command::RemindRandom);
}

#[test]
fn command_anything_else_is_nothing() {
    assert_eq!(command(&strings(&[])), Command::Nothing);
    assert_eq!(command(&strings(&["wta"])), Command::Nothing);
    assert_eq!(command(&strings(&["wta", "reminder"])), Command::Nothing);
    assert_eq!(command(&strings(&["wta", "reminder", "--all"])), Command::Nothing);
    assert_eq!(command(&strings(&["wta", "list", "--random"])), Command::Nothing);
    assert_eq!(command(&strings(&["wta", "--random", "reminder"])), Command::Nothing);
    assert_eq!(command(&strings(&["reminder", "--random"])), Command::Nothing);
}

#[test]
fn format_trims_the_trailing_semicolon() {
    assert_eq!(format_alias("myip=curl ifconfig.me;"), Some(binding("myip", "curl ifconfig.me")));
}

#[test]
fn format_rejects_upper_case_names() {
    assert_eq!(format_alias("MyAlias=ls -la"), None);
}

#[test]
fn format_rejects_names_with_other_characters() {
    assert_eq!(format_alias("g2=git"), None);
    assert_eq!(format_alias("my_alias=x"), None);
    assert_eq!(format_alias("my-alias=x"), None);
    assert_eq!(format_alias(" gs=git status"), None);
    assert_eq!(format_alias("gs =git status"), None);
}

#[test]
fn format_needs_a_name_and_an_equals_sign() {
    assert_eq!(format_alias("=foo"), None);
    assert_eq!(format_alias("gs"), None);
    assert_eq!(format_alias(""), None);
}

#[test]
fn format_takes_everything_after_the_first_equals_sign() {
    assert_eq!(format_alias("gs=git status"), Some(binding("gs", "git status")));
    assert_eq!(format_alias("e=EDITOR=vim crontab -e"), Some(binding("e", "EDITOR=vim crontab -e")));
    assert_eq!(format_alias("x="), Some(binding("x", "")));
}

#[test]
fn format_strips_quotes_before_the_semicolon() {
    assert_eq!(format_alias("x='a;'"), Some(binding("x", "a")));
    assert_eq!(format_alias("x=\"say 'hi'\""), Some(binding("x", "say hi")));
}

#[test]
fn format_trims_one_semicolon_only() {
    assert_eq!(format_alias("ll=ls -la;;"), Some(binding("ll", "ls -la;")));
    assert_eq!(format_alias("x=a;b"), Some(binding("x", "a;b")));
}

#[test]
fn format_does_not_match_across_lines() {
    assert_eq!(format_alias("a=b\nc"), None);
}

#[test]
fn binding_from_given_groups() {
    let found = Some(vec![
        Some("gs='git status';".to_string()),
        Some("gs".to_string()),
        Some("'git status';".to_string()),
    ]);
    assert_eq!(binding_from(&found), Some(binding("gs", "git status")));
}

#[test]
fn binding_from_missing_groups() {
    assert_eq!(binding_from(&None), None);
    assert_eq!(binding_from(&Some(vec![])), None);
    assert_eq!(binding_from(&Some(vec![Some("a".to_string()), Some("a".to_string())])), None);
    assert_eq!(
        binding_from(&Some(vec![Some("a".to_string()), None, Some("b".to_string())])),
        None
    );
    assert_eq!(
        binding_from(&Some(vec![Some("a".to_string()), Some("a".to_string()), None])),
        None
    );
}

#[test]
fn pick_from_nothing_is_nothing() {
    assert_eq!(random_choice(&Vec::new()), None);
}

#[test]
fn pick_from_one_is_that_one() {
    let aliases = strings(&["gs=git status"]);
    for _ in 0..50 {
        assert_eq!(random_choice(&aliases), Some(&aliases[0]));
    }
}

#[test]
fn pick_is_one_of_the_aliases() {
    let aliases = strings(&["a=1", "b=2", "c=3", "d=4"]);
    for _ in 0..200 {
        let picked = random_choice(&aliases).unwrap();
        assert!(aliases.contains(picked));
    }
}

#[test]
fn pick_reaches_every_alias_about_equally_often() {
    let aliases = strings(&["a=1", "b=2", "c=3"]);
    let mut counts = [0usize; 3];
    for _ in 0..3000 {
        let picked = random_choice(&aliases).unwrap();
        let at = aliases.iter().position(|a| a == picked).unwrap();
        counts[at] += 1;
    }
    for count in counts {
        assert!(count > 800 && count < 1200);
    }
}

#[test]
fn reminder_for_no_pick() {
    assert_eq!(reminder_for(None), Reminder::NoAliases);
}

#[test]
fn reminder_for_a_binding() {
    let raw = "myip=curl ifconfig.me;".to_string();
    assert_eq!(reminder_for(Some(&raw)), Reminder::Tip(binding("myip", "curl ifconfig.me")));
}

#[test]
fn reminder_for_a_definition_that_cannot_be_shown() {
    let raw = "MyAlias=ls -la".to_string();
    assert_eq!(reminder_for(Some(&raw)), Reminder::Nothing);
}

#[test]
fn remind_random_without_aliases() {
    assert_eq!(remind_random(&Vec::new()), Reminder::NoAliases);
}

#[test]
fn remind_random_with_one_alias() {
    assert_eq!(
        remind_random(&strings(&["gs=git status"])),
        Reminder::Tip(binding("gs", "git status"))
    );
    assert_eq!(remind_random(&strings(&["G=git"])), Reminder::Nothing);
}

#[test]
fn remind_random_shows_one_of_the_aliases() {
    let aliases = strings(&["a=x", "b=y;"]);
    for _ in 0..50 {
        let shown = remind_random(&aliases);
        assert!(
            shown == Reminder::Tip(binding("a", "x")) || shown == Reminder::Tip(binding("b", "y"))
        );
    }
}
