use what_the_alias::memory::{read_stored, scan_stored, StoredFile};
use what_the_alias::resolve::ScanError;
use what_the_alias::scanner::{FileRead, ScanResult, Scanner};

const HOME: &str = "/home/u";

fn strings(items: &[&str]) -> Vec<String> {
    items.iter().map(|s| s.to_string()).collect()
}

fn table(files: &[(&str, &[&str])]) -> Vec<StoredFile> {
    files
        .iter()
        .map(|(path, lines)| StoredFile { path: path.to_string(), lines: strings(lines) })
        .collect()
}

/// Runs a scan of `entry` against the files given; returns what was found
/// and the files that could not be read, in the order they were asked for.
fn run(entry: &str, files: &[(&str, &[&str])]) -> (ScanResult, Vec<String>) {
    let at_once = scan_stored(HOME, entry, &table(files));
    let (found, unreadable) = run_by_hand(entry, files);
    assert_eq!(at_once.files, found.files);
    assert_eq!(at_once.aliases, found.aliases);
    assert_eq!(at_once.cycles, found.cycles);
    (found, unreadable)
}

fn run_by_hand(entry: &str, files: &[(&str, &[&str])]) -> (ScanResult, Vec<String>) {
    let mut scanner = Scanner::new(HOME, entry);
    let mut unreadable = Vec::new();
    let mut reads = 0;
    while let Some(path) = scanner.pending().cloned() {
        reads += 1;
        assert!(reads < 1000);
        match files.iter().find(|(name, _)| *name == path) {
            Some((_, lines)) => scanner = scanner.feed(FileRead::Lines(strings(lines))),
            None => {
                unreadable.push(path);
                scanner = scanner.feed(FileRead::Unreadable);
            }
        }
    }
    assert!(scanner.is_done());
    (scanner.finish().unwrap(), unreadable)
}

#[test]
fn scan_starts_by_waiting_for_the_entry_file() {
    let scanner = Scanner::new(HOME, "~/.zshrc");
    assert_eq!(scanner.pending(), Some(&"/home/u/.zshrc".to_string()));
    assert!(!scanner.is_done());
    assert!(scanner.finish().is_none());
}

#[test]
fn scan_of_a_plain_file_finds_the_entry_only() {
    let (found, unreadable) = run("~/.zshrc", &[("/home/u/.zshrc", &["export A=b", "# text"])]);
    assert_eq!(found.files, strings(&["/home/u/.zshrc"]));
    assert!(found.aliases.is_empty());
    assert!(found.cycles.is_empty());
    assert!(unreadable.is_empty());
}

#[test]
fn scan_of_an_empty_file_finds_the_entry_only() {
    let (found, _) = run("~/.bashrc", &[("/home/u/.bashrc", &[])]);
    assert_eq!(found.files, strings(&["/home/u/.bashrc"]));
    assert!(found.aliases.is_empty());
}

#[test]
fn scan_puts_the_entry_file_first() {
    let (found, _) = run(
        "~/.zshrc",
        &[
            ("/home/u/.zshrc", &["source ~/.a", "source ~/.b"]),
            ("/home/u/.a", &["alias a=1"]),
            ("/home/u/.b", &["alias b=2"]),
        ],
    );
    assert_eq!(found.files[0], "/home/u/.zshrc");
    assert_eq!(found.files, strings(&["/home/u/.zshrc", "/home/u/.a", "/home/u/.b"]));
}

#[test]
fn scan_of_a_chain_orders_files_and_aliases() {
    let (found, unreadable) = run(
        "~/.a",
        &[
            ("/home/u/.a", &["alias a=one", "source ~/.b", "alias aa=two"]),
            ("/home/u/.b", &["alias b=three", "source ~/.c"]),
            ("/home/u/.c", &["alias c=four", "alias cc=five"]),
        ],
    );
    assert_eq!(found.files, strings(&["/home/u/.a", "/home/u/.b", "/home/u/.c"]));
    assert_eq!(found.aliases, strings(&["c=four", "cc=five", "b=three", "a=one", "aa=two"]));
    assert!(found.cycles.is_empty());
    assert!(unreadable.is_empty());
}

#[test]
fn scan_lists_children_before_grandchildren() {
    let (found, _) = run(
        "~/.root",
        &[
            ("/home/u/.root", &["source ~/.x", "source ~/.y", "alias r=0"]),
            ("/home/u/.x", &["source ~/.x1", "source ~/.x2", "alias x=1"]),
            ("/home/u/.y", &["source ~/.y1", "alias y=2"]),
            ("/home/u/.x1", &["alias xa=3"]),
            ("/home/u/.x2", &["alias xb=4"]),
            ("/home/u/.y1", &["alias ya=5"]),
        ],
    );
    assert_eq!(
        found.files,
        strings(&[
            "/home/u/.root",
            "/home/u/.x",
            "/home/u/.y",
            "/home/u/.x1",
            "/home/u/.x2",
            "/home/u/.y1",
        ])
    );
    assert_eq!(found.aliases, strings(&["xa=3", "xb=4", "x=1", "ya=5", "y=2", "r=0"]));
}

#[test]
fn scan_reads_files_depth_first() {
    let mut scanner = Scanner::new(HOME, "~/.root");
    let mut asked = Vec::new();
    let files: [(&str, &[&str]); 4] = [
        ("/home/u/.root", &["source ~/.x", "source ~/.y"]),
        ("/home/u/.x", &["source ~/.x1"]),
        ("/home/u/.x1", &[]),
        ("/home/u/.y", &[]),
    ];
    while let Some(path) = scanner.pending().cloned() {
        asked.push(path.clone());
        let (_, lines) = files.iter().find(|(name, _)| *name == path).unwrap();
        scanner = scanner.feed(FileRead::Lines(strings(lines)));
    }
    assert_eq!(asked, strings(&["/home/u/.root", "/home/u/.x", "/home/u/.x1", "/home/u/.y"]));
}

#[test]
fn scan_of_an_unreadable_entry_finds_the_entry_only() {
    let (found, unreadable) = run("~/.zshrc", &[]);
    assert_eq!(found.files, strings(&["/home/u/.zshrc"]));
    assert!(found.aliases.is_empty());
    assert!(found.cycles.is_empty());
    assert_eq!(unreadable, strings(&["/home/u/.zshrc"]));
}

#[test]
fn scan_goes_on_after_an_unreadable_file() {
    let (found, unreadable) = run(
        "~/.zshrc",
        &[
            ("/home/u/.zshrc", &["source ~/.a", "source ~/.gone", "source ~/.b", "alias z=0"]),
            ("/home/u/.a", &["alias a=1"]),
            ("/home/u/.b", &["alias b=2", "source ~/.c"]),
            ("/home/u/.c", &["alias c=3"]),
        ],
    );
    assert_eq!(
        found.files,
        strings(&["/home/u/.zshrc", "/home/u/.a", "/home/u/.gone", "/home/u/.b", "/home/u/.c"])
    );
    assert_eq!(found.aliases, strings(&["a=1", "c=3", "b=2", "z=0"]));
    assert_eq!(unreadable, strings(&["/home/u/.gone"]));
}

#[test]
fn scan_with_and_without_an_unreadable_sibling_finds_the_same_aliases() {
    let with: [(&str, &[&str]); 3] = [
        ("/home/u/.zshrc", &["source ~/.a", "source ~/.gone", "source ~/.b"]),
        ("/home/u/.a", &["alias a=1"]),
        ("/home/u/.b", &["alias b=2"]),
    ];
    let without: [(&str, &[&str]); 3] = [
        ("/home/u/.zshrc", &["source ~/.a", "source ~/.b"]),
        ("/home/u/.a", &["alias a=1"]),
        ("/home/u/.b", &["alias b=2"]),
    ];
    assert_eq!(run("~/.zshrc", &with).0.aliases, run("~/.zshrc", &without).0.aliases);
}

#[test]
fn scan_resolves_every_inclusion_under_home() {
    let (found, unreadable) = run(
        "~/.zshrc",
        &[
            ("/home/u/.zshrc", &["source .plain", "source /etc/zshrc", "source \"~/.quoted\""]),
            ("/home/u/.plain", &["alias p=1"]),
            ("/etc/zshrc", &["alias e=2"]),
            ("/home/u/.quoted", &["alias q=3"]),
        ],
    );
    assert_eq!(
        found.files,
        strings(&["/home/u/.zshrc", "/home/u/.plain", "/etc/zshrc", "/home/u/.quoted"])
    );
    assert_eq!(found.aliases, strings(&["p=1", "e=2", "q=3"]));
    assert!(unreadable.is_empty());
}

#[test]
fn scan_reads_a_file_again_that_is_included_twice() {
    let (found, _) = run(
        "~/.zshrc",
        &[
            ("/home/u/.zshrc", &["source ~/.a", "source ~/.b"]),
            ("/home/u/.a", &["source ~/.shared", "alias a=1"]),
            ("/home/u/.b", &["source ~/.shared", "alias b=2"]),
            ("/home/u/.shared", &["alias s=0"]),
        ],
    );
    assert_eq!(
        found.files,
        strings(&["/home/u/.zshrc", "/home/u/.a", "/home/u/.b", "/home/u/.shared", "/home/u/.shared"])
    );
    assert_eq!(found.aliases, strings(&["s=0", "a=1", "s=0", "b=2"]));
    assert!(found.cycles.is_empty());
}

#[test]
fn scan_cuts_a_file_that_includes_itself() {
    let (found, unreadable) =
        run("~/.zshrc", &[("/home/u/.zshrc", &["alias z=0", "source ~/.zshrc"])]);
    assert_eq!(found.files, strings(&["/home/u/.zshrc", "/home/u/.zshrc"]));
    assert_eq!(found.aliases, strings(&["z=0"]));
    assert_eq!(found.cycles, strings(&["/home/u/.zshrc"]));
    assert!(unreadable.is_empty());
}

#[test]
fn scan_cuts_a_cycle_of_two_files() {
    let (found, _) = run(
        "~/.a",
        &[
            ("/home/u/.a", &["alias a=1", "source ~/.b"]),
            ("/home/u/.b", &["alias b=2", "source ~/.a", "source ~/.c"]),
            ("/home/u/.c", &["alias c=3"]),
        ],
    );
    assert_eq!(found.files, strings(&["/home/u/.a", "/home/u/.b", "/home/u/.a", "/home/u/.c"]));
    assert_eq!(found.aliases, strings(&["c=3", "b=2", "a=1"]));
    assert_eq!(found.cycles, strings(&["/home/u/.a"]));
}

#[test]
fn scan_that_is_over_ignores_what_it_is_fed() {
    let mut scanner = Scanner::new(HOME, "~/.zshrc");
    scanner = scanner.feed(FileRead::Lines(strings(&["alias a=1"])));
    assert!(scanner.is_done());
    assert_eq!(scanner.pending(), None);
    scanner = scanner.feed(FileRead::Lines(strings(&["alias b=2", "source ~/.x"])));
    scanner = scanner.feed(FileRead::Unreadable);
    assert!(scanner.is_done());
    let found = scanner.finish().unwrap();
    assert_eq!(found.files, strings(&["/home/u/.zshrc"]));
    assert_eq!(found.aliases, strings(&["a=1"]));
}

#[test]
fn scan_begins_under_the_users_home() {
    match (Scanner::begin("~/.zshrc"), home::home_dir()) {
        (Ok(scanner), Some(dir)) => {
            let expected = dir.join(".zshrc").to_str().unwrap().to_string();
            assert_eq!(scanner.pending(), Some(&expected));
        }
        (Err(_), Some(dir)) => assert!(dir.to_str().is_none()),
        (Err(_), None) => {}
        (Ok(_), None) => panic!("a scan began without a home directory"),
    }
}

#[test]
fn scan_stored_of_a_chain() {
    let files = table(&[
        ("/home/u/.a", &["source ~/.b", "alias a=1"]),
        ("/home/u/.b", &["source ~/.c", "alias b=2"]),
        ("/home/u/.c", &["alias c=3"]),
    ]);
    let found = scan_stored(HOME, "~/.a", &files);
    assert_eq!(found.files, strings(&["/home/u/.a", "/home/u/.b", "/home/u/.c"]));
    assert_eq!(found.aliases, strings(&["c=3", "b=2", "a=1"]));
    assert!(found.cycles.is_empty());
}

#[test]
fn scan_stored_ends_on_files_that_include_each_other() {
    let files = table(&[
        ("/home/u/.a", &["source ~/.b", "source ~/.a", "alias a=1"]),
        ("/home/u/.b", &["source ~/.a", "source ~/.b", "alias b=2"]),
    ]);
    let found = scan_stored(HOME, "~/.a", &files);
    assert_eq!(
        found.files,
        strings(&["/home/u/.a", "/home/u/.b", "/home/u/.a", "/home/u/.a", "/home/u/.b"])
    );
    assert_eq!(found.aliases, strings(&["b=2", "a=1"]));
    assert_eq!(found.cycles, strings(&["/home/u/.a", "/home/u/.b", "/home/u/.a"]));
}

#[test]
fn scan_stored_of_an_empty_table() {
    let found = scan_stored(HOME, "~/.zshrc", &Vec::new());
    assert_eq!(found.files, strings(&["/home/u/.zshrc"]));
    assert!(found.aliases.is_empty());
}

#[test]
fn read_stored_takes_the_first_entry_of_a_path() {
    let files = table(&[("/a", &["one"]), ("/b", &["two"]), ("/a", &["three"])]);
    match read_stored(&files, &"/a".to_string()) {
        FileRead::Lines(lines) => assert_eq!(lines, strings(&["one"])),
        FileRead::Unreadable => panic!("the table holds the file"),
    }
    match read_stored(&files, &"/b".to_string()) {
        FileRead::Lines(lines) => assert_eq!(lines, strings(&["two"])),
        FileRead::Unreadable => panic!("the table holds the file"),
    }
    assert!(matches!(read_stored(&files, &"/c".to_string()), FileRead::Unreadable));
}

#[test]
fn scan_begins_with_a_home_directory() {
    let home = Some("/home/u".to_string());
    match Scanner::begin_with(&home, "~/.zshrc") {
        Ok(scanner) => {
            assert_eq!(scanner.pending(), Some(&"/home/u/.zshrc".to_string()));
            assert!(!scanner.is_done());
        }
        Err(_) => panic!("a home directory was given"),
    }
}

#[test]
fn scan_does_not_begin_without_a_home_directory() {
    match Scanner::begin_with(&None, "~/.zshrc") {
        Ok(_) => panic!("a scan began without a home directory"),
        Err(e) => assert_eq!(e, ScanError::HomeDirectoryUnavailable),
    }
}

#[test]
fn scan_result_empty_holds_nothing() {
    let found = ScanResult::empty();
    assert!(found.files.is_empty());
    assert!(found.aliases.is_empty());
    assert!(found.cycles.is_empty());
}
