//! Scans of files that are held in memory: the scanner is run to its end
//! against a table of files, and finds what the scan of those files gives.

use vstd::prelude::*;
use crate::bounds::{lemma_deeper, theorem_machine_ends};
use crate::laws::{lemma_run_add, lemma_run_over};
use crate::machine::{read_in, run, start};
use crate::scan::{scan, Files};
use crate::scanner::{FileRead, ScanResult, Scanner};
use crate::text::texts;

verus! {

/// A file held in memory.
pub struct StoredFile {
    /// The file's path, as the scan resolves it.
    pub path: String,
    /// The file's lines, in order, without their line ends.
    pub lines: Vec<String>,
}

/// The files of a table. Of two entries with one path the first counts. A
/// path that the table does not hold cannot be read.
pub open spec fn stored(table: Seq<StoredFile>) -> Files
    decreases table.len(),
{
    if table.len() == 0 {
        Map::empty()
    } else {
        stored(table.drop_first()).insert(table.first().path@, texts(table.first().lines@))
    }
}

/// A table holds finitely many files, no more than it has entries.
pub proof fn lemma_stored_finite(table: Seq<StoredFile>)
    ensures
        stored(table).dom().finite(),
        stored(table).dom().len() <= table.len(),
    decreases table.len(),
{
    if table.len() > 0 {
        lemma_stored_finite(table.drop_first());
    }
}

/// A copy of `lines`.
fn copy_lines(lines: &Vec<String>) -> (copy: Vec<String>)
    ensures
        texts(copy@) == texts(lines@),
{
    let mut copy: Vec<String> = Vec::new();
    let mut i: usize = 0;
    while i < lines.len()
        invariant
            i <= lines.len(),
            copy.len() == i,
            forall|k: int| 0 <= k < i ==> copy@[k]@ == lines@[k]@,
        decreases lines.len() - i,
    {
        copy.push(lines[i].clone());
        i += 1;
    }
    assert(texts(copy@) =~= texts(lines@));
    copy
}

/// What reading `path` gives in `table`.
pub fn read_stored(table: &Vec<StoredFile>, path: &String) -> (read: FileRead)
    ensures
        read@ == read_in(stored(table@), path@),
{
    let mut i: usize = 0;
    assert(table@.skip(0) == table@);
    while i < table.len()
        invariant
            i <= table.len(),
            read_in(stored(table@), path@) == read_in(stored(table@.skip(i as int)), path@),
        decreases table.len() - i,
    {
        let ghost rest = table@.skip(i as int);
        assert(rest.first() == table@[i as int]);
        assert(rest.drop_first() == table@.skip(i + 1));
        if table[i].path == *path {
            return FileRead::Lines(copy_lines(&table[i].lines));
        }
        i += 1;
    }
    FileRead::Unreadable
}

/// Scans the files of `table` from `entry`, with paths resolved under the
/// home directory `home`. The scan always ends: no nesting is deeper than
/// the table is long.
pub fn scan_stored(home: &str, entry: &str, table: &Vec<StoredFile>) -> (found: ScanResult)
    ensures
        scan(stored(table@), home@, entry@, table.len() as nat) == Some(found@),
{
    let ghost files = stored(table@);
    let ghost first = start(home@, entry@);
    let ghost reads: nat;
    let ghost mut done: nat = 0;
    proof {
        lemma_stored_finite(table@);
        reads = theorem_machine_ends(files, home@, entry@);
        lemma_deeper(files, home@, entry@, files.dom().len(), table.len() as nat);
    }
    let mut scanner = Scanner::new(home, entry);
    loop
        invariant
            files == stored(table@),
            first == start(home@, entry@),
            scanner@ == run(files, first, done),
            run(files, first, reads).outcome() == scan(files, home@, entry@, table.len() as nat),
            run(files, first, reads).outcome() is Some,
        ensures
            scanner@.outcome() == scan(files, home@, entry@, table.len() as nat),
            scanner@.outcome() is Some,
        decreases reads - done,
    {
        let read = match scanner.pending() {
            Some(path) => read_stored(table, path),
            None => {
                proof {
                    // a machine that is over stays as it is
                    if done <= reads {
                        lemma_run_add(files, first, done, (reads - done) as nat);
                        lemma_run_over(files, scanner@, (reads - done) as nat);
                    } else {
                        lemma_run_add(files, first, reads, (done - reads) as nat);
                        lemma_run_over(files, run(files, first, reads), (done - reads) as nat);
                    }
                }
                break ;
            },
        };
        proof {
            // a machine that waits has not made all its reads
            if done >= reads {
                lemma_run_add(files, first, reads, (done - reads) as nat);
                lemma_run_over(files, run(files, first, reads), (done - reads) as nat);
            }
            lemma_run_add(files, first, done, 1);
            assert(run(files, scanner@, 1) == run(
                files,
                scanner@.step(read_in(files, scanner@.pending().unwrap())),
                0,
            ));
        }
        scanner = scanner.feed(read);
        proof {
            done = done + 1;
        }
    }
    scanner.finish().unwrap()
}

} // verus!
