//! What a scan is: the files that an entry file includes, directly or through
//! other files, and the aliases that all of them define.

use vstd::prelude::*;
use crate::extract::{aliases_of, inclusions_of};
use crate::resolve::{resolved, resolved_all};

verus! {

/// What a scan finds, each part in the order of the traversal.
#[verifier::ext_equal]
pub struct Found {
    /// The files that were referred to.
    pub files: Seq<Seq<char>>,
    /// The alias definitions.
    pub aliases: Seq<Seq<char>>,
    /// The inclusions that were not followed because the file they name was
    /// already being scanned further up.
    pub cycles: Seq<Seq<char>>,
}

impl Found {
    /// Nothing: what an unreadable file contributes.
    pub open spec fn empty() -> Found {
        Found { files: Seq::empty(), aliases: Seq::empty(), cycles: Seq::empty() }
    }

    /// What an inclusion contributes that would close a cycle at `path`.
    pub open spec fn cycle(path: Seq<char>) -> Found {
        Found { files: Seq::empty(), aliases: Seq::empty(), cycles: seq![path] }
    }

    /// `self` followed by `later`.
    pub open spec fn followed_by(self, later: Found) -> Found {
        Found {
            files: self.files + later.files,
            aliases: self.aliases + later.aliases,
            cycles: self.cycles + later.cycles,
        }
    }
}

/// The readable files, each with its lines. A path outside the map's domain
/// cannot be read.
pub type Files = Map<Seq<char>, Seq<Seq<char>>>;

/// The files that the lines of one file include, resolved under `home`.
pub open spec fn targets_of(home: Seq<char>, lines: Seq<Seq<char>>) -> Seq<Seq<char>> {
    resolved_all(home, inclusions_of(lines))
}

/// What the file at `path` contributes beyond its own path, reached through
/// the files of `trail`, when at most `depth` files are nested below it;
/// `None` where the nesting is deeper.
///
/// A file that cannot be read contributes nothing. A file that is already on
/// the trail is not read again: the inclusion is recorded as a cycle.
/// Otherwise the file contributes the files it includes, then what each of
/// those contributes in turn, and its own aliases after those of the files
/// it includes.
pub open spec fn scan_file(
    files: Files,
    home: Seq<char>,
    path: Seq<char>,
    trail: Seq<Seq<char>>,
    depth: nat,
) -> Option<Found>
    decreases depth, 0nat, 0nat,
{
    if trail.contains(path) {
        Some(Found::cycle(path))
    } else if !files.contains_key(path) {
        Some(Found::empty())
    } else if depth == 0 {
        None
    } else {
        let targets = targets_of(home, files[path]);
        match scan_each(files, home, targets, trail.push(path), (depth - 1) as nat) {
            Some(below) => Some(
                Found {
                    files: targets + below.files,
                    aliases: below.aliases + aliases_of(files[path]),
                    cycles: below.cycles,
                },
            ),
            None => None,
        }
    }
}

/// What the files at `paths` contribute, one after the other.
pub open spec fn scan_each(
    files: Files,
    home: Seq<char>,
    paths: Seq<Seq<char>>,
    trail: Seq<Seq<char>>,
    depth: nat,
) -> Option<Found>
    decreases depth, 1nat, paths.len(),
{
    if paths.len() == 0 {
        Some(Found::empty())
    } else {
        match (
            scan_file(files, home, paths.first(), trail, depth),
            scan_each(files, home, paths.drop_first(), trail, depth),
        ) {
            (Some(first), Some(rest)) => Some(first.followed_by(rest)),
            _ => None,
        }
    }
}

/// What the file at `path` contributes when every inclusion is followed,
/// whatever is on the trail: the scan without its guard against cycles. For
/// a file that includes itself, directly or through other files, it is
/// defined at no depth.
pub open spec fn plain_file(files: Files, home: Seq<char>, path: Seq<char>, depth: nat) -> Option<
    Found,
>
    decreases depth, 0nat, 0nat,
{
    if !files.contains_key(path) {
        Some(Found::empty())
    } else if depth == 0 {
        None
    } else {
        let targets = targets_of(home, files[path]);
        match plain_each(files, home, targets, (depth - 1) as nat) {
            Some(below) => Some(
                Found {
                    files: targets + below.files,
                    aliases: below.aliases + aliases_of(files[path]),
                    cycles: below.cycles,
                },
            ),
            None => None,
        }
    }
}

/// What the files at `paths` contribute, one after the other, when every
/// inclusion is followed.
pub open spec fn plain_each(
    files: Files,
    home: Seq<char>,
    paths: Seq<Seq<char>>,
    depth: nat,
) -> Option<Found>
    decreases depth, 1nat, paths.len(),
{
    if paths.len() == 0 {
        Some(Found::empty())
    } else {
        match (
            plain_file(files, home, paths.first(), depth),
            plain_each(files, home, paths.drop_first(), depth),
        ) {
            (Some(first), Some(rest)) => Some(first.followed_by(rest)),
            _ => None,
        }
    }
}

/// The scan that starts at `entry`: the resolved path of `entry` first, then
/// what that file contributes.
pub open spec fn scan(files: Files, home: Seq<char>, entry: Seq<char>, depth: nat) -> Option<
    Found,
> {
    let path = resolved(home, entry);
    match scan_file(files, home, path, Seq::empty(), depth) {
        Some(found) => Some(
            Found { files: seq![path] + found.files, aliases: found.aliases, cycles: found.cycles },
        ),
        None => None,
    }
}

} // verus!
