//! The path resolver: every path is taken relative to the user's home
//! directory, with or without the home marker `~/` in front of it.

use vstd::prelude::*;
use crate::text::{strip_home_dir_tilde, texts, without_home_marker};

verus! {

/// Why a scan cannot be made.
#[derive(Debug, Clone, Copy, PartialEq, Eq, Structural)]
pub enum ScanError {
    /// The user's home directory cannot be determined, or is not text.
    HomeDirectoryUnavailable,
}

/// `rel` joined onto `base`: a rooted `rel` stands for itself; otherwise it
/// follows `base`, after a `/` unless `base` is empty or ends in one.
pub open spec fn joined(base: Seq<char>, rel: Seq<char>) -> Seq<char> {
    if rel.len() > 0 && rel[0] == '/' {
        rel
    } else if base.len() > 0 && base.last() != '/' {
        base + seq!['/'] + rel
    } else {
        base + rel
    }
}

/// The path that `path` stands for under the home directory `home`.
pub open spec fn resolved(home: Seq<char>, path: Seq<char>) -> Seq<char> {
    joined(home, without_home_marker(path))
}

/// Each of `paths` resolved under `home`.
pub open spec fn resolved_all(home: Seq<char>, paths: Seq<Seq<char>>) -> Seq<Seq<char>> {
    paths.map_values(|path: Seq<char>| resolved(home, path))
}

/// What resolving gives for each answer to the question for the home
/// directory.
pub open spec fn resolved_with(home: Option<Seq<char>>, path: Seq<char>) -> Result<
    Seq<char>,
    ScanError,
> {
    match home {
        Some(h) => Ok(resolved(h, path)),
        None => Err(ScanError::HomeDirectoryUnavailable),
    }
}

/// The contents of a resolver's answer.
pub open spec fn resolution_view(r: Result<String, ScanError>) -> Result<Seq<char>, ScanError> {
    match r {
        Ok(p) => Ok(p@),
        Err(e) => Err(e),
    }
}

/// Asks `home::home_dir` for the current user's home directory and hands it
/// on as text; `None` where the crate finds none or where it is not valid
/// UTF-8. The answer depends on the user and the machine, so nothing is
/// claimed of it.
#[verifier::external_body]
pub(crate) fn home_directory() -> (home: Option<String>) {
    match home::home_dir() {
        Some(dir) => dir.into_os_string().into_string().ok(),
        None => None,
    }
}

/// Joins `rel` onto `base` with `/` as the separator. No path is looked up.
pub fn join(base: &str, rel: &str) -> (out: String)
    ensures
        out@ == joined(base@, rel@),
{
    if rel.unicode_len() > 0 && rel.get_char(0) == '/' {
        return String::from_str(rel);
    }
    let n = base.unicode_len();
    let mut out = String::from_str(base);
    if n > 0 && base.get_char(n - 1) != '/' {
        out.push('/');
    }
    out.append(rel);
    out
}

/// Resolves `path` under the home directory `home`: a leading `~/` is
/// dropped, and what is left is joined onto `home`.
pub fn resolve_from(home: &str, path: &str) -> (out: String)
    ensures
        out@ == resolved(home@, path@),
{
    join(home, strip_home_dir_tilde(path))
}

/// Resolves each of `paths` under the home directory `home`.
pub fn resolve_all(home: &str, paths: &Vec<String>) -> (out: Vec<String>)
    ensures
        texts(out@) == resolved_all(home@, texts(paths@)),
{
    let mut out: Vec<String> = Vec::new();
    let mut i: usize = 0;
    while i < paths.len()
        invariant
            i <= paths.len(),
            out.len() == i,
            forall|k: int| 0 <= k < i ==> out@[k]@ == resolved(home@, paths@[k]@),
        decreases paths.len() - i,
    {
        out.push(resolve_from(home, paths[i].as_str()));
        i += 1;
    }
    assert(texts(out@) =~= resolved_all(home@, texts(paths@)));
    out
}

/// Resolves `path` given the answer to the question for the home directory:
/// an error where there is none.
pub fn resolve_with(home: &Option<String>, path: &str) -> (out: Result<String, ScanError>)
    ensures
        resolution_view(out) == resolved_with(
            match *home {
                Some(h) => Some(h@),
                None => None,
            },
            path@,
        ),
{
    match home {
        Some(h) => Ok(resolve_from(h.as_str(), path)),
        None => Err(ScanError::HomeDirectoryUnavailable),
    }
}

/// Resolves `path` under the current user's home directory. Whatever the
/// home directory is found to be, the result is `path` resolved under it;
/// the only failure is that none is found.
pub fn expand_home_dir(path: &str) -> (out: Result<String, ScanError>)
    ensures
        exists|home: Option<Seq<char>>| resolution_view(out) == #[trigger] resolved_with(home, path@),
{
    let home = home_directory();
    let out = resolve_with(&home, path);
    assert(resolution_view(out) == resolved_with(
        match home {
            Some(h) => Some(h@),
            None => None,
        },
        path@,
    ));
    out
}

} // verus!
