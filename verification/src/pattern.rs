//! The line grammars, written as regular expressions, and the one call that
//! matches a text against them.

use vstd::prelude::*;

verus! {

/// An inclusion directive: the word `source`, white space, and the target,
/// which runs up to white space or one of `#`, `;`, `&`, `|`. The pattern may
/// match anywhere in a line.
pub const INCLUSION_PATTERN: &'static str = r"\bsource\s+([^\s#;&|]+)";

/// An alias definition: a line that begins with `alias` and one space; the
/// rest of the line is the definition.
pub const ALIAS_PATTERN: &'static str = r"^alias (.*)$";

/// A definition that can be shown: a name of lower-case letters, `=`, and
/// the command.
pub const BINDING_PATTERN: &'static str = r"^([a-z]+)=(.*)$";

/// The patterns of this library.
pub open spec fn is_line_pattern(pattern: Seq<char>) -> bool {
    pattern == INCLUSION_PATTERN@ || pattern == ALIAS_PATTERN@ || pattern == BINDING_PATTERN@
}

/// What the regular expression `pattern` captures in `text`: `None` where it
/// matches nowhere, else the groups of its leftmost match, group 0 (the whole
/// match) first, each `None` where the group took no part in the match.
pub uninterp spec fn regex_captures(pattern: Seq<char>, text: Seq<char>) -> Option<
    Seq<Option<Seq<char>>>,
>;

/// The contents of the groups of one match.
pub open spec fn groups_view(groups: Seq<Option<String>>) -> Seq<Option<Seq<char>>> {
    groups.map_values(
        |g: Option<String>|
            match g {
                Some(s) => Some(s@),
                None => None,
            },
    )
}

/// The contents of what a search gave.
pub open spec fn captures_view(found: Option<Vec<Option<String>>>) -> Option<
    Seq<Option<Seq<char>>>,
> {
    match found {
        Some(groups) => Some(groups_view(groups@)),
        None => None,
    }
}

/// Group `k` of a search's result, where the search matched and the group
/// took part.
pub open spec fn group_of(caps: Option<Seq<Option<Seq<char>>>>, k: int) -> Option<Seq<char>> {
    match caps {
        Some(groups) => if 0 <= k < groups.len() {
            groups[k]
        } else {
            None
        },
        None => None,
    }
}

/// Compiles `pattern` with `regex::Regex::new`, searches `text` with
/// `Regex::captures`, and copies the groups out of the `Captures`. Nothing
/// is proved of the outcome: it is `regex_captures(pattern, text)` by
/// definition of that name. The patterns of this library compile, so the
/// `unwrap` does not panic.
#[verifier::external_body]
pub(crate) fn captures(pattern: &str, text: &str) -> (found: Option<Vec<Option<String>>>)
    requires
        is_line_pattern(pattern@),
    ensures
        captures_view(found) == regex_captures(pattern@, text@),
{
    match regex::Regex::new(pattern).unwrap().captures(text) {
        Some(caps) => Some(caps.iter().map(|g| g.map(|m| m.as_str().to_string())).collect()),
        None => None,
    }
}

/// Group `k` of what a search gave, if the search matched and the group took
/// part in the match.
pub fn group(found: &Option<Vec<Option<String>>>, k: usize) -> (g: Option<&String>)
    ensures
        match g {
            Some(s) => group_of(captures_view(*found), k as int) == Some(s@),
            None => group_of(captures_view(*found), k as int) is None,
        },
{
    match found {
        Some(groups) => if k < groups.len() {
            match &groups[k] {
                Some(s) => Some(s),
                None => None,
            }
        } else {
            None
        },
        None => None,
    }
}

} // verus!
