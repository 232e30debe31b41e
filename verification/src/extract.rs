//! The line extractor: what one line of a startup file includes and defines,
//! and the same for all the lines of a file.

use vstd::prelude::*;
use crate::pattern::{
    captures, captures_view, group, group_of, regex_captures, ALIAS_PATTERN, INCLUSION_PATTERN,
};
use crate::text::{contains, occurs_in, strip_quotes, texts, without_quotes};

verus! {

/// What one line yields.
pub struct Extracted {
    /// The target of the line's inclusion directive, quotes removed.
    pub inclusion: Option<String>,
    /// The alias definition on the line, quotes removed.
    pub alias: Option<String>,
}

/// What the lines of one file yield, in file order.
pub struct Directives {
    /// The targets of the inclusion directives, as written.
    pub inclusions: Vec<String>,
    /// The alias definitions.
    pub aliases: Vec<String>,
}

/// The contents of an optional string.
pub open spec fn text_view(t: Option<String>) -> Option<Seq<char>> {
    match t {
        Some(s) => Some(s@),
        None => None,
    }
}

impl Extracted {
    /// The inclusion target, as characters.
    pub open spec fn inclusion_view(self) -> Option<Seq<char>> {
        text_view(self.inclusion)
    }

    /// The alias definition, as characters.
    pub open spec fn alias_view(self) -> Option<Seq<char>> {
        text_view(self.alias)
    }
}

impl Directives {
    /// The inclusion targets, as characters.
    pub open spec fn inclusions_view(self) -> Seq<Seq<char>> {
        texts(self.inclusions@)
    }

    /// The alias definitions, as characters.
    pub open spec fn aliases_view(self) -> Seq<Seq<char>> {
        texts(self.aliases@)
    }
}

/// The first group of a search's result with its quotes removed.
pub open spec fn capture_in(caps: Option<Seq<Option<Seq<char>>>>) -> Option<Seq<char>> {
    match group_of(caps, 1) {
        Some(t) => Some(without_quotes(t)),
        None => None,
    }
}

/// The inclusion target of `line`: looked for only where the line holds the
/// text `source`, and then what the inclusion pattern captures.
pub open spec fn inclusion_of(line: Seq<char>) -> Option<Seq<char>> {
    if occurs_in("source"@, line) {
        capture_in(regex_captures(INCLUSION_PATTERN@, line))
    } else {
        None
    }
}

/// The alias definition of `line`: looked for only where the line holds the
/// text `alias`, and then what the alias pattern captures.
pub open spec fn alias_of(line: Seq<char>) -> Option<Seq<char>> {
    if occurs_in("alias"@, line) {
        capture_in(regex_captures(ALIAS_PATTERN@, line))
    } else {
        None
    }
}

/// The inclusion targets of `lines`, in order.
pub open spec fn inclusions_of(lines: Seq<Seq<char>>) -> Seq<Seq<char>> {
    lines.filter_map(|line: Seq<char>| inclusion_of(line))
}

/// The alias definitions of `lines`, in order.
pub open spec fn aliases_of(lines: Seq<Seq<char>>) -> Seq<Seq<char>> {
    lines.filter_map(|line: Seq<char>| alias_of(line))
}

/// Takes the first group out of what a search gave and removes its quotes.
pub fn capture_from(found: &Option<Vec<Option<String>>>) -> (captured: Option<String>)
    ensures
        text_view(captured) == capture_in(captures_view(*found)),
{
    match group(found, 1) {
        Some(s) => Some(strip_quotes(s.as_str())),
        None => None,
    }
}

/// Extracts from one line its inclusion target and its alias definition.
/// The two are looked for independently of each other.
pub fn extract(line: &str) -> (found: Extracted)
    ensures
        found.inclusion_view() == inclusion_of(line@),
        found.alias_view() == alias_of(line@),
{
    let inclusion = if contains(line, "source") {
        capture_from(&captures(INCLUSION_PATTERN, line))
    } else {
        None
    };
    let alias = if contains(line, "alias") {
        capture_from(&captures(ALIAS_PATTERN, line))
    } else {
        None
    };
    Extracted { inclusion, alias }
}

/// Extracts from the lines of one file, in order, the inclusion targets and
/// the alias definitions.
pub fn read_lines(lines: &Vec<String>) -> (found: Directives)
    ensures
        found.inclusions_view() == inclusions_of(texts(lines@)),
        found.aliases_view() == aliases_of(texts(lines@)),
{
    let mut inclusions: Vec<String> = Vec::new();
    let mut aliases: Vec<String> = Vec::new();
    let mut i: usize = 0;
    while i < lines.len()
        invariant
            i <= lines.len(),
            texts(inclusions@) == inclusions_of(texts(lines@).take(i as int)),
            texts(aliases@) == aliases_of(texts(lines@).take(i as int)),
        decreases lines.len() - i,
    {
        let found = extract(lines[i].as_str());
        proof {
            let all = texts(lines@);
            assert(all.take(i + 1).drop_last() == all.take(i as int));
            assert(all.take(i + 1).last() == lines@[i as int]@);
        }
        match found.inclusion {
            Some(target) => {
                inclusions.push(target);
            },
            None => {},
        }
        match found.alias {
            Some(definition) => {
                aliases.push(definition);
            },
            None => {},
        }
        i += 1;
    }
    assert(texts(lines@).take(i as int) == texts(lines@));
    Directives { inclusions, aliases }
}

} // verus!
