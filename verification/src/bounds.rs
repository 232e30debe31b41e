//! How deep a scan goes: the depth is a bound and nothing else, a scan of
//! finitely many files always ends, and the guard against cycles changes
//! nothing where no file includes itself.

use vstd::prelude::*;
use vstd::set_lib::lemma_len_subset;
use crate::laws::theorem_machine_computes_scan;
use crate::machine::{run, start};
use crate::resolve::resolved;
use crate::scan::{plain_each, plain_file, scan, scan_each, scan_file, targets_of, Files};

verus! {

/// A scan that is defined at one depth gives the same at any greater depth.
pub proof fn lemma_deeper_file(
    files: Files,
    home: Seq<char>,
    path: Seq<char>,
    trail: Seq<Seq<char>>,
    depth: nat,
    deeper: nat,
)
    requires
        depth <= deeper,
        scan_file(files, home, path, trail, depth) is Some,
    ensures
        scan_file(files, home, path, trail, deeper) == scan_file(files, home, path, trail, depth),
    decreases depth, 0nat, 0nat,
{
    if !trail.contains(path) && files.contains_key(path) {
        lemma_deeper_each(
            files,
            home,
            targets_of(home, files[path]),
            trail.push(path),
            (depth - 1) as nat,
            (deeper - 1) as nat,
        );
    }
}

/// The same for files scanned one after the other.
pub proof fn lemma_deeper_each(
    files: Files,
    home: Seq<char>,
    paths: Seq<Seq<char>>,
    trail: Seq<Seq<char>>,
    depth: nat,
    deeper: nat,
)
    requires
        depth <= deeper,
        scan_each(files, home, paths, trail, depth) is Some,
    ensures
        scan_each(files, home, paths, trail, deeper) == scan_each(files, home, paths, trail, depth),
    decreases depth, 1nat, paths.len(),
{
    if paths.len() > 0 {
        lemma_deeper_file(files, home, paths.first(), trail, depth, deeper);
        lemma_deeper_each(files, home, paths.drop_first(), trail, depth, deeper);
    }
}

/// A scan of `entry` that is defined at one depth gives the same at any
/// greater depth.
pub proof fn lemma_deeper(files: Files, home: Seq<char>, entry: Seq<char>, depth: nat, deeper: nat)
    requires
        depth <= deeper,
        scan(files, home, entry, depth) is Some,
    ensures
        scan(files, home, entry, deeper) == scan(files, home, entry, depth),
{
    lemma_deeper_file(files, home, resolved(home, entry), Seq::empty(), depth, deeper);
}

/// A trail of distinct readable files is no longer than there are readable
/// files.
proof fn lemma_trail_fits(files: Files, trail: Seq<Seq<char>>)
    requires
        files.dom().finite(),
        trail.no_duplicates(),
        forall|i: int| 0 <= i < trail.len() ==> files.contains_key(#[trigger] trail[i]),
    ensures
        trail.len() <= files.dom().len(),
{
    trail.unique_seq_to_set();
    assert(trail.to_set().subset_of(files.dom())) by {
        assert forall|p: Seq<char>| trail.to_set().contains(p) implies files.dom().contains(p) by {
            let i = choose|i: int| 0 <= i < trail.len() && trail[i] == p;
            assert(files.contains_key(trail[i]));
        }
    }
    lemma_len_subset(trail.to_set(), files.dom());
}

/// Among finitely many readable files, the scan of a file is defined as
/// soon as the depth makes up for what the trail lacks of all the files.
pub proof fn lemma_scan_file_ends(
    files: Files,
    home: Seq<char>,
    path: Seq<char>,
    trail: Seq<Seq<char>>,
    depth: nat,
)
    requires
        files.dom().finite(),
        trail.no_duplicates(),
        forall|i: int| 0 <= i < trail.len() ==> files.contains_key(#[trigger] trail[i]),
        trail.len() + depth >= files.dom().len(),
    ensures
        scan_file(files, home, path, trail, depth) is Some,
    decreases depth, 0nat, 0nat,
{
    if !trail.contains(path) && files.contains_key(path) {
        let longer = trail.push(path);
        assert(longer.no_duplicates());
        assert forall|i: int| 0 <= i < longer.len() implies files.contains_key(
            #[trigger] longer[i],
        ) by {
            if i < trail.len() {
                assert(longer[i] == trail[i]);
            }
        }
        lemma_trail_fits(files, longer);
        lemma_scan_each_ends(
            files,
            home,
            targets_of(home, files[path]),
            longer,
            (depth - 1) as nat,
        );
    }
}

/// The same for files scanned one after the other.
pub proof fn lemma_scan_each_ends(
    files: Files,
    home: Seq<char>,
    paths: Seq<Seq<char>>,
    trail: Seq<Seq<char>>,
    depth: nat,
)
    requires
        files.dom().finite(),
        trail.no_duplicates(),
        forall|i: int| 0 <= i < trail.len() ==> files.contains_key(#[trigger] trail[i]),
        trail.len() + depth >= files.dom().len(),
    ensures
        scan_each(files, home, paths, trail, depth) is Some,
    decreases depth, 1nat, paths.len(),
{
    if paths.len() > 0 {
        lemma_scan_file_ends(files, home, paths.first(), trail, depth);
        lemma_scan_each_ends(files, home, paths.drop_first(), trail, depth);
    }
}

/// Every scan of finitely many readable files is defined, whatever they
/// include: no nesting is deeper than there are readable files.
pub proof fn theorem_scan_ends(files: Files, home: Seq<char>, entry: Seq<char>)
    requires
        files.dom().finite(),
    ensures
        scan(files, home, entry, files.dom().len()) is Some,
{
    lemma_scan_file_ends(files, home, resolved(home, entry), Seq::empty(), files.dom().len());
}

/// Every run of the machine over finitely many readable files ends: after
/// the returned number of reads the machine is over, and has found what the
/// scan gives.
pub proof fn theorem_machine_ends(files: Files, home: Seq<char>, entry: Seq<char>) -> (n: nat)
    requires
        files.dom().finite(),
    ensures
        run(files, start(home, entry), n).outcome() is Some,
        run(files, start(home, entry), n).outcome() == scan(
            files,
            home,
            entry,
            files.dom().len(),
        ),
{
    theorem_scan_ends(files, home, entry);
    theorem_machine_computes_scan(files, home, entry, files.dom().len())
}

/// The unguarded scan that is defined at one depth gives the same at any
/// greater depth.
pub proof fn lemma_plain_deeper_file(
    files: Files,
    home: Seq<char>,
    path: Seq<char>,
    depth: nat,
    deeper: nat,
)
    requires
        depth <= deeper,
        plain_file(files, home, path, depth) is Some,
    ensures
        plain_file(files, home, path, deeper) == plain_file(files, home, path, depth),
    decreases depth, 0nat, 0nat,
{
    if files.contains_key(path) {
        lemma_plain_deeper_each(
            files,
            home,
            targets_of(home, files[path]),
            (depth - 1) as nat,
            (deeper - 1) as nat,
        );
    }
}

/// The same for files scanned one after the other.
pub proof fn lemma_plain_deeper_each(
    files: Files,
    home: Seq<char>,
    paths: Seq<Seq<char>>,
    depth: nat,
    deeper: nat,
)
    requires
        depth <= deeper,
        plain_each(files, home, paths, depth) is Some,
    ensures
        plain_each(files, home, paths, deeper) == plain_each(files, home, paths, depth),
    decreases depth, 1nat, paths.len(),
{
    if paths.len() > 0 {
        lemma_plain_deeper_file(files, home, paths.first(), depth, deeper);
        lemma_plain_deeper_each(files, home, paths.drop_first(), depth, deeper);
    }
}

/// The least depth at which the unguarded scan of `path` is defined.
proof fn lemma_least_depth(files: Files, home: Seq<char>, path: Seq<char>, depth: nat) -> (least:
    nat)
    requires
        plain_file(files, home, path, depth) is Some,
    ensures
        least <= depth,
        plain_file(files, home, path, least) is Some,
        least == 0 || plain_file(files, home, path, (least - 1) as nat) is None,
    decreases depth,
{
    if depth > 0 && plain_file(files, home, path, (depth - 1) as nat) is Some {
        lemma_least_depth(files, home, path, (depth - 1) as nat)
    } else {
        depth
    }
}

/// No file of `trail` has an unguarded scan that is defined at `depth`.
pub open spec fn out_of_reach(files: Files, home: Seq<char>, trail: Seq<Seq<char>>, depth: nat) -> bool {
    forall|i: int| 0 <= i < trail.len() ==> plain_file(files, home, #[trigger] trail[i], depth) is None
}

/// What is out of reach at one depth is out of reach at any smaller depth.
proof fn lemma_out_of_reach_below(
    files: Files,
    home: Seq<char>,
    trail: Seq<Seq<char>>,
    depth: nat,
    less: nat,
)
    requires
        less <= depth,
        out_of_reach(files, home, trail, depth),
    ensures
        out_of_reach(files, home, trail, less),
{
    assert forall|i: int| 0 <= i < trail.len() implies plain_file(
        files,
        home,
        #[trigger] trail[i],
        less,
    ) is None by {
        if plain_file(files, home, trail[i], less) is Some {
            lemma_plain_deeper_file(files, home, trail[i], less, depth);
        }
    }
}

/// Where `depth` is the least depth at which the unguarded scan of `path` is
/// defined, and the trail is out of reach at that depth, the guard does not
/// come into play below `path`.
proof fn lemma_guard_silent_file(
    files: Files,
    home: Seq<char>,
    path: Seq<char>,
    trail: Seq<Seq<char>>,
    depth: nat,
)
    requires
        plain_file(files, home, path, depth) is Some,
        depth == 0 || plain_file(files, home, path, (depth - 1) as nat) is None,
        out_of_reach(files, home, trail, depth),
    ensures
        scan_file(files, home, path, trail, depth) == plain_file(files, home, path, depth),
    decreases depth, 0nat, 0nat,
{
    if trail.contains(path) {
        let i = choose|i: int| 0 <= i < trail.len() && trail[i] == path;
        assert(plain_file(files, home, trail[i], depth) is None);
    }
    if files.contains_key(path) {
        let less = (depth - 1) as nat;
        let longer = trail.push(path);
        lemma_out_of_reach_below(files, home, trail, depth, less);
        assert forall|i: int| 0 <= i < longer.len() implies plain_file(
            files,
            home,
            #[trigger] longer[i],
            less,
        ) is None by {
            if i < trail.len() {
                assert(longer[i] == trail[i]);
            }
        }
        lemma_guard_silent_each(files, home, targets_of(home, files[path]), longer, less);
    }
}

/// Where the unguarded scan of `paths` is defined at `depth` and the trail
/// is out of reach at that depth, the guard does not come into play.
proof fn lemma_guard_silent_each(
    files: Files,
    home: Seq<char>,
    paths: Seq<Seq<char>>,
    trail: Seq<Seq<char>>,
    depth: nat,
)
    requires
        plain_each(files, home, paths, depth) is Some,
        out_of_reach(files, home, trail, depth),
    ensures
        scan_each(files, home, paths, trail, depth) == plain_each(files, home, paths, depth),
    decreases depth, 1nat, paths.len(),
{
    if paths.len() > 0 {
        let first = paths.first();
        let least = lemma_least_depth(files, home, first, depth);
        lemma_out_of_reach_below(files, home, trail, depth, least);
        lemma_guard_silent_file(files, home, first, trail, least);
        lemma_plain_deeper_file(files, home, first, least, depth);
        lemma_deeper_file(files, home, first, trail, least, depth);
        lemma_guard_silent_each(files, home, paths.drop_first(), trail, depth);
    }
}

/// The guard against cycles changes nothing where it is not needed:
/// wherever the scan that follows every inclusion is defined, the guarded
/// scan gives the same, and records no cycle.
pub proof fn theorem_guard_is_silent(files: Files, home: Seq<char>, entry: Seq<char>, depth: nat)
    requires
        plain_file(files, home, resolved(home, entry), depth) is Some,
    ensures
        scan_file(files, home, resolved(home, entry), Seq::empty(), depth) == plain_file(
            files,
            home,
            resolved(home, entry),
            depth,
        ),
        scan(files, home, entry, depth) is Some,
        scan(files, home, entry, depth).unwrap().cycles.len() == 0,
{
    let path = resolved(home, entry);
    let least = lemma_least_depth(files, home, path, depth);
    lemma_guard_silent_file(files, home, path, Seq::empty(), least);
    lemma_plain_deeper_file(files, home, path, least, depth);
    lemma_deeper_file(files, home, path, Seq::empty(), least, depth);
    lemma_plain_no_cycles_file(files, home, path, depth);
}

/// The unguarded scan records no cycle.
pub proof fn lemma_plain_no_cycles_file(files: Files, home: Seq<char>, path: Seq<char>, depth: nat)
    requires
        plain_file(files, home, path, depth) is Some,
    ensures
        plain_file(files, home, path, depth).unwrap().cycles.len() == 0,
    decreases depth, 0nat, 0nat,
{
    if files.contains_key(path) {
        lemma_plain_no_cycles_each(
            files,
            home,
            targets_of(home, files[path]),
            (depth - 1) as nat,
        );
    }
}

/// The same for files scanned one after the other.
pub proof fn lemma_plain_no_cycles_each(
    files: Files,
    home: Seq<char>,
    paths: Seq<Seq<char>>,
    depth: nat,
)
    requires
        plain_each(files, home, paths, depth) is Some,
    ensures
        plain_each(files, home, paths, depth).unwrap().cycles.len() == 0,
    decreases depth, 1nat, paths.len(),
{
    if paths.len() > 0 {
        lemma_plain_no_cycles_file(files, home, paths.first(), depth);
        lemma_plain_no_cycles_each(files, home, paths.drop_first(), depth);
    }
}

} // verus!
