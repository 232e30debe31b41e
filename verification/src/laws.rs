//! What holds of every scan: how the scan depends on its inputs, and that the
//! machine computes it.

use vstd::prelude::*;
use crate::extract::{aliases_of, inclusions_of};
use crate::machine::{lemma_settle_wf, read_in, run, start, trail, FrameView, Machine};
use crate::resolve::resolved;
use crate::scan::{scan, scan_each, scan_file, targets_of, Files, Found};

verus! {

/// The frame `f` with all its targets done, those from `f.next` on having
/// contributed `rest`.
pub open spec fn completed(f: FrameView, rest: Found) -> FrameView {
    FrameView { next: f.targets.len(), below: f.below.followed_by(rest), ..f }
}

/// A machine that waits for nothing stays as it is.
pub proof fn lemma_run_over(files: Files, m: Machine, n: nat)
    requires
        m.pending() is None,
    ensures
        run(files, m, n) == m,
{
}

/// Running `a + b` reads is running `a` reads and then `b` more.
pub proof fn lemma_run_add(files: Files, m: Machine, a: nat, b: nat)
    ensures
        run(files, m, a + b) == run(files, run(files, m, a), b),
    decreases a,
{
    if a > 0 {
        match m.pending() {
            Some(path) => {
                lemma_run_add(files, m.step(read_in(files, path)), (a - 1) as nat, b);
            },
            None => {
                lemma_run_over(files, m, b);
            },
        }
    }
}

/// A machine that waits for `path` comes, after the returned number of
/// reads, to where `path` has contributed what the scan of that file gives.
pub proof fn lemma_run_file(files: Files, m: Machine, path: Seq<char>, depth: nat) -> (n: nat)
    requires
        m.wf(),
        m.pending() == Some(path),
        scan_file(files, m.home, path, trail(m.stack), depth) is Some,
    ensures
        run(files, m, n) == m.deliver(
            scan_file(files, m.home, path, trail(m.stack), depth).unwrap(),
        ),
    decreases depth, 0nat, 0nat,
{
    if m.stack.len() > 0 {
        assert(m.waits(m.stack.len() - 1));
        assert(m.stack.take(m.stack.len() as int) == m.stack);
    }
    assert(!trail(m.stack).contains(path));
    if !files.contains_key(path) {
        assert(run(files, m, 1) == run(files, m.step(None), 0));
        1
    } else {
        let lines = files[path];
        let f = FrameView::opened(m.home, path, lines);
        assert(f.targets.skip(0) == f.targets);
        let below = scan_each(
            files,
            m.home,
            f.targets,
            trail(m.stack).push(path),
            (depth - 1) as nat,
        ).unwrap();
        let k = lemma_run_each(files, m, f, (depth - 1) as nat);
        assert(completed(f, below).total() =~~= scan_file(
            files,
            m.home,
            path,
            trail(m.stack),
            depth,
        ).unwrap());
        assert(run(files, m, k + 1) == run(files, m.step(Some(lines)), k));
        k + 1
    }
}

/// A machine that goes on with the frame `f` comes, after the returned
/// number of reads, to where the file of `f` has contributed its total, the
/// targets from `f.next` on having contributed what their scans give.
pub proof fn lemma_run_each(files: Files, m: Machine, f: FrameView, depth: nat) -> (n: nat)
    requires
        m.wf(),
        m.result is None,
        f.next <= f.targets.len(),
        f.path == m.over(m.stack.push(f)).path_at(m.stack.len() as int),
        scan_each(
            files,
            m.home,
            f.targets.skip(f.next as int),
            trail(m.stack).push(f.path),
            depth,
        ) is Some,
    ensures
        run(files, m.settle(f), n) == m.deliver(
            completed(
                f,
                scan_each(
                    files,
                    m.home,
                    f.targets.skip(f.next as int),
                    trail(m.stack).push(f.path),
                    depth,
                ).unwrap(),
            ).total(),
        ),
    decreases depth, 1nat, f.targets.len() - f.next,
{
    let way = trail(m.stack).push(f.path);
    let paths = f.targets.skip(f.next as int);
    let all = scan_each(files, m.home, paths, way, depth).unwrap();
    if f.next >= f.targets.len() {
        assert(completed(f, all) =~~= f);
        0
    } else {
        let target = f.targets[f.next as int];
        assert(paths.first() == target);
        assert(paths.drop_first() == f.targets.skip(f.next as int + 1));
        let first = scan_file(files, m.home, target, way, depth).unwrap();
        let rest = scan_each(files, m.home, f.targets.skip(f.next as int + 1), way, depth).unwrap();
        let g = f.absorb(first);
        assert(completed(g, rest) =~~= completed(f, all));
        if way.contains(target) {
            lemma_run_each(files, m, g, depth)
        } else {
            let waiting = m.over(m.stack.push(f));
            lemma_settle_wf(m, f);
            assert(trail(waiting.stack) == way);
            assert(waiting.stack.drop_last() == m.stack);
            assert(waiting.over(m.stack) == m);
            let a = lemma_run_file(files, waiting, target, depth);
            let b = lemma_run_each(files, m, g, depth);
            lemma_run_add(files, waiting, a, b);
            a + b
        }
    }
}

/// The machine computes the scan: wherever the scan of `entry` is defined,
/// the machine that starts at `entry` and is answered by `files` is over
/// after the returned number of reads, and has found what the scan gives.
pub proof fn theorem_machine_computes_scan(
    files: Files,
    home: Seq<char>,
    entry: Seq<char>,
    depth: nat,
) -> (n: nat)
    requires
        scan(files, home, entry, depth) is Some,
    ensures
        run(files, start(home, entry), n).outcome() == scan(files, home, entry, depth),
{
    let m = start(home, entry);
    assert(trail(m.stack) =~= Seq::empty());
    lemma_run_file(files, m, resolved(home, entry), depth)
}

/// The file sequence of a scan begins with the resolved path of the entry
/// file.
pub proof fn lemma_entry_first(files: Files, home: Seq<char>, entry: Seq<char>, depth: nat)
    requires
        scan(files, home, entry, depth) is Some,
    ensures
        scan(files, home, entry, depth).unwrap().files.len() > 0,
        scan(files, home, entry, depth).unwrap().files.first() == resolved(home, entry),
{
}

/// An entry file without inclusions and without aliases: the scan finds the
/// entry file and nothing else.
pub proof fn lemma_plain_entry(files: Files, home: Seq<char>, entry: Seq<char>, depth: nat)
    requires
        depth > 0,
        files.contains_key(resolved(home, entry)),
        inclusions_of(files[resolved(home, entry)]).len() == 0,
        aliases_of(files[resolved(home, entry)]).len() == 0,
    ensures
        scan(files, home, entry, depth) == Some(
            Found {
                files: seq![resolved(home, entry)],
                aliases: Seq::empty(),
                cycles: Seq::empty(),
            },
        ),
{
    let path = resolved(home, entry);
    assert(!Seq::<Seq<char>>::empty().contains(path));
    assert(targets_of(home, files[path]) =~= Seq::empty());
    assert(scan(files, home, entry, depth).unwrap() =~~= Found {
        files: seq![path],
        aliases: Seq::empty(),
        cycles: Seq::empty(),
    });
}

/// One file scanned as a run of files contributes what it contributes alone.
pub proof fn lemma_scan_each_one(
    files: Files,
    home: Seq<char>,
    path: Seq<char>,
    trail: Seq<Seq<char>>,
    depth: nat,
)
    ensures
        scan_each(files, home, seq![path], trail, depth) == scan_file(
            files,
            home,
            path,
            trail,
            depth,
        ),
{
    let one = seq![path];
    assert(one.first() == path);
    assert(one.drop_first() =~= Seq::empty());
    assert(scan_each(files, home, one.drop_first(), trail, depth) == Some(Found::empty()));
    let alone = scan_file(files, home, path, trail, depth);
    if alone is Some {
        assert(alone.unwrap().followed_by(Found::empty()) =~~= alone.unwrap());
    }
}

/// A chain of three files, the entry including the second and the second
/// the third: the files come out parent before child, and the aliases of the
/// third before those of the second, and those before the entry's own.
pub proof fn lemma_chain(
    files: Files,
    home: Seq<char>,
    entry: Seq<char>,
    second: Seq<char>,
    third: Seq<char>,
    depth: nat,
)
    requires
        depth >= 3,
        files.contains_key(resolved(home, entry)),
        files.contains_key(resolved(home, second)),
        files.contains_key(resolved(home, third)),
        inclusions_of(files[resolved(home, entry)]) == seq![second],
        inclusions_of(files[resolved(home, second)]) == seq![third],
        inclusions_of(files[resolved(home, third)]).len() == 0,
    ensures
        scan(files, home, entry, depth) == Some(
            Found {
                files: seq![resolved(home, entry), resolved(home, second), resolved(home, third)],
                aliases: aliases_of(files[resolved(home, third)]) + aliases_of(
                    files[resolved(home, second)],
                ) + aliases_of(files[resolved(home, entry)]),
                cycles: Seq::empty(),
            },
        ),
{
    let a = resolved(home, entry);
    let b = resolved(home, second);
    let c = resolved(home, third);
    assert(seq![second].len() == 1 && seq![third].len() == 1);
    assert(b != c && a != c);
    assert(a != b) by {
        if a == b {
            assert(seq![second][0] == seq![third][0]);
        }
    }
    let t1 = Seq::<Seq<char>>::empty().push(a);
    let t2 = t1.push(b);
    assert(targets_of(home, files[a]) =~= seq![b]);
    assert(targets_of(home, files[b]) =~= seq![c]);
    assert(targets_of(home, files[c]) =~= Seq::empty());
    let d1 = (depth - 1) as nat;
    let d2 = (depth - 2) as nat;
    let d3 = (depth - 3) as nat;
    // the third file
    assert(!t2.contains(c));
    assert(scan_each(files, home, Seq::empty(), t2.push(c), d3) == Some(Found::empty()));
    let found_c = scan_file(files, home, c, t2, d2);
    assert(found_c.unwrap() =~~= Found {
        files: Seq::empty(),
        aliases: aliases_of(files[c]),
        cycles: Seq::empty(),
    });
    // the second file
    lemma_scan_each_one(files, home, c, t2, d2);
    assert(!t1.contains(b));
    let found_b = scan_file(files, home, b, t1, d1);
    assert(found_b.unwrap() =~~= Found {
        files: seq![c],
        aliases: aliases_of(files[c]) + aliases_of(files[b]),
        cycles: Seq::empty(),
    });
    // the entry
    lemma_scan_each_one(files, home, b, t1, d1);
    assert(!Seq::<Seq<char>>::empty().contains(a));
    assert(scan(files, home, entry, depth).unwrap() =~~= Found {
        files: seq![a, b, c],
        aliases: aliases_of(files[c]) + aliases_of(files[b]) + aliases_of(files[a]),
        cycles: Seq::empty(),
    });
}

/// A file that cannot be read, and is not on the trail, contributes nothing,
/// whatever the depth.
pub proof fn lemma_unreadable_file(
    files: Files,
    home: Seq<char>,
    path: Seq<char>,
    trail: Seq<Seq<char>>,
    depth: nat,
)
    requires
        !files.contains_key(path),
        !trail.contains(path),
    ensures
        scan_file(files, home, path, trail, depth) == Some(Found::empty()),
{
}

/// What two runs of files contribute one after the other.
pub open spec fn both(first: Option<Found>, second: Option<Found>) -> Option<Found> {
    match (first, second) {
        (Some(a), Some(b)) => Some(a.followed_by(b)),
        _ => None,
    }
}

/// Files scanned one after the other contribute independently: the scan of
/// `before + after` is the scan of `before` followed by the scan of `after`.
pub proof fn lemma_scan_each_add(
    files: Files,
    home: Seq<char>,
    before: Seq<Seq<char>>,
    after: Seq<Seq<char>>,
    trail: Seq<Seq<char>>,
    depth: nat,
)
    ensures
        scan_each(files, home, before + after, trail, depth) == both(
            scan_each(files, home, before, trail, depth),
            scan_each(files, home, after, trail, depth),
        ),
    decreases before.len(),
{
    if before.len() == 0 {
        assert(before + after == after);
        let second = scan_each(files, home, after, trail, depth);
        if second is Some {
            assert(Found::empty().followed_by(second.unwrap()) =~~= second.unwrap());
        }
    } else {
        let all = before + after;
        assert(all.first() == before.first());
        assert(all.drop_first() == before.drop_first() + after);
        lemma_scan_each_add(files, home, before.drop_first(), after, trail, depth);
        let a = scan_file(files, home, before.first(), trail, depth);
        let b = scan_each(files, home, before.drop_first(), trail, depth);
        let c = scan_each(files, home, after, trail, depth);
        if a is Some && b is Some && c is Some {
            assert(a.unwrap().followed_by(b.unwrap().followed_by(c.unwrap()))
                =~~= a.unwrap().followed_by(b.unwrap()).followed_by(c.unwrap()));
        }
    }
}

/// An unreadable file among the files that a file includes leaves what the
/// others contribute as it is: the scan goes on with those after it as if it
/// were not there.
pub proof fn lemma_unreadable_sibling(
    files: Files,
    home: Seq<char>,
    before: Seq<Seq<char>>,
    path: Seq<char>,
    after: Seq<Seq<char>>,
    trail: Seq<Seq<char>>,
    depth: nat,
)
    requires
        !files.contains_key(path),
        !trail.contains(path),
    ensures
        scan_each(files, home, before + seq![path] + after, trail, depth) == scan_each(
            files,
            home,
            before + after,
            trail,
            depth,
        ),
{
    lemma_scan_each_add(files, home, before + seq![path], after, trail, depth);
    lemma_scan_each_add(files, home, before, seq![path], trail, depth);
    lemma_scan_each_add(files, home, before, after, trail, depth);
    let one = seq![path];
    assert(one.drop_first() =~= Seq::empty());
    assert(one.first() == path);
    assert(scan_each(files, home, one.drop_first(), trail, depth) == Some(Found::empty()));
    assert(scan_file(files, home, path, trail, depth) == Some(Found::empty()));
    assert(scan_each(files, home, one, trail, depth) == Some(
        Found::empty().followed_by(Found::empty()),
    ));
    assert(Found::empty().followed_by(Found::empty()) =~~= Found::empty());
    let a = scan_each(files, home, before, trail, depth);
    if a is Some {
        assert(a.unwrap().followed_by(Found::empty()) =~~= a.unwrap());
    }
}

} // verus!
