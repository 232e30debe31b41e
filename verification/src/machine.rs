//! The scan as a machine that asks for one file at a time. Reading files is
//! left to the caller: the machine names the file it waits for, takes what
//! reading it gave, and moves on.

use vstd::prelude::*;
use crate::extract::aliases_of;
use crate::resolve::resolved;
use crate::scan::{targets_of, Files, Found};

verus! {

/// A file that has been read and whose inclusions are being followed.
#[verifier::ext_equal]
pub struct FrameView {
    /// The file.
    pub path: Seq<char>,
    /// The files it includes, in file order.
    pub targets: Seq<Seq<char>>,
    /// How many of them are done.
    pub next: nat,
    /// What those that are done contributed.
    pub below: Found,
    /// The file's own aliases.
    pub own: Seq<Seq<char>>,
}

impl FrameView {
    /// The frame of a file that has just been read.
    pub open spec fn opened(home: Seq<char>, path: Seq<char>, lines: Seq<Seq<char>>) -> FrameView {
        FrameView {
            path,
            targets: targets_of(home, lines),
            next: 0,
            below: Found::empty(),
            own: aliases_of(lines),
        }
    }

    /// The frame after its current target has contributed `found`.
    pub open spec fn absorb(self, found: Found) -> FrameView {
        FrameView { next: self.next + 1, below: self.below.followed_by(found), ..self }
    }

    /// What the file contributes once all its targets are done.
    pub open spec fn total(self) -> Found {
        Found {
            files: self.targets + self.below.files,
            aliases: self.below.aliases + self.own,
            cycles: self.below.cycles,
        }
    }
}

/// The files of the frames, outermost first.
pub open spec fn trail(stack: Seq<FrameView>) -> Seq<Seq<char>> {
    stack.map_values(|f: FrameView| f.path)
}

/// The state of a scan.
#[verifier::ext_equal]
pub struct Machine {
    /// The home directory under which paths are resolved.
    pub home: Seq<char>,
    /// The resolved path of the entry file.
    pub entry: Seq<char>,
    /// The files whose inclusions are being followed, outermost first.
    pub stack: Seq<FrameView>,
    /// What the entry file contributed, once the scan is over.
    pub result: Option<Found>,
}

impl Machine {
    /// The machine with another stack.
    pub open spec fn over(self, stack: Seq<FrameView>) -> Machine {
        Machine { stack, ..self }
    }

    /// The file whose frame is innermost has contributed `found`: the scan is
    /// over if there is no frame, else the innermost frame takes `found` in
    /// and goes on.
    pub open spec fn deliver(self, found: Found) -> Machine
        decreases self.stack.len(), 1nat, 0nat,
    {
        if self.stack.len() == 0 {
            Machine { result: Some(found), ..self }
        } else {
            self.over(self.stack.drop_last()).settle(self.stack.last().absorb(found))
        }
    }

    /// Goes on with the frame `f` above the stack: a frame that is done
    /// delivers its total; a target that is already on the trail is passed
    /// over as a cycle; any other target is waited for.
    pub open spec fn settle(self, f: FrameView) -> Machine
        decreases self.stack.len() + 1, 0nat, f.targets.len() - f.next,
    {
        if f.next >= f.targets.len() {
            self.deliver(f.total())
        } else if trail(self.stack).push(f.path).contains(f.targets[f.next as int]) {
            self.settle(f.absorb(Found::cycle(f.targets[f.next as int])))
        } else {
            self.over(self.stack.push(f))
        }
    }

    /// The file that the machine waits for; `None` once the scan is over.
    pub open spec fn pending(self) -> Option<Seq<char>> {
        if self.result is Some {
            None
        } else if self.stack.len() == 0 {
            Some(self.entry)
        } else {
            Some(self.stack.last().targets[self.stack.last().next as int])
        }
    }

    /// The machine after the file it waits for was read: `read` holds the
    /// file's lines, or `None` if it could not be read. A machine that waits
    /// for nothing stays as it is.
    pub open spec fn step(self, read: Option<Seq<Seq<char>>>) -> Machine {
        match self.pending() {
            None => self,
            Some(path) => match read {
                None => self.deliver(Found::empty()),
                Some(lines) => self.settle(FrameView::opened(self.home, path, lines)),
            },
        }
    }

    /// What the scan found, once it is over: the entry file first.
    pub open spec fn outcome(self) -> Option<Found> {
        match self.result {
            Some(found) => Some(
                Found {
                    files: seq![self.entry] + found.files,
                    aliases: found.aliases,
                    cycles: found.cycles,
                },
            ),
            None => None,
        }
    }

    /// The file of frame `i` as the frame below it, or the entry, names it.
    pub open spec fn path_at(self, i: int) -> Seq<char> {
        if i == 0 {
            self.entry
        } else {
            self.stack[i - 1].targets[self.stack[i - 1].next as int]
        }
    }

    /// Frame `i` waits for a target that is not on the trail up to it, and
    /// is the frame of the file that the frame below it waits for.
    pub open spec fn waits(self, i: int) -> bool {
        let f = self.stack[i];
        &&& f.next < f.targets.len()
        &&& !trail(self.stack.take(i + 1)).contains(f.targets[f.next as int])
        &&& f.path == self.path_at(i)
    }

    /// The machine's invariant: while the scan runs, every frame waits; when
    /// it is over, no frame is left.
    pub open spec fn wf(self) -> bool {
        match self.result {
            Some(_) => self.stack.len() == 0,
            None => forall|i: int| 0 <= i < self.stack.len() ==> #[trigger] self.waits(i),
        }
    }
}

/// The machine at the start of a scan of `entry` under `home`.
pub open spec fn start(home: Seq<char>, entry: Seq<char>) -> Machine {
    Machine { home, entry: resolved(home, entry), stack: Seq::empty(), result: None }
}

/// What reading `path` gives in `files`.
pub open spec fn read_in(files: Files, path: Seq<char>) -> Option<Seq<Seq<char>>> {
    if files.contains_key(path) {
        Some(files[path])
    } else {
        None
    }
}

/// The machine after `n` reads that `files` answers.
pub open spec fn run(files: Files, m: Machine, n: nat) -> Machine
    decreases n,
{
    if n == 0 {
        m
    } else {
        match m.pending() {
            Some(path) => run(files, m.step(read_in(files, path)), (n - 1) as nat),
            None => m,
        }
    }
}

/// Going on with a frame keeps the invariant, the home directory and the
/// entry.
pub proof fn lemma_settle_wf(m: Machine, f: FrameView)
    requires
        m.wf(),
        m.result is None,
        f.next <= f.targets.len(),
        f.path == m.over(m.stack.push(f)).path_at(m.stack.len() as int),
    ensures
        m.settle(f).wf(),
        m.settle(f).home == m.home,
        m.settle(f).entry == m.entry,
    decreases m.stack.len() + 1, 0nat, f.targets.len() - f.next,
{
    if f.next >= f.targets.len() {
        lemma_deliver_wf(m, f.total());
    } else if trail(m.stack).push(f.path).contains(f.targets[f.next as int]) {
        let g = f.absorb(Found::cycle(f.targets[f.next as int]));
        lemma_settle_wf(m, g);
    } else {
        let after = m.over(m.stack.push(f));
        assert forall|i: int| 0 <= i < after.stack.len() implies #[trigger] after.waits(i) by {
            if i < m.stack.len() {
                assert(m.waits(i));
                assert(after.stack.take(i + 1) == m.stack.take(i + 1));
            } else {
                assert(after.stack.take(i + 1) == m.stack.push(f));
                assert(trail(m.stack.push(f)) == trail(m.stack).push(f.path));
            }
        }
    }
}

/// Below the innermost frame of a running machine stands a running machine.
pub proof fn lemma_pop_wf(m: Machine)
    requires
        m.wf(),
        m.result is None,
        m.stack.len() > 0,
    ensures
        m.over(m.stack.drop_last()).wf(),
        m.waits(m.stack.len() - 1),
{
    let rest = m.over(m.stack.drop_last());
    assert(m.waits(m.stack.len() - 1));
    assert forall|i: int| 0 <= i < rest.stack.len() implies #[trigger] rest.waits(i) by {
        assert(m.waits(i));
        assert(rest.stack.take(i + 1) == m.stack.take(i + 1));
    }
}

/// Delivering a contribution keeps the invariant, the home directory and
/// the entry.
pub proof fn lemma_deliver_wf(m: Machine, found: Found)
    requires
        m.wf(),
        m.result is None,
    ensures
        m.deliver(found).wf(),
        m.deliver(found).home == m.home,
        m.deliver(found).entry == m.entry,
    decreases m.stack.len(), 1nat, 0nat,
{
    if m.stack.len() > 0 {
        let rest = m.over(m.stack.drop_last());
        let f = m.stack.last().absorb(found);
        lemma_pop_wf(m);
        assert(rest.stack.push(f).len() == m.stack.len());
        lemma_settle_wf(rest, f);
    }
}

/// A step keeps the invariant, the home directory and the entry.
pub proof fn lemma_step_wf(m: Machine, read: Option<Seq<Seq<char>>>)
    requires
        m.wf(),
    ensures
        m.step(read).wf(),
        m.step(read).home == m.home,
        m.step(read).entry == m.entry,
{
    match m.pending() {
        None => {},
        Some(path) => match read {
            None => {
                lemma_deliver_wf(m, Found::empty());
            },
            Some(lines) => {
                let f = FrameView::opened(m.home, path, lines);
                if m.stack.len() > 0 {
                    assert(m.waits(m.stack.len() - 1));
                }
                lemma_settle_wf(m, f);
            },
        },
    }
}

} // verus!
