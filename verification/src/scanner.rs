//! The scanner: the scan machine in executable form. The caller reads the
//! file that the scanner waits for and feeds it what reading gave.

use vstd::prelude::*;
use crate::extract::read_lines;
use crate::machine::{lemma_pop_wf, lemma_step_wf, start, trail, FrameView, Machine};
use crate::resolve::{home_directory, resolve_all, resolve_from, ScanError};
use crate::scan::Found;
use crate::text::texts;

verus! {

/// What reading one file gave.
pub enum FileRead {
    /// The lines of the file, in order, without their line ends.
    Lines(Vec<String>),
    /// The file could not be read.
    Unreadable,
}

impl View for FileRead {
    type V = Option<Seq<Seq<char>>>;

    open spec fn view(&self) -> Option<Seq<Seq<char>>> {
        match *self {
            FileRead::Lines(lines) => Some(texts(lines@)),
            FileRead::Unreadable => None,
        }
    }
}

/// What a scan found, each part in the order of the traversal.
pub struct ScanResult {
    /// The files that were referred to, the entry file first.
    pub files: Vec<String>,
    /// The alias definitions.
    pub aliases: Vec<String>,
    /// The inclusions that were not followed because they would have closed
    /// a cycle.
    pub cycles: Vec<String>,
}

impl View for ScanResult {
    type V = Found;

    open spec fn view(&self) -> Found {
        Found {
            files: texts(self.files@),
            aliases: texts(self.aliases@),
            cycles: texts(self.cycles@),
        }
    }
}

impl ScanResult {
    /// A result that holds nothing.
    pub fn empty() -> (found: ScanResult)
        ensures
            found@ == Found::empty(),
    {
        let found = ScanResult { files: Vec::new(), aliases: Vec::new(), cycles: Vec::new() };
        assert(found@ =~~= Found::empty());
        found
    }
}

/// A file that has been read and whose inclusions are being followed.
struct Frame {
    path: String,
    targets: Vec<String>,
    next: usize,
    below: ScanResult,
    own: Vec<String>,
}

impl View for Frame {
    type V = FrameView;

    closed spec fn view(&self) -> FrameView {
        FrameView {
            path: self.path@,
            targets: texts(self.targets@),
            next: self.next as nat,
            below: self.below@,
            own: texts(self.own@),
        }
    }
}

impl Frame {
    /// Takes in what the current target contributed.
    fn absorb(self, found: ScanResult) -> (out: Frame)
        requires
            self.next < self.targets.len(),
        ensures
            out@ == self@.absorb(found@),
    {
        let mut frame = self;
        let mut taken = found;
        frame.below.files.append(&mut taken.files);
        frame.below.aliases.append(&mut taken.aliases);
        frame.below.cycles.append(&mut taken.cycles);
        frame.next = frame.next + 1;
        assert(frame@ =~~= self@.absorb(found@));
        frame
    }

    /// What the file contributes once all its targets are done.
    fn total(self) -> (found: ScanResult)
        ensures
            found@ == self@.total(),
    {
        let Frame { path: _, targets, next: _, below, own } = self;
        let ScanResult { files, aliases, cycles } = below;
        let mut all_files = targets;
        let mut files = files;
        let mut all_aliases = aliases;
        let mut own = own;
        all_files.append(&mut files);
        all_aliases.append(&mut own);
        let found = ScanResult { files: all_files, aliases: all_aliases, cycles };
        assert(found@ =~~= self@.total());
        found
    }
}

/// The frames' views, outermost first.
spec fn frames(stack: Seq<Frame>) -> Seq<FrameView> {
    stack.map_values(|f: Frame| f@)
}

/// The state of a scan, changed in place. Its invariant is stated where it is
/// needed; `Scanner` holds a `Core` that keeps it at all times.
struct Core {
    home: String,
    entry: String,
    stack: Vec<Frame>,
    result: Option<ScanResult>,
}

impl View for Core {
    type V = Machine;

    closed spec fn view(&self) -> Machine {
        Machine {
            home: self.home@,
            entry: self.entry@,
            stack: frames(self.stack@),
            result: match self.result {
                Some(found) => Some(found@),
                None => None,
            },
        }
    }
}

impl Core {
    /// The invariant of the machine.
    spec fn wf(&self) -> bool {
        self@.wf()
    }

    /// The state at the start of a scan of `entry` under `home`.
    fn new(home: &str, entry: &str) -> (core: Core)
        ensures
            core@ == start(home@, entry@),
            core.wf(),
    {
        let core = Core {
            home: String::from_str(home),
            entry: resolve_from(home, entry),
            stack: Vec::new(),
            result: None,
        };
        assert(core@ =~~= start(home@, entry@));
        core
    }

    /// The file that a running scan waits for.
    fn awaited(&self) -> (path: &String)
        requires
            self.wf(),
            self.result is None,
        ensures
            self@.pending() == Some(path@),
    {
        if self.stack.len() == 0 {
            &self.entry
        } else {
            let top = &self.stack[self.stack.len() - 1];
            assert(self@.waits(self.stack.len() - 1));
            &top.targets[top.next]
        }
    }

    /// The file that the scan waits for; `None` once it is over.
    fn pending(&self) -> (path: Option<&String>)
        requires
            self.wf(),
        ensures
            match path {
                Some(p) => self@.pending() == Some(p@),
                None => self@.pending() is None,
            },
    {
        if self.result.is_some() {
            None
        } else {
            Some(self.awaited())
        }
    }

    /// Whether `target` is the file of a frame or `path`.
    fn on_trail(&self, path: &String, target: &String) -> (found: bool)
        ensures
            found == trail(self@.stack).push(path@).contains(target@),
    {
        let ghost all = trail(self@.stack).push(path@);
        if *target == *path {
            assert(all[self.stack.len() as int] == target@);
            return true;
        }
        let mut i: usize = 0;
        while i < self.stack.len()
            invariant
                i <= self.stack.len(),
                all == trail(self@.stack).push(path@),
                forall|k: int| 0 <= k < i ==> all[k] != target@,
            decreases self.stack.len() - i,
        {
            if self.stack[i].path == *target {
                assert(all[i as int] == target@);
                return true;
            }
            i += 1;
        }
        false
    }

    /// Goes on with `frame` above the stack.
    fn settle(&mut self, frame: Frame)
        requires
            old(self).wf(),
            old(self).result is None,
            frame.next <= frame.targets.len(),
        ensures
            final(self)@ == old(self)@.settle(frame@),
    {
        let mut f = frame;
        loop
            invariant
                self.result is None,
                self@.wf(),
                f.next <= f.targets.len(),
                self@.settle(f@) == old(self)@.settle(frame@),
            decreases self.stack.len(), f.targets.len() - f.next,
        {
            let ghost before = self@;
            if f.next >= f.targets.len() {
                let found = f.total();
                proof {
                    if self.stack.len() > 0 {
                        lemma_pop_wf(before);
                    }
                }
                match self.stack.pop() {
                    None => {
                        self.result = Some(found);
                        assert(self@ =~~= before.deliver(found@));
                        return ;
                    },
                    Some(top) => {
                        assert(top@ == before.stack.last());
                        assert(frames(self.stack@) =~= before.stack.drop_last());
                        f = top.absorb(found);
                    },
                }
            } else if self.on_trail(&f.path, &f.targets[f.next]) {
                let ghost g = f@;
                let target = f.targets[f.next].clone();
                f.below.cycles.push(target);
                f.next = f.next + 1;
                assert(f@ =~~= g.absorb(Found::cycle(g.targets[g.next as int])));
            } else {
                self.stack.push(f);
                assert(self@ =~~= before.over(before.stack.push(f@)));
                return ;
            }
        }
    }

    /// The file whose frame is innermost has contributed `found`.
    fn deliver(&mut self, found: ScanResult)
        requires
            old(self).wf(),
            old(self).result is None,
        ensures
            final(self)@ == old(self)@.deliver(found@),
    {
        let ghost before = self@;
        proof {
            if self.stack.len() > 0 {
                lemma_pop_wf(before);
            }
        }
        match self.stack.pop() {
            None => {
                self.result = Some(found);
                assert(self@ =~~= before.deliver(found@));
            },
            Some(top) => {
                assert(top@ == before.stack.last());
                assert(frames(self.stack@) =~= before.stack.drop_last());
                self.settle(top.absorb(found));
            },
        }
    }

    /// Takes what reading the pending file gave and moves on.
    fn feed(&mut self, read: FileRead)
        requires
            old(self).wf(),
        ensures
            final(self)@ == old(self)@.step(read@),
            final(self).wf(),
    {
        proof {
            lemma_step_wf(self@, read@);
        }
        if self.result.is_some() {
            return ;
        }
        let ghost before = self@;
        match read {
            FileRead::Unreadable => {
                self.deliver(ScanResult::empty());
            },
            FileRead::Lines(lines) => {
                let path = self.awaited().clone();
                let found = read_lines(&lines);
                let frame = Frame {
                    path,
                    targets: resolve_all(self.home.as_str(), &found.inclusions),
                    next: 0,
                    below: ScanResult::empty(),
                    own: found.aliases,
                };
                assert(frame@ =~~= FrameView::opened(
                    before.home,
                    before.pending().unwrap(),
                    texts(lines@),
                ));
                self.settle(frame);
            },
        }
    }

    /// What the scan found, the entry file first; `None` while the scan is
    /// not over.
    fn finish(self) -> (found: Option<ScanResult>)
        ensures
            match found {
                Some(r) => self@.outcome() == Some(r@),
                None => self@.outcome() is None,
            },
    {
        let Core { home: _, entry, stack: _, result } = self;
        match result {
            Some(r) => {
                let ScanResult { files, aliases, cycles } = r;
                let mut all: Vec<String> = Vec::new();
                let mut files = files;
                all.push(entry);
                all.append(&mut files);
                let found = ScanResult { files: all, aliases, cycles };
                assert(found@ =~~= self@.outcome().unwrap());
                Some(found)
            },
            None => None,
        }
    }
}

/// A scan in progress. It names the file it waits for, takes what reading
/// that file gave, and in the end hands out what was found.
pub struct Scanner {
    core: Core,
}

impl View for Scanner {
    type V = Machine;

    closed spec fn view(&self) -> Machine {
        self.core@
    }
}

impl Scanner {
    /// Every scanner is a machine that keeps its invariant.
    #[verifier::type_invariant]
    spec fn sound(self) -> bool {
        self.core@.wf()
    }

    /// A scanner at the start of a scan of `entry`, with paths resolved under
    /// the home directory `home`.
    pub fn new(home: &str, entry: &str) -> (scanner: Scanner)
        ensures
            scanner@ == start(home@, entry@),
    {
        Scanner { core: Core::new(home, entry) }
    }

    /// A scanner at the start of a scan of `entry`, with paths resolved under
    /// the current user's home directory; an error where that is not known.
    pub fn begin(entry: &str) -> (out: Result<Scanner, ScanError>)
        ensures
            match out {
                Ok(scanner) => exists|home: Seq<char>| scanner@ == #[trigger] start(home, entry@),
                Err(e) => e == ScanError::HomeDirectoryUnavailable,
            },
    {
        let home = home_directory();
        let out = Scanner::begin_with(&home, entry);
        proof {
            if home is Some {
                assert(out is Ok && (out->Ok_0)@ == start((home->Some_0)@, entry@));
            }
        }
        out
    }

    /// A scanner at the start of a scan of `entry`, given the answer to the
    /// question for the home directory: with one, the scanner resolves paths
    /// under it; without one, the scan cannot be made.
    pub fn begin_with(home: &Option<String>, entry: &str) -> (out: Result<Scanner, ScanError>)
        ensures
            match *home {
                Some(h) => out is Ok && (out->Ok_0)@ == start(h@, entry@),
                None => out == Err::<Scanner, ScanError>(ScanError::HomeDirectoryUnavailable),
            },
    {
        match home {
            Some(h) => Ok(Scanner::new(h.as_str(), entry)),
            None => Err(ScanError::HomeDirectoryUnavailable),
        }
    }

    /// The file that the scanner waits for; `None` once the scan is over.
    pub fn pending(&self) -> (path: Option<&String>)
        ensures
            self@.wf(),
            match path {
                Some(p) => self@.pending() == Some(p@),
                None => self@.pending() is None,
            },
    {
        proof {
            use_type_invariant(self);
        }
        self.core.pending()
    }

    /// Takes what reading the pending file gave and moves on to the next
    /// file, or to the end of the scan. A scanner that waits for nothing
    /// stays as it is.
    pub fn feed(self, read: FileRead) -> (next: Scanner)
        ensures
            next@ == self@.step(read@),
            next@.wf(),
    {
        proof {
            use_type_invariant(&self);
        }
        let mut core = self.core;
        core.feed(read);
        Scanner { core }
    }

    /// Whether the scan is over.
    pub fn is_done(&self) -> (done: bool)
        ensures
            done == self@.result is Some,
    {
        self.core.result.is_some()
    }

    /// What the scan found, the entry file first; `None` while the scan is
    /// not over.
    pub fn finish(self) -> (found: Option<ScanResult>)
        ensures
            match found {
                Some(r) => self@.outcome() == Some(r@) && r.files@.len() > 0 && r.files@[0]@
                    == self@.entry,
                None => self@.outcome() is None,
            },
    {
        let found = self.core.finish();
        proof {
            if found is Some {
                assert(found.unwrap()@.files == self@.outcome().unwrap().files);
                assert(found.unwrap()@.files[0] == self@.entry);
            }
        }
        found
    }
}

} // verus!
