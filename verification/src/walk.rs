//! The directory walk, as a machine that is told what happened and answers
//! with what to do next.
//!
//! The walk itself touches no file system and no repository. Its driver lists
//! directories, classifies entries and scans files on its behalf, and reports
//! each result back as a [`WalkEvent`]. The machine keeps the directories that
//! are open, visits their entries depth first and in listing order, folds the
//! match counts into the run's totals and remembers whether anything failed.

use vstd::prelude::*;
use crate::classify::DirAction;
use crate::classify::EntryInfo;
use crate::stats::tally_matches;
use crate::stats::ScanStats;

verus! {

/// What the driver reports back to the walk.
#[derive(Debug)]
pub enum WalkEvent {
    /// The children of the directory asked for; `None` stands for a child
    /// that could not be read.
    Listed(Vec<Option<EntryInfo>>),
    /// The directory asked for could not be enumerated.
    ListFault,
    /// The action for the entry asked about.
    Classified(DirAction),
    /// The match count of the file asked for.
    Scanned(usize),
    /// The file asked for could not be read.
    ScanFault,
}

/// What the walk asks of its driver next.
#[derive(Debug)]
pub enum WalkAction {
    /// Enumerate this directory and answer with `Listed` or `ListFault`.
    List(String),
    /// Classify this entry and answer with `Classified`.
    Classify(EntryInfo),
    /// Scan this file and answer with `Scanned` or `ScanFault`.
    Scan(String),
    /// Nothing is left to visit.
    Finish,
}

/// The walk met at least one fault.
#[derive(Clone, Copy, Debug, PartialEq, Eq, Structural)]
pub struct WalkFailure;

/// The kind of answer the walk is waiting for.
#[derive(Clone, Copy, Debug, PartialEq, Eq, Structural)]
pub enum Awaiting {
    Listing,
    Classification,
    Scan,
    Nothing,
}

/// The state of a walk, as contracts see it.
pub struct WalkState {
    /// The entries still to visit in each directory that is open, outermost
    /// directory first, each in listing order.
    pub open_dirs: Seq<Seq<Option<EntryInfo>>>,
    /// The answer the walk is waiting for.
    pub awaiting: Awaiting,
    /// Whether any fault has been met so far.
    pub failed: bool,
    /// The match counts of the files scanned so far, in order.
    pub counts: Seq<usize>,
}

/// Moves on to the next entry to classify: closes exhausted directories,
/// passes over unreadable entries (which mark the walk as failed), and
/// finishes when no directory is left open.
pub open spec fn advance_spec(dirs: Seq<Seq<Option<EntryInfo>>>, failed: bool) -> (
    Seq<Seq<Option<EntryInfo>>>,
    bool,
    WalkAction,
)
    decreases
            dirs.len(),
            (if dirs.len() > 0 {
                dirs.last().len()
            } else {
                0
            }),
{
    if dirs.len() == 0 {
        (dirs, failed, WalkAction::Finish)
    } else {
        let top = dirs.last();
        if top.len() == 0 {
            advance_spec(dirs.drop_last(), failed)
        } else {
            let rest = dirs.drop_last().push(top.skip(1));
            match top[0] {
                None => advance_spec(rest, true),
                Some(info) => (rest, failed, WalkAction::Classify(info)),
            }
        }
    }
}

/// The state and request after moving on from `state`.
pub open spec fn resume_spec(state: WalkState) -> (WalkState, WalkAction) {
    let (dirs, failed, action) = advance_spec(state.open_dirs, state.failed);
    (
        WalkState {
            open_dirs: dirs,
            awaiting: if action is Finish {
                Awaiting::Nothing
            } else {
                Awaiting::Classification
            },
            failed,
            counts: state.counts,
        },
        action,
    )
}

/// `state` with the failure flag raised.
pub open spec fn with_failure(state: WalkState) -> WalkState {
    WalkState { failed: true, ..state }
}

/// The walk's transition: the state after `event`, and what is asked next.
///
/// A listing opens a directory, a count is folded into the totals, and an
/// action is followed: into a directory, on to a scan, or past the entry. A
/// fault reported in turn, be it a failed listing, classification or scan,
/// marks the walk as failed, and the walk moves on to the next entry. So does
/// an event that does not answer what the walk was waiting for. Once the
/// walk has finished, every event leaves it as it is.
pub open spec fn step_spec(state: WalkState, event: WalkEvent) -> (WalkState, WalkAction) {
    match (state.awaiting, event) {
        (Awaiting::Nothing, _) => (state, WalkAction::Finish),
        (Awaiting::Listing, WalkEvent::Listed(entries)) => resume_spec(
            WalkState { open_dirs: state.open_dirs.push(entries@), ..state },
        ),
        (Awaiting::Classification, WalkEvent::Classified(DirAction::Enter(path))) => (
            WalkState { awaiting: Awaiting::Listing, ..state },
            WalkAction::List(path),
        ),
        (Awaiting::Classification, WalkEvent::Classified(DirAction::Check(path))) => (
            WalkState { awaiting: Awaiting::Scan, ..state },
            WalkAction::Scan(path),
        ),
        (Awaiting::Classification, WalkEvent::Classified(DirAction::Skip)) => resume_spec(state),
        (Awaiting::Scan, WalkEvent::Scanned(count)) => resume_spec(
            WalkState { counts: state.counts.push(count), ..state },
        ),
        _ => resume_spec(with_failure(state)),
    }
}

/// A walk in progress.
pub struct Walker {
    /// Open directories, outermost first; each holds its remaining entries
    /// in reverse, so that the next one is taken from the end.
    frames: Vec<Vec<Option<EntryInfo>>>,
    awaiting: Awaiting,
    failed: bool,
    stats: ScanStats,
}

impl View for Walker {
    type V = WalkState;

    closed spec fn view(&self) -> WalkState {
        WalkState {
            open_dirs: Seq::new(self.frames@.len(), |i: int| self.frames@[i]@.reverse()),
            awaiting: self.awaiting,
            failed: self.failed,
            counts: self.stats.counts(),
        }
    }
}

/// The entries of `entries`, last first.
fn reversed(entries: Vec<Option<EntryInfo>>) -> (out: Vec<Option<EntryInfo>>)
    ensures
        out@ == entries@.reverse(),
{
    let ghost orig = entries@;
    let mut source = entries;
    let mut out: Vec<Option<EntryInfo>> = Vec::new();
    while source.len() > 0
        invariant
            source@ == orig.take(source@.len() as int),
            source@.len() <= orig.len(),
            out@ == orig.skip(source@.len() as int).reverse(),
        decreases source@.len(),
    {
        let ghost k = source@.len() as int;
        let entry = source.pop().unwrap();
        out.push(entry);
        proof {
            assert(source@ =~= orig.take(k - 1));
            assert(out@ =~= orig.skip(k - 1).reverse());
        }
    }
    proof {
        assert(orig.skip(0) =~= orig);
    }
    out
}

impl Walker {
    /// Starts a walk at `root`: nothing is open yet, and the first request is
    /// to list the root.
    pub fn new(root: String) -> (started: (Walker, WalkAction))
        ensures
            started.0@ == (WalkState {
                open_dirs: Seq::empty(),
                awaiting: Awaiting::Listing,
                failed: false,
                counts: Seq::empty(),
            }),
            started.1 == WalkAction::List(root),
    {
        let walker = Walker {
            frames: Vec::new(),
            awaiting: Awaiting::Listing,
            failed: false,
            stats: ScanStats::new(),
        };
        proof {
            assert(walker@.open_dirs =~= Seq::empty());
        }
        (walker, WalkAction::List(root))
    }

    /// Whether any fault has been met so far.
    pub fn failed(&self) -> (b: bool)
        ensures
            b == self@.failed,
    {
        self.failed
    }

    /// How the walk has gone so far: an error as soon as any entry faulted,
    /// whatever else was scanned. The error says that, not what faulted.
    pub fn outcome(&self) -> (result: Result<(), WalkFailure>)
        ensures
            result is Err <==> self@.failed,
    {
        if self.failed {
            Err(WalkFailure)
        } else {
            Ok(())
        }
    }

    /// Whether the walk has nothing left to visit.
    pub fn finished(&self) -> (b: bool)
        ensures
            b == (self@.awaiting == Awaiting::Nothing),
    {
        self.awaiting == Awaiting::Nothing
    }

    /// The totals of the files scanned so far.
    pub fn stats(&self) -> (stats: &ScanStats)
        ensures
            stats.counts() == self@.counts,
    {
        &self.stats
    }

    /// Whether `event` can be taken without a total leaving the range of
    /// `usize`.
    pub fn accepts(&self, event: &WalkEvent) -> (ok: bool)
        ensures
            ok == (*event matches WalkEvent::Scanned(count) ==> tally_matches(self@.counts) + count
                <= usize::MAX),
    {
        match event {
            WalkEvent::Scanned(count) => self.stats.has_room_for(*count),
            _ => true,
        }
    }

    fn resume(&mut self) -> (action: WalkAction)
        ensures
            (final(self)@, action) == resume_spec(old(self)@),
    {
        let ghost start = self@;
        loop
            invariant
                start == old(self)@,
                self@.counts == start.counts,
                advance_spec(self@.open_dirs, self@.failed) == advance_spec(
                    start.open_dirs,
                    start.failed,
                ),
            decreases
                    self.frames@.len(),
                    (if self.frames@.len() > 0 {
                        self.frames@.last()@.len()
                    } else {
                        0
                    }),
        {
            let ghost dirs = self@.open_dirs;
            let ghost frames = self.frames@;
            let popped = self.frames.pop();
            match popped {
                None => {
                    self.awaiting = Awaiting::Nothing;
                    proof {
                        assert(self@.open_dirs =~= dirs);
                    }
                    return WalkAction::Finish;
                },
                Some(frame) => {
                    let mut top = frame;
                    let ghost stored = top@;
                    proof {
                        assert(dirs.last() == stored.reverse());
                        assert(self@.open_dirs =~= dirs.drop_last());
                    }
                    match top.pop() {
                        None => {},
                        Some(entry) => {
                            proof {
                                assert(top@.reverse() =~= stored.reverse().skip(1));
                                assert(entry == stored.reverse()[0]);
                            }
                            self.frames.push(top);
                            proof {
                                assert(self@.open_dirs =~= dirs.drop_last().push(
                                    dirs.last().skip(1),
                                ));
                            }
                            match entry {
                                None => {
                                    self.failed = true;
                                },
                                Some(info) => {
                                    self.awaiting = Awaiting::Classification;
                                    return WalkAction::Classify(info);
                                },
                            }
                        },
                    }
                },
            }
        }
    }

    /// Takes the driver's answer and says what to do next.
    pub fn step(&mut self, event: WalkEvent) -> (action: WalkAction)
        requires
            event matches WalkEvent::Scanned(count) ==> tally_matches(old(self)@.counts) + count
                <= usize::MAX,
        ensures
            (final(self)@, action) == step_spec(old(self)@, event),
    {
        match self.awaiting {
            Awaiting::Nothing => WalkAction::Finish,
            Awaiting::Listing => match event {
                WalkEvent::Listed(entries) => {
                    let ghost dirs = self@.open_dirs;
                    let frame = reversed(entries);
                    self.frames.push(frame);
                    proof {
                        assert(entries@.reverse().reverse() =~= entries@);
                        assert(self@.open_dirs =~= dirs.push(entries@));
                    }
                    self.resume()
                },
                _ => {
                    self.failed = true;
                    self.resume()
                },
            },
            Awaiting::Classification => match event {
                WalkEvent::Classified(DirAction::Enter(path)) => {
                    self.awaiting = Awaiting::Listing;
                    WalkAction::List(path)
                },
                WalkEvent::Classified(DirAction::Check(path)) => {
                    self.awaiting = Awaiting::Scan;
                    WalkAction::Scan(path)
                },
                WalkEvent::Classified(DirAction::Skip) => self.resume(),
                _ => {
                    self.failed = true;
                    self.resume()
                },
            },
            Awaiting::Scan => match event {
                WalkEvent::Scanned(count) => {
                    self.stats.record(count);
                    self.resume()
                },
                _ => {
                    self.failed = true;
                    self.resume()
                },
            },
        }
    }
}

/// Moving on never clears a failure, asks only for a classification or
/// finishes, and leaves nothing open once it finishes.
pub proof fn lemma_advance(dirs: Seq<Seq<Option<EntryInfo>>>, failed: bool)
    ensures
        failed ==> advance_spec(dirs, failed).1,
        advance_spec(dirs, failed).2 is Classify || advance_spec(dirs, failed).2 is Finish,
        advance_spec(dirs, failed).2 is Finish ==> advance_spec(dirs, failed).0.len() == 0,
    decreases
            dirs.len(),
            (if dirs.len() > 0 {
                dirs.last().len()
            } else {
                0
            }),
{
    if dirs.len() > 0 {
        let top = dirs.last();
        if top.len() == 0 {
            lemma_advance(dirs.drop_last(), failed);
        } else if top[0] is None {
            lemma_advance(dirs.drop_last().push(top.skip(1)), true);
        }
    }
}

/// A failure, once met, stays: no event clears it.
pub proof fn lemma_failure_is_kept(state: WalkState, event: WalkEvent)
    requires
        state.failed,
    ensures
        step_spec(state, event).0.failed,
{
    lemma_advance(state.open_dirs, true);
    if let WalkEvent::Listed(entries) = event {
        lemma_advance(state.open_dirs.push(entries@), true);
    }
}

/// The scanned files only grow in number, and by one file at a time: a step
/// either leaves the counts as they were or appends the count of the file
/// that was being scanned.
pub proof fn lemma_counts_grow(state: WalkState, event: WalkEvent)
    ensures
        step_spec(state, event).0.counts == state.counts || (event matches WalkEvent::Scanned(
            count,
        ) && state.awaiting == Awaiting::Scan && step_spec(state, event).0.counts
            == state.counts.push(count)),
{
}

/// A file is scanned only on the word of the classifier: the walk asks for a
/// scan exactly in answer to a `Check` for that very path.
pub proof fn lemma_scan_follows_check(state: WalkState, event: WalkEvent)
    ensures
        step_spec(state, event).1 matches WalkAction::Scan(path) ==> state.awaiting
            == Awaiting::Classification && event == WalkEvent::Classified(DirAction::Check(path)),
        event matches WalkEvent::Classified(DirAction::Check(path)) ==> (state.awaiting
            == Awaiting::Classification ==> step_spec(state, event).1 == WalkAction::Scan(path)),
{
    lemma_advance(state.open_dirs, state.failed);
    lemma_advance(state.open_dirs, true);
    if let WalkEvent::Listed(entries) = event {
        lemma_advance(state.open_dirs.push(entries@), state.failed);
    }
}

/// A file that was scanned raises no failure, whatever its match count: a
/// file without matches, or one that turned out not to be text, is a success
/// like any other. The walk goes on as it would after an entry passed over.
pub proof fn lemma_scanned_is_no_fault(state: WalkState, count: usize)
    requires
        state.awaiting == Awaiting::Scan,
    ensures
        step_spec(state, WalkEvent::Scanned(count)).0.failed == resume_spec(state).0.failed,
        step_spec(state, WalkEvent::Scanned(count)).0.open_dirs == resume_spec(state).0.open_dirs,
        step_spec(state, WalkEvent::Scanned(count)).1 == resume_spec(state).1,
{
}

/// What the walk waits for is the answer to what it asked.
pub proof fn lemma_awaiting_follows_action(state: WalkState, event: WalkEvent)
    ensures
        step_spec(state, event).0.awaiting == (match step_spec(state, event).1 {
            WalkAction::List(_) => Awaiting::Listing,
            WalkAction::Classify(_) => Awaiting::Classification,
            WalkAction::Scan(_) => Awaiting::Scan,
            WalkAction::Finish => Awaiting::Nothing,
        }),
{
    lemma_advance(state.open_dirs, state.failed);
    lemma_advance(state.open_dirs, true);
    if let WalkEvent::Listed(entries) = event {
        lemma_advance(state.open_dirs.push(entries@), state.failed);
    }
}

/// The walk finishes only when every open directory has been exhausted, and
/// from then on stays finished.
pub proof fn lemma_finish_is_final(state: WalkState, event: WalkEvent)
    ensures
        step_spec(state, event).1 is Finish ==> step_spec(state, event).0.awaiting
            == Awaiting::Nothing,
        state.awaiting == Awaiting::Nothing ==> step_spec(state, event) == (
            state,
            WalkAction::Finish,
        ),
        step_spec(state, event).1 is Finish && state.awaiting != Awaiting::Nothing ==> step_spec(
            state,
            event,
        ).0.open_dirs.len() == 0,
{
    lemma_advance(state.open_dirs, state.failed);
    lemma_advance(state.open_dirs, true);
    if let WalkEvent::Listed(entries) = event {
        lemma_advance(state.open_dirs.push(entries@), state.failed);
    }
}

} // verus!
