//! Run-wide totals of a scan.

use vstd::prelude::*;

verus! {

/// Number of files with at least one match among a sequence of per-file
/// match counts.
pub open spec fn tally_files(counts: Seq<usize>) -> nat
    decreases counts.len(),
{
    if counts.len() == 0 {
        0
    } else {
        tally_files(counts.drop_last()) + if counts.last() > 0 {
            1nat
        } else {
            0nat
        }
    }
}

/// Sum of a sequence of per-file match counts.
pub open spec fn tally_matches(counts: Seq<usize>) -> nat
    decreases counts.len(),
{
    if counts.len() == 0 {
        0
    } else {
        tally_matches(counts.drop_last()) + counts.last() as nat
    }
}

/// Totals accumulated over a walk: how many files held at least one match,
/// and how many matches were counted in all.
///
/// The totals are always the tally of the per-file match counts folded in so
/// far. A file is counted at most once, however many of its lines matched.
pub struct ScanStats {
    files: usize,
    matches: usize,
    counts: Ghost<Seq<usize>>,
}

impl ScanStats {
    #[verifier::type_invariant]
    spec fn is_tally(self) -> bool {
        &&& self.files == tally_files(self.counts@)
        &&& self.matches == tally_matches(self.counts@)
    }

    /// The match counts folded in so far, one for each scanned file, in order.
    pub closed spec fn counts(self) -> Seq<usize> {
        self.counts@
    }

    /// Files that contributed at least one match.
    pub open spec fn files_with_matches(self) -> nat {
        tally_files(self.counts())
    }

    /// Matches counted over all files.
    pub open spec fn total_matches(self) -> nat {
        tally_matches(self.counts())
    }

    /// The totals before any file has been scanned.
    pub fn new() -> (s: ScanStats)
        ensures
            s.counts() == Seq::<usize>::empty(),
    {
        ScanStats { files: 0, matches: 0, counts: Ghost(Seq::empty()) }
    }

    /// The number of files that held at least one match. It never exceeds
    /// the number of files scanned.
    pub fn files(&self) -> (n: usize)
        ensures
            n == self.files_with_matches(),
            n <= self.counts().len(),
    {
        proof {
            use_type_invariant(self);
            lemma_tally_bounds(self.counts@);
        }
        self.files
    }

    /// The number of matches counted in all. It is never less than the
    /// number of files that held a match.
    pub fn matches(&self) -> (n: usize)
        ensures
            n == self.total_matches(),
            self.files_with_matches() <= n,
    {
        proof {
            use_type_invariant(self);
            lemma_tally_bounds(self.counts@);
        }
        self.matches
    }

    /// Whether one more file with `count` matches can be folded in without
    /// the total leaving the range of `usize`.
    pub fn has_room_for(&self, count: usize) -> (ok: bool)
        ensures
            ok == (self.total_matches() + count <= usize::MAX),
    {
        proof {
            use_type_invariant(self);
        }
        count <= usize::MAX - self.matches
    }

    /// Folds the match count of one scanned file into the totals.
    pub fn record(&mut self, count: usize)
        requires
            old(self).total_matches() + count <= usize::MAX,
        ensures
            final(self).counts() == old(self).counts().push(count),
            final(self).total_matches() == old(self).total_matches() + count,
            final(self).files_with_matches() == old(self).files_with_matches() + if count > 0 {
                1nat
            } else {
                0nat
            },
    {
        proof {
            use_type_invariant(&*self);
            lemma_tally_bounds(self.counts@);
            assert(self.counts@.push(count).drop_last() =~= self.counts@);
        }
        let files: usize = if count > 0 {
            self.files + 1
        } else {
            self.files
        };
        *self = ScanStats {
            files,
            matches: self.matches + count,
            counts: Ghost(self.counts@.push(count)),
        };
    }
}

/// The tally never counts more files than were scanned, and never more files
/// than matches.
pub proof fn lemma_tally_bounds(counts: Seq<usize>)
    ensures
        tally_files(counts) <= counts.len(),
        tally_files(counts) <= tally_matches(counts),
    decreases counts.len(),
{
    if counts.len() > 0 {
        lemma_tally_bounds(counts.drop_last());
    }
}

/// Folding further files in never lowers a total.
pub proof fn lemma_tally_monotone(counts: Seq<usize>, more: Seq<usize>)
    ensures
        tally_files(counts) <= tally_files(counts + more),
        tally_matches(counts) <= tally_matches(counts + more),
    decreases more.len(),
{
    if more.len() == 0 {
        assert(counts + more =~= counts);
    } else {
        lemma_tally_monotone(counts, more.drop_last());
        assert((counts + more).drop_last() =~= counts + more.drop_last());
    }
}

} // verus!
