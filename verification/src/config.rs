//! What a run was asked to do.

use vstd::prelude::*;
use crate::markers::keys_of;
use crate::markers::override_bytes;
use crate::markers::MarkerSet;

verus! {

/// How matches are reported. One mode holds for the whole run.
#[derive(Clone, Copy, Debug, PartialEq, Eq, Structural)]
pub enum OutputMode {
    /// One record for every match: path, line number and content.
    Default,
    /// One record for every file with a match: its path.
    FileOnly,
    /// One record for every match: path, content and the revision that last
    /// touched the line.
    Insertion,
    /// No record for a match; the totals are reported once the walk is over.
    Stats,
}

/// The mode that a combination of flags selects. Where several flags are
/// set, the file flag goes before the insertion flag, and that before the
/// stats flag.
pub open spec fn mode_of(file: bool, insertion: bool, stats: bool) -> OutputMode {
    if file {
        OutputMode::FileOnly
    } else if insertion {
        OutputMode::Insertion
    } else if stats {
        OutputMode::Stats
    } else {
        OutputMode::Default
    }
}

impl OutputMode {
    /// The mode selected by the command line's flags.
    pub fn from_flags(file: bool, insertion: bool, stats: bool) -> (mode: OutputMode)
        ensures
            mode == mode_of(file, insertion, stats),
    {
        if file {
            OutputMode::FileOnly
        } else if insertion {
            OutputMode::Insertion
        } else if stats {
            OutputMode::Stats
        } else {
            OutputMode::Default
        }
    }

    /// Whether the scan of a file ends at its first match.
    pub open spec fn first_match_only(self) -> bool {
        self == OutputMode::FileOnly
    }

    /// Whether the scan of a file ends at its first match.
    pub fn stops_at_first_match(self) -> (stops: bool)
        ensures
            stops == self.first_match_only(),
    {
        self == OutputMode::FileOnly
    }

    /// Whether the totals are reported at the end of the walk.
    pub fn reports_totals(self) -> (reports: bool)
        ensures
            reports == (self == OutputMode::Stats),
    {
        self == OutputMode::Stats
    }
}

/// The settings of a run: fixed before the walk and only read thereafter.
#[derive(Debug)]
pub struct ScanConfig {
    pub markers: MarkerSet,
    pub mode: OutputMode,
}

impl ScanConfig {
    /// The settings that the marker override and the flags stand for.
    pub fn new(setting: Option<&str>, file: bool, insertion: bool, stats: bool) -> (config:
        ScanConfig)
        ensures
            config.markers@ == keys_of(override_bytes(setting)),
            config.mode == mode_of(file, insertion, stats),
    {
        ScanConfig {
            markers: MarkerSet::from_override(setting),
            mode: OutputMode::from_flags(file, insertion, stats),
        }
    }
}

} // verus!
