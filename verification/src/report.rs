//! The records a run emits, one line each, as bytes without a terminator.

use vstd::prelude::*;
use vstd::slice::slice_to_vec;
use vstd::string::StringSliceAdditionalSpecFns;
use vstd::utf8::encode_utf8;
use vstd::utf8::valid_utf8;
use crate::config::OutputMode;
use crate::config::ScanConfig;
use crate::repo::lies_outside;
use crate::repo::revision_result;
use crate::repo::AttributionFault;
use crate::repo::FileBlame;
use crate::repo::RepositoryContext;
use crate::markers::any_key_in;
use crate::scan::lemma_first_match_only;
use crate::scan::lemma_single_match;
use crate::scan::lemma_undecodable_counts_nothing;
use crate::scan::match_count;
use crate::scan::match_views;
use crate::scan::record_of;
use crate::scan::scan_content;
use crate::scan::scan_spec;
use crate::scan::FileMatch;
use crate::scan::MatchView;
use crate::stats::ScanStats;
use crate::text::byte_strings;
use crate::text::decimal;
use crate::text::decimal_digits;
use crate::text::lines_of;
use crate::text::without_newline;

verus! {

pub const COLON: u8 = 58;

pub const SPACE: u8 = 32;

pub const AT_SIGN: u8 = 64;

/// The record of a match in the default mode: `<path>:<line number> <content>`.
pub open spec fn default_record(path: Seq<u8>, found: MatchView) -> Seq<u8> {
    path + seq![COLON] + decimal(found.line_number) + seq![SPACE] + found.content
}

/// The record of a match with its attribution: `<path>:<content> @ <revision>`.
pub open spec fn insertion_record(path: Seq<u8>, content: Seq<u8>, revision: Seq<u8>) -> Seq<u8> {
    path + seq![COLON] + content + seq![SPACE, AT_SIGN, SPACE] + revision
}

/// The record of the totals: `<files with matches> <matches>`.
pub open spec fn totals_record(files: nat, matches: nat) -> Seq<u8> {
    decimal(files) + seq![SPACE] + decimal(matches)
}

/// The record of a run that failed: `error: <message>`.
pub open spec fn failure_record(message: Seq<u8>) -> Seq<u8> {
    "error: ".spec_bytes() + message
}

/// The record of a file that could not be handled: `<path>:<message>`.
pub open spec fn fault_record(path: Seq<u8>, message: Seq<u8>) -> Seq<u8> {
    path + seq![COLON] + message
}

/// The records that close a run: the totals where the mode asks for them,
/// then the failure where anything failed.
pub open spec fn closing_records_spec(mode: OutputMode, files: nat, matches: nat, failed: bool) -> Seq<
    Seq<u8>,
> {
    let totals = if mode == OutputMode::Stats {
        seq![totals_record(files, matches)]
    } else {
        Seq::empty()
    };
    let failure = if failed {
        seq![failure_record("Some errors happened".spec_bytes())]
    } else {
        Seq::empty()
    };
    totals + failure
}

/// The records that the matches of one file give in a mode that needs no
/// attribution: one per match in the default mode, the path once per match
/// where only files are reported, and none in the other modes.
pub open spec fn plain_records_spec(path: Seq<u8>, records: Seq<MatchView>, mode: OutputMode) -> Seq<
    Seq<u8>,
> {
    match mode {
        OutputMode::Default => Seq::new(records.len(), |i: int| default_record(path, records[i])),
        OutputMode::FileOnly => Seq::new(records.len(), |i: int| path),
        OutputMode::Insertion => Seq::empty(),
        OutputMode::Stats => Seq::empty(),
    }
}

/// What becomes of a match once its attribution is known: its record with
/// that very revision, or the fault that kept the revision from being found.
pub open spec fn insertion_outcome(
    path: Seq<u8>,
    found: MatchView,
    attribution: Result<Seq<u8>, AttributionFault>,
) -> Result<Seq<u8>, AttributionFault> {
    match attribution {
        Ok(revision) => Ok(insertion_record(path, found.content, revision)),
        Err(fault) => Err(fault),
    }
}

/// `outcome` is what becomes of `found` under some attribution.
pub open spec fn is_insertion_outcome(
    path: Seq<u8>,
    found: MatchView,
    outcome: Result<Seq<u8>, AttributionFault>,
) -> bool {
    exists|attribution: Result<Seq<u8>, AttributionFault>|
        outcome == #[trigger] insertion_outcome(path, found, attribution)
}

/// An attributed line, as contracts see it.
pub open spec fn outcome_view(outcome: Result<Vec<u8>, AttributionFault>) -> Result<
    Seq<u8>,
    AttributionFault,
> {
    match outcome {
        Ok(line) => Ok(line@),
        Err(fault) => Err(fault),
    }
}

/// An attribution, as contracts see it.
pub open spec fn attribution_view(attribution: Result<String, AttributionFault>) -> Result<
    Seq<u8>,
    AttributionFault,
> {
    match attribution {
        Ok(revision) => Ok(encode_utf8(revision@)),
        Err(fault) => Err(fault),
    }
}

fn append(line: &mut Vec<u8>, more: &[u8])
    ensures
        final(line)@ == old(line)@ + more@,
{
    let n: usize = more.len();
    let mut i: usize = 0;
    while i < n
        invariant
            n == more@.len(),
            i <= n,
            line@ == old(line)@ + more@.take(i as int),
        decreases n - i,
    {
        line.push(more[i]);
        proof {
            assert(more@.take(i + 1) =~= more@.take(i as int).push(more@[i as int]));
        }
        i = i + 1;
    }
    proof {
        assert(more@.take(n as int) =~= more@);
    }
}

/// The record of `found` in the default mode.
pub fn render_default(path: &str, found: &FileMatch) -> (line: Vec<u8>)
    ensures
        line@ == default_record(path.spec_bytes(), found@),
{
    let mut line = slice_to_vec(path.as_bytes());
    line.push(COLON);
    let digits = decimal_digits(found.line_number);
    append(&mut line, digits.as_slice());
    line.push(SPACE);
    append(&mut line, found.content.as_slice());
    line
}

/// The record of a file that holds a match, where only files are reported.
pub fn render_file_only(path: &str) -> (line: Vec<u8>)
    ensures
        line@ == path.spec_bytes(),
{
    slice_to_vec(path.as_bytes())
}

/// The record of a matching line with the revision that last touched it.
pub fn render_insertion(path: &str, content: &[u8], revision: &str) -> (line: Vec<u8>)
    ensures
        line@ == insertion_record(path.spec_bytes(), content@, revision.spec_bytes()),
{
    let mut line = slice_to_vec(path.as_bytes());
    line.push(COLON);
    append(&mut line, content);
    line.push(SPACE);
    line.push(AT_SIGN);
    line.push(SPACE);
    append(&mut line, revision.as_bytes());
    proof {
        assert(line@ =~= insertion_record(path.spec_bytes(), content@, revision.spec_bytes()));
    }
    line
}

/// The record of the totals of a run.
pub fn render_totals(stats: &ScanStats) -> (line: Vec<u8>)
    ensures
        line@ == totals_record(stats.files_with_matches(), stats.total_matches()),
{
    let mut line = decimal_digits(stats.files());
    line.push(SPACE);
    let digits = decimal_digits(stats.matches());
    append(&mut line, digits.as_slice());
    line
}

/// The message of a run in which anything failed. It says no more than that:
/// what failed is reported where it happens.
pub fn aggregate_failure_message() -> (message: &'static str)
    ensures
        message@ == "Some errors happened"@,
{
    "Some errors happened"
}

/// The record of a run that failed with `message`.
pub fn render_failure(message: &str) -> (line: Vec<u8>)
    ensures
        line@ == failure_record(message.spec_bytes()),
{
    let mut line = slice_to_vec("error: ".as_bytes());
    append(&mut line, message.as_bytes());
    line
}

/// The record of a file at `path` that could not be handled.
pub fn render_fault(path: &str, message: &str) -> (line: Vec<u8>)
    ensures
        line@ == fault_record(path.spec_bytes(), message.spec_bytes()),
{
    let mut line = slice_to_vec(path.as_bytes());
    line.push(COLON);
    append(&mut line, message.as_bytes());
    line
}

/// The records that close a run.
pub fn closing_records(mode: OutputMode, stats: &ScanStats, failed: bool) -> (lines: Vec<Vec<u8>>)
    ensures
        byte_strings(lines@) == closing_records_spec(
            mode,
            stats.files_with_matches(),
            stats.total_matches(),
            failed,
        ),
{
    let mut lines: Vec<Vec<u8>> = Vec::new();
    if mode.reports_totals() {
        lines.push(render_totals(stats));
    }
    if failed {
        lines.push(render_failure(aggregate_failure_message()));
    }
    proof {
        assert(byte_strings(lines@) =~= closing_records_spec(
            mode,
            stats.files_with_matches(),
            stats.total_matches(),
            failed,
        ));
    }
    lines
}

/// The records of one file's matches in a mode that needs no attribution.
pub fn plain_records(path: &str, matches: &Vec<FileMatch>, mode: OutputMode) -> (lines: Vec<
    Vec<u8>,
>)
    ensures
        byte_strings(lines@) == plain_records_spec(path.spec_bytes(), match_views(matches@), mode),
{
    let ghost expected = plain_records_spec(path.spec_bytes(), match_views(matches@), mode);
    let mut lines: Vec<Vec<u8>> = Vec::new();
    if mode == OutputMode::Default || mode == OutputMode::FileOnly {
        let n: usize = matches.len();
        let mut i: usize = 0;
        while i < n
            invariant
                n == matches@.len(),
                mode == OutputMode::Default || mode == OutputMode::FileOnly,
                expected == plain_records_spec(path.spec_bytes(), match_views(matches@), mode),
                i <= n,
                lines@.len() == i,
                forall|j: int| 0 <= j < i ==> (#[trigger] lines@[j])@ == expected[j],
            decreases n - i,
        {
            let line = if mode == OutputMode::Default {
                render_default(path, &matches[i])
            } else {
                render_file_only(path)
            };
            lines.push(line);
            i = i + 1;
        }
    }
    proof {
        assert(byte_strings(lines@) =~= expected);
    }
    lines
}

/// What becomes of `found` once its attribution is known: its record holds
/// exactly the revision handed in; a fault is handed on as it is.
pub fn insertion_line(path: &str, found: &FileMatch, attribution: Result<
    String,
    AttributionFault,
>) -> (outcome: Result<Vec<u8>, AttributionFault>)
    ensures
        outcome_view(outcome) == insertion_outcome(
            path.spec_bytes(),
            found@,
            attribution_view(attribution),
        ),
{
    match attribution {
        Ok(revision) => Ok(render_insertion(path, found.content.as_slice(), revision.as_str())),
        Err(fault) => Err(fault),
    }
}

/// A revision as bytes, or the fault in its place.
pub open spec fn revision_bytes(revision: Result<Seq<char>, AttributionFault>) -> Result<
    Seq<u8>,
    AttributionFault,
> {
    match revision {
        Ok(text) => Ok(encode_utf8(text)),
        Err(fault) => Err(fault),
    }
}

/// What becomes of `found` under a blame that holds `revisions`: its record
/// with the revision of its own line, or the fault that the blame covers no
/// such line.
pub open spec fn blamed_outcome(path: Seq<u8>, found: MatchView, revisions: Map<nat, Seq<char>>) -> Result<
    Seq<u8>,
    AttributionFault,
> {
    insertion_outcome(path, found, revision_bytes(revision_result(revisions, found.line_number)))
}

/// The records of one file's matches under the blame of that file, one
/// outcome for each match and in the same order. Each record names the
/// revision that the blame holds for the number of that very line; a line
/// that the blame does not cover gives the fault in place of a record, and
/// the lines after it are still handled.
pub fn blamed_records(blame: &FileBlame<'_>, path: &str, matches: &Vec<FileMatch>) -> (lines: Vec<
    Result<Vec<u8>, AttributionFault>,
>)
    ensures
        lines@.len() == matches@.len(),
        forall|i: int|
            0 <= i < lines@.len() ==> outcome_view(#[trigger] lines@[i]) == blamed_outcome(
                path.spec_bytes(),
                matches@[i]@,
                blame.revisions(),
            ),
{
    let mut lines: Vec<Result<Vec<u8>, AttributionFault>> = Vec::new();
    let n: usize = matches.len();
    let mut i: usize = 0;
    while i < n
        invariant
            n == matches@.len(),
            i <= n,
            lines@.len() == i,
            forall|j: int|
                0 <= j < i ==> outcome_view(#[trigger] lines@[j]) == blamed_outcome(
                    path.spec_bytes(),
                    matches@[j]@,
                    blame.revisions(),
                ),
        decreases n - i,
    {
        let found = &matches[i];
        let outcome = insertion_line(path, found, blame.revision(found.line_number));
        lines.push(outcome);
        i = i + 1;
    }
    lines
}

/// The record of a matching line under a blame names the revision that the
/// blame holds for the number of that line, and of no other: where the blame
/// covers the line, the record is the path, the line's content and that
/// revision; where it does not, there is no record.
pub proof fn lemma_blamed_record_names_its_line(
    path: Seq<u8>,
    found: MatchView,
    revisions: Map<nat, Seq<char>>,
)
    ensures
        revisions.contains_key(found.line_number) ==> blamed_outcome(path, found, revisions) == Ok::<
            Seq<u8>,
            AttributionFault,
        >(insertion_record(path, found.content, encode_utf8(revisions[found.line_number]))),
        !revisions.contains_key(found.line_number) ==> blamed_outcome(path, found, revisions)
            == Err::<Seq<u8>, AttributionFault>(AttributionFault::NoSuchLine),
{
}

/// `count` outcomes, each of them `fault`.
fn faulted_records(fault: &AttributionFault, count: usize) -> (lines: Vec<
    Result<Vec<u8>, AttributionFault>,
>)
    ensures
        lines@.len() == count,
        forall|i: int|
            0 <= i < lines@.len() ==> #[trigger] lines@[i] == Err::<Vec<u8>, AttributionFault>(
                *fault,
            ),
{
    let mut lines: Vec<Result<Vec<u8>, AttributionFault>> = Vec::new();
    let mut i: usize = 0;
    while i < count
        invariant
            i <= count,
            lines@.len() == i,
            forall|j: int|
                0 <= j < i ==> #[trigger] lines@[j] == Err::<Vec<u8>, AttributionFault>(*fault),
        decreases count - i,
    {
        lines.push(Err(fault.duplicate()));
        i = i + 1;
    }
    lines
}

/// The records of one file's matches with their attribution, one outcome for
/// each match and in the same order. The file is blamed once, and only
/// where it has a match; [`blamed_records`] says what the blame gives. Where
/// the file cannot be blamed, every match gives that fault in place of a
/// record: `OutsideRepository` exactly where the file does not lie under the
/// root.
pub fn insertion_records(repo: &RepositoryContext, path: &str, matches: &Vec<FileMatch>) -> (lines:
    Vec<Result<Vec<u8>, AttributionFault>>)
    ensures
        lines@.len() == matches@.len(),
        forall|i: int|
            0 <= i < lines@.len() ==> is_insertion_outcome(
                path.spec_bytes(),
                matches@[i]@,
                outcome_view(#[trigger] lines@[i]),
            ),
        forall|i: int|
            0 <= i < lines@.len() ==> (#[trigger] lines@[i] matches Err(
                AttributionFault::OutsideRepository,
            ) <==> lies_outside(path@, repo.root_spec()@)),
{
    if matches.len() == 0 {
        return Vec::new();
    }
    match repo.blame(path) {
        Err(fault) => {
            let lines = faulted_records(&fault, matches.len());
            proof {
                assert forall|i: int| 0 <= i < lines@.len() implies is_insertion_outcome(
                    path.spec_bytes(),
                    matches@[i]@,
                    outcome_view(#[trigger] lines@[i]),
                ) by {
                    assert(outcome_view(lines@[i]) == insertion_outcome(
                        path.spec_bytes(),
                        matches@[i]@,
                        Err::<Seq<u8>, AttributionFault>(fault),
                    ));
                }
            }
            lines
        },
        Ok(blame) => {
            let lines = blamed_records(&blame, path, matches);
            proof {
                assert forall|i: int| 0 <= i < lines@.len() implies is_insertion_outcome(
                    path.spec_bytes(),
                    matches@[i]@,
                    outcome_view(#[trigger] lines@[i]),
                ) by {
                    assert(outcome_view(lines@[i]) == blamed_outcome(
                        path.spec_bytes(),
                        matches@[i]@,
                        blame.revisions(),
                    ));
                }
            }
            lines
        },
    }
}

/// The outcomes held by a vector, as contracts see them.
pub open spec fn outcome_views(lines: Seq<Result<Vec<u8>, AttributionFault>>) -> Seq<
    Result<Seq<u8>, AttributionFault>,
> {
    Seq::new(lines.len(), |i: int| outcome_view(lines[i]))
}

/// The records of one file's matches in the mode of the run. Only the
/// insertion mode asks the repository anything; in the other modes every
/// outcome is a record, as [`plain_records_spec`] gives it.
pub fn file_records(
    repo: &RepositoryContext,
    path: &str,
    matches: &Vec<FileMatch>,
    mode: OutputMode,
) -> (lines: Vec<Result<Vec<u8>, AttributionFault>>)
    ensures
        mode != OutputMode::Insertion ==> outcome_views(lines@) == Seq::new(
            plain_records_spec(path.spec_bytes(), match_views(matches@), mode).len(),
            |i: int|
                Ok::<Seq<u8>, AttributionFault>(
                    plain_records_spec(path.spec_bytes(), match_views(matches@), mode)[i],
                ),
        ),
        mode == OutputMode::Insertion ==> lines@.len() == matches@.len() && forall|i: int|
            0 <= i < lines@.len() ==> is_insertion_outcome(
                path.spec_bytes(),
                matches@[i]@,
                outcome_view(#[trigger] lines@[i]),
            ),
{
    if mode == OutputMode::Insertion {
        return insertion_records(repo, path, matches);
    }
    let plain = plain_records(path, matches, mode);
    let ghost held = plain@;
    let mut lines: Vec<Result<Vec<u8>, AttributionFault>> = Vec::new();
    for line in records: plain.into_iter()
        invariant
            records.seq() == held,
            lines@.len() == records.index(),
            forall|j: int|
                0 <= j < lines@.len() ==> outcome_view(#[trigger] lines@[j]) == Ok::<
                    Seq<u8>,
                    AttributionFault,
                >(held[j]@),
    {
        lines.push(Ok(line));
    }
    proof {
        let expected = plain_records_spec(path.spec_bytes(), match_views(matches@), mode);
        assert(byte_strings(held) == expected);
        assert(outcome_views(lines@) =~= Seq::new(
            expected.len(),
            |i: int| Ok::<Seq<u8>, AttributionFault>(expected[i]),
        ));
    }
    lines
}

/// What handling one file gives: the records to emit, in order, and the
/// match count to fold into the run's totals.
pub struct FileReport {
    pub records: Vec<Result<Vec<u8>, AttributionFault>>,
    pub count: usize,
}

/// Handles one file whose content has been read: scans it for the configured
/// keys and renders what was found in the configured mode.
pub fn handle_file(repo: &RepositoryContext, config: &ScanConfig, path: &str, content: &[u8]) -> (report:
    FileReport)
    ensures
        report.count == match_count(scan_spec(content@, config.markers@, config.mode)),
        config.mode != OutputMode::Insertion ==> outcome_views(report.records@) == Seq::new(
            plain_records_spec(
                path.spec_bytes(),
                scan_spec(content@, config.markers@, config.mode).records,
                config.mode,
            ).len(),
            |i: int|
                Ok::<Seq<u8>, AttributionFault>(
                    plain_records_spec(
                        path.spec_bytes(),
                        scan_spec(content@, config.markers@, config.mode).records,
                        config.mode,
                    )[i],
                ),
        ),
        config.mode == OutputMode::Insertion ==> report.records@.len() == scan_spec(
            content@,
            config.markers@,
            config.mode,
        ).records.len() && forall|i: int|
            0 <= i < report.records@.len() ==> is_insertion_outcome(
                path.spec_bytes(),
                scan_spec(content@, config.markers@, config.mode).records[i],
                outcome_view(#[trigger] report.records@[i]),
            ),
{
    let outcome = scan_content(content, &config.markers, config.mode);
    let records = file_records(repo, path, &outcome.matches, config.mode);
    FileReport { records, count: outcome.count }
}

/// Where exactly one line of a file holds a key, and the file is text up to
/// that line, the default mode emits exactly one record for the file: its
/// path, the number of that line counted from 1, and the line without its
/// terminator.
pub proof fn lemma_default_output_of_single_marker(
    path: Seq<u8>,
    content: Seq<u8>,
    keys: Seq<Seq<u8>>,
    k: int,
)
    requires
        0 <= k < lines_of(content).len(),
        forall|j: int| 0 <= j <= k ==> valid_utf8(#[trigger] lines_of(content)[j]),
        any_key_in(keys, lines_of(content)[k]),
        forall|j: int|
            0 <= j < lines_of(content).len() && j != k ==> !any_key_in(
                keys,
                #[trigger] lines_of(content)[j],
            ),
    ensures
        plain_records_spec(
            path,
            scan_spec(content, keys, OutputMode::Default).records,
            OutputMode::Default,
        ) == seq![
            path + seq![COLON] + decimal((k + 1) as nat) + seq![SPACE] + without_newline(
                lines_of(content)[k],
            ),
        ],
{
    lemma_single_match(lines_of(content), keys, 1, k);
    let records = scan_spec(content, keys, OutputMode::Default).records;
    assert(records[0] == record_of(lines_of(content), 1, k));
    assert(plain_records_spec(path, records, OutputMode::Default) =~= seq![
        default_record(path, records[0]),
    ]);
}

/// Where a file holds a key on one line or on many, and is text up to the
/// first of them, the mode that reports files emits exactly one record for
/// it, its path, and counts exactly one match.
pub proof fn lemma_file_only_output(path: Seq<u8>, content: Seq<u8>, keys: Seq<Seq<u8>>, k: int)
    requires
        0 <= k < lines_of(content).len(),
        forall|j: int| 0 <= j <= k ==> valid_utf8(#[trigger] lines_of(content)[j]),
        any_key_in(keys, lines_of(content)[k]),
        forall|j: int| 0 <= j < k ==> !any_key_in(keys, #[trigger] lines_of(content)[j]),
    ensures
        plain_records_spec(
            path,
            scan_spec(content, keys, OutputMode::FileOnly).records,
            OutputMode::FileOnly,
        ) == seq![path],
        match_count(scan_spec(content, keys, OutputMode::FileOnly)) == 1,
{
    lemma_first_match_only(lines_of(content), keys, 1, k);
    let records = scan_spec(content, keys, OutputMode::FileOnly).records;
    assert(plain_records_spec(path, records, OutputMode::FileOnly) =~= seq![path]);
}

/// A file that is not text gives no match to the totals and no record from
/// its undecodable line on; the scan reports nothing as an error. Here for
/// the modes that read a file to its end.
pub proof fn lemma_undecodable_file_counts_nothing(
    content: Seq<u8>,
    keys: Seq<Seq<u8>>,
    mode: OutputMode,
    k: int,
)
    requires
        0 <= k < lines_of(content).len(),
        !valid_utf8(lines_of(content)[k]),
        mode != OutputMode::FileOnly,
    ensures
        match_count(scan_spec(content, keys, mode)) == 0,
        forall|i: int|
            0 <= i < scan_spec(content, keys, mode).records.len() ==> (
            #[trigger] scan_spec(content, keys, mode).records[i]).line_number <= k,
{
    lemma_undecodable_counts_nothing(lines_of(content), keys, false, 1, k);
}

} // verus!
