//! The file scanner: reads the content of one file line by line and collects
//! the lines that hold a marker key.

use vstd::prelude::*;
use vstd::slice::slice_subrange;
use vstd::slice::slice_to_vec;
use vstd::utf8::valid_utf8;
use crate::config::OutputMode;
use crate::markers::any_key_in;
use crate::markers::MarkerSet;
use crate::text::find_byte;
use crate::text::is_utf8;
use crate::text::line_len;
use crate::text::lines_of;
use crate::text::without_newline;
use crate::text::NEWLINE;

verus! {

/// One matching line of a file.
#[derive(Debug)]
pub struct FileMatch {
    /// The number of the line within its file, counted from 1.
    pub line_number: usize,
    /// The line, without its terminator.
    pub content: Vec<u8>,
}

/// A matching line, as contracts see it.
pub struct MatchView {
    pub line_number: nat,
    pub content: Seq<u8>,
}

impl View for FileMatch {
    type V = MatchView;

    open spec fn view(&self) -> MatchView {
        MatchView { line_number: self.line_number as nat, content: self.content@ }
    }
}

/// The matches held by a vector, as contracts see them.
pub open spec fn match_views(matches: Seq<FileMatch>) -> Seq<MatchView> {
    Seq::new(matches.len(), |i: int| matches[i]@)
}

/// What scanning a file gives, as contracts see it.
pub struct Scan {
    /// The matches found before the scan ended, in line order.
    pub records: Seq<MatchView>,
    /// Whether the scan ended at a line that is not text.
    pub undecodable: bool,
}

/// Scans `lines`, the first of which has the number `number`.
///
/// The lines are taken in order. A line that is not UTF-8 ends the scan at
/// once. A line that holds a key gives one record, however many keys it
/// holds and however often; with `first_only` that record ends the scan.
pub open spec fn scan_lines(
    lines: Seq<Seq<u8>>,
    keys: Seq<Seq<u8>>,
    first_only: bool,
    number: nat,
) -> Scan
    decreases lines.len(),
{
    if lines.len() == 0 {
        Scan { records: Seq::empty(), undecodable: false }
    } else if !valid_utf8(lines[0]) {
        Scan { records: Seq::empty(), undecodable: true }
    } else if any_key_in(keys, lines[0]) {
        let found = MatchView { line_number: number, content: without_newline(lines[0]) };
        if first_only {
            Scan { records: seq![found], undecodable: false }
        } else {
            let rest = scan_lines(lines.skip(1), keys, first_only, number + 1);
            Scan { records: seq![found] + rest.records, undecodable: rest.undecodable }
        }
    } else {
        scan_lines(lines.skip(1), keys, first_only, number + 1)
    }
}

/// The match count that a scan reports: none at all where the file turned
/// out not to be text, else the number of its records.
pub open spec fn match_count(scan: Scan) -> nat {
    if scan.undecodable {
        0
    } else {
        scan.records.len()
    }
}

/// The scan of a whole file.
pub open spec fn scan_spec(content: Seq<u8>, keys: Seq<Seq<u8>>, mode: OutputMode) -> Scan {
    scan_lines(lines_of(content), keys, mode.first_match_only(), 1)
}

/// What scanning a file gave.
#[derive(Debug)]
pub struct ScanOutcome {
    /// The matches to report, in line order.
    pub matches: Vec<FileMatch>,
    /// The match count to fold into the run's totals.
    pub count: usize,
}

/// Scans the content of one file for the keys of `markers`.
///
/// The matches are those met before the scan ended, whether at the end of
/// the file, at the first match where the mode asks for no more, or at a line
/// that is not text. The count is the number of matches, or zero where the
/// scan ended at a line that is not text.
pub fn scan_content(content: &[u8], markers: &MarkerSet, mode: OutputMode) -> (outcome:
    ScanOutcome)
    ensures
        match_views(outcome.matches@) == scan_spec(content@, markers@, mode).records,
        outcome.count == match_count(scan_spec(content@, markers@, mode)),
        outcome.count == 0 || outcome.count == outcome.matches@.len(),
        outcome.matches@.len() <= lines_of(content@).len(),
        mode.first_match_only() ==> outcome.matches@.len() <= 1,
{
    proof {
        lemma_one_record_per_line(lines_of(content@), markers@, mode.first_match_only(), 1);
        lemma_first_only_at_most_one(lines_of(content@), markers@, 1);
    }
    let n: usize = content.len();
    let first_only = mode.stops_at_first_match();
    let ghost whole = scan_spec(content@, markers@, mode);
    let mut matches: Vec<FileMatch> = Vec::new();
    let mut pos: usize = 0;
    let mut index: usize = 0;
    proof {
        assert(content@.skip(0) =~= content@);
        assert(match_views(matches@) + whole.records =~= whole.records);
    }
    while pos < n
        invariant
            n == content@.len(),
            first_only == mode.first_match_only(),
            whole == scan_spec(content@, markers@, mode),
            whole.records.len() <= lines_of(content@).len(),
            first_only ==> whole.records.len() <= 1,
            index <= pos <= n,
            matches@.len() <= index,
            whole.records == match_views(matches@) + scan_lines(
                lines_of(content@.skip(pos as int)),
                markers@,
                first_only,
                (index + 1) as nat,
            ).records,
            whole.undecodable == scan_lines(
                lines_of(content@.skip(pos as int)),
                markers@,
                first_only,
                (index + 1) as nat,
            ).undecodable,
        decreases n - pos,
    {
        let newline: usize = find_byte(content, pos, NEWLINE);
        let stop: usize = if newline < n {
            newline + 1
        } else {
            n
        };
        let line = slice_subrange(content, pos, stop);
        let ghost rest = content@.skip(pos as int);
        let ghost before = match_views(matches@);
        proof {
            assert(line_len(rest) == stop - pos);
            assert(line@ =~= rest.take(stop - pos));
            assert(rest.skip(stop - pos) =~= content@.skip(stop as int));
            assert(lines_of(rest) =~= seq![line@] + lines_of(content@.skip(stop as int)));
            assert(lines_of(rest)[0] == line@);
            assert(lines_of(rest).skip(1) =~= lines_of(content@.skip(stop as int)));
        }
        if !is_utf8(line) {
            proof {
                assert(before + Seq::<MatchView>::empty() =~= before);
            }
            return ScanOutcome { matches, count: 0 };
        }
        if markers.matches(line) {
            let text = if line[stop - pos - 1] == NEWLINE {
                slice_subrange(content, pos, stop - 1)
            } else {
                line
            };
            let found = FileMatch { line_number: index + 1, content: slice_to_vec(text) };
            proof {
                assert(text@ =~= without_newline(line@));
            }
            matches.push(found);
            proof {
                assert(match_views(matches@) =~= before.push(found@));
                let tail = scan_lines(
                    lines_of(content@.skip(stop as int)),
                    markers@,
                    first_only,
                    (index + 2) as nat,
                );
                assert(before + (seq![found@] + tail.records) =~= before.push(found@)
                    + tail.records);
                assert(before + seq![found@] =~= before.push(found@));
            }
            if first_only {
                let count: usize = matches.len();
                return ScanOutcome { matches, count };
            }
        }
        pos = stop;
        index = index + 1;
    }
    proof {
        assert(content@.skip(n as int) =~= Seq::<u8>::empty());
        assert(match_views(matches@) + Seq::<MatchView>::empty() =~= match_views(matches@));
    }
    let count: usize = matches.len();
    ScanOutcome { matches, count }
}

/// The record that line `k` of a scan gives, where the first line has the
/// number `number`.
pub open spec fn record_of(lines: Seq<Seq<u8>>, number: nat, k: int) -> MatchView {
    MatchView { line_number: (number + k) as nat, content: without_newline(lines[k]) }
}

/// Lines that hold no key give no record.
pub proof fn lemma_no_match_no_record(
    lines: Seq<Seq<u8>>,
    keys: Seq<Seq<u8>>,
    first_only: bool,
    number: nat,
)
    requires
        forall|j: int| 0 <= j < lines.len() ==> !any_key_in(keys, #[trigger] lines[j]),
    ensures
        scan_lines(lines, keys, first_only, number).records.len() == 0,
    decreases lines.len(),
{
    if lines.len() > 0 && valid_utf8(lines[0]) {
        assert forall|j: int| 0 <= j < lines.skip(1).len() implies !any_key_in(
            keys,
            #[trigger] lines.skip(1)[j],
        ) by {
            assert(lines.skip(1)[j] == lines[j + 1]);
        }
        lemma_no_match_no_record(lines.skip(1), keys, first_only, number + 1);
    }
}

/// A file of text is scanned to its end: no decoding fault is reported.
pub proof fn lemma_text_is_decodable(
    lines: Seq<Seq<u8>>,
    keys: Seq<Seq<u8>>,
    first_only: bool,
    number: nat,
)
    requires
        forall|j: int| 0 <= j < lines.len() ==> valid_utf8(#[trigger] lines[j]),
    ensures
        !scan_lines(lines, keys, first_only, number).undecodable,
        match_count(scan_lines(lines, keys, first_only, number)) == scan_lines(
            lines,
            keys,
            first_only,
            number,
        ).records.len(),
    decreases lines.len(),
{
    if lines.len() > 0 {
        assert(valid_utf8(lines[0]));
        assert forall|j: int| 0 <= j < lines.skip(1).len() implies valid_utf8(
            #[trigger] lines.skip(1)[j],
        ) by {
            assert(lines.skip(1)[j] == lines[j + 1]);
        }
        lemma_text_is_decodable(lines.skip(1), keys, first_only, number + 1);
    }
}

/// Where exactly one line holds a key, and the file is text up to that line,
/// a scan that does not stop at the first match gives exactly one record: the
/// number of that line, counted from the first, and the line without its
/// terminator.
pub proof fn lemma_single_match(lines: Seq<Seq<u8>>, keys: Seq<Seq<u8>>, number: nat, k: int)
    requires
        0 <= k < lines.len(),
        forall|j: int| 0 <= j <= k ==> valid_utf8(#[trigger] lines[j]),
        any_key_in(keys, lines[k]),
        forall|j: int| 0 <= j < lines.len() && j != k ==> !any_key_in(keys, #[trigger] lines[j]),
    ensures
        scan_lines(lines, keys, false, number).records == seq![record_of(lines, number, k)],
    decreases lines.len(),
{
    let tail = lines.skip(1);
    assert(valid_utf8(lines[0]));
    if k == 0 {
        assert forall|j: int| 0 <= j < tail.len() implies !any_key_in(keys, #[trigger] tail[j]) by {
            assert(tail[j] == lines[j + 1]);
        }
        lemma_no_match_no_record(tail, keys, false, number + 1);
        assert(scan_lines(lines, keys, false, number).records =~= seq![
            record_of(lines, number, k),
        ]);
    } else {
        assert forall|j: int| 0 <= j <= k - 1 implies valid_utf8(#[trigger] tail[j]) by {
            assert(tail[j] == lines[j + 1]);
        }
        assert forall|j: int| 0 <= j < tail.len() && j != k - 1 implies !any_key_in(
            keys,
            #[trigger] tail[j],
        ) by {
            assert(tail[j] == lines[j + 1]);
        }
        assert(tail[k - 1] == lines[k]);
        lemma_single_match(tail, keys, number + 1, k - 1);
        assert(record_of(tail, number + 1, k - 1) == record_of(lines, number, k));
    }
}

/// A scan that stops at the first match gives exactly one record for a file
/// that holds a key on any number of lines, provided the file is text up to
/// the first of them: the record of that first line. Its match count is 1.
pub proof fn lemma_first_match_only(lines: Seq<Seq<u8>>, keys: Seq<Seq<u8>>, number: nat, k: int)
    requires
        0 <= k < lines.len(),
        forall|j: int| 0 <= j <= k ==> valid_utf8(#[trigger] lines[j]),
        any_key_in(keys, lines[k]),
        forall|j: int| 0 <= j < k ==> !any_key_in(keys, #[trigger] lines[j]),
    ensures
        scan_lines(lines, keys, true, number).records == seq![record_of(lines, number, k)],
        !scan_lines(lines, keys, true, number).undecodable,
        match_count(scan_lines(lines, keys, true, number)) == 1,
    decreases lines.len(),
{
    let tail = lines.skip(1);
    assert(valid_utf8(lines[0]));
    if k > 0 {
        assert(!any_key_in(keys, lines[0]));
        assert forall|j: int| 0 <= j <= k - 1 implies valid_utf8(#[trigger] tail[j]) by {
            assert(tail[j] == lines[j + 1]);
        }
        assert forall|j: int| 0 <= j < k - 1 implies !any_key_in(keys, #[trigger] tail[j]) by {
            assert(tail[j] == lines[j + 1]);
        }
        assert(tail[k - 1] == lines[k]);
        lemma_first_match_only(tail, keys, number + 1, k - 1);
        assert(record_of(tail, number + 1, k - 1) == record_of(lines, number, k));
    }
}

/// A scan that stops at the first match never gives more than one record.
pub proof fn lemma_first_only_at_most_one(lines: Seq<Seq<u8>>, keys: Seq<Seq<u8>>, number: nat)
    ensures
        scan_lines(lines, keys, true, number).records.len() <= 1,
    decreases lines.len(),
{
    if lines.len() > 0 {
        lemma_first_only_at_most_one(lines.skip(1), keys, number + 1);
    }
}

/// Every record stands for a line of the file that holds a key, and no line
/// gives more than one: the records' line numbers lie within the file and
/// strictly ascend, so there are at most as many records as lines. A line
/// that holds two keys, or one key twice, still counts once.
pub proof fn lemma_one_record_per_line(
    lines: Seq<Seq<u8>>,
    keys: Seq<Seq<u8>>,
    first_only: bool,
    number: nat,
)
    ensures
        scan_lines(lines, keys, first_only, number).records.len() <= lines.len(),
        forall|i: int|
            0 <= i < scan_lines(lines, keys, first_only, number).records.len() ==> {
                let record = #[trigger] scan_lines(lines, keys, first_only, number).records[i];
                &&& number <= record.line_number < number + lines.len()
                &&& any_key_in(keys, lines[record.line_number - number])
                &&& record.content == without_newline(lines[record.line_number - number])
            },
        forall|i: int, j: int|
            0 <= i < j < scan_lines(lines, keys, first_only, number).records.len() ==> (
            #[trigger] scan_lines(lines, keys, first_only, number).records[i]).line_number < (
            #[trigger] scan_lines(lines, keys, first_only, number).records[j]).line_number,
    decreases lines.len(),
{
    if lines.len() > 0 {
        let tail = lines.skip(1);
        lemma_one_record_per_line(tail, keys, first_only, number + 1);
        let here = scan_lines(lines, keys, first_only, number).records;
        let there = scan_lines(tail, keys, first_only, number + 1).records;
        assert forall|i: int| 0 <= i < there.len() implies {
            let record = #[trigger] there[i];
            &&& number + 1 <= record.line_number < number + lines.len()
            &&& any_key_in(keys, lines[record.line_number - number])
            &&& record.content == without_newline(lines[record.line_number - number])
        } by {
            let record = there[i];
            assert(tail[record.line_number - (number + 1)] == lines[record.line_number - number]);
        }
        if valid_utf8(lines[0]) && any_key_in(keys, lines[0]) && !first_only {
            assert(here =~= seq![record_of(lines, number, 0)] + there);
            assert forall|i: int| 0 < i < here.len() implies here[i] == there[i - 1] by {}
        }
    }
}

/// A line that is not text ends the scan with a match count of zero, whatever
/// was found before it, unless the scan had already stopped at a match.
/// Nothing at or after that line is reported.
pub proof fn lemma_undecodable_counts_nothing(
    lines: Seq<Seq<u8>>,
    keys: Seq<Seq<u8>>,
    first_only: bool,
    number: nat,
    k: int,
)
    requires
        0 <= k < lines.len(),
        !valid_utf8(lines[k]),
        first_only ==> forall|j: int| 0 <= j < k ==> !any_key_in(keys, #[trigger] lines[j]),
    ensures
        scan_lines(lines, keys, first_only, number).undecodable,
        match_count(scan_lines(lines, keys, first_only, number)) == 0,
        forall|i: int|
            0 <= i < scan_lines(lines, keys, first_only, number).records.len() ==> (
            #[trigger] scan_lines(lines, keys, first_only, number).records[i]).line_number < number
                + k,
    decreases lines.len(),
{
    if valid_utf8(lines[0]) {
        let tail = lines.skip(1);
        assert(k > 0);
        assert(tail[k - 1] == lines[k]);
        if first_only {
            assert(!any_key_in(keys, lines[0]));
            assert forall|j: int| 0 <= j < k - 1 implies !any_key_in(keys, #[trigger] tail[j]) by {
                assert(tail[j] == lines[j + 1]);
            }
        }
        lemma_undecodable_counts_nothing(tail, keys, first_only, number + 1, k - 1);
        let here = scan_lines(lines, keys, first_only, number).records;
        let there = scan_lines(tail, keys, first_only, number + 1).records;
        if any_key_in(keys, lines[0]) {
            assert(here =~= seq![record_of(lines, number, 0)] + there);
            assert forall|i: int| 0 < i < here.len() implies here[i] == there[i - 1] by {}
        }
    }
}

} // verus!
