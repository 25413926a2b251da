use git_fixme::config::OutputMode;
use git_fixme::markers::MarkerSet;
use git_fixme::report::plain_records;
use git_fixme::scan::scan_content;

fn lines_of_output(path: &str, content: &[u8], markers: &MarkerSet, mode: OutputMode) -> Vec<String> {
    let outcome = scan_content(content, markers, mode);
    plain_records(path, &outcome.matches, mode)
        .into_iter()
        .map(|line| String::from_utf8(line).unwrap())
        .collect()
}

#[test]
fn default_mode_reports_path_line_number_and_content() {
    let content = b"fn main() {\n    run();\n// FIXME: todo\n}\n";
    let markers = MarkerSet::standard();
    let output = lines_of_output("a.txt", content, &markers, OutputMode::Default);
    assert_eq!(output, vec!["a.txt:3 // FIXME: todo".to_string()]);
    assert_eq!(scan_content(content, &markers, OutputMode::Default).count, 1);
}

#[test]
fn file_only_mode_reports_the_path() {
    let content = b"fn main() {\n    run();\n// FIXME: todo\n}\n";
    let markers = MarkerSet::standard();
    let output = lines_of_output("a.txt", content, &markers, OutputMode::FileOnly);
    assert_eq!(output, vec!["a.txt".to_string()]);
}

#[test]
fn file_only_mode_stops_at_the_first_match() {
    let content = b"FIXME one\nplain\nFIXME two\nFIXME three\n";
    let markers = MarkerSet::standard();
    let outcome = scan_content(content, &markers, OutputMode::FileOnly);
    assert_eq!(outcome.count, 1);
    assert_eq!(outcome.matches.len(), 1);
    assert_eq!(outcome.matches[0].line_number, 1);
    assert_eq!(outcome.matches[0].content, b"FIXME one".to_vec());
    let output = lines_of_output("src/lib.rs", content, &markers, OutputMode::FileOnly);
    assert_eq!(output, vec!["src/lib.rs".to_string()]);
}

#[test]
fn other_modes_count_every_matching_line() {
    let content = b"FIXME one\nplain\nFIXME two\nFIXME three\n";
    let markers = MarkerSet::standard();
    for mode in [OutputMode::Default, OutputMode::Insertion, OutputMode::Stats] {
        let outcome = scan_content(content, &markers, mode);
        assert_eq!(outcome.count, 3);
        let numbers: Vec<usize> = outcome.matches.iter().map(|found| found.line_number).collect();
        assert_eq!(numbers, vec![1, 3, 4]);
    }
}

#[test]
fn default_mode_reports_each_match_in_line_order() {
    let content = b"FIXME one\nplain\nFIXME two\n";
    let markers = MarkerSet::standard();
    let output = lines_of_output("dir/b.rs", content, &markers, OutputMode::Default);
    assert_eq!(output, vec!["dir/b.rs:1 FIXME one".to_string(), "dir/b.rs:3 FIXME two".to_string()]);
}

#[test]
fn stats_and_insertion_modes_give_no_plain_record() {
    let content = b"FIXME one\n";
    let markers = MarkerSet::standard();
    assert!(lines_of_output("a.txt", content, &markers, OutputMode::Stats).is_empty());
    assert!(lines_of_output("a.txt", content, &markers, OutputMode::Insertion).is_empty());
}

#[test]
fn override_keys_match_either_key() {
    let markers = MarkerSet::from_override(Some("TODO:FIXME"));
    let content = b"nothing here\n// TODO: later\n// FIXME: now\n";
    let outcome = scan_content(content, &markers, OutputMode::Default);
    assert_eq!(outcome.count, 2);
    assert_eq!(outcome.matches[0].line_number, 2);
    assert_eq!(outcome.matches[0].content, b"// TODO: later".to_vec());
    assert_eq!(outcome.matches[1].line_number, 3);
    let standard = MarkerSet::standard();
    assert_eq!(scan_content(content, &standard, OutputMode::Default).count, 1);
}

#[test]
fn a_line_with_two_keys_counts_once() {
    let markers = MarkerSet::from_override(Some("TODO:FIXME"));
    let content = b"// TODO FIXME TODO FIXME\n";
    let outcome = scan_content(content, &markers, OutputMode::Default);
    assert_eq!(outcome.count, 1);
    assert_eq!(outcome.matches.len(), 1);
    assert_eq!(outcome.matches[0].line_number, 1);
}

#[test]
fn matching_is_case_sensitive() {
    let markers = MarkerSet::standard();
    let outcome = scan_content(b"fixme\nFixme\nFIXM E\n", &markers, OutputMode::Default);
    assert_eq!(outcome.count, 0);
    assert!(outcome.matches.is_empty());
}

#[test]
fn undecodable_line_ends_the_scan_with_zero_matches() {
    let content = b"FIXME first\n\xff\xfe broken\nFIXME third\n";
    let markers = MarkerSet::standard();
    let outcome = scan_content(content, &markers, OutputMode::Default);
    assert_eq!(outcome.count, 0);
    let numbers: Vec<usize> = outcome.matches.iter().map(|found| found.line_number).collect();
    assert_eq!(numbers, vec![1]);
    let stats = scan_content(content, &markers, OutputMode::Stats);
    assert_eq!(stats.count, 0);
}

#[test]
fn undecodable_second_line_without_earlier_match_reports_nothing() {
    let content = b"plain\n\x80\nFIXME third\n";
    let markers = MarkerSet::standard();
    for mode in [OutputMode::Default, OutputMode::FileOnly, OutputMode::Insertion, OutputMode::Stats] {
        let outcome = scan_content(content, &markers, mode);
        assert_eq!(outcome.count, 0);
        assert!(outcome.matches.is_empty());
    }
}

#[test]
fn file_only_mode_never_reads_past_its_match() {
    let content = b"FIXME first\n\xff\xfe broken\n";
    let markers = MarkerSet::standard();
    let outcome = scan_content(content, &markers, OutputMode::FileOnly);
    assert_eq!(outcome.count, 1);
    assert_eq!(outcome.matches.len(), 1);
}

#[test]
fn binary_content_gives_no_match() {
    let content: Vec<u8> = vec![0x7f, b'E', b'L', b'F', 0xff, 0xc0, b'F', b'I', b'X', b'M', b'E', 0x0a, 0x00];
    let markers = MarkerSet::standard();
    let outcome = scan_content(&content, &markers, OutputMode::Default);
    assert_eq!(outcome.count, 0);
    assert!(outcome.matches.is_empty());
}

#[test]
fn overlong_and_surrogate_encodings_are_not_text() {
    let markers = MarkerSet::standard();
    assert_eq!(scan_content(b"FIXME \xc0\xaf\n", &markers, OutputMode::Default).count, 0);
    assert_eq!(scan_content(b"FIXME \xed\xa0\x80\n", &markers, OutputMode::Default).count, 0);
    assert_eq!(scan_content("FIXME \u{e9}\u{4e2d}\u{1f600}\n".as_bytes(), &markers, OutputMode::Default).count, 1);
}

#[test]
fn empty_content_has_no_lines() {
    let markers = MarkerSet::standard();
    let outcome = scan_content(b"", &markers, OutputMode::Default);
    assert_eq!(outcome.count, 0);
    assert!(outcome.matches.is_empty());
}

#[test]
fn last_line_without_terminator_is_kept_whole() {
    let markers = MarkerSet::standard();
    let outcome = scan_content(b"one\nlast FIXME", &markers, OutputMode::Default);
    assert_eq!(outcome.count, 1);
    assert_eq!(outcome.matches[0].line_number, 2);
    assert_eq!(outcome.matches[0].content, b"last FIXME".to_vec());
}

#[test]
fn only_the_newline_is_stripped() {
    let markers = MarkerSet::standard();
    let outcome = scan_content(b"FIXME\r\n\nFIXME\n", &markers, OutputMode::Default);
    assert_eq!(outcome.count, 2);
    assert_eq!(outcome.matches[0].content, b"FIXME\r".to_vec());
    assert_eq!(outcome.matches[1].line_number, 3);
    assert_eq!(outcome.matches[1].content, b"FIXME".to_vec());
}

#[test]
fn empty_key_matches_every_line() {
    let markers = MarkerSet::from_override(Some("TODO::HACK"));
    let outcome = scan_content(b"a\n\nb", &markers, OutputMode::Default);
    assert_eq!(outcome.count, 3);
    assert_eq!(outcome.matches[1].content, Vec::<u8>::new());
}

#[test]
fn key_may_span_to_the_terminator() {
    let markers = MarkerSet::from_override(Some("end\n"));
    let outcome = scan_content(b"the end\nend of it\nend", &markers, OutputMode::Default);
    assert_eq!(outcome.count, 1);
    assert_eq!(outcome.matches[0].line_number, 1);
    assert_eq!(outcome.matches[0].content, b"the end".to_vec());
}
