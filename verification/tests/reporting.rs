use git_fixme::config::OutputMode;
use git_fixme::repo::free_of_nul;
use git_fixme::repo::index_query;
use git_fixme::repo::is_index_path;
use git_fixme::repo::IndexFault;
use git_fixme::repo::AttributionFault;
use git_fixme::report::aggregate_failure_message;
use git_fixme::report::closing_records;
use git_fixme::report::insertion_line;
use git_fixme::report::plain_records;
use git_fixme::report::render_default;
use git_fixme::report::render_failure;
use git_fixme::report::render_fault;
use git_fixme::report::render_file_only;
use git_fixme::report::render_insertion;
use git_fixme::report::render_totals;
use git_fixme::scan::FileMatch;
use git_fixme::stats::ScanStats;

fn found(line_number: usize, content: &str) -> FileMatch {
    FileMatch { line_number, content: content.as_bytes().to_vec() }
}

#[test]
fn default_record_format() {
    assert_eq!(render_default("a.txt", &found(3, "// FIXME: todo")), b"a.txt:3 // FIXME: todo".to_vec());
    assert_eq!(render_default("src/x.rs", &found(120, "")), b"src/x.rs:120 ".to_vec());
}

#[test]
fn file_only_record_format() {
    assert_eq!(render_file_only("a.txt"), b"a.txt".to_vec());
}

#[test]
fn insertion_record_format() {
    let line = render_insertion("a.txt", b"// FIXME: todo", "0123456789abcdef0123456789abcdef01234567");
    assert_eq!(line, b"a.txt:// FIXME: todo @ 0123456789abcdef0123456789abcdef01234567".to_vec());
}

#[test]
fn insertion_line_carries_the_revision_it_is_given() {
    let first = insertion_line("a.txt", &found(3, "x FIXME"), Ok("aaaa".to_string()));
    assert_eq!(first.unwrap(), b"a.txt:x FIXME @ aaaa".to_vec());
    let second = insertion_line("a.txt", &found(3, "x FIXME"), Ok("bbbb".to_string()));
    assert_eq!(second.unwrap(), b"a.txt:x FIXME @ bbbb".to_vec());
}

#[test]
fn insertion_line_hands_a_fault_on() {
    let lost = insertion_line("a.txt", &found(3, "x FIXME"), Err(AttributionFault::NoSuchLine));
    assert!(matches!(lost, Err(AttributionFault::NoSuchLine)));
    let broken = insertion_line("a.txt", &found(3, "x"), Err(AttributionFault::Blame("bad object".to_string())));
    assert!(matches!(broken, Err(AttributionFault::Blame(reason)) if reason == "bad object"));
    let outside = insertion_line("a.txt", &found(3, "x"), Err(AttributionFault::OutsideRepository));
    assert!(matches!(outside, Err(AttributionFault::OutsideRepository)));
}

#[test]
fn attribution_fault_messages() {
    assert_eq!(AttributionFault::OutsideRepository.message(), "the file does not lie in the repository");
    assert_eq!(AttributionFault::NoSuchLine.message(), "the blame has no such line");
    assert_eq!(AttributionFault::Blame("object not found".to_string()).message(), "object not found");
}

#[test]
fn totals_record_format() {
    let mut stats = ScanStats::new();
    assert_eq!(render_totals(&stats), b"0 0".to_vec());
    stats.record(1);
    stats.record(1);
    assert_eq!(render_totals(&stats), b"2 2".to_vec());
    stats.record(10);
    stats.record(0);
    assert_eq!(render_totals(&stats), b"3 12".to_vec());
}

#[test]
fn failure_and_fault_record_formats() {
    assert_eq!(aggregate_failure_message(), "Some errors happened");
    assert_eq!(render_failure("Some errors happened"), b"error: Some errors happened".to_vec());
    assert_eq!(render_failure(""), b"error: ".to_vec());
    assert_eq!(render_fault("src/a.rs", "Permission denied (os error 13)"), b"src/a.rs:Permission denied (os error 13)".to_vec());
}

#[test]
fn closing_records_by_mode_and_failure() {
    let mut stats = ScanStats::new();
    stats.record(2);
    assert!(closing_records(OutputMode::Default, &stats, false).is_empty());
    assert!(closing_records(OutputMode::FileOnly, &stats, false).is_empty());
    assert!(closing_records(OutputMode::Insertion, &stats, false).is_empty());
    assert_eq!(closing_records(OutputMode::Stats, &stats, false), vec![b"1 2".to_vec()]);
    assert_eq!(closing_records(OutputMode::Default, &stats, true), vec![b"error: Some errors happened".to_vec()]);
    assert_eq!(
        closing_records(OutputMode::Stats, &stats, true),
        vec![b"1 2".to_vec(), b"error: Some errors happened".to_vec()]
    );
}

#[test]
fn plain_records_by_mode() {
    let matches = vec![found(1, "FIXME a"), found(7, "b FIXME")];
    assert_eq!(
        plain_records("p", &matches, OutputMode::Default),
        vec![b"p:1 FIXME a".to_vec(), b"p:7 b FIXME".to_vec()]
    );
    assert_eq!(plain_records("p", &matches, OutputMode::FileOnly), vec![b"p".to_vec(), b"p".to_vec()]);
    assert!(plain_records("p", &matches, OutputMode::Insertion).is_empty());
    assert!(plain_records("p", &matches, OutputMode::Stats).is_empty());
    assert!(plain_records("p", &Vec::new(), OutputMode::Default).is_empty());
}

#[test]
fn nul_bytes_are_found_anywhere() {
    assert!(free_of_nul(b""));
    assert!(free_of_nul(b"src/main.rs"));
    assert!(!free_of_nul(b"\0"));
    assert!(!free_of_nul(b"a\0b"));
    assert!(!free_of_nul(b"ab\0"));
}

#[test]
fn index_paths_start_with_an_ordinary_component() {
    assert!(is_index_path("a.txt"));
    assert!(is_index_path("src/main.rs"));
    assert!(is_index_path(".gitignore"));
    assert!(is_index_path("..hidden/x"));
    assert!(is_index_path("a/../b"));
    assert!(is_index_path("d\u{e9}j\u{e0}/vu.txt"));
    assert!(!is_index_path(""));
    assert!(!is_index_path("/abs/path"));
    assert!(!is_index_path("."));
    assert!(!is_index_path("./a"));
    assert!(!is_index_path(".."));
    assert!(!is_index_path("../a"));
    assert!(!is_index_path("a\0b"));
    assert!(!is_index_path("ab\0"));
}

#[test]
fn names_with_a_colon_or_a_backslash_are_index_paths_where_the_slash_separates() {
    if std::path::MAIN_SEPARATOR == '/' {
        assert!(is_index_path("a:b.txt"));
        assert!(is_index_path("c:/x"));
        assert!(is_index_path("\\share"));
        assert!(is_index_path(".\\a"));
    }
}

#[test]
fn index_query_keeps_what_can_be_asked() {
    assert!(matches!(index_query(None), Err(IndexFault::OutsideRepository)));
    assert!(matches!(index_query(Some("src/main.rs".to_string())), Ok(local) if local == "src/main.rs"));
    assert!(matches!(index_query(Some("".to_string())), Err(IndexFault::NotAnIndexPath)));
    assert!(matches!(index_query(Some("../main.rs".to_string())), Err(IndexFault::NotAnIndexPath)));
    assert!(matches!(index_query(Some("a\0b".to_string())), Err(IndexFault::NotAnIndexPath)));
}

#[test]
fn index_fault_messages() {
    assert_eq!(IndexFault::OutsideRepository.message(), "the path does not lie in the repository");
    assert_eq!(IndexFault::NotAnIndexPath.message(), "the path cannot name an entry of the index");
    assert_eq!(IndexFault::Index("locked".to_string()).message(), "locked");
}
