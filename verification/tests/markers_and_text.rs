use git_fixme::config::OutputMode;
use git_fixme::config::ScanConfig;
use git_fixme::markers::MarkerSet;
use git_fixme::text::contains;
use git_fixme::text::decimal_digits;
use git_fixme::text::find_byte;
use git_fixme::text::split;

fn keys(set: &MarkerSet) -> Vec<Vec<u8>> {
    (0..set.len()).map(|index| set.key(index).to_vec()).collect()
}

#[test]
fn absent_override_gives_the_default_key() {
    assert_eq!(keys(&MarkerSet::from_override(None)), vec![b"FIXME".to_vec()]);
    assert_eq!(keys(&MarkerSet::standard()), vec![b"FIXME".to_vec()]);
}

#[test]
fn empty_override_gives_the_default_key() {
    assert_eq!(keys(&MarkerSet::from_override(Some(""))), vec![b"FIXME".to_vec()]);
}

#[test]
fn override_is_split_on_colons() {
    assert_eq!(keys(&MarkerSet::from_override(Some("TODO:FIXME"))), vec![b"TODO".to_vec(), b"FIXME".to_vec()]);
    assert_eq!(keys(&MarkerSet::from_override(Some("XXX"))), vec![b"XXX".to_vec()]);
    assert_eq!(
        keys(&MarkerSet::from_override(Some("a::b:"))),
        vec![b"a".to_vec(), b"".to_vec(), b"b".to_vec(), b"".to_vec()]
    );
    assert_eq!(keys(&MarkerSet::from_override(Some(":"))), vec![b"".to_vec(), b"".to_vec()]);
}

#[test]
fn override_keys_are_taken_as_bytes() {
    let set = MarkerSet::from_override(Some("\u{e9}t\u{e9}:na\u{ef}ve"));
    assert_eq!(keys(&set), vec!["\u{e9}t\u{e9}".as_bytes().to_vec(), "na\u{ef}ve".as_bytes().to_vec()]);
    assert!(set.matches("un \u{e9}t\u{e9} chaud\n".as_bytes()));
    assert!(!set.matches(b"un ete chaud\n"));
}

#[test]
fn marker_set_matches_any_key() {
    let set = MarkerSet::from_override(Some("TODO:FIXME"));
    assert!(set.matches(b"// TODO"));
    assert!(set.matches(b"// FIXME"));
    assert!(set.matches(b"TODOFIXME"));
    assert!(!set.matches(b"// todo fixme"));
    assert!(!set.matches(b""));
}

#[test]
fn contains_finds_a_key_anywhere() {
    assert!(contains(b"FIXME", b"FIXME"));
    assert!(contains(b"xxFIXME", b"FIXME"));
    assert!(contains(b"FIXMExx", b"FIXME"));
    assert!(contains(b"FIXFIXME", b"FIXME"));
    assert!(contains(b"aaab", b"aab"));
    assert!(!contains(b"FIXM", b"FIXME"));
    assert!(!contains(b"FIXM E", b"FIXME"));
    assert!(!contains(b"", b"F"));
}

#[test]
fn empty_key_is_contained_in_everything() {
    assert!(contains(b"", b""));
    assert!(contains(b"abc", b""));
}

#[test]
fn find_byte_gives_the_first_offset_or_the_length() {
    assert_eq!(find_byte(b"a:b:c", 0, b':'), 1);
    assert_eq!(find_byte(b"a:b:c", 1, b':'), 1);
    assert_eq!(find_byte(b"a:b:c", 2, b':'), 3);
    assert_eq!(find_byte(b"a:b:c", 4, b':'), 5);
    assert_eq!(find_byte(b"a:b:c", 5, b':'), 5);
    assert_eq!(find_byte(b"", 0, b':'), 0);
}

#[test]
fn split_keeps_empty_pieces() {
    assert_eq!(split(b"", b':'), vec![b"".to_vec()]);
    assert_eq!(split(b"abc", b':'), vec![b"abc".to_vec()]);
    assert_eq!(split(b"a:b", b':'), vec![b"a".to_vec(), b"b".to_vec()]);
    assert_eq!(split(b":a:", b':'), vec![b"".to_vec(), b"a".to_vec(), b"".to_vec()]);
}

#[test]
fn decimal_digits_of_small_and_large_numbers() {
    assert_eq!(decimal_digits(0), b"0".to_vec());
    assert_eq!(decimal_digits(9), b"9".to_vec());
    assert_eq!(decimal_digits(10), b"10".to_vec());
    assert_eq!(decimal_digits(42), b"42".to_vec());
    assert_eq!(decimal_digits(1005), b"1005".to_vec());
    assert_eq!(decimal_digits(usize::MAX), format!("{}", usize::MAX).into_bytes());
}

#[test]
fn flags_select_the_mode() {
    assert_eq!(OutputMode::from_flags(false, false, false), OutputMode::Default);
    assert_eq!(OutputMode::from_flags(true, false, false), OutputMode::FileOnly);
    assert_eq!(OutputMode::from_flags(false, true, false), OutputMode::Insertion);
    assert_eq!(OutputMode::from_flags(false, false, true), OutputMode::Stats);
    assert_eq!(OutputMode::from_flags(true, true, true), OutputMode::FileOnly);
    assert_eq!(OutputMode::from_flags(false, true, true), OutputMode::Insertion);
}

#[test]
fn only_file_mode_stops_at_the_first_match() {
    assert!(OutputMode::FileOnly.stops_at_first_match());
    assert!(!OutputMode::Default.stops_at_first_match());
    assert!(!OutputMode::Insertion.stops_at_first_match());
    assert!(!OutputMode::Stats.stops_at_first_match());
    assert!(OutputMode::Stats.reports_totals());
    assert!(!OutputMode::FileOnly.reports_totals());
}

#[test]
fn config_holds_keys_and_mode() {
    let config = ScanConfig::new(Some("TODO:FIXME"), false, false, true);
    assert_eq!(config.mode, OutputMode::Stats);
    assert_eq!(keys(&config.markers), vec![b"TODO".to_vec(), b"FIXME".to_vec()]);
    let plain = ScanConfig::new(None, false, false, false);
    assert_eq!(plain.mode, OutputMode::Default);
    assert_eq!(keys(&plain.markers), vec![b"FIXME".to_vec()]);
}
