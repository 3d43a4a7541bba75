use spotdora::version::{is_newer_version, parse_version_tuple};

#[test]
fn parses_plain_version() {
    assert_eq!(parse_version_tuple("1.2.3"), vec![1, 2, 3]);
}

#[test]
fn parses_prefixed_and_padded_version() {
    assert_eq!(parse_version_tuple("  v0.5.1 "), vec![0, 5, 1]);
    assert_eq!(parse_version_tuple("V2.0"), vec![2, 0]);
}

#[test]
fn splits_at_dashes_and_other_characters() {
    assert_eq!(parse_version_tuple("1.2.3-rc4"), vec![1, 2, 3, 4]);
    assert_eq!(parse_version_tuple("1..2"), vec![1, 2]);
    assert_eq!(parse_version_tuple("release"), Vec::<u32>::new());
    assert_eq!(parse_version_tuple(""), Vec::<u32>::new());
}

#[test]
fn drops_numbers_that_do_not_fit() {
    assert_eq!(parse_version_tuple("4294967295.1"), vec![4294967295, 1]);
    assert_eq!(parse_version_tuple("4294967296.1"), vec![1]);
    assert_eq!(parse_version_tuple("007.1"), vec![7, 1]);
}

#[test]
fn non_ascii_numerals_do_not_parse() {
    // '٣' is numeric but not an ASCII digit: it stays in its piece, which fails to parse.
    assert_eq!(parse_version_tuple("1٣.2"), vec![2]);
}

#[test]
fn newer_version_by_first_difference() {
    assert!(is_newer_version("0.6.0", "0.5.1"));
    assert!(is_newer_version("1.0", "0.9.9"));
    assert!(!is_newer_version("0.5.1", "0.6.0"));
    assert!(is_newer_version("1.2.10", "1.2.9"));
}

#[test]
fn equal_versions_are_not_newer() {
    assert!(!is_newer_version("1.2.3", "1.2.3"));
    assert!(!is_newer_version("v1.2.3", "1.2.3"));
}

#[test]
fn missing_numbers_count_as_zero() {
    assert!(!is_newer_version("1.0", "1"));
    assert!(!is_newer_version("1", "1.0.0"));
    assert!(is_newer_version("1.0.1", "1"));
    assert!(!is_newer_version("1", "1.0.1"));
}

#[test]
fn newer_is_transitive_on_examples() {
    assert!(is_newer_version("2.0", "1.5"));
    assert!(is_newer_version("1.5", "1.4.9"));
    assert!(is_newer_version("2.0", "1.4.9"));
}

#[test]
fn one_of_two_different_versions_is_newer() {
    for (a, b) in [("1.2", "1.3"), ("0.0.1", "0"), ("3", "2.99")] {
        assert!(is_newer_version(a, b) != is_newer_version(b, a));
    }
    assert!(!is_newer_version("1.0.0", "1") && !is_newer_version("1", "1.0.0"));
}

#[test]
fn leading_v_never_matters() {
    assert_eq!(parse_version_tuple("v1.2"), parse_version_tuple("1.2"));
    assert_eq!(parse_version_tuple("vV1.2"), parse_version_tuple("1.2"));
    assert_eq!(parse_version_tuple("Vv1.2"), parse_version_tuple("1.2"));
}

#[test]
fn unicode_whitespace_only_separates() {
    assert_eq!(parse_version_tuple("\u{3000}v1.2\u{2003}"), vec![1, 2]);
    assert_eq!(parse_version_tuple("1\u{a0}2"), vec![1, 2]);
    assert!(spotdora::text::char_is_whitespace('\u{3000}'));
    assert!(spotdora::text::char_is_whitespace('\t'));
    assert!(!spotdora::text::char_is_whitespace('\u{200b}'));
}
