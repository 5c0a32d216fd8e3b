use lilypond_studio::scores::{
    expect_row_affected, highest_untitled_index, parse_untitled_index, untitled_title, ScoreRecord,
    StoreAction,
};
use lilypond_studio::text::{chars_of, decimal_string, find, nth_field, parse_u32, starts_with, text_eq, trim};

fn chars(s: &str) -> Vec<char> {
    s.chars().collect()
}

#[test]
fn decimal_numerals_match_to_string() {
    for n in [0u64, 7, 10, 99, 100, 4096, u64::MAX] {
        assert_eq!(decimal_string(n), n.to_string());
    }
}

#[test]
fn parse_u32_follows_from_str() {
    for s in ["0", "42", "+42", "007", "4294967295", "4294967296", "", "+", "-1", "1a", " 1", "99999999999"] {
        assert_eq!(parse_u32(&chars(s)), s.parse::<u32>().ok(), "input {s:?}");
    }
}

#[test]
fn untitled_titles_round_trip() {
    for n in [0u32, 1, 13, u32::MAX] {
        let t = untitled_title(n);
        assert_eq!(t, format!("Untitled Score {n}"));
        assert_eq!(parse_untitled_index(&t), Some(n));
    }
    assert_eq!(parse_untitled_index("Untitled Score"), None);
    assert_eq!(parse_untitled_index("Untitled Score +5"), Some(5));
    assert_eq!(parse_untitled_index("untitled Score 5"), None);
    assert_eq!(parse_untitled_index("Untitled Score 5 "), None);
}

#[test]
fn highest_untitled_index_skips_other_titles() {
    let scores = vec![
        ScoreRecord { id: 1, title: "Untitled Score 3".to_string(), source: String::new() },
        ScoreRecord { id: 2, title: "Etude".to_string(), source: String::new() },
        ScoreRecord { id: 3, title: "Untitled Score 11".to_string(), source: String::new() },
        ScoreRecord { id: 4, title: "Untitled Score 2".to_string(), source: String::new() },
    ];
    assert_eq!(highest_untitled_index(&scores), 11);
    assert_eq!(highest_untitled_index(&Vec::new()), 0);
}

#[test]
fn trim_removes_unicode_whitespace_at_both_ends() {
    for s in ["", "   ", " a b ", "\t\nx\r\n", "\u{3000}wide\u{2003}", "inner  space", "é "] {
        assert_eq!(trim(s), s.trim(), "input {s:?}");
    }
}

#[test]
fn find_and_prefix_helpers() {
    assert_eq!(find(&chars("abcabc"), &chars("ca")), Some(2));
    assert_eq!(find(&chars("abc"), &chars("")), Some(0));
    assert_eq!(find(&chars("abc"), &chars("abcd")), None);
    assert_eq!(find(&chars("abc"), &chars("x")), None);
    assert!(starts_with(&chars("Untitled Score 1"), &chars("Untitled")));
    assert!(!starts_with(&chars("Un"), &chars("Untitled")));
    assert!(text_eq("px", "px"));
    assert!(!text_eq("px", "pt"));
    assert_eq!(chars_of("añb"), vec!['a', 'ñ', 'b']);
}

#[test]
fn nth_field_splits_on_whitespace() {
    let v = "0 0  595.28\t841.89 ";
    for i in 0..6 {
        assert_eq!(nth_field(v, i), v.split_whitespace().nth(i), "field {i}");
    }
    assert_eq!(nth_field("", 0), None);
}

#[test]
fn signed_numerals_match_to_string() {
    for n in [0i64, 5, -5, 1234, i64::MIN, i64::MAX] {
        assert_eq!(lilypond_studio::text::signed_decimal_string(n), n.to_string());
    }
}

#[test]
fn writes_that_change_no_row_report_the_missing_score() {
    assert!(expect_row_affected(1, 3, StoreAction::Renaming).is_ok());
    assert_eq!(
        expect_row_affected(0, 3, StoreAction::Renaming).unwrap_err().message,
        "score 3 was not found while renaming"
    );
    assert_eq!(
        expect_row_affected(0, -2, StoreAction::Saving).unwrap_err().message,
        "score -2 was not found while saving"
    );
    assert_eq!(
        expect_row_affected(0, 9, StoreAction::Deleting).unwrap_err().message,
        "score 9 was not found while deleting"
    );
}

#[test]
fn whitespace_is_the_unicode_white_space_property() {
    for c in ['\u{0}', 'a', ' ', '\t', '\n', '\u{0B}', '\u{0C}', '\r', '\u{85}', '\u{A0}', '\u{1680}',
        '\u{180E}', '\u{2000}', '\u{200A}', '\u{200B}', '\u{2028}', '\u{2029}', '\u{202F}', '\u{205F}',
        '\u{3000}', '\u{FEFF}', 'é'] {
        assert_eq!(lilypond_studio::text::is_whitespace(c), c.is_whitespace(), "char {:?}", c);
    }
}
